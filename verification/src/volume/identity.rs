//! Identities that stay with a volume, its nodes and its grants.

use vstd::prelude::*;

use crate::text::push_text;

verus! {

/// Rejects identities that cannot name anything.
#[derive(Clone, Copy, Debug, PartialEq, Eq, Structural)]
pub enum IdentityError {
    /// The nil value names nothing.
    Nil,

    /// Counters of generations and fences begin with one.
    Zero,
}

impl IdentityError {
    /// Text of the rejection.
    pub open spec fn text(self) -> Seq<char> {
        match self {
            IdentityError::Nil => "identity must not be nil"@,
            IdentityError::Zero => "generation or fence must not be zero"@,
        }
    }

    /// Returns the text of the rejection.
    pub fn message(&self) -> (out: String)
        ensures
            out@ == self.text(),
    {
        let mut out = String::new();
        match self {
            IdentityError::Nil => {
                push_text(&mut out, "identity must not be nil");
            },
            IdentityError::Zero => {
                push_text(&mut out, "generation or fence must not be zero");
            },
        }
        proof { assert(out@ =~= self.text()); }
        out
    }
}

/// Stable identity of one volume.
#[derive(Clone, Copy, Debug, PartialEq, Eq, PartialOrd, Ord, Hash, Structural)]
pub struct VolumeId(u128);

impl VolumeId {
    #[verifier::type_invariant]
    spec fn is_usable(self) -> bool {
        self.0 != 0
    }

    /// Identity with the given number.
    pub closed spec fn made(value: u128) -> Self {
        VolumeId(value)
    }

    /// An identity is its number.
    pub proof fn lemma_made(value: u128, other: Self)
        ensures
            Self::made(value).value() == value,
            Self::made(other.value()) == other,
    {
    }

    /// Number that makes up the identity.
    pub closed spec fn value(self) -> u128 {
        self.0
    }

    /// Creates an identity from its 128 bits.
    pub fn new(value: u128) -> (out: Result<Self, IdentityError>)
        ensures
            match out {
                Ok(id) => value != 0 && id.value() == value,
                Err(error) => value == 0 && error == IdentityError::Nil,
            },
    {
        if value == 0 { Err(IdentityError::Nil) } else { Ok(VolumeId(value)) }
    }

    /// Returns the 128 bits of the identity.
    #[must_use]
    pub fn as_u128(self) -> (out: u128)
        ensures
            out == self.value(),
            out != 0,
    {
        proof { use_type_invariant(&self); }
        self.0
    }
}

/// Stable identity of one node that stores copies.
#[derive(Clone, Copy, Debug, PartialEq, Eq, PartialOrd, Ord, Hash, Structural)]
pub struct VolumeNodeId(u128);

impl VolumeNodeId {
    /// Identity with the given number.
    pub closed spec fn made(value: u128) -> Self {
        VolumeNodeId(value)
    }

    /// An identity is its number.
    pub proof fn lemma_made(value: u128, other: Self)
        ensures
            Self::made(value).value() == value,
            Self::made(other.value()) == other,
    {
    }

    /// Number that makes up the identity.
    pub closed spec fn value(self) -> u128 {
        self.0
    }

    /// Creates an identity from its 128 bits.
    pub fn new(value: u128) -> (out: Result<Self, IdentityError>)
        ensures
            match out {
                Ok(id) => value != 0 && id.value() == value,
                Err(error) => value == 0 && error == IdentityError::Nil,
            },
    {
        if value == 0 { Err(IdentityError::Nil) } else { Ok(VolumeNodeId(value)) }
    }

    /// Returns the 128 bits of the identity.
    #[must_use]
    pub fn as_u128(self) -> (out: u128)
        ensures
            out == self.value(),
    {
        self.0
    }

    /// Two nodes with the same number are the same node.
    pub proof fn lemma_value(a: Self, b: Self)
        ensures
            a.value() == b.value() <==> a == b,
    {
    }
}

/// Locally durable identity of one driver creation attempt.
#[derive(Clone, Copy, Debug, PartialEq, Eq, PartialOrd, Ord, Hash, Structural)]
pub struct DriverSessionId(u128);

impl DriverSessionId {
    /// Identity with the given number.
    pub closed spec fn made(value: u128) -> Self {
        DriverSessionId(value)
    }

    /// An identity is its number.
    pub proof fn lemma_made(value: u128, other: Self)
        ensures
            Self::made(value).value() == value,
            Self::made(other.value()) == other,
    {
    }

    /// Number that makes up the identity.
    pub closed spec fn value(self) -> u128 {
        self.0
    }

    /// Creates an identity from its 128 bits.
    pub fn new(value: u128) -> (out: Result<Self, IdentityError>)
        ensures
            match out {
                Ok(id) => value != 0 && id.value() == value,
                Err(error) => value == 0 && error == IdentityError::Nil,
            },
    {
        if value == 0 { Err(IdentityError::Nil) } else { Ok(DriverSessionId(value)) }
    }

    /// Returns the 128 bits of the identity.
    #[must_use]
    pub fn as_u128(self) -> (out: u128)
        ensures
            out == self.value(),
    {
        self.0
    }
}

/// Identity of one recovery authorization.
#[derive(Clone, Copy, Debug, PartialEq, Eq, PartialOrd, Ord, Hash, Structural)]
pub struct RecoveryId(u128);

impl RecoveryId {
    /// Identity with the given number.
    pub closed spec fn made(value: u128) -> Self {
        RecoveryId(value)
    }

    /// An identity is its number.
    pub proof fn lemma_made(value: u128, other: Self)
        ensures
            Self::made(value).value() == value,
            Self::made(other.value()) == other,
    {
    }

    /// Number that makes up the identity.
    pub closed spec fn value(self) -> u128 {
        self.0
    }

    /// Creates an identity from its 128 bits.
    pub fn new(value: u128) -> (out: Result<Self, IdentityError>)
        ensures
            match out {
                Ok(id) => value != 0 && id.value() == value,
                Err(error) => value == 0 && error == IdentityError::Nil,
            },
    {
        if value == 0 { Err(IdentityError::Nil) } else { Ok(RecoveryId(value)) }
    }

    /// Returns the 128 bits of the identity.
    #[must_use]
    pub fn as_u128(self) -> (out: u128)
        ensures
            out == self.value(),
    {
        self.0
    }
}

/// Identity of one replacement authorization.
#[derive(Clone, Copy, Debug, PartialEq, Eq, PartialOrd, Ord, Hash, Structural)]
pub struct ReplacementId(u128);

impl ReplacementId {
    /// Identity with the given number.
    pub closed spec fn made(value: u128) -> Self {
        ReplacementId(value)
    }

    /// An identity is its number.
    pub proof fn lemma_made(value: u128, other: Self)
        ensures
            Self::made(value).value() == value,
            Self::made(other.value()) == other,
    {
    }

    /// Number that makes up the identity.
    pub closed spec fn value(self) -> u128 {
        self.0
    }

    /// Creates an identity from its 128 bits.
    pub fn new(value: u128) -> (out: Result<Self, IdentityError>)
        ensures
            match out {
                Ok(id) => value != 0 && id.value() == value,
                Err(error) => value == 0 && error == IdentityError::Nil,
            },
    {
        if value == 0 { Err(IdentityError::Nil) } else { Ok(ReplacementId(value)) }
    }

    /// Returns the 128 bits of the identity.
    #[must_use]
    pub fn as_u128(self) -> (out: u128)
        ensures
            out == self.value(),
    {
        self.0
    }
}

/// Identity of one provisioning operation.
#[derive(Clone, Copy, Debug, PartialEq, Eq, PartialOrd, Ord, Hash, Structural)]
pub struct OperationId(u128);

impl OperationId {
    /// Identity with the given number.
    pub closed spec fn made(value: u128) -> Self {
        OperationId(value)
    }

    /// An identity is its number.
    pub proof fn lemma_made(value: u128, other: Self)
        ensures
            Self::made(value).value() == value,
            Self::made(other.value()) == other,
    {
    }

    /// Number that makes up the identity.
    pub closed spec fn value(self) -> u128 {
        self.0
    }

    /// Creates an identity from its 128 bits.
    pub fn new(value: u128) -> (out: Result<Self, IdentityError>)
        ensures
            match out {
                Ok(id) => value != 0 && id.value() == value,
                Err(error) => value == 0 && error == IdentityError::Nil,
            },
    {
        if value == 0 { Err(IdentityError::Nil) } else { Ok(OperationId(value)) }
    }

    /// Returns the 128 bits of the identity.
    #[must_use]
    pub fn as_u128(self) -> (out: u128)
        ensures
            out == self.value(),
    {
        self.0
    }
}

/// Identity written into one formatted filesystem.
#[derive(Clone, Copy, Debug, PartialEq, Eq, PartialOrd, Ord, Hash, Structural)]
pub struct FilesystemId(u128);

impl FilesystemId {
    /// Identity with the given number.
    pub closed spec fn made(value: u128) -> Self {
        FilesystemId(value)
    }

    /// An identity is its number.
    pub proof fn lemma_made(value: u128, other: Self)
        ensures
            Self::made(value).value() == value,
            Self::made(other.value()) == other,
    {
    }

    /// Number that makes up the identity.
    pub closed spec fn value(self) -> u128 {
        self.0
    }

    /// Creates an identity from its 128 bits.
    pub fn new(value: u128) -> (out: Result<Self, IdentityError>)
        ensures
            match out {
                Ok(id) => value != 0 && id.value() == value,
                Err(error) => value == 0 && error == IdentityError::Nil,
            },
    {
        if value == 0 { Err(IdentityError::Nil) } else { Ok(FilesystemId(value)) }
    }

    /// Returns the 128 bits of the identity.
    #[must_use]
    pub fn as_u128(self) -> (out: u128)
        ensures
            out == self.value(),
    {
        self.0
    }
}

/// Destructive-reprovisioning generation of one volume, counted from one.
#[derive(Clone, Copy, Debug, PartialEq, Eq, PartialOrd, Ord, Hash, Structural)]
pub struct VolumeGeneration(u64);

impl VolumeGeneration {
    #[verifier::type_invariant]
    spec fn is_usable(self) -> bool {
        self.0 != 0
    }

    /// Identity with the given number.
    pub closed spec fn made(value: u64) -> Self {
        VolumeGeneration(value)
    }

    /// An identity is its number.
    pub proof fn lemma_made(value: u64, other: Self)
        ensures
            Self::made(value).value() == value,
            Self::made(other.value()) == other,
    {
    }

    /// Number of the generation.
    pub closed spec fn value(self) -> u64 {
        self.0
    }

    /// Creates a generation from its number.
    pub fn new(value: u64) -> (out: Result<Self, IdentityError>)
        ensures
            match out {
                Ok(generation) => value != 0 && generation.value() == value,
                Err(error) => value == 0 && error == IdentityError::Zero,
            },
    {
        if value == 0 { Err(IdentityError::Zero) } else { Ok(VolumeGeneration(value)) }
    }

    /// Returns the number of the generation.
    #[must_use]
    pub fn get(self) -> (out: u64)
        ensures
            out == self.value(),
            out != 0,
    {
        proof { use_type_invariant(&self); }
        self.0
    }

    /// Two generations with the same number are the same.
    pub proof fn lemma_value(a: Self, b: Self)
        ensures
            a.value() == b.value() <==> a == b,
    {
    }
}

/// Monotonic value that rejects every older data operation, counted from one.
#[derive(Clone, Copy, Debug, PartialEq, Eq, PartialOrd, Ord, Hash, Structural)]
pub struct FenceEpoch(u64);

impl FenceEpoch {
    /// Identity with the given number.
    pub closed spec fn made(value: u64) -> Self {
        FenceEpoch(value)
    }

    /// An identity is its number.
    pub proof fn lemma_made(value: u64, other: Self)
        ensures
            Self::made(value).value() == value,
            Self::made(other.value()) == other,
    {
    }

    /// Number of the fence.
    pub closed spec fn value(self) -> u64 {
        self.0
    }

    /// Fence of a freshly initialized volume.
    pub closed spec fn first() -> Self {
        FenceEpoch(1)
    }

    /// Next fence, if it can be represented.
    pub closed spec fn following(self) -> Option<Self> {
        if self.0 == u64::MAX { None } else { Some(FenceEpoch((self.0 + 1) as u64)) }
    }

    /// Creates a fence from its number.
    pub fn new(value: u64) -> (out: Result<Self, IdentityError>)
        ensures
            match out {
                Ok(fence) => value != 0 && fence.value() == value,
                Err(error) => value == 0 && error == IdentityError::Zero,
            },
    {
        if value == 0 { Err(IdentityError::Zero) } else { Ok(FenceEpoch(value)) }
    }

    /// Returns the fence of a freshly initialized volume.
    #[must_use]
    pub fn initial() -> (out: Self)
        ensures
            out == Self::first(),
            out.value() == 1,
    {
        FenceEpoch(1)
    }

    /// Returns the number of the fence.
    #[must_use]
    pub fn get(self) -> (out: u64)
        ensures
            out == self.value(),
    {
        self.0
    }

    /// Returns the next fence, if it can be represented.
    #[must_use]
    pub fn next(self) -> (out: Option<Self>)
        ensures
            out == self.following(),
            match out {
                Some(fence) => fence.value() == self.value() + 1,
                None => self.value() == u64::MAX,
            },
    {
        if self.0 == u64::MAX { None } else { Some(FenceEpoch(self.0 + 1)) }
    }

    /// The next fence is one larger and missing only at the maximum; two fences with
    /// the same number are the same.
    pub proof fn lemma_following(self, other: Self)
        ensures
            Self::first().value() == 1,
            match self.following() {
                Some(fence) => fence.value() == self.value() + 1,
                None => self.value() == u64::MAX,
            },
            self.value() == other.value() <==> self == other,
    {
    }
}

} // verus!
