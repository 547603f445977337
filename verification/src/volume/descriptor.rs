//! Identity, capacity and addressing of one volume generation.

use vstd::prelude::*;

use super::block_sizes::{BlockSizeSetting, VolumeBlockSizes, REQUIRED_BLOCK_BYTES};
use super::identity::{VolumeGeneration, VolumeId};
use crate::text::{decimal_text, push_decimal, push_text};

verus! {

/// Rejects invalid descriptor capacity and address calculations.
#[derive(Clone, Copy, Debug, PartialEq, Eq, Structural)]
pub enum DescriptorError {
    /// A usable block volume must expose at least one byte.
    ZeroCapacity,

    /// Capacity must be a whole number of every recorded block size.
    MisalignedCapacity {
        /// Unaligned logical capacity supplied by the caller.
        capacity_bytes: u64,

        /// Block size that does not divide the capacity evenly.
        setting: BlockSizeSetting,

        /// Required alignment in bytes.
        alignment_bytes: u32,
    },

    /// Logical-block-to-byte conversion exceeded the 64-bit address space.
    ByteOffsetOverflow {
        /// Logical block number being converted.
        block_number: u64,

        /// Logical sector size used by the conversion.
        logical_sector_bytes: u64,
    },

    /// The converted block begins at or beyond the end of the volume.
    BlockOutOfBounds {
        /// Logical block number requested by the caller.
        block_number: u64,

        /// Number of logical blocks in this descriptor.
        logical_block_count: u64,
    },
}

impl DescriptorError {
    /// Text of the rejection.
    pub open spec fn text(self) -> Seq<char> {
        match self {
            DescriptorError::ZeroCapacity => "volume capacity must be non-zero"@,
            DescriptorError::MisalignedCapacity { capacity_bytes, setting, alignment_bytes } =>
                "volume capacity "@ + decimal_text(capacity_bytes as nat) + " is not aligned to "@
                    + setting.text() + " size "@ + decimal_text(alignment_bytes as nat),
            DescriptorError::ByteOffsetOverflow { block_number, logical_sector_bytes } =>
                "logical block "@ + decimal_text(block_number as nat) + " at "@ + decimal_text(
                    logical_sector_bytes as nat,
                ) + " bytes overflows a 64-bit byte offset"@,
            DescriptorError::BlockOutOfBounds { block_number, logical_block_count } =>
                "logical block "@ + decimal_text(block_number as nat)
                    + " is outside a volume containing "@ + decimal_text(
                    logical_block_count as nat,
                ) + " blocks"@,
        }
    }

    /// Returns the text of the rejection.
    pub fn message(&self) -> (out: String)
        ensures
            out@ == self.text(),
    {
        let mut out = String::new();
        match self {
            DescriptorError::ZeroCapacity => {
                push_text(&mut out, "volume capacity must be non-zero");
            },
            DescriptorError::MisalignedCapacity { capacity_bytes, setting, alignment_bytes } => {
                push_text(&mut out, "volume capacity ");
                push_decimal(&mut out, *capacity_bytes);
                push_text(&mut out, " is not aligned to ");
                push_text(&mut out, setting.name());
                push_text(&mut out, " size ");
                push_decimal(&mut out, *alignment_bytes as u64);
            },
            DescriptorError::ByteOffsetOverflow { block_number, logical_sector_bytes } => {
                push_text(&mut out, "logical block ");
                push_decimal(&mut out, *block_number);
                push_text(&mut out, " at ");
                push_decimal(&mut out, *logical_sector_bytes);
                push_text(&mut out, " bytes overflows a 64-bit byte offset");
            },
            DescriptorError::BlockOutOfBounds { block_number, logical_block_count } => {
                push_text(&mut out, "logical block ");
                push_decimal(&mut out, *block_number);
                push_text(&mut out, " is outside a volume containing ");
                push_decimal(&mut out, *logical_block_count);
                push_text(&mut out, " blocks");
            },
        }
        proof { assert(out@ =~= self.text()); }
        out
    }
}

/// Non-zero logical capacity of one volume generation.
#[derive(Clone, Copy, Debug, PartialEq, Eq, PartialOrd, Ord, Structural)]
pub struct VolumeCapacity(u64);

impl VolumeCapacity {
    #[verifier::type_invariant]
    spec fn is_usable(self) -> bool {
        self.0 > 0
    }

    /// Capacity in bytes.
    pub closed spec fn size(self) -> u64 {
        self.0
    }

    /// Creates a capacity of at least one byte.
    pub fn new(bytes: u64) -> (out: Result<Self, DescriptorError>)
        ensures
            match out {
                Ok(capacity) => bytes > 0 && capacity.size() == bytes,
                Err(error) => bytes == 0 && error == DescriptorError::ZeroCapacity,
            },
    {
        if bytes == 0 { Err(DescriptorError::ZeroCapacity) } else { Ok(VolumeCapacity(bytes)) }
    }

    /// Records a capacity whose size was checked before.
    pub fn from_validated(bytes: u64) -> (out: Self)
        requires
            bytes > 0,
        ensures
            out.size() == bytes,
    {
        VolumeCapacity(bytes)
    }

    /// Returns the logical capacity in bytes.
    #[must_use]
    pub fn bytes(self) -> (out: u64)
        ensures
            out == self.size(),
            out > 0,
    {
        proof { use_type_invariant(&self); }
        self.0
    }

    /// Two capacities of the same size are the same.
    pub proof fn lemma_size(a: Self, b: Self)
        ensures
            a.size() == b.size() <==> a == b,
    {
    }
}

/// Zero-based logical block number in the volume address space.
#[derive(Clone, Copy, Debug, PartialEq, Eq, PartialOrd, Ord, Structural)]
pub struct LogicalBlockNumber(u64);

impl LogicalBlockNumber {
    /// Integer logical block number.
    pub closed spec fn value(self) -> u64 {
        self.0
    }

    /// Creates a logical block number without applying a capacity bound.
    #[must_use]
    pub fn new(value: u64) -> (out: Self)
        ensures
            out.value() == value,
    {
        LogicalBlockNumber(value)
    }

    /// Returns the integer logical block number.
    #[must_use]
    pub fn get(self) -> (out: u64)
        ensures
            out == self.value(),
    {
        self.0
    }
}

/// Byte offset derived from a checked logical-block conversion.
#[derive(Clone, Copy, Debug, PartialEq, Eq, PartialOrd, Ord, Structural)]
pub struct ByteOffset(u64);

impl ByteOffset {
    /// Offset from the beginning of the volume.
    pub closed spec fn value(self) -> u64 {
        self.0
    }

    /// Returns the byte offset from the beginning of the volume.
    #[must_use]
    pub fn bytes(self) -> (out: u64)
        ensures
            out == self.value(),
    {
        self.0
    }
}

/// Immutable identity, capacity, and block sizes for one volume generation.
#[derive(Clone, Copy, Debug, PartialEq, Eq, Structural)]
pub struct VolumeDescriptor {
    volume_id: VolumeId,
    generation: VolumeGeneration,
    capacity: VolumeCapacity,
    block_sizes: VolumeBlockSizes,
}

/// Why a descriptor cannot have the capacity, if it cannot.
///
/// All four block sizes are equal, so the logical sector is the first that fails.
pub open spec fn capacity_error(capacity_bytes: u64) -> Option<DescriptorError> {
    if capacity_bytes == 0 {
        Some(DescriptorError::ZeroCapacity)
    } else if capacity_bytes % (REQUIRED_BLOCK_BYTES as u64) != 0 {
        Some(
            DescriptorError::MisalignedCapacity {
                capacity_bytes,
                setting: BlockSizeSetting::LogicalSector,
                alignment_bytes: REQUIRED_BLOCK_BYTES,
            },
        )
    } else {
        None
    }
}

impl VolumeDescriptor {
    #[verifier::type_invariant]
    spec fn is_aligned(self) -> bool {
        capacity_error(self.capacity.size()) is None
    }

    /// Stable volume identity.
    pub closed spec fn id(self) -> VolumeId {
        self.volume_id
    }

    /// Destructive-reprovisioning generation.
    pub closed spec fn generation_of(self) -> VolumeGeneration {
        self.generation
    }

    /// Logical capacity.
    pub closed spec fn capacity_of(self) -> VolumeCapacity {
        self.capacity
    }

    /// Recorded block sizes.
    pub closed spec fn sizes(self) -> VolumeBlockSizes {
        self.block_sizes
    }

    /// The same descriptor with another capacity.
    pub closed spec fn resized(self, capacity: VolumeCapacity) -> Self {
        VolumeDescriptor { capacity, ..self }
    }

    /// Resizing changes the capacity and nothing else.
    pub proof fn lemma_resized(self, capacity: VolumeCapacity)
        ensures
            self.resized(capacity).id() == self.id(),
            self.resized(capacity).generation_of() == self.generation_of(),
            self.resized(capacity).capacity_of() == capacity,
            self.resized(capacity).sizes() == self.sizes(),
    {
    }

    /// Creates an immutable descriptor without imposing a product capacity cap.
    pub fn new(
        volume_id: VolumeId,
        generation: VolumeGeneration,
        capacity_bytes: u64,
        block_sizes: VolumeBlockSizes,
    ) -> (out: Result<Self, DescriptorError>)
        ensures
            match out {
                Ok(descriptor) => {
                    &&& capacity_error(capacity_bytes) is None
                    &&& descriptor.id() == volume_id
                    &&& descriptor.generation_of() == generation
                    &&& descriptor.capacity_of().size() == capacity_bytes
                    &&& descriptor.sizes() == block_sizes
                },
                Err(error) => capacity_error(capacity_bytes) == Some(error),
            },
    {
        let capacity = match VolumeCapacity::new(capacity_bytes) {
            Ok(capacity) => capacity,
            Err(error) => {
                return Err(error);
            },
        };
        let alignments: [(BlockSizeSetting, u32); 4] = [
            (BlockSizeSetting::LogicalSector, block_sizes.logical_sector().bytes()),
            (BlockSizeSetting::PhysicalBlock, block_sizes.physical_block().bytes()),
            (BlockSizeSetting::MinimumIo, block_sizes.minimum_io().bytes()),
            (BlockSizeSetting::DataBlock, block_sizes.data_block().bytes()),
        ];
        let mut i: usize = 0;
        while i < 4
            invariant
                i <= 4,
                capacity_bytes > 0,
                alignments@.len() == 4,
                alignments@[0] == (BlockSizeSetting::LogicalSector, REQUIRED_BLOCK_BYTES),
                forall|k: int|
                    #![trigger alignments@[k]]
                    0 <= k < 4 ==> alignments@[k].1 == REQUIRED_BLOCK_BYTES,
                i > 0 ==> capacity_error(capacity_bytes) is None,
            decreases 4 - i,
        {
            let (setting, alignment) = alignments[i];
            if capacity_bytes % (alignment as u64) != 0 {
                return Err(
                    DescriptorError::MisalignedCapacity {
                        capacity_bytes,
                        setting,
                        alignment_bytes: alignment,
                    },
                );
            }
            i += 1;
        }
        Ok(VolumeDescriptor { volume_id, generation, capacity, block_sizes })
    }

    /// Returns the descriptor of the same generation with another capacity.
    pub fn with_capacity(&self, capacity: VolumeCapacity) -> (out: Result<Self, DescriptorError>)
        ensures
            match out {
                Ok(descriptor) => capacity_error(capacity.size()) is None && descriptor
                    == self.resized(capacity),
                Err(error) => capacity_error(capacity.size()) == Some(error),
            },
    {
        let out = Self::new(
            self.volume_id,
            self.generation,
            capacity.bytes(),
            self.block_sizes,
        );
        proof {
            if let Ok(descriptor) = out {
                VolumeCapacity::lemma_size(descriptor.capacity, capacity);
            }
        }
        out
    }

    /// Returns whether both descriptors name the same stored data, whatever its capacity.
    #[must_use]
    pub fn has_same_storage_identity(&self, other: &Self) -> (out: bool)
        ensures
            out == (self.id() == other.id() && self.generation_of() == other.generation_of()
                && self.sizes() == other.sizes()),
    {
        self.volume_id == other.volume_id && self.generation == other.generation
            && self.block_sizes == other.block_sizes
    }

    /// Returns the stable volume identity.
    #[must_use]
    pub fn volume_id(&self) -> (out: VolumeId)
        ensures
            out == self.id(),
    {
        self.volume_id
    }

    /// Returns the destructive-reprovisioning generation.
    #[must_use]
    pub fn generation(&self) -> (out: VolumeGeneration)
        ensures
            out == self.generation_of(),
    {
        self.generation
    }

    /// Returns the logical capacity.
    #[must_use]
    pub fn capacity(&self) -> (out: VolumeCapacity)
        ensures
            out == self.capacity_of(),
            capacity_error(out.size()) is None,
    {
        proof { use_type_invariant(self); }
        self.capacity
    }

    /// Returns all four block sizes recorded in the descriptor.
    #[must_use]
    pub fn block_sizes(&self) -> (out: VolumeBlockSizes)
        ensures
            out == self.sizes(),
    {
        self.block_sizes
    }

    /// Returns the number of addressable logical sectors.
    #[must_use]
    pub fn logical_block_count(&self) -> (out: u64)
        ensures
            out * REQUIRED_BLOCK_BYTES == self.capacity_of().size(),
            out > 0,
    {
        proof { use_type_invariant(self); }
        self.capacity.bytes() / (self.block_sizes.logical_sector().bytes() as u64)
    }

    /// Converts a logical block number to a checked in-volume byte offset.
    pub fn byte_offset(&self, block_number: LogicalBlockNumber) -> (out: Result<
        ByteOffset,
        DescriptorError,
    >)
        ensures
            match out {
                Ok(offset) => {
                    &&& offset.value() == block_number.value() * REQUIRED_BLOCK_BYTES
                    &&& offset.value() < self.capacity_of().size()
                },
                Err(DescriptorError::ByteOffsetOverflow {
                    block_number: number,
                    logical_sector_bytes,
                }) => {
                    &&& number == block_number.value()
                    &&& logical_sector_bytes == REQUIRED_BLOCK_BYTES
                    &&& number * REQUIRED_BLOCK_BYTES > u64::MAX
                },
                Err(DescriptorError::BlockOutOfBounds {
                    block_number: number,
                    logical_block_count,
                }) => {
                    &&& number == block_number.value()
                    &&& logical_block_count * REQUIRED_BLOCK_BYTES == self.capacity_of().size()
                    &&& self.capacity_of().size() <= number * REQUIRED_BLOCK_BYTES <= u64::MAX
                },
                Err(_) => false,
            },
    {
        let sector_bytes: u64 = self.block_sizes.logical_sector().bytes() as u64;
        let offset: u64 = match block_number.get().checked_mul(sector_bytes) {
            Some(offset) => offset,
            None => {
                return Err(
                    DescriptorError::ByteOffsetOverflow {
                        block_number: block_number.get(),
                        logical_sector_bytes: sector_bytes,
                    },
                );
            },
        };
        if offset >= self.capacity.bytes() {
            return Err(
                DescriptorError::BlockOutOfBounds {
                    block_number: block_number.get(),
                    logical_block_count: self.logical_block_count(),
                },
            );
        }
        Ok(ByteOffset(offset))
    }
}

/// Every block that the descriptor counts has an offset, and offsets of distinct blocks
/// lie at least one block apart.
pub proof fn law_blocks_do_not_overlap(capacity_bytes: u64, count: u64, a: u64, b: u64)
    requires
        count * REQUIRED_BLOCK_BYTES == capacity_bytes,
        a < b,
    ensures
        b < count ==> b * REQUIRED_BLOCK_BYTES + REQUIRED_BLOCK_BYTES <= capacity_bytes,
        a * REQUIRED_BLOCK_BYTES + REQUIRED_BLOCK_BYTES <= b * REQUIRED_BLOCK_BYTES,
        b * REQUIRED_BLOCK_BYTES < capacity_bytes <==> b < count,
{
}

} // verus!
