//! Failures that the store reports.

use vstd::prelude::*;

use crate::text::{decimal_text, push_decimal, push_text};

verus! {

/// Failure while reading store metadata or running store maintenance.
#[derive(Clone, Copy, Debug, PartialEq, Eq)]
pub enum StoreError {
    /// An age-index key has no room for its timestamp.
    IndexKeyTooShort { length: u64 },
    /// A prune-frontier key does not hold whole actor bytes.
    InvalidActorLength { length: u64 },
    /// A prune-frontier key holds a byte that is no hexadecimal digit.
    InvalidActorHexByte { byte: u8 },
    /// A barrier was observed under another root schema.
    RootSchemaMismatch { barrier: u32, current: u32 },
    /// The adapter refused to compact a register.
    CompactionRefused,
    /// The adapter refused to encode a register.
    EncodingRefused,
}

impl StoreError {
    /// Text of the failure.
    pub open spec fn text(self) -> Seq<char> {
        match self {
            StoreError::IndexKeyTooShort { length } =>
                "tombstone observed index key is too short: "@ + decimal_text(length as nat)
                    + " bytes"@,
            StoreError::InvalidActorLength { length } =>
                "invalid tombstone prune frontier actor length: "@ + decimal_text(length as nat),
            StoreError::InvalidActorHexByte { byte } =>
                "invalid tombstone prune frontier actor hex byte: "@ + decimal_text(byte as nat),
            StoreError::RootSchemaMismatch { barrier, current } =>
                "tombstone GC barrier root schema "@ + decimal_text(barrier as nat)
                    + " does not match current store root schema "@ + decimal_text(current as nat),
            StoreError::CompactionRefused => "register compaction was refused"@,
            StoreError::EncodingRefused => "register encoding was refused"@,
        }
    }

    /// Returns the text of the failure.
    pub fn message(&self) -> (out: String)
        ensures
            out@ == self.text(),
    {
        let mut out = String::new();
        match self {
            StoreError::IndexKeyTooShort { length } => {
                push_text(&mut out, "tombstone observed index key is too short: ");
                push_decimal(&mut out, *length);
                push_text(&mut out, " bytes");
            },
            StoreError::InvalidActorLength { length } => {
                push_text(&mut out, "invalid tombstone prune frontier actor length: ");
                push_decimal(&mut out, *length);
            },
            StoreError::InvalidActorHexByte { byte } => {
                push_text(&mut out, "invalid tombstone prune frontier actor hex byte: ");
                push_decimal(&mut out, *byte as u64);
            },
            StoreError::RootSchemaMismatch { barrier, current } => {
                push_text(&mut out, "tombstone GC barrier root schema ");
                push_decimal(&mut out, *barrier as u64);
                push_text(&mut out, " does not match current store root schema ");
                push_decimal(&mut out, *current as u64);
            },
            StoreError::CompactionRefused => {
                push_text(&mut out, "register compaction was refused");
            },
            StoreError::EncodingRefused => {
                push_text(&mut out, "register encoding was refused");
            },
        }
        proof { assert(out@ =~= self.text()); }
        out
    }
}

} // verus!
