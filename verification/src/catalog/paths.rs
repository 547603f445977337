//! Names and paths under which replicas are stored.

use vstd::prelude::*;

use super::model::ReplicaKey;
use crate::bytes::{append_bytes, be_bytes, law_be_round_trip, lemma_byte_ranges, push_be};
use crate::text::{decimal_text, hex_text, push_decimal};

verus! {

/// Hyphenated form of thirty-two hexadecimal digits.
pub open spec fn hyphenated(hex: Seq<char>) -> Seq<char> {
    hex.subrange(0, 8) + seq!['-'] + hex.subrange(8, 12) + seq!['-'] + hex.subrange(12, 16)
        + seq!['-'] + hex.subrange(16, 20) + seq!['-'] + hex.subrange(20, 32)
}

/// Formats a `uuid::Uuid` made of the given number with its `Display` form: thirty-two
/// lowercase hexadecimal digits, most significant first, in groups of eight, four, four,
/// four and twelve.
#[verifier::external_body]
pub(crate) fn uuid_text(value: u128) -> (out: String)
    ensures
        out@ == hyphenated(hex_text(value as nat, 32)),
{
    uuid::Uuid::from_u128(value).to_string()
}

/// Name of the one directory allowed for a replica.
pub open spec fn directory_text(key: ReplicaKey) -> Seq<char> {
    hyphenated(hex_text(key.volume().value() as nat, 32)) + seq!['-'] + decimal_text(
        key.generation_of().value() as nat,
    )
}

/// Builds the one directory component allowed for this local replica.
pub fn directory_name(key: ReplicaKey) -> (out: String)
    ensures
        out@ == directory_text(key),
{
    let mut out = uuid_text(key.volume_id().as_u128());
    out.push('-');
    push_decimal(&mut out, key.generation().get());
    proof { assert(out@ =~= directory_text(key)); }
    out
}

/// Table key of a replica: volume bytes followed by a big-endian generation.
pub open spec fn key_bytes(key: ReplicaKey) -> Seq<u8> {
    be_bytes(key.volume().value() as nat, 16) + be_bytes(key.generation_of().value() as nat, 8)
}

/// Different volumes and generations have different table keys.
pub proof fn law_table_keys_are_distinct(a: ReplicaKey, b: ReplicaKey)
    ensures
        key_bytes(a) == key_bytes(b) ==> a.volume().value() == b.volume().value()
            && a.generation_of().value() == b.generation_of().value(),
{
    lemma_byte_ranges();
    law_be_round_trip(a.volume().value() as nat, 16);
    law_be_round_trip(b.volume().value() as nat, 16);
    law_be_round_trip(a.generation_of().value() as nat, 8);
    law_be_round_trip(b.generation_of().value() as nat, 8);
    assert(key_bytes(a).take(16) =~= be_bytes(a.volume().value() as nat, 16));
    assert(key_bytes(b).take(16) =~= be_bytes(b.volume().value() as nat, 16));
    assert(key_bytes(a).skip(16) =~= be_bytes(a.generation_of().value() as nat, 8));
    assert(key_bytes(b).skip(16) =~= be_bytes(b.generation_of().value() as nat, 8));
}

/// Encodes UUID bytes followed by a big-endian generation.
pub fn encode_key(key: ReplicaKey) -> (out: Vec<u8>)
    ensures
        out@ == key_bytes(key),
{
    let mut out: Vec<u8> = Vec::new();
    push_be(&mut out, key.volume_id().as_u128(), 16);
    push_be(&mut out, key.generation().get() as u128, 8);
    proof { assert(out@ =~= key_bytes(key)); }
    out
}

/// Encodes the stable volume identity used to bound retirement proof to one row.
pub fn encode_volume_key(key: ReplicaKey) -> (out: Vec<u8>)
    ensures
        out@ == be_bytes(key.volume().value() as nat, 16),
{
    let mut out: Vec<u8> = Vec::new();
    push_be(&mut out, key.volume_id().as_u128(), 16);
    proof { assert(out@ =~= be_bytes(key.volume().value() as nat, 16)); }
    out
}

/// Path made of a directory and what lies below it.
pub open spec fn joined(directory: Seq<u8>, below: Seq<u8>) -> Seq<u8> {
    if below.len() > 0 && below[0] == 47 {
        below
    } else if directory.len() == 0 || directory.last() == 47 {
        directory + below
    } else {
        directory + seq![47u8] + below
    }
}

/// Appends a path below a directory; an absolute path takes the directory's place.
pub fn join(directory: &[u8], below: &[u8]) -> (out: Vec<u8>)
    ensures
        out@ == joined(directory@, below@),
{
    let mut out: Vec<u8> = Vec::new();
    if below.len() > 0 && below[0] == 47 {
        append_bytes(&mut out, below);
        proof { assert(out@ =~= below@); }
        return out;
    }
    append_bytes(&mut out, directory);
    if directory.len() > 0 && directory[directory.len() - 1] != 47 {
        out.push(47);
    }
    append_bytes(&mut out, below);
    proof { assert(out@ =~= joined(directory@, below@)); }
    out
}

} // verus!
