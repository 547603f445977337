//! Delete markers, their age-index keys and the prune frontiers.

use vstd::prelude::*;
use vstd::string::*;
use vstd::utf8::*;

use crate::bytes::{
    append_bytes, be_bytes, be_value, bytes_less, copy_bytes, is_bytes_less, law_be_round_trip,
    lemma_byte_ranges, lemma_bytes_order, push_be, read_be, same_bytes,
};
use crate::store::error::StoreError;
use crate::text::{
    bytes_of_hex, hex_nibble, hex_of_bytes, law_hex_round_trip, nibble_value, push_hex_bytes,
    push_text,
};

verus! {

/// Delete marker as plain values.
pub struct TombstoneView {
    /// Delete generation of the origin actor.
    pub sequence: u64,
    /// Actor that deleted the key.
    pub origin_actor: Seq<u8>,
    /// Local time at which this node saw the delete.
    pub observed_at_unix_ms: u64,
}

impl TombstoneView {
    /// The marker is newer than another: by sequence, then by origin actor.
    pub open spec fn newer_than(self, other: TombstoneView) -> bool {
        self.sequence > other.sequence || (self.sequence == other.sequence && bytes_less(
            other.origin_actor,
            self.origin_actor,
        ))
    }
}

/// Durable delete marker of one key.
#[derive(Debug, PartialEq, Eq)]
pub struct TombstoneRecord {
    /// Delete generation of the origin actor.
    pub sequence: u64,
    /// Actor that deleted the key.
    pub origin_actor: Vec<u8>,
    /// Local time at which this node saw the delete.
    pub observed_at_unix_ms: u64,
}

impl View for TombstoneRecord {
    type V = TombstoneView;

    open spec fn view(&self) -> TombstoneView {
        TombstoneView {
            sequence: self.sequence,
            origin_actor: self.origin_actor@,
            observed_at_unix_ms: self.observed_at_unix_ms,
        }
    }
}

impl Clone for TombstoneRecord {
    fn clone(&self) -> (out: Self)
        ensures
            out@ == self@,
    {
        TombstoneRecord {
            sequence: self.sequence,
            origin_actor: copy_bytes(&self.origin_actor),
            observed_at_unix_ms: self.observed_at_unix_ms,
        }
    }
}

impl TombstoneRecord {
    /// Builds one delete marker.
    pub fn new(sequence: u64, origin_actor: Vec<u8>, observed_at_unix_ms: u64) -> (out: Self)
        ensures
            out@ == (TombstoneView { sequence, origin_actor: origin_actor@, observed_at_unix_ms }),
    {
        TombstoneRecord { sequence, origin_actor, observed_at_unix_ms }
    }

    /// Returns whether this marker replaces the other.
    pub fn dominates(&self, other: &Self) -> (out: bool)
        ensures
            out == self@.newer_than(other@),
    {
        self.sequence > other.sequence || (self.sequence == other.sequence && is_bytes_less(
            &other.origin_actor,
            &self.origin_actor,
        ))
    }

    /// Returns whether two markers are the same in every field.
    pub fn same(&self, other: &Self) -> (out: bool)
        ensures
            out == (self@ == other@),
    {
        self.sequence == other.sequence && self.observed_at_unix_ms == other.observed_at_unix_ms
            && same_bytes(&self.origin_actor, &other.origin_actor)
    }
}

/// Marker with its local observation time filled in where it had none.
pub open spec fn stamped(record: TombstoneView, observed_at_unix_ms: u64) -> TombstoneView {
    TombstoneView {
        observed_at_unix_ms: if record.observed_at_unix_ms == 0 {
            observed_at_unix_ms
        } else {
            record.observed_at_unix_ms
        },
        ..record
    }
}

/// Marker that represents a deleted key: an incoming one only where it is newer.
pub open spec fn winning(
    current: Option<TombstoneView>,
    incoming: TombstoneView,
) -> TombstoneView {
    match current {
        Some(held) => if incoming.newer_than(held) { incoming } else { held },
        None => incoming,
    }
}

/// Fills missing local observation time for a tombstone received from the wire.
///
/// Sync carries origin sequence and actor, but not the receiver's observation timestamp.
/// The timestamp is local-only GC metadata, so each node stamps inbound tombstones when
/// it first prepares them for durable storage.
pub fn normalize_incoming_tombstone(
    record: TombstoneRecord,
    observed_at_unix_ms: u64,
) -> (out: TombstoneRecord)
    ensures
        out@ == stamped(record@, observed_at_unix_ms),
{
    if record.observed_at_unix_ms == 0 {
        TombstoneRecord {
            sequence: record.sequence,
            origin_actor: record.origin_actor,
            observed_at_unix_ms,
        }
    } else {
        record
    }
}

/// Selects the durable tombstone that should represent one deleted key.
///
/// Sequence is the primary monotonic delete generation. Origin actor is only a stable
/// tie-breaker for the rare case where two actors create same-sequence tombstones for
/// the same key before those deletes converge.
pub fn merge_tombstone_records(
    current: Option<TombstoneRecord>,
    incoming: TombstoneRecord,
) -> (out: TombstoneRecord)
    ensures
        out@ == winning(
            match current {
                Some(held) => Some(held@),
                None => None,
            },
            incoming@,
        ),
{
    match current {
        Some(held) => if incoming.dominates(&held) { incoming } else { held },
        None => incoming,
    }
}

/// Age-index key of one marker: its big-endian time, then the raw key.
pub open spec fn observed_index_key(key_bytes: Seq<u8>, record: TombstoneView) -> Seq<u8> {
    be_bytes(record.observed_at_unix_ms as nat, 8) + key_bytes
}

/// Builds the age-index key for one tombstone row.
///
/// Big-endian time keeps range scans in chronological order. The raw key suffix makes
/// the index unique even when many tombstones are observed in the same millisecond.
pub fn tombstone_observed_index_key(key_bytes: &[u8], record: &TombstoneRecord) -> (out: Vec<u8>)
    ensures
        out@ == observed_index_key(key_bytes@, record@),
{
    let mut out: Vec<u8> = Vec::new();
    push_be(&mut out, record.observed_at_unix_ms as u128, 8);
    append_bytes(&mut out, key_bytes);
    proof { assert(out@ =~= observed_index_key(key_bytes@, record@)); }
    out
}

/// Splits an observed-time index key into `(observed_at_unix_ms, raw key bytes)`.
pub fn tombstone_observed_index_parts(index_key: &[u8]) -> (out: Result<(u64, Vec<u8>), StoreError>)
    ensures
        match out {
            Ok((time, key)) => {
                &&& index_key@.len() >= 8
                &&& time == be_value(index_key@.take(8))
                &&& key@ == index_key@.skip(8)
            },
            Err(error) => {
                &&& index_key@.len() < 8
                &&& error == (StoreError::IndexKeyTooShort { length: index_key@.len() as u64 })
            },
        },
{
    if index_key.len() < 8 {
        return Err(StoreError::IndexKeyTooShort { length: index_key.len() as u64 });
    }
    let (head, tail) = index_key.split_at(8);
    let time = read_be(head);
    proof {
        assert(head@ =~= index_key@.take(8));
        assert(tail@ =~= index_key@.skip(8));
        crate::bytes::law_be_bytes_of_value(head@);
        lemma_byte_ranges();
    }
    Ok((time as u64, copy_bytes(tail)))
}

/// The parts of an age-index key are the time and the key that it was built from.
pub proof fn law_index_key_round_trip(key_bytes: Seq<u8>, record: TombstoneView)
    ensures
        observed_index_key(key_bytes, record).len() >= 8,
        be_value(observed_index_key(key_bytes, record).take(8)) == record.observed_at_unix_ms,
        observed_index_key(key_bytes, record).skip(8) == key_bytes,
{
    lemma_byte_ranges();
    law_be_round_trip(record.observed_at_unix_ms as nat, 8);
    let head = be_bytes(record.observed_at_unix_ms as nat, 8);
    assert(observed_index_key(key_bytes, record).take(8) =~= head);
    assert(observed_index_key(key_bytes, record).skip(8) =~= key_bytes);
}

/// Age-index keys sort by observation time first and by raw key within one time.
pub proof fn law_index_keys_sort_by_age(
    key_a: Seq<u8>,
    a: TombstoneView,
    key_b: Seq<u8>,
    b: TombstoneView,
)
    ensures
        bytes_less(observed_index_key(key_a, a), observed_index_key(key_b, b)) <==> (
        a.observed_at_unix_ms < b.observed_at_unix_ms || (a.observed_at_unix_ms
            == b.observed_at_unix_ms && bytes_less(key_a, key_b))),
{
    lemma_byte_ranges();
    let p = be_bytes(a.observed_at_unix_ms as nat, 8);
    let q = be_bytes(b.observed_at_unix_ms as nat, 8);
    law_be_round_trip(a.observed_at_unix_ms as nat, 8);
    law_be_round_trip(b.observed_at_unix_ms as nat, 8);
    crate::bytes::law_be_order(p, q);
    if p == q {
        crate::bytes::lemma_bytes_less_prefix(p, key_a, key_b);
    } else {
        crate::bytes::lemma_bytes_less_decided(p, q, key_a, key_b);
    }
}

/// Which of two markers stays does not depend on which came first.
pub proof fn law_tombstone_merge_converges(a: TombstoneView, b: TombstoneView)
    requires
        a.sequence == b.sequence && a.origin_actor == b.origin_actor ==> a == b,
    ensures
        winning(Some(a), b) == winning(Some(b), a),
{
    lemma_bytes_order(a.origin_actor, b.origin_actor);
}

/// A stale marker never replaces a newer one, and a marker merged with itself stays.
pub proof fn law_tombstone_merge_is_monotonic(current: TombstoneView, incoming: TombstoneView)
    ensures
        winning(Some(current), incoming).sequence >= current.sequence,
        winning(Some(current), incoming).sequence >= incoming.sequence,
        winning(Some(current), current) == current,
{
    lemma_bytes_order(current.origin_actor, current.origin_actor);
}

/// Metadata key of one origin actor's prune frontier.
pub open spec fn frontier_key_text(origin_actor: Seq<u8>) -> Seq<char> {
    "tomb_pruned/"@ + hex_of_bytes(origin_actor)
}

/// ASCII bytes that every prune-frontier key begins with.
pub open spec fn frontier_prefix() -> Seq<u8> {
    seq![116u8, 111, 109, 98, 95, 112, 114, 117, 110, 101, 100, 47]
}

/// The metadata key begins like a prune-frontier key.
pub open spec fn is_frontier_key(key: Seq<u8>) -> bool {
    key.len() >= 12 && key.take(12) == frontier_prefix()
}

/// First byte that is no hexadecimal digit.
pub open spec fn first_bad_digit(digits: Seq<u8>) -> Option<u8>
    decreases digits.len(),
{
    if digits.len() == 0 {
        None
    } else if first_bad_digit(digits.drop_last()) is Some {
        first_bad_digit(digits.drop_last())
    } else if nibble_value(digits.last()) is None {
        Some(digits.last())
    } else {
        None
    }
}

/// Builds the metadata key for one origin actor's tombstone prune frontier.
///
/// The frontier records the highest origin-local tombstone sequence this node has
/// deliberately forgotten. Future inbound tombstones at or below that sequence can be
/// ignored because accepting them would recreate GCed delete markers.
pub fn tombstone_prune_frontier_key(origin_actor: &[u8]) -> (out: String)
    ensures
        out@ == frontier_key_text(origin_actor@),
{
    let mut out = String::new();
    push_text(&mut out, "tomb_pruned/");
    push_hex_bytes(&mut out, origin_actor);
    proof { assert(out@ =~= frontier_key_text(origin_actor@)); }
    out
}

/// Decodes one hexadecimal actor nibble stored in a prune-frontier metadata key.
pub fn decode_actor_hex_nibble(raw: u8) -> (out: Result<u8, StoreError>)
    ensures
        match nibble_value(raw) {
            Some(value) => out == Ok::<u8, StoreError>(value),
            None => out == Err::<u8, StoreError>(StoreError::InvalidActorHexByte { byte: raw }),
        },
{
    match hex_nibble(raw) {
        Some(value) => Ok(value),
        None => Err(StoreError::InvalidActorHexByte { byte: raw }),
    }
}

/// Extracts origin actor bytes from one prune-frontier metadata key.
pub fn tombstone_prune_frontier_origin_actor(meta_key: &str) -> (out: Result<
    Option<Vec<u8>>,
    StoreError,
>)
    ensures
        ({
            let key = meta_key.spec_bytes();
            let digits = key.skip(12);
            match out {
                Ok(None) => !is_frontier_key(key),
                Ok(Some(actor)) => {
                    &&& is_frontier_key(key)
                    &&& digits.len() % 2 == 0
                    &&& first_bad_digit(digits) is None
                    &&& actor@ == bytes_of_hex(digits)
                },
                Err(StoreError::InvalidActorLength { length }) => {
                    &&& is_frontier_key(key)
                    &&& digits.len() % 2 != 0
                    &&& length == digits.len() as u64
                },
                Err(StoreError::InvalidActorHexByte { byte }) => {
                    &&& is_frontier_key(key)
                    &&& digits.len() % 2 == 0
                    &&& first_bad_digit(digits) == Some(byte)
                },
                Err(_) => false,
            }
        }),
{
    let key = meta_key.as_bytes();
    if key.len() < 12 {
        return Ok(None);
    }
    let (head, digits) = key.split_at(12);
    let prefix: [u8; 12] = [116, 111, 109, 98, 95, 112, 114, 117, 110, 101, 100, 47];
    proof {
        assert(prefix@ =~= frontier_prefix());
        assert(head@ =~= key@.take(12));
        assert(digits@ =~= key@.skip(12));
    }
    if !same_bytes(head, prefix.as_slice()) {
        return Ok(None);
    }
    if digits.len() % 2 != 0 {
        return Err(StoreError::InvalidActorLength { length: digits.len() as u64 });
    }
    let mut actor: Vec<u8> = Vec::new();
    let mut i: usize = 0;
    while i < digits.len()
        invariant
            i <= digits.len(),
            i % 2 == 0,
            digits.len() % 2 == 0,
            digits@ == meta_key.spec_bytes().skip(12),
            is_frontier_key(meta_key.spec_bytes()),
            first_bad_digit(digits@.take(i as int)) is None,
            actor@.len() == i / 2,
            forall|k: int|
                #![trigger actor@[k]]
                0 <= k < actor@.len() ==> actor@[k] == bytes_of_hex(digits@)[k],
        decreases digits.len() - i,
    {
        proof {
            let first = digits@.take(i + 1);
            let second = digits@.take(i + 2);
            assert(first.drop_last() =~= digits@.take(i as int));
            assert(second.drop_last() =~= first);
            assert(first.last() == digits@[i as int]);
            assert(second.last() == digits@[i + 1]);
            if first_bad_digit(first) is Some {
                lemma_first_bad(digits@, i + 1);
            } else if first_bad_digit(second) is Some {
                lemma_first_bad(digits@, i + 2);
            }
        }
        let high: u8 = match decode_actor_hex_nibble(digits[i]) {
            Ok(value) => value,
            Err(error) => return Err(error),
        };
        let low: u8 = match decode_actor_hex_nibble(digits[i + 1]) {
            Ok(value) => value,
            Err(error) => return Err(error),
        };
        actor.push(high * 16 + low);
        proof { assert(2 * (i / 2) == i); }
        i += 2;
    }
    proof {
        assert(digits@.take(digits@.len() as int) =~= digits@);
        assert(actor@ =~= bytes_of_hex(digits@));
    }
    Ok(Some(actor))
}

/// A bad digit in a prefix is the first bad digit of the whole.
proof fn lemma_first_bad(digits: Seq<u8>, k: int)
    requires
        0 <= k <= digits.len(),
        first_bad_digit(digits.take(k)) is Some,
    ensures
        first_bad_digit(digits) == first_bad_digit(digits.take(k)),
    decreases digits.len() - k,
{
    if k == digits.len() {
        assert(digits.take(k) =~= digits);
    } else {
        assert(digits.take(k + 1).drop_last() =~= digits.take(k));
        lemma_first_bad(digits, k + 1);
    }
}

/// Digits that are all hexadecimal contain no bad one.
proof fn lemma_no_bad(digits: Seq<u8>)
    requires
        forall|i: int| #![trigger digits[i]] 0 <= i < digits.len() ==> nibble_value(digits[i]) is Some,
    ensures
        first_bad_digit(digits) is None,
    decreases digits.len(),
{
    if digits.len() > 0 {
        let rest = digits.drop_last();
        assert forall|i: int| #![trigger rest[i]] 0 <= i < rest.len() implies nibble_value(
            rest[i],
        ) is Some by {
            assert(rest[i] == digits[i]);
        }
        lemma_no_bad(rest);
        assert(nibble_value(digits[digits.len() - 1]) is Some);
    }
}

/// A prune-frontier key gives back the actor that it was built for.
pub proof fn law_frontier_key_round_trip(origin_actor: Seq<u8>)
    ensures
        ({
            let key = encode_utf8(frontier_key_text(origin_actor));
            &&& is_frontier_key(key)
            &&& key.skip(12).len() % 2 == 0
            &&& first_bad_digit(key.skip(12)) is None
            &&& bytes_of_hex(key.skip(12)) == origin_actor
        }),
{
    let text = frontier_key_text(origin_actor);
    let hex = hex_of_bytes(origin_actor);
    reveal_strlit("tomb_pruned/");
    law_hex_round_trip(origin_actor);
    let prefix = "tomb_pruned/"@;
    assert(prefix.len() == 12);
    assert(is_ascii_chars(text)) by {
        assert forall|i: int| 0 <= i < text.len() implies '\0' <= #[trigger] text[i] <= '\u{7f}' by {
            if i >= 12 {
                assert(text[i] == hex[i - 12]);
                assert(0 <= (hex[i - 12] as int) < 128);
            } else {
                assert(text[i] == prefix[i]);
                assert(prefix[0] == 't' && prefix[1] == 'o' && prefix[2] == 'm' && prefix[3] == 'b'
                    && prefix[4] == '_' && prefix[5] == 'p' && prefix[6] == 'r' && prefix[7] == 'u'
                    && prefix[8] == 'n' && prefix[9] == 'e' && prefix[10] == 'd' && prefix[11]
                    == '/');
                assert(i == 0 || i == 1 || i == 2 || i == 3 || i == 4 || i == 5 || i == 6 || i == 7
                    || i == 8 || i == 9 || i == 10 || i == 11);
            }
        }
    }
    is_ascii_chars_encode_utf8(text);
    let key = encode_utf8(text);
    assert(key.take(12) =~= frontier_prefix());
    let digits = Seq::new(2 * origin_actor.len(), |i: int| hex[i] as u8);
    assert(key.skip(12) =~= digits) by {
        assert forall|i: int| 0 <= i < digits.len() implies key.skip(12)[i] == digits[i] by {
            assert(text[i + 12] == hex[i]);
        }
    }
    assert forall|i: int| #![trigger digits[i]] 0 <= i < digits.len() implies nibble_value(
        digits[i],
    ) is Some by {
        assert(nibble_value(hex[i] as u8) is Some);
    }
    lemma_no_bad(digits);
}

} // verus!
