use mantissa::bytes::{push_be, read_be};
use mantissa::store::error::StoreError;
use mantissa::store::merkle::{leaf_bytes, Entry, MerkleIndex};
use mantissa::store::tombstone::{
    merge_tombstone_records, normalize_incoming_tombstone, tombstone_observed_index_key,
    tombstone_observed_index_parts, tombstone_prune_frontier_key,
    tombstone_prune_frontier_origin_actor, TombstoneRecord,
};
use mantissa::text::{parse_decimal, push_decimal, read_decimal, same_text, DecimalError};
use mantissa::volume::block_sizes::{LogicalSectorSize, VolumeBlockSizes};
use mantissa::volume::descriptor::{LogicalBlockNumber, VolumeCapacity, VolumeDescriptor};
use mantissa::volume::identity::{FenceEpoch, IdentityError, VolumeGeneration, VolumeId};

#[test]
fn tombstones_merge_to_the_newer_sequence() {
    let old = TombstoneRecord::new(4, vec![9; 16], 70);
    let new = TombstoneRecord::new(5, vec![1; 16], 80);
    assert_eq!(merge_tombstone_records(Some(old.clone()), new.clone()), new);
    assert_eq!(merge_tombstone_records(Some(new.clone()), old.clone()), new);
    assert_eq!(merge_tombstone_records(None, old.clone()), old);
    assert_eq!(
        normalize_incoming_tombstone(TombstoneRecord::new(4, vec![9; 16], 0), 33)
            .observed_at_unix_ms,
        33
    );
    assert_eq!(normalize_incoming_tombstone(old, 33).observed_at_unix_ms, 70);
}

#[test]
fn age_index_keys_come_back() {
    let record = TombstoneRecord::new(1, vec![2; 16], 0x0102);
    let key = tombstone_observed_index_key(&[8, 9], &record);
    assert_eq!(key, vec![0, 0, 0, 0, 0, 0, 1, 2, 8, 9]);
    assert_eq!(tombstone_observed_index_parts(&key), Ok((0x0102, vec![8, 9])));
    let failure = tombstone_observed_index_parts(&[1, 2]).expect_err("short key");
    assert_eq!(failure, StoreError::IndexKeyTooShort { length: 2 });
    assert_eq!(
        failure.message(),
        "tombstone observed index key is too short: 2 bytes"
    );
}

#[test]
fn frontier_keys_come_back() {
    let key = tombstone_prune_frontier_key(&[0xab, 0x01]);
    assert!(key.ends_with("ab01"));
    assert_eq!(
        tombstone_prune_frontier_origin_actor(&key),
        Ok(Some(vec![0xab, 0x01]))
    );
    assert_eq!(tombstone_prune_frontier_origin_actor("other"), Ok(None));
    let odd = format!("{key}0");
    assert!(matches!(
        tombstone_prune_frontier_origin_actor(&odd),
        Err(StoreError::InvalidActorLength { .. })
    ));
    let bad = format!("{key}zz");
    assert!(matches!(
        tombstone_prune_frontier_origin_actor(&bad),
        Err(StoreError::InvalidActorHexByte { .. })
    ));
}

#[test]
fn leaves_and_roots_follow_the_entries() {
    let live = Entry::Active(vec![1, 2]);
    assert_ne!(leaf_bytes(&live), leaf_bytes(&Entry::Active(vec![1, 3])));
    let mut left = MerkleIndex::new();
    let mut right = MerkleIndex::new();
    let empty = left.root_digest();
    left.upsert(1, &live);
    left.upsert(2, &Entry::Active(vec![7]));
    right.upsert(2, &Entry::Active(vec![7]));
    right.upsert(1, &live);
    assert_eq!(left.root_digest(), right.root_digest());
    assert_ne!(left.root_digest(), empty);
    assert_eq!(left.root_text(), right.root_text());
    assert!(!left.page_ranges().is_empty());
}

#[test]
fn numbers_are_written_and_read() {
    let mut bytes = Vec::new();
    push_be(&mut bytes, 0x0102, 4);
    assert_eq!(bytes, vec![0, 0, 1, 2]);
    assert_eq!(read_be(&bytes), 0x0102);
    let mut text = String::new();
    push_decimal(&mut text, 18446744073709551615);
    assert_eq!(text, "18446744073709551615");
    assert_eq!(parse_decimal(&text.chars().collect::<Vec<_>>()), Some(u64::MAX));
    assert_eq!(parse_decimal(&['1', 'x']), None);
    assert!(same_text("a", "a"));
    assert!(!same_text("a", "ab"));
}

#[test]
fn identities_are_not_nil() {
    assert_eq!(VolumeId::new(0), Err(IdentityError::Nil));
    assert!(VolumeGeneration::new(0).is_err());
    assert_eq!(FenceEpoch::initial().next().map(FenceEpoch::get), Some(2));
    assert_eq!(FenceEpoch::new(u64::MAX).expect("fence").next(), None);
}

#[test]
fn block_sizes_and_offsets_are_checked() {
    assert!(LogicalSectorSize::new(512).is_err());
    assert_eq!(LogicalSectorSize::new(4096).map(LogicalSectorSize::bytes), Ok(4096));
    let descriptor = VolumeDescriptor::new(
        VolumeId::new(1).expect("volume"),
        VolumeGeneration::new(1).expect("generation"),
        8192,
        VolumeBlockSizes::supported(),
    )
    .expect("descriptor");
    assert_eq!(descriptor.logical_block_count(), 2);
    assert_eq!(
        descriptor.byte_offset(LogicalBlockNumber::new(1)).map(|offset| offset.bytes()),
        Ok(4096)
    );
    assert!(descriptor.byte_offset(LogicalBlockNumber::new(2)).is_err());
    assert!(VolumeCapacity::new(0).is_err());
}

/// Key and value number `i` of a list in a fixed scrambled order.
fn scrambled(i: u128) -> (u128, Entry<Vec<u8>>) {
    let key = i.wrapping_mul(0x9e37_79b9_7f4a_7c15_f39c_c060_5ced_c835);
    (key, Entry::Active(vec![i as u8, (i >> 8) as u8]))
}

/// Bounds and digests of the pages of an index.
fn pages(index: &MerkleIndex) -> Vec<(Vec<u8>, Vec<u8>, Vec<u8>)> {
    index.page_ranges().into_iter().map(|page| (page.start, page.end, page.hash)).collect()
}

#[test]
fn reads_between_writes_leave_the_index_alone() {
    let count = 400;
    let mut watched = MerkleIndex::new();
    for i in 0..count {
        let (key, entry) = scrambled(i);
        watched.upsert(key, &entry);
        let _ = watched.root_digest();
        let _ = watched.root_text();
        if i % 16 == 0 {
            let _ = watched.page_ranges();
        }
    }
    let mut forward = MerkleIndex::new();
    let mut backward = MerkleIndex::new();
    for i in 0..count {
        let (key, entry) = scrambled(i);
        forward.upsert(key, &entry);
        let (key, entry) = scrambled(count - 1 - i);
        backward.upsert(key, &entry);
    }
    for fresh in [&forward, &backward] {
        assert_eq!(watched.root_digest(), fresh.root_digest());
        assert_eq!(watched.root_text(), fresh.root_text());
        assert_eq!(pages(&watched), pages(fresh));
    }
}

#[test]
fn replaced_leaves_count_with_their_last_value() {
    let mut watched = MerkleIndex::new();
    let mut fresh = MerkleIndex::new();
    for i in 0..200 {
        let (key, entry) = scrambled(i);
        watched.upsert(key, &Entry::Active(vec![0xff]));
        let _ = watched.root_digest();
        fresh.upsert(key, &entry);
    }
    assert_ne!(watched.root_digest(), fresh.root_digest());
    for i in 0..200 {
        let (key, entry) = scrambled(i);
        watched.upsert(key, &entry);
        let _ = watched.page_ranges();
    }
    assert_eq!(watched.root_digest(), fresh.root_digest());
    assert_eq!(pages(&watched), pages(&fresh));
}

#[test]
fn decimal_texts_are_read_or_refused() {
    let read = |text: &str| read_decimal(&text.chars().collect::<Vec<_>>());
    assert_eq!(read("0"), Ok(0));
    assert_eq!(read("+42"), Ok(42));
    assert_eq!(read("18446744073709551615"), Ok(u64::MAX));
    assert_eq!(read(""), Err(DecimalError::Empty));
    assert_eq!(read("-1"), Err(DecimalError::InvalidDigit));
    assert_eq!(read("+"), Err(DecimalError::InvalidDigit));
    assert_eq!(read("12a"), Err(DecimalError::InvalidDigit));
    assert_eq!(read("18446744073709551616"), Err(DecimalError::TooLarge));
    for text in ["", "+", "-1", "7x", "99999999999999999999", "18446744073709551616"] {
        let expected = text.parse::<u64>().unwrap_err().to_string();
        assert_eq!(read(text).unwrap_err().message(), expected);
    }
}
