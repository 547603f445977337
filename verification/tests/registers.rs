use crdts::{CmRDT, CvRDT, MVReg};
use mantissa::store::mvreg::{MvReg, MvRegEntry, MvRegSnapshot};
use mantissa::store::vector_clock::VectorClock;
use std::cmp::Ordering;
use uuid::Uuid;

/// Builds a deterministic test actor id from a small integer.
fn actor(n: u128) -> Uuid {
    Uuid::from_u128(n)
}

/// Builds a one-actor vector clock for deterministic compaction fixtures.
fn clock(actor: Uuid, counter: u64) -> VectorClock<Uuid> {
    let mut clock = VectorClock::new();
    clock.apply(actor, counter);
    clock
}

/// Builds one explicit MVReg entry for deterministic compaction fixtures.
fn entry(actor: Uuid, counter: u64, value: &str) -> MvRegEntry<String, Uuid> {
    MvRegEntry::new(clock(actor, counter), value.to_string())
}

/// Applies one write to the oracle MVReg from the `crdts` crate.
fn oracle_write(reg: &mut MVReg<String, Uuid>, actor: Uuid, value: &str) {
    let read_ctx = reg.read();
    let add_ctx = read_ctx.derive_add_ctx(actor);
    let op = reg.write(value.to_string(), add_ctx);
    reg.apply(op);
}

/// Returns sorted visible values from the oracle register.
fn oracle_values(reg: &MVReg<String, Uuid>) -> Vec<String> {
    let mut values = reg.read().val;
    values.sort();
    values
}

/// Returns sorted visible values from the Mantissa register.
fn mantissa_values(reg: &MvReg<String, Uuid>) -> Vec<String> {
    let mut values = reg.read_values();
    values.sort();
    values
}

/// A single write should create one visible value with matching oracle behavior.
#[test]
fn mantissa_mvreg_matches_oracle_for_single_write() {
    let actor_a = actor(1);
    let mut oracle = MVReg::new();
    let mut mantissa = MvReg::new();

    oracle_write(&mut oracle, actor_a, "one");
    mantissa.write(actor_a, "one".to_string());

    assert_eq!(mantissa_values(&mantissa), oracle_values(&oracle));
}

/// Repeated writes by the same actor should replace the dominated older value.
#[test]
fn mantissa_mvreg_matches_oracle_for_repeated_actor_write() {
    let actor_a = actor(1);
    let mut oracle = MVReg::new();
    let mut mantissa = MvReg::new();

    oracle_write(&mut oracle, actor_a, "old");
    oracle_write(&mut oracle, actor_a, "new");
    mantissa.write(actor_a, "old".to_string());
    mantissa.write(actor_a, "new".to_string());

    assert_eq!(mantissa_values(&mantissa), oracle_values(&oracle));
    assert_eq!(mantissa_values(&mantissa), vec!["new".to_string()]);
}

/// Concurrent writes by different actors should both remain visible after merge.
#[test]
fn mantissa_mvreg_matches_oracle_for_concurrent_writes() {
    let actor_a = actor(1);
    let actor_b = actor(2);
    let mut oracle_left = MVReg::new();
    let mut oracle_right = MVReg::new();
    let mut mantissa_left = MvReg::new();
    let mut mantissa_right = MvReg::new();

    oracle_write(&mut oracle_left, actor_a, "left");
    oracle_write(&mut oracle_right, actor_b, "right");
    mantissa_left.write(actor_a, "left".to_string());
    mantissa_right.write(actor_b, "right".to_string());

    oracle_left.merge(oracle_right);
    mantissa_left.merge(mantissa_right);

    assert_eq!(mantissa_values(&mantissa_left), oracle_values(&oracle_left));
    assert_eq!(
        mantissa_values(&mantissa_left),
        vec!["left".to_string(), "right".to_string()]
    );
}

/// Merging the same concurrent registers in either direction should converge.
#[test]
fn mantissa_mvreg_merge_converges() {
    let actor_a = actor(1);
    let actor_b = actor(2);
    let mut left = MvReg::new();
    let mut right = MvReg::new();

    left.write(actor_a, "left".to_string());
    right.write(actor_b, "right".to_string());

    let mut left_then_right = left.clone();
    left_then_right.merge(right.clone());
    let mut right_then_left = right;
    right_then_left.merge(left);

    assert_eq!(
        mantissa_values(&left_then_right),
        mantissa_values(&right_then_left)
    );
}

/// Writes based on a prior value should dominate and remove that prior value.
#[test]
fn mantissa_mvreg_matches_oracle_for_dominated_entry_removal() {
    let actor_a = actor(1);
    let actor_b = actor(2);
    let mut oracle_old = MVReg::new();
    let mut mantissa_old = MvReg::new();

    oracle_write(&mut oracle_old, actor_a, "old");
    mantissa_old.write(actor_a, "old".to_string());

    let mut oracle_new = oracle_old.clone();
    let mut mantissa_new = mantissa_old.clone();
    oracle_write(&mut oracle_new, actor_b, "new");
    mantissa_new.write(actor_b, "new".to_string());

    oracle_old.merge(oracle_new);
    mantissa_old.merge(mantissa_new);

    assert_eq!(mantissa_values(&mantissa_old), oracle_values(&oracle_old));
    assert_eq!(mantissa_values(&mantissa_old), vec!["new".to_string()]);
}

/// Writing after a malformed maxed actor counter must not panic or wrap.
#[test]
fn mantissa_mvreg_write_saturates_max_counter() {
    let actor_a = actor(1);
    let actor_b = actor(2);
    let mut reg = MvReg::from_entries(vec![entry(actor_a, u64::MAX, "max")]);

    reg.write(actor_a, "same-actor".to_string());
    reg.write(actor_b, "other-actor".to_string());

    let merged_clock = reg.clock();
    assert_eq!(merged_clock.get(&actor_a), u64::MAX);
    assert_eq!(merged_clock.get(&actor_b), 1);
    assert_eq!(mantissa_values(&reg), vec!["other-actor".to_string()]);
}

/// Snapshots must remain sorted and deduplicated for stable MST hashing.
#[test]
fn mantissa_mvreg_snapshot_is_canonical() {
    let actor_a = actor(1);
    let actor_b = actor(2);
    let mut reg = MvReg::new();

    reg.write(actor_a, "z".to_string());
    reg.merge({
        let mut other = MvReg::new();
        other.write(actor_b, "a".to_string());
        other
    });

    assert_eq!(
        reg.snapshot(),
        MvRegSnapshot::from_unsorted(vec!["z".to_string(), "a".to_string()])
    );
    assert_eq!(
        reg.snapshot().as_slice(),
        &["a".to_string(), "z".to_string()]
    );
}

/// Compaction should be a no-op when the register is already within policy.
#[test]
fn mvreg_compaction_noops_below_limit() {
    let mut reg = MvReg::from_entries(vec![entry(actor(1), 1, "a"), entry(actor(2), 1, "b")]);
    let before = reg.clone();

    assert!(!reg.compact_with(2, |entry: &MvRegEntry<String, Uuid>| entry.value().clone()));
    assert_eq!(reg, before);
}

/// Compaction should keep the highest-ranked values and drop older winners.
#[test]
fn mvreg_compaction_keeps_highest_ranked_values() {
    let mut reg = MvReg::from_entries(vec![
        entry(actor(1), 1, "a"),
        entry(actor(2), 1, "b"),
        entry(actor(3), 1, "c"),
    ]);

    assert!(reg.compact_with(2, |entry: &MvRegEntry<String, Uuid>| entry.value().clone()));
    assert_eq!(
        mantissa_values(&reg),
        vec!["b".to_string(), "c".to_string()]
    );
}

/// Dropped clocks must be absorbed so stale peers cannot revive dropped values.
#[test]
fn mvreg_compaction_absorbs_dropped_clocks() {
    let dropped_actor = actor(1);
    let winner_actor = actor(2);
    let mut reg = MvReg::from_entries(vec![
        entry(dropped_actor, 1, "old"),
        entry(winner_actor, 1, "winner"),
    ]);

    assert!(reg.compact_with(1, |entry: &MvRegEntry<String, Uuid>| entry.value().clone()));

    let winner = reg
        .entries()
        .iter()
        .find(|entry| entry.value() == "winner")
        .unwrap();
    assert_eq!(winner.clock().get(&dropped_actor), 1);
    assert_eq!(winner.clock().get(&winner_actor), 1);
}

/// A stale peer sending a dropped entry should be dominated after compaction.
#[test]
fn mvreg_compaction_prevents_stale_value_reintroduction() {
    let dropped_actor = actor(1);
    let winner_actor = actor(2);
    let mut compacted = MvReg::from_entries(vec![
        entry(dropped_actor, 1, "old"),
        entry(winner_actor, 1, "winner"),
    ]);
    let stale = MvReg::from_entries(vec![entry(dropped_actor, 1, "old")]);

    compacted.compact_with(1, |entry: &MvRegEntry<String, Uuid>| entry.value().clone());
    compacted.merge(stale);

    assert_eq!(mantissa_values(&compacted), vec!["winner".to_string()]);
}

/// Equal ranks should still compact deterministically from durable state.
#[test]
fn mvreg_compaction_breaks_rank_ties_deterministically() {
    let entry_a = entry(actor(1), 1, "a");
    let entry_b = entry(actor(2), 1, "b");
    let mut left = MvReg::from_entries(vec![entry_a.clone(), entry_b.clone()]);
    let mut right = MvReg::from_entries(vec![entry_b, entry_a]);

    left.compact_with(1, |_: &MvRegEntry<String, Uuid>| 0u8);
    right.compact_with(1, |_: &MvRegEntry<String, Uuid>| 0u8);

    assert_eq!(left, right);
    assert_eq!(mantissa_values(&left), vec!["b".to_string()]);
}

/// Clocks compare by what they have seen.
#[test]
fn clocks_have_a_causal_order() {
    let mut seen_both = clock(actor(1), 1);
    seen_both.apply(actor(2), 3);

    assert_eq!(clock(actor(1), 1).partial_cmp(&seen_both), Some(Ordering::Less));
    assert_eq!(seen_both.partial_cmp(&clock(actor(2), 3)), Some(Ordering::Greater));
    assert_eq!(clock(actor(1), 2).partial_cmp(&clock(actor(2), 2)), None);
    assert_eq!(
        clock(actor(1), 2).partial_cmp(&clock(actor(1), 2)),
        Some(Ordering::Equal)
    );
}

/// Counters only grow, and merging takes the larger of each.
#[test]
fn clocks_merge_by_the_larger_counter() {
    let mut left = clock(actor(1), 5);
    left.apply(actor(1), 2);
    let mut right = clock(actor(1), 3);
    right.apply(actor(2), 7);

    left.merge(&right);
    assert_eq!(left.get(&actor(1)), 5);
    assert_eq!(left.get(&actor(2)), 7);
    assert_eq!(left.get(&actor(3)), 0);
    assert_eq!(left.len(), 2);

    left.increment(actor(3));
    assert_eq!(left.get(&actor(3)), 1);
}

/// Merging a register with itself changes nothing.
#[test]
fn merging_twice_changes_nothing() {
    let mut reg = MvReg::from_entries(vec![entry(actor(1), 1, "a"), entry(actor(2), 1, "b")]);
    let before = reg.clone();
    reg.merge(before.clone());
    assert_eq!(reg, before);
}

/// The whole old register adds nothing to the compacted one, and the clock stays.
#[test]
fn compaction_keeps_the_clock_and_outlives_the_old_register() {
    let entries =
        vec![entry(actor(1), 1, "a"), entry(actor(2), 1, "b"), entry(actor(3), 1, "c")];
    let old = MvReg::from_entries(entries.clone());
    for limit in 1..=2 {
        let mut reg = MvReg::from_entries(entries.clone());
        reg.compact_with(limit, |entry: &MvRegEntry<String, Uuid>| entry.value().clone());
        assert_eq!(reg.entries().len(), limit);
        assert_eq!(reg.clock(), old.clock());
        let before = mantissa_values(&reg);
        reg.merge(MvReg::from_entries(entries.clone()));
        assert_eq!(mantissa_values(&reg), before);
    }
}

/// A register built from entries shows the newest of them and nothing else.
#[test]
fn from_entries_keeps_the_newest_entries() {
    let seen_both = {
        let mut both = clock(actor(1), 2);
        both.apply(actor(2), 1);
        both
    };
    let reg = MvReg::from_entries(vec![
        entry(actor(1), 1, "first"),
        MvRegEntry::new(seen_both, "both".to_string()),
        entry(actor(2), 1, "second"),
        MvRegEntry::new(VectorClock::new(), "nowhere".to_string()),
        entry(actor(3), 7, "apart"),
    ]);
    assert_eq!(mantissa_values(&reg), vec!["apart".to_string(), "both".to_string()]);
    assert_eq!(reg.clock().get(&actor(1)), 2);
    assert_eq!(reg.clock().get(&actor(2)), 1);
    assert_eq!(reg.clock().get(&actor(3)), 7);
}

/// Neither order nor repetition of the values shows in a snapshot.
#[test]
fn snapshots_ignore_order_and_repetition() {
    let once = MvRegSnapshot::from_unsorted(vec![3, 1, 2]);
    let often = MvRegSnapshot::from_unsorted(vec![2, 1, 1, 3, 2]);
    assert_eq!(once, often);
    assert_eq!(once.as_slice(), &[1, 2, 3]);
    assert_ne!(once, MvRegSnapshot::from_unsorted(vec![1, 2]));
}
