use base64::Engine as _;
use mantissa::store::error::StoreError;
use mantissa::store::gc::{GcBarrier, StoreGcPolicy, StoreGcReport};
use mantissa::store::merkle::PageDigestRange;
use mantissa::store::mst_store::export::compute_want_from_have;
use mantissa::store::mst_store::{CrdtMstStore, RegAdapter, DEFAULT_ROOT_SCHEMA_VERSION};
use mantissa::store::mvreg::{MvReg, MvRegEntry, MvRegSnapshot};
use mantissa::store::tables::StoreTables;
use mantissa::store::tombstone::TombstoneRecord;
use mantissa::store::vector_clock::VectorClock;

/// Time at which local deletions are observed.
const NOW: u64 = 1_000;

/// Appends a text with its length.
fn push_field(out: &mut Vec<u8>, text: &str) {
    out.extend_from_slice(&(text.len() as u32).to_le_bytes());
    out.extend_from_slice(text.as_bytes());
}

fn merge_registers<V: Ord>(
    current: Option<MvReg<V, u128>>,
    incoming: MvReg<V, u128>,
) -> MvReg<V, u128> {
    match current {
        Some(mut current) => {
            current.merge(incoming);
            current
        }
        None => incoming,
    }
}

/// Texts without compaction.
struct Adapter;

impl RegAdapter for Adapter {
    type Reg = MvReg<String, u128>;
    type Value = String;
    type Snapshot = MvRegSnapshot<String>;

    fn upsert_reg(current: Option<Self::Reg>, actor: &u128, value: String) -> Self::Reg {
        let mut reg = current.unwrap_or(MvReg::new());
        reg.write(*actor, value);
        reg
    }

    fn merge_regs(current: Option<Self::Reg>, incoming: Self::Reg) -> Self::Reg {
        merge_registers(current, incoming)
    }

    fn snapshot_reg_at_version(reg: &Self::Reg, _version: u32) -> Self::Snapshot {
        reg.snapshot()
    }

    fn leaf_payload(snapshot: &Self::Snapshot) -> Vec<u8> {
        let mut out = Vec::new();
        for value in snapshot.as_slice() {
            push_field(&mut out, value);
        }
        out
    }

    fn encode_reg(reg: &Self::Reg) -> Result<Vec<u8>, StoreError> {
        let mut out = Vec::new();
        for value in reg.read_values() {
            push_field(&mut out, &value);
        }
        if out.is_empty() {
            Err(StoreError::EncodingRefused)
        } else {
            Ok(out)
        }
    }

    fn compact_reg(_reg: &Self::Reg, _max: usize) -> Result<Option<Self::Reg>, StoreError> {
        Ok(None)
    }
}

/// Texts that are compacted by their value.
struct CompactingAdapter;

impl RegAdapter for CompactingAdapter {
    type Reg = MvReg<String, u128>;
    type Value = String;
    type Snapshot = MvRegSnapshot<String>;

    fn upsert_reg(current: Option<Self::Reg>, actor: &u128, value: String) -> Self::Reg {
        Adapter::upsert_reg(current, actor, value)
    }

    fn merge_regs(current: Option<Self::Reg>, incoming: Self::Reg) -> Self::Reg {
        merge_registers(current, incoming)
    }

    fn snapshot_reg_at_version(reg: &Self::Reg, _version: u32) -> Self::Snapshot {
        reg.snapshot()
    }

    fn leaf_payload(snapshot: &Self::Snapshot) -> Vec<u8> {
        Adapter::leaf_payload(snapshot)
    }

    fn encode_reg(reg: &Self::Reg) -> Result<Vec<u8>, StoreError> {
        Adapter::encode_reg(reg)
    }

    fn compact_reg(reg: &Self::Reg, max: usize) -> Result<Option<Self::Reg>, StoreError> {
        let mut reg = reg.clone();
        if reg.compact_with(max, |entry: &MvRegEntry<String, u128>| entry.value().clone()) {
            Ok(Some(reg))
        } else {
            Ok(None)
        }
    }
}

#[derive(Clone, Debug, Eq, PartialEq, Ord, PartialOrd, Hash)]
struct VersionedValue {
    name: String,
    alias: String,
}

#[derive(Clone, Debug, Eq, PartialEq, Ord, PartialOrd, Hash)]
struct VersionedProjection {
    name: String,
    alias: Option<String>,
}

/// Values of which later schema versions show more.
struct VersionedAdapter;

impl RegAdapter for VersionedAdapter {
    type Reg = MvReg<VersionedValue, u128>;
    type Value = VersionedValue;
    type Snapshot = MvRegSnapshot<VersionedProjection>;

    fn upsert_reg(current: Option<Self::Reg>, actor: &u128, value: VersionedValue) -> Self::Reg {
        let mut reg = current.unwrap_or(MvReg::new());
        reg.write(*actor, value);
        reg
    }

    fn merge_regs(current: Option<Self::Reg>, incoming: Self::Reg) -> Self::Reg {
        merge_registers(current, incoming)
    }

    fn snapshot_reg_at_version(reg: &Self::Reg, version: u32) -> Self::Snapshot {
        let values = reg
            .read_values()
            .into_iter()
            .map(|value| VersionedProjection {
                name: value.name,
                alias: (version >= 2).then_some(value.alias),
            })
            .collect::<Vec<_>>();
        MvRegSnapshot::from_unsorted(values)
    }

    fn leaf_payload(snapshot: &Self::Snapshot) -> Vec<u8> {
        let mut out = Vec::new();
        for value in snapshot.as_slice() {
            push_field(&mut out, &value.name);
            match &value.alias {
                Some(alias) => push_field(&mut out, alias),
                None => out.push(0xff),
            }
        }
        out
    }

    fn encode_reg(reg: &Self::Reg) -> Result<Vec<u8>, StoreError> {
        let mut out = Vec::new();
        for value in reg.read_values() {
            push_field(&mut out, &value.name);
            push_field(&mut out, &value.alias);
        }
        Ok(out)
    }

    fn compact_reg(_reg: &Self::Reg, _max: usize) -> Result<Option<Self::Reg>, StoreError> {
        Ok(None)
    }
}

fn open<C: RegAdapter>(actor: u128) -> CrdtMstStore<C> {
    CrdtMstStore::open(StoreTables::new(), actor)
}

fn key(n: u8) -> u128 {
    n as u128
}

fn bytes_of(value: u128) -> Vec<u8> {
    value.to_be_bytes().to_vec()
}

fn concurrent_reg(values: &[(u128, u64, &str)]) -> MvReg<String, u128> {
    let entries = values
        .iter()
        .map(|(actor, counter, value)| {
            let mut clock = VectorClock::new();
            clock.apply(*actor, *counter);
            MvRegEntry::new(clock, value.to_string())
        })
        .collect::<Vec<_>>();
    MvReg::from_entries(entries)
}

fn tombstone_gc_policy(retention_ms: u64, batch_limit: usize) -> StoreGcPolicy {
    StoreGcPolicy {
        tombstone_min_retention_ms: retention_ms,
        tombstone_batch_limit: batch_limit,
        mvreg_batch_limit: 0,
        mvreg_max_values: None,
    }
}

fn mvreg_compaction_policy(max_values: usize, batch_limit: usize) -> StoreGcPolicy {
    StoreGcPolicy {
        tombstone_min_retention_ms: 0,
        tombstone_batch_limit: 0,
        mvreg_batch_limit: batch_limit,
        mvreg_max_values: Some(max_values),
    }
}

fn tombstone_gc_barrier(safe_observed_before_unix_ms: u64) -> GcBarrier {
    GcBarrier {
        safe_observed_before_unix_ms,
        active_peer_count: 1,
        root_schema_version: DEFAULT_ROOT_SCHEMA_VERSION,
    }
}

fn range(start: u128, end: u128) -> PageDigestRange {
    PageDigestRange { start: bytes_of(start), end: bytes_of(end), hash: vec![] }
}

/// Copies what was exported so that another store can take it.
fn owned<R: Clone>(
    exported: (Vec<(u128, &R)>, Vec<(u128, TombstoneRecord)>),
) -> (Vec<(u128, R)>, Vec<(u128, TombstoneRecord)>) {
    let (regs, tombs) = exported;
    (regs.into_iter().map(|(key, reg)| (key, reg.clone())).collect(), tombs)
}

#[test]
fn upsert_and_remove_and_rebuild() {
    let mut store: CrdtMstStore<Adapter> = open(1);

    for n in 1..=3u8 {
        store.upsert(key(n), format!("v{n}"));
    }

    let ts = store.remove(key(2), NOW);
    assert!(ts > 0);
    assert!(!store.has_value(key(2)));
    assert!(store.has_tombstone(key(2)));

    assert!(!store.root_hex().is_empty());
}

#[test]
fn root_digest_matches_hex() {
    let mut store: CrdtMstStore<Adapter> = open(1);

    store.upsert(key(1), "v1".into());
    store.rebuild_mst_from_disk();

    let shown = store.root_hex();
    let digest = store.root_digest();
    let expect = base64::engine::general_purpose::STANDARD.encode(digest);
    assert_eq!(shown, expect);
}

#[test]
fn get_snapshot_returns_current_value() {
    let mut store: CrdtMstStore<Adapter> = open(1);

    store.upsert(key(9), "alpha".into());
    let snap = store.get_snapshot(key(9)).unwrap();
    assert_eq!(snap.as_slice(), &[String::from("alpha")]);

    store.upsert(key(9), "beta".into());
    let snap2 = store.get_snapshot(key(9)).unwrap();
    assert_eq!(snap2.as_slice(), &[String::from("beta")]);
}

#[test]
fn merge_register_clears_tombstone() {
    let mut store: CrdtMstStore<Adapter> = open(1);

    store.apply_tombstone(key(1), 42, NOW);
    assert!(!store.has_value(key(1)));

    let reg = Adapter::upsert_reg(None, &1, "hello".to_string());
    store.merge_register(key(1), reg);

    assert!(store.has_value(key(1)));
    let (_actives, tombs) = store.load_all();
    assert!(tombs.is_empty());
}

#[test]
fn export_page_ranges_delta_optimized() {
    let mut store: CrdtMstStore<Adapter> = open(1);

    for n in 1..=5u8 {
        store.upsert(key(n), format!("v{n}"));
    }
    store.remove(key(3), NOW);
    store.rebuild_mst_from_disk();

    let want = vec![range(key(2), key(4))];
    let (regs, tombs) = store.export_page_ranges_delta(&want);
    let mut reg_keys: Vec<_> = regs.into_iter().map(|(k, _)| k).collect();
    let mut tmb_keys: Vec<_> = tombs.into_iter().map(|(k, _)| k).collect();
    reg_keys.sort();
    tmb_keys.sort();

    assert_eq!(reg_keys, vec![key(2), key(4)]);
    assert_eq!(tmb_keys, vec![key(3)]);
}

#[test]
fn exported_registers_are_encoded_with_their_keys() {
    let mut store: CrdtMstStore<Adapter> = open(1);
    store.upsert(key(1), "a".to_string());
    store.upsert(key(2), "bc".to_string());
    let (regs, _) = store.export_page_ranges_delta(&[range(key(1), key(2))]);
    assert_eq!(
        store.encode_register_delta(&regs),
        Ok(vec![
            (key(1).to_be_bytes().to_vec(), vec![1, 0, 0, 0, b'a']),
            (key(2).to_be_bytes().to_vec(), vec![2, 0, 0, 0, b'b', b'c']),
        ])
    );
    let empty = MvReg::new();
    assert_eq!(
        store.encode_register_delta(&[regs[0], (key(3), &empty)]),
        Err(StoreError::EncodingRefused)
    );
    assert_eq!(StoreError::EncodingRefused.message(), "register encoding was refused");
    assert_eq!(store.encode_register_delta(&[]), Ok(vec![]));
}

#[test]
fn want_computation() {
    let r = |s: u8, e: u8, h: u8| PageDigestRange { start: vec![s], end: vec![e], hash: vec![h] };
    let remote = vec![r(1, 2, 9), r(3, 4, 8), r(5, 6, 7)];
    let local = vec![r(1, 2, 9), r(3, 4, 0)];

    let want = compute_want_from_have(&remote, &local);
    assert_eq!(want.len(), 2);
    assert!(want.iter().any(|w| w.start == vec![3] && w.end == vec![4]));
    assert!(want.iter().any(|w| w.start == vec![5] && w.end == vec![6]));
}

#[test]
fn apply_tombstone_uses_monotonic_ts_in_mst() {
    let mut store: CrdtMstStore<Adapter> = open(1);

    store.apply_tombstone(key(1), 100, NOW);
    let root_after_high = store.root_hex();
    store.apply_tombstone(key(1), 10, NOW);
    let root_after_lower = store.root_hex();

    let (_, tombs) = store.load_all();
    assert_eq!(tombs[0].1.sequence, 100);
    assert_eq!(root_after_high, root_after_lower);
    store.apply_tombstone(key(1), 10, NOW);
    assert_eq!(root_after_lower, store.root_hex());
}

#[test]
fn tombstone_prune_frontier_advances_monotonically() {
    let mut store: CrdtMstStore<Adapter> = open(1);
    let origin = bytes_of(2);

    assert_eq!(store.tombstone_prune_frontier(&origin), 0);

    store.advance_tombstone_prune_frontier(&origin, 9);
    store.advance_tombstone_prune_frontier(&origin, 3);

    assert_eq!(store.tombstone_prune_frontier(&origin), 9);
}

#[test]
fn apply_tombstone_ignores_pruned_local_sequence() {
    let mut store: CrdtMstStore<Adapter> = open(1);
    let origin = bytes_of(1);

    store.advance_tombstone_prune_frontier(&origin, 10);
    let change_clock_before = store.change_clock();

    store.apply_tombstone(key(1), 10, NOW);

    assert!(!store.has_tombstone(key(1)));
    assert_eq!(store.change_clock(), change_clock_before);

    store.apply_tombstone(key(1), 11, NOW);
    let (_actives, tombs) = store.load_all();

    assert_eq!(tombs.len(), 1);
    assert_eq!(tombs[0].0, key(1));
    assert_eq!(tombs[0].1.sequence, 11);
    assert_eq!(tombs[0].1.origin_actor, origin);
}

#[test]
fn delta_tombstone_ignores_pruned_remote_sequence() {
    let mut store: CrdtMstStore<Adapter> = open(1);
    let origin = bytes_of(2);

    store.advance_tombstone_prune_frontier(&origin, 7);

    let stale_tombstone = TombstoneRecord::new(7, origin.clone(), 0);
    store.apply_delta_chunk_update_mst(Vec::new(), vec![(key(1), stale_tombstone)], NOW);

    assert!(!store.has_tombstone(key(1)));

    let fresh_tombstone = TombstoneRecord::new(8, origin.clone(), 0);
    store.apply_delta_chunk_update_mst(Vec::new(), vec![(key(1), fresh_tombstone)], NOW);
    let (_actives, tombs) = store.load_all();

    assert_eq!(tombs.len(), 1);
    assert_eq!(tombs[0].0, key(1));
    assert_eq!(tombs[0].1.sequence, 8);
    assert_eq!(tombs[0].1.origin_actor, origin);
    assert!(tombs[0].1.observed_at_unix_ms > 0);
}

fn three_tombstones(origin: &[u8], observed: [u64; 3]) -> Vec<(u128, TombstoneRecord)> {
    vec![
        (key(1), TombstoneRecord::new(1, origin.to_vec(), observed[0])),
        (key(2), TombstoneRecord::new(2, origin.to_vec(), observed[1])),
        (key(3), TombstoneRecord::new(3, origin.to_vec(), observed[2])),
    ]
}

#[test]
fn tombstone_gc_prunes_eligible_rows_and_advances_frontier() {
    let mut store: CrdtMstStore<Adapter> = open(1);
    let origin = bytes_of(2);

    store.apply_delta_chunk_update_mst(
        Vec::new(),
        three_tombstones(&origin, [10, 20, 50]),
        NOW,
    );
    let root_before = store.root_hex();

    let report = store
        .garbage_collect_tombstones(&tombstone_gc_policy(0, 10), tombstone_gc_barrier(30), 100)
        .unwrap();
    let root_after = store.root_hex();
    let (_actives, mut tombs) = store.load_all();
    tombs.sort_by_key(|(key, _)| *key);

    assert_eq!(
        report,
        StoreGcReport {
            tombstones_scanned: 2,
            tombstones_pruned: 2,
            registers_scanned: 0,
            registers_compacted: 0,
        }
    );
    assert_eq!(tombs.len(), 1);
    assert_eq!(tombs[0].0, key(3));
    assert_eq!(tombs[0].1.sequence, 3);
    assert_eq!(store.tombstone_prune_frontier(&origin), 2);
    assert_ne!(root_before, root_after);

    store.rebuild_mst_from_disk();
    assert_eq!(root_after, store.root_hex());

    let stale_tombstone = TombstoneRecord::new(2, origin.clone(), 0);
    store.apply_delta_chunk_update_mst(Vec::new(), vec![(key(1), stale_tombstone)], NOW);
    assert!(!store.has_tombstone(key(1)));

    let fresh_tombstone = TombstoneRecord::new(4, origin.clone(), 0);
    store.apply_delta_chunk_update_mst(Vec::new(), vec![(key(1), fresh_tombstone)], NOW);
    assert!(store.has_tombstone(key(1)));
}

#[test]
fn applying_remote_prune_frontier_prunes_matching_local_tombstones() {
    let mut store: CrdtMstStore<Adapter> = open(1);
    let origin = bytes_of(2);

    store.apply_delta_chunk_update_mst(
        Vec::new(),
        three_tombstones(&origin, [10, 20, 30]),
        NOW,
    );
    let root_before = store.root_hex();

    let pruned = store.apply_tombstone_prune_frontiers(vec![(origin.clone(), 2)]);
    let root_after = store.root_hex();
    let (_actives, mut tombs) = store.load_all();
    tombs.sort_by_key(|(key, _)| *key);

    assert_eq!(pruned, 2);
    assert_eq!(store.tombstone_prune_frontier(&origin), 2);
    assert_eq!(store.load_tombstone_prune_frontiers(), vec![(origin.clone(), 2)]);
    assert_eq!(tombs.len(), 1);
    assert_eq!(tombs[0].0, key(3));
    assert_ne!(root_before, root_after);

    store.apply_delta_chunk_update_mst(
        Vec::new(),
        vec![(key(1), TombstoneRecord::new(2, origin.clone(), 0))],
        NOW,
    );
    assert!(!store.has_tombstone(key(1)));
}

#[test]
fn tombstone_gc_respects_retention_and_barrier_boundary() {
    let mut store: CrdtMstStore<Adapter> = open(1);
    let origin = bytes_of(2);

    store.apply_delta_chunk_update_mst(
        Vec::new(),
        three_tombstones(&origin, [10, 20, 90]),
        NOW,
    );

    let report = store
        .garbage_collect_tombstones(&tombstone_gc_policy(10, 10), tombstone_gc_barrier(20), 100)
        .unwrap();
    let (_actives, mut tombs) = store.load_all();
    tombs.sort_by_key(|(key, _)| *key);

    assert_eq!(report.tombstones_scanned, 1);
    assert_eq!(report.tombstones_pruned, 1);
    assert_eq!(
        tombs.into_iter().map(|(key, _)| key).collect::<Vec<_>>(),
        vec![key(2), key(3)]
    );
    assert_eq!(store.tombstone_prune_frontier(&origin), 1);
}

#[test]
fn tombstone_gc_honors_batch_limit() {
    let mut store: CrdtMstStore<Adapter> = open(1);
    let origin = bytes_of(2);

    store.apply_delta_chunk_update_mst(
        Vec::new(),
        three_tombstones(&origin, [10, 11, 12]),
        NOW,
    );

    let report = store
        .garbage_collect_tombstones(&tombstone_gc_policy(0, 2), tombstone_gc_barrier(100), 100)
        .unwrap();
    let (_actives, mut tombs) = store.load_all();
    tombs.sort_by_key(|(key, _)| *key);

    assert_eq!(report.tombstones_scanned, 2);
    assert_eq!(report.tombstones_pruned, 2);
    assert_eq!(tombs.len(), 1);
    assert_eq!(tombs[0].0, key(3));
    assert_eq!(store.tombstone_prune_frontier(&origin), 2);
}

#[test]
fn register_compaction_rewrites_opt_in_adapter_and_updates_root() {
    let mut store: CrdtMstStore<CompactingAdapter> = open(1);
    let compacted_key = key(1);

    store.apply_delta_chunk_update_mst(
        vec![(compacted_key, concurrent_reg(&[(1, 1, "old"), (2, 1, "winner")]))],
        Vec::new(),
        NOW,
    );

    let report = store.compact_registers(&mvreg_compaction_policy(1, 10)).unwrap();
    let root_after = store.root_hex();
    let values = store.get_reg(compacted_key).unwrap().read_values();

    assert_eq!(
        report,
        StoreGcReport {
            tombstones_scanned: 0,
            tombstones_pruned: 0,
            registers_scanned: 1,
            registers_compacted: 1,
        }
    );
    assert_eq!(values, vec!["winner".to_string()]);

    store.rebuild_mst_from_disk();
    assert_eq!(root_after, store.root_hex());
}

#[test]
fn register_compaction_absorbs_stale_values() {
    let mut store: CrdtMstStore<CompactingAdapter> = open(1);
    let compacted_key = key(1);

    store.apply_delta_chunk_update_mst(
        vec![(compacted_key, concurrent_reg(&[(1, 1, "old"), (2, 1, "winner")]))],
        Vec::new(),
        NOW,
    );
    store.compact_registers(&mvreg_compaction_policy(1, 10)).unwrap();

    store.apply_delta_chunk_update_mst(
        vec![(compacted_key, concurrent_reg(&[(1, 1, "old")]))],
        Vec::new(),
        NOW,
    );

    let reg = store.get_reg(compacted_key).unwrap();
    assert_eq!(reg.read_values(), vec!["winner".to_string()]);
}

#[test]
fn register_compaction_honors_batch_limit() {
    let mut store: CrdtMstStore<CompactingAdapter> = open(1);

    store.apply_delta_chunk_update_mst(
        vec![
            (key(1), concurrent_reg(&[(1, 1, "a"), (2, 1, "z")])),
            (key(2), concurrent_reg(&[(1, 1, "b"), (2, 1, "y")])),
        ],
        Vec::new(),
        NOW,
    );

    let report = store.compact_registers(&mvreg_compaction_policy(1, 1)).unwrap();
    let first = store.get_reg(key(1)).unwrap();
    let second = store.get_reg(key(2)).unwrap();

    assert_eq!(report.registers_scanned, 1);
    assert_eq!(report.registers_compacted, 1);
    assert_eq!(first.read_values(), vec!["z".to_string()]);
    assert_eq!(second.read_values().len(), 2);
}

#[test]
fn register_compaction_defaults_to_adapter_noop() {
    let mut store: CrdtMstStore<Adapter> = open(1);

    store.apply_delta_chunk_update_mst(
        vec![(key(1), concurrent_reg(&[(1, 1, "a"), (2, 1, "b")]))],
        Vec::new(),
        NOW,
    );

    let report = store.compact_registers(&mvreg_compaction_policy(1, 10)).unwrap();
    let reg = store.get_reg(key(1)).unwrap();

    assert_eq!(report.registers_scanned, 1);
    assert_eq!(report.registers_compacted, 0);
    assert_eq!(reg.read_values().len(), 2);
}

#[test]
fn apply_delta_chunk_update_mst_keeps_newer_local_tombstone() {
    let mut local: CrdtMstStore<Adapter> = open(1);
    let mut remote: CrdtMstStore<Adapter> = open(2);
    let tomb_key = key(1);

    local.remove(key(9), NOW);
    local.remove(tomb_key, NOW);
    remote.remove(tomb_key, NOW);

    let root_before = local.root_hex();
    let remote_ranges = remote.page_range_summary();
    let (regs, tombs) = owned(remote.export_page_ranges_delta(&remote_ranges));

    local.apply_delta_chunk_update_mst(regs, tombs, NOW);

    let (_, local_tombs) = local.load_all();
    let local_ts = local_tombs
        .into_iter()
        .find(|(key, _)| *key == tomb_key)
        .map(|(_, tombstone)| tombstone.sequence)
        .expect("local tombstone present");
    let root_after = local.root_hex();

    assert_eq!(local_ts, 2);
    assert_eq!(root_before, root_after);
}

#[test]
fn export_overlap_ranges_are_deduped() {
    let mut store: CrdtMstStore<Adapter> = open(1);

    for n in 1..=5u8 {
        store.upsert(key(n), format!("v{n}"));
    }
    store.remove(key(3), NOW);
    store.rebuild_mst_from_disk();

    let want = vec![range(key(2), key(4)), range(key(3), key(5))];
    let (regs, tombs) = store.export_page_ranges_delta(&want);
    let mut reg_keys: Vec<_> = regs.into_iter().map(|(k, _)| k).collect();
    let mut tmb_keys: Vec<_> = tombs.into_iter().map(|(k, _)| k).collect();
    reg_keys.sort();
    tmb_keys.sort();

    assert_eq!(reg_keys, vec![key(2), key(4), key(5)]);
    assert_eq!(tmb_keys, vec![key(3)]);
}

#[test]
fn delta_apply_session_commit_rebuilds_once() {
    let mut src: CrdtMstStore<Adapter> = open(1);
    let dst: CrdtMstStore<Adapter> = open(2);

    for n in 1..=4u8 {
        src.upsert(key(n), format!("v{n}"));
    }
    src.remove(key(3), NOW);
    src.rebuild_mst_from_disk();

    let want = src.page_range_summary();
    let (regs, tombs) = owned(src.export_page_ranges_delta(&want));

    let mut session = dst.begin_delta_apply();
    session.apply_chunk(regs, tombs, NOW);
    let mut dst = session.commit();

    assert_eq!(src.root_hex(), dst.root_hex());
}

#[test]
fn apply_delta_chunk_update_mst_keeps_tree_fresh() {
    let mut src: CrdtMstStore<Adapter> = open(1);

    src.upsert(key(1), "x".into());
    src.upsert(key(2), "y".into());
    src.remove(key(1), NOW);
    src.rebuild_mst_from_disk();

    // The second store opens on the same rows with an empty tree.
    let mut shared = StoreTables::new();
    let (actives, marks) = src.load_all_regs();
    for (key, reg) in actives {
        shared.set_value(key, reg.clone());
    }
    for (key, mark) in marks {
        shared.set_tomb(key, mark);
    }
    let mut dst: CrdtMstStore<Adapter> = CrdtMstStore::open(shared, 2);

    let want = src.page_range_summary();
    let (regs, tombs) = owned(src.export_page_ranges_delta(&want));

    dst.apply_delta_chunk_update_mst(regs, tombs, NOW);

    assert_eq!(src.root_hex(), dst.root_hex());
}

#[test]
fn root_schema_versions_change_snapshot_projection_without_losing_raw_registers() {
    let mut store: CrdtMstStore<VersionedAdapter> = open(1);
    let value = VersionedValue { name: "alpha".to_string(), alias: "v2-visible".to_string() };
    store.upsert(key(7), value.clone());

    let first = VersionedProjection { name: "alpha".to_string(), alias: None };
    let snapshot_v1 = store.get_snapshot(key(7)).unwrap();
    assert_eq!(snapshot_v1.as_slice(), &[first]);

    let root_v1 = store.root_digest_at_version(1);
    assert_eq!(store.current_root_schema_version(), 1);
    assert_eq!(store.root_digest(), root_v1);

    let root_v2 = store.root_digest_at_version(2);
    assert_ne!(root_v1, root_v2);

    let ranges_v1 = store.page_range_summary_at_version(1);
    let ranges_v2 = store.page_range_summary_at_version(2);
    assert_ne!(ranges_v1, ranges_v2);

    assert_eq!(store.current_root_schema_version(), 1);
    assert_eq!(store.root_digest(), root_v1);
    let snapshot_after_non_current_reads = store.get_snapshot(key(7)).unwrap();
    assert_eq!(snapshot_after_non_current_reads, snapshot_v1);

    assert_eq!(store.get_reg(key(7)).unwrap().read_values(), vec![value]);

    store.rebuild_mst_from_disk_at_version(2);
    assert_eq!(store.current_root_schema_version(), 2);
    assert_eq!(store.root_digest(), root_v2);

    let second =
        VersionedProjection { name: "alpha".to_string(), alias: Some("v2-visible".to_string()) };
    let snapshot_v2 = store.get_snapshot(key(7)).unwrap();
    assert_eq!(snapshot_v2.as_slice(), &[second]);
}
