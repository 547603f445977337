//! Reading rows out of the store and exchanging them by page range.

use vstd::prelude::*;

use super::{CrdtMstStore, RegAdapter};
use crate::bytes::{be_bytes, bytes_less, copy_bytes, is_bytes_less, push_be, same_bytes};
use crate::store::error::StoreError;
use crate::store::merkle::PageDigestRange;
use crate::store::tables::lists_keys;
use crate::store::tombstone::{TombstoneRecord, TombstoneView};

verus! {

/// Keys of listed rows.
pub open spec fn row_keys<T>(rows: Seq<(u128, T)>) -> Seq<u128> {
    rows.map_values(|row: (u128, T)| row.0)
}

/// The list shows the delete markers of these keys.
pub open spec fn shows_markers(
    listed: Seq<(u128, TombstoneRecord)>,
    tombs: Map<u128, TombstoneView>,
) -> bool {
    forall|i: int|
        #![trigger listed[i]]
        0 <= i < listed.len() ==> tombs.contains_key(listed[i].0) && listed[i].1@
            == tombs[listed[i].0]
}

/// The list shows the registers of these keys.
pub open spec fn shows_registers<R>(listed: Seq<(u128, &R)>, values: Map<u128, R>) -> bool {
    forall|i: int|
        #![trigger listed[i]]
        0 <= i < listed.len() ==> values.contains_key(listed[i].0) && *listed[i].1
            == values[listed[i].0]
}

/// The adapter encodes a register as these bytes.
pub open spec fn encodes_reg<C: RegAdapter>(reg: C::Reg, bytes: Vec<u8>) -> bool {
    call_ensures(C::encode_reg, (&reg,), Ok::<Vec<u8>, StoreError>(bytes))
}

/// The encoded rows are the raw keys and the encoded registers of the first listed rows.
pub open spec fn encodes_rows<C: RegAdapter>(
    listed: Seq<(u128, &C::Reg)>,
    encoded: Seq<(Vec<u8>, Vec<u8>)>,
) -> bool {
    &&& encoded.len() <= listed.len()
    &&& forall|i: int|
        #![trigger encoded[i]]
        0 <= i < encoded.len() ==> encoded[i].0@ == be_bytes(listed[i].0 as nat, 16)
            && encodes_reg::<C>(*listed[i].1, encoded[i].1)
}

/// The adapter refuses the first listed row that it does not encode with this failure.
pub open spec fn refuses_row<C: RegAdapter>(
    listed: Seq<(u128, &C::Reg)>,
    error: StoreError,
) -> bool {
    exists|encoded: Seq<(Vec<u8>, Vec<u8>)>|
        {
            &&& #[trigger] encodes_rows::<C>(listed, encoded)
            &&& encoded.len() < listed.len()
            &&& call_ensures(
                C::encode_reg,
                (listed[encoded.len() as int].1,),
                Err::<Vec<u8>, StoreError>(error),
            )
        }
}

/// The list shows the projections of the registers of these keys.
pub open spec fn shows_snapshots<C: RegAdapter>(
    listed: Seq<(u128, C::Snapshot)>,
    values: Map<u128, C::Reg>,
    version: u32,
) -> bool {
    forall|i: int|
        #![trigger listed[i]]
        0 <= i < listed.len() ==> values.contains_key(listed[i].0) && call_ensures(
            C::snapshot_reg_at_version,
            (&values[listed[i].0], version),
            listed[i].1,
        )
}

/// The raw bytes of the key lie within the inclusive bounds.
pub open spec fn in_page(key: u128, page: PageDigestRange) -> bool {
    let raw = be_bytes(key as nat, 16);
    !bytes_less(raw, page.start@) && !bytes_less(page.end@, raw)
}

/// The key lies in one of the first `n` ranges.
pub open spec fn is_covered(key: u128, want: Seq<PageDigestRange>, n: int) -> bool {
    exists|i: int| #![trigger want[i]] 0 <= i < n && in_page(key, want[i])
}

/// Keys that the range after the first `n` ones adds.
pub open spec fn added_by(want: Seq<PageDigestRange>, n: int) -> spec_fn(u128) -> bool {
    |key: u128| in_page(key, want[n]) && !is_covered(key, want, n)
}

/// Keys that the first `n` ranges export, range by range and each key once.
pub open spec fn exported(keys: Seq<u128>, want: Seq<PageDigestRange>, n: int) -> Seq<u128>
    decreases n,
{
    if n <= 0 {
        Seq::empty()
    } else {
        exported(keys, want, n - 1) + keys.filter(added_by(want, n - 1))
    }
}

impl<C: RegAdapter> CrdtMstStore<C> {
    /// Dump (key, snapshot) and (key, tombstone).
    pub fn load_all(&self) -> (out: (Vec<(u128, C::Snapshot)>, Vec<(u128, TombstoneRecord)>))
        ensures
            lists_keys(row_keys(out.0@), self.rows().values.dom()),
            shows_snapshots::<C>(out.0@, self.rows().values, self.version()),
            lists_keys(row_keys(out.1@), self.rows().tombs.dom()),
            shows_markers(out.1@, self.rows().tombs),
    {
        let mut actives: Vec<(u128, C::Snapshot)> = Vec::new();
        let mut tombs: Vec<(u128, TombstoneRecord)> = Vec::new();
        self.load_all_into(&mut actives, &mut tombs);
        let out = (actives, tombs);
        out
    }

    /// Dump raw registers and tombstones.
    ///
    /// This is reserved for callers that need access to full concurrent values
    /// instead of the snapshot projection derived from them.
    pub fn load_all_regs<'a>(&'a self) -> (out: (
        Vec<(u128, &'a C::Reg)>,
        Vec<(u128, TombstoneRecord)>,
    ))
        ensures
            lists_keys(row_keys(out.0@), self.rows().values.dom()),
            shows_registers(out.0@, self.rows().values),
            lists_keys(row_keys(out.1@), self.rows().tombs.dom()),
            shows_markers(out.1@, self.rows().tombs),
    {
        let mut actives: Vec<(u128, &'a C::Reg)> = Vec::new();
        let mut tombs: Vec<(u128, TombstoneRecord)> = Vec::new();
        self.load_all_regs_into(&mut actives, &mut tombs);
        let out = (actives, tombs);
        out
    }

    /// Populate caller-provided buffers with all snapshots and tombstones so hot loops can
    /// reuse allocations.
    pub fn load_all_into(
        &self,
        actives: &mut Vec<(u128, C::Snapshot)>,
        tombs: &mut Vec<(u128, TombstoneRecord)>,
    )
        ensures
            lists_keys(row_keys(final(actives)@), self.rows().values.dom()),
            shows_snapshots::<C>(final(actives)@, self.rows().values, self.version()),
            lists_keys(row_keys(final(tombs)@), self.rows().tombs.dom()),
            shows_markers(final(tombs)@, self.rows().tombs),
    {
        actives.clear();
        let keys = self.tables.value_keys();
        let mut i: usize = 0;
        while i < keys.len()
            invariant
                i <= keys.len(),
                lists_keys(keys@, self.rows().values.dom()),
                row_keys(actives@) == keys@.take(i as int),
                shows_snapshots::<C>(actives@, self.rows().values, self.version()),
            decreases keys.len() - i,
        {
            let key = keys[i];
            let ghost before = actives@;
            proof { assert(self.rows().values.dom().contains(keys@[i as int])); }
            if let Some(reg) = self.tables.value(key) {
                let snapshot = C::snapshot_reg_at_version(reg, self.root_schema_version);
                actives.push((key, snapshot));
                proof {
                    assert(row_keys(actives@) =~= row_keys(before).push(key));
                    assert(keys@.take(i + 1) =~= keys@.take(i as int).push(key));
                    assert forall|k: int|
                        #![trigger actives@[k]]
                        0 <= k < actives@.len() implies self.rows().values.contains_key(
                        actives@[k].0,
                    ) && call_ensures(
                        C::snapshot_reg_at_version,
                        (&self.rows().values[actives@[k].0], self.version()),
                        actives@[k].1,
                    ) by {
                        if k < i {
                            assert(actives@[k] == before[k]);
                        }
                    }
                }
            }
            i += 1;
        }
        proof { assert(keys@.take(keys@.len() as int) =~= keys@); }
        self.load_markers(tombs);
    }

    /// Populate caller-provided buffers with all raw registers and tombstones.
    ///
    /// Peer metadata uses this path so operational-only fields can remain
    /// available to topology code without becoming part of the snapshot
    /// hash contract.
    pub fn load_all_regs_into<'a>(
        &'a self,
        actives: &mut Vec<(u128, &'a C::Reg)>,
        tombs: &mut Vec<(u128, TombstoneRecord)>,
    )
        ensures
            lists_keys(row_keys(final(actives)@), self.rows().values.dom()),
            shows_registers(final(actives)@, self.rows().values),
            lists_keys(row_keys(final(tombs)@), self.rows().tombs.dom()),
            shows_markers(final(tombs)@, self.rows().tombs),
    {
        actives.clear();
        let keys = self.tables.value_keys();
        let mut i: usize = 0;
        while i < keys.len()
            invariant
                i <= keys.len(),
                lists_keys(keys@, self.rows().values.dom()),
                row_keys(actives@) == keys@.take(i as int),
                shows_registers(actives@, self.rows().values),
            decreases keys.len() - i,
        {
            let key = keys[i];
            let ghost before = actives@;
            proof { assert(self.rows().values.dom().contains(keys@[i as int])); }
            if let Some(reg) = self.tables.value(key) {
                actives.push((key, reg));
                proof {
                    assert(row_keys(actives@) =~= row_keys(before).push(key));
                    assert(keys@.take(i + 1) =~= keys@.take(i as int).push(key));
                }
            }
            i += 1;
        }
        proof { assert(keys@.take(keys@.len() as int) =~= keys@); }
        self.load_markers(tombs);
    }

    /// Replaces the buffer with all delete markers.
    fn load_markers(&self, tombs: &mut Vec<(u128, TombstoneRecord)>)
        ensures
            lists_keys(row_keys(final(tombs)@), self.rows().tombs.dom()),
            shows_markers(final(tombs)@, self.rows().tombs),
    {
        tombs.clear();
        let keys = self.tables.tomb_keys();
        let mut i: usize = 0;
        while i < keys.len()
            invariant
                i <= keys.len(),
                lists_keys(keys@, self.rows().tombs.dom()),
                row_keys(tombs@) == keys@.take(i as int),
                shows_markers(tombs@, self.rows().tombs),
            decreases keys.len() - i,
        {
            let key = keys[i];
            let ghost before = tombs@;
            proof { assert(self.rows().tombs.dom().contains(keys@[i as int])); }
            if let Some(record) = self.tables.tomb(key) {
                tombs.push((key, record.clone()));
                proof {
                    assert(row_keys(tombs@) =~= row_keys(before).push(key));
                    assert(keys@.take(i + 1) =~= keys@.take(i as int).push(key));
                }
            }
            i += 1;
        }
        proof { assert(keys@.take(keys@.len() as int) =~= keys@); }
    }

    /// Read and return the current snapshot for key `k`, if present.
    pub fn get_snapshot(&self, k: u128) -> (out: Option<C::Snapshot>)
        ensures
            match out {
                Some(snapshot) => self.rows().values.contains_key(k) && call_ensures(
                    C::snapshot_reg_at_version,
                    (&self.rows().values[k], self.version()),
                    snapshot,
                ),
                None => !self.rows().values.contains_key(k),
            },
    {
        match self.tables.value(k) {
            Some(reg) => Some(C::snapshot_reg_at_version(reg, self.root_schema_version)),
            None => None,
        }
    }

    /// Reads the current raw register for key `k`, if present.
    ///
    /// This is the escape hatch used by peer metadata code that must inspect
    /// values omitted from the snapshot projection.
    pub fn get_reg(&self, k: u128) -> (out: Option<&C::Reg>)
        ensures
            match out {
                Some(reg) => self.rows().values.contains_key(k) && *reg == self.rows().values[k],
                None => !self.rows().values.contains_key(k),
            },
    {
        self.tables.value(k)
    }

    /// Encodes exported register rows into the opaque sync payload representation.
    pub fn encode_register_delta(&self, regs: &[(u128, &C::Reg)]) -> (out: Result<
        Vec<(Vec<u8>, Vec<u8>)>,
        StoreError,
    >)
        ensures
            match out {
                Ok(encoded) => encoded@.len() == regs@.len() && encodes_rows::<C>(
                    regs@,
                    encoded@,
                ),
                Err(error) => refuses_row::<C>(regs@, error),
            },
    {
        let mut out: Vec<(Vec<u8>, Vec<u8>)> = Vec::new();
        let mut i: usize = 0;
        while i < regs.len()
            invariant
                i <= regs.len(),
                out@.len() == i,
                encodes_rows::<C>(regs@, out@),
            decreases regs.len() - i,
        {
            let (key, reg) = regs[i];
            let bytes = match C::encode_reg(reg) {
                Ok(bytes) => bytes,
                Err(error) => {
                    return Err(error);
                },
            };
            let mut raw: Vec<u8> = Vec::new();
            push_be(&mut raw, key, 16);
            proof { assert(raw@ =~= be_bytes(key as nat, 16)); }
            out.push((raw, bytes));
            i += 1;
        }
        Ok(out)
    }

    /// Delta export for requested ranges: for each requested [start, end], include all
    /// values and tombstones whose raw-key bytes are within that inclusive range.
    ///
    /// A key that lies in several ranges is exported once, with the first of them.
    pub fn export_page_ranges_delta<'a>(&'a self, want: &[PageDigestRange]) -> (out: (
        Vec<(u128, &'a C::Reg)>,
        Vec<(u128, TombstoneRecord)>,
    ))
        ensures
            exists|keys: Seq<u128>| #[trigger]
                lists_keys(keys, self.rows().values.dom()) && row_keys(out.0@) == exported(
                    keys,
                    want@,
                    want@.len() as int,
                ),
            shows_registers(out.0@, self.rows().values),
            exists|keys: Seq<u128>| #[trigger]
                lists_keys(keys, self.rows().tombs.dom()) && row_keys(out.1@) == exported(
                    keys,
                    want@,
                    want@.len() as int,
                ),
            shows_markers(out.1@, self.rows().tombs),
    {
        let live = self.tables.value_keys();
        let deleted = self.tables.tomb_keys();
        let live_out = export_keys(&live, want);
        let deleted_out = export_keys(&deleted, want);
        let mut registers: Vec<(u128, &'a C::Reg)> = Vec::new();
        let mut i: usize = 0;
        proof { lemma_exported_within(live@, want@, want@.len() as int); }
        while i < live_out.len()
            invariant
                i <= live_out.len(),
                lists_keys(live@, self.rows().values.dom()),
                forall|k: int|
                    #![trigger live_out@[k]]
                    0 <= k < live_out@.len() ==> live@.contains(live_out@[k]),
                row_keys(registers@) == live_out@.take(i as int),
                shows_registers(registers@, self.rows().values),
            decreases live_out.len() - i,
        {
            let key = live_out[i];
            let ghost before = registers@;
            proof {
                let at = live@.index_of(key);
                assert(self.rows().values.dom().contains(live@[at]));
            }
            if let Some(reg) = self.tables.value(key) {
                registers.push((key, reg));
                proof {
                    assert(row_keys(registers@) =~= row_keys(before).push(key));
                    assert(live_out@.take(i + 1) =~= live_out@.take(i as int).push(key));
                }
            }
            i += 1;
        }
        proof { assert(live_out@.take(live_out@.len() as int) =~= live_out@); }
        let mut tombstones: Vec<(u128, TombstoneRecord)> = Vec::new();
        i = 0;
        proof { lemma_exported_within(deleted@, want@, want@.len() as int); }
        while i < deleted_out.len()
            invariant
                i <= deleted_out.len(),
                lists_keys(deleted@, self.rows().tombs.dom()),
                forall|k: int|
                    #![trigger deleted_out@[k]]
                    0 <= k < deleted_out@.len() ==> deleted@.contains(deleted_out@[k]),
                row_keys(tombstones@) == deleted_out@.take(i as int),
                shows_markers(tombstones@, self.rows().tombs),
            decreases deleted_out.len() - i,
        {
            let key = deleted_out[i];
            let ghost before = tombstones@;
            proof {
                let at = deleted@.index_of(key);
                assert(self.rows().tombs.dom().contains(deleted@[at]));
            }
            if let Some(record) = self.tables.tomb(key) {
                tombstones.push((key, record.clone()));
                proof {
                    assert(row_keys(tombstones@) =~= row_keys(before).push(key));
                    assert(deleted_out@.take(i + 1) =~= deleted_out@.take(i as int).push(key));
                }
            }
            i += 1;
        }
        proof { assert(deleted_out@.take(deleted_out@.len() as int) =~= deleted_out@); }
        let out = (registers, tombstones);
        out
    }
}

/// Returns whether the raw bytes of the key lie within the bounds of the page.
fn page_holds(key: u128, page: &PageDigestRange) -> (out: bool)
    ensures
        out == in_page(key, *page),
{
    let mut raw: Vec<u8> = Vec::new();
    push_be(&mut raw, key, 16);
    proof { assert(raw@ =~= be_bytes(key as nat, 16)); }
    !is_bytes_less(&raw, &page.start) && !is_bytes_less(&page.end, &raw)
}

/// Returns whether one of the first `n` ranges holds the key.
fn is_key_covered(key: u128, want: &[PageDigestRange], n: usize) -> (out: bool)
    requires
        n <= want@.len(),
    ensures
        out == is_covered(key, want@, n as int),
{
    let mut i: usize = 0;
    while i < n
        invariant
            i <= n <= want@.len(),
            forall|k: int| #![trigger want@[k]] 0 <= k < i ==> !in_page(key, want@[k]),
        decreases n - i,
    {
        if page_holds(key, &want[i]) {
            return true;
        }
        i += 1;
    }
    false
}

/// Lists the keys that the ranges export.
fn export_keys(keys: &Vec<u128>, want: &[PageDigestRange]) -> (out: Vec<u128>)
    ensures
        out@ == exported(keys@, want@, want@.len() as int),
{
    let mut out: Vec<u128> = Vec::new();
    let mut n: usize = 0;
    while n < want.len()
        invariant
            n <= want@.len(),
            out@ == exported(keys@, want@, n as int),
        decreases want@.len() - n,
    {
        let ghost before = out@;
        let ghost keep = added_by(want@, n as int);
        let mut i: usize = 0;
        proof {
            reveal(Seq::filter);
            assert(out@ =~= before + keys@.take(0).filter(keep));
        }
        while i < keys.len()
            invariant
                i <= keys.len(),
                n < want@.len(),
                keep == added_by(want@, n as int),
                out@ == before + keys@.take(i as int).filter(keep),
            decreases keys.len() - i,
        {
            let key = keys[i];
            let ghost listed = out@;
            proof {
                reveal(Seq::filter);
                assert(keys@.take(i + 1).drop_last() =~= keys@.take(i as int));
                assert(keys@.take(i + 1).last() == key);
            }
            if page_holds(key, &want[n]) && !is_key_covered(key, want, n) {
                out.push(key);
                proof {
                    assert(keep(key));
                    assert(out@ =~= before + keys@.take(i + 1).filter(keep));
                }
            } else {
                proof { assert(!keep(key)); }
            }
            i += 1;
        }
        proof { assert(keys@.take(keys@.len() as int) =~= keys@); }
        n += 1;
    }
    out
}

/// Exported keys are among those to export from.
proof fn lemma_exported_within(keys: Seq<u128>, want: Seq<PageDigestRange>, n: int)
    ensures
        forall|k: int|
            #![trigger exported(keys, want, n)[k]]
            0 <= k < exported(keys, want, n).len() ==> keys.contains(exported(keys, want, n)[k]),
    decreases n,
{
    if n > 0 {
        lemma_exported_within(keys, want, n - 1);
        let added = keys.filter(added_by(want, n - 1));
        lemma_filter_members(keys, added_by(want, n - 1));
        assert forall|k: int|
            #![trigger exported(keys, want, n)[k]]
            0 <= k < exported(keys, want, n).len() implies keys.contains(
            exported(keys, want, n)[k],
        ) by {
            let earlier = exported(keys, want, n - 1);
            if k < earlier.len() {
                assert(exported(keys, want, n)[k] == earlier[k]);
            } else {
                assert(exported(keys, want, n)[k] == added[k - earlier.len()]);
                assert(added.contains(added[k - earlier.len()]));
            }
        }
    }
}

/// A filtered list holds exactly the elements that pass, and none twice that was single.
proof fn lemma_filter_members(keys: Seq<u128>, keep: spec_fn(u128) -> bool)
    ensures
        forall|key: u128| #[trigger]
            keys.filter(keep).contains(key) <==> keys.contains(key) && keep(key),
        keys.no_duplicates() ==> keys.filter(keep).no_duplicates(),
    decreases keys.len(),
{
    reveal(Seq::filter);
    if keys.len() > 0 {
        let rest = keys.drop_last();
        let last = keys.last();
        lemma_filter_members(rest, keep);
        assert(keys =~= rest.push(last));
        super::lemma_push_contains(rest, last);
        super::lemma_push_contains(rest.filter(keep), last);
        if keys.no_duplicates() {
            assert(rest.no_duplicates());
            assert(!rest.contains(last)) by {
                if rest.contains(last) {
                    let k = rest.index_of(last);
                    assert(keys[k] == keys[keys.len() - 1]);
                }
            }
            if keep(last) {
                assert(!rest.filter(keep).contains(last));
                let longer = rest.filter(keep).push(last);
                assert forall|i: int, j: int|
                    0 <= i < longer.len() && 0 <= j < longer.len() && i != j implies longer[i]
                    != longer[j] by {
                    if i == longer.len() - 1 {
                        assert(rest.filter(keep).contains(longer[j]));
                    }
                    if j == longer.len() - 1 {
                        assert(rest.filter(keep).contains(longer[i]));
                    }
                }
            }
        }
    }
}

/// An export holds exactly the keys that some requested range covers, and each of them
/// once, however the ranges overlap.
pub proof fn law_export_is_exact(
    keys: Seq<u128>,
    all: Set<u128>,
    want: Seq<PageDigestRange>,
    n: int,
)
    requires
        lists_keys(keys, all),
        0 <= n <= want.len(),
    ensures
        exported(keys, want, n).no_duplicates(),
        forall|key: u128| #[trigger]
            exported(keys, want, n).contains(key) <==> all.contains(key) && is_covered(
                key,
                want,
                n,
            ),
    decreases n,
{
    assert(keys.no_duplicates()) by {
        assert forall|i: int, j: int|
            0 <= i < keys.len() && 0 <= j < keys.len() && i != j implies keys[i] != keys[j] by {
            if i < j {
                assert(keys[i] < keys[j]);
            } else {
                assert(keys[j] < keys[i]);
            }
        }
    }
    assert forall|key: u128| keys.contains(key) == #[trigger] all.contains(key) by {
        if keys.contains(key) {
            let k = keys.index_of(key);
            assert(all.contains(keys[k]));
        }
    }
    if n > 0 {
        law_export_is_exact(keys, all, want, n - 1);
        let earlier = exported(keys, want, n - 1);
        let added = keys.filter(added_by(want, n - 1));
        let whole = exported(keys, want, n);
        lemma_filter_members(keys, added_by(want, n - 1));
        assert forall|key: u128| #[trigger] whole.contains(key) <==> earlier.contains(key)
            || added.contains(key) by {
            if earlier.contains(key) {
                assert(whole[earlier.index_of(key)] == key);
            }
            if added.contains(key) {
                assert(whole[earlier.len() + added.index_of(key)] == key);
            }
            if whole.contains(key) {
                let k = whole.index_of(key);
                if k < earlier.len() {
                    assert(earlier[k] == key);
                } else {
                    assert(added[k - earlier.len()] == key);
                }
            }
        }
        assert forall|key: u128| #[trigger] is_covered(key, want, n) <==> is_covered(
            key,
            want,
            n - 1,
        ) || in_page(key, want[n - 1]) by {
            if is_covered(key, want, n) {
                let i = choose|i: int| #![trigger want[i]] 0 <= i < n && in_page(key, want[i]);
                if i < n - 1 {
                    assert(is_covered(key, want, n - 1));
                }
            }
        }
        assert forall|key: u128| #[trigger] whole.contains(key) <==> all.contains(key)
            && is_covered(key, want, n) by {
            assert(earlier.contains(key) <==> all.contains(key) && is_covered(key, want, n - 1));
            assert(added.contains(key) <==> keys.contains(key) && added_by(want, n - 1)(key));
        }
        assert forall|i: int, j: int|
            0 <= i < whole.len() && 0 <= j < whole.len() && i != j implies whole[i] != whole[j] by {
            let low = if i < j { i } else { j };
            let high = if i < j { j } else { i };
            if low < earlier.len() && high >= earlier.len() {
                assert(earlier.contains(earlier[low]));
                assert(added.contains(added[high - earlier.len()]));
            }
        }
    }
}

/// Bounds and digest of a page summary.
#[verifier::ext_equal]
pub struct PageView {
    pub start: Seq<u8>,
    pub end: Seq<u8>,
    pub hash: Seq<u8>,
}

impl View for PageDigestRange {
    type V = PageView;

    open spec fn view(&self) -> PageView {
        PageView { start: self.start@, end: self.end@, hash: self.hash@ }
    }
}

/// Digest of the last page among the first `n` with these bounds.
pub open spec fn known_digest(
    local: Seq<PageDigestRange>,
    n: int,
    start: Seq<u8>,
    end: Seq<u8>,
) -> Option<Seq<u8>>
    decreases n,
{
    if n <= 0 {
        None
    } else if local[n - 1].start@ == start && local[n - 1].end@ == end {
        Some(local[n - 1].hash@)
    } else {
        known_digest(local, n - 1, start, end)
    }
}

/// A remote page is missing locally or has another digest there.
pub open spec fn is_wanted(page: PageView, local: Seq<PageDigestRange>) -> bool {
    known_digest(local, local.len() as int, page.start, page.end) != Some(page.hash)
}

/// Remote pages among the first `n` that are wanted, in order.
pub open spec fn wanted(
    remote: Seq<PageDigestRange>,
    local: Seq<PageDigestRange>,
    n: int,
) -> Seq<PageView>
    decreases n,
{
    if n <= 0 {
        Seq::empty()
    } else if is_wanted(remote[n - 1]@, local) {
        wanted(remote, local, n - 1).push(remote[n - 1]@)
    } else {
        wanted(remote, local, n - 1)
    }
}

/// Compute what we want from `remote` that is either missing locally or has a different digest.
pub fn compute_want_from_have(remote: &[PageDigestRange], local: &[PageDigestRange]) -> (out: Vec<
    PageDigestRange,
>)
    ensures
        out@.map_values(|page: PageDigestRange| page@) == wanted(
            remote@,
            local@,
            remote@.len() as int,
        ),
{
    let mut out: Vec<PageDigestRange> = Vec::new();
    let mut i: usize = 0;
    let ghost show = |page: PageDigestRange| page@;
    proof { assert(out@.map_values(show) =~= Seq::<PageView>::empty()); }
    while i < remote.len()
        invariant
            i <= remote@.len(),
            show == |page: PageDigestRange| page@,
            out@.map_values(show) == wanted(remote@, local@, i as int),
        decreases remote@.len() - i,
    {
        let page = &remote[i];
        let ghost before = out@;
        if !is_page_known(page, local) {
            let copy = PageDigestRange {
                start: copy_bytes(&page.start),
                end: copy_bytes(&page.end),
                hash: copy_bytes(&page.hash),
            };
            out.push(copy);
            proof {
                assert(copy@ =~= page@);
                assert(out@.map_values(show) =~= before.map_values(show).push(page@));
            }
        }
        i += 1;
    }
    out
}

/// Returns whether the last local page with the same bounds has the same digest.
fn is_page_known(page: &PageDigestRange, local: &[PageDigestRange]) -> (out: bool)
    ensures
        out == !is_wanted(page@, local@),
{
    let mut n: usize = local.len();
    while n > 0
        invariant
            n <= local@.len(),
            known_digest(local@, local@.len() as int, page.start@, page.end@) == known_digest(
                local@,
                n as int,
                page.start@,
                page.end@,
            ),
        decreases n,
    {
        let other = &local[n - 1];
        if same_bytes(&other.start, &page.start) && same_bytes(&other.end, &page.end) {
            return same_bytes(&other.hash, &page.hash);
        }
        n -= 1;
    }
    false
}

} // verus!
