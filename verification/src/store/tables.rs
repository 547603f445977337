//! The rows of a store: registers, delete markers with their age index, and the
//! prune frontiers.

use std::collections::BTreeMap;
use vstd::prelude::*;
use vstd::std_specs::btree::*;
use vstd::std_specs::iter::IteratorSpec;

use crate::store::frontier::FrontierTable;
use crate::store::order::less;
use crate::store::tombstone::{TombstoneRecord, TombstoneView};

verus! {

broadcast use {vstd::std_specs::btree::group_btree_axioms, vstd::laws_cmp::group_laws_cmp};

/// Delete markers as plain values.
pub open spec fn marker_views(tombs: Map<u128, TombstoneRecord>) -> Map<u128, TombstoneView> {
    tombs.map_values(|record: TombstoneRecord| record@)
}

/// Age index of some delete markers: one row per marker, by observation time.
pub open spec fn age_index(tombs: Map<u128, TombstoneView>) -> Set<(u64, u128)> {
    Set::new(
        |row: (u64, u128)| tombs.contains_key(row.1) && tombs[row.1].observed_at_unix_ms == row.0,
    )
}

/// The keys stand in increasing order, and they are the keys of the set.
pub open spec fn lists_keys(keys: Seq<u128>, all: Set<u128>) -> bool {
    &&& forall|i: int, j: int|
        #![trigger keys[i], keys[j]]
        0 <= i < j < keys.len() ==> keys[i] < keys[j]
    &&& forall|i: int| #![trigger keys[i]] 0 <= i < keys.len() ==> all.contains(keys[i])
    &&& forall|key: u128| #[trigger] all.contains(key) ==> keys.contains(key)
}

/// One age-index row stands before another.
pub open spec fn older(a: (u64, u128), b: (u64, u128)) -> bool {
    a.0 < b.0 || (a.0 == b.0 && a.1 < b.1)
}

/// The rows stand in order of age, and they are the rows of the index.
pub open spec fn lists_rows(rows: Seq<(u64, u128)>, all: Set<(u64, u128)>) -> bool {
    &&& forall|i: int, j: int|
        #![trigger rows[i], rows[j]]
        0 <= i < j < rows.len() ==> older(rows[i], rows[j])
    &&& forall|i: int| #![trigger rows[i]] 0 <= i < rows.len() ==> all.contains(rows[i])
    &&& forall|row: (u64, u128)| #[trigger] all.contains(row) ==> rows.contains(row)
}

/// Rows of one store.
pub struct StoreTables<R> {
    values: BTreeMap<u128, R>,
    tombs: BTreeMap<u128, TombstoneRecord>,
    tombs_by_observed: BTreeMap<(u64, u128), ()>,
    tomb_seq: u64,
    frontiers: FrontierTable,
}

/// Rows of one store as plain values.
pub struct TablesView<R> {
    /// Live registers by key.
    pub values: Map<u128, R>,
    /// Delete markers by key.
    pub tombs: Map<u128, TombstoneView>,
    /// Last delete generation that this store handed out.
    pub tomb_seq: u64,
    /// Forgotten delete generations by origin actor.
    pub frontiers: Map<Seq<u8>, u64>,
}

impl<R> View for StoreTables<R> {
    type V = TablesView<R>;

    closed spec fn view(&self) -> TablesView<R> {
        TablesView {
            values: self.values@,
            tombs: marker_views(self.tombs@),
            tomb_seq: self.tomb_seq,
            frontiers: self.frontiers@,
        }
    }
}

impl<R> StoreTables<R> {
    /// Rows of the age index.
    pub closed spec fn index_rows(&self) -> Set<(u64, u128)> {
        self.tombs_by_observed@.dom()
    }

    /// The age index lists exactly the delete markers, and no key is both live
    /// and deleted.
    #[verifier::type_invariant]
    pub closed spec fn well_formed(&self) -> bool {
        &&& self.tombs_by_observed@.dom() == age_index(self@.tombs)
        &&& forall|key: u128| #[trigger]
            self@.values.contains_key(key) ==> !self@.tombs.contains_key(key)
    }

    /// The age index of a well-formed store is that of its markers, and no key is
    /// both live and deleted.
    pub proof fn lemma_in_sync(&self)
        requires
            self.well_formed(),
        ensures
            self.index_rows() == age_index(self@.tombs),
            forall|key: u128| #[trigger]
                self@.values.contains_key(key) ==> !self@.tombs.contains_key(key),
    {
    }

    /// Makes a store without rows.
    pub fn new() -> (out: Self)
        ensures
            out@.values == Map::<u128, R>::empty(),
            out@.tombs == Map::<u128, TombstoneView>::empty(),
            out@.tomb_seq == 0,
            out@.frontiers == Map::<Seq<u8>, u64>::empty(),
    {
        let tombs: BTreeMap<u128, TombstoneRecord> = BTreeMap::new();
        proof {
            assert(marker_views(tombs@) =~= Map::<u128, TombstoneView>::empty());
            assert(age_index(marker_views(tombs@)) =~= Set::<(u64, u128)>::empty());
        }
        StoreTables {
            values: BTreeMap::new(),
            tombs,
            tombs_by_observed: BTreeMap::new(),
            tomb_seq: 0,
            frontiers: FrontierTable::new(),
        }
    }

    /// Returns the register of a key.
    pub fn value(&self, key: u128) -> (out: Option<&R>)
        ensures
            match out {
                Some(reg) => self@.values.contains_key(key) && *reg == self@.values[key],
                None => !self@.values.contains_key(key),
            },
    {
        proof { lemma_key_order(); }
        self.values.get(&key)
    }

    /// Returns the delete marker of a key.
    pub fn tomb(&self, key: u128) -> (out: Option<&TombstoneRecord>)
        ensures
            match out {
                Some(record) => self@.tombs.contains_key(key) && record@ == self@.tombs[key],
                None => !self@.tombs.contains_key(key),
            },
    {
        proof { lemma_key_order(); }
        self.tombs.get(&key)
    }

    /// Takes the register of a key out.
    pub fn take_value(&mut self, key: u128) -> (out: Option<R>)
        ensures
            final(self)@ == (TablesView { values: old(self)@.values.remove(key), ..old(self)@ }),
            match out {
                Some(reg) => old(self)@.values.contains_key(key) && reg == old(self)@.values[key],
                None => !old(self)@.values.contains_key(key),
            },
    {
        proof {
            use_type_invariant(&*self);
            lemma_key_order();
        }
        let mut values: BTreeMap<u128, R> = BTreeMap::new();
        std::mem::swap(&mut values, &mut self.values);
        let out = values.remove(&key);
        self.values = values;
        out
    }

    /// Makes a key live: its register is set and its delete marker, with the age
    /// row, is gone.
    pub fn set_value(&mut self, key: u128, reg: R)
        ensures
            final(self)@ == (TablesView {
                values: old(self)@.values.insert(key, reg),
                tombs: old(self)@.tombs.remove(key),
                ..old(self)@
            }),
    {
        proof {
            use_type_invariant(&*self);
            lemma_key_order();
        }
        self.drop_tomb(key);
        proof { use_type_invariant(&*self); }
        let mut values: BTreeMap<u128, R> = BTreeMap::new();
        std::mem::swap(&mut values, &mut self.values);
        values.insert(key, reg);
        self.values = values;
    }

    /// Removes the delete marker of a key together with its age row.
    pub fn drop_tomb(&mut self, key: u128)
        ensures
            final(self)@ == (TablesView { tombs: old(self)@.tombs.remove(key), ..old(self)@ }),
    {
        let ghost before = self@;
        proof {
            use_type_invariant(&*self);
            lemma_key_order();
        }
        let mut tables = StoreTables::new();
        std::mem::swap(&mut tables, self);
        let StoreTables { values, mut tombs, mut tombs_by_observed, tomb_seq, frontiers } = tables;
        if let Some(record) = tombs.remove(&key) {
            let row: (u64, u128) = (record.observed_at_unix_ms, key);
            tombs_by_observed.remove(&row);
        }
        proof {
            assert(marker_views(tombs@) =~= before.tombs.remove(key));
            assert(tombs_by_observed@.dom() =~= age_index(marker_views(tombs@)));
        }
        *self = StoreTables { values, tombs, tombs_by_observed, tomb_seq, frontiers };
    }

    /// Makes a key deleted: its marker and the age row are set and its register is
    /// gone.
    pub fn set_tomb(&mut self, key: u128, record: TombstoneRecord)
        ensures
            final(self)@ == (TablesView {
                values: old(self)@.values.remove(key),
                tombs: old(self)@.tombs.insert(key, record@),
                ..old(self)@
            }),
    {
        let ghost before = self@;
        proof {
            use_type_invariant(&*self);
            lemma_key_order();
        }
        self.drop_tomb(key);
        let _ = self.take_value(key);
        let row: (u64, u128) = (record.observed_at_unix_ms, key);
        let ghost middle = self.tombs@;
        proof { use_type_invariant(&*self); }
        let mut tables = StoreTables::new();
        std::mem::swap(&mut tables, self);
        let StoreTables { values, mut tombs, mut tombs_by_observed, tomb_seq, frontiers } = tables;
        tombs_by_observed.insert(row, ());
        tombs.insert(key, record);
        proof {
            assert(marker_views(middle) == before.tombs.remove(key));
            assert(marker_views(middle.insert(key, record)) =~= marker_views(middle).insert(
                key,
                record@,
            ));
            assert(before.tombs.remove(key).insert(key, record@) =~= before.tombs.insert(
                key,
                record@,
            ));
            assert(marker_views(tombs@) =~= before.tombs.insert(key, record@));
            assert(tombs_by_observed@.dom() =~= age_index(marker_views(tombs@)));
        }
        *self = StoreTables { values, tombs, tombs_by_observed, tomb_seq, frontiers };
    }

    /// Hands out the next delete generation.
    pub fn next_sequence(&mut self) -> (out: u64)
        ensures
            out == if old(self)@.tomb_seq < u64::MAX {
                (old(self)@.tomb_seq + 1) as u64
            } else {
                u64::MAX
            },
            final(self)@ == (TablesView { tomb_seq: out, ..old(self)@ }),
    {
        proof { use_type_invariant(&*self); }
        self.tomb_seq = self.tomb_seq.saturating_add(1);
        self.tomb_seq
    }

    /// Continues after a delete generation that was saved.
    pub fn restore_sequence(&mut self, sequence: u64)
        ensures
            final(self)@ == (TablesView { tomb_seq: sequence, ..old(self)@ }),
    {
        proof { use_type_invariant(&*self); }
        self.tomb_seq = sequence;
    }

    /// Returns the last delete generation handed out.
    pub fn sequence(&self) -> (out: u64)
        ensures
            out == self@.tomb_seq,
    {
        self.tomb_seq
    }

    /// Returns the prune frontier of an actor.
    pub fn frontier(&self, actor: &[u8]) -> (out: u64)
        ensures
            out == crate::store::frontier::frontier(self@.frontiers, actor@),
    {
        proof { use_type_invariant(self); }
        self.frontiers.get(actor)
    }

    /// Raises the prune frontier of an actor.
    pub fn advance_frontier(&mut self, actor: &[u8], sequence: u64)
        ensures
            final(self)@ == (TablesView {
                frontiers: crate::store::frontier::advanced(
                    old(self)@.frontiers,
                    actor@,
                    sequence,
                ),
                ..old(self)@
            }),
    {
        proof { use_type_invariant(&*self); }
        let mut frontiers = FrontierTable::new();
        std::mem::swap(&mut frontiers, &mut self.frontiers);
        frontiers.advance(actor, sequence);
        self.frontiers = frontiers;
    }

    /// Returns all prune frontiers in increasing actor order.
    pub fn frontier_list(&self) -> (out: Vec<(Vec<u8>, u64)>)
        ensures
            crate::store::frontier::frontier_order(out@),
            crate::store::frontier::frontier_rows(out@) == self@.frontiers,
    {
        proof { use_type_invariant(self); }
        self.frontiers.rows()
    }

    /// Returns the live keys in increasing order.
    pub fn value_keys(&self) -> (out: Vec<u128>)
        ensures
            lists_keys(out@, self@.values.dom()),
    {
        sorted_keys(&self.values)
    }

    /// Returns the deleted keys in increasing order.
    pub fn tomb_keys(&self) -> (out: Vec<u128>)
        ensures
            lists_keys(out@, self@.tombs.dom()),
    {
        proof { assert(self@.tombs.dom() =~= self.tombs@.dom()); }
        sorted_keys(&self.tombs)
    }

    /// Returns the age rows, oldest first.
    pub fn age_rows(&self) -> (out: Vec<(u64, u128)>)
        ensures
            lists_rows(out@, age_index(self@.tombs)),
    {
        proof { use_type_invariant(self); }
        let mut out: Vec<(u64, u128)> = Vec::new();
        proof { lemma_key_order(); }
        for entry in it: self.tombs_by_observed.iter()
            invariant
                it.seq() == spec_btree_map_iter(&self.tombs_by_observed).remaining(),
                increasing_seq(it.seq().map_values(|kv: (&(u64, u128), &())| *kv.0)),
                out@.len() == it.index(),
                forall|k: int|
                    #![trigger out@[k]]
                    0 <= k < it.index() ==> out@[k] == *it.seq()[k].0,
        {
            out.push(*entry.0);
        }
        proof {
            lemma_key_order();
            let rows = self.tombs_by_observed@;
            let all = spec_btree_map_iter(&self.tombs_by_observed).remaining();
            let keys = all.map_values(|kv: (&(u64, u128), &())| *kv.0);
            assert forall|i: int, j: int|
                #![trigger out@[i], out@[j]]
                0 <= i < j < out@.len() implies older(out@[i], out@[j]) by {
                assert(keys[i] == out@[i] && keys[j] == out@[j]);
                assert(less(keys[i], keys[j]));
            }
            assert forall|row: (u64, u128)| #[trigger] rows.dom().contains(
                row,
            ) implies out@.contains(row) by {
                assert(rows.contains_key(row));
                assert(all.contains((&row, &rows[row])));
                let i = choose|i: int| 0 <= i < all.len() && all[i] == (&row, &rows[row]);
                assert(out@[i] == row);
            }
        }
        out
    }
}

/// Keys and age rows are totally ordered.
pub(crate) proof fn lemma_key_order()
    ensures
        vstd::laws_cmp::obeys_cmp::<u128>(),
        vstd::laws_cmp::obeys_cmp::<(u64, u128)>(),
{
    assert(vstd::laws_cmp::obeys_cmp::<u64>());
    assert(vstd::laws_cmp::obeys_cmp::<u128>());
}

/// Keys of a map in increasing order.
pub(crate) fn sorted_keys<T>(map: &BTreeMap<u128, T>) -> (out: Vec<u128>)
    ensures
        lists_keys(out@, map@.dom()),
{
    let mut out: Vec<u128> = Vec::new();
    proof { lemma_key_order(); }
    for entry in it: map.iter()
        invariant
            it.seq() == spec_btree_map_iter(map).remaining(),
            increasing_seq(it.seq().map_values(|kv: (&u128, &T)| *kv.0)),
            out@.len() == it.index(),
            forall|k: int|
                #![trigger out@[k]]
                0 <= k < it.index() ==> out@[k] == *it.seq()[k].0,
    {
        out.push(*entry.0);
    }
    proof {
        lemma_key_order();
        let all = spec_btree_map_iter(map).remaining();
        let keys = all.map_values(|kv: (&u128, &T)| *kv.0);
        assert forall|i: int, j: int|
            #![trigger out@[i], out@[j]]
            0 <= i < j < out@.len() implies out@[i] < out@[j] by {
            assert(keys[i] == out@[i] && keys[j] == out@[j]);
            assert(less(keys[i], keys[j]));
        }
        assert forall|key: u128| #[trigger] map@.dom().contains(key) implies out@.contains(key) by {
            assert(map@.contains_key(key));
            assert(all.contains((&key, &map@[key])));
            let i = choose|i: int| 0 <= i < all.len() && all[i] == (&key, &map@[key]);
            assert(out@[i] == key);
        }
    }
    out
}

} // verus!
