//! Multi-value registers: concurrent writes stay visible side by side, and a
//! write that has seen another replaces it.

use vstd::prelude::*;

use crate::store::compaction_laws::law_compaction_keeps_the_context;
use crate::store::mvreg_laws::{
    law_context_covers_entries, law_gathered_is_settled, law_merge_keeps_settled,
    law_put_keeps_settled, settled, well_clocked,
};
use crate::store::order::{
    alike, increasing, is_less, lawful_clone, lawful_order, lemma_alike, lemma_less_transitive,
    lemma_order, less,
};
use crate::store::vector_clock::{
    canonical, follows, incremented, joined, listed_before_clock, precedes, VectorClock,
};

verus! {

/// One visible value with the clock that introduced it.
pub type EntryView<V, A> = (Map<A, u64>, V);

/// An entry outlives a write with this clock: it is ahead of it or concurrent.
pub open spec fn outlives_put<V, A>(clock: Map<A, u64>) -> spec_fn(EntryView<V, A>) -> bool {
    |entry: EntryView<V, A>| entry.0 != clock && !precedes(entry.0, clock)
}

/// Some entry is strictly ahead of the clock.
pub open spec fn ahead_of<V, A>(entries: Seq<EntryView<V, A>>, clock: Map<A, u64>) -> bool {
    exists|i: int|
        #![trigger entries[i]]
        0 <= i < entries.len() && follows(entries[i].0, clock)
}

/// Register after a write with an explicit clock.
pub open spec fn put<V, A>(
    entries: Seq<EntryView<V, A>>,
    clock: Map<A, u64>,
    value: V,
) -> Seq<EntryView<V, A>> {
    let kept = entries.filter(outlives_put(clock));
    if clock == Map::<A, u64>::empty() {
        entries
    } else if ahead_of(kept, clock) {
        kept
    } else {
        kept.push((clock, value))
    }
}

/// Register that results from writing the entries one after another.
pub open spec fn gathered<V, A>(entries: Seq<EntryView<V, A>>) -> Seq<EntryView<V, A>>
    decreases entries.len(),
{
    if entries.len() == 0 {
        Seq::empty()
    } else {
        put(gathered(entries.drop_last()), entries.last().0, entries.last().1)
    }
}

/// Clock that covers every visible entry.
pub open spec fn context<V, A>(entries: Seq<EntryView<V, A>>) -> Map<A, u64>
    decreases entries.len(),
{
    if entries.len() == 0 {
        Map::empty()
    } else {
        joined(context(entries.drop_last()), entries.last().0)
    }
}

/// Register after an actor wrote a value in the context of all that is visible.
pub open spec fn written<V, A>(
    entries: Seq<EntryView<V, A>>,
    actor: A,
    value: V,
) -> Seq<EntryView<V, A>> {
    put(entries, incremented(context(entries), actor), value)
}

/// Some entry of the list is strictly ahead of the clock.
pub open spec fn superseded<V, A>(clock: Map<A, u64>, by: Seq<EntryView<V, A>>) -> bool {
    exists|i: int| #![trigger by[i]] 0 <= i < by.len() && precedes(clock, by[i].0)
}

/// Some entry of the list has exactly this clock.
pub open spec fn has_clock<V, A>(entries: Seq<EntryView<V, A>>, clock: Map<A, u64>) -> bool {
    exists|i: int| #![trigger entries[i]] 0 <= i < entries.len() && entries[i].0 == clock
}

/// An entry is not superseded by any of the other register's.
pub open spec fn outlives<V, A>(other: Seq<EntryView<V, A>>) -> spec_fn(EntryView<V, A>) -> bool {
    |entry: EntryView<V, A>| !superseded(entry.0, other)
}

/// An incoming entry is neither superseded by nor already among the kept ones.
pub open spec fn is_news<V, A>(kept: Seq<EntryView<V, A>>) -> spec_fn(EntryView<V, A>) -> bool {
    |entry: EntryView<V, A>| !superseded(entry.0, kept) && !has_clock(kept, entry.0)
}

/// Register that holds what neither side supersedes.
pub open spec fn merged<V, A>(
    left: Seq<EntryView<V, A>>,
    right: Seq<EntryView<V, A>>,
) -> Seq<EntryView<V, A>> {
    let kept = left.filter(outlives(right));
    kept + right.filter(is_news(kept))
}

/// The entry at `i` is preferred to the one at `j`: by rank, then by value, then
/// by its clock read as a sorted map, each time the larger one; at last by place.
pub open spec fn preferred<V: Ord, A: Ord, R: Ord>(
    entries: Seq<EntryView<V, A>>,
    ranks: Seq<R>,
    i: int,
    j: int,
) -> bool {
    if less(ranks[j], ranks[i]) {
        true
    } else if less(ranks[i], ranks[j]) {
        false
    } else if less(entries[j].1, entries[i].1) {
        true
    } else if less(entries[i].1, entries[j].1) {
        false
    } else if listed_before_clock(entries[j].0, entries[i].0) {
        true
    } else if listed_before_clock(entries[i].0, entries[j].0) {
        false
    } else {
        i < j
    }
}

/// How many of the first `upto` entries are preferred to the one at `i`.
pub open spec fn preferred_count<V: Ord, A: Ord, R: Ord>(
    entries: Seq<EntryView<V, A>>,
    ranks: Seq<R>,
    i: int,
    upto: int,
) -> int
    decreases upto,
{
    if upto <= 0 {
        0
    } else {
        preferred_count(entries, ranks, i, upto - 1) + if preferred(entries, ranks, upto - 1, i) {
            1int
        } else {
            0int
        }
    }
}

/// Place of the entry at `i` in the order of preference, counted from zero.
pub open spec fn place<V: Ord, A: Ord, R: Ord>(
    entries: Seq<EntryView<V, A>>,
    ranks: Seq<R>,
    i: int,
) -> int {
    preferred_count(entries, ranks, i, entries.len() as int)
}

/// Clock of everything that is dropped from the first `upto` entries.
pub open spec fn dropped_clock<V: Ord, A: Ord, R: Ord>(
    entries: Seq<EntryView<V, A>>,
    ranks: Seq<R>,
    max_values: int,
    upto: int,
) -> Map<A, u64>
    decreases upto,
{
    if upto <= 0 {
        Map::empty()
    } else {
        let before = dropped_clock(entries, ranks, max_values, upto - 1);
        if place(entries, ranks, upto - 1) < max_values {
            before
        } else {
            joined(before, entries[upto - 1].0)
        }
    }
}

/// What stays of the first `upto` entries; the most preferred one takes over the
/// clock of what is dropped.
pub open spec fn retained<V: Ord, A: Ord, R: Ord>(
    entries: Seq<EntryView<V, A>>,
    ranks: Seq<R>,
    max_values: int,
    absorbed: Map<A, u64>,
    upto: int,
) -> Seq<EntryView<V, A>>
    decreases upto,
{
    if upto <= 0 {
        Seq::empty()
    } else {
        let before = retained(entries, ranks, max_values, absorbed, upto - 1);
        let entry = entries[upto - 1];
        if place(entries, ranks, upto - 1) == 0 && max_values > 0 {
            before.push((joined(entry.0, absorbed), entry.1))
        } else if place(entries, ranks, upto - 1) < max_values {
            before.push(entry)
        } else {
            before
        }
    }
}

/// Register that keeps the `max_values` most preferred entries.
pub open spec fn compacted<V: Ord, A: Ord, R: Ord>(
    entries: Seq<EntryView<V, A>>,
    ranks: Seq<R>,
    max_values: int,
) -> Seq<EntryView<V, A>> {
    if max_values <= 0 || entries.len() <= max_values {
        entries
    } else {
        let absorbed = dropped_clock(entries, ranks, max_values, entries.len() as int);
        gathered(retained(entries, ranks, max_values, absorbed, entries.len() as int))
    }
}

/// One MVReg value together with the vector clock that introduced it.
#[derive(Debug, PartialEq, Eq, Hash)]
pub struct MvRegEntry<V, A: Ord> {
    clock: VectorClock<A>,
    value: V,
}

impl<V, A: Ord> View for MvRegEntry<V, A> {
    type V = EntryView<V, A>;

    closed spec fn view(&self) -> EntryView<V, A> {
        (self.clock@, self.value)
    }
}

impl<V, A: Ord> MvRegEntry<V, A> {
    /// Builds one register entry from an explicit vector clock and value.
    pub fn new(clock: VectorClock<A>, value: V) -> (out: Self)
        ensures
            out@ == (clock@, value),
    {
        MvRegEntry { clock, value }
    }

    /// Returns the vector clock associated with this register entry.
    pub fn clock(&self) -> (out: &VectorClock<A>)
        ensures
            out@ == self@.0,
    {
        &self.clock
    }

    /// Returns the value associated with this register entry.
    pub fn value(&self) -> (out: &V)
        ensures
            *out == self@.1,
    {
        &self.value
    }
}

impl<V: Clone, A: Ord + Clone> Clone for MvRegEntry<V, A> {
    fn clone(&self) -> (out: Self)
        ensures
            out@.0 == self@.0,
            cloned(self@.1, out@.1),
    {
        MvRegEntry { clock: self.clock.clone(), value: self.value.clone() }
    }
}

/// Views of a list of entries.
pub open spec fn views<V, A: Ord>(entries: Seq<MvRegEntry<V, A>>) -> Seq<EntryView<V, A>> {
    entries.map_values(|entry: MvRegEntry<V, A>| entry@)
}

/// Mantissa-owned multi-value register used for stable storage encoding.
#[derive(Debug, PartialEq, Eq, Hash)]
pub struct MvReg<V, A: Ord> {
    entries: Vec<MvRegEntry<V, A>>,
}

impl<V, A: Ord> View for MvReg<V, A> {
    type V = Seq<EntryView<V, A>>;

    closed spec fn view(&self) -> Seq<EntryView<V, A>> {
        views(self.entries@)
    }
}

impl<V: Clone, A: Ord + Clone> Clone for MvReg<V, A> {
    fn clone(&self) -> (out: Self)
        ensures
            out@.len() == self@.len(),
            forall|i: int|
                #![trigger out@[i]]
                0 <= i < out@.len() ==> out@[i].0 == self@[i].0 && cloned(self@[i].1, out@[i].1),
            settled(self@) ==> settled(out@),
    {
        let mut entries: Vec<MvRegEntry<V, A>> = Vec::new();
        let mut i: usize = 0;
        while i < self.entries.len()
            invariant
                i <= self.entries.len(),
                entries@.len() == i,
                forall|k: int|
                    #![trigger entries@[k]]
                    0 <= k < i ==> entries@[k]@.0 == self@[k].0 && cloned(
                        self@[k].1,
                        entries@[k]@.1,
                    ),
            decreases self.entries.len() - i,
        {
            let entry = self.entries[i].clone();
            entries.push(entry);
            i += 1;
        }
        MvReg { entries }
    }
}

impl<V, A: Ord> Default for MvReg<V, A> {
    fn default() -> (out: Self)
        ensures
            out@ == Seq::<EntryView<V, A>>::empty(),
    {
        Self::new()
    }
}

impl<V, A: Ord> MvReg<V, A> {
    /// Entries that the register holds.
    pub closed spec fn entry_list(&self) -> Seq<MvRegEntry<V, A>> {
        self.entries@
    }

    /// Builds an empty multi-value register.
    pub fn new() -> (out: Self)
        ensures
            out@ == Seq::<EntryView<V, A>>::empty(),
            settled(out@),
    {
        let out = MvReg { entries: Vec::new() };
        proof { assert(out@ =~= Seq::<EntryView<V, A>>::empty()); }
        out
    }

    /// Builds a register from explicit entries and normalizes dominated values.
    pub fn from_entries(entries: Vec<MvRegEntry<V, A>>) -> (out: Self)
        requires
            lawful_order::<A>(),
        ensures
            out@ == gathered(views(entries@)),
            (forall|i: int|
                #![trigger entries@[i]]
                0 <= i < entries@.len() ==> canonical(entries@[i]@.0)) ==> settled(out@),
    {
        let mut reg = Self::new();
        let ghost all = views(entries@);
        for entry in it: entries
            invariant
                lawful_order::<A>(),
                all == views(it.seq()),
                reg@ == gathered(all.take(it.index() as int)),
        {
            proof {
                let next = all.take(it.index() + 1);
                assert(next.drop_last() =~= all.take(it.index() as int));
                assert(next.last() == entry@);
            }
            reg.apply_put(entry.clock, entry.value);
        }
        proof {
            assert(all.take(all.len() as int) =~= all);
            if forall|i: int|
                #![trigger entries@[i]]
                0 <= i < entries@.len() ==> canonical(entries@[i]@.0) {
                assert forall|i: int| #![trigger all[i]] 0 <= i < all.len() implies canonical(
                    all[i].0,
                ) by {
                    assert(canonical(entries@[i]@.0));
                }
                law_gathered_is_settled(all);
            }
        }
        reg
    }

    /// Returns the active entries currently stored in the register.
    pub fn entries(&self) -> (out: &[MvRegEntry<V, A>])
        ensures
            views(out@) == self@,
    {
        self.entries.as_slice()
    }

    /// Returns the currently visible concurrent values.
    pub fn read_values(&self) -> (out: Vec<V>)
        where V: Clone
        requires
            lawful_clone::<V>(),
        ensures
            out@ == self@.map_values(|entry: EntryView<V, A>| entry.1),
    {
        let mut out: Vec<V> = Vec::new();
        let mut i: usize = 0;
        while i < self.entries.len()
            invariant
                lawful_clone::<V>(),
                i <= self.entries.len(),
                out@.len() == i,
                forall|k: int| #![trigger out@[k]] 0 <= k < i ==> out@[k] == self@[k].1,
            decreases self.entries.len() - i,
        {
            let value = self.entries[i].value.clone();
            proof { assert(cloned(self.entries@[i as int].value, value)); }
            out.push(value);
            i += 1;
        }
        proof { assert(out@ =~= self@.map_values(|entry: EntryView<V, A>| entry.1)); }
        out
    }

    /// Returns the merged vector clock for all active entries.
    pub fn clock(&self) -> (out: VectorClock<A>)
        where A: Clone
        requires
            lawful_order::<A>(),
            lawful_clone::<A>(),
        ensures
            out@ == context(self@),
            well_clocked(self@) ==> canonical(out@),
    {
        let mut clock = VectorClock::new();
        let mut i: usize = 0;
        while i < self.entries.len()
            invariant
                lawful_order::<A>(),
                lawful_clone::<A>(),
                i <= self.entries.len(),
                clock@ == context(self@.take(i as int)),
            decreases self.entries.len() - i,
        {
            clock.merge(&self.entries[i].clock);
            proof {
                let next = self@.take(i + 1);
                assert(next.drop_last() =~= self@.take(i as int));
                assert(next.last() == self.entries@[i as int]@);
            }
            i += 1;
        }
        proof {
            assert(self@.take(self@.len() as int) =~= self@);
            if well_clocked(self@) {
                law_context_covers_entries(self@);
            }
        }
        clock
    }

    /// Writes one value by incrementing the provided actor in the current read context.
    pub fn write(&mut self, actor: A, value: V)
        where A: Clone
        requires
            lawful_order::<A>(),
            lawful_clone::<A>(),
        ensures
            final(self)@ == written(old(self)@, actor, value),
            settled(old(self)@) ==> settled(final(self)@),
    {
        let mut clock = self.clock();
        clock.increment(actor);
        self.apply_put(clock, value);
    }

    /// Applies one explicit put operation to the register.
    pub fn apply_put(&mut self, clock: VectorClock<A>, value: V)
        requires
            lawful_order::<A>(),
        ensures
            final(self)@ == put(old(self)@, clock@, value),
            settled(old(self)@) && canonical(clock@) ==> settled(final(self)@),
    {
        proof {
            if settled(self@) && canonical(clock@) {
                law_put_keeps_settled(self@, clock@, value);
            }
        }
        if clock.is_empty() {
            return;
        }
        let mut entries: Vec<MvRegEntry<V, A>> = Vec::new();
        std::mem::swap(&mut entries, &mut self.entries);
        let ghost all = views(entries@);
        let ghost pred = outlives_put::<V, A>(clock@);
        let mut kept: Vec<MvRegEntry<V, A>> = Vec::new();
        let mut blocked = false;
        proof {
            reveal(Seq::filter);
            assert(views(kept@) =~= all.take(0).filter(pred));
        }
        for entry in it: entries
            invariant
                lawful_order::<A>(),
                all == views(it.seq()),
                pred == outlives_put::<V, A>(clock@),
                views(kept@) == all.take(it.index() as int).filter(pred),
                blocked == ahead_of(views(kept@), clock@),
        {
            let ghost before = kept@;
            proof {
                reveal(Seq::filter);
                let next = all.take(it.index() + 1);
                assert(next.drop_last() =~= all.take(it.index() as int));
                assert(next.last() == entry@);
            }
            if !entry.clock.same(&clock) && !entry.clock.is_behind(&clock) {
                if entry.clock.is_ahead(&clock) {
                    blocked = true;
                }
                kept.push(entry);
                proof {
                    assert(views(kept@) =~= views(before).push(entry@));
                    lemma_ahead_push(views(before), entry@, clock@);
                }
            }
        }
        proof { assert(all.take(all.len() as int) =~= all); }
        if !blocked {
            let ghost before = kept@;
            let ghost at = clock@;
            kept.push(MvRegEntry { clock, value });
            proof { assert(views(kept@) =~= views(before).push((at, value))); }
        }
        self.entries = kept;
    }

    /// Merges another register into this one and preserves only non-dominated entries.
    pub fn merge(&mut self, other: Self)
        requires
            lawful_order::<A>(),
        ensures
            final(self)@ == merged(old(self)@, other@),
            settled(old(self)@) && settled(other@) ==> settled(final(self)@),
    {
        proof {
            if settled(self@) && settled(other@) {
                law_merge_keeps_settled(self@, other@);
            }
        }
        let mut entries: Vec<MvRegEntry<V, A>> = Vec::new();
        std::mem::swap(&mut entries, &mut self.entries);
        let ghost left = views(entries@);
        let ghost right = views(other.entries@);
        let ghost pred = outlives(right);
        let mut kept: Vec<MvRegEntry<V, A>> = Vec::new();
        proof {
            reveal(Seq::filter);
            assert(views(kept@) =~= left.take(0).filter(pred));
        }
        for entry in it: entries
            invariant
                lawful_order::<A>(),
                left == views(it.seq()),
                right == views(other.entries@),
                pred == outlives(right),
                views(kept@) == left.take(it.index() as int).filter(pred),
        {
            let ghost before = kept@;
            proof {
                reveal(Seq::filter);
                let next = left.take(it.index() + 1);
                assert(next.drop_last() =~= left.take(it.index() as int));
                assert(next.last() == entry@);
            }
            if !is_superseded(&entry.clock, &other.entries) {
                kept.push(entry);
                proof { assert(views(kept@) =~= views(before).push(entry@)); }
            }
        }
        proof { assert(left.take(left.len() as int) =~= left); }
        let ghost held = views(kept@);
        let ghost news = is_news(held);
        let mut incoming: Vec<MvRegEntry<V, A>> = Vec::new();
        proof {
            reveal(Seq::filter);
            assert(views(incoming@) =~= right.take(0).filter(news));
        }
        for entry in it: other.entries
            invariant
                lawful_order::<A>(),
                right == views(it.seq()),
                held == views(kept@),
                news == is_news(held),
                views(incoming@) == right.take(it.index() as int).filter(news),
        {
            let ghost before = incoming@;
            proof {
                reveal(Seq::filter);
                let next = right.take(it.index() + 1);
                assert(next.drop_last() =~= right.take(it.index() as int));
                assert(next.last() == entry@);
            }
            if !is_superseded(&entry.clock, &kept) && !holds_clock(&kept, &entry.clock) {
                incoming.push(entry);
                proof { assert(views(incoming@) =~= views(before).push(entry@)); }
            }
        }
        proof { assert(right.take(right.len() as int) =~= right); }
        let ghost arrived = views(incoming@);
        kept.append(&mut incoming);
        proof { assert(views(kept@) =~= held + arrived); }
        self.entries = kept;
    }

    /// Returns one canonical snapshot of the currently visible values.
    pub fn snapshot(&self) -> (out: MvRegSnapshot<V>)
        where V: Clone + Ord
        requires
            lawful_clone::<V>(),
            lawful_order::<V>(),
        ensures
            canonical_values(out@, self@.map_values(|entry: EntryView<V, A>| entry.1)),
    {
        MvRegSnapshot::from_unsorted(self.read_values())
    }

    /// Compacts this register by keeping the highest-ranked active entries.
    ///
    /// The rank function must be deterministic from durable register state.
    /// Dropped entries are not simply removed: their vector clocks are merged
    /// into the highest-ranked retained entry so stale peers cannot later
    /// reintroduce those dropped values as concurrent register entries.
    pub fn compact_with<F, R>(&mut self, max_values: usize, rank: F) -> (out: bool)
        where A: Clone, V: Ord, F: Fn(&MvRegEntry<V, A>) -> R, R: Ord
        requires
            lawful_order::<A>(),
            lawful_clone::<A>(),
            lawful_order::<V>(),
            lawful_order::<R>(),
            forall|i: int|
                #![trigger old(self).entry_list()[i]]
                0 <= i < old(self).entry_list().len() ==> call_requires(
                    rank,
                    (&old(self).entry_list()[i],),
                ),
        ensures
            out == (max_values > 0 && old(self)@.len() > max_values),
            out ==> exists|ranks: Seq<R>|
                {
                    &&& #[trigger] ranked(rank, old(self).entry_list(), ranks)
                    &&& final(self)@ == compacted(old(self)@, ranks, max_values as int)
                },
            !out ==> final(self)@ == old(self)@,
            settled(old(self)@) ==> settled(final(self)@),
            settled(old(self)@) ==> context(final(self)@) == context(old(self)@),
    {
        if max_values == 0 || self.entries.len() <= max_values {
            return false;
        }
        let mut entries: Vec<MvRegEntry<V, A>> = Vec::new();
        std::mem::swap(&mut entries, &mut self.entries);
        let ghost all = views(entries@);
        let count: usize = entries.len();
        let mut ranks: Vec<R> = Vec::new();
        let mut i: usize = 0;
        proof {
            assert forall|k: int| #![trigger entries@[k]] 0 <= k < count implies call_requires(
                rank,
                (&entries@[k],),
            ) by {
                assert(call_requires(rank, (&old(self).entry_list()[k],)));
            }
        }
        while i < count
            invariant
                i <= count == entries@.len(),
                entries@ == old(self).entry_list(),
                ranks@.len() == i,
                forall|k: int|
                    #![trigger entries@[k]]
                    0 <= k < count ==> call_requires(rank, (&entries@[k],)),
                forall|k: int|
                    #![trigger ranks@[k]]
                    0 <= k < i ==> call_ensures(rank, (&entries@[k],), ranks@[k]),
            decreases count - i,
        {
            proof { assert(call_requires(rank, (&entries@[i as int],))); }
            ranks.push(rank(&entries[i]));
            i += 1;
        }
        let places = preference_places(&entries, &ranks);
        let mut absorbed: VectorClock<A> = VectorClock::new();
        i = 0;
        while i < count
            invariant
                lawful_order::<A>(),
                lawful_clone::<A>(),
                i <= count == entries@.len(),
                all == views(entries@),
                places@.len() == count,
                forall|k: int|
                    #![trigger places@[k]]
                    0 <= k < count ==> places@[k] == place(all, ranks@, k),
                absorbed@ == dropped_clock(all, ranks@, max_values as int, i as int),
            decreases count - i,
        {
            proof { assert(all[i as int] == entries@[i as int]@); }
            if places[i] >= max_values {
                absorbed.merge(&entries[i].clock);
            }
            i += 1;
        }
        let ghost taken = absorbed@;
        let mut kept: Vec<MvRegEntry<V, A>> = Vec::new();
        proof {
            assert(views(kept@) =~= retained(all, ranks@, max_values as int, taken, 0));
        }
        i = 0;
        for next in it: entries
            invariant
                lawful_order::<A>(),
                lawful_clone::<A>(),
                max_values > 0,
                i == it.index(),
                all == views(it.seq()),
                all.len() == count,
                places@.len() == all.len(),
                forall|k: int|
                    #![trigger places@[k]]
                    0 <= k < all.len() ==> places@[k] == place(all, ranks@, k),
                absorbed@ == taken,
                views(kept@) == retained(all, ranks@, max_values as int, taken, i as int),
        {
            let ghost before = kept@;
            proof { assert(all[i as int] == next@); }
            if places[i] < max_values {
                let mut entry = next;
                if places[i] == 0 {
                    entry.clock.merge(&absorbed);
                }
                kept.push(entry);
                proof { assert(views(kept@) =~= views(before).push(entry@)); }
            }
            i += 1;
        }
        let out = MvReg::from_entries(kept);
        self.entries = out.entries;
        proof {
            assert(ranked(rank, old(self).entry_list(), ranks@));
            assert(self@ == compacted(old(self)@, ranks@, max_values as int));
            if settled(old(self)@) {
                law_compaction_keeps_the_context(old(self)@, ranks@, max_values as int);
            }
        }
        true
    }
}

/// The ranks are what the rank function returned for the entries, in order.
pub open spec fn ranked<V, A: Ord, R, F: Fn(&MvRegEntry<V, A>) -> R>(
    rank: F,
    entries: Seq<MvRegEntry<V, A>>,
    ranks: Seq<R>,
) -> bool {
    &&& ranks.len() == entries.len()
    &&& forall|k: int|
        #![trigger ranks[k]]
        0 <= k < ranks.len() ==> call_ensures(rank, (&entries[k],), ranks[k])
}

/// Returns whether the entry at `i` is preferred to the one at `j`.
fn is_preferred<V: Ord, A: Ord, R: Ord>(
    entries: &Vec<MvRegEntry<V, A>>,
    ranks: &Vec<R>,
    i: usize,
    j: usize,
) -> (out: bool)
    requires
        lawful_order::<A>(),
        lawful_order::<V>(),
        lawful_order::<R>(),
        ranks@.len() == entries@.len(),
        i < entries@.len(),
        j < entries@.len(),
    ensures
        out == preferred(views(entries@), ranks@, i as int, j as int),
{
    proof {
        assert(views(entries@)[i as int] == entries@[i as int]@);
        assert(views(entries@)[j as int] == entries@[j as int]@);
    }
    if is_less(&ranks[j], &ranks[i]) {
        true
    } else if is_less(&ranks[i], &ranks[j]) {
        false
    } else if is_less(&entries[j].value, &entries[i].value) {
        true
    } else if is_less(&entries[i].value, &entries[j].value) {
        false
    } else if entries[j].clock.is_listed_before(&entries[i].clock) {
        true
    } else if entries[i].clock.is_listed_before(&entries[j].clock) {
        false
    } else {
        i < j
    }
}

/// Returns each entry's place in the order of preference.
fn preference_places<V: Ord, A: Ord, R: Ord>(
    entries: &Vec<MvRegEntry<V, A>>,
    ranks: &Vec<R>,
) -> (out: Vec<usize>)
    requires
        lawful_order::<A>(),
        lawful_order::<V>(),
        lawful_order::<R>(),
        ranks@.len() == entries@.len(),
    ensures
        out@.len() == entries@.len(),
        forall|k: int|
            #![trigger out@[k]]
            0 <= k < out@.len() ==> out@[k] == place(views(entries@), ranks@, k),
{
    let ghost all = views(entries@);
    let count: usize = entries.len();
    let mut out: Vec<usize> = Vec::new();
    let mut i: usize = 0;
    while i < count
        invariant
            lawful_order::<A>(),
            lawful_order::<V>(),
            lawful_order::<R>(),
            ranks@.len() == entries@.len() == count,
            all == views(entries@),
            i <= count,
            out@.len() == i,
            forall|k: int|
                #![trigger out@[k]]
                0 <= k < i ==> out@[k] == place(all, ranks@, k),
        decreases count - i,
    {
        let mut ahead: usize = 0;
        let mut j: usize = 0;
        while j < count
            invariant
                lawful_order::<A>(),
                lawful_order::<V>(),
                lawful_order::<R>(),
                ranks@.len() == entries@.len() == count,
                all == views(entries@),
                i < count,
                j <= count,
                ahead <= j,
                ahead == preferred_count(all, ranks@, i as int, j as int),
            decreases count - j,
        {
            if is_preferred(entries, ranks, j, i) {
                ahead += 1;
            }
            j += 1;
        }
        out.push(ahead);
        i += 1;
    }
    out
}

/// Returns whether some entry of the list is strictly ahead of the clock.
fn is_superseded<V, A: Ord>(clock: &VectorClock<A>, by: &Vec<MvRegEntry<V, A>>) -> (out: bool)
    requires
        lawful_order::<A>(),
    ensures
        out == superseded(clock@, views(by@)),
{
    let ghost all = views(by@);
    let mut i: usize = 0;
    while i < by.len()
        invariant
            lawful_order::<A>(),
            i <= by.len(),
            all == views(by@),
            forall|k: int| #![trigger all[k]] 0 <= k < i ==> !precedes(clock@, all[k].0),
        decreases by.len() - i,
    {
        proof { assert(all[i as int] == by@[i as int]@); }
        if clock.is_behind(&by[i].clock) {
            return true;
        }
        i += 1;
    }
    false
}

/// Returns whether some entry of the list has exactly this clock.
fn holds_clock<V, A: Ord>(entries: &Vec<MvRegEntry<V, A>>, clock: &VectorClock<A>) -> (out: bool)
    requires
        lawful_order::<A>(),
    ensures
        out == has_clock(views(entries@), clock@),
{
    let ghost all = views(entries@);
    let mut i: usize = 0;
    while i < entries.len()
        invariant
            lawful_order::<A>(),
            i <= entries.len(),
            all == views(entries@),
            forall|k: int| #![trigger all[k]] 0 <= k < i ==> all[k].0 != clock@,
        decreases entries.len() - i,
    {
        proof { assert(all[i as int] == entries@[i as int]@); }
        if entries[i].clock.same(clock) {
            return true;
        }
        i += 1;
    }
    false
}

/// The first value of its kind among the inputs.
#[verifier::opaque]
pub open spec fn first_of_kind<T: Ord>(vals: Seq<T>, value: T) -> bool {
    exists|i: int|
        #![trigger vals[i]]
        0 <= i < vals.len() && vals[i] == value && forall|k: int|
            #![trigger vals[k]]
            0 <= k < i ==> !alike(vals[k], value)
}

/// Some listed value is of the same kind.
#[verifier::opaque]
pub open spec fn represented<T: Ord>(out: Seq<T>, value: T) -> bool {
    exists|j: int| #![trigger out[j]] 0 <= j < out.len() && alike(out[j], value)
}

/// `out` lists each kind of value once, in increasing order, represented by its
/// first occurrence.
pub open spec fn canonical_values<T: Ord>(out: Seq<T>, vals: Seq<T>) -> bool {
    &&& increasing(out)
    &&& forall|j: int| #![trigger out[j]] 0 <= j < out.len() ==> first_of_kind(vals, out[j])
    &&& forall|i: int|
        #![trigger vals[i]]
        0 <= i < vals.len() ==> represented(out, vals[i])
}

/// Stable, hashable snapshot of the active values stored in one MVReg.
#[derive(Clone, Debug, Eq, PartialEq, Hash)]
pub struct MvRegSnapshot<T> {
    vals: Vec<T>,
}

impl<T> View for MvRegSnapshot<T> {
    type V = Seq<T>;

    closed spec fn view(&self) -> Seq<T> {
        self.vals@
    }
}

impl<T> MvRegSnapshot<T> {
    /// Builds a canonical snapshot from unsorted register values.
    pub fn from_unsorted(vals: Vec<T>) -> (out: Self)
        where T: Ord
        requires
            lawful_order::<T>(),
        ensures
            canonical_values(out@, vals@),
    {
        let mut sorted: Vec<T> = Vec::new();
        let ghost all = vals@;
        for value in it: vals
            invariant
                lawful_order::<T>(),
                all == it.seq(),
                canonical_values(sorted@, all.take(it.index() as int)),
        {
            let ghost seen = all.take(it.index() as int);
            let ghost before = sorted@;
            proof { assert(all.take(it.index() + 1) =~= seen.push(value)); }
            let mut at: usize = 0;
            while at < sorted.len() && is_less(&sorted[at], &value)
                invariant
                    lawful_order::<T>(),
                    sorted@ == before,
                    at <= sorted.len(),
                    forall|k: int| #![trigger before[k]] 0 <= k < at ==> less(before[k], value),
                decreases sorted.len() - at,
            {
                at += 1;
            }
            if at == sorted.len() || is_less(&value, &sorted[at]) {
                sorted.insert(at, value);
                proof { lemma_insert_value(before, seen, at as int, value); }
            } else {
                proof { lemma_skip_value(before, seen, at as int, value); }
            }
        }
        proof { assert(all.take(all.len() as int) =~= all); }
        MvRegSnapshot { vals: sorted }
    }

    /// Builds a canonical snapshot from values that may still contain duplicates.
    pub fn new_sorted(vals: Vec<T>) -> (out: Self)
        where T: Ord
        requires
            lawful_order::<T>(),
        ensures
            canonical_values(out@, vals@),
    {
        Self::from_unsorted(vals)
    }

    /// Returns the canonical active values represented by this snapshot.
    pub fn as_slice(&self) -> (out: &[T])
        ensures
            out@ == self@,
    {
        self.vals.as_slice()
    }
}

/// A first occurrence stays one when more values follow.
proof fn lemma_first_stays<T: Ord>(vals: Seq<T>, more: T, value: T)
    requires
        first_of_kind(vals, value),
    ensures
        first_of_kind(vals.push(more), value),
{
    reveal(first_of_kind);
    let i = choose|i: int|
        #![trigger vals[i]]
        0 <= i < vals.len() && vals[i] == value && forall|k: int|
            #![trigger vals[k]]
            0 <= k < i ==> !alike(vals[k], value);
    let longer = vals.push(more);
    assert(longer[i] == value);
    assert forall|k: int| #![trigger longer[k]] 0 <= k < i implies !alike(longer[k], value) by {
        assert(longer[k] == vals[k]);
    }
}

/// Putting a value between the smaller and the larger ones keeps the order.
proof fn lemma_insert_increasing<T: Ord>(out: Seq<T>, at: int, value: T)
    requires
        lawful_order::<T>(),
        increasing(out),
        0 <= at <= out.len(),
        forall|k: int| #![trigger out[k]] 0 <= k < at ==> less(out[k], value),
        at < out.len() ==> less(value, out[at]),
    ensures
        increasing(out.insert(at, value)),
        forall|k: int| #![trigger out[k]] at <= k < out.len() ==> less(value, out[k]),
{
    let grown = out.insert(at, value);
    assert forall|k: int| #![trigger out[k]] at <= k < out.len() implies less(value, out[k]) by {
        if k > at {
            lemma_less_transitive(value, out[at], out[k]);
        }
    }
    assert forall|i: int, j: int|
        #![trigger grown[i], grown[j]]
        0 <= i < j < grown.len() implies less(grown[i], grown[j]) by {
        let from = if i < at { i } else { i - 1 };
        let to = if j < at { j } else { j - 1 };
        if i == at {
            assert(grown[j] == out[to]);
        } else if j == at {
            assert(grown[i] == out[from]);
        } else {
            assert(grown[i] == out[from] && grown[j] == out[to]);
        }
    }
}

/// A value unlike all that are listed is the first of its kind.
proof fn lemma_new_kind<T: Ord>(out: Seq<T>, vals: Seq<T>, at: int, value: T)
    requires
        lawful_order::<T>(),
        canonical_values(out, vals),
        0 <= at <= out.len(),
        forall|k: int| #![trigger out[k]] 0 <= k < at ==> less(out[k], value),
        forall|k: int| #![trigger out[k]] at <= k < out.len() ==> less(value, out[k]),
    ensures
        first_of_kind(vals.push(value), value),
{
    reveal(first_of_kind);
    reveal(represented);
    let longer = vals.push(value);
    assert forall|k: int| #![trigger longer[k]] 0 <= k < vals.len() implies !alike(
        longer[k],
        value,
    ) by {
        assert(longer[k] == vals[k]);
        assert(represented(out, vals[k]));
        let j = choose|j: int| #![trigger out[j]] 0 <= j < out.len() && alike(out[j], vals[k]);
        lemma_order(out[j], value);
        lemma_order(value, out[j]);
        lemma_alike(out[j], vals[k], value);
    }
    assert(longer[vals.len() as int] == value);
}

/// Putting a value of a new kind at its place keeps the list canonical.
proof fn lemma_insert_value<T: Ord>(out: Seq<T>, vals: Seq<T>, at: int, value: T)
    requires
        lawful_order::<T>(),
        canonical_values(out, vals),
        0 <= at <= out.len(),
        forall|k: int| #![trigger out[k]] 0 <= k < at ==> less(out[k], value),
        at < out.len() ==> less(value, out[at]),
    ensures
        canonical_values(out.insert(at, value), vals.push(value)),
{
    let grown = out.insert(at, value);
    let longer = vals.push(value);
    lemma_insert_increasing(out, at, value);
    lemma_new_kind(out, vals, at, value);
    assert forall|j: int| #![trigger grown[j]] 0 <= j < grown.len() implies first_of_kind(
        longer,
        grown[j],
    ) by {
        if j != at {
            let from = if j < at { j } else { j - 1 };
            assert(grown[j] == out[from]);
            lemma_first_stays(vals, value, out[from]);
        }
    }
    assert forall|i: int| #![trigger longer[i]] 0 <= i < longer.len() implies represented(
        grown,
        longer[i],
    ) by {
        reveal(represented);
        if i < vals.len() {
            assert(longer[i] == vals[i]);
            assert(represented(out, vals[i]));
            let j = choose|j: int| #![trigger out[j]] 0 <= j < out.len() && alike(out[j], vals[i]);
            let to = if j < at { j } else { j + 1 };
            assert(grown[to] == out[j]);
        } else {
            assert(grown[at] == value);
            lemma_order(value, value);
        }
    }
}

/// A value of a kind that is listed already changes nothing.
proof fn lemma_skip_value<T: Ord>(out: Seq<T>, vals: Seq<T>, at: int, value: T)
    requires
        lawful_order::<T>(),
        canonical_values(out, vals),
        0 <= at < out.len(),
        !less(out[at], value),
        !less(value, out[at]),
    ensures
        canonical_values(out, vals.push(value)),
{
    let longer = vals.push(value);
    lemma_order(out[at], value);
    assert forall|j: int| #![trigger out[j]] 0 <= j < out.len() implies first_of_kind(
        longer,
        out[j],
    ) by {
        lemma_first_stays(vals, value, out[j]);
    }
    assert forall|i: int| #![trigger longer[i]] 0 <= i < longer.len() implies represented(
        out,
        longer[i],
    ) by {
        if i < vals.len() {
            assert(longer[i] == vals[i]);
        } else {
            reveal(represented);
            assert(alike(out[at], longer[i]));
        }
    }
}

/// One more entry adds exactly its own standing to a list.
proof fn lemma_ahead_push<V, A>(
    entries: Seq<EntryView<V, A>>,
    entry: EntryView<V, A>,
    clock: Map<A, u64>,
)
    ensures
        ahead_of(entries.push(entry), clock) <==> (ahead_of(entries, clock) || follows(entry.0, clock)),
{
    let more = entries.push(entry);
    if ahead_of(entries, clock) {
        let i = choose|i: int|
            #![trigger entries[i]]
            0 <= i < entries.len() && follows(entries[i].0, clock);
        assert(more[i] == entries[i]);
    }
    if follows(entry.0, clock) {
        assert(more[entries.len() as int] == entry);
    }
    if ahead_of(more, clock) {
        let i = choose|i: int|
            #![trigger more[i]]
            0 <= i < more.len() && follows(more[i].0, clock);
        if i < entries.len() {
            assert(more[i] == entries[i]);
        }
    }
}

} // verus!
