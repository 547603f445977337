//! What a caller of the clocks, the registers and the delete markers can rely on, counter by
//! counter and entry by entry.

use std::cmp::Ordering;
use vstd::prelude::*;

use crate::bytes::{be_value, law_be_round_trip, lemma_be_len, lemma_byte_ranges, lemma_bytes_order};
use crate::store::mvreg::{ahead_of, outlives_put, EntryView, MvReg};
use crate::store::mvreg_laws::{
    agreeing, law_context_covers_entries, law_merge_shows_what_is_not_superseded,
    law_write_replaces_all, lemma_filtered, settled,
};
use crate::store::order::lawful_order;
use crate::store::tombstone::{
    merge_tombstone_records, normalize_incoming_tombstone, tombstone_observed_index_key,
    TombstoneRecord,
};
use crate::store::vector_clock::{
    canonical, covers, law_causal_order_is_symmetric, law_covering_is_antisymmetric, VectorClock,
};

verus! {

/// Events of one actor that a clock has seen.
pub open spec fn events<A>(clock: Map<A, u64>, actor: A) -> int {
    if clock.contains_key(actor) { clock[actor] as int } else { 0 }
}

/// Every event that the first clock has seen, the second has seen too.
pub open spec fn within<A>(low: Map<A, u64>, high: Map<A, u64>) -> bool {
    forall|actor: A| #[trigger] events(low, actor) <= events(high, actor)
}

/// The first clock has seen no event that the second has not, and the second has seen more.
pub open spec fn strictly_within<A>(low: Map<A, u64>, high: Map<A, u64>) -> bool {
    within(low, high) && !within(high, low)
}

/// Covering is seeing every event.
proof fn lemma_within<A>(low: Map<A, u64>, high: Map<A, u64>)
    ensures
        covers(high, low) <==> within(low, high),
{
    if covers(high, low) {
        assert forall|actor: A| #[trigger] events(low, actor) <= events(high, actor) by {
            assert(crate::store::vector_clock::counter(low, actor)
                <= crate::store::vector_clock::counter(high, actor));
        }
    }
    if within(low, high) {
        assert forall|actor: A|
            crate::store::vector_clock::counter(low, actor)
                <= #[trigger] crate::store::vector_clock::counter(high, actor) by {
            assert(events(low, actor) <= events(high, actor));
        }
    }
}

/// One more event of an actor adds one to its counter, unless that is full, and changes no
/// other.
pub proof fn law_increment_call<A: Ord>(clock: &mut VectorClock<A>, actor: A, other: A, out: ())
    requires
        call_ensures(VectorClock::<A>::increment, (clock, actor), out),
    ensures
        events(old(clock)@, actor) < 0xffff_ffff_ffff_ffff ==> events(final(clock)@, actor)
            == events(old(clock)@, actor) + 1,
        events(old(clock)@, actor) == 0xffff_ffff_ffff_ffff ==> events(final(clock)@, actor)
            == events(old(clock)@, actor),
        other != actor ==> events(final(clock)@, other) == events(old(clock)@, other),
{
}

/// Applying a counter leaves the larger of the two for its actor and changes no other.
pub proof fn law_apply_call<A: Ord>(
    clock: &mut VectorClock<A>,
    actor: A,
    value: u64,
    other: A,
    out: (),
)
    requires
        call_ensures(VectorClock::<A>::apply, (clock, actor, value), out),
    ensures
        events(final(clock)@, actor) >= value,
        events(final(clock)@, actor) >= events(old(clock)@, actor),
        events(final(clock)@, actor) == value || events(final(clock)@, actor) == events(
            old(clock)@,
            actor,
        ),
        other != actor ==> events(final(clock)@, other) == events(old(clock)@, other),
{
}

/// A merged clock has seen of each actor exactly the larger of the two counts.
pub proof fn law_clock_merge_call<A: Ord + Clone>(
    clock: &mut VectorClock<A>,
    other: &VectorClock<A>,
    actor: A,
    out: (),
)
    requires
        call_ensures(VectorClock::<A>::merge, (clock, other), out),
    ensures
        events(final(clock)@, actor) >= events(old(clock)@, actor),
        events(final(clock)@, actor) >= events(other@, actor),
        events(final(clock)@, actor) == events(old(clock)@, actor) || events(final(clock)@, actor)
            == events(other@, actor),
{
}

/// One clock is less than another where it has seen no event that the other has not and the
/// other has seen more; greater the other way round; equal where both have seen the same;
/// and not comparable where each has seen an event that the other has not.
pub proof fn law_compare_call<A: Ord>(
    left: VectorClock<A>,
    right: VectorClock<A>,
    out: Option<Ordering>,
)
    requires
        call_ensures(VectorClock::<A>::partial_cmp, (&left, &right), out),
        canonical(left@),
        canonical(right@),
    ensures
        out == Some(Ordering::Less) <==> strictly_within(left@, right@),
        out == Some(Ordering::Greater) <==> strictly_within(right@, left@),
        out == Some(Ordering::Equal) <==> within(left@, right@) && within(right@, left@),
        out is None <==> !within(left@, right@) && !within(right@, left@),
{
    lemma_within(left@, right@);
    lemma_within(right@, left@);
    if covers(left@, right@) && covers(right@, left@) {
        law_covering_is_antisymmetric(left@, right@);
    }
    law_causal_order_is_symmetric(left@, right@);
}

/// Behind and ahead are the two strict comparisons.
pub proof fn law_behind_and_ahead_calls<A: Ord>(
    left: VectorClock<A>,
    right: VectorClock<A>,
    behind: bool,
    ahead: bool,
)
    requires
        call_ensures(VectorClock::<A>::is_behind, (&left, &right), behind),
        call_ensures(VectorClock::<A>::is_ahead, (&left, &right), ahead),
        canonical(left@),
        canonical(right@),
    ensures
        behind <==> strictly_within(left@, right@),
        ahead <==> strictly_within(right@, left@),
{
    lemma_precedes(left@, right@);
    lemma_precedes(right@, left@);
    law_causal_order_is_symmetric(left@, right@);
}

/// Preceding is seeing strictly less.
proof fn lemma_precedes<A>(left: Map<A, u64>, right: Map<A, u64>)
    requires
        canonical(left),
        canonical(right),
    ensures
        crate::store::vector_clock::precedes(left, right) <==> strictly_within(left, right),
        left == right <==> within(left, right) && within(right, left),
{
    lemma_within(left, right);
    lemma_within(right, left);
    if covers(left, right) && covers(right, left) {
        law_covering_is_antisymmetric(left, right);
    }
}

/// A local write leaves the written value alone, under a clock that has seen everything the
/// register had seen and one event of the actor more.
pub proof fn law_register_write_call<V, A: Ord + Clone>(
    reg: &mut MvReg<V, A>,
    actor: A,
    value: V,
    i: int,
    out: (),
)
    requires
        call_ensures(MvReg::<V, A>::write, (reg, actor, value), out),
        settled(old(reg)@),
        0 <= i < old(reg)@.len(),
    ensures
        final(reg)@.len() == 1,
        final(reg)@[0].1 == value,
        within(old(reg)@[i].0, final(reg)@[0].0),
        events(old(reg)@[i].0, actor) < 0xffff_ffff_ffff_ffff ==> events(final(reg)@[0].0, actor)
            > events(old(reg)@[i].0, actor),
{
    law_write_replaces_all(old(reg)@, actor, value);
    law_context_covers_entries(old(reg)@);
    let context = crate::store::mvreg::context(old(reg)@);
    crate::store::vector_clock::law_increment_advances(context, actor);
    assert(covers(context, old(reg)@[i].0));
    crate::store::vector_clock::law_covering_is_transitive(
        final(reg)@[0].0,
        context,
        old(reg)@[i].0,
    );
    lemma_within(old(reg)@[i].0, final(reg)@[0].0);
    lemma_within(old(reg)@[i].0, context);
    assert(events(old(reg)@[i].0, actor) <= events(context, actor));
}

/// A put keeps an entry exactly where the put has not seen all of its clock, and shows its
/// own value exactly where its clock is not empty and no entry has seen strictly more.
pub proof fn law_register_put_call<V, A: Ord>(
    reg: &mut MvReg<V, A>,
    clock: VectorClock<A>,
    value: V,
    e: EntryView<V, A>,
    out: (),
)
    requires
        call_ensures(MvReg::<V, A>::apply_put, (reg, clock, value), out),
        settled(old(reg)@),
        canonical(clock@),
        clock@ != Map::<A, u64>::empty(),
    ensures
        e != (clock@, value) ==> (final(reg)@.contains(e) <==> old(reg)@.contains(e) && !within(
            e.0,
            clock@,
        )),
        (forall|i: int|
            #![trigger old(reg)@[i]]
            0 <= i < old(reg)@.len() ==> !strictly_within(clock@, old(reg)@[i].0))
            ==> final(reg)@.contains((clock@, value)),
        final(reg)@.contains((clock@, value)) ==> old(reg)@.contains((clock@, value)) || forall|
            i: int,
        |
            #![trigger old(reg)@[i]]
            0 <= i < old(reg)@.len() ==> !strictly_within(clock@, old(reg)@[i].0),
{
    let entries = old(reg)@;
    let pred = outlives_put::<V, A>(clock@);
    let kept = entries.filter(pred);
    let after = final(reg)@;
    let news = (clock@, value);
    lemma_filtered(entries, pred);
    assert forall|i: int| #![trigger entries[i]] 0 <= i < entries.len() implies (pred(entries[i])
        <==> !within(entries[i].0, clock@)) && (crate::store::vector_clock::follows(
        entries[i].0,
        clock@,
    ) <==> strictly_within(clock@, entries[i].0)) by {
        lemma_precedes(entries[i].0, clock@);
        lemma_precedes(clock@, entries[i].0);
        law_causal_order_is_symmetric(entries[i].0, clock@);
    }
    if entries.contains(e) {
        let i = entries.index_of(e);
        assert(entries[i] == e);
    }
    if !ahead_of(kept, clock@) {
        assert(after == kept.push(news));
        assert(after[after.len() - 1] == news);
        if kept.contains(e) {
            let k = kept.index_of(e);
            assert(after[k] == e);
        }
        if after.contains(e) && e != news {
            let k = after.index_of(e);
            assert(kept[k] == e);
        }
        assert forall|i: int| #![trigger entries[i]] 0 <= i < entries.len() implies !strictly_within(
            clock@,
            entries[i].0,
        ) by {
            if strictly_within(clock@, entries[i].0) {
                assert(entries.contains(entries[i]));
                assert(kept.contains(entries[i]));
                let k = kept.index_of(entries[i]);
                assert(crate::store::vector_clock::follows(kept[k].0, clock@));
            }
        }
    } else {
        assert(after == kept);
        let k = choose|k: int|
            #![trigger kept[k]]
            0 <= k < kept.len() && crate::store::vector_clock::follows(kept[k].0, clock@);
        assert(kept.contains(kept[k]));
        assert(entries.contains(kept[k]));
        let i = entries.index_of(kept[k]);
        assert(strictly_within(clock@, entries[i].0));
    }
}

/// A merged register shows exactly the entries of the two that have not been seen, with
/// more, by an entry of either.
pub proof fn law_register_merge_call<V, A: Ord>(
    reg: &mut MvReg<V, A>,
    other: MvReg<V, A>,
    e: EntryView<V, A>,
    out: (),
)
    requires
        call_ensures(MvReg::<V, A>::merge, (reg, other), out),
        settled(old(reg)@),
        settled(other@),
        agreeing(old(reg)@, other@),
    ensures
        final(reg)@.contains(e) <==> {
            &&& old(reg)@.contains(e) || other@.contains(e)
            &&& forall|i: int|
                #![trigger old(reg)@[i]]
                0 <= i < old(reg)@.len() ==> !strictly_within(e.0, old(reg)@[i].0)
            &&& forall|i: int|
                #![trigger other@[i]]
                0 <= i < other@.len() ==> !strictly_within(e.0, other@[i].0)
        },
{
    let left = old(reg)@;
    let right = other@;
    law_merge_shows_what_is_not_superseded(left, right, e);
    if left.contains(e) || right.contains(e) {
        if left.contains(e) {
            assert(canonical(left[left.index_of(e)].0));
        } else {
            assert(canonical(right[right.index_of(e)].0));
        }
        assert forall|i: int| #![trigger left[i]] 0 <= i < left.len() implies (
        crate::store::vector_clock::precedes(e.0, left[i].0) <==> strictly_within(e.0, left[i].0))
            by {
            lemma_precedes(e.0, left[i].0);
        }
        assert forall|i: int| #![trigger right[i]] 0 <= i < right.len() implies (
        crate::store::vector_clock::precedes(e.0, right[i].0) <==> strictly_within(e.0, right[i].0))
            by {
            lemma_precedes(e.0, right[i].0);
        }
    }
}

/// The context of a register has seen of each actor exactly what its entries have seen.
pub proof fn law_register_clock_call<V, A: Ord + Clone>(
    reg: MvReg<V, A>,
    actor: A,
    out: VectorClock<A>,
)
    requires
        call_ensures(MvReg::<V, A>::clock, (&reg,), out),
        settled(reg@),
    ensures
        forall|i: int|
            #![trigger reg@[i]]
            0 <= i < reg@.len() ==> events(reg@[i].0, actor) <= events(out@, actor),
        events(out@, actor) > 0 ==> exists|i: int|
            #![trigger reg@[i]]
            0 <= i < reg@.len() && events(reg@[i].0, actor) == events(out@, actor),
{
    lemma_context_counts(reg@, actor);
}

/// The context has seen of an actor what one of the entries has seen, and no less than any.
proof fn lemma_context_counts<V, A>(entries: Seq<EntryView<V, A>>, actor: A)
    ensures
        ({
            let context = crate::store::mvreg::context(entries);
            &&& forall|i: int|
                #![trigger entries[i]]
                0 <= i < entries.len() ==> events(entries[i].0, actor) <= events(context, actor)
            &&& events(context, actor) > 0 ==> exists|i: int|
                #![trigger entries[i]]
                0 <= i < entries.len() && events(entries[i].0, actor) == events(context, actor)
        }),
    decreases entries.len(),
{
    if entries.len() > 0 {
        let rest = entries.drop_last();
        let end = entries.len() - 1;
        lemma_context_counts(rest, actor);
        let before = crate::store::mvreg::context(rest);
        let context = crate::store::mvreg::context(entries);
        assert(events(context, actor) == events(before, actor) || events(context, actor) == events(
            entries[end].0,
            actor,
        ));
        assert forall|i: int| #![trigger entries[i]] 0 <= i < entries.len() implies events(
            entries[i].0,
            actor,
        ) <= events(context, actor) by {
            if i < end {
                assert(rest[i] == entries[i]);
            }
        }
        if events(context, actor) > 0 && events(context, actor) != events(entries[end].0, actor) {
            let i = choose|i: int|
                #![trigger rest[i]]
                0 <= i < rest.len() && events(rest[i].0, actor) == events(before, actor);
            assert(entries[i] == rest[i]);
        }
    }
}

/// Compaction does something exactly where a limit is given and passed, and otherwise the
/// register stays as it is.
pub proof fn law_compact_call<V: Ord, A: Ord + Clone, F: Fn(
    &crate::store::mvreg::MvRegEntry<V, A>,
) -> R, R: Ord>(reg: &mut MvReg<V, A>, max_values: usize, rank: F, out: bool)
    requires
        call_ensures(MvReg::<V, A>::compact_with::<F, R>, (reg, max_values, rank), out),
        lawful_order::<A>(),
        lawful_order::<V>(),
        lawful_order::<R>(),
        settled(old(reg)@),
    ensures
        out <==> max_values > 0 && old(reg)@.len() > max_values,
        !out ==> final(reg)@ == old(reg)@,
        out ==> 1 <= final(reg)@.len() <= max_values,
        settled(final(reg)@),
{
    if out {
        let ranks = choose|ranks: Seq<R>|
            {
                &&& #[trigger] crate::store::mvreg::ranked(rank, old(reg).entry_list(), ranks)
                &&& final(reg)@ == crate::store::mvreg::compacted(
                    old(reg)@,
                    ranks,
                    max_values as int,
                )
            };
        crate::store::compaction_laws::law_compaction_keeps_the_context(
            old(reg)@,
            ranks,
            max_values as int,
        );
    }
}

/// A marker replaces another exactly where its generation is larger, or equal with a larger
/// actor; never both replace each other, and never neither unless generation and actor are
/// equal.
pub proof fn law_dominates_call(a: TombstoneRecord, b: TombstoneRecord, out: bool, back: bool)
    requires
        call_ensures(TombstoneRecord::dominates, (&a, &b), out),
        call_ensures(TombstoneRecord::dominates, (&b, &a), back),
    ensures
        a.sequence > b.sequence ==> out && !back,
        a.sequence == b.sequence && a.origin_actor@ == b.origin_actor@ ==> !out && !back,
        a.sequence == b.sequence && a.origin_actor@ != b.origin_actor@ ==> out != back,
        a.sequence == b.sequence && a.origin_actor@.len() > 0 && b.origin_actor@.len() > 0
            && a.origin_actor@[0] > b.origin_actor@[0] ==> out,
{
    lemma_bytes_order(a.origin_actor@, b.origin_actor@);
    lemma_bytes_order(b.origin_actor@, a.origin_actor@);
}

/// Of two markers of a key the one with the larger generation stays, whole; where there was
/// none, the incoming one stays.
pub proof fn law_merge_markers_call(
    current: Option<TombstoneRecord>,
    incoming: TombstoneRecord,
    out: TombstoneRecord,
)
    requires
        call_ensures(merge_tombstone_records, (current, incoming), out),
    ensures
        current is None ==> out@ == incoming@,
        current matches Some(held) ==> {
            &&& out@ == held@ || out@ == incoming@
            &&& incoming.sequence > held.sequence ==> out@ == incoming@
            &&& incoming.sequence < held.sequence ==> out@ == held@
            &&& incoming.sequence == held.sequence && incoming.origin_actor@ == held.origin_actor@
                ==> out@ == held@
        },
{
    if let Some(held) = current {
        lemma_bytes_order(held.origin_actor@, incoming.origin_actor@);
        lemma_bytes_order(held.origin_actor@, held.origin_actor@);
    }
}

/// An incoming marker keeps its generation and its actor; it gets the local time exactly
/// where it carries none.
pub proof fn law_normalize_call(record: TombstoneRecord, now_unix_ms: u64, out: TombstoneRecord)
    requires
        call_ensures(normalize_incoming_tombstone, (record, now_unix_ms), out),
    ensures
        out.sequence == record.sequence,
        out.origin_actor@ == record.origin_actor@,
        record.observed_at_unix_ms == 0 ==> out.observed_at_unix_ms == now_unix_ms,
        record.observed_at_unix_ms != 0 ==> out.observed_at_unix_ms == record.observed_at_unix_ms,
{
    assert(out@.sequence == record@.sequence);
}

/// An age key is the time in eight bytes, largest first, and then the key.
pub proof fn law_age_key_call(key: &[u8], record: TombstoneRecord, out: Vec<u8>)
    requires
        call_ensures(tombstone_observed_index_key, (key, &record), out),
    ensures
        out@.len() == 8 + key@.len(),
        be_value(out@.take(8)) == record.observed_at_unix_ms,
        out@.skip(8) == key@,
{
    lemma_byte_ranges();
    lemma_be_len(record.observed_at_unix_ms as nat, 8);
    law_be_round_trip(record.observed_at_unix_ms as nat, 8);
    assert(out@.take(8) =~= crate::bytes::be_bytes(record.observed_at_unix_ms as nat, 8));
    assert(out@.skip(8) =~= key@);
}

} // verus!
