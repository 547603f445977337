//! What register compaction keeps: one entry takes over the clocks of all that
//! are dropped, so that a dropped value cannot come back from a stale peer.

use vstd::prelude::*;
use vstd::set_lib::{lemma_int_range, set_int_range};

use crate::store::mvreg::{
    ahead_of, compacted, context, dropped_clock, gathered, has_clock, is_news, merged, outlives,
    outlives_put, place, preferred, preferred_count, retained, superseded, EntryView,
};
use crate::store::mvreg_laws::{
    law_context_covers_entries, law_gathered_is_settled, law_gathered_shows_the_newest,
    lemma_filter_all, lemma_filter_none, lemma_filtered, lemma_gathered_members, settled,
    well_clocked,
};
use crate::store::order::{lawful_order, lemma_alike, lemma_less_transitive, lemma_order, less};
use crate::store::vector_clock::{
    canonical, covers, joined, law_covering_is_antisymmetric, law_covering_is_transitive,
    law_join_is_least_upper_bound, listed_less, precedes,
};

verus! {

/// What does not stand before a second value that does not stand before a third
/// does not stand before the third.
proof fn lemma_not_less_transitive<T: Ord>(a: T, b: T, c: T)
    requires
        lawful_order::<T>(),
        !less(a, b),
        !less(b, c),
    ensures
        !less(a, c),
{
    lemma_order(a, b);
    lemma_order(b, c);
    lemma_order(a, c);
    if less(b, a) && less(a, c) {
        lemma_less_transitive(b, a, c);
    }
    if crate::store::order::alike(a, b) {
        lemma_alike(a, b, c);
    }
}

/// Two lists of counters never stand before each other.
proof fn lemma_listed_asymmetric<A: Ord>(a: Seq<(A, u64)>, b: Seq<(A, u64)>)
    requires
        lawful_order::<A>(),
    ensures
        !(listed_less(a, b) && listed_less(b, a)),
    decreases a.len(),
{
    if a.len() > 0 && b.len() > 0 {
        lemma_order(a[0].0, b[0].0);
        lemma_order(b[0].0, a[0].0);
        lemma_listed_asymmetric(a.drop_first(), b.drop_first());
    }
}

/// Not standing before is transitive for lists of counters.
proof fn lemma_not_listed_transitive<A: Ord>(
    a: Seq<(A, u64)>,
    b: Seq<(A, u64)>,
    c: Seq<(A, u64)>,
)
    requires
        lawful_order::<A>(),
        !listed_less(a, b),
        !listed_less(b, c),
    ensures
        !listed_less(a, c),
    decreases a.len(),
{
    if c.len() > 0 && b.len() > 0 && a.len() > 0 {
        let (x, y, z) = (a[0].0, b[0].0, c[0].0);
        lemma_order(x, y);
        lemma_order(y, z);
        lemma_order(x, z);
        lemma_order(y, x);
        lemma_order(z, y);
        lemma_order(z, x);
        lemma_not_less_transitive(x, y, z);
        if !less(z, y) && !less(y, x) {
            lemma_not_less_transitive(z, y, x);
            if a[0].1 == b[0].1 && b[0].1 == c[0].1 {
                lemma_not_listed_transitive(a.drop_first(), b.drop_first(), c.drop_first());
            }
        } else if less(y, x) {
            if !less(z, x) {
                lemma_not_less_transitive(z, x, y);
                lemma_order(z, y);
                lemma_not_less_transitive(y, z, x);
            }
        } else {
            if !less(z, x) {
                lemma_not_less_transitive(z, x, y);
            }
        }
    }
}

/// Of two different entries exactly one is preferred.
proof fn lemma_preferred_total<V: Ord, A: Ord, R: Ord>(
    entries: Seq<EntryView<V, A>>,
    ranks: Seq<R>,
    i: int,
    j: int,
)
    requires
        lawful_order::<A>(),
        lawful_order::<V>(),
        lawful_order::<R>(),
    ensures
        i != j ==> preferred(entries, ranks, i, j) != preferred(entries, ranks, j, i),
        !preferred(entries, ranks, i, i),
{
    lemma_order(ranks[i], ranks[j]);
    lemma_order(ranks[j], ranks[i]);
    lemma_order(entries[i].1, entries[j].1);
    lemma_order(entries[j].1, entries[i].1);
    lemma_order(ranks[i], ranks[i]);
    lemma_order(entries[i].1, entries[i].1);
    let (a, b) = (
        crate::store::vector_clock::listing(entries[i].0),
        crate::store::vector_clock::listing(entries[j].0),
    );
    lemma_listed_asymmetric(a, b);
    lemma_listed_asymmetric(a, a);
}

/// Preference is transitive.
proof fn lemma_preferred_transitive<V: Ord, A: Ord, R: Ord>(
    entries: Seq<EntryView<V, A>>,
    ranks: Seq<R>,
    i: int,
    j: int,
    k: int,
)
    requires
        lawful_order::<A>(),
        lawful_order::<V>(),
        lawful_order::<R>(),
        preferred(entries, ranks, i, j),
        preferred(entries, ranks, j, k),
    ensures
        preferred(entries, ranks, i, k),
{
    let (ri, rj, rk) = (ranks[i], ranks[j], ranks[k]);
    lemma_order(ri, rj);
    lemma_order(rj, rk);
    lemma_order(ri, rk);
    if less(rj, ri) || less(rk, rj) {
        lemma_not_less_transitive(ri, rj, rk);
        if !less(rk, ri) {
            if less(rj, ri) {
                lemma_not_less_transitive(rj, rk, ri);
            } else {
                lemma_not_less_transitive(rk, ri, rj);
            }
        }
    } else {
        lemma_not_less_transitive(ri, rj, rk);
        lemma_not_less_transitive(rk, rj, ri);
        let (vi, vj, vk) = (entries[i].1, entries[j].1, entries[k].1);
        lemma_order(vi, vj);
        lemma_order(vj, vk);
        lemma_order(vi, vk);
        if less(vj, vi) || less(vk, vj) {
            lemma_not_less_transitive(vi, vj, vk);
            if !less(vk, vi) {
                if less(vj, vi) {
                    lemma_not_less_transitive(vj, vk, vi);
                } else {
                    lemma_not_less_transitive(vk, vi, vj);
                }
            }
        } else {
            lemma_not_less_transitive(vi, vj, vk);
            lemma_not_less_transitive(vk, vj, vi);
            let a = crate::store::vector_clock::listing(entries[i].0);
            let b = crate::store::vector_clock::listing(entries[j].0);
            let c = crate::store::vector_clock::listing(entries[k].0);
            lemma_listed_asymmetric(a, b);
            lemma_listed_asymmetric(b, c);
            lemma_listed_asymmetric(a, c);
            if listed_less(b, a) || listed_less(c, b) {
                lemma_not_listed_transitive(a, b, c);
                if !listed_less(c, a) {
                    if listed_less(b, a) {
                        lemma_not_listed_transitive(b, c, a);
                    } else {
                        lemma_not_listed_transitive(c, a, b);
                    }
                }
            } else {
                lemma_not_listed_transitive(a, b, c);
                lemma_not_listed_transitive(c, b, a);
            }
        }
    }
}

/// Nothing is preferred to an entry exactly where its count is zero.
proof fn lemma_count_zero<V: Ord, A: Ord, R: Ord>(
    entries: Seq<EntryView<V, A>>,
    ranks: Seq<R>,
    i: int,
    upto: int,
)
    ensures
        preferred_count(entries, ranks, i, upto) >= 0,
        preferred_count(entries, ranks, i, upto) == 0 <==> forall|j: int|
            0 <= j < upto ==> !#[trigger] preferred(entries, ranks, j, i),
    decreases upto,
{
    if upto > 0 {
        lemma_count_zero(entries, ranks, i, upto - 1);
        if preferred_count(entries, ranks, i, upto) != 0 {
            if preferred(entries, ranks, upto - 1, i) {
            } else {
                let j = choose|j: int|
                    0 <= j < upto - 1 && #[trigger] preferred(entries, ranks, j, i);
                assert(preferred(entries, ranks, j, i));
            }
        }
    }
}

/// Among some first entries there is one to which none of them is preferred.
proof fn lemma_top_exists<V: Ord, A: Ord, R: Ord>(
    entries: Seq<EntryView<V, A>>,
    ranks: Seq<R>,
    upto: int,
) -> (top: int)
    requires
        lawful_order::<A>(),
        lawful_order::<V>(),
        lawful_order::<R>(),
        upto > 0,
    ensures
        0 <= top < upto,
        forall|j: int| 0 <= j < upto ==> !#[trigger] preferred(entries, ranks, j, top),
    decreases upto,
{
    if upto == 1 {
        lemma_preferred_total(entries, ranks, 0, 0);
        0
    } else {
        let top = lemma_top_exists(entries, ranks, upto - 1);
        let new = upto - 1;
        lemma_preferred_total(entries, ranks, new, new);
        if preferred(entries, ranks, new, top) {
            assert forall|j: int| 0 <= j < upto implies !#[trigger] preferred(
                entries,
                ranks,
                j,
                new,
            ) by {
                if j < new && preferred(entries, ranks, j, new) {
                    lemma_preferred_transitive(entries, ranks, j, new, top);
                }
            }
            new
        } else {
            top
        }
    }
}

/// The form in which an entry is retained.
spec fn retained_form<V: Ord, A: Ord, R: Ord>(
    entries: Seq<EntryView<V, A>>,
    ranks: Seq<R>,
    absorbed: Map<A, u64>,
    i: int,
) -> EntryView<V, A> {
    if place(entries, ranks, i) == 0 {
        (joined(entries[i].0, absorbed), entries[i].1)
    } else {
        entries[i]
    }
}

/// The retained list holds exactly the retained forms of the entries in place.
proof fn lemma_retained_members<V: Ord, A: Ord, R: Ord>(
    entries: Seq<EntryView<V, A>>,
    ranks: Seq<R>,
    max_values: int,
    absorbed: Map<A, u64>,
    upto: int,
)
    requires
        max_values > 0,
    ensures
        forall|x: EntryView<V, A>| #[trigger]
            retained(entries, ranks, max_values, absorbed, upto).contains(x) <==> exists|i: int|
                0 <= i < upto && place(entries, ranks, i) < max_values
                    && #[trigger] retained_form(entries, ranks, absorbed, i) == x,
    decreases upto,
{
    let out = retained(entries, ranks, max_values, absorbed, upto);
    if upto > 0 {
        lemma_retained_members(entries, ranks, max_values, absorbed, upto - 1);
        let before = retained(entries, ranks, max_values, absorbed, upto - 1);
        let form = retained_form(entries, ranks, absorbed, upto - 1);
        let stays = place(entries, ranks, upto - 1) < max_values;
        assert(out == if stays { before.push(form) } else { before });
        assert forall|x: EntryView<V, A>| #[trigger] out.contains(x) <==> exists|i: int|
            0 <= i < upto && place(entries, ranks, i) < max_values
                && #[trigger] retained_form(entries, ranks, absorbed, i) == x by {
            if out.contains(x) {
                let k = choose|k: int| 0 <= k < out.len() && out[k] == x;
                if stays && k == before.len() {
                    assert(retained_form(entries, ranks, absorbed, upto - 1) == x);
                } else {
                    assert(before[k] == x);
                    assert(before.contains(x));
                }
            }
            if exists|i: int|
                0 <= i < upto && place(entries, ranks, i) < max_values
                    && #[trigger] retained_form(entries, ranks, absorbed, i) == x {
                let i = choose|i: int|
                    0 <= i < upto && place(entries, ranks, i) < max_values
                        && #[trigger] retained_form(entries, ranks, absorbed, i) == x;
                if i == upto - 1 {
                    assert(out[before.len() as int] == x);
                } else {
                    assert(before.contains(x));
                    let k = choose|k: int| 0 <= k < before.len() && before[k] == x;
                    assert(out[k] == x);
                }
            }
        }
    } else {
        assert forall|x: EntryView<V, A>| !(#[trigger] out.contains(x)) by {}
    }
}

/// The clock of what is dropped covers every dropped entry.
proof fn lemma_dropped_covers<V: Ord, A: Ord, R: Ord>(
    entries: Seq<EntryView<V, A>>,
    ranks: Seq<R>,
    max_values: int,
    upto: int,
)
    requires
        settled(entries),
        0 <= upto <= entries.len(),
    ensures
        canonical(dropped_clock(entries, ranks, max_values, upto)),
        forall|i: int|
            #![trigger entries[i]]
            0 <= i < upto && place(entries, ranks, i) >= max_values ==> covers(
                dropped_clock(entries, ranks, max_values, upto),
                entries[i].0,
            ),
    decreases upto,
{
    if upto > 0 {
        lemma_dropped_covers(entries, ranks, max_values, upto - 1);
        let before = dropped_clock(entries, ranks, max_values, upto - 1);
        let now = dropped_clock(entries, ranks, max_values, upto);
        assert(canonical(entries[upto - 1].0));
        law_join_is_least_upper_bound(before, entries[upto - 1].0, before);
        assert forall|i: int|
            #![trigger entries[i]]
            0 <= i < upto && place(entries, ranks, i) >= max_values implies covers(
            now,
            entries[i].0,
        ) by {
            if i < upto - 1 {
                assert(covers(before, entries[i].0));
                law_covering_is_transitive(now, before, entries[i].0);
            }
        }
    }
}

/// An entry that no other covers stays visible when all are written in turn.
proof fn lemma_gathered_keeps<V, A>(s: Seq<EntryView<V, A>>, x: EntryView<V, A>)
    requires
        s.contains(x),
        x.0 != Map::<A, u64>::empty(),
        forall|y: EntryView<V, A>| #[trigger] s.contains(y) ==> y == x || !covers(y.0, x.0),
    ensures
        gathered(s).contains(x),
    decreases s.len(),
{
    let rest = s.drop_last();
    let e = s.last();
    let pred = outlives_put::<V, A>(e.0);
    let held = gathered(rest);
    let kept = held.filter(pred);
    let out = gathered(s);
    lemma_filtered(held, pred);
    lemma_gathered_members(rest);
    assert(s[s.len() - 1] == e);
    assert(s.contains(e));
    assert forall|y: EntryView<V, A>| #[trigger] rest.contains(y) implies s.contains(y) by {
        let m = choose|m: int| 0 <= m < rest.len() && rest[m] == y;
        assert(s[m] == y);
    }
    if e == x {
        if ahead_of(kept, x.0) {
            let k = choose|k: int|
                #![trigger kept[k]]
                0 <= k < kept.len() && crate::store::vector_clock::follows(kept[k].0, x.0);
            assert(kept.contains(kept[k]));
            assert(rest.contains(kept[k]));
            assert(s.contains(kept[k]));
        }
        assert(out == kept.push(x));
        assert(out[kept.len() as int] == x);
    } else {
        let m = choose|m: int| 0 <= m < s.len() && s[m] == x;
        assert(rest[m] == x);
        assert(rest.contains(x));
        lemma_gathered_keeps(rest, x);
        assert(!covers(e.0, x.0));
        assert(x.0 != e.0);
        assert(pred(x));
        assert(kept.contains(x));
        let k = choose|k: int| 0 <= k < kept.len() && kept[k] == x;
        if out == held {
        } else {
            assert(out[k] == x);
        }
    }
}

/// A clock that covers one entry of a settled register is covered by no other.
proof fn lemma_no_other_covers<V, A>(
    entries: Seq<EntryView<V, A>>,
    i: int,
    j: int,
    above: Map<A, u64>,
)
    requires
        settled(entries),
        0 <= i < entries.len(),
        0 <= j < entries.len(),
        i != j,
        covers(above, entries[i].0),
    ensures
        !covers(entries[j].0, above),
{
    if covers(entries[j].0, above) {
        law_covering_is_transitive(entries[j].0, above, entries[i].0);
        assert(entries[i].0 != entries[j].0);
        assert(!precedes(entries[i].0, entries[j].0));
        assert(canonical(entries[i].0) && canonical(entries[j].0));
        if covers(entries[i].0, entries[j].0) {
            law_covering_is_antisymmetric(entries[i].0, entries[j].0);
        }
    }
}

/// Compaction leaves one visible entry whose clock covers every dropped entry,
/// and that entry is the most preferred one.
pub proof fn law_compaction_absorbs_dropped_clocks<V: Ord, A: Ord, R: Ord>(
    entries: Seq<EntryView<V, A>>,
    ranks: Seq<R>,
    max_values: int,
) -> (top: int)
    requires
        lawful_order::<A>(),
        lawful_order::<V>(),
        lawful_order::<R>(),
        settled(entries),
        0 < max_values < entries.len(),
    ensures
        0 <= top < entries.len(),
        place(entries, ranks, top) == 0,
        forall|i: int|
            #![trigger place(entries, ranks, i)]
            0 <= i < entries.len() && place(entries, ranks, i) == 0 ==> i == top,
        ({
            let absorbed = dropped_clock(entries, ranks, max_values, entries.len() as int);
            let winner = (joined(entries[top].0, absorbed), entries[top].1);
            &&& compacted(entries, ranks, max_values).contains(winner)
            &&& covers(winner.0, entries[top].0)
            &&& forall|i: int|
                #![trigger entries[i]]
                0 <= i < entries.len() && place(entries, ranks, i) >= max_values ==> covers(
                    winner.0,
                    entries[i].0,
                )
        }),
{
    let count = entries.len() as int;
    let top = lemma_top_exists(entries, ranks, count);
    lemma_count_zero(entries, ranks, top, count);
    assert forall|i: int|
        #![trigger place(entries, ranks, i)]
        0 <= i < count && place(entries, ranks, i) == 0 implies i == top by {
        lemma_count_zero(entries, ranks, i, count);
        lemma_preferred_total(entries, ranks, i, top);
        assert(!preferred(entries, ranks, i, top));
        assert(!preferred(entries, ranks, top, i));
    }
    let absorbed = dropped_clock(entries, ranks, max_values, count);
    let list = retained(entries, ranks, max_values, absorbed, count);
    let winner = (joined(entries[top].0, absorbed), entries[top].1);
    lemma_dropped_covers(entries, ranks, max_values, count);
    assert(canonical(entries[top].0));
    law_join_is_least_upper_bound(entries[top].0, absorbed, absorbed);
    assert forall|i: int|
        #![trigger entries[i]]
        0 <= i < count && place(entries, ranks, i) >= max_values implies covers(
        winner.0,
        entries[i].0,
    ) by {
        law_covering_is_transitive(winner.0, absorbed, entries[i].0);
    }
    lemma_retained_members(entries, ranks, max_values, absorbed, count);
    assert(retained_form(entries, ranks, absorbed, top) == winner);
    assert(list.contains(winner));
    assert(winner.0 != Map::<A, u64>::empty()) by {
        assert(entries[top].0 != Map::<A, u64>::empty());
        if winner.0 == Map::<A, u64>::empty() {
            assert(entries[top].0 =~= Map::<A, u64>::empty()) by {
                assert forall|actor: A| !entries[top].0.contains_key(actor) by {
                    assert(winner.0.contains_key(actor) <== entries[top].0.contains_key(actor));
                }
            }
        }
    }
    assert forall|y: EntryView<V, A>| #[trigger] list.contains(y) implies y == winner || !covers(
        y.0,
        winner.0,
    ) by {
        let i = choose|i: int|
            0 <= i < count && place(entries, ranks, i) < max_values
                && #[trigger] retained_form(entries, ranks, absorbed, i) == y;
        if i != top {
            assert(place(entries, ranks, i) != 0);
            assert(y == entries[i]);
            lemma_no_other_covers(entries, top, i, winner.0);
        }
    }
    lemma_gathered_keeps(list, winner);
    top
}

/// Every entry of the old register is covered by a visible one of the compacted register,
/// and its clock is that of the visible one or precedes it.
proof fn lemma_covered_after_compaction<V: Ord, A: Ord, R: Ord>(
    entries: Seq<EntryView<V, A>>,
    ranks: Seq<R>,
    max_values: int,
    i: int,
)
    requires
        lawful_order::<A>(),
        lawful_order::<V>(),
        lawful_order::<R>(),
        settled(entries),
        0 < max_values < entries.len(),
        0 <= i < entries.len(),
    ensures
        ({
            let out = compacted(entries, ranks, max_values);
            exists|k: int|
                #![trigger out[k]]
                0 <= k < out.len() && covers(out[k].0, entries[i].0) && (out[k].0 == entries[i].0
                    || precedes(entries[i].0, out[k].0))
        }),
{
    let count = entries.len() as int;
    let out = compacted(entries, ranks, max_values);
    let absorbed = dropped_clock(entries, ranks, max_values, count);
    let list = retained(entries, ranks, max_values, absorbed, count);
    let top = law_compaction_absorbs_dropped_clocks(entries, ranks, max_values);
    let winner = (joined(entries[top].0, absorbed), entries[top].1);
    lemma_dropped_covers(entries, ranks, max_values, count);
    assert(canonical(entries[top].0) && canonical(entries[i].0));
    law_join_is_least_upper_bound(entries[top].0, absorbed, absorbed);
    let w = choose|w: int| 0 <= w < out.len() && out[w] == winner;
    assert(out[w].0 == winner.0);
    if covers(winner.0, entries[i].0) {
        if covers(entries[i].0, winner.0) {
            law_covering_is_antisymmetric(entries[i].0, winner.0);
        }
        assert(covers(out[w].0, entries[i].0));
    } else {
        assert(i != top);
        assert(place(entries, ranks, i) < max_values);
        assert(place(entries, ranks, i) != 0);
        lemma_retained_members(entries, ranks, max_values, absorbed, count);
        assert(retained_form(entries, ranks, absorbed, i) == entries[i]);
        assert(list.contains(entries[i]));
        assert forall|y: EntryView<V, A>| #[trigger] list.contains(y) implies y == entries[i]
            || !covers(y.0, entries[i].0) by {
            let j = choose|j: int|
                0 <= j < count && place(entries, ranks, j) < max_values
                    && #[trigger] retained_form(entries, ranks, absorbed, j) == y;
            if j != i {
                if place(entries, ranks, j) == 0 {
                    assert(j == top);
                    assert(y == winner);
                } else {
                    assert(y == entries[j]);
                    law_join_is_least_upper_bound(entries[i].0, entries[i].0, entries[i].0);
                    lemma_no_other_covers(entries, i, j, entries[i].0);
                }
            }
        }
        lemma_gathered_keeps(list, entries[i]);
        let k = choose|k: int| 0 <= k < out.len() && out[k] == entries[i];
        law_join_is_least_upper_bound(entries[i].0, entries[i].0, entries[i].0);
        assert(covers(out[k].0, entries[i].0));
    }
}

/// What every entry is covered by covers the read context.
proof fn lemma_context_least<V, A>(entries: Seq<EntryView<V, A>>, above: Map<A, u64>)
    requires
        well_clocked(entries),
        canonical(above),
        forall|i: int|
            #![trigger entries[i]]
            0 <= i < entries.len() ==> covers(above, entries[i].0),
    ensures
        covers(above, context(entries)),
    decreases entries.len(),
{
    if entries.len() > 0 {
        let rest = entries.drop_last();
        assert forall|i: int|
            #![trigger rest[i]]
            0 <= i < rest.len() implies canonical(rest[i].0) && rest[i].0 != Map::<
            A,
            u64,
        >::empty() && covers(above, rest[i].0) by {
            assert(rest[i] == entries[i]);
        }
        lemma_context_least(rest, above);
        law_context_covers_entries(rest);
        assert(entries[entries.len() - 1] == entries.last());
        law_join_is_least_upper_bound(context(rest), entries.last().0, above);
    }
}

/// What every entry is covered by covers the clock of what is dropped.
proof fn lemma_dropped_least<V: Ord, A: Ord, R: Ord>(
    entries: Seq<EntryView<V, A>>,
    ranks: Seq<R>,
    max_values: int,
    upto: int,
    above: Map<A, u64>,
)
    requires
        settled(entries),
        0 <= upto <= entries.len(),
        canonical(above),
        forall|i: int|
            #![trigger entries[i]]
            0 <= i < entries.len() ==> covers(above, entries[i].0),
    ensures
        covers(above, dropped_clock(entries, ranks, max_values, upto)),
    decreases upto,
{
    if upto > 0 {
        lemma_dropped_least(entries, ranks, max_values, upto - 1, above);
        lemma_dropped_covers(entries, ranks, max_values, upto - 1);
        assert(canonical(entries[upto - 1].0) && covers(above, entries[upto - 1].0));
        law_join_is_least_upper_bound(
            dropped_clock(entries, ranks, max_values, upto - 1),
            entries[upto - 1].0,
            above,
        );
    }
}

/// A preferred entry has fewer entries before it.
proof fn lemma_place_grows<V: Ord, A: Ord, R: Ord>(
    entries: Seq<EntryView<V, A>>,
    ranks: Seq<R>,
    i: int,
    j: int,
    upto: int,
)
    requires
        lawful_order::<A>(),
        lawful_order::<V>(),
        lawful_order::<R>(),
        preferred(entries, ranks, i, j),
    ensures
        preferred_count(entries, ranks, i, upto) + (if 0 <= i < upto {
            1int
        } else {
            0int
        }) <= preferred_count(entries, ranks, j, upto),
    decreases upto,
{
    if upto > 0 {
        lemma_place_grows(entries, ranks, i, j, upto - 1);
        let k = upto - 1;
        lemma_preferred_total(entries, ranks, i, i);
        if preferred(entries, ranks, k, i) {
            lemma_preferred_transitive(entries, ranks, k, i, j);
        }
    }
}

/// Places of the retained ones among some first entries.
spec fn retained_places<V: Ord, A: Ord, R: Ord>(
    entries: Seq<EntryView<V, A>>,
    ranks: Seq<R>,
    max_values: int,
    upto: int,
) -> Seq<int>
    decreases upto,
{
    if upto <= 0 {
        Seq::empty()
    } else {
        let before = retained_places(entries, ranks, max_values, upto - 1);
        if place(entries, ranks, upto - 1) < max_values {
            before.push(place(entries, ranks, upto - 1))
        } else {
            before
        }
    }
}

/// The retained places are distinct and lie below the limit.
proof fn lemma_retained_places<V: Ord, A: Ord, R: Ord>(
    entries: Seq<EntryView<V, A>>,
    ranks: Seq<R>,
    max_values: int,
    absorbed: Map<A, u64>,
    upto: int,
)
    requires
        lawful_order::<A>(),
        lawful_order::<V>(),
        lawful_order::<R>(),
        0 <= upto <= entries.len(),
        max_values > 0,
    ensures
        ({
            let places = retained_places(entries, ranks, max_values, upto);
            &&& places.len() == retained(entries, ranks, max_values, absorbed, upto).len()
            &&& places.no_duplicates()
            &&& forall|k: int|
                #![trigger places[k]]
                0 <= k < places.len() ==> 0 <= places[k] < max_values && exists|i: int|
                    0 <= i < upto && #[trigger] place(entries, ranks, i) == places[k]
        }),
    decreases upto,
{
    if upto > 0 {
        lemma_retained_places(entries, ranks, max_values, absorbed, upto - 1);
        let before = retained_places(entries, ranks, max_values, upto - 1);
        let places = retained_places(entries, ranks, max_values, upto);
        let last = upto - 1;
        let count = entries.len() as int;
        lemma_count_zero(entries, ranks, last, count);
        if place(entries, ranks, last) < max_values {
            assert(!before.contains(place(entries, ranks, last))) by {
                if before.contains(place(entries, ranks, last)) {
                    let k = before.index_of(place(entries, ranks, last));
                    let i = choose|i: int|
                        0 <= i < last && #[trigger] place(entries, ranks, i) == before[k];
                    lemma_preferred_total(entries, ranks, i, last);
                    if preferred(entries, ranks, i, last) {
                        lemma_place_grows(entries, ranks, i, last, count);
                    } else {
                        lemma_place_grows(entries, ranks, last, i, count);
                    }
                }
            }
            assert forall|a: int, b: int|
                0 <= a < places.len() && 0 <= b < places.len() && a != b implies places[a]
                != places[b] by {
                if a < before.len() {
                    assert(before.contains(before[a]));
                }
                if b < before.len() {
                    assert(before.contains(before[b]));
                }
            }
        }
        assert forall|k: int| #![trigger places[k]] 0 <= k < places.len() implies 0 <= places[k]
            < max_values && exists|i: int|
            0 <= i < upto && #[trigger] place(entries, ranks, i) == places[k] by {
            if k < before.len() {
                assert(places[k] == before[k]);
                let i = choose|i: int|
                    0 <= i < upto - 1 && #[trigger] place(entries, ranks, i) == before[k];
                assert(0 <= i < upto && place(entries, ranks, i) == places[k]);
            } else {
                assert(place(entries, ranks, last) == places[k]);
            }
        }
    }
}

/// Writing entries one after another shows no more than them.
proof fn lemma_gathered_len<V, A>(s: Seq<EntryView<V, A>>)
    ensures
        gathered(s).len() <= s.len(),
    decreases s.len(),
{
    if s.len() > 0 {
        lemma_gathered_len(s.drop_last());
        gathered(s.drop_last()).lemma_filter_len(outlives_put::<V, A>(s.last().0));
    }
}

/// Compaction leaves at least one and at most the allowed number of values, keeps the
/// register settled, and keeps its read context.
pub proof fn law_compaction_keeps_the_context<V: Ord, A: Ord, R: Ord>(
    entries: Seq<EntryView<V, A>>,
    ranks: Seq<R>,
    max_values: int,
)
    requires
        lawful_order::<A>(),
        lawful_order::<V>(),
        lawful_order::<R>(),
        settled(entries),
        0 < max_values,
        0 < entries.len(),
    ensures
        1 <= compacted(entries, ranks, max_values).len() <= max_values,
        settled(compacted(entries, ranks, max_values)),
        context(compacted(entries, ranks, max_values)) == context(entries),
{
    if max_values < entries.len() {
        let count = entries.len() as int;
        let out = compacted(entries, ranks, max_values);
        let absorbed = dropped_clock(entries, ranks, max_values, count);
        let list = retained(entries, ranks, max_values, absorbed, count);
        let top = law_compaction_absorbs_dropped_clocks(entries, ranks, max_values);
        lemma_dropped_covers(entries, ranks, max_values, count);
        lemma_retained_members(entries, ranks, max_values, absorbed, count);
        law_context_covers_entries(entries);
        lemma_dropped_least(entries, ranks, max_values, count, context(entries));
        assert forall|k: int| #![trigger list[k]] 0 <= k < list.len() implies canonical(list[k].0)
            && covers(context(entries), list[k].0) by {
            assert(list.contains(list[k]));
            let i = choose|i: int|
                0 <= i < count && place(entries, ranks, i) < max_values
                    && #[trigger] retained_form(entries, ranks, absorbed, i) == list[k];
            assert(canonical(entries[i].0) && covers(context(entries), entries[i].0));
            law_join_is_least_upper_bound(entries[i].0, absorbed, context(entries));
        }
        law_gathered_is_settled(list);
        lemma_gathered_members(list);
        lemma_gathered_len(list);
        lemma_retained_places(entries, ranks, max_values, absorbed, count);
        let places = retained_places(entries, ranks, max_values, count);
        let below = set_int_range(0, max_values);
        places.unique_seq_to_set();
        lemma_int_range(0, max_values);
        assert(places.to_set().subset_of(below)) by {
            assert forall|p: int| #[trigger] places.to_set().contains(p) implies below.contains(
                p,
            ) by {
                let k = places.index_of(p);
                assert(places[k] == p);
            }
        }
        vstd::set_lib::lemma_len_subset(places.to_set(), below);
        law_context_covers_entries(out);
        assert forall|k: int| #![trigger out[k]] 0 <= k < out.len() implies covers(
            context(entries),
            out[k].0,
        ) by {
            assert(out.contains(out[k]));
            assert(list.contains(out[k]));
            let n = list.index_of(out[k]);
            assert(list[n] == out[k]);
        }
        lemma_context_least(out, context(entries));
        assert forall|i: int| #![trigger entries[i]] 0 <= i < entries.len() implies covers(
            context(out),
            entries[i].0,
        ) by {
            lemma_covered_after_compaction(entries, ranks, max_values, i);
            let k = choose|k: int|
                #![trigger out[k]]
                0 <= k < out.len() && covers(out[k].0, entries[i].0) && (out[k].0 == entries[i].0
                    || precedes(entries[i].0, out[k].0));
            law_covering_is_transitive(context(out), out[k].0, entries[i].0);
        }
        lemma_context_least(entries, context(out));
        law_covering_is_antisymmetric(context(out), context(entries));
    }
}

/// A stale register made of entries of the old one, the whole old register among them, adds
/// nothing when it is merged into the compacted register.
pub proof fn law_compaction_keeps_dropped_values_out<V: Ord, A: Ord, R: Ord>(
    entries: Seq<EntryView<V, A>>,
    ranks: Seq<R>,
    max_values: int,
    stale: Seq<EntryView<V, A>>,
)
    requires
        lawful_order::<A>(),
        lawful_order::<V>(),
        lawful_order::<R>(),
        settled(entries),
        forall|s: int|
            #![trigger stale[s]]
            0 <= s < stale.len() ==> exists|i: int|
                #![trigger entries[i]]
                0 <= i < entries.len() && entries[i].0 == stale[s].0,
    ensures
        merged(compacted(entries, ranks, max_values), stale) == compacted(
            entries,
            ranks,
            max_values,
        ),
{
    let count = entries.len() as int;
    let out = compacted(entries, ranks, max_values);
    let shrinks = 0 < max_values < count;
    assert forall|k: int| #![trigger out[k]] 0 <= k < out.len() implies exists|j: int|
        #![trigger entries[j]]
        0 <= j < count && covers(out[k].0, entries[j].0) by {
        if shrinks {
            let absorbed = dropped_clock(entries, ranks, max_values, count);
            let list = retained(entries, ranks, max_values, absorbed, count);
            lemma_dropped_covers(entries, ranks, max_values, count);
            lemma_retained_members(entries, ranks, max_values, absorbed, count);
            lemma_gathered_members(list);
            assert(out.contains(out[k]));
            assert(list.contains(out[k]));
            let j = choose|j: int|
                0 <= j < count && place(entries, ranks, j) < max_values
                    && #[trigger] retained_form(entries, ranks, absorbed, j) == out[k];
            assert(canonical(entries[j].0));
            law_join_is_least_upper_bound(entries[j].0, absorbed, absorbed);
            assert(covers(out[k].0, entries[j].0));
        } else {
            assert(covers(out[k].0, entries[k].0));
        }
    }
    let pred = outlives(stale);
    assert forall|k: int| #![trigger out[k]] 0 <= k < out.len() implies pred(out[k]) by {
        let j = choose|j: int|
            #![trigger entries[j]]
            0 <= j < count && covers(out[k].0, entries[j].0);
        if superseded(out[k].0, stale) {
            let s = choose|s: int|
                #![trigger stale[s]]
                0 <= s < stale.len() && precedes(out[k].0, stale[s].0);
            let i = choose|i: int|
                #![trigger entries[i]]
                0 <= i < count && entries[i].0 == stale[s].0;
            if i != j {
                lemma_no_other_covers(entries, j, i, out[k].0);
            }
        }
    }
    lemma_filter_all(out, pred);
    let news = is_news(out);
    assert forall|s: int| #![trigger stale[s]] 0 <= s < stale.len() implies !news(stale[s]) by {
        let i = choose|i: int|
            #![trigger entries[i]]
            0 <= i < count && entries[i].0 == stale[s].0;
        if shrinks {
            lemma_covered_after_compaction(entries, ranks, max_values, i);
            let k = choose|k: int|
                #![trigger out[k]]
                0 <= k < out.len() && covers(out[k].0, entries[i].0) && (out[k].0 == entries[i].0
                    || precedes(entries[i].0, out[k].0));
            if precedes(entries[i].0, out[k].0) {
                assert(superseded(stale[s].0, out));
            } else {
                assert(has_clock(out, stale[s].0));
            }
        } else {
            assert(out[i].0 == stale[s].0);
            assert(has_clock(out, stale[s].0));
        }
    }
    lemma_filter_none(stale, news);
    assert(merged(out, stale) =~= out);
}

/// Compaction keeps the highest ranks: what stays visible is one of the entries, and every
/// entry of a higher rank than it stays visible too, or is covered by the entry of the
/// highest rank.
pub proof fn law_compaction_keeps_the_highest_ranks<V: Ord, A: Ord, R: Ord>(
    entries: Seq<EntryView<V, A>>,
    ranks: Seq<R>,
    max_values: int,
    x: EntryView<V, A>,
    j: int,
) -> (kept: (int, int))
    requires
        lawful_order::<A>(),
        lawful_order::<V>(),
        lawful_order::<R>(),
        settled(entries),
        0 < max_values < entries.len(),
        compacted(entries, ranks, max_values).contains(x),
        0 <= j < entries.len(),
    ensures
        ({
            let (i, top) = kept;
            &&& 0 <= i < entries.len() && entries[i].1 == x.1 && covers(x.0, entries[i].0)
            &&& 0 <= top < entries.len() && !less(ranks[top], ranks[j])
            &&& less(ranks[i], ranks[j]) ==> exists|y: EntryView<V, A>| #[trigger]
                compacted(entries, ranks, max_values).contains(y) && covers(y.0, entries[j].0) && (
                y.1 == entries[j].1 || y.1 == entries[top].1)
        }),
{
    let count = entries.len() as int;
    let out = compacted(entries, ranks, max_values);
    let absorbed = dropped_clock(entries, ranks, max_values, count);
    let list = retained(entries, ranks, max_values, absorbed, count);
    let top = law_compaction_absorbs_dropped_clocks(entries, ranks, max_values);
    lemma_dropped_covers(entries, ranks, max_values, count);
    lemma_retained_members(entries, ranks, max_values, absorbed, count);
    lemma_gathered_members(list);
    assert(list.contains(x));
    let i = choose|i: int|
        0 <= i < count && place(entries, ranks, i) < max_values
            && #[trigger] retained_form(entries, ranks, absorbed, i) == x;
    assert(canonical(entries[i].0) && canonical(entries[j].0));
    law_join_is_least_upper_bound(entries[i].0, absorbed, absorbed);
    law_join_is_least_upper_bound(entries[j].0, absorbed, absorbed);
    lemma_count_zero(entries, ranks, top, count);
    lemma_count_zero(entries, ranks, j, count);
    lemma_order(ranks[top], ranks[j]);
    if less(ranks[top], ranks[j]) {
        lemma_place_grows(entries, ranks, j, top, count);
    }
    if less(ranks[i], ranks[j]) {
        lemma_order(ranks[i], ranks[j]);
        lemma_place_grows(entries, ranks, j, i, count);
        let form = retained_form(entries, ranks, absorbed, j);
        assert(list.contains(form));
        let n = list.index_of(form);
        law_gathered_shows_the_newest(list);
        assert(entries[j].0 != Map::<A, u64>::empty());
        if form.0 == Map::<A, u64>::empty() {
            law_covering_is_antisymmetric(form.0, entries[j].0);
        }
        assert(list[n] == form);
        let k = choose|k: int| #![trigger out[k]] 0 <= k < out.len() && covers(out[k].0, form.0);
        let y = out[k];
        assert(out.contains(y));
        assert(list.contains(y));
        let m = choose|m: int|
            0 <= m < count && place(entries, ranks, m) < max_values
                && #[trigger] retained_form(entries, ranks, absorbed, m) == y;
        law_covering_is_transitive(y.0, form.0, entries[j].0);
        if m != j && place(entries, ranks, m) != 0 {
            lemma_no_other_covers(entries, j, m, form.0);
        }
    }
    (i, top)
}

} // verus!
