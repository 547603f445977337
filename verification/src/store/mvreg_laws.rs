//! What holds of multi-value registers whatever is written and merged.

use vstd::prelude::*;

use crate::store::mvreg::{
    ahead_of, context, gathered, has_clock, is_news, merged, outlives, outlives_put, put,
    superseded, written, EntryView,
};
use crate::store::vector_clock::{
    canonical, counter, covers, follows, incremented, law_causal_order_is_symmetric,
    law_covering_is_antisymmetric, law_covering_is_transitive, law_increment_advances,
    law_join_is_least_upper_bound, law_precedes_is_transitive, precedes,
};

verus! {

/// No clock of the register stores a zero, and none is empty.
pub open spec fn well_clocked<V, A>(entries: Seq<EntryView<V, A>>) -> bool {
    forall|i: int|
        #![trigger entries[i]]
        0 <= i < entries.len() ==> canonical(entries[i].0) && entries[i].0 != Map::<
            A,
            u64,
        >::empty()
}

/// The visible entries are pairwise concurrent.
pub open spec fn concurrent<V, A>(entries: Seq<EntryView<V, A>>) -> bool {
    forall|i: int, j: int|
        #![trigger entries[i], entries[j]]
        0 <= i < entries.len() && 0 <= j < entries.len() && i != j ==> entries[i].0 != entries[j].0
            && !precedes(entries[i].0, entries[j].0)
}

/// A register as writes and merges leave it.
pub open spec fn settled<V, A>(entries: Seq<EntryView<V, A>>) -> bool {
    well_clocked(entries) && concurrent(entries)
}

/// One clock never stands for two different values.
pub open spec fn agreeing<V, A>(
    left: Seq<EntryView<V, A>>,
    right: Seq<EntryView<V, A>>,
) -> bool {
    forall|i: int, j: int|
        #![trigger left[i], right[j]]
        0 <= i < left.len() && 0 <= j < right.len() && left[i].0 == right[j].0 ==> left[i]
            == right[j]
}

/// What passes a filter comes from the list and passes the test.
pub proof fn lemma_filtered<T>(s: Seq<T>, pred: spec_fn(T) -> bool)
    ensures
        forall|x: T| #[trigger] s.filter(pred).contains(x) <==> s.contains(x) && pred(x),
    decreases s.len(),
{
    reveal(Seq::filter);
    if s.len() > 0 {
        let rest = s.drop_last();
        let sub = rest.filter(pred);
        lemma_filtered(rest, pred);
        assert forall|x: T| #[trigger] s.filter(pred).contains(x) <==> s.contains(x) && pred(x) by {
            if s.filter(pred).contains(x) {
                let k = choose|k: int|
                    0 <= k < s.filter(pred).len() && s.filter(pred)[k] == x;
                if pred(s.last()) && k == sub.len() {
                    assert(s[s.len() - 1] == x);
                } else {
                    assert(sub[k] == x);
                    assert(sub.contains(x));
                    let m = choose|m: int| 0 <= m < rest.len() && rest[m] == x;
                    assert(s[m] == x);
                }
            }
            if s.contains(x) && pred(x) {
                let m = choose|m: int| 0 <= m < s.len() && s[m] == x;
                if m == s.len() - 1 {
                    assert(s.filter(pred)[sub.len() as int] == x);
                } else {
                    assert(rest[m] == x);
                    assert(sub.contains(x));
                    let k = choose|k: int| 0 <= k < sub.len() && sub[k] == x;
                    assert(s.filter(pred)[k] == x);
                }
            }
        }
    }
}

/// A filter that everything passes changes nothing.
pub proof fn lemma_filter_all<T>(s: Seq<T>, pred: spec_fn(T) -> bool)
    requires
        forall|i: int| #![trigger s[i]] 0 <= i < s.len() ==> pred(s[i]),
    ensures
        s.filter(pred) == s,
    decreases s.len(),
{
    reveal(Seq::filter);
    if s.len() > 0 {
        let rest = s.drop_last();
        assert forall|i: int| #![trigger rest[i]] 0 <= i < rest.len() implies pred(rest[i]) by {
            assert(rest[i] == s[i]);
        }
        lemma_filter_all(rest, pred);
        assert(pred(s[s.len() - 1]));
        assert(s.filter(pred) =~= s);
    }
}

/// A filter that nothing passes leaves nothing.
pub proof fn lemma_filter_none<T>(s: Seq<T>, pred: spec_fn(T) -> bool)
    requires
        forall|i: int| #![trigger s[i]] 0 <= i < s.len() ==> !pred(s[i]),
    ensures
        s.filter(pred) == Seq::<T>::empty(),
    decreases s.len(),
{
    reveal(Seq::filter);
    if s.len() > 0 {
        let rest = s.drop_last();
        assert forall|i: int| #![trigger rest[i]] 0 <= i < rest.len() implies !pred(rest[i]) by {
            assert(rest[i] == s[i]);
        }
        lemma_filter_none(rest, pred);
        assert(!pred(s[s.len() - 1]));
        assert(s.filter(pred) =~= Seq::<T>::empty());
    }
}

/// Filtering a settled register leaves it settled.
proof fn lemma_filter_settled<V, A>(
    s: Seq<EntryView<V, A>>,
    pred: spec_fn(EntryView<V, A>) -> bool,
)
    requires
        settled(s),
    ensures
        settled(s.filter(pred)),
    decreases s.len(),
{
    reveal(Seq::filter);
    if s.len() > 0 {
        let rest = s.drop_last();
        let sub = rest.filter(pred);
        let out = s.filter(pred);
        assert forall|i: int| #![trigger rest[i]] 0 <= i < rest.len() implies canonical(
            rest[i].0,
        ) && rest[i].0 != Map::<A, u64>::empty() by {
            assert(rest[i] == s[i]);
        }
        assert forall|i: int, j: int|
            #![trigger rest[i], rest[j]]
            0 <= i < rest.len() && 0 <= j < rest.len() && i != j implies rest[i].0 != rest[j].0
            && !precedes(rest[i].0, rest[j].0) by {
            assert(rest[i] == s[i] && rest[j] == s[j]);
        }
        lemma_filter_settled(rest, pred);
        lemma_filtered(rest, pred);
        if pred(s.last()) {
            let end = s.len() - 1;
            assert forall|k: int| #![trigger sub[k]] 0 <= k < sub.len() implies sub[k].0
                != s[end].0 && !precedes(sub[k].0, s[end].0) && !precedes(s[end].0, sub[k].0) by {
                assert(sub.contains(sub[k]));
                let m = choose|m: int| 0 <= m < rest.len() && rest[m] == sub[k];
                assert(s[m] == sub[k]);
            }
            assert forall|i: int| #![trigger out[i]] 0 <= i < out.len() implies canonical(out[i].0)
                && out[i].0 != Map::<A, u64>::empty() by {
                if i < sub.len() {
                    assert(out[i] == sub[i]);
                } else {
                    assert(out[i] == s[end]);
                }
            }
            assert forall|i: int, j: int|
                #![trigger out[i], out[j]]
                0 <= i < out.len() && 0 <= j < out.len() && i != j implies out[i].0 != out[j].0
                && !precedes(out[i].0, out[j].0) by {
                if i < sub.len() {
                    assert(out[i] == sub[i]);
                } else {
                    assert(out[i] == s[end]);
                }
                if j < sub.len() {
                    assert(out[j] == sub[j]);
                } else {
                    assert(out[j] == s[end]);
                }
            }
        }
    }
}

/// Two settled lists that are concurrent to each other make a settled list.
proof fn lemma_settled_concat<V, A>(a: Seq<EntryView<V, A>>, b: Seq<EntryView<V, A>>)
    requires
        settled(a),
        settled(b),
        forall|i: int, j: int|
            #![trigger a[i], b[j]]
            0 <= i < a.len() && 0 <= j < b.len() ==> a[i].0 != b[j].0 && !precedes(a[i].0, b[j].0)
                && !precedes(b[j].0, a[i].0),
    ensures
        settled(a + b),
{
    let out = a + b;
    assert forall|i: int| #![trigger out[i]] 0 <= i < out.len() implies canonical(out[i].0)
        && out[i].0 != Map::<A, u64>::empty() by {
        if i < a.len() {
            assert(out[i] == a[i]);
        } else {
            assert(out[i] == b[i - a.len()]);
        }
    }
    assert forall|i: int, j: int|
        #![trigger out[i], out[j]]
        0 <= i < out.len() && 0 <= j < out.len() && i != j implies out[i].0 != out[j].0
        && !precedes(out[i].0, out[j].0) by {
        if i < a.len() {
            assert(out[i] == a[i]);
        } else {
            assert(out[i] == b[i - a.len()]);
        }
        if j < a.len() {
            assert(out[j] == a[j]);
        } else {
            assert(out[j] == b[j - a.len()]);
        }
    }
}

/// A write leaves a settled register settled.
pub proof fn law_put_keeps_settled<V, A>(
    entries: Seq<EntryView<V, A>>,
    clock: Map<A, u64>,
    value: V,
)
    requires
        settled(entries),
        canonical(clock),
    ensures
        settled(put(entries, clock, value)),
{
    let pred = outlives_put::<V, A>(clock);
    let kept = entries.filter(pred);
    lemma_filter_settled(entries, pred);
    lemma_filtered(entries, pred);
    if clock != Map::<A, u64>::empty() && !ahead_of(kept, clock) {
        let one: Seq<EntryView<V, A>> = seq![(clock, value)];
        assert forall|i: int, j: int|
            #![trigger kept[i], one[j]]
            0 <= i < kept.len() && 0 <= j < one.len() implies kept[i].0 != one[j].0 && !precedes(
            kept[i].0,
            one[j].0,
        ) && !precedes(one[j].0, kept[i].0) by {
            assert(kept.contains(kept[i]));
            assert(!follows(kept[i].0, clock));
            law_causal_order_is_symmetric(clock, kept[i].0);
        }
        lemma_settled_concat(kept, one);
        assert(kept.push((clock, value)) =~= kept + one);
    }
}

/// Writing entries one after another gives a settled register.
pub proof fn law_gathered_is_settled<V, A>(entries: Seq<EntryView<V, A>>)
    requires
        forall|i: int| #![trigger entries[i]] 0 <= i < entries.len() ==> canonical(entries[i].0),
    ensures
        settled(gathered(entries)),
    decreases entries.len(),
{
    if entries.len() > 0 {
        let rest = entries.drop_last();
        assert forall|i: int| #![trigger rest[i]] 0 <= i < rest.len() implies canonical(
            rest[i].0,
        ) by {
            assert(rest[i] == entries[i]);
        }
        law_gathered_is_settled(rest);
        assert(canonical(entries[entries.len() - 1].0));
        law_put_keeps_settled(gathered(rest), entries.last().0, entries.last().1);
    }
}

/// Writing entries one after another shows nothing but them.
pub proof fn lemma_gathered_members<V, A>(s: Seq<EntryView<V, A>>)
    ensures
        forall|x: EntryView<V, A>| #[trigger] gathered(s).contains(x) ==> s.contains(x),
    decreases s.len(),
{
    if s.len() > 0 {
        let rest = s.drop_last();
        let e = s.last();
        lemma_gathered_members(rest);
        let pred = outlives_put::<V, A>(e.0);
        lemma_filtered(gathered(rest), pred);
        let kept = gathered(rest).filter(pred);
        assert forall|x: EntryView<V, A>| #[trigger] gathered(s).contains(x) implies s.contains(
            x,
        ) by {
            let out = gathered(s);
            let k = choose|k: int| 0 <= k < out.len() && out[k] == x;
            if out == kept.push(e) && k == kept.len() {
                assert(s[s.len() - 1] == x);
            } else if out == gathered(rest) {
                assert(rest.contains(x));
                let m = choose|m: int| 0 <= m < rest.len() && rest[m] == x;
                assert(s[m] == x);
            } else {
                assert(kept[k] == x);
                assert(kept.contains(x));
                assert(rest.contains(x));
                let m = choose|m: int| 0 <= m < rest.len() && rest[m] == x;
                assert(s[m] == x);
            }
        }
    }
}

/// Some entry has seen all that the clock has.
pub open spec fn is_covered<V, A>(entries: Seq<EntryView<V, A>>, clock: Map<A, u64>) -> bool {
    exists|i: int| #![trigger entries[i]] 0 <= i < entries.len() && covers(entries[i].0, clock)
}

/// A write covers its own clock and all that was covered before.
proof fn lemma_put_covers<V, A>(
    entries: Seq<EntryView<V, A>>,
    clock: Map<A, u64>,
    value: V,
    low: Map<A, u64>,
)
    requires
        is_covered(entries, low) || (low == clock && clock != Map::<A, u64>::empty()),
    ensures
        is_covered(put(entries, clock, value), low),
{
    let pred = outlives_put::<V, A>(clock);
    let kept = entries.filter(pred);
    let out = put(entries, clock, value);
    lemma_filtered(entries, pred);
    if clock != Map::<A, u64>::empty() {
        let at = if ahead_of(kept, clock) {
            choose|k: int| #![trigger kept[k]] 0 <= k < kept.len() && follows(kept[k].0, clock)
        } else {
            kept.len() as int
        };
        assert(covers(out[at].0, clock));
        if is_covered(entries, low) {
            let i = choose|i: int|
                #![trigger entries[i]]
                0 <= i < entries.len() && covers(entries[i].0, low);
            assert(entries.contains(entries[i]));
            if pred(entries[i]) {
                assert(kept.contains(entries[i]));
                let k = choose|k: int| 0 <= k < kept.len() && kept[k] == entries[i];
                assert(covers(out[k].0, low));
            } else {
                law_covering_is_transitive(clock, entries[i].0, low);
                law_covering_is_transitive(out[at].0, clock, low);
            }
        }
    }
}

/// A register built from entries shows only given entries, and every given entry
/// with a non-empty clock is covered by a visible one.
pub proof fn law_gathered_shows_the_newest<V, A>(entries: Seq<EntryView<V, A>>)
    ensures
        forall|x: EntryView<V, A>| #[trigger]
            gathered(entries).contains(x) ==> entries.contains(x),
        forall|i: int|
            #![trigger entries[i]]
            0 <= i < entries.len() && entries[i].0 != Map::<A, u64>::empty() ==> is_covered(
                gathered(entries),
                entries[i].0,
            ),
    decreases entries.len(),
{
    lemma_gathered_members(entries);
    if entries.len() > 0 {
        let rest = entries.drop_last();
        let last = entries.last();
        law_gathered_shows_the_newest(rest);
        assert forall|i: int|
            #![trigger entries[i]]
            0 <= i < entries.len() && entries[i].0 != Map::<A, u64>::empty() implies is_covered(
            gathered(entries),
            entries[i].0,
        ) by {
            if i < rest.len() {
                assert(rest[i] == entries[i]);
            }
            lemma_put_covers(gathered(rest), last.0, last.1, entries[i].0);
        }
    }
}

/// A merge of settled registers is settled.
pub proof fn law_merge_keeps_settled<V, A>(
    left: Seq<EntryView<V, A>>,
    right: Seq<EntryView<V, A>>,
)
    requires
        settled(left),
        settled(right),
    ensures
        settled(merged(left, right)),
{
    let kept = left.filter(outlives(right));
    let news = right.filter(is_news(kept));
    lemma_filter_settled(left, outlives(right));
    lemma_filter_settled(right, is_news(kept));
    lemma_filtered(left, outlives(right));
    lemma_filtered(right, is_news(kept));
    assert forall|i: int, j: int|
        #![trigger kept[i], news[j]]
        0 <= i < kept.len() && 0 <= j < news.len() implies kept[i].0 != news[j].0 && !precedes(
        kept[i].0,
        news[j].0,
    ) && !precedes(news[j].0, kept[i].0) by {
        assert(kept.contains(kept[i]));
        assert(news.contains(news[j]));
        assert(right.contains(news[j]));
        let m = choose|m: int| 0 <= m < right.len() && right[m] == news[j];
        assert(!superseded(kept[i].0, right));
        assert(!precedes(kept[i].0, right[m].0));
        assert(!superseded(news[j].0, kept));
        assert(!has_clock(kept, news[j].0));
    }
    lemma_settled_concat(kept, news);
}

/// In a settled register nothing supersedes anything.
proof fn lemma_settled_not_superseded<V, A>(s: Seq<EntryView<V, A>>, e: EntryView<V, A>)
    requires
        settled(s),
        s.contains(e),
    ensures
        !superseded(e.0, s),
        canonical(e.0),
{
    let i = choose|i: int| 0 <= i < s.len() && s[i] == e;
    assert(canonical(s[i].0));
    if superseded(e.0, s) {
        let j = choose|j: int| #![trigger s[j]] 0 <= j < s.len() && precedes(e.0, s[j].0);
        if i == j {
            assert(precedes(e.0, e.0));
        } else {
            assert(!precedes(s[i].0, s[j].0));
        }
    }
}

/// A merge shows exactly what neither register supersedes.
pub proof fn law_merge_shows_what_is_not_superseded<V, A>(
    left: Seq<EntryView<V, A>>,
    right: Seq<EntryView<V, A>>,
    e: EntryView<V, A>,
)
    requires
        settled(left),
        settled(right),
        agreeing(left, right),
    ensures
        merged(left, right).contains(e) <==> (left.contains(e) || right.contains(e)) && !superseded(
            e.0,
            left,
        ) && !superseded(e.0, right),
{
    let kept = left.filter(outlives(right));
    let news = right.filter(is_news(kept));
    let out = merged(left, right);
    lemma_filtered(left, outlives(right));
    lemma_filtered(right, is_news(kept));
    assert(out.contains(e) <==> kept.contains(e) || news.contains(e)) by {
        if kept.contains(e) {
            let k = choose|k: int| 0 <= k < kept.len() && kept[k] == e;
            assert(out[k] == e);
        }
        if news.contains(e) {
            let k = choose|k: int| 0 <= k < news.len() && news[k] == e;
            assert(out[k + kept.len()] == e);
        }
        if out.contains(e) {
            let k = choose|k: int| 0 <= k < out.len() && out[k] == e;
            if k < kept.len() {
                assert(kept[k] == e);
            } else {
                assert(news[k - kept.len()] == e);
            }
        }
    }
    if left.contains(e) {
        lemma_settled_not_superseded(left, e);
    }
    if right.contains(e) {
        lemma_settled_not_superseded(right, e);
        if superseded(e.0, left) {
            let i = choose|i: int|
                #![trigger left[i]]
                0 <= i < left.len() && precedes(e.0, left[i].0);
            if !kept.contains(left[i]) {
                assert(left.contains(left[i]));
                assert(superseded(left[i].0, right));
                let j = choose|j: int|
                    #![trigger right[j]]
                    0 <= j < right.len() && precedes(left[i].0, right[j].0);
                law_precedes_is_transitive(e.0, left[i].0, right[j].0);
                assert(superseded(e.0, right));
            } else {
                let k = choose|k: int| 0 <= k < kept.len() && kept[k] == left[i];
                assert(precedes(e.0, kept[k].0));
                assert(superseded(e.0, kept));
            }
        } else {
            if superseded(e.0, kept) {
                let k = choose|k: int|
                    #![trigger kept[k]]
                    0 <= k < kept.len() && precedes(e.0, kept[k].0);
                assert(kept.contains(kept[k]));
                let i = choose|i: int| 0 <= i < left.len() && left[i] == kept[k];
                assert(precedes(e.0, left[i].0));
            }
            if has_clock(kept, e.0) {
                let k = choose|k: int| #![trigger kept[k]] 0 <= k < kept.len() && kept[k].0 == e.0;
                assert(kept.contains(kept[k]));
                let i = choose|i: int| 0 <= i < left.len() && left[i] == kept[k];
                let j = choose|j: int| 0 <= j < right.len() && right[j] == e;
                assert(left[i] == right[j]);
                assert(kept.contains(e));
            }
        }
    }
}

/// Merging two registers in either direction shows the same entries.
pub proof fn law_merge_converges<V, A>(
    left: Seq<EntryView<V, A>>,
    right: Seq<EntryView<V, A>>,
)
    requires
        settled(left),
        settled(right),
        agreeing(left, right),
    ensures
        merged(left, right).to_set() == merged(right, left).to_set(),
{
    assert forall|i: int, j: int|
        #![trigger right[i], left[j]]
        0 <= i < right.len() && 0 <= j < left.len() && right[i].0 == left[j].0 implies right[i]
        == left[j] by {
        assert(left[j].0 == right[i].0);
    }
    assert forall|e: EntryView<V, A>|
        merged(left, right).to_set().contains(e) == merged(right, left).to_set().contains(e) by {
        law_merge_shows_what_is_not_superseded(left, right, e);
        law_merge_shows_what_is_not_superseded(right, left, e);
    }
    assert(merged(left, right).to_set() =~= merged(right, left).to_set());
}

/// Merging a register with itself changes nothing.
pub proof fn law_merge_is_idempotent<V, A>(entries: Seq<EntryView<V, A>>)
    requires
        settled(entries),
    ensures
        merged(entries, entries) == entries,
{
    let pred = outlives(entries);
    assert forall|i: int| #![trigger entries[i]] 0 <= i < entries.len() implies pred(
        entries[i],
    ) by {
        assert(entries.contains(entries[i]));
        lemma_settled_not_superseded(entries, entries[i]);
    }
    lemma_filter_all(entries, pred);
    let news = is_news(entries);
    assert forall|i: int| #![trigger entries[i]] 0 <= i < entries.len() implies !news(
        entries[i],
    ) by {
        assert(has_clock(entries, entries[i].0));
    }
    lemma_filter_none(entries, news);
    assert(merged(entries, entries) =~= entries);
}

/// What a merge of two registers supersedes is what one of them supersedes.
proof fn lemma_merge_supersedes<V, A>(
    left: Seq<EntryView<V, A>>,
    right: Seq<EntryView<V, A>>,
    clock: Map<A, u64>,
)
    requires
        settled(left),
        settled(right),
        agreeing(left, right),
        canonical(clock),
    ensures
        superseded(clock, merged(left, right)) <==> superseded(clock, left) || superseded(
            clock,
            right,
        ),
{
    let out = merged(left, right);
    if superseded(clock, out) {
        let k = choose|k: int| #![trigger out[k]] 0 <= k < out.len() && precedes(clock, out[k].0);
        assert(out.contains(out[k]));
        law_merge_shows_what_is_not_superseded(left, right, out[k]);
        if left.contains(out[k]) {
            let i = choose|i: int| 0 <= i < left.len() && left[i] == out[k];
            assert(precedes(clock, left[i].0));
        } else {
            let i = choose|i: int| 0 <= i < right.len() && right[i] == out[k];
            assert(precedes(clock, right[i].0));
        }
    }
    if superseded(clock, left) {
        lemma_superseder_is_shown(left, right, left, right, clock);
    }
    if superseded(clock, right) {
        lemma_superseder_is_shown(left, right, right, left, clock);
    }
}

/// A clock that one side supersedes is superseded by what the merge shows.
proof fn lemma_superseder_is_shown<V, A>(
    left: Seq<EntryView<V, A>>,
    right: Seq<EntryView<V, A>>,
    side: Seq<EntryView<V, A>>,
    other: Seq<EntryView<V, A>>,
    clock: Map<A, u64>,
)
    requires
        settled(left),
        settled(right),
        agreeing(left, right),
        canonical(clock),
        (side == left && other == right) || (side == right && other == left),
        superseded(clock, side),
    ensures
        superseded(clock, merged(left, right)),
{
    let out = merged(left, right);
    let i = choose|i: int| #![trigger side[i]] 0 <= i < side.len() && precedes(clock, side[i].0);
    let e = side[i];
    assert(side.contains(e));
    lemma_settled_not_superseded(side, e);
    if superseded(e.0, other) {
        let j = choose|j: int| #![trigger other[j]] 0 <= j < other.len() && precedes(e.0, other[j].0);
        let f = other[j];
        assert(other.contains(f));
        lemma_settled_not_superseded(other, f);
        if superseded(f.0, side) {
            let k = choose|k: int|
                #![trigger side[k]]
                0 <= k < side.len() && precedes(f.0, side[k].0);
            assert(canonical(side[k].0));
            law_precedes_is_transitive(e.0, f.0, side[k].0);
            assert(superseded(e.0, side));
        }
        law_merge_shows_what_is_not_superseded(left, right, f);
        assert(out.contains(f));
        let k = choose|k: int| 0 <= k < out.len() && out[k] == f;
        law_precedes_is_transitive(clock, e.0, f.0);
        assert(precedes(clock, out[k].0));
    } else {
        law_merge_shows_what_is_not_superseded(left, right, e);
        assert(out.contains(e));
        let k = choose|k: int| 0 <= k < out.len() && out[k] == e;
        assert(precedes(clock, out[k].0));
    }
}

/// How three registers are grouped makes no difference to what a merge shows.
pub proof fn law_merge_is_associative<V, A>(
    a: Seq<EntryView<V, A>>,
    b: Seq<EntryView<V, A>>,
    c: Seq<EntryView<V, A>>,
)
    requires
        settled(a),
        settled(b),
        settled(c),
        agreeing(a, b),
        agreeing(a, c),
        agreeing(b, c),
    ensures
        merged(merged(a, b), c).to_set() == merged(a, merged(b, c)).to_set(),
{
    let ab = merged(a, b);
    let bc = merged(b, c);
    law_merge_keeps_settled(a, b);
    law_merge_keeps_settled(b, c);
    assert(agreeing(ab, c)) by {
        assert forall|i: int, j: int|
            #![trigger ab[i], c[j]]
            0 <= i < ab.len() && 0 <= j < c.len() && ab[i].0 == c[j].0 implies ab[i] == c[j] by {
            assert(ab.contains(ab[i]));
            law_merge_shows_what_is_not_superseded(a, b, ab[i]);
            if a.contains(ab[i]) {
                let k = choose|k: int| 0 <= k < a.len() && a[k] == ab[i];
                assert(a[k].0 == c[j].0);
            } else {
                let k = choose|k: int| 0 <= k < b.len() && b[k] == ab[i];
                assert(b[k].0 == c[j].0);
            }
        }
    }
    assert(agreeing(a, bc)) by {
        assert forall|i: int, j: int|
            #![trigger a[i], bc[j]]
            0 <= i < a.len() && 0 <= j < bc.len() && a[i].0 == bc[j].0 implies a[i] == bc[j] by {
            assert(bc.contains(bc[j]));
            law_merge_shows_what_is_not_superseded(b, c, bc[j]);
            if b.contains(bc[j]) {
                let k = choose|k: int| 0 <= k < b.len() && b[k] == bc[j];
                assert(a[i].0 == b[k].0);
            } else {
                let k = choose|k: int| 0 <= k < c.len() && c[k] == bc[j];
                assert(a[i].0 == c[k].0);
            }
        }
    }
    assert forall|e: EntryView<V, A>|
        merged(ab, c).to_set().contains(e) == merged(a, bc).to_set().contains(e) by {
        law_merge_shows_what_is_not_superseded(ab, c, e);
        law_merge_shows_what_is_not_superseded(a, bc, e);
        law_merge_shows_what_is_not_superseded(a, b, e);
        law_merge_shows_what_is_not_superseded(b, c, e);
        if a.contains(e) {
            lemma_settled_not_superseded(a, e);
        }
        if b.contains(e) {
            lemma_settled_not_superseded(b, e);
        }
        if c.contains(e) {
            lemma_settled_not_superseded(c, e);
        }
        if canonical(e.0) {
            lemma_merge_supersedes(a, b, e.0);
            lemma_merge_supersedes(b, c, e.0);
        }
    }
    assert(merged(ab, c).to_set() =~= merged(a, bc).to_set());
}

/// The read context covers every visible entry.
pub proof fn law_context_covers_entries<V, A>(entries: Seq<EntryView<V, A>>)
    requires
        well_clocked(entries),
    ensures
        canonical(context(entries)),
        forall|i: int|
            #![trigger entries[i]]
            0 <= i < entries.len() ==> covers(context(entries), entries[i].0),
    decreases entries.len(),
{
    if entries.len() > 0 {
        let rest = entries.drop_last();
        let end = entries.len() - 1;
        assert forall|i: int| #![trigger rest[i]] 0 <= i < rest.len() implies canonical(rest[i].0)
            && rest[i].0 != Map::<A, u64>::empty() by {
            assert(rest[i] == entries[i]);
        }
        law_context_covers_entries(rest);
        assert(canonical(entries[end].0));
        law_join_is_least_upper_bound(context(rest), entries[end].0, context(rest));
        assert forall|i: int| #![trigger entries[i]] 0 <= i < entries.len() implies covers(
            context(entries),
            entries[i].0,
        ) by {
            if i < end {
                assert(rest[i] == entries[i]);
                law_covering_is_transitive(context(entries), context(rest), rest[i].0);
            }
        }
    }
}

/// A local write replaces everything that was visible: afterwards the register
/// shows exactly the written value.
pub proof fn law_write_replaces_all<V, A>(entries: Seq<EntryView<V, A>>, actor: A, value: V)
    requires
        well_clocked(entries),
    ensures
        written(entries, actor, value) == seq![(incremented(context(entries), actor), value)],
{
    let clock = incremented(context(entries), actor);
    law_context_covers_entries(entries);
    law_increment_advances(context(entries), actor);
    assert(counter(clock, actor) > 0);
    assert(clock.contains_key(actor));
    let pred = outlives_put::<V, A>(clock);
    assert forall|i: int| #![trigger entries[i]] 0 <= i < entries.len() implies !pred(
        entries[i],
    ) by {
        law_covering_is_transitive(clock, context(entries), entries[i].0);
        if covers(entries[i].0, clock) {
            law_covering_is_antisymmetric(entries[i].0, clock);
        }
    }
    lemma_filter_none(entries, pred);
    assert(written(entries, actor, value) =~= seq![(clock, value)]);
}

} // verus!
