//! Vector clocks: one counter per actor, ordered by causality.

use std::cmp::Ordering;
use std::collections::BTreeMap;
use vstd::prelude::*;
use vstd::std_specs::btree::*;
use vstd::std_specs::iter::IteratorSpec;

use crate::store::order::{is_less, lawful_clone, lawful_order, lemma_order, less};

verus! {

broadcast use {vstd::std_specs::btree::group_btree_axioms, vstd::laws_cmp::group_laws_cmp};

/// Counter of one actor; an actor that is not listed counts zero.
pub open spec fn counter<A>(clock: Map<A, u64>, actor: A) -> u64 {
    if clock.contains_key(actor) { clock[actor] } else { 0 }
}

/// Every counter of `low` is at most the counter of the same actor in `high`.
pub open spec fn covers<A>(high: Map<A, u64>, low: Map<A, u64>) -> bool {
    forall|actor: A| counter(low, actor) <= #[trigger] counter(high, actor)
}

/// No counter is stored as zero, so that equal counters mean equal clocks.
pub open spec fn canonical<A>(clock: Map<A, u64>) -> bool {
    forall|actor: A| #[trigger] clock.contains_key(actor) ==> clock[actor] > 0
}

/// How one clock stands to another: `Greater` where it has seen all that the
/// other has, `Less` the other way round, nothing where each has news.
pub open spec fn causal_order<A>(left: Map<A, u64>, right: Map<A, u64>) -> Option<Ordering> {
    if left == right {
        Some(Ordering::Equal)
    } else if covers(left, right) {
        Some(Ordering::Greater)
    } else if covers(right, left) {
        Some(Ordering::Less)
    } else {
        None
    }
}

/// `left` is strictly behind `right`.
pub open spec fn precedes<A>(left: Map<A, u64>, right: Map<A, u64>) -> bool {
    causal_order(left, right) == Some(Ordering::Less)
}

/// `left` is strictly ahead of `right`.
pub open spec fn follows<A>(left: Map<A, u64>, right: Map<A, u64>) -> bool {
    causal_order(left, right) == Some(Ordering::Greater)
}

/// Clock that has one counter raised to at least the given value.
pub open spec fn raised<A>(clock: Map<A, u64>, actor: A, value: u64) -> Map<A, u64> {
    if counter(clock, actor) < value { clock.insert(actor, value) } else { clock }
}

/// Clock after one more event of an actor; a full counter stays as it is.
pub open spec fn incremented<A>(clock: Map<A, u64>, actor: A) -> Map<A, u64> {
    raised(
        clock,
        actor,
        if counter(clock, actor) < u64::MAX { (counter(clock, actor) + 1) as u64 } else { u64::MAX },
    )
}

/// The actor stands among the first `count` listed pairs.
spec fn listed_before<A>(pairs: Seq<(A, u64)>, count: int, actor: A) -> bool {
    exists|k: int| #![trigger pairs[k]] 0 <= k < count && pairs[k].0 == actor
}

/// One more listed pair adds exactly its actor.
proof fn lemma_listed_step<A>(pairs: Seq<(A, u64)>, count: int)
    requires
        0 <= count < pairs.len(),
    ensures
        forall|actor: A|
            #![trigger listed_before(pairs, count + 1, actor)]
            listed_before(pairs, count + 1, actor) <==> (listed_before(pairs, count, actor) || actor
                == pairs[count].0),
{
    assert forall|actor: A| #[trigger] listed_before(pairs, count + 1, actor) <==> (listed_before(
        pairs,
        count,
        actor,
    ) || actor == pairs[count].0) by {
        if listed_before(pairs, count, actor) {
            let k = choose|k: int| #![trigger pairs[k]] 0 <= k < count && pairs[k].0 == actor;
            assert(pairs[k].0 == actor);
        }
        if actor == pairs[count].0 {
            assert(pairs[count].0 == actor);
        }
    }
}

/// An actor that is listed at one place is not listed before it.
proof fn lemma_listed_once<A: Ord>(pairs: Seq<(A, u64)>, at: int)
    requires
        lawful_order::<A>(),
        0 <= at < pairs.len(),
        forall|i: int, j: int|
            #![trigger pairs[i], pairs[j]]
            0 <= i < j < pairs.len() ==> less(pairs[i].0, pairs[j].0),
    ensures
        !listed_before(pairs, at, pairs[at].0),
{
    if listed_before(pairs, at, pairs[at].0) {
        let k = choose|k: int| #![trigger pairs[k]] 0 <= k < at && pairs[k].0 == pairs[at].0;
        assert(less(pairs[k].0, pairs[at].0));
        lemma_order(pairs[k].0, pairs[at].0);
    }
}

/// Smallest clock that covers both, keeping the entries of the first.
pub open spec fn joined<A>(left: Map<A, u64>, right: Map<A, u64>) -> Map<A, u64> {
    Map::new(
        |actor: A| left.contains_key(actor) || counter(right, actor) > 0,
        |actor: A|
            if counter(left, actor) < counter(right, actor) {
                counter(right, actor)
            } else {
                counter(left, actor)
            },
    )
}

/// The pairs list every counter of the clock once, actors increasing.
pub open spec fn lists<A: Ord>(pairs: Seq<(A, u64)>, clock: Map<A, u64>) -> bool {
    &&& forall|i: int, j: int|
        #![trigger pairs[i], pairs[j]]
        0 <= i < j < pairs.len() ==> less(pairs[i].0, pairs[j].0)
    &&& forall|i: int|
        #![trigger pairs[i]]
        0 <= i < pairs.len() ==> clock.contains_key(pairs[i].0) && clock[pairs[i].0] == pairs[i].1
    &&& forall|actor: A| #[trigger]
        clock.contains_key(actor) ==> pairs.contains((actor, clock[actor]))
}

/// The one listing of a clock's counters in increasing actor order.
pub open spec fn listing<A: Ord>(clock: Map<A, u64>) -> Seq<(A, u64)> {
    choose|pairs: Seq<(A, u64)>| lists(pairs, clock)
}

/// One list of counters stands before another when compared place by place,
/// first by actor and then by counter; a list stands before its extensions.
pub open spec fn listed_less<A: Ord>(a: Seq<(A, u64)>, b: Seq<(A, u64)>) -> bool
    decreases a.len(),
{
    if b.len() == 0 {
        false
    } else if a.len() == 0 {
        true
    } else if less(a[0].0, b[0].0) {
        true
    } else if less(b[0].0, a[0].0) {
        false
    } else if a[0].1 != b[0].1 {
        a[0].1 < b[0].1
    } else {
        listed_less(a.drop_first(), b.drop_first())
    }
}

/// One clock stands before another as a sorted map, whatever their causality.
pub open spec fn listed_before_clock<A: Ord>(a: Map<A, u64>, b: Map<A, u64>) -> bool {
    listed_less(listing(a), listing(b))
}

/// A clock has only one listing.
pub proof fn lemma_listing_unique<A: Ord>(
    p: Seq<(A, u64)>,
    q: Seq<(A, u64)>,
    clock: Map<A, u64>,
)
    requires
        lawful_order::<A>(),
        lists(p, clock),
        lists(q, clock),
    ensures
        p == q,
{
    lemma_listing_prefix(p, q, clock, if p.len() <= q.len() { p.len() as int } else { q.len() as int });
    lemma_listing_no_more(p, q, clock);
    lemma_listing_no_more(q, p, clock);
    assert(p =~= q);
}

/// Two listings of one clock agree as far as both go.
proof fn lemma_listing_prefix<A: Ord>(
    p: Seq<(A, u64)>,
    q: Seq<(A, u64)>,
    clock: Map<A, u64>,
    count: int,
)
    requires
        lawful_order::<A>(),
        lists(p, clock),
        lists(q, clock),
        0 <= count <= p.len(),
        count <= q.len(),
    ensures
        forall|k: int| #![trigger p[k]] 0 <= k < count ==> p[k] == q[k],
    decreases count,
{
    if count > 0 {
        let at = count - 1;
        lemma_listing_prefix(p, q, clock, at);
        let i = lemma_listed_somewhere(p, clock, q[at]);
        let j = lemma_listed_somewhere(q, clock, p[at]);
        if i < at {
            assert(p[i] == q[i]);
            assert(less(q[i].0, q[at].0));
            lemma_order(q[i].0, q[at].0);
        }
        if j < at {
            assert(p[j] == q[j]);
            assert(less(p[j].0, p[at].0));
            lemma_order(p[j].0, p[at].0);
        }
        if i > at && j > at {
            assert(less(p[at].0, p[i].0));
            assert(less(q[at].0, q[j].0));
            lemma_order(p[at].0, q[at].0);
        }
    }
}

/// A listed pair of the same clock is found in any of its listings.
proof fn lemma_listed_somewhere<A: Ord>(
    pairs: Seq<(A, u64)>,
    clock: Map<A, u64>,
    pair: (A, u64),
) -> (i: int)
    requires
        lists(pairs, clock),
        clock.contains_key(pair.0),
        clock[pair.0] == pair.1,
    ensures
        0 <= i < pairs.len(),
        pairs[i] == pair,
{
    assert(pairs.contains((pair.0, clock[pair.0])));
    choose|i: int| 0 <= i < pairs.len() && pairs[i] == pair
}

/// A listing cannot go on where another listing of the clock has ended.
proof fn lemma_listing_no_more<A: Ord>(
    short: Seq<(A, u64)>,
    long: Seq<(A, u64)>,
    clock: Map<A, u64>,
)
    requires
        lawful_order::<A>(),
        lists(short, clock),
        lists(long, clock),
    ensures
        long.len() <= short.len(),
{
    if short.len() < long.len() {
        lemma_listing_prefix(short, long, clock, short.len() as int);
        let at = short.len() as int;
        let i = lemma_listed_somewhere(short, clock, long[at]);
        assert(short[i] == long[i]);
        assert(less(long[i].0, long[at].0));
        lemma_order(long[i].0, long[at].0);
    }
}

/// Vector clock: how many events of each actor a value has seen.
#[derive(Debug, PartialEq, Eq, Hash)]
pub struct VectorClock<A: Ord> {
    dots: BTreeMap<A, u64>,
}

impl<A: Ord> View for VectorClock<A> {
    type V = Map<A, u64>;

    closed spec fn view(&self) -> Map<A, u64> {
        self.dots@
    }
}

impl<A: Ord + Clone> Clone for VectorClock<A> {
    fn clone(&self) -> (out: Self)
        ensures
            out@ == self@,
    {
        VectorClock { dots: self.dots.clone() }
    }
}

impl<A: Ord> Default for VectorClock<A> {
    fn default() -> (out: Self)
        ensures
            out@ == Map::<A, u64>::empty(),
    {
        Self::new()
    }
}

impl<A: Ord> VectorClock<A> {
    /// Builds an empty vector clock.
    pub fn new() -> (out: Self)
        ensures
            out@ == Map::<A, u64>::empty(),
            canonical(out@),
    {
        VectorClock { dots: BTreeMap::new() }
    }

    /// Returns whether this clock contains no actor counters.
    pub fn is_empty(&self) -> (out: bool)
        ensures
            out == (self@ == Map::<A, u64>::empty()),
    {
        proof {
            if self@.dom() == Set::<A>::empty() {
                assert(self@ =~= Map::<A, u64>::empty());
            }
        }
        self.dots.is_empty()
    }

    /// Returns the number of actor counters carried by this clock.
    pub fn len(&self) -> (out: usize)
        requires
            lawful_order::<A>(),
        ensures
            out == self@.dom().len(),
    {
        self.dots.len()
    }

    /// Returns the counter for one actor, treating missing actors as zero.
    pub fn get(&self, actor: &A) -> (out: u64)
        requires
            lawful_order::<A>(),
        ensures
            out == counter(self@, *actor),
    {
        match self.dots.get(actor) {
            Some(value) => *value,
            None => 0,
        }
    }

    /// Returns all actor counters in canonical actor order.
    pub fn iter(&self) -> (out: Vec<(&A, u64)>)
        requires
            lawful_order::<A>(),
        ensures
            lists(out@.map_values(|pair: (&A, u64)| (*pair.0, pair.1)), self@),
    {
        let mut out: Vec<(&A, u64)> = Vec::new();
        for entry in it: self.dots.iter()
            invariant
                it.seq() == spec_btree_map_iter(&self.dots).remaining(),
                increasing_seq(it.seq().map_values(|kv: (&A, &u64)| *kv.0)),
                out@.len() == it.index(),
                forall|i: int|
                    #![trigger out@[i]]
                    0 <= i < it.index() ==> out@[i] == (it.seq()[i].0, *it.seq()[i].1),
        {
            out.push((entry.0, *entry.1));
        }
        proof {
            let all = spec_btree_map_iter(&self.dots).remaining();
            let keys = all.map_values(|kv: (&A, &u64)| *kv.0);
            let pairs = out@.map_values(|pair: (&A, u64)| (*pair.0, pair.1));
            assert forall|i: int, j: int|
                #![trigger pairs[i], pairs[j]]
                0 <= i < j < pairs.len() implies less(pairs[i].0, pairs[j].0) by {
                assert(keys[i] == pairs[i].0);
                assert(keys[j] == pairs[j].0);
            }
            assert forall|actor: A| #[trigger] self@.contains_key(actor) implies pairs.contains(
                (actor, self@[actor]),
            ) by {
                assert(all.contains((&actor, &self@[actor])));
                let i = choose|i: int| 0 <= i < all.len() && all[i] == (&actor, &self@[actor]);
                assert(pairs[i] == (actor, self@[actor]));
            }
        }
        out
    }

    /// Applies one actor counter by keeping the maximum observed value.
    pub fn apply(&mut self, actor: A, value: u64)
        requires
            lawful_order::<A>(),
        ensures
            final(self)@ == raised(old(self)@, actor, value),
            canonical(old(self)@) ==> canonical(final(self)@),
            covers(final(self)@, old(self)@),
    {
        if self.get(&actor) < value {
            self.dots.insert(actor, value);
        }
    }

    /// Increments one actor counter in place while preserving monotonic ordering.
    pub fn increment(&mut self, actor: A)
        requires
            lawful_order::<A>(),
        ensures
            final(self)@ == incremented(old(self)@, actor),
            canonical(old(self)@) ==> canonical(final(self)@),
            covers(final(self)@, old(self)@),
    {
        let next: u64 = self.get(&actor).saturating_add(1);
        self.apply(actor, next);
    }

    /// Merges another vector clock into this one.
    pub fn merge(&mut self, other: &Self)
        where A: Clone
        requires
            lawful_order::<A>(),
            lawful_clone::<A>(),
        ensures
            final(self)@ == joined(old(self)@, other@),
            canonical(old(self)@) ==> canonical(final(self)@),
            covers(final(self)@, old(self)@),
            covers(final(self)@, other@),
    {
        let pairs = other.iter();
        let ghost listed = pairs@.map_values(|pair: (&A, u64)| (*pair.0, pair.1));
        let ghost start = self@;
        let mut i: usize = 0;
        while i < pairs.len()
            invariant
                lawful_order::<A>(),
                lawful_clone::<A>(),
                i <= pairs.len(),
                listed == pairs@.map_values(|pair: (&A, u64)| (*pair.0, pair.1)),
                lists(listed, other@),
                forall|actor: A|
                    #![trigger counter(self@, actor)]
                    counter(self@, actor) == if listed_before(listed, i as int, actor)
                        && counter(start, actor) < counter(other@, actor) {
                        counter(other@, actor)
                    } else {
                        counter(start, actor)
                    },
                forall|actor: A|
                    #![trigger self@.contains_key(actor)]
                    self@.contains_key(actor) <==> start.contains_key(actor) || (listed_before(
                        listed,
                        i as int,
                        actor,
                    ) && counter(other@, actor) > 0),
            decreases pairs.len() - i,
        {
            let ghost before = self@;
            let ghost at = listed[i as int].0;
            let actor = pairs[i].0.clone();
            proof {
                assert(cloned(*pairs@[i as int].0, actor));
                assert(actor == at);
                assert(listed[i as int].1 == other@[at]);
                lemma_listed_step(listed, i as int);
            }
            self.apply(actor, pairs[i].1);
            proof {
                assert forall|other_actor: A| #[trigger]
                    counter(self@, other_actor) == if listed_before(listed, i + 1, other_actor)
                        && counter(start, other_actor) < counter(other@, other_actor) {
                        counter(other@, other_actor)
                    } else {
                        counter(start, other_actor)
                    } by {
                    assert(counter(before, other_actor) >= 0);
                    assert(listed_before(listed, i + 1, other_actor) <==> (listed_before(
                        listed,
                        i as int,
                        other_actor,
                    ) || other_actor == at));
                    if other_actor == at {
                        lemma_listed_once(listed, i as int);
                    }
                }
                assert forall|other_actor: A| #[trigger]
                    self@.contains_key(other_actor) <==> start.contains_key(other_actor) || (
                        listed_before(listed, i + 1, other_actor) && counter(other@, other_actor) > 0) by {
                    assert(counter(before, other_actor) >= 0);
                    assert(listed_before(listed, i + 1, other_actor) <==> (listed_before(
                        listed,
                        i as int,
                        other_actor,
                    ) || other_actor == at));
                }
            }
            i += 1;
        }
        proof {
            assert forall|actor: A| counter(other@, actor) > 0 implies #[trigger] listed_before(
                listed,
                listed.len() as int,
                actor,
            ) by {
                assert(other@.contains_key(actor));
                assert(listed.contains((actor, other@[actor])));
            }
            let target = joined(start, other@);
            assert forall|actor: A| self@.contains_key(actor) == target.contains_key(actor) && (
            self@.contains_key(actor) ==> self@[actor] == target[actor]) by {
                assert(counter(self@, actor) >= 0);
                if counter(other@, actor) > 0 {
                    assert(listed_before(listed, listed.len() as int, actor));
                }
            }
            assert(self@ =~= target);
        }
    }

    /// Returns whether this clock has seen everything that the other has.
    fn covers_clock(&self, other: &Self) -> (out: bool)
        requires
            lawful_order::<A>(),
        ensures
            out == covers(self@, other@),
    {
        let pairs = other.iter();
        let ghost listed = pairs@.map_values(|pair: (&A, u64)| (*pair.0, pair.1));
        let mut i: usize = 0;
        while i < pairs.len()
            invariant
                lawful_order::<A>(),
                i <= pairs.len(),
                listed == pairs@.map_values(|pair: (&A, u64)| (*pair.0, pair.1)),
                lists(listed, other@),
                forall|k: int|
                    #![trigger listed[k]]
                    0 <= k < i ==> listed[k].1 <= counter(self@, listed[k].0),
            decreases pairs.len() - i,
        {
            if self.get(pairs[i].0) < pairs[i].1 {
                proof {
                    assert(listed[i as int].1 == counter(other@, listed[i as int].0));
                    assert(counter(self@, listed[i as int].0) < counter(
                        other@,
                        listed[i as int].0,
                    ));
                }
                return false;
            }
            proof { assert(listed[i as int].1 <= counter(self@, listed[i as int].0)); }
            i += 1;
        }
        proof {
            assert forall|actor: A| counter(other@, actor) <= #[trigger] counter(self@, actor) by {
                if other@.contains_key(actor) {
                    assert(listed.contains((actor, other@[actor])));
                    let k = choose|k: int|
                        0 <= k < listed.len() && listed[k] == (actor, other@[actor]);
                    assert(listed[k].1 <= counter(self@, listed[k].0));
                }
            }
        }
        true
    }

    /// Returns whether every counter stored here is stored in the other clock too.
    fn stored_in(&self, other: &Self) -> (out: bool)
        requires
            lawful_order::<A>(),
        ensures
            out == (forall|actor: A| #[trigger]
                self@.contains_key(actor) ==> other@.contains_key(actor) && other@[actor]
                    == self@[actor]),
    {
        let pairs = self.iter();
        let ghost listed = pairs@.map_values(|pair: (&A, u64)| (*pair.0, pair.1));
        let mut i: usize = 0;
        while i < pairs.len()
            invariant
                lawful_order::<A>(),
                i <= pairs.len(),
                listed == pairs@.map_values(|pair: (&A, u64)| (*pair.0, pair.1)),
                lists(listed, self@),
                forall|k: int|
                    #![trigger listed[k]]
                    0 <= k < i ==> other@.contains_key(listed[k].0) && other@[listed[k].0]
                        == listed[k].1,
            decreases pairs.len() - i,
        {
            let ghost at = listed[i as int];
            let same = match other.dots.get(pairs[i].0) {
                Some(value) => *value == pairs[i].1,
                None => false,
            };
            if !same {
                proof { assert(self@.contains_key(at.0)); }
                return false;
            }
            i += 1;
        }
        proof {
            assert forall|actor: A| #[trigger]
                self@.contains_key(actor) implies other@.contains_key(actor) && other@[actor]
                == self@[actor] by {
                assert(listed.contains((actor, self@[actor])));
                let k = choose|k: int| 0 <= k < listed.len() && listed[k] == (actor, self@[actor]);
                assert(other@.contains_key(listed[k].0));
            }
        }
        true
    }

    /// Returns whether both clocks carry the same counters.
    pub fn same(&self, other: &Self) -> (out: bool)
        requires
            lawful_order::<A>(),
        ensures
            out == (self@ == other@),
    {
        let forth = self.stored_in(other);
        let back = other.stored_in(self);
        proof {
            if forth && back {
                assert(self@ =~= other@);
            }
        }
        forth && back
    }

    /// Compares two clocks by causality.
    pub fn partial_cmp(&self, other: &Self) -> (out: Option<Ordering>)
        requires
            lawful_order::<A>(),
        ensures
            out == causal_order(self@, other@),
    {
        if self.same(other) {
            Some(Ordering::Equal)
        } else if self.covers_clock(other) {
            Some(Ordering::Greater)
        } else if other.covers_clock(self) {
            Some(Ordering::Less)
        } else {
            None
        }
    }

    /// Returns whether this clock is strictly behind the other.
    pub fn is_behind(&self, other: &Self) -> (out: bool)
        requires
            lawful_order::<A>(),
        ensures
            out == precedes(self@, other@),
    {
        matches!(self.partial_cmp(other), Some(Ordering::Less))
    }

    /// Returns whether this clock is strictly ahead of the other.
    pub fn is_ahead(&self, other: &Self) -> (out: bool)
        requires
            lawful_order::<A>(),
        ensures
            out == follows(self@, other@),
    {
        matches!(self.partial_cmp(other), Some(Ordering::Greater))
    }

    /// Returns whether this clock stands before the other as a sorted map.
    pub fn is_listed_before(&self, other: &Self) -> (out: bool)
        requires
            lawful_order::<A>(),
        ensures
            out == listed_before_clock(self@, other@),
    {
        let left = self.iter();
        let right = other.iter();
        let ghost a = left@.map_values(|pair: (&A, u64)| (*pair.0, pair.1));
        let ghost b = right@.map_values(|pair: (&A, u64)| (*pair.0, pair.1));
        proof {
            lemma_listing_unique(a, listing(self@), self@);
            lemma_listing_unique(b, listing(other@), other@);
            assert(a.skip(0) =~= a);
            assert(b.skip(0) =~= b);
        }
        let mut i: usize = 0;
        while i < left.len() && i < right.len()
            invariant
                lawful_order::<A>(),
                i <= left.len(),
                i <= right.len(),
                a == left@.map_values(|pair: (&A, u64)| (*pair.0, pair.1)),
                b == right@.map_values(|pair: (&A, u64)| (*pair.0, pair.1)),
                listed_less(a.skip(i as int), b.skip(i as int)) == listed_before_clock(
                    self@,
                    other@,
                ),
            decreases left.len() - i,
        {
            proof {
                assert(a.skip(i as int)[0] == a[i as int]);
                assert(b.skip(i as int)[0] == b[i as int]);
                assert(a.skip(i as int).drop_first() =~= a.skip(i + 1));
                assert(b.skip(i as int).drop_first() =~= b.skip(i + 1));
                lemma_order(a[i as int].0, b[i as int].0);
            }
            if is_less(left[i].0, right[i].0) {
                return true;
            }
            if is_less(right[i].0, left[i].0) {
                return false;
            }
            if left[i].1 != right[i].1 {
                return left[i].1 < right[i].1;
            }
            i += 1;
        }
        i < right.len()
    }
}

/// Clocks without stored zeros that cover each other are the same clock.
pub proof fn law_covering_is_antisymmetric<A>(left: Map<A, u64>, right: Map<A, u64>)
    requires
        canonical(left),
        canonical(right),
        covers(left, right),
        covers(right, left),
    ensures
        left == right,
{
    assert forall|actor: A| left.contains_key(actor) == right.contains_key(actor) && (
    left.contains_key(actor) ==> left[actor] == right[actor]) by {
        assert(counter(left, actor) <= counter(right, actor));
        assert(counter(right, actor) <= counter(left, actor));
        if left.contains_key(actor) {
            assert(left[actor] > 0);
        }
        if right.contains_key(actor) {
            assert(right[actor] > 0);
        }
    }
    assert(left =~= right);
}

/// Covering is transitive.
pub proof fn law_covering_is_transitive<A>(
    high: Map<A, u64>,
    middle: Map<A, u64>,
    low: Map<A, u64>,
)
    requires
        covers(high, middle),
        covers(middle, low),
    ensures
        covers(high, low),
{
    assert forall|actor: A| counter(low, actor) <= #[trigger] counter(high, actor) by {
        assert(counter(low, actor) <= counter(middle, actor));
    }
}

/// Causal order reads the same from both sides.
pub proof fn law_causal_order_is_symmetric<A>(left: Map<A, u64>, right: Map<A, u64>)
    requires
        canonical(left),
        canonical(right),
    ensures
        causal_order(left, right) == Some(Ordering::Less) <==> causal_order(right, left) == Some(
            Ordering::Greater,
        ),
        causal_order(left, right) is None <==> causal_order(right, left) is None,
{
    if covers(left, right) && covers(right, left) {
        law_covering_is_antisymmetric(left, right);
    }
}

/// Strictly preceding is transitive.
pub proof fn law_precedes_is_transitive<A>(a: Map<A, u64>, b: Map<A, u64>, c: Map<A, u64>)
    requires
        canonical(a),
        canonical(b),
        canonical(c),
        precedes(a, b),
        precedes(b, c),
    ensures
        precedes(a, c),
{
    law_covering_is_transitive(c, b, a);
    if covers(a, c) {
        law_covering_is_transitive(a, c, b);
        law_covering_is_antisymmetric(a, b);
    }
}

/// Joining clocks is commutative, associative and idempotent, and the result is
/// the smallest clock that covers both.
pub proof fn law_join_is_least_upper_bound<A>(a: Map<A, u64>, b: Map<A, u64>, c: Map<A, u64>)
    requires
        canonical(a),
        canonical(b),
        canonical(c),
    ensures
        canonical(joined(a, b)),
        joined(a, b) == joined(b, a),
        joined(joined(a, b), c) == joined(a, joined(b, c)),
        joined(a, a) == a,
        covers(joined(a, b), a),
        covers(joined(a, b), b),
        covers(c, a) && covers(c, b) ==> covers(c, joined(a, b)),
{
    assert forall|actor: A| #[trigger] joined(a, b).contains_key(actor) implies joined(a, b)[actor]
        > 0 by {
        assert(a.contains_key(actor) ==> a[actor] > 0);
    }
    assert(joined(a, b) =~= joined(b, a)) by {
        assert forall|actor: A| joined(a, b).contains_key(actor) == joined(b, a).contains_key(
            actor,
        ) by {
            assert(a.contains_key(actor) ==> a[actor] > 0);
            assert(b.contains_key(actor) ==> b[actor] > 0);
        }
    }
    assert(joined(joined(a, b), c) =~= joined(a, joined(b, c))) by {
        assert forall|actor: A| joined(joined(a, b), c).contains_key(actor) == joined(
            a,
            joined(b, c),
        ).contains_key(actor) by {
            assert(a.contains_key(actor) ==> a[actor] > 0);
            assert(b.contains_key(actor) ==> b[actor] > 0);
        }
    }
    assert(joined(a, a) =~= a);
    if covers(c, a) && covers(c, b) {
        assert forall|actor: A| counter(joined(a, b), actor) <= #[trigger] counter(c, actor) by {
            assert(counter(a, actor) <= counter(c, actor));
            assert(counter(b, actor) <= counter(c, actor));
        }
    }
}

/// An event of an actor moves the clock strictly ahead, unless its counter is full.
pub proof fn law_increment_advances<A>(clock: Map<A, u64>, actor: A)
    requires
        canonical(clock),
    ensures
        canonical(incremented(clock, actor)),
        covers(incremented(clock, actor), clock),
        counter(clock, actor) < u64::MAX ==> precedes(clock, incremented(clock, actor)),
        counter(clock, actor) == u64::MAX ==> incremented(clock, actor) == clock,
{
    let after = incremented(clock, actor);
    if counter(clock, actor) < u64::MAX {
        assert(counter(after, actor) > counter(clock, actor));
        assert(!covers(clock, after));
    }
}

} // verus!
