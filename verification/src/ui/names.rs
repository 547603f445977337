//! Unique names of split groups.

use vstd::prelude::*;

use super::labels::text_views;
use crate::text::{
    chars_of, decimal_text, law_decimal_round_trip, push_decimal, push_text, same_text, trim_text,
    trimmed,
};

verus! {

/// A text followed by a number.
pub open spec fn numbered(prefix: Seq<char>, number: nat) -> Seq<char> {
    prefix + decimal_text(number)
}

/// First number, from a given one on, whose text is not taken; at most so many are tried.
pub open spec fn free_number(
    taken: Seq<Seq<char>>,
    prefix: Seq<char>,
    from: nat,
    tries: nat,
) -> nat
    decreases tries,
{
    if tries == 0 || !taken.contains(numbered(prefix, from)) {
        from
    } else {
        free_number(taken, prefix, from + 1, (tries - 1) as nat)
    }
}

/// Texts of some numbers in a row.
spec fn numbered_texts(prefix: Seq<char>, from: nat, count: nat) -> Set<Seq<char>>
    decreases count,
{
    if count == 0 {
        Set::empty()
    } else {
        numbered_texts(prefix, from, (count - 1) as nat).insert(
            numbered(prefix, (from + count - 1) as nat),
        )
    }
}

/// Different numbers have different texts.
proof fn lemma_numbered_is_injective(prefix: Seq<char>, a: nat, b: nat)
    requires
        numbered(prefix, a) == numbered(prefix, b),
    ensures
        a == b,
{
    law_decimal_round_trip(a);
    law_decimal_round_trip(b);
    let n = prefix.len() as int;
    assert(numbered(prefix, a).skip(n) =~= decimal_text(a));
    assert(numbered(prefix, b).skip(n) =~= decimal_text(b));
}

/// So many numbers in a row have so many texts.
proof fn lemma_numbered_texts(prefix: Seq<char>, from: nat, count: nat)
    ensures
        numbered_texts(prefix, from, count).finite(),
        numbered_texts(prefix, from, count).len() == count,
        forall|text: Seq<char>| #[trigger]
            numbered_texts(prefix, from, count).contains(text) ==> exists|k: nat|
                from <= k < from + count && text == #[trigger] numbered(prefix, k),
    decreases count,
{
    if count > 0 {
        let shorter = numbered_texts(prefix, from, (count - 1) as nat);
        let last = (from + count - 1) as nat;
        lemma_numbered_texts(prefix, from, (count - 1) as nat);
        if shorter.contains(numbered(prefix, last)) {
            let k = choose|k: nat|
                from <= k < from + count - 1 && numbered(prefix, last) == #[trigger] numbered(
                    prefix,
                    k,
                );
            lemma_numbered_is_injective(prefix, last, k);
        }
        assert forall|text: Seq<char>| #[trigger]
            numbered_texts(prefix, from, count).contains(text) implies exists|k: nat|
            from <= k < from + count && text == #[trigger] numbered(prefix, k) by {
            if text == numbered(prefix, last) {
                assert(from <= last < from + count);
            } else {
                assert(shorter.contains(text));
                let k = choose|k: nat|
                    from <= k < from + count - 1 && text == #[trigger] numbered(prefix, k);
                assert(from <= k < from + count);
            }
        }
    }
}

/// Every number that was passed over is taken.
proof fn lemma_passed_numbers(
    taken: Seq<Seq<char>>,
    prefix: Seq<char>,
    from: nat,
    tries: nat,
)
    ensures
        from <= free_number(taken, prefix, from, tries) <= from + tries,
        forall|k: nat|
            from <= k < free_number(taken, prefix, from, tries) ==> taken.contains(
                #[trigger] numbered(prefix, k),
            ),
        free_number(taken, prefix, from, tries) < from + tries ==> !taken.contains(
            numbered(prefix, free_number(taken, prefix, from, tries)),
        ),
    decreases tries,
{
    if tries > 0 && taken.contains(numbered(prefix, from)) {
        lemma_passed_numbers(taken, prefix, from + 1, (tries - 1) as nat);
    }
}

/// With as many tries as names are taken, the number that is found is free.
pub proof fn law_free_number_is_free(taken: Seq<Seq<char>>, prefix: Seq<char>, from: nat)
    ensures
        !taken.contains(numbered(prefix, free_number(taken, prefix, from, taken.len()))),
{
    let found = free_number(taken, prefix, from, taken.len());
    lemma_passed_numbers(taken, prefix, from, taken.len());
    if taken.contains(numbered(prefix, found)) {
        let count = taken.len() + 1;
        let texts = numbered_texts(prefix, from, count);
        lemma_numbered_texts(prefix, from, count);
        assert(texts.subset_of(taken.to_set())) by {
            assert forall|text: Seq<char>| #[trigger] texts.contains(text) implies taken.to_set().contains(
                text,
            ) by {
                let k = choose|k: nat|
                    from <= k < from + count && text == #[trigger] numbered(prefix, k);
                assert(taken.contains(numbered(prefix, k)));
            }
        }
        taken.lemma_cardinality_of_set();
        vstd::set_lib::lemma_len_subset(texts, taken.to_set());
    }
}

/// Name that is reserved for a preferred one: the name itself, or the name with the first
/// free number from two on.
pub open spec fn unique_name(taken: Seq<Seq<char>>, preferred: Seq<char>) -> Seq<char> {
    if !taken.contains(preferred) {
        preferred
    } else {
        numbered(
            preferred + "-"@,
            free_number(taken, preferred + "-"@, 2, taken.len()),
        )
    }
}

/// Returns whether the list holds the text.
pub fn holds_name(names: &Vec<String>, name: &str) -> (out: bool)
    ensures
        out == text_views(names@).contains(name@),
{
    let ghost all = text_views(names@);
    let mut i: usize = 0;
    while i < names.len()
        invariant
            i <= names@.len(),
            all == text_views(names@),
            forall|k: int| #![trigger all[k]] 0 <= k < i ==> all[k] != name@,
        decreases names@.len() - i,
    {
        proof { assert(all[i as int] == names@[i as int]@); }
        if same_text(names[i].as_str(), name) {
            return true;
        }
        i += 1;
    }
    false
}

/// Returns the text of the first free number.
pub fn first_free_name(names: &Vec<String>, prefix: &str, from: u64) -> (out: String)
    requires
        from + names@.len() <= u64::MAX,
    ensures
        out@ == numbered(
            prefix@,
            free_number(text_views(names@), prefix@, from as nat, names@.len()),
        ),
{
    let ghost all = text_views(names@);
    let mut number: u64 = from;
    let mut tries: usize = names.len();
    loop
        invariant
            all == text_views(names@),
            from <= number,
            number + tries == from + names@.len(),
            from + names@.len() <= u64::MAX,
            free_number(all, prefix@, number as nat, tries as nat) == free_number(
                all,
                prefix@,
                from as nat,
                names@.len(),
            ),
        decreases tries,
    {
        let mut name = String::new();
        push_text(&mut name, prefix);
        push_decimal(&mut name, number);
        proof { assert(name@ =~= numbered(prefix@, number as nat)); }
        if tries == 0 || !holds_name(names, name.as_str()) {
            return name;
        }
        number += 1;
        tries -= 1;
    }
}

/// Reserves one unique group name, appending a numeric suffix when needed.
pub fn reserve_unique_group_name(names: &Vec<String>, preferred: &str) -> (out: String)
    requires
        names@.len() + 2 <= u32::MAX,
    ensures
        out@ == unique_name(text_views(names@), preferred@),
{
    if !holds_name(names, preferred) {
        let mut out = String::new();
        push_text(&mut out, preferred);
        proof { assert(out@ =~= preferred@); }
        return out;
    }
    let mut prefix = String::new();
    push_text(&mut prefix, preferred);
    push_text(&mut prefix, "-");
    proof { assert(prefix@ =~= preferred@ + "-"@); }
    first_free_name(names, prefix.as_str(), 2)
}

/// A reserved name is not taken.
pub proof fn law_unique_name_is_free(taken: Seq<Seq<char>>, preferred: Seq<char>)
    ensures
        !taken.contains(unique_name(taken, preferred)),
{
    law_free_number_is_free(taken, preferred + "-"@, 2);
}

/// Groups that some wished names make: without empty ones, each name once.
pub open spec fn named_groups(wished: Seq<Seq<char>>) -> Seq<Seq<char>>
    decreases wished.len(),
{
    if wished.len() == 0 {
        Seq::empty()
    } else {
        let rest = named_groups(wished.drop_last());
        let name = trimmed(wished.last());
        if name.len() == 0 {
            rest
        } else {
            rest.push(unique_name(rest, name))
        }
    }
}

/// Some groups, filled up to two with numbered ones.
pub open spec fn filled_groups(groups: Seq<Seq<char>>) -> Seq<Seq<char>>
    decreases 2 - groups.len(),
{
    if groups.len() >= 2 {
        groups
    } else {
        filled_groups(
            groups.push(unique_name(groups, numbered("group-"@, (groups.len() + 1) as nat))),
        )
    }
}

/// Builds initial split group names from defaults while enforcing non-empty unique names.
pub fn sanitize_initial_group_names(wished: &[String]) -> (out: Vec<String>)
    requires
        wished@.len() + 4 <= u32::MAX,
    ensures
        text_views(out@) == filled_groups(named_groups(text_views(wished@))),
        2 <= out@.len() <= wished@.len() + 2,
{
    let ghost all = text_views(wished@);
    let mut groups: Vec<String> = Vec::new();
    let mut i: usize = 0;
    proof {
        assert(all.take(0) =~= Seq::<Seq<char>>::empty());
        assert(text_views(groups@) =~= Seq::<Seq<char>>::empty());
    }
    while i < wished.len()
        invariant
            i <= wished@.len(),
            wished@.len() + 4 <= u32::MAX,
            all == text_views(wished@),
            groups@.len() <= i,
            text_views(groups@) == named_groups(all.take(i as int)),
        decreases wished@.len() - i,
    {
        proof {
            assert(all.take(i + 1).drop_last() =~= all.take(i as int));
            assert(all.take(i + 1).last() == wished@[i as int]@);
        }
        let name = trim_text(wished[i].as_str());
        if chars_of(name.as_str()).len() > 0 {
            let unique = reserve_unique_group_name(&groups, name.as_str());
            let ghost before = groups@;
            let ghost added = unique@;
            groups.push(unique);
            proof { assert(text_views(groups@) =~= text_views(before).push(added)); }
        }
        i += 1;
    }
    proof { assert(all.take(all.len() as int) =~= all); }
    while groups.len() < 2
        invariant
            groups@.len() <= wished@.len() || groups@.len() <= 2,
            wished@.len() + 4 <= u32::MAX,
            filled_groups(text_views(groups@)) == filled_groups(
                named_groups(text_views(wished@)),
            ),
        decreases 2 - groups@.len(),
    {
        let mut fallback = String::new();
        push_text(&mut fallback, "group-");
        push_decimal(&mut fallback, groups.len() as u64 + 1);
        proof {
            assert(fallback@ =~= numbered("group-"@, (groups@.len() + 1) as nat));
        }
        let unique = reserve_unique_group_name(&groups, fallback.as_str());
        let ghost before = groups@;
        let ghost added = unique@;
        groups.push(unique);
        proof { assert(text_views(groups@) =~= text_views(before).push(added)); }
    }
    groups
}

/// Names are distinct and none is empty.
pub open spec fn are_names(names: Seq<Seq<char>>) -> bool {
    &&& names.no_duplicates()
    &&& forall|i: int| #![trigger names[i]] 0 <= i < names.len() ==> names[i].len() > 0
}

/// Adding a reserved name keeps names distinct and non-empty.
pub proof fn lemma_add_name(names: Seq<Seq<char>>, preferred: Seq<char>)
    requires
        are_names(names),
        preferred.len() > 0,
    ensures
        are_names(names.push(unique_name(names, preferred))),
{
    let name = unique_name(names, preferred);
    law_unique_name_is_free(names, preferred);
    let grown = names.push(name);
    assert forall|i: int, j: int|
        0 <= i < grown.len() && 0 <= j < grown.len() && i != j implies grown[i] != grown[j] by {
        if i < names.len() && j == names.len() {
            assert(names[i] == grown[i]);
            assert(names.contains(names[i]));
        }
        if j < names.len() && i == names.len() {
            assert(names[j] == grown[j]);
            assert(names.contains(names[j]));
        }
    }
}

/// The planner starts with at least two groups whose names are distinct and non-empty,
/// whatever names were wished.
pub proof fn law_initial_groups(wished: Seq<Seq<char>>)
    ensures
        are_names(filled_groups(named_groups(wished))),
        filled_groups(named_groups(wished)).len() >= 2,
{
    lemma_named_groups(wished);
    lemma_filled_groups(named_groups(wished));
}

/// Groups of wished names are distinct and non-empty.
proof fn lemma_named_groups(wished: Seq<Seq<char>>)
    ensures
        are_names(named_groups(wished)),
    decreases wished.len(),
{
    if wished.len() > 0 {
        lemma_named_groups(wished.drop_last());
        let rest = named_groups(wished.drop_last());
        let name = trimmed(wished.last());
        if name.len() > 0 {
            lemma_add_name(rest, name);
        }
    }
}

/// Filling up keeps names distinct and non-empty.
proof fn lemma_filled_groups(groups: Seq<Seq<char>>)
    requires
        are_names(groups),
    ensures
        are_names(filled_groups(groups)),
        filled_groups(groups).len() >= 2,
    decreases 2 - groups.len(),
{
    if groups.len() < 2 {
        let fallback = numbered("group-"@, (groups.len() + 1) as nat);
        law_decimal_round_trip((groups.len() + 1) as nat);
        lemma_add_name(groups, fallback);
        lemma_filled_groups(groups.push(unique_name(groups, fallback)));
    }
}

} // verus!
