//! What shown and compared texts look like.

use vstd::prelude::*;

use super::labels::{
    contains_text, fill, joined_texts, lower_chars, push_left, push_right, truncate,
};
use super::names::{free_number, holds_name, named_groups, numbered, unique_name};
use super::planner::text::short_uuid;
use super::planner::SplitPlannerApp;
use super::planner_rules::{group_of, node_text, PlannerView};
use crate::text::{hex_text, trimmed};

verus! {

/// Lower case changes the twenty-six capital letters alone, each to its small one.
pub proof fn law_lower_call(text: &str, out: Vec<char>, i: int)
    requires
        call_ensures(lower_chars, (text,), out),
        0 <= i < text@.len(),
    ensures
        out@.len() == text@.len(),
        'A' <= text@[i] <= 'Z' ==> out@[i] as int == text@[i] as int + 32,
        !('A' <= text@[i] <= 'Z') ==> out@[i] == text@[i],
{
}

/// A text holds another exactly where that stands somewhere in it, letter by letter.
pub proof fn law_contains_call(
    whole: Vec<char>,
    part: Vec<char>,
    before: Seq<char>,
    after: Seq<char>,
    out: bool,
)
    requires
        call_ensures(contains_text, (&whole, &part), out),
    ensures
        whole@ == before + part@ + after ==> out,
        part@.len() > whole@.len() ==> !out,
        out ==> exists|at: int|
            0 <= at && at + part@.len() <= whole@.len() && #[trigger] whole@.subrange(
                at,
                at + part@.len(),
            ) == part@,
{
    if whole@ == before + part@ + after {
        let at = before.len() as int;
        assert(whole@.subrange(at, at + part@.len()) =~= part@);
        assert(super::labels::stands_at(whole@, part@, at));
    }
    if out {
        let at = choose|at: int| #[trigger] super::labels::stands_at(whole@, part@, at);
        assert(whole@.subrange(at, at + part@.len()) == part@);
    }
}

/// A text that fits stays; a longer one is cut to the width and ends with a mark.
pub proof fn law_truncate_call(value: &str, max_len: usize, out: String)
    requires
        call_ensures(truncate, (value, max_len), out),
    ensures
        value@.len() <= max_len ==> out@ == value@,
        value@.len() > max_len ==> out@.last() == '~',
        value@.len() > max_len && max_len > 0 ==> out@.len() == max_len && out@.drop_last()
            == value@.take(max_len - 1),
{
    if value@.len() > max_len && max_len > 0 {
        assert(out@.drop_last() =~= value@.take(max_len - 1));
    }
}

/// A text is filled with spaces up to the width, behind it or before it.
pub proof fn law_fill_calls(
    left: &mut String,
    right: &mut String,
    text: &str,
    width: usize,
    a: (),
    b: (),
)
    requires
        call_ensures(push_left, (left, text, width), a),
        call_ensures(push_right, (right, text, width), b),
    ensures
        ({
            let wide = if text@.len() < width { width as int } else { text@.len() as int };
            let put_left = final(left)@.skip(old(left)@.len() as int);
            let put_right = final(right)@.skip(old(right)@.len() as int);
            &&& final(left)@.take(old(left)@.len() as int) == old(left)@
            &&& final(right)@.take(old(right)@.len() as int) == old(right)@
            &&& put_left.len() == wide && put_right.len() == wide
            &&& put_left.take(text@.len() as int) == text@
            &&& put_right.skip(wide - text@.len()) == text@
            &&& forall|i: int| #![trigger put_left[i]] text@.len() <= i < wide ==> put_left[i] == ' '
            &&& forall|i: int|
                #![trigger put_right[i]]
                0 <= i < wide - text@.len() ==> put_right[i] == ' '
        }),
{
    let wide = if text@.len() < width { width as int } else { text@.len() as int };
    let put_left = final(left)@.skip(old(left)@.len() as int);
    let put_right = final(right)@.skip(old(right)@.len() as int);
    let gap = fill(text@, width as nat);
    assert(put_left =~= text@ + gap);
    assert(put_right =~= gap + text@);
    assert(final(left)@.take(old(left)@.len() as int) =~= old(left)@);
    assert(final(right)@.take(old(right)@.len() as int) =~= old(right)@);
    assert(put_left.take(text@.len() as int) =~= text@);
    assert(put_right.skip(wide - text@.len()) =~= text@);
}

/// A joined list grows by the separator and the next text; a single text stands alone.
pub proof fn law_joining(list: Seq<Seq<char>>, separator: Seq<char>, next: Seq<char>)
    ensures
        joined_texts(Seq::<Seq<char>>::empty(), separator).len() == 0,
        joined_texts(seq![next], separator) == next,
        list.len() > 0 ==> joined_texts(list.push(next), separator) == joined_texts(
            list,
            separator,
        ) + separator + next,
{
    if list.len() > 0 {
        assert(list.push(next).drop_last() =~= list);
    }
}

/// A name is taken exactly where one of the names is it.
pub proof fn law_taken_call(names: Vec<String>, name: &str, out: bool, i: int)
    requires
        call_ensures(holds_name, (&names, name), out),
        0 <= i < names@.len(),
    ensures
        names@[i]@ == name@ ==> out,
        out ==> exists|k: int| #![trigger names@[k]] 0 <= k < names@.len() && names@[k]@ == name@,
{
    let all = super::labels::text_views(names@);
    assert(all[i] == names@[i]@);
    if names@[i]@ == name@ {
        assert(all.contains(name@));
    }
    if out {
        let k = all.index_of(name@);
        assert(all[k] == names@[k]@);
    }
}

/// A wished name is kept where it is free and gets a number otherwise; names are wished in
/// turn, blanks around them do not count, and empty ones are passed over.
pub proof fn law_wished_names(taken: Seq<Seq<char>>, wished: Seq<Seq<char>>, name: Seq<char>)
    ensures
        !taken.contains(name) ==> unique_name(taken, name) == name,
        taken.contains(name) ==> unique_name(taken, name) != name && unique_name(
            taken,
            name,
        ).take(name.len() as int) == name,
        trimmed(name).len() == 0 ==> named_groups(wished.push(name)) == named_groups(wished),
        trimmed(name).len() > 0 ==> named_groups(wished.push(name)).len() == named_groups(
            wished,
        ).len() + 1,
        trimmed(name).len() > 0 && !named_groups(wished).contains(trimmed(name)) ==> named_groups(
            wished.push(name),
        ).last() == trimmed(name),
{
    assert(wished.push(name).drop_last() =~= wished);
    if taken.contains(name) {
        let chosen = unique_name(taken, name);
        reveal_strlit("-");
        assert(chosen.take(name.len() as int) =~= name);
        assert(chosen.len() > name.len());
    }
}

/// The number that is tried first is taken where it is free, and otherwise the next one is
/// tried.
pub proof fn law_numbers_are_tried_in_turn(
    taken: Seq<Seq<char>>,
    prefix: Seq<char>,
    from: nat,
    tries: nat,
)
    ensures
        free_number(taken, prefix, from, tries) >= from,
        !taken.contains(numbered(prefix, from)) ==> free_number(taken, prefix, from, tries) == from,
        tries > 0 && taken.contains(numbered(prefix, from)) ==> free_number(
            taken,
            prefix,
            from,
            tries,
        ) > from,
        numbered(prefix, from).take(prefix.len() as int) == prefix,
    decreases tries,
{
    if tries > 0 && taken.contains(numbered(prefix, from)) {
        law_numbers_are_tried_in_turn(taken, prefix, from + 1, (tries - 1) as nat);
    }
    assert(numbered(prefix, from).take(prefix.len() as int) =~= prefix);
}

/// The visible rows begin at the scroll place, are at most as many as asked for and never
/// pass the shown ones, and the selected line counts from the first of them.
pub proof fn law_visible_calls(
    planner: SplitPlannerApp,
    rows: usize,
    range: (usize, usize),
    line: Option<usize>,
)
    requires
        call_ensures(SplitPlannerApp::visible_range, (&planner, rows), range),
        call_ensures(SplitPlannerApp::selected_line, (&planner, rows), line),
        planner@.selected - planner@.scroll <= usize::MAX,
    ensures
        range.0 == planner@.scroll,
        range.1 <= planner@.filtered.len(),
        range.1 - range.0 <= rows,
        range.1 - range.0 == rows || range.1 == planner@.filtered.len(),
        line is Some <==> range.0 <= planner@.selected < range.1,
        line matches Some(at) ==> range.0 + at == planner@.selected,
{
}

/// A short identity is the first eight letters of the long one.
pub proof fn law_short_identity_call(value: u128, out: String)
    requires
        call_ensures(short_uuid, (value,), out),
    ensures
        out@ == node_text(value).take(8),
{
}

/// The line of a group marks the active one alone.
pub proof fn law_group_lines(view: PlannerView, group: int)
    requires
        0 <= group < view.group_names.len(),
    ensures
        view.group_lines().len() == view.group_names.len(),
        view.group_lines()[group][0] == '*' <==> group == view.active_group,
{
    reveal_strlit("*");
    reveal_strlit(" ");
}

/// The row of a node begins with the number of its group, counted from one.
pub proof fn law_rows_name_their_group(view: PlannerView, i: int, memory: Seq<char>)
    requires
        0 <= i < view.candidates.len(),
        0 <= group_of(view.assignments, view.candidates[i].node_id) < 9,
    ensures
        view.row_text(view.candidates[i], memory).len() > 3,
        view.row_text(view.candidates[i], memory)[0] == '[',
        view.row_text(view.candidates[i], memory)[1] == ' ',
        view.row_text(view.candidates[i], memory)[2] as int == '1' as int + group_of(
            view.assignments,
            view.candidates[i].node_id,
        ),
        view.row_text(view.candidates[i], memory)[3] == ':',
{
    let group = group_of(view.assignments, view.candidates[i].node_id);
    reveal_strlit("[");
    reveal_strlit(":");
    reveal_strlit("] ");
    reveal_strlit(" ");
    crate::text_laws::law_decimal_digits(0, (group + 1) as nat, 0);
    let number = crate::text::decimal_text((group + 1) as nat);
    assert(fill(number, 2).len() == 1);
}

/// A number in base sixteen has as many letters as it is wide.
proof fn lemma_hex_letters(n: nat, width: nat)
    ensures
        hex_text(n, width).len() == width,
    decreases width,
{
    if width > 0 {
        lemma_hex_letters(n / 16, (width - 1) as nat);
    }
}

/// An identity is shown as its thirty-two digits in base sixteen, in five groups with a
/// hyphen between them.
pub proof fn law_shown_identities(node_id: u128, i: int)
    requires
        0 <= i < 32,
    ensures
        node_text(node_id).len() == 36,
        node_text(node_id)[8] == '-',
        node_text(node_id)[13] == '-',
        node_text(node_id)[18] == '-',
        node_text(node_id)[23] == '-',
        node_text(node_id)[if i < 8 {
            i
        } else if i < 12 {
            i + 1
        } else if i < 16 {
            i + 2
        } else if i < 20 {
            i + 3
        } else {
            i + 4
        }] == hex_text(node_id as nat, 32)[i],
{
    lemma_hex_letters(node_id as nat, 32);
}

} // verus!
