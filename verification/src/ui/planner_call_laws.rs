//! What a user of the planner sees after each input.

use vstd::prelude::*;

use super::labels::{holds_text, lowered};
use super::names::law_free_number_is_free;
use super::planner::{target_views, InteractiveSplitSelection, SplitCandidateList, SplitPlannerApp};
use super::planner_laws::{lemma_empty_group, lemma_neighbor};
use super::planner_rules::{
    area_holds, dealt, group_of, group_size, has_node, is_shown, members, shown_places,
    CandidateView, FocusPane, MouseAction, PlannerKey, PlannerView,
};
use crate::text::trimmed;

verus! {

/// Everything but the selection is as it was.
pub open spec fn keeps_all_but_selection(before: PlannerView, after: PlannerView) -> bool {
    after == (PlannerView { selected: after.selected, ..before })
}

/// Everything but the groups of nodes is as it was.
pub open spec fn keeps_all_but_assignments(before: PlannerView, after: PlannerView) -> bool {
    after == (PlannerView { assignments: after.assignments, ..before })
}

/// Dealing gives each node the group of its place, counted round.
proof fn lemma_dealt_places(candidates: Seq<CandidateView>, count: nat, i: int)
    requires
        0 < count <= usize::MAX,
        0 <= i < candidates.len(),
        forall|a: int, b: int|
            #![trigger candidates[a], candidates[b]]
            0 <= a < b < candidates.len() ==> candidates[a].node_id != candidates[b].node_id,
    ensures
        dealt(candidates, count).contains_key(candidates[i].node_id),
        dealt(candidates, count)[candidates[i].node_id] == i % (count as int),
    decreases candidates.len(),
{
    let rest = candidates.drop_last();
    let end = candidates.len() - 1;
    if i < end {
        assert forall|a: int, b: int|
            #![trigger rest[a], rest[b]]
            0 <= a < b < rest.len() implies rest[a].node_id != rest[b].node_id by {
            assert(candidates[a].node_id != candidates[b].node_id);
        }
        assert(rest[i] == candidates[i]);
        lemma_dealt_places(rest, count, i);
        assert(candidates[i].node_id != candidates[end].node_id);
    } else {
        vstd::arithmetic::div_mod::lemma_mod_bound(i, count as int);
    }
}

/// Opening deals the nodes round the groups, one by one, shows them all and confirms
/// nothing.
pub proof fn law_opening_call(
    payload: SplitCandidateList,
    names: &[String],
    out: SplitPlannerApp,
    i: int,
)
    requires
        call_ensures(SplitPlannerApp::new, (payload, names), out),
        0 <= i < out@.candidates.len(),
        out@.group_names.len() <= usize::MAX,
        forall|a: int, b: int|
            #![trigger out@.candidates[a], out@.candidates[b]]
            0 <= a < b < out@.candidates.len() ==> out@.candidates[a].node_id
                != out@.candidates[b].node_id,
    ensures
        out@.group_names.len() >= 2,
        out@.assignments.contains_key(out@.candidates[i].node_id),
        out@.assignments[out@.candidates[i].node_id] == i % (out@.group_names.len() as int),
        !out@.confirmed,
        !out@.done,
        out@.active_group == 0,
        out@.query.len() == 0,
        out@.source_view == payload.source_view@,
{
    lemma_dealt_places(out@.candidates, out@.group_names.len(), i);
}

/// The selection moves by one row and stops at the ends.
pub proof fn law_selection_call(planner: &mut SplitPlannerApp, down: bool, out: ())
    requires
        call_ensures(SplitPlannerApp::move_selection, (planner, down), out),
        old(planner)@.is_usable(),
    ensures
        keeps_all_but_selection(old(planner)@, final(planner)@),
        down && old(planner)@.selected + 1 < old(planner)@.filtered.len()
            ==> final(planner)@.selected == old(planner)@.selected + 1,
        down && old(planner)@.selected + 1 >= old(planner)@.filtered.len()
            ==> final(planner)@.selected == old(planner)@.selected,
        !down && old(planner)@.selected > 0 ==> final(planner)@.selected
            == old(planner)@.selected - 1,
        !down && old(planner)@.selected == 0 ==> final(planner)@.selected == 0,
{
}

/// Assigning puts the selected node in the group and moves no other; a group that does not
/// exist takes none.
pub proof fn law_assign_calls(
    planner: &mut SplitPlannerApp,
    group: usize,
    out: (),
    other: u128,
)
    requires
        old(planner)@.group_names.len() <= usize::MAX,
        old(planner)@.is_usable(),
    ensures
        ({
            let before = old(planner)@;
            let after = final(planner)@;
            &&& call_ensures(
                SplitPlannerApp::assign_selected_to_group,
                (planner, group),
                out,
            ) ==> {
                &&& keeps_all_but_assignments(before, after)
                &&& group >= before.group_names.len() ==> after == before
                &&& group < before.group_names.len() && before.current() is Some ==> group_of(
                    after.assignments,
                    before.current()->0.node_id,
                ) == group && (other != before.current()->0.node_id ==> group_of(
                    after.assignments,
                    other,
                ) == group_of(before.assignments, other))
            }
            &&& call_ensures(
                SplitPlannerApp::assign_selected_to_active_group,
                (planner,),
                out,
            ) ==> {
                &&& keeps_all_but_assignments(before, after)
                &&& before.current() is Some ==> group_of(
                    after.assignments,
                    before.current()->0.node_id,
                ) == before.active_group && (other != before.current()->0.node_id ==> group_of(
                    after.assignments,
                    other,
                ) == group_of(before.assignments, other))
            }
        }),
{
}

/// Cycling moves the selected node to the next group, or the one before, round the ends.
pub proof fn law_cycle_call(planner: &mut SplitPlannerApp, forward: bool, out: ())
    requires
        call_ensures(SplitPlannerApp::cycle_selected_group, (planner, forward), out),
        old(planner)@.is_usable(),
        old(planner)@.group_names.len() <= usize::MAX,
        old(planner)@.current() is Some,
    ensures
        ({
            let node = old(planner)@.current()->0.node_id;
            let count = old(planner)@.group_names.len() as int;
            let from = group_of(old(planner)@.assignments, node);
            let to = group_of(final(planner)@.assignments, node);
            &&& keeps_all_but_assignments(old(planner)@, final(planner)@)
            &&& forward && from + 1 < count ==> to == from + 1
            &&& forward && from + 1 == count ==> to == 0
            &&& !forward && from > 0 ==> to == from - 1
            &&& !forward && from == 0 ==> to == count - 1
        }),
{
    let view = old(planner)@;
    let from = group_of(view.assignments, view.current()->0.node_id);
    super::planner_laws::lemma_group_exists(view, view.current()->0.node_id);
    lemma_neighbor(from, view.group_names.len() as int, forward);
}

/// The active group moves by one round the ends, and nothing else changes.
pub proof fn law_active_group_call(planner: &mut SplitPlannerApp, forward: bool, out: ())
    requires
        call_ensures(SplitPlannerApp::move_active_group, (planner, forward), out),
        old(planner)@.is_usable(),
    ensures
        ({
            let count = old(planner)@.group_names.len() as int;
            let from = old(planner)@.active_group;
            let to = final(planner)@.active_group;
            &&& final(planner)@ == (PlannerView { active_group: to, ..old(planner)@ })
            &&& forward && from + 1 < count ==> to == from + 1
            &&& forward && from + 1 == count ==> to == 0
            &&& !forward && from > 0 ==> to == from - 1
            &&& !forward && from == 0 ==> to == count - 1
        }),
{
    lemma_neighbor(old(planner)@.active_group, old(planner)@.group_names.len() as int, forward);
}

/// A created group comes last under a name that no group had, is the active one, and holds
/// no node yet.
pub proof fn law_create_call(planner: &mut SplitPlannerApp, out: (), node_id: u128)
    requires
        call_ensures(SplitPlannerApp::create_group, (planner,), out),
        old(planner)@.is_usable(),
    ensures
        ({
            let before = old(planner)@;
            let after = final(planner)@;
            &&& after.group_names.len() == before.group_names.len() + 1
            &&& after.group_names.drop_last() == before.group_names
            &&& !before.group_names.contains(after.group_names.last())
            &&& after.active_group == before.group_names.len()
            &&& after.focus == FocusPane::Groups
            &&& after.assignments == before.assignments
            &&& has_node(before.candidates, node_id) ==> group_of(after.assignments, node_id)
                < after.active_group
            &&& !after.done || before.done
        }),
{
    let before = old(planner)@;
    law_free_number_is_free(
        before.group_names,
        "group-"@,
        (before.group_names.len() + 1) as nat,
    );
    assert(final(planner)@.group_names.drop_last() =~= before.group_names);
}

/// A rename gives the active group the trimmed input, unless that is empty or another group
/// has it; then no name changes and the input stays open.
pub proof fn law_rename_call(planner: &mut SplitPlannerApp, out: (), i: int)
    requires
        call_ensures(SplitPlannerApp::apply_group_rename, (planner,), out),
        old(planner)@.is_usable(),
        0 <= i < old(planner)@.group_names.len(),
    ensures
        ({
            let before = old(planner)@;
            let after = final(planner)@;
            let name = trimmed(before.rename_input);
            let taken = exists|k: int|
                #![trigger before.group_names[k]]
                0 <= k < before.group_names.len() && k != before.active_group
                    && before.group_names[k] == name;
            &&& after.group_names.len() == before.group_names.len()
            &&& i != before.active_group ==> after.group_names[i] == before.group_names[i]
            &&& name.len() > 0 && !taken ==> after.group_names[before.active_group] == name
                && !after.rename_mode
            &&& name.len() == 0 || taken ==> after.group_names == before.group_names
                && after.rename_mode == before.rename_mode && after.rename_input
                == before.rename_input
            &&& after.assignments == before.assignments
            &&& after.confirmed == before.confirmed
        }),
{
}

/// A group is deleted exactly where more than two are there and it holds no node; its name
/// alone goes.
pub proof fn law_delete_call(planner: &mut SplitPlannerApp, out: (), i: int, node_id: u128)
    requires
        call_ensures(SplitPlannerApp::delete_active_group, (planner,), out),
        old(planner)@.is_usable(),
        0 <= i < old(planner)@.group_names.len(),
    ensures
        ({
            let before = old(planner)@;
            let after = final(planner)@;
            let at = before.active_group;
            let gone = after.group_names.len() < before.group_names.len();
            &&& gone ==> before.group_names.len() > 2 && after.group_names.len() + 1
                == before.group_names.len()
            &&& gone && has_node(before.candidates, node_id) ==> group_of(
                before.assignments,
                node_id,
            ) != at
            &&& gone && i < at ==> after.group_names[i] == before.group_names[i]
            &&& gone && i > at ==> after.group_names[i - 1] == before.group_names[i]
            &&& !gone ==> after.group_names == before.group_names && after.assignments
                == before.assignments
            &&& before.group_names.len() <= 2 ==> !gone
            &&& after.confirmed == before.confirmed && after.done == before.done
        }),
{
    let before = old(planner)@;
    let at = before.active_group;
    if group_size(before.candidates, before.assignments, at) == 0 && has_node(
        before.candidates,
        node_id,
    ) {
        lemma_empty_group(before.candidates, before.assignments, at, node_id);
    }
}

/// A group with a node has a positive size.
proof fn lemma_counted(
    candidates: Seq<CandidateView>,
    assignments: Map<u128, usize>,
    group: int,
)
    ensures
        group_size(candidates, assignments, group) > 0 <==> exists|i: int|
            #![trigger candidates[i]]
            0 <= i < candidates.len() && group_of(assignments, candidates[i].node_id) == group,
        group_size(candidates, assignments, group) <= candidates.len(),
    decreases candidates.len(),
{
    if candidates.len() > 0 {
        let rest = candidates.drop_last();
        let end = candidates.len() - 1;
        lemma_counted(rest, assignments, group);
        if group_size(rest, assignments, group) > 0 {
            let i = choose|i: int|
                #![trigger rest[i]]
                0 <= i < rest.len() && group_of(assignments, rest[i].node_id) == group;
            assert(candidates[i] == rest[i]);
        }
        if exists|i: int|
            #![trigger candidates[i]]
            0 <= i < candidates.len() && group_of(assignments, candidates[i].node_id) == group {
            let i = choose|i: int|
                #![trigger candidates[i]]
                0 <= i < candidates.len() && group_of(assignments, candidates[i].node_id)
                    == group;
            if i < end {
                assert(rest[i] == candidates[i]);
            }
        }
        assert(candidates[end] == candidates.last());
    }
}

/// A split is confirmed exactly where every group has a node, and a refused one stays open.
pub proof fn law_confirm_call(planner: &mut SplitPlannerApp, out: (), group: int)
    requires
        call_ensures(SplitPlannerApp::confirm, (planner,), out),
        old(planner)@.is_usable(),
        0 <= group < old(planner)@.group_names.len(),
        !old(planner)@.confirmed,
        !old(planner)@.done,
    ensures
        ({
            let before = old(planner)@;
            let after = final(planner)@;
            &&& after.done == after.confirmed
            &&& after.confirmed ==> exists|i: int|
                #![trigger before.candidates[i]]
                0 <= i < before.candidates.len() && group_of(
                    before.assignments,
                    before.candidates[i].node_id,
                ) == group
            &&& (forall|g: int|
                0 <= g < before.group_names.len() ==> #[trigger] group_size(
                    before.candidates,
                    before.assignments,
                    g,
                ) > 0) ==> after.confirmed
            &&& after.assignments == before.assignments
            &&& after.group_names == before.group_names
        }),
{
    let before = old(planner)@;
    lemma_counted(before.candidates, before.assignments, group);
    if final(planner)@.confirmed {
        assert(group_size(before.candidates, before.assignments, group) != 0);
    }
}

/// The shown rows are the places of exactly the candidates that match.
proof fn lemma_rows(candidates: Seq<CandidateView>, query: Seq<char>, i: int)
    requires
        0 <= i < candidates.len(),
    ensures
        shown_places(candidates, query).contains(i) <==> is_shown(candidates[i], query),
    decreases candidates.len(),
{
    let rest = candidates.drop_last();
    let before = shown_places(rest, query);
    let all = shown_places(candidates, query);
    let end = candidates.len() - 1;
    if i < end {
        assert(rest[i] == candidates[i]);
        lemma_rows(rest, query, i);
        if before.contains(i) {
            let k = before.index_of(i);
            assert(all[k] == i);
        }
        if all.contains(i) {
            let k = all.index_of(i);
            if k < before.len() {
                assert(before[k] == i);
            }
        }
    } else {
        if is_shown(candidates[i], query) {
            assert(all[before.len() as int] == i);
        } else if all.contains(i) {
            let k = all.index_of(i);
            super::planner::lemma_shown_places(rest, query);
            assert(before[k] == i);
        }
    }
}

/// A filter shows exactly the candidates that match it; all of them match an empty one, and
/// one matches where its host name holds the query in any case of letters.
pub proof fn law_filter_call(planner: &mut SplitPlannerApp, out: (), i: int)
    requires
        call_ensures(SplitPlannerApp::refresh_filter, (planner,), out),
        0 <= i < old(planner)@.candidates.len(),
    ensures
        ({
            let before = old(planner)@;
            let after = final(planner)@;
            let candidate = before.candidates[i];
            &&& after.filtered.contains(i) <==> is_shown(candidate, before.query)
            &&& before.query.len() == 0 ==> after.filtered.contains(i)
            &&& holds_text(lowered(candidate.hostname), lowered(before.query))
                ==> after.filtered.contains(i)
            &&& after.assignments == before.assignments
            &&& after.group_names == before.group_names
            &&& after.query == before.query
        }),
{
    lemma_rows(old(planner)@.candidates, old(planner)@.query, i);
}

/// Outside of typing, the letters and the arrows agree, escape is the letter that leaves,
/// tab changes the pane alone, and a digit assigns the group of its place.
pub proof fn law_keys_agree(view: PlannerView, c: char)
    requires
        !view.rename_mode,
        !view.search_mode,
        view.is_usable(),
        view.group_names.len() <= usize::MAX,
    ensures
        view.after_key(PlannerKey::Up) == view.after_key(PlannerKey::Char('k')),
        view.after_key(PlannerKey::Down) == view.after_key(PlannerKey::Char('j')),
        view.after_key(PlannerKey::Left) == view.after_key(PlannerKey::Char('h')),
        view.after_key(PlannerKey::Right) == view.after_key(PlannerKey::Char('l')),
        view.after_key(PlannerKey::Esc) == view.after_key(PlannerKey::Char('q')),
        view.after_key(PlannerKey::Char(' ')) == view.after_key(PlannerKey::Char('a')),
        view.after_key(PlannerKey::Esc).done && !(view.after_key(PlannerKey::Esc).confirmed
            && !view.confirmed),
        view.after_key(PlannerKey::Tab).focus != view.focus,
        view.after_key(PlannerKey::Tab).after_key(PlannerKey::Tab) == view,
        view.after_key(PlannerKey::Char(']')).after_key(PlannerKey::Char('[')) == view,
        view.after_key(PlannerKey::Char('/')).search_mode,
        view.after_key(PlannerKey::Char('r')).rename_mode,
        view.after_key(PlannerKey::Char('r')).rename_input == view.group_names[view.active_group],
        view.after_key(PlannerKey::Char('c')).query.len() == 0,
        view.focus == FocusPane::Nodes ==> view.after_key(PlannerKey::Down).active_group
            == view.active_group,
        view.focus == FocusPane::Groups ==> view.after_key(PlannerKey::Down).selected
            == view.selected,
        '1' <= c <= '9' && (c as int - '1' as int) < view.group_names.len() && view.current() is Some
            ==> group_of(
            view.after_key(PlannerKey::Char(c)).assignments,
            view.current()->0.node_id,
        ) == c as int - '1' as int,
{
    let count = view.group_names.len() as int;
    lemma_neighbor(view.active_group, count, true);
    let next = view.after_key(PlannerKey::Char(']'));
    lemma_neighbor(next.active_group, count, false);
}

/// While typing, a letter is added at the end and backspace takes the last one away.
pub proof fn law_typing(view: PlannerView, c: char)
    ensures
        view.rename_mode ==> {
            &&& view.after_key(PlannerKey::Char(c)).rename_input == view.rename_input.push(c)
            &&& view.after_key(PlannerKey::Char(c)).after_key(PlannerKey::Backspace).rename_input
                == view.rename_input
            &&& !view.after_key(PlannerKey::Esc).rename_mode
            &&& view.after_key(PlannerKey::Esc).group_names == view.group_names
        },
        !view.rename_mode && view.search_mode ==> {
            &&& view.after_key(PlannerKey::Char(c)).query == view.query.push(c)
            &&& view.after_key(PlannerKey::Char(c)).after_key(PlannerKey::Backspace).query
                == view.query
            &&& !view.after_key(PlannerKey::Esc).search_mode
            &&& !view.after_key(PlannerKey::Enter).search_mode
            &&& view.after_key(PlannerKey::Enter).query == view.query
        },
{
    assert(view.rename_input.push(c).drop_last() =~= view.rename_input);
    assert(view.query.push(c).drop_last() =~= view.query);
}

/// The mouse over a row selects it, and a click also assigns it to the active group; over a
/// group it makes that group active; elsewhere it changes nothing.
pub proof fn law_mouse_call(
    planner: &mut SplitPlannerApp,
    action: MouseAction,
    column: u16,
    row: u16,
    out: (),
)
    requires
        call_ensures(SplitPlannerApp::on_mouse, (planner, action, column, row), out),
        old(planner)@.is_usable(),
        old(planner)@.scroll >= 0,
        old(planner)@.group_names.len() <= usize::MAX,
    ensures
        ({
            let before = old(planner)@;
            let after = final(planner)@;
            let place = before.scroll + row - before.list_area.y;
            let on_row = area_holds(before.list_area, column, row) && place
                < before.filtered.len();
            let on_group = area_holds(before.group_area, column, row) && row
                - before.group_area.y < before.group_names.len();
            &&& action == MouseAction::Other ==> after == before
            &&& !on_row && !on_group ==> after == before
            &&& action != MouseAction::Other && on_row ==> after.selected == place
            &&& action == MouseAction::Moved ==> after.assignments == before.assignments
            &&& action == MouseAction::LeftDown && on_row && after.current() is Some ==> group_of(
                after.assignments,
                after.current()->0.node_id,
            ) == before.active_group
            &&& action != MouseAction::Other && on_group ==> after.active_group == row
                - before.group_area.y && after.focus == FocusPane::Groups
            &&& !on_group ==> after.active_group == before.active_group
            &&& after.confirmed == before.confirmed && after.done == before.done
        }),
{
}

/// A confirmed split hands out one target for each group, with its name and exactly the
/// nodes of the group by rising number; any other hands out none and says so.
pub proof fn law_outcome_call(planner: SplitPlannerApp, out: InteractiveSplitSelection, group: int)
    requires
        call_ensures(SplitPlannerApp::outcome, (&planner,), out),
    ensures
        out.cancelled <==> !planner@.confirmed,
        out.cancelled ==> out.targets@.len() == 0,
        !out.cancelled ==> out.targets@.len() == planner@.group_names.len(),
        !out.cancelled && 0 <= group < out.targets@.len() ==> {
            let target = out.targets@[group];
            &&& target.name@ == planner@.group_names[group]
            &&& forall|i: int, j: int|
                #![trigger target.node_ids@[i], target.node_ids@[j]]
                0 <= i < j < target.node_ids@.len() ==> target.node_ids@[i] <= target.node_ids@[j]
            &&& target.node_ids@.len() == group_size(
                planner@.candidates,
                planner@.assignments,
                group,
            )
            &&& forall|i: int|
                #![trigger target.node_ids@[i]]
                0 <= i < target.node_ids@.len() ==> group_of(
                    planner@.assignments,
                    target.node_ids@[i],
                ) == group && has_node(planner@.candidates, target.node_ids@[i])
        },
{
    if !out.cancelled && 0 <= group < out.targets@.len() {
        let target = out.targets@[group];
        let own = members(planner@.candidates, planner@.assignments, group);
        assert(target_views(out.targets@)[group] == target@);
        assert(planner@.is_target(group, target_views(out.targets@)[group]));
        lemma_group_members(planner@.candidates, planner@.assignments, group);
        target.node_ids@.to_multiset_ensures();
        own.to_multiset_ensures();
        assert forall|i: int|
            #![trigger target.node_ids@[i]]
            0 <= i < target.node_ids@.len() implies group_of(
            planner@.assignments,
            target.node_ids@[i],
        ) == group && has_node(planner@.candidates, target.node_ids@[i]) by {
            assert(target.node_ids@.contains(target.node_ids@[i]));
            assert(target.node_ids@.to_multiset().count(target.node_ids@[i]) > 0);
            assert(own.to_multiset().count(target.node_ids@[i]) > 0);
            assert(own.contains(target.node_ids@[i]));
            let k = own.index_of(target.node_ids@[i]);
            assert(own[k] == target.node_ids@[i]);
        }
    }
}

/// The members of a group are its nodes, as many as the group has.
proof fn lemma_group_members(
    candidates: Seq<CandidateView>,
    assignments: Map<u128, usize>,
    group: int,
)
    ensures
        members(candidates, assignments, group).len() == group_size(candidates, assignments, group),
        forall|i: int|
            #![trigger members(candidates, assignments, group)[i]]
            0 <= i < members(candidates, assignments, group).len() ==> group_of(
                assignments,
                members(candidates, assignments, group)[i],
            ) == group && has_node(candidates, members(candidates, assignments, group)[i]),
    decreases candidates.len(),
{
    if candidates.len() > 0 {
        let low = candidates.drop_last();
        lemma_group_members(low, assignments, group);
        let own = members(candidates, assignments, group);
        let rest = members(low, assignments, group);
        assert forall|i: int| #![trigger own[i]] 0 <= i < own.len() implies group_of(
            assignments,
            own[i],
        ) == group && has_node(candidates, own[i]) by {
            if i < rest.len() {
                assert(own[i] == rest[i]);
                let k = choose|k: int|
                    #![trigger low[k]]
                    0 <= k < low.len() && low[k].node_id == rest[i];
                assert(candidates[k].node_id == own[i]);
            } else {
                assert(candidates[candidates.len() - 1].node_id == own[i]);
            }
        }
    }
}

} // verus!
