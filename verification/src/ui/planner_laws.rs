//! What holds of the planner whatever is typed.

use vstd::prelude::*;

use super::names::{
    are_names, filled_groups, law_free_number_is_free, law_initial_groups, named_groups,
};
use super::planner::{lemma_row_of_node, lemma_shown_places};
use super::planner_rules::{
    dealt, group_of, group_size, has_node, is_shown, members, neighbor, opened, row_of_node,
    shown_places, CandidateView, MouseAction, PlannerKey, PlannerView, ScreenArea, TargetView,
};
use crate::text::trimmed;

verus! {

/// Dealt groups are groups, and exactly the candidates are dealt.
pub proof fn lemma_dealt(candidates: Seq<CandidateView>, count: nat)
    requires
        0 < count <= usize::MAX,
    ensures
        forall|node_id: u128| #[trigger]
            dealt(candidates, count).contains_key(node_id) <==> has_node(candidates, node_id),
        forall|node_id: u128| #[trigger]
            dealt(candidates, count).contains_key(node_id) ==> dealt(candidates, count)[node_id]
                < count,
    decreases candidates.len(),
{
    if candidates.len() > 0 {
        let rest = candidates.drop_last();
        lemma_dealt(rest, count);
        assert forall|node_id: u128| #[trigger]
            dealt(candidates, count).contains_key(node_id) <==> has_node(candidates, node_id) by {
            assert(dealt(rest, count).contains_key(node_id) <==> has_node(rest, node_id));
            if has_node(rest, node_id) {
                let i = choose|i: int|
                    0 <= i < rest.len() && (#[trigger] rest[i]).node_id == node_id;
                assert(candidates[i].node_id == node_id);
            }
            if has_node(candidates, node_id) {
                let i = choose|i: int|
                    0 <= i < candidates.len() && (#[trigger] candidates[i]).node_id == node_id;
                if i < rest.len() {
                    assert(rest[i].node_id == node_id);
                }
            }
            assert(candidates[candidates.len() - 1] == candidates.last());
        }
        let last = candidates.len() - 1;
        vstd::arithmetic::div_mod::lemma_mod_bound(last, count as int);
        assert forall|node_id: u128| #[trigger]
            dealt(candidates, count).contains_key(node_id) implies dealt(candidates, count)[node_id]
            < count by {
            if node_id != candidates.last().node_id {
                assert(dealt(rest, count).contains_key(node_id));
            }
        }
    }
}

/// Filtering keeps the planner usable.
pub proof fn lemma_refiltered(view: PlannerView, query: Seq<char>)
    requires
        view.group_names.len() >= 2,
        0 <= view.active_group < view.group_names.len(),
        forall|node_id: u128| #[trigger]
            view.assignments.contains_key(node_id) ==> view.assignments[node_id]
                < view.group_names.len(),
        forall|node_id: u128| #[trigger]
            view.assignments.contains_key(node_id) <==> has_node(view.candidates, node_id),
    ensures
        view.refiltered(query).is_usable(),
{
    let rows = shown_places(view.candidates, query);
    lemma_shown_places(view.candidates, query);
    if let Some(candidate) = view.current() {
        lemma_row_of_node(view.candidates, rows, candidate.node_id);
    }
    if view.candidates.len() > 0 {
        lemma_row_of_node(view.candidates, rows, view.candidates[0].node_id);
    }
}

/// Moving the selected node to a group keeps the planner usable.
pub proof fn lemma_assigned(view: PlannerView, group: int)
    requires
        view.is_usable(),
        0 <= group < view.group_names.len(),
        group <= usize::MAX,
    ensures
        view.assigned(group).is_usable(),
{
    if let Some(candidate) = view.current() {
        lemma_shown_places(view.candidates, view.query);
        assert(view.candidates[view.filtered[view.selected]].node_id == candidate.node_id);
        assert(has_node(view.candidates, candidate.node_id));
    }
}

/// The group before or behind a group is a group.
pub proof fn lemma_neighbor(group: int, count: int, forward: bool)
    requires
        0 <= group < count,
    ensures
        0 <= neighbor(group, count, forward) < count,
        forward ==> neighbor(group, count, forward) == (if group + 1 == count {
            0
        } else {
            group + 1
        }),
{
    if forward {
        if group + 1 == count {
            vstd::arithmetic::div_mod::lemma_mod_self_0(count);
        } else {
            vstd::arithmetic::div_mod::lemma_small_mod((group + 1) as nat, count as nat);
        }
    }
}

/// A node that is a candidate is in a group.
pub proof fn lemma_group_exists(view: PlannerView, node_id: u128)
    requires
        view.is_usable(),
    ensures
        0 <= group_of(view.assignments, node_id) < view.group_names.len(),
{
}

/// Moving the selected node on keeps the planner usable.
pub proof fn lemma_cycled(view: PlannerView, forward: bool)
    requires
        view.is_usable(),
        view.group_names.len() <= usize::MAX,
    ensures
        view.cycled(forward).is_usable(),
{
    if let Some(candidate) = view.current() {
        let count = view.group_names.len() as int;
        let group = group_of(view.assignments, candidate.node_id);
        lemma_group_exists(view, candidate.node_id);
        lemma_neighbor(group, count, forward);
        lemma_assigned(view, neighbor(group, count, forward));
    }
}

/// A group with no node has none of the candidates.
pub proof fn lemma_empty_group(
    candidates: Seq<CandidateView>,
    assignments: Map<u128, usize>,
    group: int,
    node_id: u128,
)
    requires
        group_size(candidates, assignments, group) == 0,
        has_node(candidates, node_id),
    ensures
        group_of(assignments, node_id) != group,
    decreases candidates.len(),
{
    let i = choose|i: int|
        0 <= i < candidates.len() && (#[trigger] candidates[i]).node_id == node_id;
    if i < candidates.len() - 1 {
        assert(candidates.drop_last()[i].node_id == node_id);
        lemma_empty_group(candidates.drop_last(), assignments, group, node_id);
    }
}

/// Deleting a group keeps the planner usable.
pub proof fn lemma_deleted(view: PlannerView)
    requires
        view.is_usable(),
    ensures
        view.group_deleted().is_usable(),
{
    let removed = view.active_group;
    if view.group_names.len() > 2 && group_size(view.candidates, view.assignments, removed) == 0 {
        let after = view.group_deleted();
        assert forall|node_id: u128| #[trigger] after.assignments.contains_key(node_id) implies
            after.assignments[node_id] < after.group_names.len() by {
            assert(view.assignments.contains_key(node_id));
            lemma_empty_group(view.candidates, view.assignments, removed, node_id);
        }
        assert forall|node_id: u128| #[trigger]
            after.assignments.contains_key(node_id) <==> has_node(after.candidates, node_id) by {
            assert(view.assignments.contains_key(node_id) <==> has_node(
                view.candidates,
                node_id,
            ));
        }
    }
}

/// Whatever key is pressed, the planner stays usable.
pub proof fn law_keys_keep_the_planner_usable(view: PlannerView, key: PlannerKey)
    requires
        view.is_usable(),
        view.group_names.len() <= usize::MAX,
    ensures
        view.after_key(key).is_usable(),
{
    let count = view.group_names.len() as int;
    lemma_cycled(view, true);
    lemma_cycled(view, false);
    lemma_assigned(view, view.active_group);
    lemma_neighbor(view.active_group, count, true);
    lemma_neighbor(view.active_group, count, false);
    lemma_deleted(view);
    lemma_refiltered(view, Seq::empty());
    if view.query.len() > 0 {
        lemma_refiltered(view, view.query.drop_last());
    } else {
        lemma_refiltered(view, view.query);
    }
    if let PlannerKey::Char(c) = key {
        lemma_refiltered(view, view.query.push(c));
        let group = c as int - '1' as int;
        if '1' <= c && c <= '9' && group < count {
            lemma_assigned(view, group);
        }
    }
}

/// Whatever the mouse does, the planner stays usable.
pub proof fn law_the_mouse_keeps_the_planner_usable(
    view: PlannerView,
    action: MouseAction,
    column: u16,
    row: u16,
)
    requires
        view.is_usable(),
        view.scroll >= 0,
        view.group_names.len() <= usize::MAX,
    ensures
        view.after_mouse(action, column, row).is_usable(),
{
    let target = view.scroll + (row - view.list_area.y);
    if 0 <= target < view.filtered.len() {
        let there = PlannerView { selected: target, ..view };
        lemma_assigned(there, view.active_group);
    }
}

/// Laying the planner out on a screen keeps it usable and shows the selected row.
pub proof fn law_selection_is_on_the_screen(
    view: PlannerView,
    list_area: ScreenArea,
    group_area: ScreenArea,
)
    requires
        view.is_usable(),
        view.scroll >= 0,
    ensures
        view.laid_out(list_area, group_area).is_usable(),
        list_area.height > 0 ==> {
            let shown = view.laid_out(list_area, group_area);
            shown.scroll <= shown.selected < shown.scroll + list_area.height
        },
{
}

/// A new query keeps the selected node where it is still shown.
pub proof fn law_filter_keeps_the_selection(view: PlannerView, query: Seq<char>)
    requires
        view.is_usable(),
        view.current() matches Some(candidate) && is_shown(candidate, query),
    ensures
        view.refiltered(query).current() matches Some(candidate) && candidate.node_id
            == view.current().unwrap().node_id,
{
    let node_id = view.current().unwrap().node_id;
    let place = view.filtered[view.selected];
    let rows = shown_places(view.candidates, query);
    lemma_shown_places(view.candidates, view.query);
    lemma_shown_places(view.candidates, query);
    lemma_shown(view.candidates, query, place);
    let at = choose|at: int| 0 <= at < rows.len() && #[trigger] rows[at] == place;
    lemma_row_found(view.candidates, rows, at, node_id);
}

/// A shown candidate has a row.
proof fn lemma_shown(candidates: Seq<CandidateView>, query: Seq<char>, place: int)
    requires
        0 <= place < candidates.len(),
        is_shown(candidates[place], query),
    ensures
        exists|at: int|
            0 <= at < shown_places(candidates, query).len() && #[trigger] shown_places(
                candidates,
                query,
            )[at] == place,
    decreases candidates.len(),
{
    let rows = shown_places(candidates, query);
    let rest = shown_places(candidates.drop_last(), query);
    if place == candidates.len() - 1 {
        assert(rows[rows.len() - 1] == place);
    } else {
        lemma_shown(candidates.drop_last(), query, place);
        let at = choose|at: int| 0 <= at < rest.len() && #[trigger] rest[at] == place;
        assert(rows[at] == place);
    }
}

/// A node with a row is found in a row of its own.
proof fn lemma_row_found(
    candidates: Seq<CandidateView>,
    rows: Seq<int>,
    at: int,
    node_id: u128,
)
    requires
        0 <= at < rows.len(),
        candidates[rows[at]].node_id == node_id,
    ensures
        row_of_node(candidates, rows, node_id) matches Some(row) && 0 <= row < rows.len()
            && candidates[rows[row]].node_id == node_id,
    decreases rows.len(),
{
    lemma_row_sound(candidates, rows, node_id);
    if at < rows.len() - 1 {
        lemma_row_found(candidates, rows.drop_last(), at, node_id);
    }
}

/// A found row is one of the node.
proof fn lemma_row_sound(candidates: Seq<CandidateView>, rows: Seq<int>, node_id: u128)
    ensures
        row_of_node(candidates, rows, node_id) matches Some(row) ==> 0 <= row < rows.len()
            && candidates[rows[row]].node_id == node_id,
    decreases rows.len(),
{
    if rows.len() > 0 {
        lemma_row_sound(candidates, rows.drop_last(), node_id);
    }
}

/// The planner opens usable, with distinct group names of which none is empty.
pub proof fn law_planner_opens_usable(
    source_view: Seq<char>,
    candidates: Seq<CandidateView>,
    wished: Seq<Seq<char>>,
)
    requires
        filled_groups(named_groups(wished)).len() <= usize::MAX,
    ensures
        opened(source_view, candidates, filled_groups(named_groups(wished))).is_usable(),
        are_names(
            opened(source_view, candidates, filled_groups(named_groups(wished))).group_names,
        ),
{
    let names = filled_groups(named_groups(wished));
    law_initial_groups(wished);
    lemma_dealt(candidates, names.len());
    lemma_refiltered(opened(source_view, candidates, names), Seq::empty());
    lemma_shown_places(candidates, Seq::empty());
    if candidates.len() > 0 {
        lemma_row_of_node(
            candidates,
            shown_places(candidates, Seq::empty()),
            candidates[0].node_id,
        );
    }
}

/// Whatever key is pressed, group names stay distinct and none becomes empty.
pub proof fn law_group_names_stay_distinct(view: PlannerView, key: PlannerKey)
    requires
        view.is_usable(),
        are_names(view.group_names),
    ensures
        are_names(view.after_key(key).group_names),
{
    let names = view.group_names;
    let added = names.push(view.new_name());
    assert(are_names(added)) by {
        law_free_number_is_free(names, "group-"@, (names.len() + 1) as nat);
        reveal_strlit("group-");
        assert forall|i: int, j: int| 0 <= i < added.len() && 0 <= j < added.len() && i
            != j implies added[i] != added[j] by {
            if i < names.len() && j < names.len() {
                assert(names[i] != names[j]);
            } else if i < names.len() {
                assert(names.contains(names[i]));
            } else {
                assert(names.contains(names[j]));
            }
        }
    }
    let left = names.remove(view.active_group);
    assert(are_names(left)) by {
        assert forall|i: int, j: int| 0 <= i < left.len() && 0 <= j < left.len() && i
            != j implies left[i] != left[j] by {
            let a = if i < view.active_group {
                i
            } else {
                i + 1
            };
            let b = if j < view.active_group {
                j
            } else {
                j + 1
            };
            assert(left[i] == names[a] && left[j] == names[b]);
        }
        assert forall|i: int| #![trigger left[i]] 0 <= i < left.len() implies left[i].len()
            > 0 by {
            let a = if i < view.active_group {
                i
            } else {
                i + 1
            };
            assert(left[i] == names[a]);
        }
    }
    let name = trimmed(view.rename_input);
    if name.len() > 0 && !view.is_taken(name) {
        let renamed = names.update(view.active_group, name);
        assert(are_names(renamed)) by {
            assert forall|i: int, j: int| 0 <= i < renamed.len() && 0 <= j < renamed.len() && i
                != j implies renamed[i] != renamed[j] by {
                assert(names[i] != names[j]);
            }
        }
    }
}

/// Deleting a group leaves every node in the group of the same name.
pub proof fn law_deletion_keeps_nodes_in_their_groups(view: PlannerView, node_id: u128)
    requires
        view.is_usable(),
        has_node(view.candidates, node_id),
    ensures
        view.group_deleted().group_names[group_of(view.group_deleted().assignments, node_id)]
            == view.group_names[group_of(view.assignments, node_id)],
{
    let removed = view.active_group;
    if view.group_names.len() > 2 && group_size(view.candidates, view.assignments, removed) == 0 {
        assert(view.assignments.contains_key(node_id));
        lemma_empty_group(view.candidates, view.assignments, removed, node_id);
    }
}

/// A node is among the members of its own group and of no other.
proof fn lemma_members(
    candidates: Seq<CandidateView>,
    assignments: Map<u128, usize>,
    group: int,
    node_id: u128,
)
    ensures
        members(candidates, assignments, group).contains(node_id) <==> has_node(
            candidates,
            node_id,
        ) && group_of(assignments, node_id) == group,
        members(candidates, assignments, group).len() == group_size(
            candidates,
            assignments,
            group,
        ),
    decreases candidates.len(),
{
    let all = members(candidates, assignments, group);
    if candidates.len() > 0 {
        let rest = candidates.drop_last();
        let before = members(rest, assignments, group);
        lemma_members(rest, assignments, group, node_id);
        assert(candidates[candidates.len() - 1] == candidates.last());
        if has_node(rest, node_id) {
            let i = choose|i: int| 0 <= i < rest.len() && (#[trigger] rest[i]).node_id == node_id;
            assert(candidates[i].node_id == node_id);
        }
        if has_node(candidates, node_id) {
            let i = choose|i: int|
                0 <= i < candidates.len() && (#[trigger] candidates[i]).node_id == node_id;
            if i < rest.len() {
                assert(rest[i].node_id == node_id);
            }
        }
        if before.contains(node_id) {
            let i = choose|i: int| 0 <= i < before.len() && before[i] == node_id;
            assert(all[i] == node_id);
        }
        if group_of(assignments, candidates.last().node_id) == group {
            assert(all[all.len() - 1] == candidates.last().node_id);
        }
        if all.contains(node_id) {
            let i = choose|i: int| 0 <= i < all.len() && all[i] == node_id;
            if i < before.len() {
                assert(before[i] == node_id);
            }
        }
    }
}

/// A confirmed split has a node in every group, and each node in its own group alone.
pub proof fn law_confirmed_split_is_a_partition(
    view: PlannerView,
    targets: Seq<TargetView>,
    cancelled: bool,
    group: int,
    node_id: u128,
)
    requires
        view.is_usable(),
        !view.has_empty_group(),
        view.confirmation().is_outcome(targets, cancelled),
        0 <= group < view.group_names.len(),
    ensures
        !cancelled,
        targets.len() == view.group_names.len(),
        targets[group].name == view.group_names[group],
        targets[group].node_ids.len() > 0,
        targets[group].node_ids.contains(node_id) <==> has_node(view.candidates, node_id)
            && group_of(view.assignments, node_id) == group,
{
    broadcast use vstd::seq_lib::group_to_multiset_ensures;

    let after = view.confirmation();
    let inside = members(view.candidates, view.assignments, group);
    let ids = targets[group].node_ids;
    assert(after.is_target(group, targets[group]));
    lemma_members(view.candidates, view.assignments, group, node_id);
    assert(group_size(view.candidates, view.assignments, group) > 0);
    assert(ids.to_multiset().len() == ids.len());
    assert(inside.to_multiset().len() == inside.len());
    assert(ids.contains(node_id) <==> ids.to_multiset().count(node_id) > 0);
    assert(inside.contains(node_id) <==> inside.to_multiset().count(node_id) > 0);
}

/// A split is confirmed only where every group has a node, and a refused try says why.
pub proof fn law_empty_groups_are_refused(view: PlannerView)
    requires
        view.is_usable(),
        view.has_empty_group(),
    ensures
        view.confirmation() == view.with_status(
            "each group must contain at least one node before confirming"@,
        ),
{
}

/// A planner that is left without confirming gives no targets.
pub proof fn law_cancelled_split_has_no_targets(
    view: PlannerView,
    targets: Seq<TargetView>,
    cancelled: bool,
)
    requires
        !view.confirmed,
        !view.rename_mode,
        !view.search_mode,
        view.after_key(PlannerKey::Char('q')).is_outcome(targets, cancelled),
    ensures
        view.after_key(PlannerKey::Char('q')).done,
        view.after_key(PlannerKey::Esc) == view.after_key(PlannerKey::Char('q')),
        cancelled,
        targets.len() == 0,
{
}

/// Typing a query or a name changes no node's group.
pub proof fn law_typing_moves_no_node(view: PlannerView, key: PlannerKey)
    requires
        view.rename_mode || view.search_mode,
    ensures
        view.after_key(key).assignments == view.assignments,
        view.after_key(key).confirmed == view.confirmed,
        view.after_key(key).done == view.done,
{
}

} // verus!
