//! What each planner input does to the state of the planner.

use vstd::prelude::*;

use super::labels::{holds_text, joined_texts, lowered};
use super::names::{free_number, numbered};
use crate::catalog::paths::hyphenated;
use crate::text::{decimal_text, hex_text, trimmed};

verus! {

/// Model of a candidate node.
pub struct CandidateView {
    pub node_id: u128,
    pub hostname: Seq<char>,
    pub address: Seq<char>,
    pub health: Seq<char>,
    pub active_view: Seq<char>,
    pub cpu_vendor: Option<Seq<char>>,
    pub cpu_brand: Option<Seq<char>>,
    pub cpu_logical: Option<u64>,
    pub cpu_cores: Option<u64>,
    pub memory_total_kb: Option<u64>,
    pub gpu_vendor: Option<Seq<char>>,
    pub gpu_count: Option<u64>,
    pub gpu_models: Seq<Seq<char>>,
    pub wireguard_enabled: bool,
    pub labels: Seq<Seq<char>>,
}

/// Text of a node identity.
pub open spec fn node_text(node_id: u128) -> Seq<char> {
    hyphenated(hex_text(node_id as nat, 32))
}

/// A text, or a dash where there is none.
pub open spec fn or_dash(value: Option<Seq<char>>) -> Seq<char> {
    match value {
        Some(text) => text,
        None => "-"@,
    }
}

/// A field holds the query, whatever the case of ASCII letters.
pub open spec fn field_matches(field: Seq<char>, query: Seq<char>) -> bool {
    holds_text(lowered(field), lowered(query))
}

/// The candidate is shown under a query.
pub open spec fn is_shown(candidate: CandidateView, query: Seq<char>) -> bool {
    ||| query.len() == 0
    ||| field_matches(node_text(candidate.node_id), query)
    ||| field_matches(candidate.hostname, query)
    ||| field_matches(candidate.address, query)
    ||| field_matches(or_dash(candidate.gpu_vendor), query)
    ||| field_matches(or_dash(candidate.cpu_vendor), query)
    ||| field_matches(joined_texts(candidate.labels, ","@), query)
}

/// Places of the candidates that are shown under a query.
pub open spec fn shown_places(candidates: Seq<CandidateView>, query: Seq<char>) -> Seq<int>
    decreases candidates.len(),
{
    if candidates.len() == 0 {
        Seq::empty()
    } else {
        let rest = shown_places(candidates.drop_last(), query);
        if is_shown(candidates.last(), query) {
            rest.push(candidates.len() - 1)
        } else {
            rest
        }
    }
}

/// First row whose candidate has an identity.
pub open spec fn row_of_node(
    candidates: Seq<CandidateView>,
    rows: Seq<int>,
    node_id: u128,
) -> Option<int>
    decreases rows.len(),
{
    if rows.len() == 0 {
        None
    } else if row_of_node(candidates, rows.drop_last(), node_id) is Some {
        row_of_node(candidates, rows.drop_last(), node_id)
    } else if candidates[rows.last()].node_id == node_id {
        Some(rows.len() - 1)
    } else {
        None
    }
}

/// Keyboard focus pane in the planner.
#[derive(Clone, Copy, Debug, PartialEq, Eq, Structural)]
pub enum FocusPane {
    /// The list of nodes.
    Nodes,

    /// The list of groups.
    Groups,
}

/// Rectangle of the screen.
#[derive(Clone, Copy, Debug, PartialEq, Eq, Structural)]
pub struct ScreenArea {
    pub x: u16,
    pub y: u16,
    pub width: u16,
    pub height: u16,
}

/// The rectangle holds a cell; one that would pass the last column or row ends there.
pub open spec fn area_holds(area: ScreenArea, column: u16, row: u16) -> bool {
    let right = if area.x + area.width > u16::MAX { u16::MAX as int } else { area.x + area.width };
    let bottom = if area.y + area.height > u16::MAX {
        u16::MAX as int
    } else {
        area.y + area.height
    };
    &&& area.width > 0
    &&& area.height > 0
    &&& area.x <= column < right
    &&& area.y <= row < bottom
}

/// Key that the planner knows.
#[derive(Clone, Copy, Debug, PartialEq, Eq, Structural)]
pub enum PlannerKey {
    Esc,
    Enter,
    Backspace,
    Tab,
    Up,
    Down,
    Left,
    Right,
    Char(char),
    Other,
}

/// Mouse input that the planner knows.
#[derive(Clone, Copy, Debug, PartialEq, Eq, Structural)]
pub enum MouseAction {
    /// The pointer moved.
    Moved,

    /// The left button was pressed.
    LeftDown,

    /// Anything else.
    Other,
}

/// State of the planner.
#[verifier::ext_equal]
pub struct PlannerView {
    pub source_view: Seq<char>,
    pub candidates: Seq<CandidateView>,
    pub group_names: Seq<Seq<char>>,
    pub active_group: int,
    pub query: Seq<char>,
    pub search_mode: bool,
    pub rename_mode: bool,
    pub rename_input: Seq<char>,
    pub focus: FocusPane,
    pub status: Seq<char>,

    /// Places of the shown candidates.
    pub filtered: Seq<int>,

    /// Selected row among the shown candidates.
    pub selected: int,

    /// First row on the screen.
    pub scroll: int,

    /// Group of each node.
    pub assignments: Map<u128, usize>,
    pub list_area: ScreenArea,
    pub group_area: ScreenArea,
    pub confirmed: bool,
    pub done: bool,
}

/// Some candidate is the node.
pub open spec fn has_node(candidates: Seq<CandidateView>, node_id: u128) -> bool {
    exists|i: int|
        0 <= i < candidates.len() && (#[trigger] candidates[i]).node_id == node_id
}

/// Candidates dealt out to some groups in turn.
pub open spec fn dealt(candidates: Seq<CandidateView>, count: nat) -> Map<u128, usize>
    decreases candidates.len(),
{
    if candidates.len() == 0 {
        Map::empty()
    } else {
        dealt(candidates.drop_last(), count).insert(
            candidates.last().node_id,
            ((candidates.len() - 1) % count as int) as usize,
        )
    }
}

/// Nodes in a group, in the order of the candidates.
pub open spec fn members(
    candidates: Seq<CandidateView>,
    assignments: Map<u128, usize>,
    group: int,
) -> Seq<u128>
    decreases candidates.len(),
{
    if candidates.len() == 0 {
        Seq::empty()
    } else {
        let rest = members(candidates.drop_last(), assignments, group);
        if group_of(assignments, candidates.last().node_id) == group {
            rest.push(candidates.last().node_id)
        } else {
            rest
        }
    }
}

/// Nodes stand in ascending order.
pub open spec fn is_ascending(nodes: Seq<u128>) -> bool {
    forall|i: int, j: int|
        #![trigger nodes[i], nodes[j]]
        0 <= i < j < nodes.len() ==> nodes[i] <= nodes[j]
}

/// Model of a split target.
pub struct TargetView {
    pub name: Seq<char>,
    pub node_ids: Seq<u128>,
}

/// Area that holds no cell.
pub open spec fn no_area() -> ScreenArea {
    ScreenArea { x: 0, y: 0, width: 0, height: 0 }
}

/// State of the planner when it opens.
pub open spec fn opened(
    source_view: Seq<char>,
    candidates: Seq<CandidateView>,
    group_names: Seq<Seq<char>>,
) -> PlannerView {
    PlannerView {
        source_view,
        candidates,
        group_names,
        active_group: 0,
        query: Seq::empty(),
        search_mode: false,
        rename_mode: false,
        rename_input: Seq::empty(),
        focus: FocusPane::Nodes,
        status:
            "Arrows move/select, Space assign active group, n new group, r rename, Enter confirm, q cancel"@,
        filtered: Seq::empty(),
        selected: 0,
        scroll: 0,
        assignments: dealt(candidates, group_names.len()),
        list_area: no_area(),
        group_area: no_area(),
        confirmed: false,
        done: false,
    }.refiltered(Seq::empty())
}

/// Number of candidates in a group.
pub open spec fn group_size(
    candidates: Seq<CandidateView>,
    assignments: Map<u128, usize>,
    group: int,
) -> nat
    decreases candidates.len(),
{
    if candidates.len() == 0 {
        0
    } else {
        group_size(candidates.drop_last(), assignments, group) + (if group_of(
            assignments,
            candidates.last().node_id,
        ) == group {
            1nat
        } else {
            0
        })
    }
}

/// Group of a node; nodes without one are in the first.
pub open spec fn group_of(assignments: Map<u128, usize>, node_id: u128) -> int {
    if assignments.contains_key(node_id) {
        assignments[node_id] as int
    } else {
        0
    }
}

/// Group of a node after one group is gone: later groups move up.
pub open spec fn group_without(group: usize, removed: int) -> usize {
    if group > removed {
        (group - 1) as usize
    } else if group == removed {
        0
    } else {
        group
    }
}

/// Group before or behind another, around the ends.
pub open spec fn neighbor(group: int, count: int, forward: bool) -> int {
    if forward {
        (group + 1) % count
    } else if group == 0 {
        count - 1
    } else {
        group - 1
    }
}

impl PlannerView {
    /// What holds of the planner between any two inputs.
    pub open spec fn is_usable(self) -> bool {
        &&& self.group_names.len() >= 2
        &&& 0 <= self.active_group < self.group_names.len()
        &&& self.filtered == shown_places(self.candidates, self.query)
        &&& 0 <= self.selected
        &&& self.filtered.len() > 0 ==> self.selected < self.filtered.len()
        &&& self.filtered.len() == 0 ==> self.selected == 0
        &&& forall|node_id: u128| #[trigger]
            self.assignments.contains_key(node_id) ==> self.assignments[node_id]
                < self.group_names.len()
        &&& forall|node_id: u128| #[trigger]
            self.assignments.contains_key(node_id) <==> has_node(self.candidates, node_id)
    }

    /// The state with another status.
    pub open spec fn with_status(self, status: Seq<char>) -> PlannerView {
        PlannerView { status, ..self }
    }

    /// The selected candidate, if one is shown.
    pub open spec fn current(self) -> Option<CandidateView> {
        if self.selected < self.filtered.len() && self.filtered[self.selected]
            < self.candidates.len() {
            Some(self.candidates[self.filtered[self.selected]])
        } else {
            None
        }
    }

    /// The state with the candidates of another query, on the same node where it is shown.
    pub open spec fn refiltered(self, query: Seq<char>) -> PlannerView {
        let rows = shown_places(self.candidates, query);
        let node = match self.current() {
            Some(candidate) => Some(candidate.node_id),
            None => if self.candidates.len() > 0 {
                Some(self.candidates[0].node_id)
            } else {
                None
            },
        };
        let found = match node {
            Some(node_id) => row_of_node(self.candidates, rows, node_id),
            None => None,
        };
        let selected = match found {
            Some(row) => row,
            None => 0,
        };
        if rows.len() == 0 {
            PlannerView { query, filtered: rows, selected: 0, scroll: 0, ..self }
        } else {
            PlannerView {
                query,
                filtered: rows,
                selected,
                scroll: if self.scroll < selected { self.scroll } else { selected },
                ..self
            }
        }
    }

    /// The state with the selection one row up or down.
    pub open spec fn selection_moved(self, down: bool) -> PlannerView {
        if self.filtered.len() == 0 {
            self
        } else if down {
            PlannerView {
                selected: if self.selected + 1 < self.filtered.len() {
                    self.selected + 1
                } else {
                    self.filtered.len() - 1
                },
                ..self
            }
        } else {
            PlannerView {
                selected: if self.selected == 0 {
                    0
                } else {
                    self.selected - 1
                },
                ..self
            }
        }
    }

    /// The state with the selected node in a group.
    pub open spec fn assigned(self, group: int) -> PlannerView {
        match self.current() {
            Some(candidate) => PlannerView {
                assignments: self.assignments.insert(candidate.node_id, group as usize),
                ..self
            },
            None => self,
        }
    }

    /// The state with the selected node in the next or previous group.
    pub open spec fn cycled(self, forward: bool) -> PlannerView {
        match self.current() {
            Some(candidate) => self.assigned(
                neighbor(
                    group_of(self.assignments, candidate.node_id),
                    self.group_names.len() as int,
                    forward,
                ),
            ),
            None => self,
        }
    }

    /// The state with the next or previous group active.
    pub open spec fn group_moved(self, forward: bool) -> PlannerView {
        PlannerView {
            active_group: neighbor(self.active_group, self.group_names.len() as int, forward),
            ..self
        }
    }

    /// Name of a new group.
    pub open spec fn new_name(self) -> Seq<char> {
        numbered(
            "group-"@,
            free_number(
                self.group_names,
                "group-"@,
                (self.group_names.len() + 1) as nat,
                self.group_names.len(),
            ),
        )
    }

    /// The state with a new group.
    pub open spec fn group_created(self) -> PlannerView {
        PlannerView {
            group_names: self.group_names.push(self.new_name()),
            active_group: self.group_names.len() as int,
            focus: FocusPane::Groups,
            status: "created group '"@ + self.new_name() + "'"@,
            ..self
        }
    }

    /// The state in which the active group is being renamed.
    pub open spec fn rename_begun(self) -> PlannerView {
        PlannerView {
            rename_input: self.group_names[self.active_group],
            rename_mode: true,
            status: "rename mode: Enter apply, Esc cancel"@,
            ..self
        }
    }

    /// Another group has the name.
    pub open spec fn is_taken(self, name: Seq<char>) -> bool {
        exists|i: int|
            #![trigger self.group_names[i]]
            0 <= i < self.group_names.len() && i != self.active_group && self.group_names[i]
                == name
    }

    /// The state with the typed name applied.
    pub open spec fn renamed(self) -> PlannerView {
        let name = trimmed(self.rename_input);
        if name.len() == 0 {
            self.with_status("group name must not be empty"@)
        } else if self.is_taken(name) {
            self.with_status("group name '"@ + name + "' already exists"@)
        } else {
            PlannerView {
                group_names: self.group_names.update(self.active_group, name),
                rename_mode: false,
                rename_input: Seq::empty(),
                status: "renamed group to '"@ + name + "'"@,
                ..self
            }
        }
    }

    /// The state without the active group, where it may go.
    pub open spec fn group_deleted(self) -> PlannerView {
        let removed = self.active_group;
        let left = self.group_names.remove(removed);
        if self.group_names.len() <= 2 {
            self.with_status("at least two groups are required"@)
        } else if group_size(self.candidates, self.assignments, removed) > 0 {
            self.with_status("move nodes out of the group before deleting it"@)
        } else {
            PlannerView {
                group_names: left,
                assignments: self.assignments.map_values(
                    |group: usize| group_without(group, removed),
                ),
                active_group: if removed >= left.len() {
                    left.len() - 1
                } else {
                    removed
                },
                status: "deleted group '"@ + self.group_names[removed] + "'"@,
                ..self
            }
        }
    }

    /// Some group has no node.
    pub open spec fn has_empty_group(self) -> bool {
        exists|group: int|
            0 <= group < self.group_names.len() && #[trigger] group_size(
                self.candidates,
                self.assignments,
                group,
            ) == 0
    }

    /// The state after a try to confirm.
    pub open spec fn confirmation(self) -> PlannerView {
        if self.group_names.len() < 2 {
            self.with_status("split requires at least two groups"@)
        } else if self.has_empty_group() {
            self.with_status("each group must contain at least one node before confirming"@)
        } else {
            PlannerView { confirmed: true, done: true, ..self }
        }
    }

    /// The state after a key while a group is renamed.
    pub open spec fn after_rename_key(self, key: PlannerKey) -> PlannerView {
        match key {
            PlannerKey::Esc => PlannerView {
                rename_mode: false,
                rename_input: Seq::empty(),
                status: "rename cancelled"@,
                ..self
            },
            PlannerKey::Enter => self.renamed(),
            PlannerKey::Backspace => PlannerView {
                rename_input: if self.rename_input.len() == 0 {
                    self.rename_input
                } else {
                    self.rename_input.drop_last()
                },
                ..self
            },
            PlannerKey::Char(c) => PlannerView { rename_input: self.rename_input.push(c), ..self },
            _ => self,
        }
    }

    /// The state after a key while a query is typed.
    pub open spec fn after_search_key(self, key: PlannerKey) -> PlannerView {
        match key {
            PlannerKey::Esc => PlannerView {
                search_mode: false,
                status: "search cancelled"@,
                ..self
            },
            PlannerKey::Enter => PlannerView {
                search_mode: false,
                status: "filter applied ("@ + decimal_text(self.filtered.len()) + " nodes)"@,
                ..self
            },
            PlannerKey::Backspace => self.refiltered(
                if self.query.len() == 0 {
                    self.query
                } else {
                    self.query.drop_last()
                },
            ),
            PlannerKey::Char(c) => self.refiltered(self.query.push(c)),
            _ => self,
        }
    }

    /// The state after a character outside of rename and search.
    pub open spec fn after_char(self, c: char) -> PlannerView {
        if c == 'q' {
            PlannerView { done: true, status: "split cancelled"@, ..self }
        } else if c == 'k' {
            self.moved(false)
        } else if c == 'j' {
            self.moved(true)
        } else if c == 'h' {
            self.cycled(false)
        } else if c == 'l' {
            self.cycled(true)
        } else if c == ' ' || c == 'a' {
            self.assigned(self.active_group)
        } else if c == '[' {
            self.group_moved(false)
        } else if c == ']' {
            self.group_moved(true)
        } else if c == 'n' {
            self.group_created()
        } else if c == 'r' {
            self.rename_begun()
        } else if c == 'x' {
            self.group_deleted()
        } else if c == '/' {
            PlannerView {
                search_mode: true,
                status: "search mode: type to filter, Enter to apply"@,
                ..self
            }
        } else if c == 'c' {
            self.refiltered(Seq::empty()).with_status("search filter cleared"@)
        } else if '1' <= c && c <= '9' {
            let group = c as int - '1' as int;
            if group < self.group_names.len() {
                self.assigned(group)
            } else {
                self
            }
        } else {
            self
        }
    }

    /// The state with the focused list one row up or down.
    pub open spec fn moved(self, down: bool) -> PlannerView {
        match self.focus {
            FocusPane::Nodes => self.selection_moved(down),
            FocusPane::Groups => self.group_moved(down),
        }
    }

    /// The state after a key.
    pub open spec fn after_key(self, key: PlannerKey) -> PlannerView {
        if self.rename_mode {
            self.after_rename_key(key)
        } else if self.search_mode {
            self.after_search_key(key)
        } else {
            match key {
                PlannerKey::Esc => self.after_char('q'),
                PlannerKey::Enter => self.confirmation(),
                PlannerKey::Tab => PlannerView {
                    focus: match self.focus {
                        FocusPane::Nodes => FocusPane::Groups,
                        FocusPane::Groups => FocusPane::Nodes,
                    },
                    ..self
                },
                PlannerKey::Up => self.moved(false),
                PlannerKey::Down => self.moved(true),
                PlannerKey::Left => self.cycled(false),
                PlannerKey::Right => self.cycled(true),
                PlannerKey::Char(c) => self.after_char(c),
                PlannerKey::Backspace | PlannerKey::Other => self,
            }
        }
    }

    /// The state with the node under the pointer selected, and assigned on a press.
    pub open spec fn pointed_at_node(self, action: MouseAction, column: u16, row: u16) -> PlannerView {
        let target = self.scroll + (row - self.list_area.y);
        if self.filtered.len() > 0 && area_holds(self.list_area, column, row) && target
            < self.filtered.len() {
            let there = PlannerView { selected: target, ..self };
            if action == MouseAction::LeftDown {
                there.assigned(self.active_group)
            } else {
                there
            }
        } else {
            self
        }
    }

    /// The state after mouse input.
    pub open spec fn after_mouse(self, action: MouseAction, column: u16, row: u16) -> PlannerView {
        let next = self.pointed_at_node(action, column, row);
        let group = row - self.group_area.y;
        if action == MouseAction::Other {
            self
        } else if area_holds(self.group_area, column, row) && group < self.group_names.len() {
            PlannerView { active_group: group, focus: FocusPane::Groups, ..next }
        } else {
            next
        }
    }

    /// The target is what the planner made of a group.
    pub open spec fn is_target(self, group: int, target: TargetView) -> bool {
        &&& target.name == self.group_names[group]
        &&& is_ascending(target.node_ids)
        &&& target.node_ids.to_multiset() == members(
            self.candidates,
            self.assignments,
            group,
        ).to_multiset()
    }

    /// What the planner hands back: nothing unless it was confirmed.
    pub open spec fn is_outcome(self, targets: Seq<TargetView>, cancelled: bool) -> bool {
        &&& cancelled == !self.confirmed
        &&& cancelled ==> targets.len() == 0
        &&& !cancelled ==> {
            &&& targets.len() == self.group_names.len()
            &&& forall|group: int|
                #![trigger targets[group]]
                0 <= group < targets.len() ==> self.is_target(group, targets[group])
        }
    }

    /// First row on a screen with some rows, so that the selection is shown.
    pub open spec fn fitted_scroll(self, visible_rows: int) -> int {
        let first = if self.selected < self.scroll {
            self.selected
        } else {
            self.scroll
        };
        let second = if visible_rows > 0 && self.selected >= first + visible_rows {
            self.selected - (visible_rows - 1)
        } else {
            first
        };
        if self.filtered.len() < second {
            0
        } else {
            second
        }
    }

    /// The state laid out on a screen.
    pub open spec fn laid_out(self, list_area: ScreenArea, group_area: ScreenArea) -> PlannerView {
        PlannerView {
            scroll: self.fitted_scroll(list_area.height as int),
            list_area,
            group_area,
            ..self
        }
    }
}

} // verus!
