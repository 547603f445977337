//! The split planner: its state, and what each input does to it.

use std::collections::HashMap;

use vstd::prelude::*;

use super::labels::{contains_text, join_texts, lower_chars, lowered, text_views};
use super::names::{first_free_name, filled_groups, named_groups, sanitize_initial_group_names};
use super::planner_laws::{
    law_keys_keep_the_planner_usable, law_the_mouse_keeps_the_planner_usable, lemma_assigned,
    lemma_dealt, lemma_deleted, lemma_group_exists, lemma_neighbor, lemma_refiltered,
};
use super::planner_rules::{
    area_holds, dealt, group_of, group_size, group_without, has_node, is_ascending, is_shown,
    members, neighbor, opened, or_dash, row_of_node, shown_places, CandidateView, FocusPane,
    MouseAction, PlannerKey, PlannerView, ScreenArea, TargetView,
};
use crate::catalog::paths::uuid_text;
use crate::text::{chars_of, push_decimal, push_text, same_text, string_of, trim_text};

pub mod text;

verus! {

/// Candidate node details consumed by the interactive split planner.
#[derive(Debug)]
pub struct SplitCandidate {
    pub node_id: u128,
    pub hostname: String,
    pub address: String,
    pub health: String,
    pub active_view: String,
    pub cpu_vendor: Option<String>,
    pub cpu_brand: Option<String>,
    pub cpu_logical: Option<u64>,
    pub cpu_cores: Option<u64>,
    pub memory_total_kb: Option<u64>,
    pub gpu_vendor: Option<String>,
    pub gpu_count: Option<u64>,
    pub gpu_models: Vec<String>,
    pub wireguard_enabled: bool,
    pub labels: Vec<String>,
}

/// Text of an optional field.
pub open spec fn text_view(value: Option<String>) -> Option<Seq<char>> {
    match value {
        Some(text) => Some(text@),
        None => None,
    }
}

impl View for SplitCandidate {
    type V = CandidateView;

    open spec fn view(&self) -> CandidateView {
        CandidateView {
            node_id: self.node_id,
            hostname: self.hostname@,
            address: self.address@,
            health: self.health@,
            active_view: self.active_view@,
            cpu_vendor: text_view(self.cpu_vendor),
            cpu_brand: text_view(self.cpu_brand),
            cpu_logical: self.cpu_logical,
            cpu_cores: self.cpu_cores,
            memory_total_kb: self.memory_total_kb,
            gpu_vendor: text_view(self.gpu_vendor),
            gpu_count: self.gpu_count,
            gpu_models: text_views(self.gpu_models@),
            wireguard_enabled: self.wireguard_enabled,
            labels: text_views(self.labels@),
        }
    }
}

/// Models of some candidates.
pub open spec fn candidate_views(list: Seq<SplitCandidate>) -> Seq<CandidateView> {
    Seq::new(list.len(), |i: int| list[i]@)
}

/// Payload rendered by the split planner.
#[derive(Debug)]
pub struct SplitCandidateList {
    pub source_view: String,
    pub candidates: Vec<SplitCandidate>,
}

/// One named split target returned by the interactive planner.
#[derive(Debug)]
pub struct InteractiveSplitTarget {
    pub name: String,
    pub node_ids: Vec<u128>,
}

impl View for InteractiveSplitTarget {
    type V = TargetView;

    open spec fn view(&self) -> TargetView {
        TargetView { name: self.name@, node_ids: self.node_ids@ }
    }
}

/// Models of some targets.
pub open spec fn target_views(list: Seq<InteractiveSplitTarget>) -> Seq<TargetView> {
    Seq::new(list.len(), |i: int| list[i]@)
}

/// Final selection returned by the interactive planner.
#[derive(Debug)]
pub struct InteractiveSplitSelection {
    pub targets: Vec<InteractiveSplitTarget>,
    pub cancelled: bool,
}

/// Places as integers.
pub open spec fn places_of(list: Seq<usize>) -> Seq<int> {
    Seq::new(list.len(), |i: int| list[i] as int)
}

/// What the planner keeps between two inputs.
#[derive(Debug)]
struct PlannerState {
    source_view: String,
    candidates: Vec<SplitCandidate>,
    group_names: Vec<String>,
    active_group: usize,
    query: String,
    search_mode: bool,
    rename_mode: bool,
    rename_input: String,
    focus: FocusPane,
    status: String,
    filtered: Vec<usize>,
    selected: usize,
    scroll: usize,
    assignments: HashMap<u128, usize>,
    last_list_inner_area: ScreenArea,
    last_group_inner_area: ScreenArea,
    confirmed: bool,
    done: bool,
}

impl View for PlannerState {
    type V = PlannerView;

    closed spec fn view(&self) -> PlannerView {
        PlannerView {
            source_view: self.source_view@,
            candidates: candidate_views(self.candidates@),
            group_names: text_views(self.group_names@),
            active_group: self.active_group as int,
            query: self.query@,
            search_mode: self.search_mode,
            rename_mode: self.rename_mode,
            rename_input: self.rename_input@,
            focus: self.focus,
            status: self.status@,
            filtered: places_of(self.filtered@),
            selected: self.selected as int,
            scroll: self.scroll as int,
            assignments: self.assignments@,
            list_area: self.last_list_inner_area,
            group_area: self.last_group_inner_area,
            confirmed: self.confirmed,
            done: self.done,
        }
    }
}

/// Returns a text, or a dash where there is none.
pub fn text_or_dash(value: &Option<String>) -> (out: String)
    ensures
        out@ == or_dash(text_view(*value)),
{
    match value {
        Some(text) => text.clone(),
        None => string_from("-"),
    }
}

/// Copies a text.
fn string_from(text: &str) -> (out: String)
    ensures
        out@ == text@,
{
    let mut out = String::new();
    push_text(&mut out, text);
    proof { assert(out@ =~= text@); }
    out
}

/// Puts a text between two others.
fn quoted(before: &str, text: &str, after: &str) -> (out: String)
    ensures
        out@ == before@ + text@ + after@,
{
    let mut out = string_from(before);
    push_text(&mut out, text);
    push_text(&mut out, after);
    out
}

/// Takes the last character off a text, if there is one.
fn without_last(text: &str) -> (out: String)
    ensures
        out@ == (if text@.len() == 0 {
            text@
        } else {
            text@.drop_last()
        }),
{
    let mut chars = chars_of(text);
    let _ = chars.pop();
    string_of(&chars)
}

/// Shown places are in range and increase.
pub proof fn lemma_shown_places(candidates: Seq<CandidateView>, query: Seq<char>)
    ensures
        shown_places(candidates, query).len() <= candidates.len(),
        forall|i: int|
            #![trigger shown_places(candidates, query)[i]]
            0 <= i < shown_places(candidates, query).len() ==> 0 <= shown_places(
                candidates,
                query,
            )[i] < candidates.len(),
    decreases candidates.len(),
{
    if candidates.len() > 0 {
        lemma_shown_places(candidates.drop_last(), query);
    }
}

/// The first row of a node is a row.
pub proof fn lemma_row_of_node(candidates: Seq<CandidateView>, rows: Seq<int>, node_id: u128)
    ensures
        row_of_node(candidates, rows, node_id) matches Some(row) ==> 0 <= row < rows.len(),
    decreases rows.len(),
{
    if rows.len() > 0 {
        lemma_row_of_node(candidates, rows.drop_last(), node_id);
    }
}

/// No more nodes are in a group than there are candidates.
pub proof fn lemma_group_size(
    candidates: Seq<CandidateView>,
    assignments: Map<u128, usize>,
    group: int,
)
    ensures
        group_size(candidates, assignments, group) <= candidates.len(),
    decreases candidates.len(),
{
    if candidates.len() > 0 {
        lemma_group_size(candidates.drop_last(), assignments, group);
    }
}

/// Returns whether a field holds the lowercase query.
fn field_holds(field: &str, query: &Vec<char>) -> (out: bool)
    ensures
        out == super::labels::holds_text(lowered(field@), query@),
{
    let lower = lower_chars(field);
    contains_text(&lower, query)
}

/// Returns whether a candidate is shown under a query.
pub fn candidate_is_shown(candidate: &SplitCandidate, query: &str) -> (out: bool)
    ensures
        out == is_shown(candidate@, query@),
{
    let lower = lower_chars(query);
    if lower.len() == 0 {
        return true;
    }
    let id = uuid_text(candidate.node_id);
    let gpu = text_or_dash(&candidate.gpu_vendor);
    let cpu = text_or_dash(&candidate.cpu_vendor);
    let labels = join_texts(&candidate.labels, ",");
    field_holds(id.as_str(), &lower) || field_holds(candidate.hostname.as_str(), &lower)
        || field_holds(candidate.address.as_str(), &lower) || field_holds(gpu.as_str(), &lower)
        || field_holds(cpu.as_str(), &lower) || field_holds(labels.as_str(), &lower)
}

/// Returns whether a rectangle holds a cell.
fn holds_cell(area: ScreenArea, column: u16, row: u16) -> (out: bool)
    ensures
        out == area_holds(area, column, row),
{
    let right = area.x.saturating_add(area.width);
    let bottom = area.y.saturating_add(area.height);
    area.width > 0 && area.height > 0 && area.x <= column && column < right && area.y <= row && row
        < bottom
}

impl PlannerState {
    /// Returns the state of a planner without nodes.
    fn idle() -> (out: Self)
        ensures
            out@.is_usable(),
    {
        let mut group_names: Vec<String> = Vec::new();
        group_names.push(String::new());
        group_names.push(String::new());
        let out = PlannerState {
            source_view: String::new(),
            candidates: Vec::new(),
            group_names,
            active_group: 0,
            query: String::new(),
            search_mode: false,
            rename_mode: false,
            rename_input: String::new(),
            focus: FocusPane::Nodes,
            status: String::new(),
            filtered: Vec::new(),
            selected: 0,
            scroll: 0,
            assignments: HashMap::new(),
            last_list_inner_area: ScreenArea { x: 0, y: 0, width: 0, height: 0 },
            last_group_inner_area: ScreenArea { x: 0, y: 0, width: 0, height: 0 },
            confirmed: false,
            done: false,
        };
        proof {
            broadcast use vstd::std_specs::hash::group_hash_axioms;

            assert(out@.filtered =~= shown_places(out@.candidates, out@.query));
        }
        out
    }

    /// Recomputes candidate filtering from the current search query while preserving selection.
    fn refresh_filter(&mut self)
        ensures
            final(self)@ == old(self)@.refiltered(old(self)@.query),
    {
        let current: Option<u128> = match self.selected_candidate() {
            Some(candidate) => Some(candidate.node_id),
            None => if self.candidates.len() > 0 {
                Some(self.candidates[0].node_id)
            } else {
                None
            },
        };
        let ghost before = self@;
        let ghost all = candidate_views(self.candidates@);
        let mut rows: Vec<usize> = Vec::new();
        let mut i: usize = 0;
        proof {
            assert(all.take(0) =~= Seq::<CandidateView>::empty());
            assert(places_of(rows@) =~= Seq::<int>::empty());
        }
        while i < self.candidates.len()
            invariant
                i <= self.candidates@.len(),
                *self == *old(self),
                all == candidate_views(self.candidates@),
                places_of(rows@) == shown_places(all.take(i as int), self.query@),
            decreases self.candidates@.len() - i,
        {
            proof {
                assert(all.take(i + 1).drop_last() =~= all.take(i as int));
                assert(all.take(i + 1).last() == self.candidates@[i as int]@);
            }
            let ghost so_far = rows@;
            if candidate_is_shown(&self.candidates[i], self.query.as_str()) {
                rows.push(i);
                proof { assert(places_of(rows@) =~= places_of(so_far).push(i as int)); }
            }
            i += 1;
        }
        proof {
            assert(all.take(i as int) =~= all);
            lemma_shown_places(all, self.query@);
        }
        let ghost places = places_of(rows@);
        if rows.len() == 0 {
            self.filtered = rows;
            self.selected = 0;
            self.scroll = 0;
            proof { assert(self@ =~= before.refiltered(before.query)); }
            return;
        }
        let mut selected: usize = 0;
        if let Some(node_id) = current {
            selected = self.first_row(&rows, node_id);
        }
        self.filtered = rows;
        self.selected = selected;
        if self.scroll > selected {
            self.scroll = selected;
        }
        proof { assert(self@ =~= before.refiltered(before.query)); }
    }

    /// Returns the first row with a node, or the top row.
    fn first_row(&self, rows: &Vec<usize>, node_id: u128) -> (out: usize)
        requires
            forall|i: int|
                #![trigger places_of(rows@)[i]]
                0 <= i < rows@.len() ==> 0 <= places_of(rows@)[i] < self.candidates@.len(),
        ensures
            out as int == (match row_of_node(
                candidate_views(self.candidates@),
                places_of(rows@),
                node_id,
            ) {
                Some(row) => row,
                None => 0,
            }),
    {
        let ghost all = candidate_views(self.candidates@);
        let ghost places = places_of(rows@);
        let mut i: usize = 0;
        proof { assert(places.take(0) =~= Seq::<int>::empty()); }
        while i < rows.len()
            invariant
                i <= rows@.len(),
                places == places_of(rows@),
                all == candidate_views(self.candidates@),
                forall|k: int|
                    #![trigger places[k]]
                    0 <= k < rows@.len() ==> 0 <= places[k] < self.candidates@.len(),
                row_of_node(all, places.take(i as int), node_id) is None,
            decreases rows@.len() - i,
        {
            proof {
                assert(places.take(i + 1).drop_last() =~= places.take(i as int));
                assert(places.take(i + 1).last() == places[i as int]);
                assert(all[places[i as int]] == self.candidates@[rows@[i as int] as int]@);
            }
            if self.candidates[rows[i]].node_id == node_id {
                proof {
                    lemma_row_stays(all, places, i + 1, node_id);
                }
                return i;
            }
            i += 1;
        }
        proof { assert(places.take(i as int) =~= places); }
        0
    }

    /// Returns the currently selected candidate, if any candidate is visible.
    fn selected_candidate(&self) -> (out: Option<&SplitCandidate>)
        ensures
            out is Some == self@.current() is Some,
            out matches Some(candidate) ==> self@.current() == Some(candidate@),
    {
        if self.selected < self.filtered.len() {
            let place = self.filtered[self.selected];
            if place < self.candidates.len() {
                return Some(&self.candidates[place]);
            }
        }
        None
    }
}

/// Mutable state used by the split planner event loop.
#[derive(Debug)]
pub struct SplitPlannerApp {
    state: PlannerState,
}

impl View for SplitPlannerApp {
    type V = PlannerView;

    closed spec fn view(&self) -> PlannerView {
        self.state@
    }
}

impl SplitPlannerApp {
    /// The planner can take the next input at all times.
    #[verifier::type_invariant]
    spec fn holds_usable_state(self) -> bool {
        self.state@.is_usable()
    }

    /// Takes the state out to change it; a planner without nodes stands in for it meanwhile.
    fn take_state(&mut self) -> (out: PlannerState)
        ensures
            out@ == old(self)@,
            out@.is_usable(),
    {
        proof { use_type_invariant(&*self); }
        let mut state = PlannerState::idle();
        std::mem::swap(&mut state, &mut self.state);
        state
    }

    /// Creates planner state with deterministic default assignments and full candidate
    /// visibility.
    pub fn new(payload: SplitCandidateList, initial_group_names: &[String]) -> (out: Self)
        requires
            initial_group_names@.len() + 4 <= u32::MAX,
        ensures
            out@ == opened(
                payload.source_view@,
                candidate_views(payload.candidates@),
                filled_groups(named_groups(text_views(initial_group_names@))),
            ),
            out@.is_usable(),
    {
        broadcast use vstd::std_specs::hash::group_hash_axioms;

        let SplitCandidateList { source_view, candidates } = payload;
        let group_names = sanitize_initial_group_names(initial_group_names);
        let count: usize = group_names.len();
        let ghost all = candidate_views(candidates@);
        let mut assignments: HashMap<u128, usize> = HashMap::new();
        let mut i: usize = 0;
        proof {
            assert(all.take(0) =~= Seq::<CandidateView>::empty());
            assert(assignments@ =~= Map::<u128, usize>::empty());
        }
        while i < candidates.len()
            invariant
                i <= candidates@.len(),
                count > 0,
                all == candidate_views(candidates@),
                assignments@ == dealt(all.take(i as int), count as nat),
            decreases candidates@.len() - i,
        {
            broadcast use vstd::std_specs::hash::group_hash_axioms;

            proof {
                assert(all.take(i + 1).drop_last() =~= all.take(i as int));
                assert(all.take(i + 1).last() == candidates@[i as int]@);
            }
            assignments.insert(candidates[i].node_id, i % count);
            i += 1;
        }
        proof {
            assert(all.take(i as int) =~= all);
            lemma_dealt(all, count as nat);
        }
        let mut state = PlannerState {
            source_view,
            candidates,
            group_names,
            active_group: 0,
            query: String::new(),
            search_mode: false,
            rename_mode: false,
            rename_input: String::new(),
            focus: FocusPane::Nodes,
            status: string_from(
                "Arrows move/select, Space assign active group, n new group, r rename, Enter confirm, q cancel",
            ),
            filtered: Vec::new(),
            selected: 0,
            scroll: 0,
            assignments,
            last_list_inner_area: ScreenArea { x: 0, y: 0, width: 0, height: 0 },
            last_group_inner_area: ScreenArea { x: 0, y: 0, width: 0, height: 0 },
            confirmed: false,
            done: false,
        };
        proof {
            assert(state@.query =~= Seq::<char>::empty());
            assert(state@.rename_input =~= Seq::<char>::empty());
            assert(state@.filtered =~= Seq::<int>::empty());
            lemma_refiltered(state@, state@.query);
        }
        state.refresh_filter();
        SplitPlannerApp { state }
    }

    /// Moves the selection one row up or down in the filtered candidate list.
    pub fn move_selection(&mut self, down: bool)
        ensures
            final(self)@ == old(self)@.selection_moved(down),
            final(self)@.is_usable(),
    {
        proof { use_type_invariant(&*self); }
        let rows: usize = self.state.filtered.len();
        if rows > 0 {
            if !down {
                if self.state.selected > 0 {
                    self.state.selected = self.state.selected - 1;
                }
            } else if self.state.selected < rows - 1 {
                self.state.selected = self.state.selected + 1;
            }
        }
    }

    /// Puts the selected candidate into a group.
    fn put_selected(&mut self, group: usize)
        requires
            group < old(self)@.group_names.len(),
        ensures
            final(self)@ == old(self)@.assigned(group as int),
            final(self)@.is_usable(),
    {
        proof { use_type_invariant(&*self); }
        broadcast use vstd::std_specs::hash::group_hash_axioms;

        proof { lemma_assigned(self@, group as int); }
        let node: Option<u128> = match self.selected_candidate() {
            Some(candidate) => Some(candidate.node_id),
            None => None,
        };
        if let Some(node_id) = node {
            let mut state = self.take_state();
            state.assignments.insert(node_id, group);
            self.state = state;
        }
    }

    /// Assigns the selected candidate to the currently active group.
    pub fn assign_selected_to_active_group(&mut self)
        ensures
            final(self)@ == old(self)@.assigned(old(self)@.active_group),
            final(self)@.is_usable(),
    {
        proof { use_type_invariant(&*self); }
        let group = self.state.active_group;
        self.put_selected(group);
    }

    /// Assigns the selected candidate to the provided group index when it exists.
    pub fn assign_selected_to_group(&mut self, group_index: usize)
        ensures
            final(self)@ == (if group_index < old(self)@.group_names.len() {
                old(self)@.assigned(group_index as int)
            } else {
                old(self)@
            }),
            final(self)@.is_usable(),
    {
        proof { use_type_invariant(&*self); }
        if group_index < self.state.group_names.len() {
            self.put_selected(group_index);
        }
    }

    /// Returns the group before or behind a group, around the ends.
    fn neighbor_of(&self, group: usize, forward: bool) -> (out: usize)
        requires
            group < self@.group_names.len(),
        ensures
            out as int == neighbor(group as int, self@.group_names.len() as int, forward),
            out < self@.group_names.len(),
    {
        let count: usize = self.state.group_names.len();
        proof { lemma_neighbor(group as int, count as int, forward); }
        if forward {
            if group == count - 1 {
                0
            } else {
                group + 1
            }
        } else if group == 0 {
            count - 1
        } else {
            group - 1
        }
    }

    /// Moves the selected candidate to the next or previous group index.
    pub fn cycle_selected_group(&mut self, forward: bool)
        ensures
            final(self)@ == old(self)@.cycled(forward),
            final(self)@.is_usable(),
    {
        proof { use_type_invariant(&*self); }
        let node: Option<u128> = match self.selected_candidate() {
            Some(candidate) => Some(candidate.node_id),
            None => None,
        };
        if let Some(node_id) = node {
            proof { lemma_group_exists(self@, node_id); }
            let group = self.assignment_for(node_id);
            let next = self.neighbor_of(group, forward);
            self.put_selected(next);
        }
    }

    /// Returns the assignment group index for one node id.
    pub fn assignment_for(&self, node_id: u128) -> (out: usize)
        ensures
            out as int == group_of(self@.assignments, node_id),
    {
        broadcast use vstd::std_specs::hash::group_hash_axioms;

        match self.state.assignments.get(&node_id) {
            Some(group) => *group,
            None => 0,
        }
    }

    /// Returns assignment counts for each configured group.
    pub fn assignment_counts(&self) -> (out: Vec<usize>)
        ensures
            out@.len() == self@.group_names.len(),
            forall|group: int|
                #![trigger out@[group]]
                0 <= group < out@.len() ==> out@[group] as nat == group_size(
                    self@.candidates,
                    self@.assignments,
                    group,
                ),
    {
        let ghost all = self@.candidates;
        let ghost assignments = self@.assignments;
        let mut counts: Vec<usize> = Vec::new();
        let mut g: usize = 0;
        while g < self.state.group_names.len()
            invariant
                g <= self.state.group_names@.len(),
                counts@.len() == g,
                forall|k: int| #![trigger counts@[k]] 0 <= k < g ==> counts@[k] == 0,
            decreases self.state.group_names@.len() - g,
        {
            counts.push(0);
            g += 1;
        }
        let mut i: usize = 0;
        proof { assert(all.take(0) =~= Seq::<CandidateView>::empty()); }
        while i < self.state.candidates.len()
            invariant
                i <= self.state.candidates@.len(),
                all == candidate_views(self.state.candidates@),
                assignments == self@.assignments,
                counts@.len() == self.state.group_names@.len(),
                forall|k: int|
                    #![trigger counts@[k]]
                    0 <= k < counts@.len() ==> counts@[k] as nat == group_size(
                        all.take(i as int),
                        assignments,
                        k,
                    ),
            decreases self.state.candidates@.len() - i,
        {
            let group = self.assignment_for(self.state.candidates[i].node_id);
            proof {
                assert(all.take(i + 1).drop_last() =~= all.take(i as int));
                assert(all.take(i + 1).last() == self.state.candidates@[i as int]@);
                lemma_group_size(all.take(i as int), assignments, group as int);
            }
            if group < counts.len() {
                let more = counts[group] + 1;
                counts.set(group, more);
            }
            i += 1;
        }
        proof { assert(all.take(i as int) =~= all); }
        counts
    }

    /// Moves active-group focus forward or backward for assignment and group actions.
    pub fn move_active_group(&mut self, forward: bool)
        ensures
            final(self)@ == old(self)@.group_moved(forward),
            final(self)@.is_usable(),
    {
        proof { use_type_invariant(&*self); }
        let next = self.neighbor_of(self.state.active_group, forward);
        self.state.active_group = next;
    }

    /// Creates a new group with a deterministic unique name and focuses it.
    pub fn create_group(&mut self)
        requires
            2 * old(self)@.group_names.len() + 1 <= usize::MAX,
        ensures
            final(self)@ == old(self)@.group_created(),
            final(self)@.is_usable(),
    {
        proof { use_type_invariant(&*self); }
        let ghost before = self@;
        let count: usize = self.state.group_names.len();
        let name = first_free_name(&self.state.group_names, "group-", count as u64 + 1);
        self.state.status = quoted("created group '", name.as_str(), "'");
        let mut state = self.take_state();
        state.group_names.push(name);
        state.active_group = count;
        state.focus = FocusPane::Groups;
        self.state = state;
        proof {
            assert(self@.group_names =~= before.group_names.push(before.new_name()));
            assert(self@ =~= before.group_created());
        }
    }

    /// Starts inline rename mode for the currently active group.
    pub fn begin_rename_active_group(&mut self)
        ensures
            final(self)@ == old(self)@.rename_begun(),
            final(self)@.is_usable(),
    {
        proof { use_type_invariant(&*self); }
        self.state.rename_input = self.state.group_names[self.state.active_group].clone();
        self.state.rename_mode = true;
        self.state.status = string_from("rename mode: Enter apply, Esc cancel");
    }

    /// Returns whether another group than the active one has a name.
    fn name_is_taken(&self, name: &str) -> (out: bool)
        ensures
            out == self@.is_taken(name@),
    {
        let ghost names = self@.group_names;
        let mut i: usize = 0;
        while i < self.state.group_names.len()
            invariant
                i <= self.state.group_names@.len(),
                names == text_views(self.state.group_names@),
                names == self@.group_names,
                forall|k: int|
                    #![trigger names[k]]
                    0 <= k < i && k != self.state.active_group ==> names[k] != name@,
            decreases self.state.group_names@.len() - i,
        {
            if i != self.state.active_group && same_text(self.state.group_names[i].as_str(), name) {
                proof { assert(self@.group_names[i as int] == name@); }
                return true;
            }
            i += 1;
        }
        false
    }

    /// Applies the currently typed rename input to the active group with uniqueness checks.
    pub fn apply_group_rename(&mut self)
        ensures
            final(self)@ == old(self)@.renamed(),
            final(self)@.is_usable(),
    {
        proof { use_type_invariant(&*self); }
        let ghost before = self@;
        let name = trim_text(self.state.rename_input.as_str());
        if chars_of(name.as_str()).len() == 0 {
            self.state.status = string_from("group name must not be empty");
            return;
        }
        if self.name_is_taken(name.as_str()) {
            self.state.status = quoted("group name '", name.as_str(), "' already exists");
            return;
        }
        self.state.status = quoted("renamed group to '", name.as_str(), "'");
        let mut state = self.take_state();
        state.group_names.set(state.active_group, name);
        self.state = state;
        self.state.rename_mode = false;
        self.state.rename_input = String::new();
        proof {
            assert(self@.group_names =~= before.group_names.update(before.active_group, name@));
            assert(self@.rename_input =~= Seq::<char>::empty());
            assert(self@ =~= before.renamed());
        }
    }

    /// Moves the nodes of later groups up where a group goes.
    fn close_gap(&mut self, removed: usize)
        ensures
            final(self)@ == (PlannerView {
                assignments: old(self)@.assignments.map_values(
                    |group: usize| group_without(group, removed as int),
                ),
                ..old(self)@
            }),
    {
        proof { use_type_invariant(&*self); }
        broadcast use vstd::std_specs::hash::group_hash_axioms;

        let ghost before = self@;
        let ghost all = self@.candidates;
        let mut moved: HashMap<u128, usize> = HashMap::new();
        let mut i: usize = 0;
        while i < self.state.candidates.len()
            invariant
                i <= self.state.candidates@.len(),
                *self == *old(self),
                before == self@,
                all == candidate_views(self.state.candidates@),
                before.is_usable(),
                forall|node_id: u128| #[trigger]
                    moved@.contains_key(node_id) ==> has_node(all, node_id) && moved@[node_id]
                        == group_without(group_of(before.assignments, node_id) as usize, removed as int),
                forall|k: int|
                    #![trigger all[k]]
                    0 <= k < i ==> moved@.contains_key(all[k].node_id),
            decreases self.state.candidates@.len() - i,
        {
            broadcast use vstd::std_specs::hash::group_hash_axioms;

            let node_id = self.state.candidates[i].node_id;
            proof {
                assert(all[i as int].node_id == node_id);
                assert(has_node(all, node_id));
            }
            let group = self.assignment_for(node_id);
            let next: usize = if group > removed {
                group - 1
            } else if group == removed {
                0
            } else {
                group
            };
            moved.insert(node_id, next);
            i += 1;
        }
        self.state.assignments = moved;
        proof {
            let wanted = before.assignments.map_values(
                |group: usize| group_without(group, removed as int),
            );
            assert forall|node_id: u128| #[trigger]
                moved@.contains_key(node_id) <==> wanted.contains_key(node_id) by {
                assert(before.assignments.contains_key(node_id) <==> has_node(all, node_id));
                if has_node(all, node_id) {
                    let k = choose|k: int|
                        0 <= k < all.len() && (#[trigger] all[k]).node_id == node_id;
                    assert(moved@.contains_key(all[k].node_id));
                }
            }
            assert(moved@ =~= wanted);
        }
    }

    /// Deletes the active group when safe and keeps assignment indices stable.
    pub fn delete_active_group(&mut self)
        ensures
            final(self)@ == old(self)@.group_deleted(),
            final(self)@.is_usable(),
    {
        let ghost before = self@;
        proof {
            use_type_invariant(&*self);
            lemma_deleted(before);
        }
        if self.state.group_names.len() <= 2 {
            self.state.status = string_from("at least two groups are required");
            return;
        }
        let counts = self.assignment_counts();
        if counts[self.state.active_group] > 0 {
            self.state.status = string_from("move nodes out of the group before deleting it");
            return;
        }
        let removed = self.state.active_group;
        self.close_gap(removed);
        let mut state = self.take_state();
        let name = state.group_names.remove(removed);
        if state.active_group >= state.group_names.len() {
            state.active_group = state.group_names.len() - 1;
        }
        self.state = state;
        self.state.status = quoted("deleted group '", name.as_str(), "'");
        proof {
            assert(self@.group_names =~= before.group_names.remove(removed as int));
            assert(self@ =~= before.group_deleted());
        }
    }

    /// Finalizes split selection when all groups are non-empty and at least two groups exist.
    pub fn confirm(&mut self)
        ensures
            final(self)@ == old(self)@.confirmation(),
            final(self)@.is_usable(),
    {
        proof { use_type_invariant(&*self); }
        let ghost before = self@;
        if self.state.group_names.len() < 2 {
            self.state.status = string_from("split requires at least two groups");
            return;
        }
        let counts = self.assignment_counts();
        let mut i: usize = 0;
        while i < counts.len()
            invariant
                i <= counts@.len(),
                *self == *old(self),
                before == self@,
                before.is_usable(),
                counts@.len() == before.group_names.len(),
                forall|group: int|
                    #![trigger counts@[group]]
                    0 <= group < counts@.len() ==> counts@[group] as nat == group_size(
                        before.candidates,
                        before.assignments,
                        group,
                    ),
                forall|group: int| #![trigger counts@[group]] 0 <= group < i ==> counts@[group] > 0,
            decreases counts@.len() - i,
        {
            if counts[i] == 0 {
                proof {
                    assert(group_size(before.candidates, before.assignments, i as int) == 0);
                }
                self.state.status = string_from(
                    "each group must contain at least one node before confirming",
                );
                return;
            }
            i += 1;
        }
        proof {
            assert(!before.has_empty_group()) by {
                if before.has_empty_group() {
                    let group = choose|group: int|
                        0 <= group < before.group_names.len() && #[trigger] group_size(
                            before.candidates,
                            before.assignments,
                            group,
                        ) == 0;
                    assert(counts@[group] > 0);
                }
            }
        }
        self.state.confirmed = true;
        self.state.done = true;
    }

    /// Handles one key while a group is renamed.
    fn on_rename_key(&mut self, key: PlannerKey)
        ensures
            final(self)@ == old(self)@.after_rename_key(key),
    {
        proof { use_type_invariant(&*self); }
        match key {
            PlannerKey::Esc => {
                self.state.rename_mode = false;
                self.state.rename_input = String::new();
                self.state.status = string_from("rename cancelled");
                proof { assert(self@.rename_input =~= Seq::<char>::empty()); }
            },
            PlannerKey::Enter => {
                self.apply_group_rename();
            },
            PlannerKey::Backspace => {
                self.state.rename_input = without_last(self.state.rename_input.as_str());
            },
            PlannerKey::Char(c) => {
                let mut input = self.state.rename_input.clone();
                input.push(c);
                self.state.rename_input = input;
            },
            _ => {},
        }
    }

    /// Replaces the query and shows what it finds.
    fn set_query(&mut self, query: String)
        ensures
            final(self)@ == old(self)@.refiltered(query@),
            final(self)@.is_usable(),
    {
        let ghost before = self@;
        let ghost wanted = query@;
        let mut state = self.take_state();
        state.query = query;
        proof { lemma_refiltered(state@, wanted); }
        state.refresh_filter();
        proof { assert(state@ =~= before.refiltered(wanted)); }
        self.state = state;
    }

    /// Handles one key while a query is typed.
    fn on_search_key(&mut self, key: PlannerKey)
        ensures
            final(self)@ == old(self)@.after_search_key(key),
    {
        proof { use_type_invariant(&*self); }
        match key {
            PlannerKey::Esc => {
                self.state.search_mode = false;
                self.state.status = string_from("search cancelled");
            },
            PlannerKey::Enter => {
                self.state.search_mode = false;
                let mut status = string_from("filter applied (");
                push_decimal(&mut status, self.state.filtered.len() as u64);
                push_text(&mut status, " nodes)");
                self.state.status = status;
            },
            PlannerKey::Backspace => {
                let query = without_last(self.state.query.as_str());
                self.set_query(query);
            },
            PlannerKey::Char(c) => {
                let mut query = self.state.query.clone();
                query.push(c);
                self.set_query(query);
            },
            _ => {},
        }
    }

    /// Moves up or down in the focused list.
    fn move_focused(&mut self, down: bool)
        ensures
            final(self)@ == old(self)@.moved(down),
    {
        proof { use_type_invariant(&*self); }
        match self.state.focus {
            FocusPane::Nodes => self.move_selection(down),
            FocusPane::Groups => self.move_active_group(down),
        }
    }

    /// Handles one character outside of rename and search.
    fn on_char(&mut self, c: char)
        requires
            2 * old(self)@.group_names.len() + 1 <= usize::MAX,
        ensures
            final(self)@ == old(self)@.after_char(c),
    {
        proof { use_type_invariant(&*self); }
        match c {
            'q' => {
                self.state.done = true;
                self.state.status = string_from("split cancelled");
            },
            'k' => self.move_focused(false),
            'j' => self.move_focused(true),
            'h' => self.cycle_selected_group(false),
            'l' => self.cycle_selected_group(true),
            ' ' | 'a' => self.assign_selected_to_active_group(),
            '[' => self.move_active_group(false),
            ']' => self.move_active_group(true),
            'n' => self.create_group(),
            'r' => self.begin_rename_active_group(),
            'x' => self.delete_active_group(),
            '/' => {
                self.state.search_mode = true;
                self.state.status = string_from("search mode: type to filter, Enter to apply");
            },
            'c' => {
                let query = String::new();
                proof { assert(query@ =~= Seq::<char>::empty()); }
                self.set_query(query);
                self.state.status = string_from("search filter cleared");
            },
            _ => {
                if '1' <= c && c <= '9' {
                    self.assign_selected_to_group((c as u32 - '1' as u32) as usize);
                }
            },
        }
    }

    /// Handles one key event in normal, search, or rename modes.
    pub fn on_key(&mut self, key: PlannerKey)
        requires
            2 * old(self)@.group_names.len() + 1 <= usize::MAX,
        ensures
            final(self)@ == old(self)@.after_key(key),
            final(self)@.is_usable(),
    {
        proof {
            use_type_invariant(&*self);
            law_keys_keep_the_planner_usable(self@, key);
        }
        if self.state.rename_mode {
            self.on_rename_key(key);
        } else if self.state.search_mode {
            self.on_search_key(key);
        } else {
            match key {
                PlannerKey::Esc => self.on_char('q'),
                PlannerKey::Enter => self.confirm(),
                PlannerKey::Tab => {
                    self.state.focus = match self.state.focus {
                        FocusPane::Nodes => FocusPane::Groups,
                        FocusPane::Groups => FocusPane::Nodes,
                    };
                },
                PlannerKey::Up => self.move_focused(false),
                PlannerKey::Down => self.move_focused(true),
                PlannerKey::Left => self.cycle_selected_group(false),
                PlannerKey::Right => self.cycle_selected_group(true),
                PlannerKey::Char(c) => self.on_char(c),
                PlannerKey::Backspace | PlannerKey::Other => {},
            }
        }
    }

    /// Handles mouse hover and click updates over node and group panes.
    pub fn on_mouse(&mut self, action: MouseAction, column: u16, row: u16)
        ensures
            final(self)@ == old(self)@.after_mouse(action, column, row),
            final(self)@.is_usable(),
    {
        proof { use_type_invariant(&*self); }
        let ghost before = self@;
        let group_count: usize = self.state.group_names.len();
        proof { law_the_mouse_keeps_the_planner_usable(before, action, column, row); }
        if action == MouseAction::Other {
            return;
        }
        let rows: usize = self.state.filtered.len();
        let list = self.state.last_list_inner_area;
        if rows > 0 && holds_cell(list, column, row) {
            let offset = (row - list.y) as usize;
            if self.state.scroll < rows && offset < rows - self.state.scroll {
                self.state.selected = self.state.scroll + offset;
                if action == MouseAction::LeftDown {
                    self.assign_selected_to_active_group();
                }
            }
        }
        proof { assert(self@ == before.pointed_at_node(action, column, row)); }
        let groups = self.state.last_group_inner_area;
        if holds_cell(groups, column, row) {
            let group = (row - groups.y) as usize;
            if group < group_count {
                self.state.active_group = group;
                self.state.focus = FocusPane::Groups;
            }
        }
    }

    /// Takes the areas of a drawn screen and scrolls so that the selection is shown.
    pub fn lay_out(&mut self, list_area: ScreenArea, group_area: ScreenArea)
        ensures
            final(self)@ == old(self)@.laid_out(list_area, group_area),
            final(self)@.is_usable(),
    {
        proof { use_type_invariant(&*self); }
        let visible_rows = list_area.height as usize;
        if self.state.selected < self.state.scroll {
            self.state.scroll = self.state.selected;
        }
        if visible_rows > 0 && self.state.selected - self.state.scroll >= visible_rows {
            self.state.scroll = self.state.selected - (visible_rows - 1);
        }
        if self.state.filtered.len() < self.state.scroll {
            self.state.scroll = 0;
        }
        self.state.last_list_inner_area = list_area;
        self.state.last_group_inner_area = group_area;
    }

    /// Returns the nodes of a group in ascending order.
    fn members_of(&self, group: usize) -> (out: Vec<u128>)
        ensures
            is_ascending(out@),
            out@.to_multiset() == members(
                self@.candidates,
                self@.assignments,
                group as int,
            ).to_multiset(),
    {
        let ghost all = self@.candidates;
        let ghost assignments = self@.assignments;
        let mut out: Vec<u128> = Vec::new();
        let mut i: usize = 0;
        proof {
            assert(all.take(0) =~= Seq::<CandidateView>::empty());
            assert(out@ =~= members(all.take(0), assignments, group as int));
        }
        while i < self.state.candidates.len()
            invariant
                i <= self.state.candidates@.len(),
                all == candidate_views(self.state.candidates@),
                assignments == self@.assignments,
                is_ascending(out@),
                out@.to_multiset() == members(
                    all.take(i as int),
                    assignments,
                    group as int,
                ).to_multiset(),
            decreases self.state.candidates@.len() - i,
        {
            let node_id = self.state.candidates[i].node_id;
            proof {
                assert(all.take(i + 1).drop_last() =~= all.take(i as int));
                assert(all.take(i + 1).last() == self.state.candidates@[i as int]@);
            }
            if self.assignment_for(node_id) == group {
                let ghost so_far = members(all.take(i as int), assignments, group as int);
                let ghost sorted = out@;
                let mut at: usize = 0;
                while at < out.len() && out[at] < node_id
                    invariant
                        at <= out@.len(),
                        out@ == sorted,
                        is_ascending(sorted),
                        forall|k: int| #![trigger sorted[k]] 0 <= k < at ==> sorted[k] < node_id,
                    decreases out@.len() - at,
                {
                    at += 1;
                }
                out.insert(at, node_id);
                proof {
                    assert(out@ =~= sorted.insert(at as int, node_id));
                    vstd::seq_lib::to_multiset_insert(sorted, at as int, node_id);
                    vstd::seq_lib::to_multiset_build(so_far, node_id);
                }
            }
            i += 1;
        }
        proof { assert(all.take(i as int) =~= all); }
        out
    }

    /// Returns the final split selection after the loop exits.
    pub fn outcome(&self) -> (out: InteractiveSplitSelection)
        ensures
            self@.is_outcome(target_views(out.targets@), out.cancelled),
    {
        if !self.state.confirmed {
            return InteractiveSplitSelection { targets: Vec::new(), cancelled: true };
        }
        let mut targets: Vec<InteractiveSplitTarget> = Vec::new();
        let mut group: usize = 0;
        while group < self.state.group_names.len()
            invariant
                group <= self.state.group_names@.len(),
                targets@.len() == group,
                forall|g: int|
                    #![trigger targets@[g]]
                    0 <= g < group ==> self@.is_target(g, targets@[g]@),
            decreases self.state.group_names@.len() - group,
        {
            let node_ids = self.members_of(group);
            let name = self.state.group_names[group].clone();
            targets.push(InteractiveSplitTarget { name, node_ids });
            proof { assert(self@.is_target(group as int, targets@[group as int]@)); }
            group += 1;
        }
        proof {
            let views = target_views(targets@);
            assert forall|g: int| #![trigger views[g]] 0 <= g < views.len() implies self@.is_target(
                g,
                views[g],
            ) by {
                assert(views[g] == targets@[g]@);
            }
        }
        InteractiveSplitSelection { targets, cancelled: false }
    }

    /// Returns whether the planner is finished.
    pub fn is_done(&self) -> (out: bool)
        ensures
            out == self@.done,
    {
        self.state.done
    }

    /// Returns the name of the view that is split.
    pub fn source_view(&self) -> (out: &str)
        ensures
            out@ == self@.source_view,
    {
        self.state.source_view.as_str()
    }

    /// Returns the number of groups.
    pub fn group_count(&self) -> (out: usize)
        ensures
            out as nat == self@.group_names.len(),
    {
        self.state.group_names.len()
    }

    /// Returns the last status.
    pub fn status(&self) -> (out: &str)
        ensures
            out@ == self@.status,
    {
        self.state.status.as_str()
    }

    /// Recomputes candidate filtering from the current search query while preserving selection.
    pub fn refresh_filter(&mut self)
        ensures
            final(self)@ == old(self)@.refiltered(old(self)@.query),
            final(self)@.is_usable(),
    {
        let mut state = self.take_state();
        proof { lemma_refiltered(state@, state@.query); }
        state.refresh_filter();
        self.state = state;
    }

    /// Returns the currently selected candidate, if any candidate is visible.
    pub fn selected_candidate(&self) -> (out: Option<&SplitCandidate>)
        ensures
            out is Some == self@.current() is Some,
            out matches Some(candidate) ==> self@.current() == Some(candidate@),
    {
        self.state.selected_candidate()
    }
}

/// A row found among the first ones stays the first.
proof fn lemma_row_stays(
    candidates: Seq<CandidateView>,
    rows: Seq<int>,
    count: int,
    node_id: u128,
)
    requires
        0 <= count <= rows.len(),
        row_of_node(candidates, rows.take(count), node_id) is Some,
    ensures
        row_of_node(candidates, rows, node_id) == row_of_node(
            candidates,
            rows.take(count),
            node_id,
        ),
    decreases rows.len() - count,
{
    if count < rows.len() {
        assert(rows.take(count + 1).drop_last() =~= rows.take(count));
        lemma_row_stays(candidates, rows, count + 1, node_id);
    } else {
        assert(rows.take(count) =~= rows);
    }
}

} // verus!
