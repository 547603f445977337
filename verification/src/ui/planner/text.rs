//! Texts that the planner shows.

use vstd::prelude::*;

use super::{lemma_shown_places, text_or_dash, SplitCandidate, SplitPlannerApp};
use crate::ui::labels::{
    fill, join_texts, joined_texts, push_left, push_right, shortened, text_views, truncate,
};
use crate::ui::planner_laws::lemma_group_exists;
use crate::ui::planner_rules::{
    group_of, group_size, node_text, or_dash, CandidateView, FocusPane, PlannerView,
};
use crate::catalog::paths::uuid_text;
use crate::text::{chars_of, decimal_text, push_decimal, push_text, string_of};

verus! {

/// Text of a number, or another text where there is none.
pub open spec fn number_or(value: Option<u64>, other: Seq<char>) -> Seq<char> {
    match value {
        Some(number) => decimal_text(number as nat),
        None => other,
    }
}

/// Returns the text of a number, or another text where there is none.
fn number_text(value: Option<u64>, other: &str) -> (out: String)
    ensures
        out@ == number_or(value, other@),
{
    let mut out = String::new();
    match value {
        Some(number) => push_decimal(&mut out, number),
        None => push_text(&mut out, other),
    }
    proof { assert(out@ =~= number_or(value, other@)); }
    out
}

/// Texts joined by commas, or a dash where there are none.
pub open spec fn listed(list: Seq<Seq<char>>) -> Seq<char> {
    if list.len() == 0 {
        "-"@
    } else {
        joined_texts(list, ", "@)
    }
}

/// Returns texts joined by commas, or a dash where there are none.
fn list_text(list: &Vec<String>) -> (out: String)
    ensures
        out@ == listed(text_views(list@)),
{
    if list.len() == 0 {
        let mut out = String::new();
        push_text(&mut out, "-");
        proof { assert(out@ =~= "-"@); }
        out
    } else {
        join_texts(list, ", ")
    }
}

/// Compact GPU text of a candidate.
pub open spec fn gpu_text(candidate: CandidateView) -> Seq<char> {
    let count = match candidate.gpu_count {
        Some(count) => count,
        None => 0,
    };
    let vendor = match candidate.gpu_vendor {
        Some(vendor) => vendor,
        None => "gpu"@,
    };
    if count == 0 {
        "gpu=0"@
    } else {
        shortened(vendor, 10) + ":"@ + decimal_text(count as nat)
    }
}

/// Builds one compact GPU descriptor string for the split candidate list table.
pub fn format_gpu(candidate: &SplitCandidate) -> (out: String)
    ensures
        out@ == gpu_text(candidate@),
{
    let mut out = String::new();
    let count: u64 = match candidate.gpu_count {
        Some(count) => count,
        None => 0,
    };
    if count == 0 {
        push_text(&mut out, "gpu=0");
        proof { assert(out@ =~= gpu_text(candidate@)); }
        return out;
    }
    let vendor = match &candidate.gpu_vendor {
        Some(vendor) => truncate(vendor.as_str(), 10),
        None => truncate("gpu", 10),
    };
    push_text(&mut out, vendor.as_str());
    push_text(&mut out, ":");
    push_decimal(&mut out, count);
    proof { assert(out@ =~= gpu_text(candidate@)); }
    out
}

/// Formats one split candidate label list for the node-details pane.
pub fn format_candidate_labels(candidate: &SplitCandidate) -> (out: String)
    ensures
        out@ == listed(candidate@.labels),
{
    list_text(&candidate.labels)
}

/// Returns a stable short ID for compact list rows.
pub fn short_uuid(value: u128) -> (out: String)
    ensures
        out@ == node_text(value).take(8),
{
    let text = uuid_text(value);
    let chars = chars_of(text.as_str());
    proof { lemma_node_text(value); }
    let out = string_of(vstd::slice::slice_subrange(chars.as_slice(), 0, 8));
    proof { assert(out@ =~= node_text(value).take(8)); }
    out
}

/// A node text has thirty-six characters.
proof fn lemma_node_text(value: u128)
    ensures
        node_text(value).len() == 36,
{
    crate::text::lemma_hex_width(value);
    crate::text::law_hex_number_round_trip(value as nat, 32);
}

impl PlannerView {
    /// Row of a candidate in the list; the memory text is given.
    pub open spec fn row_text(self, candidate: CandidateView, memory: Seq<char>) -> Seq<char> {
        let group = group_of(self.assignments, candidate.node_id);
        let number = decimal_text((group + 1) as nat);
        let name = if group < self.group_names.len() {
            shortened(self.group_names[group], 10)
        } else {
            "-"@
        };
        let id = node_text(candidate.node_id).take(8);
        let host = shortened(candidate.hostname, 20);
        let address = shortened(candidate.address, 18);
        let cpu = shortened(or_dash(candidate.cpu_vendor), 10);
        "["@ + fill(number, 2) + number + ":"@ + name + "] "@ + id + fill(id, 8) + " "@ + host
            + fill(host, 20) + " "@ + address + fill(address, 18) + " "@ + candidate.health + fill(
            candidate.health,
            9,
        ) + " "@ + cpu + fill(cpu, 10) + " "@ + memory + " "@ + gpu_text(candidate)
    }

    /// Line of a group.
    pub open spec fn group_line(self, group: int) -> Seq<char> {
        (if group == self.active_group {
            "*"@
        } else {
            " "@
        }) + " "@ + decimal_text((group + 1) as nat) + ". "@ + self.group_names[group] + " ("@
            + decimal_text(group_size(self.candidates, self.assignments, group)) + ")"@
    }

    /// Lines of all groups.
    pub open spec fn group_lines(self) -> Seq<Seq<char>> {
        Seq::new(self.group_names.len(), |group: int| self.group_line(group))
    }

    /// Name of the input mode.
    pub open spec fn mode_text(self) -> Seq<char> {
        if self.rename_mode {
            "Rename"@
        } else if self.search_mode {
            "Search"@
        } else {
            "Normal"@
        }
    }

    /// Name of the focused pane.
    pub open spec fn focus_text(self) -> Seq<char> {
        match self.focus {
            FocusPane::Nodes => "Nodes"@,
            FocusPane::Groups => "Groups"@,
        }
    }

    /// Text of the group pane.
    pub open spec fn summary_text(self) -> Seq<char> {
        "Mode: "@ + self.mode_text() + "\nFocus: "@ + self.focus_text() + "\nQuery: "@ + (
        if self.query.len() == 0 {
            "<none>"@
        } else {
            self.query
        }) + "\n\n"@ + joined_texts(self.group_lines(), "\n"@) + "\n\nRename input: "@ + (
        if self.rename_mode {
            self.rename_input
        } else {
            "<none>"@
        })
            + "\n\nKeys:\n  Tab switch focus\n  ↑/↓ move selection\n  ←/→ cycle node group\n  1..9 assign group\n  Space assign active group\n  [ ] change active group\n  n new group\n  r rename active group\n  x delete empty group\n  / search\n  Enter confirm\n  q cancel\n\nStatus:\n"@
            + self.status
    }

    /// Text of the details pane; the memory text is given.
    pub open spec fn details_text(self, memory: Seq<char>) -> Seq<char> {
        match self.current() {
            Some(candidate) => candidate_details(candidate, memory),
            None => "No nodes match the current filter."@,
        }
    }

    /// Rows of the list that are on the screen, and which of them is selected.
    pub open spec fn last_row(self, visible_rows: int) -> int {
        if self.scroll + visible_rows < self.filtered.len() {
            self.scroll + visible_rows
        } else {
            self.filtered.len() as int
        }
    }
}

/// Details of a candidate; the memory text is given.
pub open spec fn candidate_details(candidate: CandidateView, memory: Seq<char>) -> Seq<char> {
    "Node: "@ + node_text(candidate.node_id) + "\nHostname: "@ + candidate.hostname
        + "\nAddress: "@ + candidate.address + "\nHealth: "@ + candidate.health
        + "\nActive view: "@ + candidate.active_view + "\nWireGuard: "@ + (
    if candidate.wireguard_enabled {
        "enabled"@
    } else {
        "disabled"@
    }) + "\nLabels: "@ + listed(candidate.labels) + "\nCPU vendor: "@ + or_dash(
        candidate.cpu_vendor,
    ) + "\nCPU brand: "@ + or_dash(candidate.cpu_brand) + "\nCPU cores/logical: "@ + number_or(
        candidate.cpu_cores,
        "-"@,
    ) + "/"@ + number_or(candidate.cpu_logical, "-"@) + "\nMemory: "@ + memory
        + "\nGPU vendor: "@ + or_dash(candidate.gpu_vendor) + "\nGPU count: "@ + number_or(
        candidate.gpu_count,
        "0"@,
    ) + "\nGPU models: "@ + listed(candidate.gpu_models)
}

/// Returns the details of a candidate; the memory text is given.
fn details_of(candidate: &SplitCandidate, memory: &str) -> (out: String)
    ensures
        out@ == candidate_details(candidate@, memory@),
{
    let mut out = String::new();
    push_text(&mut out, "Node: ");
    push_text(&mut out, uuid_text(candidate.node_id).as_str());
    push_text(&mut out, "\nHostname: ");
    push_text(&mut out, candidate.hostname.as_str());
    push_text(&mut out, "\nAddress: ");
    push_text(&mut out, candidate.address.as_str());
    push_text(&mut out, "\nHealth: ");
    push_text(&mut out, candidate.health.as_str());
    push_text(&mut out, "\nActive view: ");
    push_text(&mut out, candidate.active_view.as_str());
    push_text(&mut out, "\nWireGuard: ");
    push_text(
        &mut out,
        if candidate.wireguard_enabled {
            "enabled"
        } else {
            "disabled"
        },
    );
    push_text(&mut out, "\nLabels: ");
    push_text(&mut out, format_candidate_labels(candidate).as_str());
    push_text(&mut out, "\nCPU vendor: ");
    push_text(&mut out, text_or_dash(&candidate.cpu_vendor).as_str());
    push_text(&mut out, "\nCPU brand: ");
    push_text(&mut out, text_or_dash(&candidate.cpu_brand).as_str());
    push_text(&mut out, "\nCPU cores/logical: ");
    push_text(&mut out, number_text(candidate.cpu_cores, "-").as_str());
    push_text(&mut out, "/");
    push_text(&mut out, number_text(candidate.cpu_logical, "-").as_str());
    push_text(&mut out, "\nMemory: ");
    push_text(&mut out, memory);
    push_text(&mut out, "\nGPU vendor: ");
    push_text(&mut out, text_or_dash(&candidate.gpu_vendor).as_str());
    push_text(&mut out, "\nGPU count: ");
    push_text(&mut out, number_text(candidate.gpu_count, "0").as_str());
    push_text(&mut out, "\nGPU models: ");
    push_text(&mut out, list_text(&candidate.gpu_models).as_str());
    proof { assert(out@ =~= candidate_details(candidate@, memory@)); }
    out
}

impl SplitPlannerApp {
    /// Returns the list row of the candidate in a shown row; the memory text is given.
    pub fn row_text(&self, row: usize, memory: &str) -> (out: String)
        requires
            row < self@.filtered.len(),
        ensures
            out@ == self@.row_text(self@.candidates[self@.filtered[row as int]], memory@),
    {
        proof { use_type_invariant(self); }
        proof { lemma_shown_places(self@.candidates, self@.query); }
        proof { assert(self@.filtered[row as int] == self.state.filtered@[row as int]); }
        let candidate = &self.state.candidates[self.state.filtered[row]];
        let ghost view = candidate@;
        let group_count: usize = self.state.group_names.len();
        proof { lemma_group_exists(self@, candidate.node_id); }
        let group = self.assignment_for(candidate.node_id);
        let mut number = String::new();
        push_decimal(&mut number, group as u64 + 1);
        proof { assert(number@ =~= decimal_text((group + 1) as nat)); }
        let name = truncate(self.state.group_names[group].as_str(), 10);
        let cpu = truncate(text_or_dash(&candidate.cpu_vendor).as_str(), 10);
        let mut out = String::new();
        push_text(&mut out, "[");
        push_right(&mut out, number.as_str(), 2);
        push_text(&mut out, ":");
        push_text(&mut out, name.as_str());
        push_text(&mut out, "] ");
        push_left(&mut out, short_uuid(candidate.node_id).as_str(), 8);
        push_text(&mut out, " ");
        push_left(&mut out, truncate(candidate.hostname.as_str(), 20).as_str(), 20);
        push_text(&mut out, " ");
        push_left(&mut out, truncate(candidate.address.as_str(), 18).as_str(), 18);
        push_text(&mut out, " ");
        push_left(&mut out, candidate.health.as_str(), 9);
        push_text(&mut out, " ");
        push_left(&mut out, cpu.as_str(), 10);
        push_text(&mut out, " ");
        push_text(&mut out, memory);
        push_text(&mut out, " ");
        push_text(&mut out, format_gpu(candidate).as_str());
        proof { assert(out@ =~= self@.row_text(view, memory@)); }
        out
    }

    /// Returns the candidate in a shown row.
    pub fn candidate_at(&self, row: usize) -> (out: &SplitCandidate)
        requires
            row < self@.filtered.len(),
        ensures
            out@ == self@.candidates[self@.filtered[row as int]],
    {
        proof { use_type_invariant(self); }
        proof { lemma_shown_places(self@.candidates, self@.query); }
        proof { assert(self@.filtered[row as int] == self.state.filtered@[row as int]); }
        &self.state.candidates[self.state.filtered[row]]
    }

    /// Returns the first row on the screen and the row behind the last one.
    pub fn visible_range(&self, visible_rows: usize) -> (out: (usize, usize))
        ensures
            out.0 as int == self@.scroll,
            out.1 as int == self@.last_row(visible_rows as int),
    {
        let rows: usize = self.state.filtered.len();
        if self.state.scroll < rows && visible_rows < rows - self.state.scroll {
            (self.state.scroll, self.state.scroll + visible_rows)
        } else {
            (self.state.scroll, rows)
        }
    }

    /// Returns which line of the screen is selected, if one is.
    pub fn selected_line(&self, visible_rows: usize) -> (out: Option<usize>)
        ensures
            out == (if self@.scroll <= self@.selected < self@.last_row(visible_rows as int) {
                Some((self@.selected - self@.scroll) as usize)
            } else {
                None
            }),
    {
        let (first, end) = self.visible_range(visible_rows);
        if self.state.selected >= first && self.state.selected < end {
            Some(self.state.selected - first)
        } else {
            None
        }
    }

    /// Returns the line of a group.
    fn group_line(&self, group: usize, count: usize) -> (out: String)
        requires
            group < self@.group_names.len(),
            count as nat == group_size(self@.candidates, self@.assignments, group as int),
        ensures
            out@ == self@.group_line(group as int),
    {
        let group_count: usize = self.state.group_names.len();
        let mut out = String::new();
        push_text(
            &mut out,
            if group == self.state.active_group {
                "*"
            } else {
                " "
            },
        );
        push_text(&mut out, " ");
        push_decimal(&mut out, group as u64 + 1);
        push_text(&mut out, ". ");
        push_text(&mut out, self.state.group_names[group].as_str());
        push_text(&mut out, " (");
        push_decimal(&mut out, count as u64);
        push_text(&mut out, ")");
        proof { assert(out@ =~= self@.group_line(group as int)); }
        out
    }

    /// Returns the lines of all groups.
    fn group_lines(&self) -> (out: Vec<String>)
        ensures
            text_views(out@) == self@.group_lines(),
    {
        let counts = self.assignment_counts();
        let mut out: Vec<String> = Vec::new();
        let mut group: usize = 0;
        while group < self.state.group_names.len()
            invariant
                group <= self.state.group_names@.len(),
                self.state.group_names@.len() == self@.group_names.len(),
                out@.len() == group,
                counts@.len() == self@.group_names.len(),
                forall|g: int|
                    #![trigger counts@[g]]
                    0 <= g < counts@.len() ==> counts@[g] as nat == group_size(
                        self@.candidates,
                        self@.assignments,
                        g,
                    ),
                forall|g: int| #![trigger out@[g]] 0 <= g < group ==> out@[g]@ == self@.group_line(g),
            decreases self.state.group_names@.len() - group,
        {
            let line = self.group_line(group, counts[group]);
            out.push(line);
            group += 1;
        }
        proof { assert(text_views(out@) =~= self@.group_lines()); }
        out
    }

    /// Returns the text of the group pane.
    pub fn summary_text(&self) -> (out: String)
        ensures
            out@ == self@.summary_text(),
    {
        let lines = join_texts(&self.group_lines(), "\n");
        let mut out = String::new();
        push_text(&mut out, "Mode: ");
        push_text(
            &mut out,
            if self.state.rename_mode {
                "Rename"
            } else if self.state.search_mode {
                "Search"
            } else {
                "Normal"
            },
        );
        push_text(&mut out, "\nFocus: ");
        push_text(
            &mut out,
            match self.state.focus {
                FocusPane::Nodes => "Nodes",
                FocusPane::Groups => "Groups",
            },
        );
        push_text(&mut out, "\nQuery: ");
        if chars_of(self.state.query.as_str()).len() == 0 {
            push_text(&mut out, "<none>");
        } else {
            push_text(&mut out, self.state.query.as_str());
        }
        push_text(&mut out, "\n\n");
        push_text(&mut out, lines.as_str());
        push_text(&mut out, "\n\nRename input: ");
        if self.state.rename_mode {
            push_text(&mut out, self.state.rename_input.as_str());
        } else {
            push_text(&mut out, "<none>");
        }
        push_text(
            &mut out,
            "\n\nKeys:\n  Tab switch focus\n  ↑/↓ move selection\n  ←/→ cycle node group\n  1..9 assign group\n  Space assign active group\n  [ ] change active group\n  n new group\n  r rename active group\n  x delete empty group\n  / search\n  Enter confirm\n  q cancel\n\nStatus:\n",
        );
        push_text(&mut out, self.state.status.as_str());
        proof { assert(out@ =~= self@.summary_text()); }
        out
    }

    /// Returns the text of the details pane; the memory text is given.
    pub fn details_text(&self, memory: &str) -> (out: String)
        ensures
            out@ == self@.details_text(memory@),
    {
        match self.selected_candidate() {
            Some(candidate) => details_of(candidate, memory),
            None => {
                let mut out = String::new();
                push_text(&mut out, "No nodes match the current filter.");
                proof { assert(out@ =~= self@.details_text(memory@)); }
                out
            },
        }
    }
}

} // verus!
