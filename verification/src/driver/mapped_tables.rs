//! Device-mapper tables: reading, checking and choosing among saved layouts.

use vstd::prelude::*;

use super::mapped_error::{wrong_layout, MappedErrorView, MappedVolumeError};
use super::mapped_identity::BlockDeviceNumber;
use crate::text::{
    chars_of, decimal_text, decimal_value, law_decimal_round_trip, parse_decimal, push_decimal,
    push_text, same_text,
};

verus! {

/// ASCII whitespace.
pub open spec fn is_blank(c: char) -> bool {
    c == ' ' || c == '\t' || c == '\n' || c == '\u{c}' || c == '\r'
}

/// The pieces of a text between ASCII whitespace, empty ones included.
pub open spec fn blank_pieces(s: Seq<char>) -> Seq<Seq<char>>
    decreases s.len(),
{
    if s.len() == 0 {
        seq![Seq::empty()]
    } else {
        let rest = blank_pieces(s.drop_last());
        if is_blank(s.last()) {
            rest.push(Seq::empty())
        } else {
            rest.drop_last().push(rest.last().push(s.last()))
        }
    }
}

/// Words of a text: its non-empty pieces between ASCII whitespace.
pub open spec fn words(s: Seq<char>) -> Seq<Seq<char>> {
    blank_pieces(s).filter(|piece: Seq<char>| piece.len() > 0)
}

/// Words as plain values.
pub open spec fn word_views(list: Seq<Vec<char>>) -> Seq<Seq<char>> {
    list.map_values(|word: Vec<char>| word@)
}

/// A piece without characters.
proof fn lemma_filter_push(pieces: Seq<Seq<char>>, piece: Seq<char>)
    ensures
        pieces.push(piece).filter(|p: Seq<char>| p.len() > 0) == (if piece.len() > 0 {
            pieces.filter(|p: Seq<char>| p.len() > 0).push(piece)
        } else {
            pieces.filter(|p: Seq<char>| p.len() > 0)
        }),
{
    reveal(Seq::filter);
    assert(pieces.push(piece).drop_last() =~= pieces);
}

/// Cuts a text into its words.
pub fn split_words(text: &str) -> (out: Vec<Vec<char>>)
    ensures
        word_views(out@) == words(text@),
{
    let chars = chars_of(text);
    let ghost keep = |p: Seq<char>| p.len() > 0;
    let mut out: Vec<Vec<char>> = Vec::new();
    let mut current: Vec<char> = Vec::new();
    let ghost mut pieces: Seq<Seq<char>> = Seq::empty();
    let mut i: usize = 0;
    proof {
        assert(chars@.take(0) =~= Seq::<char>::empty());
        assert(pieces.push(current@) =~= seq![Seq::<char>::empty()]);
        reveal(Seq::filter);
        assert(word_views(out@) =~= pieces.filter(keep));
    }
    while i < chars.len()
        invariant
            i <= chars@.len(),
            chars@ == text@,
            keep == |p: Seq<char>| p.len() > 0,
            pieces.push(current@) == blank_pieces(chars@.take(i as int)),
            word_views(out@) == pieces.filter(keep),
        decreases chars@.len() - i,
    {
        let c = chars[i];
        let ghost before = pieces.push(current@);
        proof {
            assert(chars@.take(i + 1).drop_last() =~= chars@.take(i as int));
            assert(chars@.take(i + 1).last() == c);
            assert(before.drop_last() =~= pieces);
            assert(before.last() == current@);
        }
        if c == ' ' || c == '\t' || c == '\n' || c == '\u{c}' || c == '\r' {
            let ghost done = current@;
            let ghost listed = out@;
            proof { lemma_filter_push(pieces, done); }
            if current.len() > 0 {
                out.push(current);
                proof { assert(word_views(out@) =~= word_views(listed).push(done)); }
            }
            current = Vec::new();
            proof { pieces = pieces.push(done); }
        } else {
            current.push(c);
        }
        i += 1;
    }
    let ghost done = current@;
    let ghost listed = out@;
    proof {
        assert(chars@.take(chars@.len() as int) =~= chars@);
        lemma_filter_push(pieces, done);
    }
    if current.len() > 0 {
        out.push(current);
        proof { assert(word_views(out@) =~= word_views(listed).push(done)); }
    }
    proof { assert(word_views(out@) =~= words(text@)); }
    out
}

/// First place of a colon.
pub open spec fn colon_place(s: Seq<char>) -> Option<int>
    decreases s.len(),
{
    if s.len() == 0 {
        None
    } else if colon_place(s.drop_last()) is Some {
        colon_place(s.drop_last())
    } else if s.last() == ':' {
        Some(s.len() - 1)
    } else {
        None
    }
}

/// Device number that a major:minor pair stands for.
pub open spec fn device_number_of(s: Seq<char>) -> Option<BlockDeviceNumber> {
    match colon_place(s) {
        None => None,
        Some(at) => match (decimal_value(s.take(at)), decimal_value(s.skip(at + 1))) {
            (Some(major), Some(minor)) => if major <= u32::MAX && minor <= u32::MAX {
                Some(BlockDeviceNumber { major: major as u32, minor: minor as u32 })
            } else {
                None
            },
            _ => None,
        },
    }
}

/// The first colon of a text is the first one of any longer text.
proof fn lemma_colon_grows(s: Seq<char>, upto: int)
    requires
        0 <= upto <= s.len(),
    ensures
        colon_place(s.take(upto)) is Some ==> colon_place(s) == colon_place(s.take(upto)),
    decreases s.len(),
{
    if upto < s.len() {
        lemma_colon_grows(s.drop_last(), upto);
        assert(s.drop_last().take(upto) =~= s.take(upto));
    } else {
        assert(s.take(upto) =~= s);
    }
}

/// Reads a number of thirty-two bits.
fn parse_number(chars: &[char]) -> (out: Option<u32>)
    ensures
        match decimal_value(chars@) {
            Some(n) => if n <= u32::MAX { out == Some(n as u32) } else { out is None },
            None => out is None,
        },
{
    match parse_decimal(chars) {
        Some(n) => {
            if n <= 0xffff_ffff { Some(n as u32) } else { None }
        },
        None => None,
    }
}

/// Parses one kernel major:minor pair without accepting path aliases.
pub fn parse_device_number(value: &[char]) -> (out: Option<BlockDeviceNumber>)
    ensures
        out == device_number_of(value@),
{
    let mut i: usize = 0;
    proof { assert(value@.take(0) =~= Seq::<char>::empty()); }
    while i < value.len()
        invariant
            i <= value@.len(),
            colon_place(value@.take(i as int)) is None,
        decreases value@.len() - i,
    {
        proof {
            assert(value@.take(i + 1).drop_last() =~= value@.take(i as int));
            assert(value@.take(i + 1).last() == value@[i as int]);
            lemma_colon_grows(value@, i + 1);
        }
        if value[i] == ':' {
            let end: usize = value.len();
            let major_text = vstd::slice::slice_subrange(value, 0, i);
            let minor_text = vstd::slice::slice_subrange(value, i + 1, end);
            proof {
                assert(major_text@ =~= value@.take(i as int));
                assert(minor_text@ =~= value@.skip(i + 1));
            }
            return match (parse_number(major_text), parse_number(minor_text)) {
                (Some(major), Some(minor)) => Some(BlockDeviceNumber { major, minor }),
                _ => None,
            };
        }
        i += 1;
    }
    proof { assert(value@.take(value@.len() as int) =~= value@); }
    None
}

/// Raw target row returned by device-mapper table inspection.
pub type RawTarget = (u64, u64, String, String);

/// Model of a raw target row.
pub type TargetView = (u64, u64, Seq<char>, Seq<char>);

/// A raw target row as plain values.
pub open spec fn target_view(target: RawTarget) -> TargetView {
    (target.0, target.1, target.2@, target.3@)
}

/// A table as plain values.
pub open spec fn table_view(table: Seq<RawTarget>) -> Seq<TargetView> {
    table.map_values(|target: RawTarget| target_view(target))
}

/// Parameters of a linear target name the backend at offset zero and nothing else.
pub open spec fn names_backend(parameters: Seq<char>, backend: BlockDeviceNumber) -> bool {
    let list = words(parameters);
    &&& list.len() == 2
    &&& device_number_of(list[0]) == Some(backend)
    &&& decimal_value(list[1]) == Some(0nat)
}

/// Why a table is not the one linear target over all sectors of a backend.
pub open spec fn linear_error(
    name: Seq<char>,
    table: Seq<TargetView>,
    sectors: u64,
    backend: BlockDeviceNumber,
) -> Option<MappedErrorView> {
    let target = table[0];
    if table.len() != 1 {
        Some(
            MappedErrorView::WrongLayout {
                name,
                reason: "expected one linear target, found "@ + decimal_text(table.len()),
            },
        )
    } else if target.0 != 0 || target.1 != sectors || target.2 != "linear"@ {
        Some(
            MappedErrorView::WrongLayout {
                name,
                reason: "expected target '0 "@ + decimal_text(sectors as nat)
                    + " linear', found '"@ + decimal_text(target.0 as nat) + " "@ + decimal_text(
                    target.1 as nat,
                ) + " "@ + target.2 + "'"@,
            },
        )
    } else if !names_backend(target.3, backend) {
        Some(
            MappedErrorView::WrongLayout {
                name,
                reason: "expected linear parameters '"@ + backend.text() + " 0', found '"@
                    + target.3 + "'"@,
            },
        )
    } else {
        None
    }
}

/// Returns whether linear parameters name the backend at offset zero.
fn has_backend(parameters: &str, backend: BlockDeviceNumber) -> (out: bool)
    ensures
        out == names_backend(parameters@, backend),
{
    let list = split_words(parameters);
    if list.len() != 2 {
        return false;
    }
    proof {
        assert(words(parameters@)[0] == word_views(list@)[0]);
        assert(words(parameters@)[1] == word_views(list@)[1]);
    }
    let number = match parse_device_number(&list[0]) {
        Some(number) => number == backend,
        None => false,
    };
    let offset = match parse_decimal(&list[1]) {
        Some(offset) => offset == 0,
        None => false,
    };
    number && offset
}

/// Checks one active or inactive table against the expected volume layout.
pub fn validate_linear_table(
    name: &str,
    table: &[RawTarget],
    sectors: u64,
    backend: BlockDeviceNumber,
) -> (out: Result<(), MappedVolumeError>)
    ensures
        match out {
            Ok(()) => linear_error(name@, table_view(table@), sectors, backend) is None,
            Err(error) => linear_error(name@, table_view(table@), sectors, backend) == Some(
                error@,
            ),
        },
{
    if table.len() != 1 {
        let mut reason = String::new();
        push_text(&mut reason, "expected one linear target, found ");
        push_decimal(&mut reason, table.len() as u64);
        proof {
            assert(reason@ =~= "expected one linear target, found "@ + decimal_text(table@.len()));
        }
        return Err(wrong_layout(name, reason.as_str()));
    }
    let target = &table[0];
    proof { assert(table_view(table@)[0] == target_view(*target)); }
    if target.0 != 0 || target.1 != sectors || !same_text(target.2.as_str(), "linear") {
        let mut reason = String::new();
        push_text(&mut reason, "expected target '0 ");
        push_decimal(&mut reason, sectors);
        push_text(&mut reason, " linear', found '");
        push_decimal(&mut reason, target.0);
        push_text(&mut reason, " ");
        push_decimal(&mut reason, target.1);
        push_text(&mut reason, " ");
        push_text(&mut reason, target.2.as_str());
        push_text(&mut reason, "'");
        proof {
            assert(reason@ =~= "expected target '0 "@ + decimal_text(sectors as nat)
                + " linear', found '"@ + decimal_text(target.0 as nat) + " "@ + decimal_text(
                target.1 as nat,
            ) + " "@ + target.2@ + "'"@);
        }
        return Err(wrong_layout(name, reason.as_str()));
    }
    if !has_backend(target.3.as_str(), backend) {
        let mut reason = String::new();
        push_text(&mut reason, "expected linear parameters '");
        push_text(&mut reason, backend.to_text().as_str());
        push_text(&mut reason, " 0', found '");
        push_text(&mut reason, target.3.as_str());
        push_text(&mut reason, "'");
        proof {
            assert(reason@ =~= "expected linear parameters '"@ + backend.text()
                + " 0', found '"@ + target.3@ + "'"@);
        }
        return Err(wrong_layout(name, reason.as_str()));
    }
    Ok(())
}

/// One saved backend candidate reduced to the values stored in a linear table.
#[derive(Clone, Copy, Debug, PartialEq, Eq, Structural)]
pub struct SavedLinearLayout {
    pub sectors: u64,
    pub backend: BlockDeviceNumber,
}

/// The table is the one linear target of a layout.
pub open spec fn is_table_of(table: Seq<TargetView>, layout: SavedLinearLayout) -> bool {
    &&& table.len() == 1
    &&& table[0].0 == 0
    &&& table[0].1 == layout.sectors
    &&& table[0].2 == "linear"@
    &&& names_backend(table[0].3, layout.backend)
}

/// Returns whether the table is the one linear target of a layout.
fn is_linear(name: &str, table: &[RawTarget], layout: SavedLinearLayout) -> (out: bool)
    ensures
        out == is_table_of(table_view(table@), layout),
{
    validate_linear_table(name, table, layout.sectors, layout.backend).is_ok()
}

/// Places of the candidates whose table a table is.
pub open spec fn matching(table: Seq<TargetView>, candidates: Seq<SavedLinearLayout>) -> Seq<int>
    decreases candidates.len(),
{
    if candidates.len() == 0 {
        Seq::empty()
    } else {
        let rest = matching(table, candidates.drop_last());
        if is_table_of(table, candidates.last()) {
            rest.push(candidates.len() - 1)
        } else {
            rest
        }
    }
}

/// The places are those of candidates whose table the table is.
pub proof fn lemma_matching(table: Seq<TargetView>, candidates: Seq<SavedLinearLayout>)
    ensures
        forall|i: int|
            #![trigger matching(table, candidates)[i]]
            0 <= i < matching(table, candidates).len() ==> 0 <= matching(table, candidates)[i]
                < candidates.len() && is_table_of(
                table,
                candidates[matching(table, candidates)[i]],
            ),
    decreases candidates.len(),
{
    if candidates.len() > 0 {
        lemma_matching(table, candidates.drop_last());
        let rest = matching(table, candidates.drop_last());
        let all = matching(table, candidates);
        assert forall|i: int| #![trigger all[i]] 0 <= i < all.len() implies 0 <= all[i]
            < candidates.len() && is_table_of(table, candidates[all[i]]) by {
            if i < rest.len() {
                assert(all[i] == rest[i]);
                assert(candidates.drop_last()[rest[i]] == candidates[rest[i]]);
            }
        }
    }
}

/// Returns the places of the candidates whose table a table is.
fn find_matching(name: &str, table: &[RawTarget], candidates: &[SavedLinearLayout]) -> (out: Vec<
    usize,
>)
    ensures
        out@.len() == matching(table_view(table@), candidates@).len(),
        forall|i: int|
            #![trigger out@[i]]
            0 <= i < out@.len() ==> out@[i] == matching(table_view(table@), candidates@)[i],
{
    let ghost view = table_view(table@);
    let mut out: Vec<usize> = Vec::new();
    let mut i: usize = 0;
    proof { assert(candidates@.take(0) =~= Seq::<SavedLinearLayout>::empty()); }
    while i < candidates.len()
        invariant
            i <= candidates@.len(),
            view == table_view(table@),
            out@.len() == matching(view, candidates@.take(i as int)).len(),
            forall|k: int|
                #![trigger out@[k]]
                0 <= k < out@.len() ==> out@[k] == matching(view, candidates@.take(i as int))[k],
        decreases candidates@.len() - i,
    {
        proof {
            assert(candidates@.take(i + 1).drop_last() =~= candidates@.take(i as int));
            assert(candidates@.take(i + 1).last() == candidates@[i as int]);
        }
        if is_linear(name, table, candidates[i]) {
            out.push(i);
        }
        i += 1;
    }
    proof { assert(candidates@.take(candidates@.len() as int) =~= candidates@); }
    out
}

/// Saved backend of the active table, or why it cannot be told.
pub open spec fn selection(
    name: Seq<char>,
    active: Seq<TargetView>,
    inactive: Seq<TargetView>,
    candidates: Seq<SavedLinearLayout>,
) -> Result<int, MappedErrorView> {
    let running = matching(active, candidates);
    let pending = if inactive.len() == 0 {
        Seq::<int>::empty()
    } else {
        matching(inactive, candidates)
    };
    if running.len() != 1 || (inactive.len() > 0 && pending.len() != 1) {
        Err(
            MappedErrorView::WrongLayout {
                name,
                reason: "saved layouts match active="@ + decimal_text(running.len())
                    + " and inactive="@ + decimal_text(pending.len()) + " tables"@,
            },
        )
    } else if pending.len() > 0 && candidates[pending[0]].sectors
        <= candidates[running[0]].sectors {
        Err(
            MappedErrorView::WrongLayout {
                name,
                reason: "inactive saved layout is not larger than the active layout"@,
            },
        )
    } else {
        Ok(running[0])
    }
}

/// Selects the saved backend used by the active table and checks any pending table.
pub fn select_saved_linear_layout(
    name: &str,
    active: &[RawTarget],
    inactive: &[RawTarget],
    candidates: &[SavedLinearLayout],
) -> (out: Result<usize, MappedVolumeError>)
    ensures
        ({
            let selected = selection(
                name@,
                table_view(active@),
                table_view(inactive@),
                candidates@,
            );
            match out {
                Ok(index) => selected == Ok::<int, MappedErrorView>(index as int) && index
                    < candidates@.len(),
                Err(error) => selected == Err::<int, MappedErrorView>(error@),
            }
        }),
{
    proof {
        lemma_matching(table_view(active@), candidates@);
        lemma_matching(table_view(inactive@), candidates@);
    }
    let running = find_matching(name, active, candidates);
    let pending = if inactive.len() == 0 {
        Vec::new()
    } else {
        find_matching(name, inactive, candidates)
    };
    if running.len() != 1 || (inactive.len() > 0 && pending.len() != 1) {
        let mut reason = String::new();
        push_text(&mut reason, "saved layouts match active=");
        push_decimal(&mut reason, running.len() as u64);
        push_text(&mut reason, " and inactive=");
        push_decimal(&mut reason, pending.len() as u64);
        push_text(&mut reason, " tables");
        proof {
            assert(reason@ =~= "saved layouts match active="@ + decimal_text(running@.len())
                + " and inactive="@ + decimal_text(pending@.len()) + " tables"@);
        }
        return Err(wrong_layout(name, reason.as_str()));
    }
    if pending.len() > 0 && candidates[pending[0]].sectors <= candidates[running[0]].sectors {
        return Err(
            wrong_layout(name, "inactive saved layout is not larger than the active layout"),
        );
    }
    Ok(running[0])
}

/// Next safe action derived from exact active and inactive linear tables.
#[derive(Clone, Copy, Debug, PartialEq, Eq, Structural)]
pub enum BackendSwitchAction {
    /// The larger table is already active; resume it if it is suspended.
    Finish,

    /// The old table is active and the larger table must be loaded.
    LoadLarger,

    /// The larger table is loaded and must atomically replace the old table.
    ActivateLarger,
}

/// Text of a flag.
pub open spec fn flag_text(flag: bool) -> Seq<char> {
    if flag { "true"@ } else { "false"@ }
}

/// State that a backend switch is in, or why it is none that a switch leaves behind.
pub open spec fn switch_state(
    name: Seq<char>,
    active: Seq<TargetView>,
    inactive: Seq<TargetView>,
    suspended: bool,
    current: SavedLinearLayout,
    larger: SavedLinearLayout,
) -> Result<BackendSwitchAction, MappedErrorView> {
    if is_table_of(active, larger) && inactive.len() == 0 {
        Ok(BackendSwitchAction::Finish)
    } else if is_table_of(active, current) && inactive.len() == 0 {
        Ok(BackendSwitchAction::LoadLarger)
    } else if is_table_of(active, current) && is_table_of(inactive, larger) {
        Ok(BackendSwitchAction::ActivateLarger)
    } else {
        Err(
            MappedErrorView::WrongLayout {
                name,
                reason: "backend switch found active_targets="@ + decimal_text(active.len())
                    + ", inactive_targets="@ + decimal_text(inactive.len()) + ", suspended="@
                    + flag_text(suspended),
            },
        )
    }
}

/// Appends the text of a flag.
pub fn push_flag(out: &mut String, flag: bool)
    ensures
        final(out)@ == old(out)@ + flag_text(flag),
{
    if flag {
        push_text(out, "true");
    } else {
        push_text(out, "false");
    }
}

/// Classifies only the states that an interrupted backend switch may leave behind.
pub fn classify_backend_switch(
    name: &str,
    active: &[RawTarget],
    inactive: &[RawTarget],
    suspended: bool,
    current: SavedLinearLayout,
    larger: SavedLinearLayout,
) -> (out: Result<BackendSwitchAction, MappedVolumeError>)
    ensures
        ({
            let state = switch_state(
                name@,
                table_view(active@),
                table_view(inactive@),
                suspended,
                current,
                larger,
            );
            match out {
                Ok(action) => state == Ok::<BackendSwitchAction, MappedErrorView>(action),
                Err(error) => state == Err::<BackendSwitchAction, MappedErrorView>(error@),
            }
        }),
{
    let active_is_current = is_linear(name, active, current);
    let active_is_larger = is_linear(name, active, larger);
    let inactive_is_larger = is_linear(name, inactive, larger);
    if active_is_larger && inactive.len() == 0 {
        return Ok(BackendSwitchAction::Finish);
    }
    if active_is_current && inactive.len() == 0 {
        return Ok(BackendSwitchAction::LoadLarger);
    }
    if active_is_current && inactive_is_larger {
        return Ok(BackendSwitchAction::ActivateLarger);
    }
    let mut reason = String::new();
    push_text(&mut reason, "backend switch found active_targets=");
    push_decimal(&mut reason, active.len() as u64);
    push_text(&mut reason, ", inactive_targets=");
    push_decimal(&mut reason, inactive.len() as u64);
    push_text(&mut reason, ", suspended=");
    push_flag(&mut reason, suspended);
    proof {
        assert(reason@ =~= "backend switch found active_targets="@ + decimal_text(active@.len())
            + ", inactive_targets="@ + decimal_text(inactive@.len()) + ", suspended="@ + flag_text(
            suspended,
        ));
    }
    Err(wrong_layout(name, reason.as_str()))
}

/// Table loaded for a layout.
pub open spec fn linear_table(layout: SavedLinearLayout) -> Seq<TargetView> {
    seq![(0u64, layout.sectors, "linear"@, layout.backend.text() + " 0"@)]
}

/// Returns the raw one-target table loaded for a new mapping.
pub fn expected_table(layout: SavedLinearLayout) -> (out: Vec<RawTarget>)
    ensures
        table_view(out@) == linear_table(layout),
{
    let mut kind = String::new();
    push_text(&mut kind, "linear");
    let mut parameters = layout.backend.to_text();
    push_text(&mut parameters, " 0");
    proof {
        assert(kind@ =~= "linear"@);
        assert(parameters@ =~= layout.backend.text() + " 0"@);
    }
    let mut out: Vec<RawTarget> = Vec::new();
    out.push((0, layout.sectors, kind, parameters));
    proof { assert(table_view(out@) =~= linear_table(layout)); }
    out
}

/// A text without whitespace is one piece.
proof fn lemma_one_piece(s: Seq<char>)
    requires
        forall|i: int| 0 <= i < s.len() ==> !is_blank(#[trigger] s[i]),
    ensures
        blank_pieces(s) == seq![s],
    decreases s.len(),
{
    if s.len() > 0 {
        lemma_one_piece(s.drop_last());
        let rest = blank_pieces(s.drop_last());
        assert(rest.last().push(s.last()) =~= s);
        assert(rest.drop_last().push(s) =~= seq![s]);
    } else {
        assert(s =~= Seq::<char>::empty());
    }
}

/// A text, a space and one more text without whitespace are two pieces.
proof fn lemma_two_pieces(a: Seq<char>, b: Seq<char>)
    requires
        forall|i: int| 0 <= i < a.len() ==> !is_blank(#[trigger] a[i]),
        forall|i: int| 0 <= i < b.len() ==> !is_blank(#[trigger] b[i]),
    ensures
        blank_pieces(a.push(' ') + b) == seq![a, b],
    decreases b.len(),
{
    let whole = a.push(' ') + b;
    if b.len() == 0 {
        assert(whole =~= a.push(' '));
        assert(whole.drop_last() =~= a);
        lemma_one_piece(a);
        assert(b =~= Seq::<char>::empty());
        assert(seq![a].push(Seq::<char>::empty()) =~= seq![a, b]);
    } else {
        let shorter = b.drop_last();
        assert(whole.drop_last() =~= a.push(' ') + shorter);
        assert(whole.last() == b.last());
        lemma_two_pieces(a, shorter);
        let rest = blank_pieces(whole.drop_last());
        assert(rest.last() == shorter);
        assert(shorter.push(b.last()) =~= b);
        assert(rest.drop_last().push(b) =~= seq![a, b]);
    }
}

/// A decimal text holds digits only.
proof fn lemma_digits_only(n: nat)
    ensures
        forall|i: int|
            0 <= i < decimal_text(n).len() ==> '0' <= #[trigger] decimal_text(n)[i] <= '9',
    decreases n,
{
    if n >= 10 {
        lemma_digits_only(n / 10);
        let rest = decimal_text(n / 10);
        assert forall|i: int| 0 <= i < decimal_text(n).len() implies '0'
            <= #[trigger] decimal_text(n)[i] <= '9' by {
            if i < rest.len() {
                assert(decimal_text(n)[i] == rest[i]);
            }
        }
    }
}

/// A text without colon has none.
proof fn lemma_no_colon(s: Seq<char>)
    requires
        forall|i: int| 0 <= i < s.len() ==> #[trigger] s[i] != ':',
    ensures
        colon_place(s) is None,
    decreases s.len(),
{
    if s.len() > 0 {
        lemma_no_colon(s.drop_last());
    }
}

/// A device number is read back from its text.
pub proof fn law_device_number_round_trip(number: BlockDeviceNumber)
    ensures
        device_number_of(number.text()) == Some(number),
{
    let major = decimal_text(number.major as nat);
    let minor = decimal_text(number.minor as nat);
    let text = number.text();
    let at = major.len() as int;
    lemma_digits_only(number.major as nat);
    lemma_no_colon(major);
    assert(text.take(at + 1).drop_last() =~= major);
    assert(text.take(at + 1).last() == ':');
    lemma_colon_grows(text, at + 1);
    assert(text.take(at) =~= major);
    assert(text.skip(at + 1) =~= minor);
    law_decimal_round_trip(number.major as nat);
    law_decimal_round_trip(number.minor as nat);
}

/// The table that is loaded for a layout is accepted as the table of that layout.
pub proof fn law_loaded_table_is_exact(layout: SavedLinearLayout)
    ensures
        is_table_of(linear_table(layout), layout),
{
    let number = layout.backend.text();
    let parameters = number + " 0"@;
    reveal_strlit(" 0");
    let zero = seq!['0'];
    lemma_digits_only(layout.backend.major as nat);
    lemma_digits_only(layout.backend.minor as nat);
    assert(parameters =~= number.push(' ') + zero);
    assert forall|i: int| 0 <= i < number.len() implies !is_blank(#[trigger] number[i]) by {
        let major = decimal_text(layout.backend.major as nat);
        let minor = decimal_text(layout.backend.minor as nat);
        if i < major.len() {
            assert(number[i] == major[i]);
        } else if i > major.len() {
            assert(number[i] == minor[i - major.len() - 1]);
        }
    }
    lemma_two_pieces(number, zero);
    assert(words(parameters) =~= seq![number, zero]) by {
        reveal(Seq::filter);
        let keep = |p: Seq<char>| p.len() > 0;
        let two = seq![number, zero];
        let one = seq![number];
        law_decimal_round_trip(layout.backend.major as nat);
        assert(two.drop_last() =~= one);
        assert(one.drop_last() =~= Seq::<Seq<char>>::empty());
        assert(one.filter(keep) =~= one);
        assert(two.filter(keep) =~= two);
    }
    law_device_number_round_trip(layout.backend);
    law_decimal_round_trip(0);
    assert(decimal_text(0) =~= zero);
}

/// A table belongs to at most one saved layout.
pub proof fn law_tables_tell_layouts_apart(
    table: Seq<TargetView>,
    a: SavedLinearLayout,
    b: SavedLinearLayout,
)
    requires
        is_table_of(table, a),
        is_table_of(table, b),
    ensures
        a == b,
{
}

/// A backend switch goes through its three states in order: load the larger table, put it
/// in place, finish; whether the mapping is suspended makes no difference.
pub proof fn law_switch_proceeds(
    name: Seq<char>,
    current: SavedLinearLayout,
    larger: SavedLinearLayout,
    suspended: bool,
)
    requires
        current != larger,
    ensures
        switch_state(name, linear_table(current), Seq::empty(), suspended, current, larger) == Ok::<
            BackendSwitchAction,
            MappedErrorView,
        >(BackendSwitchAction::LoadLarger),
        switch_state(
            name,
            linear_table(current),
            linear_table(larger),
            suspended,
            current,
            larger,
        ) == Ok::<BackendSwitchAction, MappedErrorView>(BackendSwitchAction::ActivateLarger),
        switch_state(name, linear_table(larger), Seq::empty(), suspended, current, larger) == Ok::<
            BackendSwitchAction,
            MappedErrorView,
        >(BackendSwitchAction::Finish),
        switch_state(
            name,
            linear_table(larger),
            linear_table(current),
            suspended,
            current,
            larger,
        ) is Err,
{
    law_loaded_table_is_exact(current);
    law_loaded_table_is_exact(larger);
    if is_table_of(linear_table(current), larger) {
        law_tables_tell_layouts_apart(linear_table(current), current, larger);
    }
    if is_table_of(linear_table(larger), current) {
        law_tables_tell_layouts_apart(linear_table(larger), current, larger);
    }
}

} // verus!
