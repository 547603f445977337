//! Text operations of the planner: searching, shortening and joining.

use vstd::prelude::*;

use crate::text::{chars_of, push_text, string_of};

verus! {

/// A character in ASCII lower case.
pub open spec fn lower_char(c: char) -> char {
    if 'A' <= c && c <= 'Z' {
        (c as u32 + 32) as char
    } else {
        c
    }
}

/// A text in ASCII lower case.
pub open spec fn lowered(s: Seq<char>) -> Seq<char> {
    s.map_values(|c: char| lower_char(c))
}

/// Returns the characters of a text in ASCII lower case.
pub fn lower_chars(text: &str) -> (out: Vec<char>)
    ensures
        out@ == lowered(text@),
{
    let chars = chars_of(text);
    let mut out: Vec<char> = Vec::new();
    let mut i: usize = 0;
    while i < chars.len()
        invariant
            i <= chars@.len(),
            out@.len() == i,
            forall|k: int| #![trigger out@[k]] 0 <= k < i ==> out@[k] == lower_char(chars@[k]),
        decreases chars@.len() - i,
    {
        let c = chars[i];
        if 'A' <= c && c <= 'Z' {
            let low = (c as u8 + 32) as char;
            out.push(low);
        } else {
            out.push(c);
        }
        i += 1;
    }
    proof { assert(out@ =~= lowered(text@)); }
    out
}

/// A text stands in another at some place.
pub open spec fn stands_at(whole: Seq<char>, part: Seq<char>, at: int) -> bool {
    0 <= at && at + part.len() <= whole.len() && whole.subrange(at, at + part.len()) == part
}

/// A text holds another.
pub open spec fn holds_text(whole: Seq<char>, part: Seq<char>) -> bool {
    exists|at: int| #[trigger] stands_at(whole, part, at)
}

/// Returns whether a text holds another.
pub fn contains_text(whole: &Vec<char>, part: &Vec<char>) -> (out: bool)
    ensures
        out == holds_text(whole@, part@),
{
    if part.len() > whole.len() {
        return false;
    }
    let total: usize = whole.len();
    let last: usize = total - part.len();
    let mut at: usize = 0;
    loop
        invariant
            at <= last,
            total == whole@.len(),
            last + part@.len() == total,
            forall|k: int| 0 <= k < at ==> !#[trigger] stands_at(whole@, part@, k),
        decreases last - at,
    {
        let mut same = true;
        let mut i: usize = 0;
        while i < part.len() && same
            invariant
                i <= part@.len(),
                at <= last,
                total == whole@.len(),
                last + part@.len() == total,
                same ==> forall|k: int| 0 <= k < i ==> whole@[at + k] == part@[k],
                !same ==> i < part@.len() && whole@[at + i] != part@[i as int],
            decreases part@.len() - i, (if same { 1int } else { 0int }),
        {
            if whole[at + i] != part[i] {
                same = false;
            } else {
                i += 1;
            }
        }
        proof {
            let piece = whole@.subrange(at as int, at + part@.len());
            if same {
                assert(piece =~= part@);
                assert(stands_at(whole@, part@, at as int));
            } else {
                assert(piece[i as int] == whole@[at + i]);
            }
        }
        if same {
            return true;
        }
        if at == last {
            proof {
                assert forall|k: int| !#[trigger] stands_at(whole@, part@, k) by {}
            }
            return false;
        }
        at += 1;
    }
}

/// Some texts with a separator between them.
pub open spec fn joined_texts(list: Seq<Seq<char>>, separator: Seq<char>) -> Seq<char>
    decreases list.len(),
{
    if list.len() == 0 {
        Seq::empty()
    } else if list.len() == 1 {
        list[0]
    } else {
        joined_texts(list.drop_last(), separator) + separator + list.last()
    }
}

/// Texts as plain values.
pub open spec fn text_views(list: Seq<String>) -> Seq<Seq<char>> {
    list.map_values(|text: String| text@)
}

/// Joins texts with a separator between them.
pub fn join_texts(list: &Vec<String>, separator: &str) -> (out: String)
    ensures
        out@ == joined_texts(text_views(list@), separator@),
{
    let ghost all = text_views(list@);
    let mut out = String::new();
    let mut i: usize = 0;
    proof {
        assert(all.take(0) =~= Seq::<Seq<char>>::empty());
        assert(out@ =~= Seq::<char>::empty());
    }
    while i < list.len()
        invariant
            i <= list@.len(),
            all == text_views(list@),
            out@ == joined_texts(all.take(i as int), separator@),
        decreases list@.len() - i,
    {
        proof {
            assert(all.take(i + 1).drop_last() =~= all.take(i as int));
            assert(all.take(i + 1).last() == list@[i as int]@);
        }
        if i > 0 {
            push_text(&mut out, separator);
        }
        push_text(&mut out, list[i].as_str());
        proof { assert(out@ =~= joined_texts(all.take(i + 1), separator@)); }
        i += 1;
    }
    proof { assert(all.take(all.len() as int) =~= all); }
    out
}

/// A text cut to a number of characters, the last one a tilde where it was longer.
pub open spec fn shortened(s: Seq<char>, max_len: nat) -> Seq<char> {
    if s.len() <= max_len {
        s
    } else if max_len == 0 {
        seq!['~']
    } else {
        s.take(max_len - 1).push('~')
    }
}

/// Truncates long table fields while keeping deterministic text width.
pub fn truncate(value: &str, max_len: usize) -> (out: String)
    ensures
        out@ == shortened(value@, max_len as nat),
{
    let chars = chars_of(value);
    if chars.len() <= max_len {
        let out = string_of(&chars);
        return out;
    }
    let kept: usize = if max_len == 0 { 0 } else { max_len - 1 };
    let mut out = string_of(vstd::slice::slice_subrange(&chars, 0, kept));
    proof { assert(out@ =~= value@.take(kept as int)); }
    out.push('~');
    proof { assert(out@ =~= shortened(value@, max_len as nat)); }
    out
}

/// Spaces.
pub open spec fn spaces(count: nat) -> Seq<char> {
    Seq::new(count, |i: int| ' ')
}

/// Spaces that fill a text up to a width.
pub open spec fn fill(s: Seq<char>, width: nat) -> Seq<char> {
    spaces(if s.len() < width { (width - s.len()) as nat } else { 0 })
}

/// Appends spaces.
fn push_spaces(out: &mut String, count: usize)
    ensures
        final(out)@ == old(out)@ + spaces(count as nat),
{
    let ghost before = out@;
    let mut i: usize = 0;
    proof { assert(before + spaces(0) =~= before); }
    while i < count
        invariant
            i <= count,
            out@ == before + spaces(i as nat),
        decreases count - i,
    {
        out.push(' ');
        proof { assert(out@ =~= before + spaces((i + 1) as nat)); }
        i += 1;
    }
}

/// Appends a text and spaces up to a width.
pub fn push_left(out: &mut String, text: &str, width: usize)
    ensures
        final(out)@ == old(out)@ + text@ + fill(text@, width as nat),
{
    let length: usize = chars_of(text).len();
    push_text(out, text);
    push_spaces(out, if length < width { width - length } else { 0 });
}

/// Appends spaces up to a width and a text.
pub fn push_right(out: &mut String, text: &str, width: usize)
    ensures
        final(out)@ == old(out)@ + fill(text@, width as nat) + text@,
{
    let length: usize = chars_of(text).len();
    push_spaces(out, if length < width { width - length } else { 0 });
    push_text(out, text);
}

} // verus!
