//! Mount table entries and the paths they hold.

use vstd::prelude::*;

use crate::bytes::{copy_bytes, same_bytes};

verus! {

/// The pieces of a byte string between the separators, empty ones included.
pub open spec fn split(s: Seq<u8>, separators: Seq<u8>) -> Seq<Seq<u8>>
    decreases s.len(),
{
    if s.len() == 0 {
        seq![Seq::empty()]
    } else {
        let rest = split(s.drop_last(), separators);
        if separators.contains(s.last()) {
            rest.push(Seq::empty())
        } else {
            rest.drop_last().push(rest.last().push(s.last()))
        }
    }
}

/// Byte strings as plain values.
pub open spec fn pieces_view(pieces: Seq<Vec<u8>>) -> Seq<Seq<u8>> {
    pieces.map_values(|piece: Vec<u8>| piece@)
}

/// Returns whether the list holds the byte.
fn holds_byte(bytes: &[u8], byte: u8) -> (out: bool)
    ensures
        out == bytes@.contains(byte),
{
    let mut i: usize = 0;
    while i < bytes.len()
        invariant
            i <= bytes@.len(),
            forall|k: int| 0 <= k < i ==> bytes@[k] != byte,
        decreases bytes@.len() - i,
    {
        if bytes[i] == byte {
            return true;
        }
        i += 1;
    }
    false
}

/// Cuts a byte string at the separators.
pub fn split_bytes(s: &[u8], separators: &[u8]) -> (out: Vec<Vec<u8>>)
    ensures
        pieces_view(out@) == split(s@, separators@),
        out@.len() > 0,
{
    let mut out: Vec<Vec<u8>> = Vec::new();
    let mut current: Vec<u8> = Vec::new();
    let mut i: usize = 0;
    proof {
        assert(s@.take(0) =~= Seq::<u8>::empty());
        assert(pieces_view(out@).push(current@) =~= seq![Seq::<u8>::empty()]);
    }
    while i < s.len()
        invariant
            i <= s@.len(),
            pieces_view(out@).push(current@) == split(s@.take(i as int), separators@),
        decreases s@.len() - i,
    {
        let byte: u8 = s[i];
        let ghost before = pieces_view(out@).push(current@);
        proof {
            assert(s@.take(i + 1).drop_last() =~= s@.take(i as int));
            assert(s@.take(i + 1).last() == byte);
            assert(before.drop_last() =~= pieces_view(out@));
            assert(before.last() == current@);
        }
        if holds_byte(separators, byte) {
            out.push(current);
            current = Vec::new();
            proof { assert(pieces_view(out@) =~= before); }
        } else {
            current.push(byte);
        }
        i += 1;
    }
    let ghost done = out@;
    let ghost tail = current@;
    out.push(current);
    proof {
        assert(s@.take(s@.len() as int) =~= s@);
        assert(pieces_view(out@) =~= pieces_view(done).push(tail));
    }
    out
}

/// An octal digit.
pub open spec fn is_octal(byte: u8) -> bool {
    48 <= byte <= 55
}

/// A byte string begins with a backslash and three octal digits.
pub open spec fn is_escape(s: Seq<u8>) -> bool {
    s.len() >= 4 && s[0] == 92 && is_octal(s[1]) && is_octal(s[2]) && is_octal(s[3])
}

/// Byte that an escape stands for.
pub open spec fn escaped(s: Seq<u8>) -> u8 {
    (((s[1] - 48) * 64 + (s[2] - 48) * 8 + (s[3] - 48)) % 256) as u8
}

/// Bytes that an escaped byte string stands for.
pub open spec fn unescaped(s: Seq<u8>) -> Seq<u8>
    decreases s.len(),
{
    if s.len() == 0 {
        Seq::empty()
    } else if is_escape(s) {
        seq![escaped(s)] + unescaped(s.skip(4))
    } else {
        seq![s[0]] + unescaped(s.skip(1))
    }
}

/// Decodes the octal escapes used by `/proc/self/mountinfo`.
pub fn decode_mount_bytes(encoded: &[u8]) -> (out: Vec<u8>)
    ensures
        out@ == unescaped(encoded@),
{
    let mut out: Vec<u8> = Vec::new();
    let mut i: usize = 0;
    proof { assert(encoded@.skip(0) =~= encoded@); }
    while i < encoded.len()
        invariant
            i <= encoded@.len(),
            out@ + unescaped(encoded@.skip(i as int)) == unescaped(encoded@),
        decreases encoded@.len() - i,
    {
        let ghost left = encoded@.skip(i as int);
        let ghost before = out@;
        if encoded[i] == 92 && encoded.len() - i > 3 && 48 <= encoded[i + 1] && encoded[i + 1] <= 55
            && 48 <= encoded[i + 2] && encoded[i + 2] <= 55 && 48 <= encoded[i + 3] && encoded[i
            + 3] <= 55 {
            let wide: u32 = (encoded[i + 1] - 48) as u32 * 64 + (encoded[i + 2] - 48) as u32 * 8 + (
            encoded[i + 3] - 48) as u32;
            let value: u8 = (wide % 256) as u8;
            proof {
                assert(is_escape(left));
                assert(value == escaped(left));
                assert(left.skip(4) =~= encoded@.skip(i + 4));
            }
            out.push(value);
            proof {
                assert(out@ + unescaped(left.skip(4)) =~= before + (seq![value] + unescaped(
                    left.skip(4),
                )));
            }
            i += 4;
        } else {
            proof {
                assert(!is_escape(left));
                assert(left.skip(1) =~= encoded@.skip(i + 1));
            }
            out.push(encoded[i]);
            proof {
                assert(out@ + unescaped(left.skip(1)) =~= before + (seq![left[0]] + unescaped(
                    left.skip(1),
                )));
            }
            i += 1;
        }
    }
    proof { assert(out@ + Seq::<u8>::empty() =~= out@); }
    out
}

/// Option that turns direct access on.
pub open spec fn is_dax_option(option: Seq<u8>) -> bool {
    option == seq![100u8, 97, 120] || (option.len() >= 4 && option.take(4) == seq![
        100u8,
        97,
        120,
        61,
    ])
}

/// A comma-separated list holds an option that turns direct access on.
pub open spec fn has_dax(options: Seq<u8>) -> bool {
    exists|i: int|
        #![trigger split(options, seq![44u8])[i]]
        0 <= i < split(options, seq![44u8]).len() && is_dax_option(split(options, seq![44u8])[i])
}

/// Returns whether one comma-separated mount option enables DAX.
pub fn option_has_dax(options: &[u8]) -> (out: bool)
    ensures
        out == has_dax(options@),
{
    let comma: [u8; 1] = [44];
    let pieces = split_bytes(options, &comma);
    proof { assert(comma@ =~= seq![44u8]); }
    let mut i: usize = 0;
    while i < pieces.len()
        invariant
            i <= pieces@.len(),
            pieces_view(pieces@) == split(options@, seq![44u8]),
            forall|k: int| #![trigger pieces@[k]] 0 <= k < i ==> !is_dax_option(pieces@[k]@),
        decreases pieces@.len() - i,
    {
        let option = &pieces[i];
        let exact = option.len() == 3 && option[0] == 100 && option[1] == 97 && option[2] == 120;
        let valued = option.len() >= 4 && option[0] == 100 && option[1] == 97 && option[2] == 120
            && option[3] == 61;
        proof {
            assert(exact ==> option@ =~= seq![100u8, 97, 120]);
            if option@ == seq![100u8, 97, 120] {
                assert(option@[0] == 100 && option@[1] == 97 && option@[2] == 120);
            }
            assert(valued ==> option@.take(4) =~= seq![100u8, 97, 120, 61]);
            if option@.len() >= 4 && option@.take(4) == seq![100u8, 97, 120, 61] {
                let head = option@.take(4);
                assert(head[0] == option@[0] && head[1] == option@[1]);
                assert(head[2] == option@[2] && head[3] == option@[3]);
            }
        }
        if exact || valued {
            proof { assert(pieces_view(pieces@)[i as int] == option@); }
            return true;
        }
        i += 1;
    }
    proof {
        assert forall|k: int| #![trigger split(options@, seq![44u8])[k]] 0 <= k < split(
            options@,
            seq![44u8],
        ).len() implies !is_dax_option(split(options@, seq![44u8])[k]) by {
            assert(pieces_view(pieces@)[k] == pieces@[k]@);
        }
    }
    false
}

/// A path segment that names something.
pub open spec fn is_segment(piece: Seq<u8>) -> bool {
    piece.len() > 0 && piece != seq![46u8]
}

/// Components of a path: the root or a leading current directory, then the segments.
///
/// Repeated and trailing separators and inner current directories leave no component.
pub open spec fn components(path: Seq<u8>) -> Seq<Seq<u8>> {
    let pieces = split(path, seq![47u8]);
    let head = if path.len() > 0 && path[0] == 47 {
        seq![seq![47u8]]
    } else if pieces[0] == seq![46u8] {
        seq![seq![46u8]]
    } else {
        Seq::empty()
    };
    head + pieces.filter(|piece: Seq<u8>| is_segment(piece))
}

/// Returns the components of a path.
pub fn path_components(path: &[u8]) -> (out: Vec<Vec<u8>>)
    ensures
        pieces_view(out@) == components(path@),
{
    let slash: [u8; 1] = [47];
    let pieces = split_bytes(path, &slash);
    let ghost all = split(path@, seq![47u8]);
    let ghost keep = |piece: Seq<u8>| is_segment(piece);
    proof {
        assert(slash@ =~= seq![47u8]);
        assert(all[0] == pieces_view(pieces@)[0]);
    }
    let mut out: Vec<Vec<u8>> = Vec::new();
    if path.len() > 0 && path[0] == 47 {
        let root: Vec<u8> = vec![47];
        proof { assert(root@ =~= seq![47u8]); }
        out.push(root);
        proof { assert(pieces_view(out@) =~= seq![seq![47u8]]); }
    } else {
        let here = pieces[0].len() == 1 && pieces[0][0] == 46;
        proof {
            let first = pieces@[0]@;
            assert(here ==> first =~= seq![46u8]);
            if first == seq![46u8] {
                assert(first[0] == 46);
            }
        }
        if here {
            let current: Vec<u8> = vec![46];
            proof { assert(current@ =~= seq![46u8]); }
            out.push(current);
            proof { assert(pieces_view(out@) =~= seq![seq![46u8]]); }
        } else {
            proof { assert(pieces_view(out@) =~= Seq::<Seq<u8>>::empty()); }
        }
    }
    let ghost head = pieces_view(out@);
    let mut i: usize = 0;
    proof {
        reveal(Seq::filter);
        assert(all.take(0) =~= Seq::<Seq<u8>>::empty());
        assert(head + Seq::<Seq<u8>>::empty() =~= head);
    }
    while i < pieces.len()
        invariant
            i <= pieces@.len(),
            pieces_view(pieces@) == all,
            keep == |piece: Seq<u8>| is_segment(piece),
            pieces_view(out@) == head + all.take(i as int).filter(keep),
        decreases pieces@.len() - i,
    {
        let piece = copy_bytes(&pieces[i]);
        let named = piece.len() > 0 && !(piece.len() == 1 && piece[0] == 46);
        proof {
            reveal(Seq::filter);
            assert(all.take(i + 1).drop_last() =~= all.take(i as int));
            assert(all.take(i + 1).last() == all[i as int]);
            assert(all[i as int] == piece@);
            if piece@.len() == 1 && piece@[0] == 46 {
                assert(piece@ =~= seq![46u8]);
            }
            assert(named == is_segment(piece@));
        }
        if named {
            let ghost before = out@;
            let ghost added = piece@;
            out.push(piece);
            proof {
                assert(pieces_view(out@) =~= pieces_view(before).push(added));
                assert(pieces_view(out@) =~= head + all.take(i as int).filter(keep).push(added));
            }
        }
        i += 1;
    }
    proof { assert(all.take(all.len() as int) =~= all); }
    out
}

/// Returns whether the two lists hold the same byte strings.
fn same_pieces(a: &Vec<Vec<u8>>, b: &Vec<Vec<u8>>, count: usize) -> (out: bool)
    requires
        count <= a@.len(),
        count <= b@.len(),
    ensures
        out == (pieces_view(a@).take(count as int) == pieces_view(b@).take(count as int)),
{
    let mut i: usize = 0;
    while i < count
        invariant
            i <= count,
            count <= a@.len(),
            count <= b@.len(),
            forall|k: int|
                #![trigger a@[k]]
                #![trigger b@[k]]
                0 <= k < i ==> a@[k]@ == b@[k]@,
        decreases count - i,
    {
        if !same_bytes(&a[i], &b[i]) {
            proof {
                let left = pieces_view(a@).take(count as int);
                let right = pieces_view(b@).take(count as int);
                assert(left[i as int] == a@[i as int]@ && right[i as int] == b@[i as int]@);
            }
            return false;
        }
        i += 1;
    }
    proof {
        assert(pieces_view(a@).take(count as int) =~= pieces_view(b@).take(count as int));
    }
    true
}

/// The path lies at or below the directory.
pub open spec fn lies_below(path: Seq<u8>, directory: Seq<u8>) -> bool {
    components(directory).is_prefix_of(components(path))
}

/// Returns whether the path lies at or below the directory.
pub fn path_starts_with(path: &[u8], directory: &[u8]) -> (out: bool)
    ensures
        out == lies_below(path@, directory@),
{
    let all = path_components(path);
    let start = path_components(directory);
    if start.len() > all.len() {
        return false;
    }
    proof {
        let n = start@.len() as int;
        assert(pieces_view(start@).take(n) =~= pieces_view(start@));
        assert(pieces_view(all@).take(n) =~= pieces_view(all@).subrange(0, n));
    }
    same_pieces(&start, &all, start.len())
}

/// Returns whether both paths have the same components.
pub fn same_path(a: &[u8], b: &[u8]) -> (out: bool)
    ensures
        out == (components(a@) == components(b@)),
{
    let left = path_components(a);
    let right = path_components(b);
    proof {
        assert(pieces_view(left@).take(left@.len() as int) =~= pieces_view(left@));
        assert(pieces_view(right@).take(right@.len() as int) =~= pieces_view(right@));
    }
    left.len() == right.len() && same_pieces(&left, &right, left.len())
}

/// First place, from a given one on, of a hyphen between two spaces.
pub open spec fn hyphen_from(line: Seq<u8>, from: int) -> Option<int>
    decreases line.len() - from,
{
    if from < 0 || from + 3 > line.len() {
        None
    } else if line[from] == 32 && line[from + 1] == 45 && line[from + 2] == 32 {
        Some(from)
    } else {
        hyphen_from(line, from + 1)
    }
}

/// Returns the first place of a hyphen between two spaces.
fn find_hyphen(line: &[u8]) -> (out: Option<usize>)
    ensures
        match out {
            Some(at) => hyphen_from(line@, 0) == Some(at as int) && at + 3 <= line@.len(),
            None => hyphen_from(line@, 0) is None,
        },
{
    let mut i: usize = 0;
    while line.len() - i >= 3
        invariant
            i <= line@.len(),
            hyphen_from(line@, i as int) == hyphen_from(line@, 0),
        decreases line@.len() - i,
    {
        if line[i] == 32 && line[i + 1] == 45 && line[i + 2] == 32 {
            return Some(i);
        }
        i += 1;
    }
    None
}

/// What a mount table line tells of direct access.
pub struct MountLine {
    /// Directory at which the filesystem is mounted.
    pub path: Seq<u8>,

    /// A mount or filesystem option turns direct access on.
    pub dax: bool,
}

/// Bytes at which the fields of a line are cut.
pub open spec fn blanks() -> Seq<u8> {
    seq![32u8, 9, 10, 12, 13]
}

/// Reads one line of the mount table; lines of another shape tell nothing.
pub open spec fn mount_line(line: Seq<u8>) -> Option<MountLine> {
    match hyphen_from(line, 0) {
        None => None,
        Some(at) => {
            let before = split(line.take(at), blanks());
            let after = split(line.skip(at + 3), blanks());
            if before.len() < 6 {
                None
            } else {
                Some(
                    MountLine {
                        path: unescaped(before[4]),
                        dax: has_dax(before[5]) || (after.len() > 2 && has_dax(after[2])),
                    },
                )
            }
        },
    }
}

/// Length of the longest mounted directory above a path, and whether it uses direct
/// access. Of two directories of the same length the first line counts.
pub open spec fn best_mount(path: Seq<u8>, lines: Seq<Seq<u8>>) -> Option<(nat, bool)>
    decreases lines.len(),
{
    if lines.len() == 0 {
        None
    } else {
        let rest = best_mount(path, lines.drop_last());
        match mount_line(lines.last()) {
            Some(mount) => {
                if lies_below(path, mount.path) && (rest is None || mount.path.len()
                    > rest->Some_0.0) {
                    Some((mount.path.len(), mount.dax))
                } else {
                    rest
                }
            },
            None => rest,
        }
    }
}

/// Whether the mount that contains a path uses direct access, if the table names it.
pub open spec fn mount_dax(path: Seq<u8>, mount_info: Seq<u8>) -> Option<bool> {
    match best_mount(path, split(mount_info, seq![10u8])) {
        Some((_, dax)) => Some(dax),
        None => None,
    }
}

/// Reads one line of the mount table.
fn read_mount_line(line: &[u8]) -> (out: Option<(Vec<u8>, bool)>)
    ensures
        match out {
            Some((path, dax)) => mount_line(line@) == Some(MountLine { path: path@, dax }),
            None => mount_line(line@) is None,
        },
{
    let at: usize = match find_hyphen(line) {
        Some(at) => at,
        None => {
            return None;
        },
    };
    let separators: [u8; 5] = [32, 9, 10, 12, 13];
    proof { assert(separators@ =~= blanks()); }
    let end: usize = line.len();
    let before_text = vstd::slice::slice_subrange(line, 0, at);
    let after_text = vstd::slice::slice_subrange(line, at + 3, end);
    proof {
        assert(before_text@ =~= line@.take(at as int));
        assert(after_text@ =~= line@.skip(at + 3));
    }
    let before = split_bytes(before_text, &separators);
    let after = split_bytes(after_text, &separators);
    if before.len() < 6 {
        return None;
    }
    proof {
        assert(pieces_view(before@)[4] == before@[4]@ && pieces_view(before@)[5] == before@[5]@);
        assert(after@.len() > 2 ==> pieces_view(after@)[2] == after@[2]@);
    }
    let path = decode_mount_bytes(&before[4]);
    let dax = option_has_dax(&before[5]) || (after.len() > 2 && option_has_dax(&after[2]));
    Some((path, dax))
}

/// Returns whether the mount that contains the path enables DAX, if the mount table
/// names one.
pub fn dax_is_enabled(path: &[u8], mount_info: &[u8]) -> (out: Option<bool>)
    ensures
        out == mount_dax(path@, mount_info@),
{
    let newline: [u8; 1] = [10];
    let lines = split_bytes(mount_info, &newline);
    let ghost all = split(mount_info@, seq![10u8]);
    let mut best: Option<(usize, bool)> = None;
    let mut i: usize = 0;
    proof {
        assert(newline@ =~= seq![10u8]);
        assert(all.take(0) =~= Seq::<Seq<u8>>::empty());
    }
    while i < lines.len()
        invariant
            i <= lines@.len(),
            pieces_view(lines@) == all,
            match best {
                Some((length, dax)) => best_mount(path@, all.take(i as int)) == Some(
                    (length as nat, dax),
                ),
                None => best_mount(path@, all.take(i as int)) is None,
            },
        decreases lines@.len() - i,
    {
        proof {
            assert(all.take(i + 1).drop_last() =~= all.take(i as int));
            assert(all.take(i + 1).last() == lines@[i as int]@);
        }
        match read_mount_line(&lines[i]) {
            Some((mount_path, dax)) => {
                let longer = match best {
                    Some((length, _)) => mount_path.len() > length,
                    None => true,
                };
                if path_starts_with(path, &mount_path) && longer {
                    best = Some((mount_path.len(), dax));
                }
            },
            None => {},
        }
        i += 1;
    }
    proof { assert(all.take(all.len() as int) =~= all); }
    match best {
        Some((_, dax)) => Some(dax),
        None => None,
    }
}

} // verus!
