//! Which directories can be a pool, and what a pool is taken for.

use vstd::prelude::*;

use super::error::PoolError;
use super::model::ReplicaKey;
use super::mounts::{
    best_mount, components, is_escape, lies_below, mount_dax, mount_line, unescaped,
};
use super::paths::{encode_key, encode_volume_key, join};
use super::pool::{
    filesystem_space, PoolFilesystem, PoolProbeView, PoolProgressView, PoolReplyView, PoolStep,
    PoolView, SpaceReport,
};
use super::sparse::{check_required_features, SparseAction, SparseCheck, SparseStep};
use crate::bytes::{be_value, law_be_round_trip, lemma_be_len, lemma_byte_ranges};

verus! {

/// What a probe is after a reply that lets it go on.
pub open spec fn goes_on(probe: PoolProbeView, reply: PoolReplyView, next: PoolProbeView) -> bool {
    probe.after(reply) == Ok::<PoolProgressView, PoolError>(PoolProgressView::Next(next))
}

/// A directory becomes a pool exactly where it is a directory on ext4 or XFS with blocks of
/// 4096 bytes, its mount does not use direct access, the attribute for direct access is not
/// both known and set, the required features are there, and its free bytes can be counted.
/// The pool has the resolved path, the device, the file system and the free bytes that were
/// reported.
pub proof fn law_pool_check_is_exact(
    root: Seq<u8>,
    is_directory: bool,
    device_id: u64,
    filesystem_type: i64,
    block_bytes: i64,
    table: Seq<u8>,
    known: u64,
    set: u64,
    features: Result<(), PoolError>,
    report: SpaceReport,
    p1: PoolProbeView,
    p2: PoolProbeView,
    p3: PoolProbeView,
    p4: PoolProbeView,
    p5: PoolProbeView,
    p6: PoolProbeView,
    pool: PoolView,
)
    ensures
        ({
            let start = PoolProbeView::start();
            let passed = {
                &&& goes_on(start, PoolReplyView::Resolved(root), p1)
                &&& goes_on(p1, PoolReplyView::Inspected { is_directory, device_id }, p2)
                &&& goes_on(p2, PoolReplyView::Filesystem { filesystem_type, block_bytes }, p3)
                &&& goes_on(p3, PoolReplyView::Mounts(table), p4)
                &&& goes_on(p4, PoolReplyView::Attributes { known, set }, p5)
                &&& goes_on(p5, PoolReplyView::Features(features), p6)
                &&& p6.after(PoolReplyView::Space(report)) == Ok::<PoolProgressView, PoolError>(
                    PoolProgressView::Checked(pool),
                )
            };
            &&& passed ==> {
                &&& start.step == PoolStep::Resolve
                &&& p1.step == PoolStep::Inspect
                &&& p2.step == PoolStep::ReadFilesystem
                &&& p3.step == PoolStep::ReadMounts
                &&& p4.step == PoolStep::ReadAttributes
                &&& p5.step == PoolStep::CheckFeatures
                &&& p6.step == PoolStep::ReadSpace
                &&& is_directory
                &&& filesystem_type == 0xef53 || filesystem_type == 0x5846_5342
                &&& block_bytes == 4096
                &&& mount_dax(root, table) == Some(false)
                &&& (known / 0x20_0000) % 2 == 0 || (set / 0x20_0000) % 2 == 0
                &&& features is Ok
                &&& report.block_bytes == 4096
                &&& pool.root == root
                &&& pool.device_id == device_id
                &&& pool.filesystem == PoolFilesystem::Ext4 <==> filesystem_type == 0xef53
                &&& pool.block_bytes == 4096
                &&& pool.managed_bytes == 4096 * report.available_blocks
            }
        }),
{
    assert((known & 0x20_0000 != 0) == ((known / 0x20_0000) % 2 == 1)) by (bit_vector);
    assert((set & 0x20_0000 != 0) == ((set / 0x20_0000) % 2 == 1)) by (bit_vector);
}

/// A step of the check goes on wherever what it found is allowed.
pub proof fn law_pool_steps_are_owed(
    probe: PoolProbeView,
    root: Seq<u8>,
    device_id: u64,
    filesystem_type: i64,
    table: Seq<u8>,
    known: u64,
    set: u64,
    report: SpaceReport,
)
    ensures
        probe.after(PoolReplyView::Resolved(root)) is Ok,
        probe.after(PoolReplyView::Inspected { is_directory: true, device_id }) is Ok,
        probe.after(PoolReplyView::Inspected { is_directory: false, device_id }) is Err,
        filesystem_type == 0xef53 || filesystem_type == 0x5846_5342 ==> probe.after(
            PoolReplyView::Filesystem { filesystem_type, block_bytes: 4096 },
        ) is Ok,
        mount_dax(probe.root, table) == Some(false) ==> probe.after(PoolReplyView::Mounts(table))
            is Ok,
        mount_dax(probe.root, table) == Some(true) ==> probe.after(PoolReplyView::Mounts(table))
            == Err::<PoolProgressView, PoolError>(PoolError::DaxEnabled),
        (known / 0x20_0000) % 2 == 0 || (set / 0x20_0000) % 2 == 0 ==> probe.after(
            PoolReplyView::Attributes { known, set },
        ) is Ok,
        probe.after(PoolReplyView::Features(Ok(()))) is Ok,
        report.block_bytes == 4096 && 4096 * report.available_blocks <= u64::MAX ==> probe.after(
            PoolReplyView::Space(report),
        ) is Ok,
        probe.after(PoolReplyView::Failed) is Err,
        probe.after(PoolReplyView::PathRefused) is Err,
{
    assert((known & 0x20_0000 != 0) == ((known / 0x20_0000) % 2 == 1)) by (bit_vector);
    assert((set & 0x20_0000 != 0) == ((set / 0x20_0000) % 2 == 1)) by (bit_vector);
}

/// The free bytes of a file system are its free blocks times its block size, and they are
/// refused only where they cannot be represented.
pub proof fn law_free_space_call(report: SpaceReport, out: Result<u64, PoolError>)
    requires
        call_ensures(filesystem_space, (report,), out),
    ensures
        out is Ok <==> report.available_blocks * report.block_bytes <= 0xffff_ffff_ffff_ffff,
        out matches Ok(bytes) ==> bytes == report.available_blocks * report.block_bytes,
{
}

/// The features are there exactly where the check passed, its file was removed and the
/// directory was synced.
pub proof fn law_features_call(
    checked: Result<(), PoolError>,
    removed: bool,
    synced: Result<(), PoolError>,
    out: Result<(), PoolError>,
)
    requires
        call_ensures(check_required_features, (checked, removed, synced), out),
    ensures
        out is Ok <==> checked is Ok && removed && synced is Ok,
        checked is Err ==> out == checked,
{
}

/// The check punches out and reads back the very block that it wrote, which lies inside the
/// file, away from its ends, and whose bytes are not zero.
pub proof fn law_sparse_actions(check: SparseCheck)
    ensures
        ({
            let written = SparseCheck { step: SparseStep::WriteData, ..check }.next_action();
            let punched = SparseCheck { step: SparseStep::PunchHole, ..check }.next_action();
            let read = SparseCheck { step: SparseStep::ReadBack, ..check }.next_action();
            let made = SparseCheck { step: SparseStep::SetLength, ..check }.next_action();
            let hole = SparseCheck { step: SparseStep::SeekHole, ..check }.next_action();
            &&& written matches SparseAction::Write { offset, bytes, value } && punched
                == (SparseAction::PunchHole { offset, bytes }) && read == (SparseAction::Read {
                offset,
                bytes,
            }) && value != 0 && bytes == 4096 && offset % 4096 == 0 && (made
                matches SparseAction::SetLength { bytes: length } && 0 < offset && offset + bytes
                < length)
            &&& hole == (SparseAction::SeekHole { from: check.data_offset })
        }),
{
}

/// The mount that counts for a path is the longest directory of the table that the path
/// lies below, and the first of these.
pub proof fn law_longest_mount_counts(path: Seq<u8>, lines: Seq<Seq<u8>>, i: int)
    ensures
        match best_mount(path, lines) {
            None => 0 <= i < lines.len() && mount_line(lines[i]) is Some ==> !lies_below(
                path,
                mount_line(lines[i])->Some_0.path,
            ),
            Some((length, dax)) => {
                &&& 0 <= i < lines.len() && mount_line(lines[i]) is Some && lies_below(
                    path,
                    mount_line(lines[i])->Some_0.path,
                ) ==> mount_line(lines[i])->Some_0.path.len() <= length
                &&& exists|j: int|
                    #![trigger lines[j]]
                    0 <= j < lines.len() && mount_line(lines[j]) is Some && lies_below(
                        path,
                        mount_line(lines[j])->Some_0.path,
                    ) && mount_line(lines[j])->Some_0.path.len() == length
                        && mount_line(lines[j])->Some_0.dax == dax && (0 <= i < j && mount_line(
                        lines[i],
                    ) is Some && lies_below(path, mount_line(lines[i])->Some_0.path)
                        ==> mount_line(lines[i])->Some_0.path.len() < length)
            },
        },
    decreases lines.len(),
{
    if lines.len() > 0 {
        let rest = lines.drop_last();
        let end = lines.len() - 1;
        law_longest_mount_counts(path, rest, i);
        if 0 <= i < rest.len() {
            assert(rest[i] == lines[i]);
        }
        let best = best_mount(path, lines);
        if best == best_mount(path, rest) {
            if let Some((length, dax)) = best {
                let j = choose|j: int|
                    #![trigger rest[j]]
                    0 <= j < rest.len() && mount_line(rest[j]) is Some && lies_below(
                        path,
                        mount_line(rest[j])->Some_0.path,
                    ) && mount_line(rest[j])->Some_0.path.len() == length
                        && mount_line(rest[j])->Some_0.dax == dax && (0 <= i < j && mount_line(
                        rest[i],
                    ) is Some && lies_below(path, mount_line(rest[i])->Some_0.path)
                        ==> mount_line(rest[i])->Some_0.path.len() < length);
                assert(lines[j] == rest[j]);
            }
        } else {
            assert(lines[end] == lines.last());
        }
    }
}

/// A path lies below a directory exactly where the components of the directory are the
/// first ones of the path.
pub proof fn law_below_goes_by_components(path: Seq<u8>, directory: Seq<u8>)
    ensures
        lies_below(path, directory) <==> components(directory).len() <= components(path).len()
            && forall|i: int|
            #![trigger components(directory)[i]]
            0 <= i < components(directory).len() ==> components(directory)[i]
                == components(path)[i],
{
    let a = components(directory);
    let b = components(path);
    if a.len() <= b.len() && (forall|i: int|
        #![trigger components(directory)[i]]
        0 <= i < components(directory).len() ==> components(directory)[i] == components(path)[i]) {
        assert(a =~= b.subrange(0, a.len() as int)) by {
            assert forall|i: int| 0 <= i < a.len() implies a[i] == b.subrange(
                0,
                a.len() as int,
            )[i] by {
                assert(components(directory)[i] == components(path)[i]);
            }
        }
    }
    if a.is_prefix_of(b) {
        assert forall|i: int|
            #![trigger components(directory)[i]]
            0 <= i < a.len() implies components(directory)[i] == components(path)[i] by {
            assert(a[i] == b.subrange(0, a.len() as int)[i]);
        }
    }
}

/// A table key is the number of the volume in sixteen bytes and then that of the generation
/// in eight, and a volume key is the first of these alone.
pub proof fn law_table_key_calls(key: ReplicaKey, whole: Vec<u8>, volume: Vec<u8>)
    requires
        call_ensures(encode_key, (key,), whole),
        call_ensures(encode_volume_key, (key,), volume),
    ensures
        whole@.len() == 24,
        be_value(whole@.take(16)) == key.volume().value(),
        be_value(whole@.skip(16)) == key.generation_of().value(),
        volume@ == whole@.take(16),
{
    let a = crate::bytes::be_bytes(key.volume().value() as nat, 16);
    let b = crate::bytes::be_bytes(key.generation_of().value() as nat, 8);
    lemma_byte_ranges();
    lemma_be_len(key.volume().value() as nat, 16);
    lemma_be_len(key.generation_of().value() as nat, 8);
    law_be_round_trip(key.volume().value() as nat, 16);
    law_be_round_trip(key.generation_of().value() as nat, 8);
    assert(whole@.take(16) =~= a);
    assert(whole@.skip(16) =~= b);
}

/// A relative path stands at the end of the joined one, after the directory and one
/// separator; an absolute path takes the directory's place.
pub proof fn law_join_call(directory: &[u8], below: &[u8], out: Vec<u8>)
    requires
        call_ensures(join, (directory, below), out),
    ensures
        below@.len() > 0 && below@[0] == 47 ==> out@ == below@,
        !(below@.len() > 0 && below@[0] == 47) ==> {
            &&& out@.len() >= directory@.len() + below@.len()
            &&& out@.take(directory@.len() as int) == directory@
            &&& out@.skip(out@.len() - below@.len()) == below@
            &&& directory@.len() > 0 && directory@.last() != 47 ==> out@.len() == directory@.len()
                + 1 + below@.len() && out@[directory@.len() as int] == 47
            &&& directory@.len() == 0 || directory@.last() == 47 ==> out@ == directory@ + below@
        },
{
    if !(below@.len() > 0 && below@[0] == 47) {
        assert(out@.take(directory@.len() as int) =~= directory@);
        assert(out@.skip(out@.len() - below@.len()) =~= below@);
    }
}

/// A backslash and three octal digits stand for the byte with that number; any byte but a
/// backslash stands for itself.
pub proof fn law_escapes(a: u8, b: u8, c: u8, rest: Seq<u8>, plain: u8)
    requires
        48 <= a <= 51,
        48 <= b <= 55,
        48 <= c <= 55,
        plain != 92,
    ensures
        unescaped(seq![92u8, a, b, c] + rest) == seq![
            (64 * (a - 48) + 8 * (b - 48) + (c - 48)) as u8,
        ] + unescaped(rest),
        unescaped(seq![plain] + rest) == seq![plain] + unescaped(rest),
        unescaped(Seq::<u8>::empty()).len() == 0,
{
    let coded = seq![92u8, a, b, c] + rest;
    assert(coded.skip(4) =~= rest);
    assert((seq![plain] + rest).skip(1) =~= rest);
    assert(is_escape(coded));
}

} // verus!
