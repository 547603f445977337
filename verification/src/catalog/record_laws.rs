//! What stored rows are read as, and which rows a catalog opens with.

use vstd::prelude::*;

use super::attachment::LocalAttachmentRecord;
use super::encoding::{
    check_message, check_rest, encode_attachment, encode_pool, encode_replica, encode_retirement,
    finish_message,
};
use super::error::CatalogError;
use super::model::{
    InvalidLocalReplicaOrigin, LocalReplicaOrigin, LocalReplicaRetirement, OriginView, ReplicaKey,
    ReplicaRecord, ReplicaView, SavedMountState,
};
use super::mounts::components;
use super::paths::{directory_text, key_bytes};
use super::pool::{PoolFilesystem, ReplicaPool};
use super::protocol::{CatalogProtocolError, StoredEnum, StoredField, StoredPool};
use super::records::{
    decode_attachment, decode_pool, decode_replica, decode_retirement, read_uuid, StoredAttachment,
    StoredPoolRow, StoredReplica, StoredRetirement,
};
use super::rules::{slot_of, Slot};
use super::store::opening::{
    attachments_error, replica_error, replicas_error, replicas_map, retirements_error,
    saved_attachments, saved_replicas, saved_retirements, SavedAttachment, SavedAttachmentView,
    SavedReplica, SavedReplicaView, SavedRetirement, SavedRetirementView,
};
use super::store::ReplicaCatalog;
use super::voters::VoterSet;
use crate::bytes::{be_value, law_be_round_trip, lemma_be_len, lemma_byte_ranges};
use crate::volume::identity::ReplacementId;

verus! {

/// An identity is sixteen bytes, largest first.
pub proof fn law_read_identity_call(
    bytes: &[u8],
    field: StoredField,
    out: Result<u128, CatalogProtocolError>,
)
    requires
        call_ensures(read_uuid, (bytes, field), out),
    ensures
        out is Ok <==> bytes@.len() == 16,
        out matches Ok(value) ==> value == be_value(bytes@),
{
}

/// A read replica row has the format version one, and each part of the record is the stored
/// one.
pub proof fn law_read_replica_call(
    row: StoredReplica,
    out: Result<ReplicaRecord, CatalogProtocolError>,
)
    requires
        call_ensures(decode_replica, (&row,), out),
    ensures
        out matches Ok(record) ==> {
            &&& row@.format_version == 1
            &&& record@.descriptor == row@.descriptor
            &&& row@.directory_name == Some(record@.directory_name)
            &&& row@.state is Ok && row@.state->Ok_0 == record@.state
            &&& row@.health is Ok && row@.health->Ok_0 == record@.health
            &&& record@.reserved.data() == row@.data_bytes
            &&& record@.reserved.metadata() == row@.metadata_bytes
            &&& record@.filesystem_format is Some <==> row@.filesystem_format is Some
            &&& record@.filesystem_format matches Some(format) ==> {
                let stored = row@.filesystem_format->0;
                &&& format.profile_hash == stored.profile_hash && stored.profile_hash.len() == 32
                &&& format.filesystem == stored.filesystem
                &&& be_value(stored.filesystem_id) != 0 && stored.filesystem_id.len() == 16
            }
        },
        row@.format_version != 1 ==> out is Err,
        row@.state is Err || row@.health is Err || row@.directory_name is None ==> out is Err,
{
}

/// A written replica row has the format version one and each part of the record.
pub proof fn law_write_replica_call(record: ReplicaRecord, out: StoredReplica)
    requires
        call_ensures(encode_replica, (&record,), out),
    ensures
        out@.format_version == 1,
        out@.descriptor == record@.descriptor,
        out@.directory_name == Some(record@.directory_name),
        out@.state is Ok && out@.state->Ok_0 == record@.state,
        out@.health is Ok && out@.health->Ok_0 == record@.health,
        out@.data_bytes == record@.reserved.data(),
        out@.metadata_bytes == record@.reserved.metadata(),
        out@.filesystem_format is Some <==> record@.filesystem_format is Some,
{
}

/// A read attachment row has the format version one and the stored descriptor, a fence
/// exactly where one is stored, a mount exactly where one is stored, and is being detached
/// where the row says so or its mount is being undone.
pub proof fn law_read_attachment_call(
    row: StoredAttachment,
    page_bytes: i64,
    out: Result<LocalAttachmentRecord, CatalogProtocolError>,
)
    requires
        call_ensures(decode_attachment, (&row, page_bytes), out),
    ensures
        out matches Ok(record) ==> {
            &&& row@.format_version == 1
            &&& record@.descriptor == row@.descriptor
            &&& record@.granted_fence is Some <==> row@.granted_fence > 0
            &&& record@.volume_mount is Some <==> row@.volume_mount is Some
            &&& record@.volume_mount matches Some(mount) ==> {
                let stored = row@.volume_mount->0;
                &&& mount.path == stored.path
                &&& mount.owner_uid == stored.owner_uid
                &&& mount.owner_gid == stored.owner_gid
                &&& mount.mode == stored.mode
                &&& mount.filesystem == stored.filesystem
                &&& mount.filesystem_expanded_to_bytes == stored.filesystem_expanded_to_bytes
                &&& stored.state is Ok && stored.state->Ok_0 == mount.state
            }
            &&& record@.detaching <==> row@.detaching || (record@.volume_mount is Some
                && record@.volume_mount->0.state == SavedMountState::Unmounting)
            &&& row@.ublk_devices.len() > 0 ==> row@.granted_fence > 0
        },
        row@.format_version != 1 ==> out is Err,
{
}

/// A written attachment row has the format version one and each part of the record; a fence
/// of zero stands for none.
pub proof fn law_write_attachment_call(record: LocalAttachmentRecord, out: StoredAttachment)
    requires
        call_ensures(encode_attachment, (&record,), out),
    ensures
        out@.format_version == 1,
        out@.descriptor == record@.descriptor,
        be_value(out@.session_id) == record@.session_id.value(),
        record@.granted_fence is None ==> out@.granted_fence == 0,
        record@.granted_fence matches Some(fence) ==> out@.granted_fence == fence.value(),
        out@.ublk_devices.len() == record@.ublk_devices.len(),
        forall|i: int|
            #![trigger out@.ublk_devices[i]]
            0 <= i < record@.ublk_devices.len() ==> out@.ublk_devices[i].device_id
                == record@.ublk_devices[i].id_of().value() && out@.ublk_devices[i].capacity
                == record@.ublk_devices[i].capacity_of() && out@.ublk_devices[i].fence
                == record@.ublk_devices[i].fence_of().value(),
        out@.volume_mount is Some <==> record@.volume_mount is Some,
        out@.detaching == record@.detaching,
{
    lemma_byte_ranges();
    lemma_be_len(record@.session_id.value() as nat, 16);
    law_be_round_trip(record@.session_id.value() as nat, 16);
}

/// A retirement is stored as the number of its volume and of its generation, and it is read
/// exactly where the format version is one and both numbers are there.
pub proof fn law_retirement_calls(
    retirement: LocalReplicaRetirement,
    written: StoredRetirement,
    row: StoredRetirement,
    out: Result<LocalReplicaRetirement, CatalogProtocolError>,
)
    requires
        call_ensures(encode_retirement, (retirement,), written),
        call_ensures(decode_retirement, (&row,), out),
    ensures
        written@.format_version == 1,
        be_value(written@.volume_id) == retirement.retired().volume().value(),
        written@.generation == retirement.retired().generation_of().value(),
        out is Ok <==> row@.format_version == 1 && row@.volume_id.len() == 16 && be_value(
            row@.volume_id,
        ) != 0 && row@.generation != 0,
        out matches Ok(read) ==> read.retired().volume().value() == be_value(row@.volume_id)
            && read.retired().generation_of().value() == row@.generation,
{
    lemma_byte_ranges();
    law_be_round_trip(retirement.retired().volume().value() as nat, 16);
}

/// A record of at most 8192 bytes passes unchanged, and a longer one is refused; a message
/// that leaves bytes over, or none at all, is refused.
pub proof fn law_message_calls(
    bytes: Vec<u8>,
    finished: Result<Vec<u8>, CatalogProtocolError>,
    length: usize,
    rest: Option<usize>,
    checked: Result<(), CatalogProtocolError>,
    raw: &[u8],
    whole: Result<(), CatalogProtocolError>,
)
    requires
        call_ensures(finish_message, (bytes,), finished),
        call_ensures(check_rest, (length, rest), checked),
        call_ensures(check_message, (raw,), whole),
    ensures
        finished is Ok <==> bytes@.len() <= 8192,
        finished matches Ok(same) ==> same@ == bytes@,
        checked is Ok <==> length <= 8192 && rest == Some(0usize),
        whole is Ok ==> raw@.len() <= 8192,
{
}

/// A replacement origin is made exactly for two or three voters, none of them zero.
pub proof fn law_replacement_origin_call(
    id: ReplacementId,
    voters: VoterSet,
    out: Result<LocalReplicaOrigin, InvalidLocalReplicaOrigin>,
)
    requires
        call_ensures(LocalReplicaOrigin::replacement, (id, voters), out),
    ensures
        out is Ok <==> 2 <= voters@.len() <= 3 && !voters@.contains(0),
        out matches Ok(origin) ==> origin@ == (OriginView::Replacement {
            id,
            voter_node_ids: voters@,
        }),
{
}

/// A stored pool is that of a checked one exactly where path, device, file system and block
/// size agree, whatever space it has; a new one holds nothing yet.
pub proof fn law_stored_pool_calls(
    stored: StoredPool,
    pool: ReplicaPool,
    matched: bool,
    fresh: StoredPool,
)
    requires
        call_ensures(StoredPool::matches, (&stored, &pool), matched),
        call_ensures(StoredPool::new, (&pool,), fresh),
    ensures
        matched <==> components(stored@.path) == components(pool@.root) && stored@.device_id
            == pool@.device_id && stored@.filesystem == pool@.filesystem && stored@.block_bytes
            == pool@.block_bytes,
        fresh@.path == pool@.root,
        fresh@.device_id == pool@.device_id,
        fresh@.filesystem == pool@.filesystem,
        fresh@.block_bytes == pool@.block_bytes,
        fresh@.managed_bytes == pool@.managed_bytes,
        fresh@.data_bytes == 0,
        fresh@.metadata_bytes == 0,
{
}

/// Rows without an error pass one by one.
proof fn lemma_replica_rows(rows: Seq<SavedReplicaView>, i: int)
    requires
        replicas_error(rows) is None,
        0 <= i < rows.len(),
    ensures
        super::store::opening::replica_error(rows[i]) is None,
    decreases rows.len(),
{
    if i < rows.len() - 1 {
        assert(rows.drop_last()[i] == rows[i]);
        lemma_replica_rows(rows.drop_last(), i);
    }
}

/// Attachments without an error pass one by one.
proof fn lemma_attachment_rows(
    rows: Seq<SavedAttachmentView>,
    replicas: Map<Slot, ReplicaView>,
    i: int,
)
    requires
        attachments_error(rows, replicas) is None,
        0 <= i < rows.len(),
    ensures
        super::store::opening::attachment_error(rows[i], replicas) is None,
    decreases rows.len(),
{
    if i < rows.len() - 1 {
        assert(rows.drop_last()[i] == rows[i]);
        lemma_attachment_rows(rows.drop_last(), replicas, i);
    }
}

/// Retirements without an error pass one by one.
proof fn lemma_retirement_rows(
    rows: Seq<SavedRetirementView>,
    replicas: Map<Slot, ReplicaView>,
    i: int,
)
    requires
        retirements_error(rows, replicas) is None,
        0 <= i < rows.len(),
    ensures
        super::store::opening::retirement_error(rows[i], replicas) is None,
    decreases rows.len(),
{
    if i < rows.len() - 1 {
        assert(rows.drop_last()[i] == rows[i]);
        lemma_retirement_rows(rows.drop_last(), replicas, i);
    }
}

/// A catalog opens only on the pool that it was saved for. Every replica row stands under
/// its own volume and generation, in its own directory, with room for what is applied; every
/// attachment belongs to a replica of the same storage that is large enough; no retired
/// generation has a row; and the totals fit the pool.
pub proof fn law_open_call(
    pool: ReplicaPool,
    stored: Option<StoredPool>,
    replicas: Vec<SavedReplica>,
    attachments: Vec<SavedAttachment>,
    retirements: Vec<SavedRetirement>,
    out: Result<ReplicaCatalog, CatalogError>,
    i: int,
    j: int,
    k: int,
)
    requires
        call_ensures(
            ReplicaCatalog::open,
            (pool, stored, replicas, attachments, retirements),
            out,
        ),
        0 <= i < replicas@.len(),
        0 <= j < attachments@.len(),
        0 <= k < retirements@.len(),
    ensures
        out matches Ok(catalog) ==> {
            let row = replicas@[i]@;
            let held = attachments@[j]@;
            let gone = retirements@[k]@;
            let all = replicas_map(saved_replicas(replicas@));
            &&& stored matches Some(saved) ==> components(saved@.path) == components(pool@.root)
                && saved@.device_id == pool@.device_id && saved@.filesystem == pool@.filesystem
                && saved@.block_bytes == pool@.block_bytes
            &&& row.key.len() == 24
            &&& be_value(row.key.take(16)) == row.row.descriptor.id().value()
            &&& be_value(row.key.skip(16)) == row.row.descriptor.generation_of().value()
            &&& row.row.directory_name == directory_text(ReplicaKey::key_of(row.row.descriptor))
            &&& row.row.reserved.data() >= row.applied.data()
            &&& row.row.reserved.metadata() == row.reserved.metadata()
            &&& all.contains_key(slot_of(held.row.descriptor))
            &&& held.row.descriptor.capacity_of().size()
                <= all[slot_of(held.row.descriptor)].descriptor.capacity_of().size()
            &&& all[slot_of(held.row.descriptor)].descriptor.sizes() == held.row.descriptor.sizes()
            &&& !all.contains_key(
                (gone.retired.volume().value(), gone.retired.generation_of().value()),
            )
            &&& catalog@.stored.data_bytes + catalog@.stored.metadata_bytes
                <= catalog@.stored.managed_bytes
            &&& catalog@.pool == pool@
        },
{
    if out is Ok {
        let rows = saved_replicas(replicas@);
        let held = saved_attachments(attachments@);
        let gone = saved_retirements(retirements@);
        assert(rows[i] == replicas@[i]@);
        assert(held[j] == attachments@[j]@);
        assert(gone[k] == retirements@[k]@);
        lemma_replica_rows(rows, i);
        lemma_attachment_rows(held, replicas_map(rows), j);
        lemma_retirement_rows(gone, replicas_map(rows), k);
        let key = ReplicaKey::key_of(rows[i].row.descriptor);
        ReplicaKey::lemma_key_of(rows[i].row.descriptor);
        lemma_byte_ranges();
        lemma_be_len(key.volume().value() as nat, 16);
        lemma_be_len(key.generation_of().value() as nat, 8);
        law_be_round_trip(key.volume().value() as nat, 16);
        law_be_round_trip(key.generation_of().value() as nat, 8);
        let raw = rows[i].key;
        assert(raw.take(16) =~= crate::bytes::be_bytes(key.volume().value() as nat, 16));
        assert(raw.skip(16) =~= crate::bytes::be_bytes(key.generation_of().value() as nat, 8));
    }
}

/// A pool row is read exactly where it has the first format and a known file system, and what
/// is read is what was written.
pub proof fn law_pool_row_calls(
    pool: StoredPool,
    written: StoredPoolRow,
    row: StoredPoolRow,
    out: Result<StoredPool, CatalogProtocolError>,
)
    requires
        call_ensures(encode_pool, (&pool,), written),
        call_ensures(decode_pool, (&row,), out),
    ensures
        written.format_version == 1,
        written.path@ == pool.path@,
        written.device_id == pool.device_id,
        written.filesystem == Ok::<PoolFilesystem, u16>(pool.filesystem),
        written.block_bytes == pool.block_bytes,
        written.managed_bytes == pool.managed_bytes,
        written.data_bytes == pool.data_bytes,
        written.metadata_bytes == pool.metadata_bytes,
        out is Ok <==> row.format_version == 1 && row.filesystem is Ok,
        row == written ==> out is Ok && out->Ok_0@ == pool@,
        out matches Ok(read) ==> {
            &&& read.path@ == row.path@
            &&& read.device_id == row.device_id
            &&& row.filesystem == Ok::<PoolFilesystem, u16>(read.filesystem)
            &&& read.block_bytes == row.block_bytes
            &&& read.managed_bytes == row.managed_bytes
            &&& read.data_bytes == row.data_bytes
            &&& read.metadata_bytes == row.metadata_bytes
        },
        row.format_version != 1 ==> out == Err::<StoredPool, CatalogProtocolError>(
            CatalogProtocolError::UnsupportedVersion { actual: row.format_version },
        ),
        row.format_version == 1 && row.filesystem is Err ==> out == Err::<
            StoredPool,
            CatalogProtocolError,
        >(
            CatalogProtocolError::UnknownEnum {
                name: StoredEnum::PoolFilesystem,
                value: row.filesystem->Err_0,
            },
        ),
{
}

/// A saved replica row is refused only where its key or its directory is of another volume
/// generation, where more is applied than reserved, or where the reserved metadata differ.
pub proof fn law_saved_rows_are_refused_for_cause(row: SavedReplicaView)
    ensures
        replica_error(row) is Some <==> {
            let key = ReplicaKey::key_of(row.row.descriptor);
            ||| key_bytes(key) != row.key
            ||| row.row.directory_name != directory_text(key)
            ||| row.row.reserved.data() < row.applied.data()
            ||| row.row.reserved.metadata() != row.reserved.metadata()
        },
        row.row.reserved.data() == row.applied.data() ==> replica_error(row) != Some(
            CatalogError::SpaceTotalsMismatch,
        ) || row.row.reserved.metadata() != row.reserved.metadata(),
{
}

} // verus!
