//! Encoding of the catalog rows, the framing of their messages, and what decoding gives back.

use vstd::prelude::*;

use super::attachment::{is_device_order, ordered, place_of, AttachmentView, LocalAttachmentRecord};
use super::model::{
    mount_error, voters_error, FormatView, LocalReplicaOrigin, LocalReplicaRetirement, MountView,
    OriginView, ReplicaHealth, ReplicaKey, ReplicaRecord, ReplicaState, ReplicaView,
    SavedMountState, SavedUblkDevice,
};
use super::mounts::pieces_view;
use super::protocol::{CatalogProtocolError, StoredPool};
use super::records::{
    attachment_of, attachment_row_error, device_error, device_of, devices_of, devices_read_error,
    gathered, is_replica_of, is_retirement_of, origin_error, origin_of, pool_of, pool_row_error,
    replica_row_error, retirement_row_error, voter_list_error, voters_of, StoredAttachment,
    StoredAttachmentView, StoredDevice, StoredDeviceView, StoredFormat, StoredFormatView,
    StoredMount, StoredMountView, StoredOrigin, StoredOriginId, StoredOriginIdView,
    StoredOriginView, StoredPoolRow, StoredReplica, StoredReplicaView, StoredRetirement,
    StoredRetirementView, CATALOG_FORMAT_VERSION,
};
use super::rules::{all_serve, serves_session};
use super::voters::is_voter_order;
use crate::bytes::{be_bytes, be_value, copy_bytes, law_be_round_trip, push_be};
use crate::text::push_text;
use crate::volume::identity::{
    DriverSessionId, FenceEpoch, FilesystemId, OperationId, ReplacementId,
};

verus! {

broadcast use {SavedUblkDevice::lemma_made, SavedUblkDevice::lemma_fenced};

/// Largest accepted complete record.
pub const MAX_CATALOG_RECORD_BYTES: usize = 8192;

/// Largest number of words that a reader may traverse.
pub const MAX_CATALOG_WORDS: usize = 1024;

/// Deepest nesting that a reader may follow.
pub const MAX_CATALOG_NESTING_LEVELS: i32 = 16;

/// Number that four bytes stand for, least significant first.
pub open spec fn little_number(bytes: Seq<u8>, at: int) -> nat {
    (bytes[at] + 256 * bytes[at + 1] + 65536 * bytes[at + 2] + 16777216 * bytes[at + 3]) as nat
}

/// Words that the first segments of a message have together, as its table says.
pub open spec fn segment_words(bytes: Seq<u8>, segments: nat) -> nat
    decreases segments,
{
    if segments == 0 {
        0
    } else {
        segment_words(bytes, (segments - 1) as nat) + little_number(bytes, 4 * segments as int)
    }
}

/// Bytes left of some input after its first complete Cap'n Proto message, where it begins
/// with one of at most the given number of words. A message is a table, padded to whole
/// words, of the number of segments less one and of the words of each, and then the segments.
pub open spec fn bytes_after_message(bytes: Seq<u8>, words: nat) -> Option<nat> {
    let segments = little_number(bytes, 0) + 1;
    let table = 8 * (segments / 2 + 1);
    let body = segment_words(bytes, segments);
    if bytes.len() < 8 || segments >= 512 || bytes.len() < table || body > words || bytes.len()
        < table + 8 * body {
        None
    } else {
        Some((bytes.len() - table - 8 * body) as nat)
    }
}

/// Reads one message with `capnp::serialize::read_message` under the given traversal and
/// nesting limits, and returns how many bytes the reader left. An input that does not
/// begin with a complete message of fewer than 512 segments, or with one of more words than
/// the traversal limit, gives nothing. The limit keeps what the reader allocates small.
#[verifier::external_body]
fn read_one_message(bytes: &[u8], words: usize, nesting: i32) -> (out: Option<usize>)
    requires
        words <= MAX_CATALOG_WORDS,
    ensures
        match out {
            Some(rest) => bytes_after_message(bytes@, words as nat) == Some(rest as nat),
            None => bytes_after_message(bytes@, words as nat) is None,
        },
{
    let mut options = capnp::message::ReaderOptions::new();
    options.traversal_limit_in_words(Some(words)).nesting_limit(nesting);
    let mut remaining = bytes;
    match capnp::serialize::read_message(&mut remaining, options) {
        Ok(_) => Some(remaining.len()),
        Err(_) => None,
    }
}

/// Why a record of some length is not accepted.
pub open spec fn size_error(length: nat) -> Option<CatalogProtocolError> {
    if length > MAX_CATALOG_RECORD_BYTES {
        Some(
            CatalogProtocolError::RecordTooLarge {
                actual: length as usize,
                maximum: MAX_CATALOG_RECORD_BYTES,
            },
        )
    } else {
        None
    }
}

/// Checks one finished record against its byte limit.
pub fn finish_message(bytes: Vec<u8>) -> (out: Result<Vec<u8>, CatalogProtocolError>)
    ensures
        match out {
            Ok(same) => size_error(bytes@.len()) is None && same@ == bytes@,
            Err(error) => size_error(bytes@.len()) == Some(error),
        },
{
    if bytes.len() > MAX_CATALOG_RECORD_BYTES {
        return Err(
            CatalogProtocolError::RecordTooLarge {
                actual: bytes.len(),
                maximum: MAX_CATALOG_RECORD_BYTES,
            },
        );
    }
    Ok(bytes)
}

/// Why an input is not one record: it is too long, it begins with no message, or bytes
/// follow the message.
pub open spec fn message_error(length: nat, rest: Option<nat>) -> Option<CatalogProtocolError> {
    if size_error(length) is Some {
        size_error(length)
    } else {
        match rest {
            None => Some(CatalogProtocolError::Capnp),
            Some(left) => if left > 0 {
                Some(CatalogProtocolError::TrailingBytes { actual: left as usize })
            } else {
                None
            },
        }
    }
}

/// Judges what is left of an input after its first message.
pub fn check_rest(length: usize, rest: Option<usize>) -> (out: Result<(), CatalogProtocolError>)
    ensures
        ({
            let left = match rest {
                Some(rest) => Some(rest as nat),
                None => None,
            };
            match out {
                Ok(()) => message_error(length as nat, left) is None,
                Err(error) => message_error(length as nat, left) == Some(error),
            }
        }),
{
    if length > MAX_CATALOG_RECORD_BYTES {
        return Err(
            CatalogProtocolError::RecordTooLarge {
                actual: length,
                maximum: MAX_CATALOG_RECORD_BYTES,
            },
        );
    }
    match rest {
        None => Err(CatalogProtocolError::Capnp),
        Some(left) => {
            if left > 0 {
                return Err(CatalogProtocolError::TrailingBytes { actual: left });
            }
            Ok(())
        },
    }
}

/// Checks one bounded Cap'n Proto record and rejects trailing bytes.
pub fn check_message(bytes: &[u8]) -> (out: Result<(), CatalogProtocolError>)
    ensures
        ({
            let failure = message_error(
                bytes@.len(),
                bytes_after_message(bytes@, MAX_CATALOG_WORDS as nat),
            );
            match out {
                Ok(()) => failure is None,
                Err(error) => failure == Some(error),
            }
        }),
{
    if bytes.len() > MAX_CATALOG_RECORD_BYTES {
        return check_rest(bytes.len(), None);
    }
    let rest: Option<usize> = read_one_message(
        bytes,
        MAX_CATALOG_WORDS,
        MAX_CATALOG_NESTING_LEVELS,
    );
    check_rest(bytes.len(), rest)
}

/// Returns the bytes of one identity.
fn uuid_bytes(value: u128) -> (out: Vec<u8>)
    ensures
        out@ == be_bytes(value as nat, 16),
{
    let mut out: Vec<u8> = Vec::new();
    push_be(&mut out, value, 16);
    proof { assert(out@ =~= be_bytes(value as nat, 16)); }
    out
}

/// The bytes of an identity read back as the identity.
proof fn lemma_uuid_bytes(value: u128)
    ensures
        be_bytes(value as nat, 16).len() == 16,
        be_value(be_bytes(value as nat, 16)) == value,
{
    crate::bytes::lemma_byte_ranges();
    law_be_round_trip(value as nat, 16);
}

/// Stored list of some voters.
pub open spec fn voter_list(nodes: Seq<u128>) -> Seq<Seq<u8>> {
    nodes.map_values(|node: u128| be_bytes(node as nat, 16))
}

/// The list names the voters in increasing order.
pub open spec fn lists_voters(list: Seq<Seq<u8>>, voters: Set<u128>) -> bool {
    exists|nodes: Seq<u128>| #[trigger]
        voter_list(nodes) == list && is_voter_order(nodes) && nodes.to_set() == voters
}

/// Stored form of an origin.
pub open spec fn stores_origin(origin: OriginView, stored: StoredOriginView) -> bool {
    match origin {
        OriginView::Bootstrap(id) => {
            &&& stored.id == Ok::<StoredOriginIdView, u16>(
                StoredOriginIdView::Bootstrap(be_bytes(id.value() as nat, 16)),
            )
            &&& stored.voter_node_ids.len() == 0
        },
        OriginView::Replacement { id, voter_node_ids } => {
            &&& stored.id == Ok::<StoredOriginIdView, u16>(
                StoredOriginIdView::Replacement(be_bytes(id.value() as nat, 16)),
            )
            &&& lists_voters(stored.voter_node_ids, voter_node_ids)
        },
    }
}

/// Writes the immutable reason a local replica was reserved.
pub fn write_replica_origin(origin: &LocalReplicaOrigin) -> (out: StoredOrigin)
    ensures
        stores_origin(origin@, out@),
{
    match origin {
        LocalReplicaOrigin::Bootstrap(id) => StoredOrigin {
            voter_node_ids: Vec::new(),
            id: Ok(StoredOriginId::Bootstrap(uuid_bytes(id.as_u128()))),
        },
        LocalReplicaOrigin::Replacement { id, voter_node_ids } => {
            let nodes = voter_node_ids.nodes();
            let mut list: Vec<Vec<u8>> = Vec::new();
            let mut i: usize = 0;
            while i < nodes.len()
                invariant
                    i <= nodes@.len(),
                    list@.len() == i,
                    forall|k: int|
                        #![trigger list@[k]]
                        0 <= k < i ==> list@[k]@ == be_bytes(nodes@[k] as nat, 16),
                decreases nodes@.len() - i,
            {
                list.push(uuid_bytes(nodes[i]));
                i += 1;
            }
            proof { assert(voter_list(nodes@) =~= pieces_view(list@)); }
            StoredOrigin {
                voter_node_ids: list,
                id: Ok(StoredOriginId::Replacement(uuid_bytes(id.as_u128()))),
            }
        },
    }
}

/// An origin that local records may hold.
pub open spec fn is_usable_origin(origin: OriginView) -> bool {
    match origin {
        OriginView::Bootstrap(id) => id.value() != 0,
        OriginView::Replacement { id, voter_node_ids } => id.value() != 0 && voters_error(
            voter_node_ids,
        ) is None,
    }
}

/// A list of distinct voters reads back as the voters.
proof fn lemma_voter_list(nodes: Seq<u128>)
    requires
        is_voter_order(nodes),
        !nodes.contains(0),
    ensures
        voter_list_error(voter_list(nodes)) is None,
        voters_of(voter_list(nodes)) == nodes.to_set(),
    decreases nodes.len(),
{
    let list = voter_list(nodes);
    if nodes.len() > 0 {
        let rest = nodes.drop_last();
        assert(list.drop_last() =~= voter_list(rest));
        assert forall|i: int, j: int| 0 <= i < j < rest.len() implies rest[i] < rest[j] by {
            assert(nodes[i] < nodes[j]);
        }
        assert(!rest.contains(0)) by {
            if rest.contains(0) {
                let i = rest.index_of(0);
                assert(nodes[i] == 0);
            }
        }
        lemma_voter_list(rest);
        lemma_uuid_bytes(nodes.last());
        assert(nodes[nodes.len() - 1] == nodes.last());
        assert(!rest.to_set().contains(nodes.last())) by {
            if rest.contains(nodes.last()) {
                let i = rest.index_of(nodes.last());
                assert(nodes[i] < nodes[nodes.len() - 1]);
            }
        }
        assert(nodes.to_set() =~= rest.to_set().insert(nodes.last())) by {
            assert(nodes =~= rest.push(nodes.last()));
            assert forall|v: u128| nodes.to_set().contains(v) implies rest.to_set().insert(
                nodes.last(),
            ).contains(v) by {
                let i = nodes.index_of(v);
                if i < rest.len() {
                    assert(rest[i] == v);
                }
            }
            assert forall|v: u128| rest.to_set().insert(
                nodes.last(),
            ).contains(v) implies nodes.to_set().contains(v) by {
                if v != nodes.last() {
                    let i = rest.index_of(v);
                    assert(nodes[i] == v);
                }
            }
        }
    } else {
        assert(nodes.to_set() =~= Set::<u128>::empty());
    }
}

/// A stored origin reads back as the origin.
pub proof fn law_origin_round_trip(origin: OriginView, stored: StoredOriginView)
    requires
        is_usable_origin(origin),
        stores_origin(origin, stored),
    ensures
        origin_error(stored) is None,
        origin_of(stored) == origin,
{
    match origin {
        OriginView::Bootstrap(id) => {
            lemma_uuid_bytes(id.value());
            OperationId::lemma_made(id.value(), id);
        },
        OriginView::Replacement { id, voter_node_ids } => {
            lemma_uuid_bytes(id.value());
            ReplacementId::lemma_made(id.value(), id);
            let nodes = choose|nodes: Seq<u128>| #[trigger]
                voter_list(nodes) == stored.voter_node_ids && is_voter_order(nodes)
                    && nodes.to_set() == voter_node_ids;
            assert(!nodes.contains(0)) by {
                assert(!nodes.to_set().contains(0));
            }
            lemma_voter_list(nodes);
            assert(nodes.no_duplicates()) by {
                super::voters::lemma_order_is_unique(nodes);
            }
            nodes.unique_seq_to_set();
        },
    }
}

/// Stored form of a format.
pub open spec fn stored_format(format: FormatView) -> StoredFormatView {
    StoredFormatView {
        filesystem: format.filesystem,
        filesystem_id: be_bytes(format.filesystem_id.value() as nat, 16),
        profile_hash: format.profile_hash,
    }
}

/// Stored form of a replica row.
pub open spec fn stores_replica(record: ReplicaView, row: StoredReplicaView) -> bool {
    &&& row.format_version == CATALOG_FORMAT_VERSION
    &&& row.descriptor == record.descriptor
    &&& stores_origin(record.origin, row.origin)
    &&& row.directory_name == Some(record.directory_name)
    &&& row.state == Ok::<ReplicaState, u16>(record.state)
    &&& row.health == Ok::<ReplicaHealth, u16>(record.health)
    &&& row.data_bytes == record.reserved.data()
    &&& row.metadata_bytes == record.reserved.metadata()
    &&& row.filesystem_format == match record.filesystem_format {
        Some(format) => Some(stored_format(format)),
        None => None,
    }
}

/// Encodes one complete local replica row.
pub fn encode_replica(record: &ReplicaRecord) -> (out: StoredReplica)
    ensures
        stores_replica(record@, out@),
{
    let mut directory_name = String::new();
    push_text(&mut directory_name, record.directory_name());
    proof { assert(directory_name@ =~= record@.directory_name); }
    let filesystem_format = match record.filesystem_format() {
        Some(format) => {
            let profile_hash = format.profile_hash();
            let stored = StoredFormat {
                filesystem: format.filesystem(),
                filesystem_id: uuid_bytes(format.filesystem_id().as_u128()),
                profile_hash: copy_bytes(&profile_hash),
            };
            Some(stored)
        },
        None => None,
    };
    StoredReplica {
        format_version: CATALOG_FORMAT_VERSION,
        descriptor: *record.descriptor(),
        origin: write_replica_origin(record.origin()),
        directory_name: Some(directory_name),
        state: Ok(record.state()),
        health: Ok(record.health()),
        data_bytes: record.reserved_space().data_bytes(),
        metadata_bytes: record.reserved_space().metadata_bytes(),
        filesystem_format,
    }
}

/// A stored replica row is accepted and reads back as the record.
pub proof fn law_replica_round_trip(record: ReplicaView, row: StoredReplicaView)
    requires
        is_usable_origin(record.origin),
        record.filesystem_format matches Some(format) ==> format.filesystem_id.value() != 0
            && format.profile_hash.len() == 32,
        stores_replica(record, row),
    ensures
        replica_row_error(row) is None,
        is_replica_of(record, row),
{
    law_origin_round_trip(record.origin, row.origin);
    if let Some(format) = record.filesystem_format {
        lemma_uuid_bytes(format.filesystem_id.value());
        FilesystemId::lemma_made(format.filesystem_id.value(), format.filesystem_id);
    }
}

/// Stored form of a device.
pub open spec fn stored_device(device: SavedUblkDevice) -> StoredDeviceView {
    StoredDeviceView {
        device_id: device.id_of().value(),
        capacity: device.capacity_of(),
        fence: device.fence_of().value(),
        session_id: be_bytes(device.session_of().value() as nat, 16),
        queue_count: device.queue_count_of(),
        queue_depth: device.queue_depth_of(),
        max_request_bytes: device.max_request_of(),
    }
}

/// Stored form of a mount.
pub open spec fn stored_mount(mount: MountView) -> StoredMountView {
    StoredMountView {
        state: Ok(mount.state),
        fence: mount.fence.value(),
        session_id: be_bytes(mount.session_id.value() as nat, 16),
        path: mount.path,
        owner_uid: mount.owner_uid,
        owner_gid: mount.owner_gid,
        mode: mount.mode,
        filesystem_expanded_to_bytes: mount.filesystem_expanded_to_bytes,
        filesystem: mount.filesystem,
    }
}

/// Stored form of an attachment row.
pub open spec fn stored_attachment(record: AttachmentView) -> StoredAttachmentView {
    StoredAttachmentView {
        format_version: CATALOG_FORMAT_VERSION,
        descriptor: record.descriptor,
        session_id: be_bytes(record.session_id.value() as nat, 16),
        granted_fence: match record.granted_fence {
            Some(fence) => fence.value(),
            None => 0,
        },
        ublk_devices: record.ublk_devices.map_values(
            |device: SavedUblkDevice| stored_device(device),
        ),
        volume_mount: match record.volume_mount {
            Some(mount) => Some(stored_mount(mount)),
            None => None,
        },
        detaching: record.detaching,
    }
}

/// Encodes one durable local attachment row independently from replica files.
pub fn encode_attachment(record: &LocalAttachmentRecord) -> (out: StoredAttachment)
    ensures
        out@ == stored_attachment(record@),
{
    let devices = record.ublk_devices();
    let mut stored: Vec<StoredDevice> = Vec::new();
    let mut i: usize = 0;
    while i < devices.len()
        invariant
            i <= devices@.len(),
            devices@ == record@.ublk_devices,
            stored@.len() == i,
            forall|k: int|
                #![trigger stored@[k]]
                0 <= k < i ==> stored@[k]@ == stored_device(devices@[k]),
        decreases devices@.len() - i,
    {
        let device = devices[i];
        stored.push(
            StoredDevice {
                device_id: device.id().get(),
                capacity: device.capacity(),
                fence: device.fence().get(),
                session_id: uuid_bytes(device.session_id().as_u128()),
                queue_count: device.queue_count(),
                queue_depth: device.queue_depth(),
                max_request_bytes: device.max_request_bytes(),
            },
        );
        i += 1;
    }
    let volume_mount = match record.volume_mount() {
        Some(mount) => Some(
            StoredMount {
                state: Ok(mount.state()),
                fence: mount.fence().get(),
                session_id: uuid_bytes(mount.session_id().as_u128()),
                path: copy_bytes(mount.path()),
                owner_uid: mount.owner_uid(),
                owner_gid: mount.owner_gid(),
                mode: mount.mode(),
                filesystem_expanded_to_bytes: mount.filesystem_expanded_to_bytes(),
                filesystem: mount.filesystem(),
            },
        ),
        None => None,
    };
    let granted_fence: u64 = match record.granted_fence() {
        Some(fence) => fence.get(),
        None => 0,
    };
    let out = StoredAttachment {
        format_version: CATALOG_FORMAT_VERSION,
        descriptor: *record.descriptor(),
        session_id: uuid_bytes(record.session_id().as_u128()),
        granted_fence,
        ublk_devices: stored,
        volume_mount,
        detaching: record.is_detaching(),
    };
    proof {
        assert(out@.ublk_devices =~= stored_attachment(record@).ublk_devices);
    }
    out
}

/// Ordered devices stay as they are when they are ordered again.
proof fn lemma_ordered_again(devices: Seq<SavedUblkDevice>)
    requires
        is_device_order(devices),
    ensures
        ordered(devices) == devices,
    decreases devices.len(),
{
    if devices.len() > 0 {
        let rest = devices.drop_last();
        assert(is_device_order(rest)) by {
            assert forall|i: int, j: int|
                #![trigger rest[i], rest[j]]
                0 <= i < j < rest.len() implies rest[i].id_of().value() <= rest[j].id_of().value() by {
                assert(devices[i] == rest[i] && devices[j] == rest[j]);
            }
        }
        lemma_ordered_again(rest);
        if rest.len() > 0 {
            assert(devices[rest.len() - 1].id_of().value() <= devices[rest.len() as int].id_of().value());
        }
        assert(place_of(rest, devices.last()) == rest.len());
        assert(rest.insert(rest.len() as int, devices.last()) =~= devices);
    } else {
        assert(ordered(devices) =~= devices);
    }
}

/// Ordered distinct devices stay as they are when they are gathered.
proof fn lemma_gathered_again(devices: Seq<SavedUblkDevice>)
    requires
        is_device_order(devices),
        devices.no_duplicates(),
    ensures
        gathered(devices) == devices,
    decreases devices.len(),
{
    if devices.len() > 0 {
        let rest = devices.drop_last();
        assert(is_device_order(rest)) by {
            assert forall|i: int, j: int|
                #![trigger rest[i], rest[j]]
                0 <= i < j < rest.len() implies rest[i].id_of().value() <= rest[j].id_of().value() by {
                assert(devices[i] == rest[i] && devices[j] == rest[j]);
            }
        }
        lemma_gathered_again(rest);
        assert(!rest.contains(devices.last())) by {
            if rest.contains(devices.last()) {
                let i = rest.index_of(devices.last());
                assert(devices[i] == devices[rest.len() as int]);
            }
        }
        assert(rest.push(devices.last()) =~= devices);
        lemma_ordered_again(devices);
    } else {
        assert(gathered(devices) =~= devices);
    }
}

/// An attachment that local records may hold on a host with some page size.
pub open spec fn is_usable_attachment(record: AttachmentView, reported_page_bytes: i64) -> bool {
    &&& record.session_id.value() != 0
    &&& record.granted_fence matches Some(fence) ==> fence.value() != 0
    &&& is_device_order(record.ublk_devices)
    &&& record.ublk_devices.no_duplicates()
    &&& forall|i: int|
        #![trigger record.ublk_devices[i]]
        0 <= i < record.ublk_devices.len() ==> device_error(
            stored_device(record.ublk_devices[i]),
            reported_page_bytes,
        ) is None
    &&& record.ublk_devices.len() > 0 ==> (record.granted_fence matches Some(fence) && all_serve(
        record.ublk_devices,
        record.session_id,
        fence,
    ))
    &&& record.volume_mount matches Some(mount) ==> {
        &&& mount.fence.value() != 0
        &&& mount.session_id.value() != 0
        &&& mount_error(mount.path, mount.mode) is None
        &&& serves_session(record.ublk_devices, mount.session_id, mount.fence)
        &&& mount.state == SavedMountState::Unmounting ==> record.detaching
    }
}

/// A stored device reads back as the device.
pub proof fn lemma_device_round_trip(device: SavedUblkDevice)
    ensures
        device_of(stored_device(device)) == device,
{
    lemma_uuid_bytes(device.session_of().value());
    DriverSessionId::lemma_made(device.session_of().value(), device.session_of());
    FenceEpoch::lemma_made(device.fence_of().value(), device.fence_of());
    crate::driver::ublk_types::UblkDeviceId::lemma_made(device.id_of().value(), device.id_of());
    SavedUblkDevice::lemma_parts(device);
}

/// Good stored devices are accepted together.
proof fn lemma_devices_accepted(devices: Seq<StoredDeviceView>, reported_page_bytes: i64)
    requires
        forall|i: int|
            #![trigger devices[i]]
            0 <= i < devices.len() ==> device_error(devices[i], reported_page_bytes) is None,
    ensures
        devices_read_error(devices, reported_page_bytes) is None,
    decreases devices.len(),
{
    if devices.len() > 0 {
        let rest = devices.drop_last();
        assert forall|i: int| #![trigger rest[i]] 0 <= i < rest.len() implies device_error(
            rest[i],
            reported_page_bytes,
        ) is None by {
            assert(rest[i] == devices[i]);
        }
        lemma_devices_accepted(rest, reported_page_bytes);
        assert(devices[devices.len() - 1] == devices.last());
    }
}

/// A stored attachment row is accepted and reads back as the record.
pub proof fn law_attachment_round_trip(record: AttachmentView, reported_page_bytes: i64)
    requires
        is_usable_attachment(record, reported_page_bytes),
    ensures
        attachment_row_error(stored_attachment(record), reported_page_bytes) is None,
        attachment_of(stored_attachment(record)) == record,
{
    let row = stored_attachment(record);
    let devices = record.ublk_devices;
    lemma_uuid_bytes(record.session_id.value());
    DriverSessionId::lemma_made(record.session_id.value(), record.session_id);
    if let Some(fence) = record.granted_fence {
        FenceEpoch::lemma_made(fence.value(), fence);
    }
    if let Some(mount) = record.volume_mount {
        lemma_uuid_bytes(mount.session_id.value());
        DriverSessionId::lemma_made(mount.session_id.value(), mount.session_id);
        FenceEpoch::lemma_made(mount.fence.value(), mount.fence);
    }
    assert forall|i: int| #![trigger row.ublk_devices[i]] 0 <= i < row.ublk_devices.len() implies device_error(
        row.ublk_devices[i],
        reported_page_bytes,
    ) is None by {
        let device = devices[i];
        assert(row.ublk_devices[i] == stored_device(device));
    }
    lemma_devices_accepted(row.ublk_devices, reported_page_bytes);
    assert(devices_of(row.ublk_devices) =~= devices) by {
        assert forall|i: int| 0 <= i < devices.len() implies devices_of(row.ublk_devices)[i]
            == devices[i] by {
            lemma_device_round_trip(devices[i]);
        }
    }
    lemma_gathered_again(devices);
}

/// Stored form of a retirement.
pub open spec fn stored_retirement(key: ReplicaKey) -> StoredRetirementView {
    StoredRetirementView {
        format_version: CATALOG_FORMAT_VERSION,
        volume_id: be_bytes(key.volume().value() as nat, 16),
        generation: key.generation_of().value(),
    }
}

/// Encodes proof that a former member must not follow the immutable bootstrap plan.
pub fn encode_retirement(retirement: LocalReplicaRetirement) -> (out: StoredRetirement)
    ensures
        out@ == stored_retirement(retirement.retired()),
{
    let key = retirement.key();
    StoredRetirement {
        format_version: CATALOG_FORMAT_VERSION,
        volume_id: uuid_bytes(key.volume_id().as_u128()),
        generation: key.generation().get(),
    }
}

/// A stored retirement is accepted and reads back as its key.
pub proof fn law_retirement_round_trip(key: ReplicaKey)
    requires
        key.volume().value() != 0,
        key.generation_of().value() != 0,
    ensures
        retirement_row_error(stored_retirement(key)) is None,
        is_retirement_of(key, stored_retirement(key)),
{
    lemma_uuid_bytes(key.volume().value());
}

/// Encodes the single durable pool row; it is accepted and reads back as the pool.
pub fn encode_pool(pool: &StoredPool) -> (out: StoredPoolRow)
    ensures
        out.format_version == CATALOG_FORMAT_VERSION,
        pool_row_error(out) is None,
        pool_of(out) == pool@,
{
    StoredPoolRow {
        format_version: CATALOG_FORMAT_VERSION,
        path: copy_bytes(&pool.path),
        device_id: pool.device_id,
        filesystem: Ok(pool.filesystem),
        block_bytes: pool.block_bytes,
        managed_bytes: pool.managed_bytes,
        data_bytes: pool.data_bytes,
        metadata_bytes: pool.metadata_bytes,
    }
}

} // verus!
