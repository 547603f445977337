//! Opening of saved local tables.

use vstd::prelude::*;

use super::{slot_number, slot_number_of, CatalogRows, ReplicaCatalog};
use crate::bytes::{be_bytes, same_bytes};
use crate::catalog::attachment::{AttachmentView, LocalAttachmentRecord};
use crate::catalog::error::CatalogError;
use crate::catalog::model::{
    LocalReplicaRetirement, ReplicaKey, ReplicaRecord, ReplicaView, ReservedSpace, SavedUblkDevice,
};
use crate::catalog::paths::{
    directory_name, directory_text, encode_key, encode_volume_key, key_bytes,
    law_table_keys_are_distinct,
};
use crate::catalog::pool::{PoolView, ReplicaPool};
use crate::catalog::protocol::{StoredPool, StoredPoolView};
use crate::catalog::rules::{
    fit_replica, held, held_total, is_attached, is_own_row, lemma_total_of_write, same_storage, serves_capacity,
    slot, slot_of, CatalogView, Slot,
};
use crate::text::same_text;
use crate::volume::descriptor::{capacity_error, VolumeDescriptor};

verus! {

broadcast use {vstd::std_specs::btree::group_btree_axioms, vstd::laws_cmp::group_laws_cmp};

/// One row of the replica table, with the space that the storage format needs for its
/// applied and for its reserved capacity.
pub struct SavedReplica {
    pub key: Vec<u8>,
    pub record: ReplicaRecord,
    pub applied: ReservedSpace,
    pub reserved: ReservedSpace,
}

/// Model of a saved replica row.
pub struct SavedReplicaView {
    pub key: Seq<u8>,
    pub row: ReplicaView,
    pub applied: ReservedSpace,
    pub reserved: ReservedSpace,
}

impl View for SavedReplica {
    type V = SavedReplicaView;

    open spec fn view(&self) -> SavedReplicaView {
        SavedReplicaView {
            key: self.key@,
            row: self.record@,
            applied: self.applied,
            reserved: self.reserved,
        }
    }
}

/// One row of the attachment table.
pub struct SavedAttachment {
    pub key: Vec<u8>,
    pub record: LocalAttachmentRecord,
}

/// Model of a saved attachment row.
pub struct SavedAttachmentView {
    pub key: Seq<u8>,
    pub row: AttachmentView,
}

impl View for SavedAttachment {
    type V = SavedAttachmentView;

    open spec fn view(&self) -> SavedAttachmentView {
        SavedAttachmentView { key: self.key@, row: self.record@ }
    }
}

/// One row of the retirement table.
pub struct SavedRetirement {
    pub key: Vec<u8>,
    pub retirement: LocalReplicaRetirement,
}

/// Model of a saved retirement row.
pub struct SavedRetirementView {
    pub key: Seq<u8>,
    pub retired: ReplicaKey,
}

impl View for SavedRetirement {
    type V = SavedRetirementView;

    open spec fn view(&self) -> SavedRetirementView {
        SavedRetirementView { key: self.key@, retired: self.retirement.retired() }
    }
}

/// Saved replica rows as plain values.
pub open spec fn saved_replicas(rows: Seq<SavedReplica>) -> Seq<SavedReplicaView> {
    rows.map_values(|row: SavedReplica| row@)
}

/// Saved attachment rows as plain values.
pub open spec fn saved_attachments(rows: Seq<SavedAttachment>) -> Seq<SavedAttachmentView> {
    rows.map_values(|row: SavedAttachment| row@)
}

/// Saved retirement rows as plain values.
pub open spec fn saved_retirements(rows: Seq<SavedRetirement>) -> Seq<SavedRetirementView> {
    rows.map_values(|row: SavedRetirement| row@)
}

/// Why a replica row cannot be taken.
pub open spec fn replica_error(row: SavedReplicaView) -> Option<CatalogError> {
    let key = ReplicaKey::key_of(row.row.descriptor);
    if key_bytes(key) != row.key || row.row.directory_name != directory_text(key) {
        Some(CatalogError::ReplicaIdentityMismatch)
    } else if row.row.reserved.data() < row.applied.data() || row.row.reserved.metadata()
        != row.reserved.metadata() {
        Some(CatalogError::SpaceTotalsMismatch)
    } else {
        None
    }
}

/// Data or metadata space that some rows hold together.
pub open spec fn rows_total(rows: Seq<SavedReplicaView>, metadata: bool) -> nat
    decreases rows.len(),
{
    if rows.len() == 0 {
        0
    } else {
        rows_total(rows.drop_last(), metadata) + held(rows.last().row, metadata)
    }
}

/// Why some replica rows cannot be taken: the first failure in their order.
pub open spec fn replicas_error(rows: Seq<SavedReplicaView>) -> Option<CatalogError>
    decreases rows.len(),
{
    if rows.len() == 0 {
        None
    } else if replicas_error(rows.drop_last()) is Some {
        replicas_error(rows.drop_last())
    } else if replica_error(rows.last()) is Some {
        replica_error(rows.last())
    } else if rows_total(rows, false) > u64::MAX || rows_total(rows, true) > u64::MAX {
        Some(CatalogError::SpaceOverflow)
    } else {
        None
    }
}

/// Replica rows by slot.
pub open spec fn replicas_map(rows: Seq<SavedReplicaView>) -> Map<Slot, ReplicaView>
    decreases rows.len(),
{
    if rows.len() == 0 {
        Map::empty()
    } else {
        replicas_map(rows.drop_last()).insert(slot_of(rows.last().row.descriptor), rows.last().row)
    }
}

/// Why some devices do not fit a replica: the first failure in their order.
pub open spec fn devices_error(devices: Seq<SavedUblkDevice>, replica: VolumeDescriptor) -> Option<
    CatalogError,
>
    decreases devices.len(),
{
    if devices.len() == 0 {
        None
    } else if devices_error(devices.drop_last(), replica) is Some {
        devices_error(devices.drop_last(), replica)
    } else if capacity_error(devices.last().capacity_of().size()) is Some {
        Some(CatalogError::Descriptor(capacity_error(devices.last().capacity_of().size())->Some_0))
    } else if devices.last().capacity_of().size() > replica.capacity_of().size() {
        Some(CatalogError::AttachmentIdentityMismatch)
    } else {
        None
    }
}

/// Why an attachment row cannot be taken.
pub open spec fn attachment_error(
    row: SavedAttachmentView,
    replicas: Map<Slot, ReplicaView>,
) -> Option<CatalogError> {
    let descriptor = row.row.descriptor;
    let key = slot_of(descriptor);
    let replica = replicas[key].descriptor;
    if key_bytes(ReplicaKey::key_of(descriptor)) != row.key {
        Some(CatalogError::AttachmentIdentityMismatch)
    } else if !replicas.contains_key(key) {
        Some(CatalogError::ReplicaNotFound)
    } else if !same_storage(replica, descriptor) || descriptor.capacity_of().size()
        > replica.capacity_of().size() {
        Some(CatalogError::AttachmentIdentityMismatch)
    } else if devices_error(row.row.ublk_devices, replica) is Some {
        devices_error(row.row.ublk_devices, replica)
    } else if row.row.ublk_devices.len() > 0 && !serves_capacity(
        row.row.ublk_devices,
        descriptor.capacity_of(),
    ) {
        Some(CatalogError::AttachmentIdentityMismatch)
    } else if row.row.volume_mount matches Some(mount) && mount.filesystem_expanded_to_bytes
        > descriptor.capacity_of().size() {
        Some(CatalogError::AttachmentIdentityMismatch)
    } else {
        None
    }
}

/// Why some attachment rows cannot be taken: the first failure in their order.
pub open spec fn attachments_error(
    rows: Seq<SavedAttachmentView>,
    replicas: Map<Slot, ReplicaView>,
) -> Option<CatalogError>
    decreases rows.len(),
{
    if rows.len() == 0 {
        None
    } else if attachments_error(rows.drop_last(), replicas) is Some {
        attachments_error(rows.drop_last(), replicas)
    } else {
        attachment_error(rows.last(), replicas)
    }
}

/// Attachment rows by slot.
pub open spec fn attachments_map(rows: Seq<SavedAttachmentView>) -> Map<Slot, AttachmentView>
    decreases rows.len(),
{
    if rows.len() == 0 {
        Map::empty()
    } else {
        attachments_map(rows.drop_last()).insert(
            slot_of(rows.last().row.descriptor),
            rows.last().row,
        )
    }
}

/// Why a retirement row cannot be taken.
pub open spec fn retirement_error(
    row: SavedRetirementView,
    replicas: Map<Slot, ReplicaView>,
) -> Option<CatalogError> {
    if be_bytes(row.retired.volume().value() as nat, 16) != row.key {
        Some(CatalogError::RetirementIdentityMismatch)
    } else if replicas.contains_key(slot(row.retired)) {
        Some(CatalogError::ConflictingReplica)
    } else {
        None
    }
}

/// Why some retirement rows cannot be taken: the first failure in their order.
pub open spec fn retirements_error(
    rows: Seq<SavedRetirementView>,
    replicas: Map<Slot, ReplicaView>,
) -> Option<CatalogError>
    decreases rows.len(),
{
    if rows.len() == 0 {
        None
    } else if retirements_error(rows.drop_last(), replicas) is Some {
        retirements_error(rows.drop_last(), replicas)
    } else {
        retirement_error(rows.last(), replicas)
    }
}

/// Retired generations by volume.
pub open spec fn retirements_map(rows: Seq<SavedRetirementView>) -> Map<u128, u64>
    decreases rows.len(),
{
    if rows.len() == 0 {
        Map::empty()
    } else {
        retirements_map(rows.drop_last()).insert(
            slot(rows.last().retired).0,
            slot(rows.last().retired).1,
        )
    }
}

/// Model of an optional pool row.
pub open spec fn stored_view(stored: Option<StoredPool>) -> Option<StoredPoolView> {
    match stored {
        Some(stored) => Some(stored@),
        None => None,
    }
}

/// Saved pool row, or the first one for a new catalog.
pub open spec fn pool_row(pool: PoolView, stored: Option<StoredPoolView>) -> StoredPoolView {
    match stored {
        Some(stored) => stored,
        None => StoredPoolView::first(pool),
    }
}

/// Why saved tables cannot be opened in a pool.
pub open spec fn open_error(
    pool: PoolView,
    stored: Option<StoredPoolView>,
    replicas: Seq<SavedReplicaView>,
    attachments: Seq<SavedAttachmentView>,
    retirements: Seq<SavedRetirementView>,
) -> Option<CatalogError> {
    let row = pool_row(pool, stored);
    let rows = replicas_map(replicas);
    if stored is Some && !row.is_of(pool) {
        Some(CatalogError::PoolChanged)
    } else if replicas_error(replicas) is Some {
        replicas_error(replicas)
    } else if rows_total(replicas, false) != row.data_bytes || rows_total(replicas, true)
        != row.metadata_bytes {
        Some(CatalogError::SpaceTotalsMismatch)
    } else if row.data_bytes + row.metadata_bytes > u64::MAX {
        Some(CatalogError::SpaceOverflow)
    } else if row.data_bytes + row.metadata_bytes > row.managed_bytes {
        Some(CatalogError::SpaceTotalsMismatch)
    } else if attachments_error(attachments, rows) is Some {
        attachments_error(attachments, rows)
    } else {
        retirements_error(retirements, rows)
    }
}

/// Catalog made of saved tables.
pub open spec fn opened(
    pool: PoolView,
    stored: Option<StoredPoolView>,
    replicas: Seq<SavedReplicaView>,
    attachments: Seq<SavedAttachmentView>,
    retirements: Seq<SavedRetirementView>,
) -> CatalogView {
    CatalogView {
        pool,
        stored: pool_row(pool, stored),
        replicas: replicas_map(replicas),
        attachments: attachments_map(attachments),
        retirements: retirements_map(retirements),
    }
}

/// No table key occurs twice.
pub open spec fn has_distinct_keys(rows: Seq<SavedReplicaView>) -> bool {
    forall|i: int, j: int|
        #![trigger rows[i], rows[j]]
        0 <= i < j < rows.len() ==> rows[i].key != rows[j].key
}

/// No slot occurs twice.
pub open spec fn has_distinct_slots(rows: Seq<SavedReplicaView>) -> bool {
    forall|i: int, j: int|
        #![trigger rows[i], rows[j]]
        0 <= i < j < rows.len() ==> slot_of(rows[i].row.descriptor) != slot_of(
            rows[j].row.descriptor,
        )
}

/// A row of the map comes from a row of the table.
proof fn lemma_map_rows(rows: Seq<SavedReplicaView>, key: Slot)
    requires
        replicas_map(rows).contains_key(key),
    ensures
        exists|i: int|
            #![trigger rows[i]]
            0 <= i < rows.len() && slot_of(rows[i].row.descriptor) == key
                && replicas_map(rows)[key] == rows[i].row,
    decreases rows.len(),
{
    if rows.len() > 0 {
        if slot_of(rows.last().row.descriptor) == key {
            assert(rows[rows.len() - 1] == rows.last());
        } else {
            lemma_map_rows(rows.drop_last(), key);
            let i = choose|i: int|
                #![trigger rows.drop_last()[i]]
                0 <= i < rows.drop_last().len() && slot_of(rows.drop_last()[i].row.descriptor)
                    == key && replicas_map(rows.drop_last())[key] == rows.drop_last()[i].row;
            assert(rows[i] == rows.drop_last()[i]);
        }
    }
}

/// Rows without an error stand under their own key.
proof fn lemma_rows_are_own(rows: Seq<SavedReplicaView>, i: int)
    requires
        replicas_error(rows) is None,
        0 <= i < rows.len(),
    ensures
        replica_error(rows[i]) is None,
    decreases rows.len(),
{
    if i < rows.len() - 1 {
        lemma_rows_are_own(rows.drop_last(), i);
        assert(rows.drop_last()[i] == rows[i]);
    }
}

/// The totals of rows with distinct slots are those of the map made of them.
proof fn lemma_totals_of_rows(rows: Seq<SavedReplicaView>, metadata: bool)
    requires
        has_distinct_slots(rows),
    ensures
        replicas_map(rows).dom().finite(),
        held_total(replicas_map(rows), metadata) == rows_total(rows, metadata),
    decreases rows.len(),
{
    if rows.len() > 0 {
        let rest = rows.drop_last();
        assert forall|i: int, j: int|
            #![trigger rest[i], rest[j]]
            0 <= i < j < rest.len() implies slot_of(rest[i].row.descriptor) != slot_of(
            rest[j].row.descriptor,
        ) by {
            assert(rest[i] == rows[i] && rest[j] == rows[j]);
        }
        lemma_totals_of_rows(rest, metadata);
        let key = slot_of(rows.last().row.descriptor);
        if replicas_map(rest).contains_key(key) {
            lemma_map_rows(rest, key);
            let i = choose|i: int|
                #![trigger rest[i]]
                0 <= i < rest.len() && slot_of(rest[i].row.descriptor) == key
                    && replicas_map(rest)[key] == rest[i].row;
            assert(rest[i] == rows[i]);
            assert(rows[rows.len() - 1] == rows.last());
        }
        lemma_total_of_write(replicas_map(rest), key, rows.last().row, metadata);
    } else {
        assert(replicas_map(rows).dom() =~= Set::empty());
    }
}

/// Good rows with distinct keys have distinct slots.
proof fn lemma_distinct_slots(rows: Seq<SavedReplicaView>)
    requires
        replicas_error(rows) is None,
        has_distinct_keys(rows),
    ensures
        has_distinct_slots(rows),
{
    assert forall|i: int, j: int|
        #![trigger rows[i], rows[j]]
        0 <= i < j < rows.len() implies slot_of(rows[i].row.descriptor) != slot_of(
        rows[j].row.descriptor,
    ) by {
        lemma_rows_are_own(rows, i);
        lemma_rows_are_own(rows, j);
        ReplicaKey::lemma_key_of(rows[i].row.descriptor);
        ReplicaKey::lemma_key_of(rows[j].row.descriptor);
    }
}

/// Attachment rows without an error belong to their replicas.
proof fn lemma_attachments_belong(
    rows: Seq<SavedAttachmentView>,
    replicas: Map<Slot, ReplicaView>,
    key: Slot,
)
    requires
        attachments_error(rows, replicas) is None,
        attachments_map(rows).contains_key(key),
    ensures
        is_attached(key, attachments_map(rows)[key], replicas),
    decreases rows.len(),
{
    if rows.len() > 0 {
        if slot_of(rows.last().row.descriptor) != key {
            lemma_attachments_belong(rows.drop_last(), replicas, key);
        } else {
            lemma_devices_fit(rows.last().row.ublk_devices, replicas[key].descriptor);
        }
    }
}

/// Retirement rows without an error exclude their replicas.
proof fn lemma_retirements_exclude(
    rows: Seq<SavedRetirementView>,
    replicas: Map<Slot, ReplicaView>,
    volume: u128,
)
    requires
        retirements_error(rows, replicas) is None,
        retirements_map(rows).contains_key(volume),
    ensures
        !replicas.contains_key((volume, retirements_map(rows)[volume])),
    decreases rows.len(),
{
    if rows.len() > 0 && slot(rows.last().retired).0 != volume {
        lemma_retirements_exclude(rows.drop_last(), replicas, volume);
    }
}

/// Retired generations are made of a volume and a generation that can be named.
pub open spec fn are_named(rows: Seq<SavedRetirementView>) -> bool {
    forall|i: int|
        #![trigger rows[i]]
        0 <= i < rows.len() ==> slot(rows[i].retired).0 != 0 && slot(rows[i].retired).1 != 0
}

/// A retired generation of the map comes from a row of the table.
proof fn lemma_retirement_rows(rows: Seq<SavedRetirementView>, volume: u128)
    requires
        retirements_map(rows).contains_key(volume),
    ensures
        exists|i: int|
            #![trigger rows[i]]
            0 <= i < rows.len() && slot(rows[i].retired) == (
                volume,
                retirements_map(rows)[volume],
            ),
    decreases rows.len(),
{
    if rows.len() > 0 {
        if slot(rows.last().retired).0 == volume {
            assert(rows[rows.len() - 1] == rows.last());
        } else {
            let rest = rows.drop_last();
            lemma_retirement_rows(rest, volume);
            let i = choose|i: int|
                #![trigger rest[i]]
                0 <= i < rest.len() && slot(rest[i].retired) == (
                    volume,
                    retirements_map(rest)[volume],
                );
            assert(rows[i] == rest[i]);
        }
    }
}

/// Devices without an error fit the replica, and devices that fit it have none.
proof fn lemma_devices_fit(devices: Seq<SavedUblkDevice>, replica: VolumeDescriptor)
    ensures
        devices_error(devices, replica) is None <==> fit_replica(devices, replica),
    decreases devices.len(),
{
    if devices.len() > 0 {
        let rest = devices.drop_last();
        lemma_devices_fit(rest, replica);
        assert(devices[devices.len() - 1] == devices.last());
        if fit_replica(devices, replica) {
            assert forall|i: int| #![trigger rest[i]] 0 <= i < rest.len() implies capacity_error(
                rest[i].capacity_of().size(),
            ) is None && rest[i].capacity_of().size() <= replica.capacity_of().size() by {
                assert(rest[i] == devices[i]);
            }
        }
        if devices_error(devices, replica) is None {
            assert forall|i: int|
                #![trigger devices[i]]
                0 <= i < devices.len() implies capacity_error(devices[i].capacity_of().size()) is None
                && devices[i].capacity_of().size() <= replica.capacity_of().size() by {
                if i < rest.len() {
                    assert(rest[i] == devices[i]);
                }
            }
        }
    }
}

/// The retired generations of a table are finitely many.
proof fn lemma_retirements_finite(rows: Seq<SavedRetirementView>)
    ensures
        retirements_map(rows).dom().finite(),
    decreases rows.len(),
{
    if rows.len() > 0 {
        lemma_retirements_finite(rows.drop_last());
    } else {
        assert(retirements_map(rows).dom() =~= Set::empty());
    }
}

/// Tables that open give a consistent catalog.
pub proof fn law_opened_catalog_is_consistent(
    pool: PoolView,
    stored: Option<StoredPoolView>,
    replicas: Seq<SavedReplicaView>,
    attachments: Seq<SavedAttachmentView>,
    retirements: Seq<SavedRetirementView>,
)
    requires
        has_distinct_keys(replicas),
        are_named(retirements),
        open_error(pool, stored, replicas, attachments, retirements) is None,
    ensures
        opened(pool, stored, replicas, attachments, retirements).is_consistent(),
{
    let catalog = opened(pool, stored, replicas, attachments, retirements);
    lemma_distinct_slots(replicas);
    lemma_totals_of_rows(replicas, false);
    lemma_totals_of_rows(replicas, true);
    lemma_retirements_finite(retirements);
    assert forall|key: Slot| #[trigger]
        catalog.replicas.contains_key(key) implies is_own_row(key, catalog.replicas[key]) by {
        lemma_map_rows(replicas, key);
        let i = choose|i: int|
            #![trigger replicas[i]]
            0 <= i < replicas.len() && slot_of(replicas[i].row.descriptor) == key
                && replicas_map(replicas)[key] == replicas[i].row;
        lemma_rows_are_own(replicas, i);
    }
    assert forall|key: Slot| #[trigger]
        catalog.attachments.contains_key(key) implies is_attached(
        key,
        catalog.attachments[key],
        catalog.replicas,
    ) by {
        lemma_attachments_belong(attachments, catalog.replicas, key);
    }
    assert forall|volume: u128| #[trigger]
        catalog.retirements.contains_key(volume) implies volume != 0 && catalog.retirements[volume]
        != 0 && !catalog.replicas.contains_key((volume, catalog.retirements[volume])) by {
        lemma_retirements_exclude(retirements, catalog.replicas, volume);
        lemma_retirement_rows(retirements, volume);
    }
}

/// The rows are those of the catalog, each once and under its own key.
pub open spec fn saves_replicas(
    rows: Seq<SavedReplicaView>,
    all: Map<Slot, ReplicaView>,
) -> bool {
    &&& has_distinct_slots(rows)
    &&& forall|i: int|
        #![trigger rows[i]]
        0 <= i < rows.len() ==> {
            let descriptor = rows[i].row.descriptor;
            &&& rows[i].key == key_bytes(ReplicaKey::key_of(descriptor))
            &&& all.contains_key(slot_of(descriptor))
            &&& all[slot_of(descriptor)] == rows[i].row
        }
    &&& forall|key: Slot| #[trigger]
        all.contains_key(key) ==> exists|i: int|
            #![trigger rows[i]]
            0 <= i < rows.len() && slot_of(rows[i].row.descriptor) == key
}

/// The space that each row holds is what the storage format takes.
pub open spec fn hold_format_space(rows: Seq<SavedReplicaView>) -> bool {
    forall|i: int|
        #![trigger rows[i]]
        0 <= i < rows.len() ==> rows[i].row.reserved.data() >= rows[i].applied.data()
            && rows[i].row.reserved.metadata() == rows[i].reserved.metadata()
}

/// The rows are those of the catalog, each once and under its own key.
pub open spec fn saves_attachments(
    rows: Seq<SavedAttachmentView>,
    all: Map<Slot, AttachmentView>,
) -> bool {
    &&& forall|i: int, j: int|
        #![trigger rows[i], rows[j]]
        0 <= i < j < rows.len() ==> slot_of(rows[i].row.descriptor) != slot_of(
            rows[j].row.descriptor,
        )
    &&& forall|i: int|
        #![trigger rows[i]]
        0 <= i < rows.len() ==> {
            let descriptor = rows[i].row.descriptor;
            &&& rows[i].key == key_bytes(ReplicaKey::key_of(descriptor))
            &&& all.contains_key(slot_of(descriptor))
            &&& all[slot_of(descriptor)] == rows[i].row
        }
    &&& forall|key: Slot| #[trigger]
        all.contains_key(key) ==> exists|i: int|
            #![trigger rows[i]]
            0 <= i < rows.len() && slot_of(rows[i].row.descriptor) == key
}

/// Every attachment that has devices has one that serves its capacity.
pub open spec fn serve_their_capacity(all: Map<Slot, AttachmentView>) -> bool {
    forall|key: Slot| #[trigger]
        all.contains_key(key) && all[key].ublk_devices.len() > 0 ==> serves_capacity(
            all[key].ublk_devices,
            all[key].descriptor.capacity_of(),
        )
}

/// The rows are those of the catalog, each once and under its own key.
pub open spec fn saves_retirements(rows: Seq<SavedRetirementView>, all: Map<u128, u64>) -> bool {
    &&& forall|i: int, j: int|
        #![trigger rows[i], rows[j]]
        0 <= i < j < rows.len() ==> slot(rows[i].retired).0 != slot(rows[j].retired).0
    &&& forall|i: int|
        #![trigger rows[i]]
        0 <= i < rows.len() ==> {
            let (volume, generation) = slot(rows[i].retired);
            &&& rows[i].key == be_bytes(volume as nat, 16)
            &&& all.contains_key(volume)
            &&& all[volume] == generation
        }
    &&& forall|volume: u128| #[trigger]
        all.contains_key(volume) ==> exists|i: int|
            #![trigger rows[i]]
            0 <= i < rows.len() && slot(rows[i].retired).0 == volume
}

/// Replica rows that are all good have no error.
proof fn lemma_good_replicas(rows: Seq<SavedReplicaView>)
    requires
        forall|i: int| #![trigger rows[i]] 0 <= i < rows.len() ==> replica_error(rows[i]) is None,
        rows_total(rows, false) <= u64::MAX,
        rows_total(rows, true) <= u64::MAX,
    ensures
        replicas_error(rows) is None,
    decreases rows.len(),
{
    if rows.len() > 0 {
        let rest = rows.drop_last();
        assert forall|i: int| #![trigger rest[i]] 0 <= i < rest.len() implies replica_error(
            rest[i],
        ) is None by {
            assert(rest[i] == rows[i]);
        }
        lemma_good_replicas(rest);
        assert(rows[rows.len() - 1] == rows.last());
    }
}

/// Every row stands in the map made of rows with distinct slots.
proof fn lemma_rows_in_map(rows: Seq<SavedReplicaView>, i: int)
    requires
        has_distinct_slots(rows),
        0 <= i < rows.len(),
    ensures
        replicas_map(rows).contains_key(slot_of(rows[i].row.descriptor)),
        replicas_map(rows)[slot_of(rows[i].row.descriptor)] == rows[i].row,
    decreases rows.len(),
{
    if i < rows.len() - 1 {
        let rest = rows.drop_last();
        assert forall|a: int, b: int|
            #![trigger rest[a], rest[b]]
            0 <= a < b < rest.len() implies slot_of(rest[a].row.descriptor) != slot_of(
            rest[b].row.descriptor,
        ) by {
            assert(rest[a] == rows[a] && rest[b] == rows[b]);
        }
        lemma_rows_in_map(rest, i);
        assert(rest[i] == rows[i]);
        assert(rows[rows.len() - 1] == rows.last());
    } else {
        assert(rows[i] == rows.last());
    }
}

/// An attachment of the map comes from a row of the table.
proof fn lemma_attachment_rows(rows: Seq<SavedAttachmentView>, key: Slot)
    requires
        attachments_map(rows).contains_key(key),
    ensures
        exists|i: int|
            #![trigger rows[i]]
            0 <= i < rows.len() && slot_of(rows[i].row.descriptor) == key
                && attachments_map(rows)[key] == rows[i].row,
    decreases rows.len(),
{
    if rows.len() > 0 {
        if slot_of(rows.last().row.descriptor) == key {
            assert(rows[rows.len() - 1] == rows.last());
        } else {
            let rest = rows.drop_last();
            lemma_attachment_rows(rest, key);
            let i = choose|i: int|
                #![trigger rest[i]]
                0 <= i < rest.len() && slot_of(rest[i].row.descriptor) == key
                    && attachments_map(rest)[key] == rest[i].row;
            assert(rows[i] == rest[i]);
        }
    }
}

/// Every row has its slot in the map.
proof fn lemma_attachment_slots(rows: Seq<SavedAttachmentView>, i: int)
    requires
        0 <= i < rows.len(),
    ensures
        attachments_map(rows).contains_key(slot_of(rows[i].row.descriptor)),
    decreases rows.len(),
{
    if i < rows.len() - 1 {
        lemma_attachment_slots(rows.drop_last(), i);
        assert(rows.drop_last()[i] == rows[i]);
    } else {
        assert(rows[i] == rows.last());
    }
}

/// Attachment rows that are all good have no error.
proof fn lemma_good_attachments(
    rows: Seq<SavedAttachmentView>,
    replicas: Map<Slot, ReplicaView>,
)
    requires
        forall|i: int|
            #![trigger rows[i]]
            0 <= i < rows.len() ==> attachment_error(rows[i], replicas) is None,
    ensures
        attachments_error(rows, replicas) is None,
    decreases rows.len(),
{
    if rows.len() > 0 {
        let rest = rows.drop_last();
        assert forall|i: int| #![trigger rest[i]] 0 <= i < rest.len() implies attachment_error(
            rest[i],
            replicas,
        ) is None by {
            assert(rest[i] == rows[i]);
        }
        lemma_good_attachments(rest, replicas);
        assert(rows[rows.len() - 1] == rows.last());
    }
}

/// Every row has its volume in the map.
proof fn lemma_retirement_volumes(rows: Seq<SavedRetirementView>, i: int)
    requires
        0 <= i < rows.len(),
    ensures
        retirements_map(rows).contains_key(slot(rows[i].retired).0),
    decreases rows.len(),
{
    if i < rows.len() - 1 {
        lemma_retirement_volumes(rows.drop_last(), i);
        assert(rows.drop_last()[i] == rows[i]);
    } else {
        assert(rows[i] == rows.last());
    }
}

/// Retirement rows that are all good have no error.
proof fn lemma_good_retirements(
    rows: Seq<SavedRetirementView>,
    replicas: Map<Slot, ReplicaView>,
)
    requires
        forall|i: int|
            #![trigger rows[i]]
            0 <= i < rows.len() ==> retirement_error(rows[i], replicas) is None,
    ensures
        retirements_error(rows, replicas) is None,
    decreases rows.len(),
{
    if rows.len() > 0 {
        let rest = rows.drop_last();
        assert forall|i: int| #![trigger rest[i]] 0 <= i < rest.len() implies retirement_error(
            rest[i],
            replicas,
        ) is None by {
            assert(rest[i] == rows[i]);
        }
        lemma_good_retirements(rest, replicas);
        assert(rows[rows.len() - 1] == rows.last());
    }
}

/// Every row whose keys are its own is found under distinct table keys.
proof fn lemma_saved_keys_distinct(rows: Seq<SavedReplicaView>, all: Map<Slot, ReplicaView>)
    requires
        saves_replicas(rows, all),
    ensures
        has_distinct_keys(rows),
{
    assert forall|i: int, j: int|
        #![trigger rows[i], rows[j]]
        0 <= i < j < rows.len() implies rows[i].key != rows[j].key by {
        let a = rows[i].row.descriptor;
        let b = rows[j].row.descriptor;
        ReplicaKey::lemma_key_of(a);
        ReplicaKey::lemma_key_of(b);
        law_table_keys_are_distinct(ReplicaKey::key_of(a), ReplicaKey::key_of(b));
    }
}

/// The saved rows of a consistent catalog open again, and to the same catalog: its pool row,
/// its replicas, its attachments and its retirements.
///
/// Each row must hold the space that the storage format takes, and each attachment with
/// devices must have one of its own capacity, since opening refuses tables without.
pub proof fn law_saved_catalog_opens_again(
    catalog: CatalogView,
    replicas: Seq<SavedReplicaView>,
    attachments: Seq<SavedAttachmentView>,
    retirements: Seq<SavedRetirementView>,
)
    requires
        catalog.is_consistent(),
        saves_replicas(replicas, catalog.replicas),
        hold_format_space(replicas),
        saves_attachments(attachments, catalog.attachments),
        serve_their_capacity(catalog.attachments),
        saves_retirements(retirements, catalog.retirements),
    ensures
        has_distinct_keys(replicas),
        open_error(catalog.pool, Some(catalog.stored), replicas, attachments, retirements) is None,
        opened(catalog.pool, Some(catalog.stored), replicas, attachments, retirements) == catalog,
{
    lemma_saved_keys_distinct(replicas, catalog.replicas);
    assert(replicas_map(replicas) =~= catalog.replicas) by {
        assert forall|key: Slot| #[trigger]
            replicas_map(replicas).contains_key(key) <==> catalog.replicas.contains_key(key) by {
            if replicas_map(replicas).contains_key(key) {
                lemma_map_rows(replicas, key);
            }
            if catalog.replicas.contains_key(key) {
                let i = choose|i: int|
                    #![trigger replicas[i]]
                    0 <= i < replicas.len() && slot_of(replicas[i].row.descriptor) == key;
                lemma_rows_in_map(replicas, i);
            }
        }
        assert forall|key: Slot| #[trigger]
            replicas_map(replicas).contains_key(key) implies replicas_map(replicas)[key]
            == catalog.replicas[key] by {
            lemma_map_rows(replicas, key);
        }
    }
    lemma_totals_of_rows(replicas, false);
    lemma_totals_of_rows(replicas, true);
    assert forall|i: int| #![trigger replicas[i]] 0 <= i < replicas.len() implies replica_error(
        replicas[i],
    ) is None by {
        let key = slot_of(replicas[i].row.descriptor);
        assert(catalog.replicas.contains_key(key));
        assert(is_own_row(key, catalog.replicas[key]));
    }
    lemma_good_replicas(replicas);
    assert(attachments_map(attachments) =~= catalog.attachments) by {
        assert forall|key: Slot| #[trigger]
            attachments_map(attachments).contains_key(key) <==> catalog.attachments.contains_key(
                key,
            ) by {
            if attachments_map(attachments).contains_key(key) {
                lemma_attachment_rows(attachments, key);
            }
            if catalog.attachments.contains_key(key) {
                let i = choose|i: int|
                    #![trigger attachments[i]]
                    0 <= i < attachments.len() && slot_of(attachments[i].row.descriptor) == key;
                lemma_attachment_slots(attachments, i);
            }
        }
        assert forall|key: Slot| #[trigger]
            attachments_map(attachments).contains_key(key) implies attachments_map(
            attachments,
        )[key] == catalog.attachments[key] by {
            lemma_attachment_rows(attachments, key);
        }
    }
    assert forall|i: int|
        #![trigger attachments[i]]
        0 <= i < attachments.len() implies attachment_error(attachments[i], catalog.replicas)
        is None by {
        let key = slot_of(attachments[i].row.descriptor);
        assert(catalog.attachments.contains_key(key));
        assert(is_attached(key, catalog.attachments[key], catalog.replicas));
        lemma_devices_fit(attachments[i].row.ublk_devices, catalog.replicas[key].descriptor);
    }
    lemma_good_attachments(attachments, catalog.replicas);
    assert(retirements_map(retirements) =~= catalog.retirements) by {
        assert forall|volume: u128| #[trigger]
            retirements_map(retirements).contains_key(volume)
                <==> catalog.retirements.contains_key(volume) by {
            if retirements_map(retirements).contains_key(volume) {
                lemma_retirement_rows(retirements, volume);
            }
            if catalog.retirements.contains_key(volume) {
                let i = choose|i: int|
                    #![trigger retirements[i]]
                    0 <= i < retirements.len() && slot(retirements[i].retired).0 == volume;
                lemma_retirement_volumes(retirements, i);
            }
        }
        assert forall|volume: u128| #[trigger]
            retirements_map(retirements).contains_key(volume) implies retirements_map(
            retirements,
        )[volume] == catalog.retirements[volume] by {
            lemma_retirement_rows(retirements, volume);
        }
    }
    assert forall|i: int|
        #![trigger retirements[i]]
        0 <= i < retirements.len() implies retirement_error(retirements[i], catalog.replicas)
        is None by {
        let (volume, generation) = slot(retirements[i].retired);
        assert(catalog.retirements.contains_key(volume));
    }
    lemma_good_retirements(retirements, catalog.replicas);
}

/// Checks one stored key against its complete descriptor and path, and its reservation
/// against the storage format.
fn check_replica(row: &SavedReplica) -> (out: Result<(), CatalogError>)
    ensures
        match out {
            Ok(()) => replica_error(row@) is None,
            Err(error) => replica_error(row@) == Some(error),
        },
{
    let key = row.record.key();
    let expected_key = encode_key(key);
    let expected_name = directory_name(key);
    if !same_bytes(&expected_key, &row.key) || !same_text(
        row.record.directory_name(),
        expected_name.as_str(),
    ) {
        return Err(CatalogError::ReplicaIdentityMismatch);
    }
    let space = row.record.reserved_space();
    if space.data_bytes() < row.applied.data_bytes() || space.metadata_bytes()
        != row.reserved.metadata_bytes() {
        return Err(CatalogError::SpaceTotalsMismatch);
    }
    Ok(())
}

/// Reads every row once and verifies its reservation against the selected format.
fn checked_totals(rows: &Vec<SavedReplica>) -> (out: Result<(u64, u64), CatalogError>)
    ensures
        match out {
            Ok(totals) => replicas_error(saved_replicas(rows@)) is None && totals.0 == rows_total(
                saved_replicas(rows@),
                false,
            ) && totals.1 == rows_total(saved_replicas(rows@), true),
            Err(error) => replicas_error(saved_replicas(rows@)) == Some(error),
        },
{
    let ghost all = saved_replicas(rows@);
    let mut data_bytes: u64 = 0;
    let mut metadata_bytes: u64 = 0;
    let mut i: usize = 0;
    proof { assert(all.take(0) =~= Seq::<SavedReplicaView>::empty()); }
    while i < rows.len()
        invariant
            i <= rows@.len(),
            all == saved_replicas(rows@),
            replicas_error(all.take(i as int)) is None,
            data_bytes == rows_total(all.take(i as int), false),
            metadata_bytes == rows_total(all.take(i as int), true),
        decreases rows@.len() - i,
    {
        let ghost upto = all.take(i + 1);
        proof {
            assert(upto.drop_last() =~= all.take(i as int));
            assert(upto.last() == rows@[i as int]@);
            lemma_replicas_error_grows(all, i + 1);
        }
        match check_replica(&rows[i]) {
            Err(error) => {
                return Err(error);
            },
            Ok(()) => {},
        }
        let space = rows[i].record.reserved_space();
        data_bytes = match data_bytes.checked_add(space.data_bytes()) {
            Some(total) => total,
            None => {
                return Err(CatalogError::SpaceOverflow);
            },
        };
        metadata_bytes = match metadata_bytes.checked_add(space.metadata_bytes()) {
            Some(total) => total,
            None => {
                return Err(CatalogError::SpaceOverflow);
            },
        };
        i += 1;
    }
    proof { assert(all.take(all.len() as int) =~= all); }
    Ok((data_bytes, metadata_bytes))
}

/// An error among the first rows is the error of all rows.
proof fn lemma_replicas_error_grows(rows: Seq<SavedReplicaView>, upto: int)
    requires
        0 <= upto <= rows.len(),
    ensures
        replicas_error(rows.take(upto)) is Some ==> replicas_error(rows) == replicas_error(
            rows.take(upto),
        ),
    decreases rows.len(),
{
    if upto < rows.len() {
        lemma_replicas_error_grows(rows.drop_last(), upto);
        assert(rows.drop_last().take(upto) =~= rows.take(upto));
    } else {
        assert(rows.take(upto) =~= rows);
    }
}

/// An error among the first rows is the error of all rows.
proof fn lemma_attachments_error_grows(
    rows: Seq<SavedAttachmentView>,
    replicas: Map<Slot, ReplicaView>,
    upto: int,
)
    requires
        0 <= upto <= rows.len(),
    ensures
        attachments_error(rows.take(upto), replicas) is Some ==> attachments_error(rows, replicas)
            == attachments_error(rows.take(upto), replicas),
    decreases rows.len(),
{
    if upto < rows.len() {
        lemma_attachments_error_grows(rows.drop_last(), replicas, upto);
        assert(rows.drop_last().take(upto) =~= rows.take(upto));
    } else {
        assert(rows.take(upto) =~= rows);
    }
}

/// An error among the first rows is the error of all rows.
proof fn lemma_retirements_error_grows(
    rows: Seq<SavedRetirementView>,
    replicas: Map<Slot, ReplicaView>,
    upto: int,
)
    requires
        0 <= upto <= rows.len(),
    ensures
        retirements_error(rows.take(upto), replicas) is Some ==> retirements_error(rows, replicas)
            == retirements_error(rows.take(upto), replicas),
    decreases rows.len(),
{
    if upto < rows.len() {
        lemma_retirements_error_grows(rows.drop_last(), replicas, upto);
        assert(rows.drop_last().take(upto) =~= rows.take(upto));
    } else {
        assert(rows.take(upto) =~= rows);
    }
}

/// An error among the first devices is the error of all devices.
proof fn lemma_devices_error_grows(
    devices: Seq<SavedUblkDevice>,
    replica: VolumeDescriptor,
    upto: int,
)
    requires
        0 <= upto <= devices.len(),
    ensures
        devices_error(devices.take(upto), replica) is Some ==> devices_error(devices, replica)
            == devices_error(devices.take(upto), replica),
    decreases devices.len(),
{
    if upto < devices.len() {
        lemma_devices_error_grows(devices.drop_last(), replica, upto);
        assert(devices.drop_last().take(upto) =~= devices.take(upto));
    } else {
        assert(devices.take(upto) =~= devices);
    }
}

/// Checks the devices of an attachment against its replica.
fn check_devices(devices: &[SavedUblkDevice], replica: VolumeDescriptor) -> (out: Result<
    (),
    CatalogError,
>)
    ensures
        match out {
            Ok(()) => devices_error(devices@, replica) is None,
            Err(error) => devices_error(devices@, replica) == Some(error),
        },
{
    let mut i: usize = 0;
    proof { assert(devices@.take(0) =~= Seq::<SavedUblkDevice>::empty()); }
    while i < devices.len()
        invariant
            i <= devices@.len(),
            devices_error(devices@.take(i as int), replica) is None,
        decreases devices@.len() - i,
    {
        let capacity = devices[i].capacity();
        proof {
            assert(devices@.take(i + 1).drop_last() =~= devices@.take(i as int));
            assert(devices@.take(i + 1).last() == devices@[i as int]);
            lemma_devices_error_grows(devices@, replica, i + 1);
        }
        match replica.with_capacity(capacity) {
            Ok(_) => {},
            Err(error) => {
                return Err(CatalogError::Descriptor(error));
            },
        }
        if capacity.bytes() > replica.capacity().bytes() {
            return Err(CatalogError::AttachmentIdentityMismatch);
        }
        i += 1;
    }
    proof { assert(devices@.take(devices@.len() as int) =~= devices@); }
    Ok(())
}

impl CatalogRows {
    /// Checks that an attachment belongs to one live local replica.
    fn check_attachment(&self, row: &SavedAttachment) -> (out: Result<(), CatalogError>)
        ensures
            match out {
                Ok(()) => attachment_error(row@, self@.replicas) is None,
                Err(error) => attachment_error(row@, self@.replicas) == Some(error),
            },
    {
        let record = &row.record;
        let expected_key = encode_key(record.key());
        if !same_bytes(&expected_key, &row.key) {
            return Err(CatalogError::AttachmentIdentityMismatch);
        }
        let descriptor = *record.descriptor();
        let replica = match self.find_replica(slot_number_of(&descriptor)) {
            Some(replica) => *replica.descriptor(),
            None => {
                return Err(CatalogError::ReplicaNotFound);
            },
        };
        if !replica.has_same_storage_identity(&descriptor) || descriptor.capacity().bytes()
            > replica.capacity().bytes() {
            return Err(CatalogError::AttachmentIdentityMismatch);
        }
        match check_devices(record.ublk_devices(), replica) {
            Err(error) => {
                return Err(error);
            },
            Ok(()) => {},
        }
        if record.ublk_devices().len() != 0 && !super::attachments::has_capacity(
            record.ublk_devices(),
            descriptor.capacity(),
        ) {
            return Err(CatalogError::AttachmentIdentityMismatch);
        }
        if let Some(mount) = record.volume_mount() {
            if mount.filesystem_expanded_to_bytes() > descriptor.capacity().bytes() {
                return Err(CatalogError::AttachmentIdentityMismatch);
            }
        }
        Ok(())
    }

    /// Takes over checked replica rows.
    fn load_replicas(&mut self, rows: &Vec<SavedReplica>)
        requires
            old(self)@.replicas == Map::<Slot, ReplicaView>::empty(),
        ensures
            final(self)@ == (CatalogView {
                replicas: replicas_map(saved_replicas(rows@)),
                ..old(self)@
            }),
    {
        let ghost before = self@;
        let ghost all = saved_replicas(rows@);
        let mut i: usize = 0;
        proof { assert(all.take(0) =~= Seq::<SavedReplicaView>::empty()); }
        while i < rows.len()
            invariant
                i <= rows@.len(),
                all == saved_replicas(rows@),
                self@ == (CatalogView { replicas: replicas_map(all.take(i as int)), ..before }),
            decreases rows@.len() - i,
        {
            proof {
                assert(all.take(i + 1).drop_last() =~= all.take(i as int));
                assert(all.take(i + 1).last() == rows@[i as int]@);
            }
            let record = rows[i].record.clone();
            let key = slot_number_of(record.descriptor());
            self.put_replica(key, record);
            i += 1;
        }
        proof { assert(all.take(all.len() as int) =~= all); }
    }

    /// Takes over attachment rows as far as they are good.
    fn load_attachments(&mut self, rows: &Vec<SavedAttachment>) -> (out: Result<(), CatalogError>)
        requires
            old(self)@.attachments == Map::<Slot, AttachmentView>::empty(),
        ensures
            match out {
                Ok(()) => attachments_error(saved_attachments(rows@), old(self)@.replicas) is None
                    && final(self)@ == (CatalogView {
                    attachments: attachments_map(saved_attachments(rows@)),
                    ..old(self)@
                }),
                Err(error) => attachments_error(saved_attachments(rows@), old(self)@.replicas)
                    == Some(error),
            },
    {
        let ghost before = self@;
        let ghost all = saved_attachments(rows@);
        let mut i: usize = 0;
        proof { assert(all.take(0) =~= Seq::<SavedAttachmentView>::empty()); }
        while i < rows.len()
            invariant
                i <= rows@.len(),
                all == saved_attachments(rows@),
                before == old(self)@,
                attachments_error(all.take(i as int), before.replicas) is None,
                self@ == (CatalogView {
                    attachments: attachments_map(all.take(i as int)),
                    ..before
                }),
            decreases rows@.len() - i,
        {
            proof {
                assert(all.take(i + 1).drop_last() =~= all.take(i as int));
                assert(all.take(i + 1).last() == rows@[i as int]@);
                lemma_attachments_error_grows(all, before.replicas, i + 1);
            }
            match self.check_attachment(&rows[i]) {
                Err(error) => {
                    return Err(error);
                },
                Ok(()) => {},
            }
            let record = rows[i].record.clone();
            let key = slot_number_of(record.descriptor());
            self.put_attachment(key, record);
            i += 1;
        }
        proof { assert(all.take(all.len() as int) =~= all); }
        Ok(())
    }

    /// Takes over retirement rows as far as they are good.
    fn load_retirements(&mut self, rows: &Vec<SavedRetirement>) -> (out: Result<(), CatalogError>)
        requires
            old(self)@.retirements == Map::<u128, u64>::empty(),
        ensures
            match out {
                Ok(()) => are_named(saved_retirements(rows@)) && retirements_error(
                    saved_retirements(rows@),
                    old(self)@.replicas,
                ) is None && final(self)@ == (CatalogView {
                    retirements: retirements_map(saved_retirements(rows@)),
                    ..old(self)@
                }),
                Err(error) => retirements_error(saved_retirements(rows@), old(self)@.replicas)
                    == Some(error),
            },
    {
        let ghost before = self@;
        let ghost all = saved_retirements(rows@);
        let mut i: usize = 0;
        proof { assert(all.take(0) =~= Seq::<SavedRetirementView>::empty()); }
        while i < rows.len()
            invariant
                i <= rows@.len(),
                all == saved_retirements(rows@),
                before == old(self)@,
                retirements_error(all.take(i as int), before.replicas) is None,
                forall|k: int|
                    #![trigger all[k]]
                    0 <= k < i ==> slot(all[k].retired).0 != 0 && slot(all[k].retired).1 != 0,
                self@ == (CatalogView {
                    retirements: retirements_map(all.take(i as int)),
                    ..before
                }),
            decreases rows@.len() - i,
        {
            proof {
                assert(all.take(i + 1).drop_last() =~= all.take(i as int));
                assert(all.take(i + 1).last() == rows@[i as int]@);
                lemma_retirements_error_grows(all, before.replicas, i + 1);
            }
            let key = rows[i].retirement.key();
            let expected_key = encode_volume_key(key);
            if !same_bytes(&expected_key, &rows[i].key) {
                return Err(CatalogError::RetirementIdentityMismatch);
            }
            let slot = slot_number(key);
            if self.find_replica(slot).is_some() {
                return Err(CatalogError::ConflictingReplica);
            }
            self.put_retirement(slot.0, slot.1);
            i += 1;
        }
        proof { assert(all.take(all.len() as int) =~= all); }
        Ok(())
    }
}

impl ReplicaCatalog {
    /// Opens saved local tables, binds them to the checked pool, and verifies every saved
    /// space total before callers start storage services.
    ///
    /// The rows of each table come in the order of their keys, no key twice.
    pub fn open(
        pool: ReplicaPool,
        stored: Option<StoredPool>,
        replicas: Vec<SavedReplica>,
        attachments: Vec<SavedAttachment>,
        retirements: Vec<SavedRetirement>,
    ) -> (out: Result<Self, CatalogError>)
        requires
            has_distinct_keys(saved_replicas(replicas@)),
        ensures
            ({
                let saved = stored_view(stored);
                let failure = open_error(
                    pool@,
                    saved,
                    saved_replicas(replicas@),
                    saved_attachments(attachments@),
                    saved_retirements(retirements@),
                );
                match out {
                    Ok(catalog) => failure is None && catalog@.is_consistent() && catalog@.stored
                        == pool_row(pool@, saved) && catalog@ == opened(
                        pool@,
                        saved,
                        saved_replicas(replicas@),
                        saved_attachments(attachments@),
                        saved_retirements(retirements@),
                    ),
                    Err(error) => failure == Some(error),
                }
            }),
    {
        let ghost saved = stored_view(stored);
        let ghost pool_view = pool@;
        let row = match stored {
            Some(row) => {
                if !row.matches(&pool) {
                    return Err(CatalogError::PoolChanged);
                }
                row
            },
            None => StoredPool::new(&pool),
        };
        let totals = match checked_totals(&replicas) {
            Ok(totals) => totals,
            Err(error) => {
                return Err(error);
            },
        };
        if totals.0 != row.data_bytes || totals.1 != row.metadata_bytes {
            return Err(CatalogError::SpaceTotalsMismatch);
        }
        let required_bytes: u64 = match row.data_bytes.checked_add(row.metadata_bytes) {
            Some(required_bytes) => required_bytes,
            None => {
                return Err(CatalogError::SpaceOverflow);
            },
        };
        if required_bytes > row.managed_bytes {
            return Err(CatalogError::SpaceTotalsMismatch);
        }
        let mut rows = CatalogRows::none(pool);
        rows.stored = row;
        rows.load_replicas(&replicas);
        match rows.load_attachments(&attachments) {
            Err(error) => {
                return Err(error);
            },
            Ok(()) => {},
        }
        match rows.load_retirements(&retirements) {
            Err(error) => {
                return Err(error);
            },
            Ok(()) => {},
        }
        proof {
            law_opened_catalog_is_consistent(
                pool_view,
                saved,
                saved_replicas(replicas@),
                saved_attachments(attachments@),
                saved_retirements(retirements@),
            );
        }
        Ok(ReplicaCatalog { rows })
    }
}

} // verus!
