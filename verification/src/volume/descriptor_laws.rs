//! What descriptors, blocks and fences stand for, in bytes and in numbers.

use vstd::prelude::*;

use super::block_sizes::{
    validate_size, BlockSizeError, BlockSizeSetting, DataBlockSize, LogicalSectorSize,
    MinimumIoSize, PhysicalBlockSize, VolumeBlockSizes,
};
use super::copies::CopySet;
use super::descriptor::{
    ByteOffset, DescriptorError, LogicalBlockNumber, VolumeCapacity, VolumeDescriptor,
};
use super::identity::{FenceEpoch, IdentityError, VolumeGeneration, VolumeId, VolumeNodeId};

verus! {

/// A descriptor is made exactly for a positive number of blocks of 4096 bytes, and it is
/// made of what it was given.
pub proof fn law_descriptor_call(
    volume_id: VolumeId,
    generation: VolumeGeneration,
    capacity_bytes: u64,
    block_sizes: VolumeBlockSizes,
    out: Result<VolumeDescriptor, DescriptorError>,
)
    requires
        call_ensures(
            VolumeDescriptor::new,
            (volume_id, generation, capacity_bytes, block_sizes),
            out,
        ),
    ensures
        out is Ok <==> capacity_bytes > 0 && capacity_bytes % 4096 == 0,
        out matches Ok(descriptor) ==> descriptor.id() == volume_id && descriptor.generation_of()
            == generation && descriptor.capacity_of().size() == capacity_bytes
            && descriptor.sizes() == block_sizes,
        capacity_bytes == 0 ==> out == Err::<VolumeDescriptor, DescriptorError>(
            DescriptorError::ZeroCapacity,
        ),
{
}

/// Another capacity changes nothing else of a descriptor.
pub proof fn law_resize_call(
    descriptor: VolumeDescriptor,
    capacity: VolumeCapacity,
    out: Result<VolumeDescriptor, DescriptorError>,
)
    requires
        call_ensures(VolumeDescriptor::with_capacity, (&descriptor, capacity), out),
    ensures
        out is Ok <==> capacity.size() > 0 && capacity.size() % 4096 == 0,
        out matches Ok(resized) ==> resized.capacity_of() == capacity && resized.id()
            == descriptor.id() && resized.generation_of() == descriptor.generation_of()
            && resized.sizes() == descriptor.sizes(),
{
    descriptor.lemma_resized(capacity);
}

/// Two descriptors are of the same storage whatever their capacities.
pub proof fn law_same_storage_call(a: VolumeDescriptor, b: VolumeDescriptor, out: bool)
    requires
        call_ensures(VolumeDescriptor::has_same_storage_identity, (&a, &b), out),
    ensures
        out <==> a.id() == b.id() && a.generation_of() == b.generation_of() && a.sizes()
            == b.sizes(),
{
}

/// A block lies at 4096 times its number, and exactly the blocks of the volume have a place:
/// one for each 4096 bytes of the capacity.
pub proof fn law_block_calls(
    descriptor: VolumeDescriptor,
    block: LogicalBlockNumber,
    count: u64,
    out: Result<ByteOffset, DescriptorError>,
)
    requires
        call_ensures(VolumeDescriptor::logical_block_count, (&descriptor,), count),
        call_ensures(VolumeDescriptor::byte_offset, (&descriptor, block), out),
    ensures
        4096 * count == descriptor.capacity_of().size(),
        out is Ok <==> block.value() < count,
        out matches Ok(offset) ==> offset.value() == 4096 * block.value() && offset.value() + 4096
            <= descriptor.capacity_of().size(),
{
}

/// Two neighbouring blocks lie next to each other.
pub proof fn law_neighbouring_blocks(
    descriptor: VolumeDescriptor,
    a: LogicalBlockNumber,
    b: LogicalBlockNumber,
    at_a: ByteOffset,
    at_b: ByteOffset,
)
    requires
        b.value() == a.value() + 1,
        call_ensures(VolumeDescriptor::byte_offset, (&descriptor, a), Ok(at_a)),
        call_ensures(VolumeDescriptor::byte_offset, (&descriptor, b), Ok(at_b)),
    ensures
        at_b.value() == at_a.value() + 4096,
{
}

/// Every block size is 4096 bytes, and only that is accepted.
pub proof fn law_block_size_calls(
    setting: BlockSizeSetting,
    bytes: u32,
    out: Result<u32, BlockSizeError>,
    logical: u32,
    physical: u32,
    minimum: u32,
    data: u32,
    all: Result<VolumeBlockSizes, BlockSizeError>,
)
    requires
        call_ensures(validate_size, (setting, bytes), out),
        call_ensures(VolumeBlockSizes::new, (logical, physical, minimum, data), all),
    ensures
        out is Ok <==> bytes == 4096,
        out matches Ok(size) ==> size == 4096,
        out matches Err(BlockSizeError::Unsupported { setting: named, actual_bytes, required_bytes })
            ==> named == setting && actual_bytes == bytes && required_bytes == 4096,
        all is Ok <==> logical == 4096 && physical == 4096 && minimum == 4096 && data == 4096,
{
}

/// Zero is no capacity and no fence; any other number is the one that it was made of.
pub proof fn law_number_calls(
    bytes: u64,
    capacity: Result<VolumeCapacity, DescriptorError>,
    value: u64,
    fence: Result<FenceEpoch, IdentityError>,
)
    requires
        call_ensures(VolumeCapacity::new, (bytes,), capacity),
        call_ensures(FenceEpoch::new, (value,), fence),
    ensures
        capacity is Ok <==> bytes > 0,
        capacity matches Ok(made) ==> made.size() == bytes,
        fence is Ok <==> value > 0,
        fence matches Ok(made) ==> made.value() == value,
{
}

/// The first fence is one, each next one is larger by one, and only the largest number has
/// none after it.
pub proof fn law_fence_calls(fence: FenceEpoch, first: FenceEpoch, next: Option<FenceEpoch>)
    requires
        call_ensures(FenceEpoch::initial, (), first),
        call_ensures(FenceEpoch::next, (fence,), next),
    ensures
        first.value() == 1,
        next is None <==> fence.value() == 0xffff_ffff_ffff_ffff,
        next matches Some(after) ==> after.value() == fence.value() + 1,
{
}

/// Copies are listed once each, by rising number, and the set changes by the node alone that
/// is put in or taken out.
pub proof fn law_copy_calls(
    grown: &mut CopySet,
    lessened: &mut CopySet,
    node: VolumeNodeId,
    a: (),
    b: (),
    other: VolumeNodeId,
    shown: CopySet,
    listed: Vec<VolumeNodeId>,
    i: int,
    j: int,
)
    requires
        call_ensures(CopySet::insert, (grown, node), a),
        call_ensures(CopySet::remove, (lessened, &node), b),
        call_ensures(CopySet::nodes, (&shown,), &listed),
        0 <= i < j < listed@.len(),
    ensures
        final(grown)@.contains(node),
        other != node ==> final(grown)@.contains(other) == old(grown)@.contains(other),
        !final(lessened)@.contains(node),
        other != node ==> final(lessened)@.contains(other) == old(lessened)@.contains(other),
        listed@[i].value() < listed@[j].value(),
        shown@.contains(other) <==> listed@.contains(other),
{
    assert(listed@.to_set().contains(other) == listed@.contains(other));
}

/// Sets of copies are compared by what they hold.
pub proof fn law_copy_comparisons(
    one: CopySet,
    two: CopySet,
    node: VolumeNodeId,
    holds: bool,
    below: bool,
    alike: bool,
    count: usize,
)
    requires
        call_ensures(CopySet::contains, (&one, &node), holds),
        call_ensures(CopySet::is_subset, (&one, &two), below),
        call_ensures(CopySet::same, (&one, &two), alike),
        call_ensures(CopySet::len, (&one,), count),
    ensures
        holds <==> one@.contains(node),
        below && holds ==> two@.contains(node),
        holds && !two@.contains(node) ==> !below,
        alike ==> below && (holds <==> two@.contains(node)),
        count == 0 <==> forall|copy: VolumeNodeId| !#[trigger] one@.contains(copy),
        count == one@.len(),
{
    if count == 0 {
        one@.lemma_len0_is_empty();
    } else if forall|copy: VolumeNodeId| !#[trigger] one@.contains(copy) {
        assert(one@ =~= Set::empty());
    }
}

/// Sectors, blocks, smallest transfers and data blocks are all of 4096 bytes.
pub proof fn law_size_calls(
    sizes: VolumeBlockSizes,
    sector: u32,
    block: u32,
    transfer: u32,
    data: u32,
)
    requires
        call_ensures(LogicalSectorSize::bytes, (sizes.logical_sector_size(),), sector),
        call_ensures(PhysicalBlockSize::bytes, (sizes.physical_block_size(),), block),
        call_ensures(MinimumIoSize::bytes, (sizes.minimum_io_size(),), transfer),
        call_ensures(DataBlockSize::bytes, (sizes.data_block_size(),), data),
    ensures
        sector == 4096,
        block == 4096,
        transfer == 4096,
        data == 4096,
{
}

} // verus!
