use vstd::prelude::*;
use crate::block::{BlockDevice, SECTOR_SIZE, sectors_of};

verus! {

/// What loading the disk `disk` of a device of type `D` leaves in memory
/// that held `before`: unless the device may refuse the read of the whole
/// disk, its sectors at the start, and the rest as it was.
pub open spec fn loaded<D: BlockDevice>(disk: Seq<u8>, before: Seq<u8>, after: Seq<u8>) -> bool {
    let n = disk.len() / 512 * 512;
    &&& after.len() == before.len()
    &&& !D::may_refuse(disk, 0, disk.len() / 512, false) ==> {
        &&& after.subrange(0, n as int) == sectors_of(disk, 0, disk.len() / 512)
        &&& after.subrange(n as int, before.len() as int) == before.subrange(
            n as int,
            before.len() as int,
        )
    }
}

/// Copies the whole disk of `block_device` to the start of `memory` in one
/// request and returns the size of the image in bytes. The outcome of the
/// request is not looked at.
pub fn load_virtio_blk<D: BlockDevice>(block_device: &mut D, memory: &mut [u8]) -> (r: usize)
    requires
        old(memory)@.len() >= old(block_device).disk().len() / 512 * 512,
    ensures
        r == old(block_device).disk().len() / 512 * 512,
        final(block_device).disk() == old(block_device).disk(),
        loaded::<D>(old(block_device).disk(), old(memory)@, final(memory)@),
{
    let capacity = block_device.get_capacity();
    let mem_len = memory.len();
    assert(capacity * 512 <= mem_len);
    let _ = block_device.read_write_disk(memory, 0, capacity, false);
    capacity * SECTOR_SIZE
}

/// Loads the boot image from `block_device` into `memory`; returns its size
/// in bytes.
pub fn load_bootloader<D: BlockDevice>(block_device: &mut D, memory: &mut [u8]) -> (r: usize)
    requires
        old(memory)@.len() >= old(block_device).disk().len() / 512 * 512,
    ensures
        r == old(block_device).disk().len() / 512 * 512,
        final(block_device).disk() == old(block_device).disk(),
        loaded::<D>(old(block_device).disk(), old(memory)@, final(memory)@),
{
    load_virtio_blk(block_device, memory)
}

/// Loads the device tree blob from `block_device` into `memory`, as
/// `load_bootloader` does.
pub fn load_dtb<D: BlockDevice>(block_device: &mut D, memory: &mut [u8])
    requires
        old(memory)@.len() >= old(block_device).disk().len() / 512 * 512,
    ensures
        final(block_device).disk() == old(block_device).disk(),
        loaded::<D>(old(block_device).disk(), old(memory)@, final(memory)@),
{
    load_virtio_blk(block_device, memory);
}

} // verus!
