use vstd::prelude::*;

verus! {

pub const SECTOR_SIZE: usize = 512;

#[derive(Clone, Copy, Debug, PartialEq, Eq)]
pub enum BlockDeviceError {
    IOError,
    UnsupportedDevice,
    QueueError,
}

impl BlockDeviceError {
    pub fn as_str(&self) -> (r: &'static str)
        ensures
            *self is IOError ==> r@ == "Input/Output ERROR"@,
            *self is UnsupportedDevice ==> r@ == "Unsupported by device"@,
            *self is QueueError ==> r@ == "Queue Error"@,
    {
        match self {
            BlockDeviceError::IOError => "Input/Output ERROR",
            BlockDeviceError::UnsupportedDevice => "Unsupported by device",
            BlockDeviceError::QueueError => "Queue Error",
        }
    }
}

/// The bytes of sectors `sector .. sector + count` of `disk`.
pub open spec fn sectors_of(disk: Seq<u8>, sector: nat, count: nat) -> Seq<u8> {
    disk.subrange((sector * 512) as int, ((sector + count) * 512) as int)
}

/// `disk` with sectors from `sector` on replaced by `data`.
pub open spec fn disk_written(disk: Seq<u8>, sector: nat, data: Seq<u8>) -> Seq<u8> {
    disk.subrange(0, (sector * 512) as int) + data + disk.subrange(
        (sector * 512 + data.len()) as int,
        disk.len() as int,
    )
}

/// A disk that transfers whole sectors.
pub trait BlockDevice {
    /// The bytes stored on the disk.
    spec fn disk(&self) -> Seq<u8>;

    /// The device may refuse the transfer of `count` sectors from `sector`
    /// on with the disk `disk`; each device says when.
    spec fn may_refuse(disk: Seq<u8>, sector: nat, count: nat, is_write: bool) -> bool;

    /// Reads (`is_write == false`) or writes `count` sectors starting at
    /// `sector` into or from the first `count * SECTOR_SIZE` bytes of `buf`.
    /// A successful read fills them with the disk's bytes; a successful write
    /// stores them on the disk. Only a transfer the device may refuse fails.
    fn read_write_disk(&mut self, buf: &mut [u8], sector: u64, count: usize, is_write: bool) -> (r:
        Result<(), BlockDeviceError>)
        requires
            old(buf)@.len() >= count * SECTOR_SIZE,
        ensures
            final(buf)@.len() == old(buf)@.len(),
            r is Err ==> Self::may_refuse(old(self).disk(), sector as nat, count as nat, is_write),
            !is_write ==> final(self).disk() == old(self).disk(),
            r is Ok && !is_write ==> (sector + count) * 512 <= old(self).disk().len()
                && final(buf)@.subrange(0, count * 512) == sectors_of(
                old(self).disk(),
                sector as nat,
                count as nat,
            ) && final(buf)@.subrange(count * 512, old(buf)@.len() as int) == old(buf)@.subrange(
                count * 512,
                old(buf)@.len() as int,
            ) && final(self).disk() == old(self).disk(),
            r is Ok && is_write ==> (sector + count) * 512 <= old(self).disk().len()
                && final(self).disk() == disk_written(
                old(self).disk(),
                sector as nat,
                old(buf)@.subrange(0, count * 512),
            ) && final(buf)@ == old(buf)@,
    ;

    /// Number of whole sectors on the disk.
    fn get_capacity(&self) -> (r: usize)
        ensures
            r == self.disk().len() / 512,
    ;
}

/// A disk held in memory.
pub struct MemBlk {
    pub data: Vec<u8>,
}

impl MemBlk {
    pub fn new(data: &[u8]) -> (r: Self)
        ensures
            r.data@ == data@,
    {
        let mut v: Vec<u8> = Vec::new();
        let mut i: usize = 0;
        while i < data.len()
            invariant
                i <= data@.len(),
                v@ == data@.subrange(0, i as int),
            decreases data@.len() - i,
        {
            v.push(data[i]);
            i = i + 1;
            assert(v@ =~= data@.subrange(0, i as int));
        }
        assert(v@ =~= data@);
        MemBlk { data: v }
    }
}

impl BlockDevice for MemBlk {
    open spec fn disk(&self) -> Seq<u8> {
        self.data@
    }

    /// Exactly the transfers that reach past the end of the data.
    open spec fn may_refuse(disk: Seq<u8>, sector: nat, count: nat, is_write: bool) -> bool {
        (sector + count) * 512 > disk.len()
    }

    /// Sectors outside the data give `IOError`, and nothing changes.
    fn read_write_disk(&mut self, buf: &mut [u8], sector: u64, count: usize, is_write: bool) -> (r:
        Result<(), BlockDeviceError>)
        ensures
            r is Ok <==> (sector + count) * 512 <= old(self).data@.len(),
            r is Err ==> r == Err::<(), BlockDeviceError>(BlockDeviceError::IOError),
            r is Err ==> final(self).data@ == old(self).data@,
            r is Err ==> final(buf)@ == old(buf)@,
    {
        let len = self.data.len();
        if sector > (len / SECTOR_SIZE) as u64 || count > len / SECTOR_SIZE {
            return Err(BlockDeviceError::IOError);
        }
        let start_offset = sector as usize * SECTOR_SIZE;
        let total_bytes = count * SECTOR_SIZE;
        if total_bytes > len - start_offset {
            return Err(BlockDeviceError::IOError);
        }
        let end_offset = start_offset + total_bytes;
        let ghost old_buf = buf@;
        let ghost old_data = self.data@;
        let mut i: usize = 0;
        if is_write {
            while i < total_bytes
                invariant
                    i <= total_bytes,
                    total_bytes == count * 512,
                    start_offset == sector * 512,
                    end_offset == start_offset + total_bytes,
                    end_offset <= old_data.len(),
                    old_buf.len() >= total_bytes,
                    buf@ == old_buf,
                    self.data@.len() == old_data.len(),
                    forall|k: int|
                        0 <= k < old_data.len() ==> self.data@[k] == if start_offset <= k
                            < start_offset + i {
                            old_buf[k - start_offset]
                        } else {
                            old_data[k]
                        },
                decreases total_bytes - i,
            {
                self.data[start_offset + i] = buf[i];
                i = i + 1;
            }
            assert(self.data@ =~= disk_written(
                old_data,
                sector as nat,
                old_buf.subrange(0, count * 512),
            ));
        } else {
            while i < total_bytes
                invariant
                    i <= total_bytes,
                    total_bytes == count * 512,
                    start_offset == sector * 512,
                    end_offset == start_offset + total_bytes,
                    end_offset <= old_data.len(),
                    old_buf.len() >= total_bytes,
                    self.data@ == old_data,
                    buf@.len() == old_buf.len(),
                    forall|k: int|
                        0 <= k < old_buf.len() ==> buf@[k] == if k < i {
                            old_data[start_offset + k]
                        } else {
                            old_buf[k]
                        },
                decreases total_bytes - i,
            {
                buf[i] = self.data[start_offset + i];
                i = i + 1;
            }
            assert(buf@.subrange(0, count * 512) =~= sectors_of(
                old_data,
                sector as nat,
                count as nat,
            ));
            assert(buf@.subrange(count * 512, old_buf.len() as int) =~= old_buf.subrange(
                count * 512,
                old_buf.len() as int,
            ));
        }
        Ok(())
    }

    fn get_capacity(&self) -> (r: usize) {
        self.data.len() / SECTOR_SIZE
    }
}

} // verus!
