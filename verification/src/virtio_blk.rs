use vstd::prelude::*;
use crate::block::{BlockDevice, BlockDeviceError, SECTOR_SIZE};
use crate::fat32::{le32, read_le32};
use crate::paging::{resolve_address_stage2, translate_stage2};
use crate::virtio::{
    QueueNotify, RegisterOp, VIRTIO_MMIO_STATUS, VIRTIO_MMIO_STATUS_ACKNOWLEDGE,
    VIRTIO_MMIO_STATUS_DRIVER, VIRTIO_MMIO_STATUS_FEATURES_OK, VIRTIO_MMIO_STATUS_DRIVER_OK,
    VirtQueue, VirtioMmio, VirtQueueError, VirtioMmioRegister, VRingDesc, VIRTQ_DESC_F_NEXT,
    VIRTQ_DESC_F_WRITE, VIRTIO_DEFAULT_INDEX, VIRTIO_VERSION, VIRTIO_MMIO_QUEUE_NOTIFY,
};

verus! {

pub const VIRTIO_BLK_T_IN: usize = 0;
pub const VIRTIO_BLK_T_OUT: usize = 1;
pub const VIRTIO_BLK_T_FLUSH: usize = 4;
pub const VIRTIO_BLK_T_DISCARD: usize = 11;
pub const VIRTIO_BLK_T_WRITE_ZEROES: usize = 13;

pub const VIRTIO_BLK_S_OK: usize = 0;
pub const VIRTIO_BLK_S_IOERR: usize = 1;
pub const VIRTIO_BLK_S_UNSUPP: usize = 2;

pub const VIRTIO_BLK_F_SIZE_MAX: u64 = 0x2;
pub const VIRTIO_BLK_F_SEG_MAX: u64 = 0x4;
pub const VIRTIO_BLK_F_GEOMETRY: u64 = 0x10;
pub const VIRTIO_BLK_F_RO: u64 = 0x20;
pub const VIRTIO_BLK_F_BLK_SIZE: u64 = 0x40;
pub const VIRTIO_BLK_F_FLUSH: u64 = 0x200;
pub const VIRTIO_BLK_F_TOPOLOGY: u64 = 0x400;
pub const VIRTIO_BLK_F_MQ: u64 = 0x1000;
pub const VIRTIO_BLK_F_DISCARD: u64 = 0x2000;
pub const VIRTIO_BLK_F_WRITE_ZEROES: u64 = 0x4000;

/// Device id of a virtio block device.
pub const VIRTIO_BLOCK_DEVICE_ID: u32 = 2;

/// Byte offset of the status byte in a request header: after the type,
/// the reserved word, the sector and the data pointer.
pub const REQ_STATUS_OFFSET: u64 = 24;

/// A virtio block request header as the device reads it; `data` is the
/// guest address of the data buffer.
pub struct VirtioBlkReq {
    pub req_type: u32,
    pub reserved: u32,
    pub sector: u64,
    pub data: u64,
    pub status: u8,
}

impl VirtioBlkReq {
    /// A request of the kind that `is_write` selects, status not yet set by
    /// the device (0xff).
    pub fn new(sector: u64, is_write: bool) -> (r: Self)
        ensures
            r.req_type == (if is_write {
                VIRTIO_BLK_T_OUT
            } else {
                VIRTIO_BLK_T_IN
            }),
            r.reserved == 0,
            r.sector == sector,
            r.data == 0,
            r.status == 0xff,
    {
        let req_type = if is_write {
            VIRTIO_BLK_T_OUT
        } else {
            VIRTIO_BLK_T_IN
        };
        VirtioBlkReq { req_type: req_type as u32, reserved: 0, sector, data: 0, status: 0xff }
    }
}

/// What the device's status byte says of a finished request.
pub open spec fn status_result(status: u8) -> Result<(), BlockDeviceError> {
    if status == VIRTIO_BLK_S_OK {
        Ok(())
    } else if status == VIRTIO_BLK_S_IOERR {
        Err(BlockDeviceError::IOError)
    } else {
        Err(BlockDeviceError::UnsupportedDevice)
    }
}

/// The three descriptors of a request: header at `req_address`, `count`
/// sectors of data at `buf_address` (written by the device for a read),
/// then the status byte.
pub open spec fn request_descs(
    desc: Seq<VRingDesc>,
    req_address: u64,
    buf_address: u64,
    count: usize,
    is_write: bool,
) -> bool {
    &&& desc[0] == VRingDesc { addr: req_address, len: 16, flags: VIRTQ_DESC_F_NEXT, next: 1 }
    &&& desc[1] == VRingDesc {
        addr: buf_address,
        len: (512 * count) as u32,
        flags: if is_write {
            VIRTQ_DESC_F_NEXT
        } else {
            VIRTQ_DESC_F_NEXT | VIRTQ_DESC_F_WRITE
        },
        next: 2,
    }
    &&& desc[2] == VRingDesc {
        addr: (req_address + REQ_STATUS_OFFSET) as u64,
        len: 1,
        flags: VIRTQ_DESC_F_WRITE,
        next: 0,
    }
}

/// The status handshake of the block device, as register accesses: reset,
/// acknowledge, then the status read back with `DRIVER`, `FEATURES_OK` and
/// `DRIVER_OK` set in turn. No feature bits are negotiated.
pub fn init_virtio_blk() -> (r: Vec<RegisterOp>)
    ensures
        r@ == seq![
            RegisterOp::Write(VIRTIO_MMIO_STATUS, 0),
            RegisterOp::Write(VIRTIO_MMIO_STATUS, VIRTIO_MMIO_STATUS_ACKNOWLEDGE),
            RegisterOp::Read(VIRTIO_MMIO_STATUS),
            RegisterOp::WriteLastReadWith(VIRTIO_MMIO_STATUS, VIRTIO_MMIO_STATUS_DRIVER),
            RegisterOp::Read(VIRTIO_MMIO_STATUS),
            RegisterOp::WriteLastReadWith(VIRTIO_MMIO_STATUS, VIRTIO_MMIO_STATUS_FEATURES_OK),
            RegisterOp::Read(VIRTIO_MMIO_STATUS),
            RegisterOp::WriteLastReadWith(VIRTIO_MMIO_STATUS, VIRTIO_MMIO_STATUS_DRIVER_OK),
        ],
{
    let mut v: Vec<RegisterOp> = Vec::new();
    v.push(RegisterOp::Write(VIRTIO_MMIO_STATUS, 0));
    v.push(RegisterOp::Write(VIRTIO_MMIO_STATUS, VIRTIO_MMIO_STATUS_ACKNOWLEDGE));
    v.push(RegisterOp::Read(VIRTIO_MMIO_STATUS));
    v.push(RegisterOp::WriteLastReadWith(VIRTIO_MMIO_STATUS, VIRTIO_MMIO_STATUS_DRIVER));
    v.push(RegisterOp::Read(VIRTIO_MMIO_STATUS));
    v.push(RegisterOp::WriteLastReadWith(VIRTIO_MMIO_STATUS, VIRTIO_MMIO_STATUS_FEATURES_OK));
    v.push(RegisterOp::Read(VIRTIO_MMIO_STATUS));
    v.push(RegisterOp::WriteLastReadWith(VIRTIO_MMIO_STATUS, VIRTIO_MMIO_STATUS_DRIVER_OK));
    v
}

/// A virtio block device driven through its MMIO window and one queue.
pub struct VirtioBlk {
    pub mmio: VirtioMmio,
    pub queue: Box<VirtQueue>,
}

impl VirtioBlk {
    /// Sets up queue 0 of the device: `version` and `queue_max` are what
    /// its version and queue-size registers read.
    pub fn new(mmio_device: VirtioMmio, version: u32, queue_max: u32) -> (r: Result<
        Self,
        VirtQueueError,
    >)
        ensures
            r matches Ok(blk) ==> blk.mmio == mmio_device && blk.queue.is_zeroed(),
            version != VIRTIO_VERSION ==> r matches Err(VirtQueueError::UnsupportedVersion),
            version == VIRTIO_VERSION && queue_max == 0 ==> r matches Err(
                VirtQueueError::InvalidQueue,
            ),
            version == VIRTIO_VERSION && queue_max != 0 ==> r is Ok,
    {
        match mmio_device.setup_virt_queue(version, queue_max) {
            Ok(queue) => Ok(VirtioBlk { mmio: mmio_device, queue }),
            Err(e) => Err(e),
        }
    }

    /// Lays out a request in the descriptor table, publishes it in the
    /// available ring and counts it as outstanding. The returned pair is the
    /// notification to write: register offset and queue index.
    pub fn prepare_request(
        &mut self,
        req_address: u64,
        buf_address: u64,
        count: usize,
        is_write: bool,
    ) -> (r: (usize, u32))
        requires
            req_address + REQ_STATUS_OFFSET <= u64::MAX,
            512 * count <= usize::MAX,
            old(self).queue.vring.avail.idx < u16::MAX,
        ensures
            request_descs(final(self).queue.vring.desc@, req_address, buf_address, count, is_write),
            forall|i: int|
                3 <= i < 64 ==> final(self).queue.vring.desc@[i] == old(self).queue.vring.desc@[i],
            final(self).queue.vring.avail.idx == old(self).queue.vring.avail.idx + 1,
            final(self).queue.vring.avail.ring@ == old(self).queue.vring.avail.ring@.update(
                (old(self).queue.vring.avail.idx % 64) as int,
                0,
            ),
            final(self).queue.last_used_index == (old(self).queue.last_used_index + 1) % 0x1_0000,
            final(self).queue.vring.used == old(self).queue.vring.used,
            final(self).mmio == old(self).mmio,
            r == (VIRTIO_MMIO_QUEUE_NOTIFY, VIRTIO_DEFAULT_INDEX),
    {
        self.queue.vring.desc[0] = VRingDesc {
            addr: req_address,
            len: 16,
            flags: VIRTQ_DESC_F_NEXT,
            next: 1,
        };
        let mut flags = VIRTQ_DESC_F_NEXT;
        if !is_write {
            flags = flags | VIRTQ_DESC_F_WRITE;
        }
        self.queue.vring.desc[1] = VRingDesc {
            addr: buf_address,
            len: (SECTOR_SIZE * count) as u32,
            flags,
            next: 2,
        };
        self.queue.vring.desc[2] = VRingDesc {
            addr: req_address + REQ_STATUS_OFFSET,
            len: 1,
            flags: VIRTQ_DESC_F_WRITE,
            next: 0,
        };
        self.queue.connect_to_avail_ring(0);
        self.queue.last_used_index = self.queue.last_used_index.wrapping_add(1);
        self.mmio.notify_to_device(VIRTIO_DEFAULT_INDEX)
    }

    /// Whether the device has used every published request.
    pub fn is_request_done(&self, used_idx: u16) -> (r: bool)
        ensures
            r == (self.queue.last_used_index == used_idx),
    {
        self.queue.last_used_index == used_idx
    }

    /// The result of a finished request from its status byte. Other status
    /// values are unreachable for a conforming device.
    pub fn request_status(status: u8) -> (r: Result<(), BlockDeviceError>)
        requires
            status <= 2,
        ensures
            r == status_result(status),
    {
        if status == VIRTIO_BLK_S_OK as u8 {
            Ok(())
        } else if status == VIRTIO_BLK_S_IOERR as u8 {
            Err(BlockDeviceError::IOError)
        } else {
            Err(BlockDeviceError::UnsupportedDevice)
        }
    }
}

/// Configuration space of a block device: capacity in sectors, then the
/// largest segment size and segment count.
pub struct VirtioBlkConfig {
    pub capacity: u64,
    pub size_max: u32,
    pub seg_max: u32,
}

/// The 16 bytes of the configuration space, little-endian, fields in order.
pub open spec fn config_bytes(c: VirtioBlkConfig) -> Seq<u8> {
    Seq::new(
        16,
        |i: int|
            if i < 8 {
                ((c.capacity >> (8 * i) as u64) & 0xff) as u8
            } else if i < 12 {
                ((c.size_max >> (8 * (i - 8)) as u32) & 0xff) as u8
            } else {
                ((c.seg_max >> (8 * (i - 12)) as u32) & 0xff) as u8
            },
    )
}

impl VirtioBlkConfig {
    pub fn new() -> (r: Self)
        ensures
            r.capacity == 0 && r.size_max == 0 && r.seg_max == 0,
    {
        VirtioBlkConfig { capacity: 0, size_max: 0, seg_max: 0 }
    }

    /// The configuration bytes as laid out in memory.
    pub fn as_bytes(&self) -> (r: [u8; 16])
        ensures
            r@ == config_bytes(*self),
    {
        let mut r = [0u8; 16];
        let mut i: usize = 0;
        while i < 16
            invariant
                i <= 16,
                forall|k: int| 0 <= k < i ==> r@[k] == config_bytes(*self)[k],
            decreases 16 - i,
        {
            if i < 8 {
                r[i] = ((self.capacity >> (8 * i) as u64) & 0xff) as u8;
            } else if i < 12 {
                r[i] = ((self.size_max >> (8 * (i - 8)) as u32) & 0xff) as u8;
            } else {
                r[i] = ((self.seg_max >> (8 * (i - 12)) as u32) & 0xff) as u8;
            }
            i = i + 1;
        }
        assert(r@ =~= config_bytes(*self));
        r
    }

    /// The 32-bit guest read at byte `offset` of the configuration space:
    /// the little-endian word there, 0 past its end and at its last byte.
    /// Offsets 13 and 14 would read past the space, which `requires` rules
    /// out.
    pub fn read_as_bytes(&self, offset: usize) -> (r: u32)
        requires
            offset != 13 && offset != 14,
        ensures
            r == (if offset + 1 < 16 {
                le32(config_bytes(*self), offset as int)
            } else {
                0
            }),
    {
        let struct_size: usize = 16;
        if offset >= struct_size {
            return 0;
        }
        if offset + 1 < struct_size {
            let bytes = self.as_bytes();
            read_le32(bytes.as_slice(), offset)
        } else {
            0
        }
    }
}

/// A block device presented to a guest as a virtio block device.
pub struct VirtioBlkDevice<D: BlockDevice> {
    pub block_device: D,
    pub mmio_state: VirtioMmioRegister,
    pub config: VirtioBlkConfig,
}

impl<D: BlockDevice> VirtioBlkDevice<D> {
    /// Presents `block_device`, whose capacity in sectors goes to the
    /// configuration space.
    pub fn new(block_device: D) -> (r: Self)
        ensures
            r.block_device == block_device,
            r.config.capacity == block_device.disk().len() / 512,
            r.config.size_max == 0 && r.config.seg_max == 0,
            r.mmio_state.is_reset(),
    {
        let capacity = block_device.get_capacity();
        let mut config = VirtioBlkConfig::new();
        config.capacity = capacity as u64;
        VirtioBlkDevice { block_device, mmio_state: VirtioMmioRegister::new(), config }
    }

    pub fn device_id(&self) -> (r: u32)
        ensures
            r == VIRTIO_BLOCK_DEVICE_ID,
    {
        VIRTIO_BLOCK_DEVICE_ID
    }

    pub fn read_config(&self, offset: usize) -> (r: u32)
        requires
            offset != 13 && offset != 14,
        ensures
            r == (if offset + 1 < 16 {
                le32(config_bytes(self.config), offset as int)
            } else {
                0
            }),
    {
        self.config.read_as_bytes(offset)
    }

    /// The number of sectors a notified request asks to read: only a data
    /// descriptor that the device writes is served, by whole sectors.
    pub fn requested_sectors(desc_ring: &[VRingDesc; 64]) -> (r: Option<usize>)
        ensures
            desc_ring@[1].flags & VIRTQ_DESC_F_WRITE != 0 ==> r == Some((desc_ring@[1].len / 512) as usize),
            desc_ring@[1].flags & VIRTQ_DESC_F_WRITE == 0 ==> r is None,
    {
        let data = desc_ring[1];
        if data.flags & VIRTQ_DESC_F_WRITE != 0 {
            Some(data.len as usize / SECTOR_SIZE)
        } else {
            None
        }
    }

    /// Serves a guest read of `count` sectors from `sector` into `buf`.
    pub fn serve_read(&mut self, buf: &mut [u8], sector: u64, count: usize) -> (r: Result<
        (),
        BlockDeviceError,
    >)
        requires
            old(buf)@.len() >= count * SECTOR_SIZE,
        ensures
            final(buf)@.len() == old(buf)@.len(),
            final(self).block_device.disk() == old(self).block_device.disk(),
            final(self).mmio_state == old(self).mmio_state,
            final(self).config == old(self).config,
            r is Ok ==> (sector + count) * 512 <= old(self).block_device.disk().len()
                && final(buf)@.subrange(0, count * 512) == crate::block::sectors_of(
                old(self).block_device.disk(),
                sector as nat,
                count as nat,
            ),
            r is Err ==> D::may_refuse(old(self).block_device.disk(), sector as nat, count as nat, false),
    {
        self.block_device.read_write_disk(buf, sector, count, false)
    }

    /// Serves the request that a queue notification hands over: `request`
    /// is what the first descriptor points to and `data` the buffer of the
    /// second. When the device may write that buffer, the sectors it covers
    /// are read into it from `request.sector` on; the status to store for
    /// the driver is OK either way.
    pub fn notify(&mut self, desc_ring: &[VRingDesc; 64], request: &VirtioBlkReq, data: &mut [u8]) -> (status: u8)
        requires
            desc_ring@[1].flags & VIRTQ_DESC_F_WRITE != 0 ==> old(data)@.len() >= (desc_ring@[1].len
                / 512) * 512,
        ensures
            status == VIRTIO_BLK_S_OK,
            final(data)@.len() == old(data)@.len(),
            final(self).block_device.disk() == old(self).block_device.disk(),
            final(self).mmio_state == old(self).mmio_state,
            final(self).config == old(self).config,
            desc_ring@[1].flags & VIRTQ_DESC_F_WRITE == 0 ==> final(data)@ == old(data)@,
            desc_ring@[1].flags & VIRTQ_DESC_F_WRITE != 0 && !D::may_refuse(
                old(self).block_device.disk(),
                request.sector as nat,
                (desc_ring@[1].len / 512) as nat,
                false,
            ) ==> final(data)@.subrange(0, (desc_ring@[1].len / 512) * 512) == crate::block::sectors_of(
                old(self).block_device.disk(),
                request.sector as nat,
                (desc_ring@[1].len / 512) as nat,
            ),
    {
        match Self::requested_sectors(desc_ring) {
            Some(count) => {
                let _ = self.serve_read(data, request.sector, count);
            },
            None => {},
        }
        VIRTIO_BLK_S_OK as u8
    }
}


/// A device behind an emulated virtio MMIO register window.
pub trait VirtioDevice {
    /// The register window state the driver has programmed.
    spec fn state(&self) -> VirtioMmioRegister;

    /// The device id it reports.
    spec fn id(&self) -> u32;

    fn device_id(&self) -> (r: u32)
        ensures
            r == self.id(),
    ;

    fn mmio_state(&self) -> (r: &VirtioMmioRegister)
        ensures
            *r == self.state(),
    ;

    fn mmio_state_mut(&mut self) -> (r: &mut VirtioMmioRegister)
        ensures
            *r == old(self).state(),
            final(self).state() == *final(r),
            final(self).id() == old(self).id(),
    ;
}

impl<D: BlockDevice> VirtioDevice for VirtioBlkDevice<D> {
    open spec fn state(&self) -> VirtioMmioRegister {
        self.mmio_state
    }

    open spec fn id(&self) -> u32 {
        VIRTIO_BLOCK_DEVICE_ID
    }

    fn device_id(&self) -> (r: u32) {
        VIRTIO_BLOCK_DEVICE_ID
    }

    fn mmio_state(&self) -> (r: &VirtioMmioRegister) {
        &self.mmio_state
    }

    fn mmio_state_mut(&mut self) -> (r: &mut VirtioMmioRegister) {
        &mut self.mmio_state
    }
}

/// The virtio MMIO transport in front of `device`: guest loads and stores
/// to the register window.
pub struct VirtioMmioTransport<D: VirtioDevice> {
    pub device: D,
}

impl<D: VirtioDevice> VirtioMmioTransport<D> {
    pub fn new(device: D) -> (r: Self)
        ensures
            r.device == device,
    {
        VirtioMmioTransport { device }
    }

    /// Guest read of register `offset`.
    pub fn read(&self, offset: usize) -> (r: usize)
        ensures
            r == self.device.state().read_value(offset, self.device.id()) as usize,
    {
        let id = self.device.device_id();
        self.device.mmio_state().read_register(offset, id) as usize
    }

    /// Guest write of `value` to register `offset`. A notification of the
    /// selected queue comes back for the caller to serve from guest memory.
    pub fn write(&mut self, offset: usize, value: usize) -> (r: Option<QueueNotify>)
        ensures
            final(self).device.id() == old(self).device.id(),
            offset == crate::virtio::VIRTIO_MMIO_QUEUE_NOTIFY ==> final(self).device.state()
                == old(self).device.state() && (r == if value as u32 == old(self).device.state().queue_sel {
                Some(
                    QueueNotify {
                        desc_address: old(self).device.state().desc_address,
                        device_address: old(self).device.state().device_address,
                    },
                )
            } else {
                None
            }),
            offset != crate::virtio::VIRTIO_MMIO_QUEUE_NOTIFY ==> r is None
                && final(self).device.state() == old(self).device.state().after_write(offset, value),
    {
        let register = self.device.mmio_state_mut();
        register.write_register(offset, value)
    }
}

/// Host-physical addresses of the descriptor table and the used ring of a
/// notified queue.
pub struct ResolvedNotify {
    pub desc_physical: usize,
    pub used_physical: usize,
}

/// Serving a queue notification starts here: both guest-physical addresses
/// that `notify` names are translated through the guest's G-stage table
/// (`hgatp`, with the tables in `mem` starting at `base`). `Err` when
/// either does not resolve.
pub fn resolve_notify(notify: QueueNotify, hgatp: u64, mem: &[u64], base: usize) -> (r: Result<
    ResolvedNotify,
    (),
>)
    requires
        usize::BITS == 64,
        hgatp / 0x1000_0000_0000_0000 == 0 || 8 <= hgatp / 0x1000_0000_0000_0000 <= 10,
    ensures
        r matches Ok(n) ==> translate_stage2(mem@, base as nat, hgatp, notify.desc_address as usize)
            == Ok::<nat, ()>(n.desc_physical as nat) && translate_stage2(
            mem@,
            base as nat,
            hgatp,
            notify.device_address as usize,
        ) == Ok::<nat, ()>(n.used_physical as nat),
        r is Err <==> (translate_stage2(mem@, base as nat, hgatp, notify.desc_address as usize) is Err
            || translate_stage2(mem@, base as nat, hgatp, notify.device_address as usize) is Err),
{
    let desc_physical = match resolve_address_stage2(hgatp, notify.desc_address as usize, mem, base) {
        Ok(a) => a,
        Err(()) => {
            return Err(());
        },
    };
    let used_physical = match resolve_address_stage2(hgatp, notify.device_address as usize, mem, base) {
        Ok(a) => a,
        Err(()) => {
            return Err(());
        },
    };
    Ok(ResolvedNotify { desc_physical, used_physical })
}

/// The used ring's index once a notified request is complete: one more,
/// wrapping at 2^16 as ring indices do.
pub fn next_used_idx(idx: u16) -> (r: u16)
    ensures
        r == (idx + 1) % 0x1_0000,
{
    idx.wrapping_add(1)
}

} // verus!
