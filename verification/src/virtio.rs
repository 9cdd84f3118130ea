use vstd::prelude::*;

verus! {

pub const VIRTIO_MMIO_DEFAULT_ADDRESS: usize = 0x10001000;
pub const VIRTIO_DEFAULT_INDEX: u32 = 0;

pub const VIRTIO_VERSION: u32 = 0x2;
pub const VIRTQ_ENTRY_NUM: u16 = 64;

pub const VIRTIO_MMIO_MAGIC: usize = 0x00;
pub const VIRTIO_MMIO_VERSION: usize = 0x04;
pub const VIRTIO_MMIO_DEVICEID: usize = 0x08;
pub const VIRTIO_MMIO_VENDERID: usize = 0x0c;
pub const VIRTIO_MMIO_DEVICE_FEATURES: usize = 0x10;
pub const VIRTIO_MMIO_DEVICE_FEATURES_SEL: usize = 0x14;
pub const VIRTIO_MMIO_DRIVER_FEATURES: usize = 0x20;
pub const VIRTIO_MMIO_DRIVER_FEATURES_SEL: usize = 0x24;
pub const VIRTIO_MMIO_QUEUE_SEL: usize = 0x30;
pub const VIRTIO_MMIO_QUEUE_MAX: usize = 0x34;
pub const VIRTIO_MMIO_QUEUE_NUM: usize = 0x38;
pub const VIRTIO_MMIO_QUEUE_READY: usize = 0x44;
pub const VIRTIO_MMIO_QUEUE_NOTIFY: usize = 0x50;
pub const VIRTIO_MMIO_INTR_STATUS: usize = 0x60;
pub const VIRTIO_MMIO_INTR_ACK: usize = 0x64;
pub const VIRTIO_MMIO_STATUS: usize = 0x70;
pub const VIRTIO_MMIO_DESC_LOW: usize = 0x80;
pub const VIRTIO_MMIO_DESC_HIGH: usize = 0x84;
pub const VIRTIO_MMIO_DRIVER_LOW: usize = 0x90;
pub const VIRTIO_MMIO_DRIVER_HIGH: usize = 0x94;
pub const VIRTIO_MMIO_DEVICE_LOW: usize = 0xa0;
pub const VIRTIO_MMIO_DEVICE_HIGH: usize = 0xa4;
pub const VIRTIO_MMIO_CONFIG_GENERATION: usize = 0xfc;
pub const VIRTIO_MMIO_CONFIG: usize = 0x100;

pub const VIRTIO_MMIO_STATUS_ACKNOWLEDGE: u32 = 1;
pub const VIRTIO_MMIO_STATUS_DRIVER: u32 = 2;
pub const VIRTIO_MMIO_STATUS_DRIVER_OK: u32 = 4;
pub const VIRTIO_MMIO_STATUS_FEATURES_OK: u32 = 8;
pub const VIRTIO_MMIO_STATUS_DEVICE_NEEDS_RESET: u32 = 64;
pub const VIRTIO_MMIO_STATUS_FAILED: u32 = 128;

pub const VIRTQ_DESC_F_NEXT: u16 = 1;
pub const VIRTQ_DESC_F_WRITE: u16 = 2;
pub const VIRTQ_DESC_F_INDIRECT: u16 = 4;

/// One descriptor of a split virtqueue.
#[derive(Clone, Copy)]
pub struct VRingDesc {
    pub addr: u64,
    pub len: u32,
    pub flags: u16,
    pub next: u16,
}

impl VRingDesc {
    pub fn new() -> (r: Self)
        ensures
            r.addr == 0 && r.len == 0 && r.flags == 0 && r.next == 0,
    {
        VRingDesc { addr: 0, len: 0, flags: 0, next: 0 }
    }
}

/// The driver area: descriptor chains made available to the device.
pub struct VringAvail {
    pub flags: u16,
    pub idx: u16,
    pub ring: [u16; 64],
}

impl VringAvail {
    pub fn new() -> (r: Self)
        ensures
            r.flags == 0,
            r.idx == 0,
            forall|i: int| 0 <= i < 64 ==> r.ring@[i] == 0,
    {
        VringAvail { flags: 0, idx: 0, ring: [0u16; 64] }
    }
}

#[derive(Clone, Copy)]
pub struct VRingUsedElem {
    pub id: u32,
    pub len: u32,
}

impl VRingUsedElem {
    pub fn new() -> (r: Self)
        ensures
            r.id == 0 && r.len == 0,
    {
        VRingUsedElem { id: 0, len: 0 }
    }
}

/// The device area: descriptor chains the device has finished with.
pub struct VRingUsed {
    pub flags: u16,
    pub idx: u16,
    pub ring: [VRingUsedElem; 64],
}

impl VRingUsed {
    pub fn new() -> (r: Self)
        ensures
            r.flags == 0,
            r.idx == 0,
            forall|i: int| 0 <= i < 64 ==> r.ring@[i].id == 0 && r.ring@[i].len == 0,
    {
        let e = VRingUsedElem::new();
        VRingUsed { flags: 0, idx: 0, ring: [e; 64] }
    }
}

pub struct VRing {
    pub desc: [VRingDesc; 64],
    pub avail: VringAvail,
    pub used: VRingUsed,
}

impl VRing {
    /// Every descriptor, both rings and their flags and indices are zero.
    pub open spec fn is_zeroed(&self) -> bool {
        &&& forall|i: int|
            0 <= i < 64 ==> self.desc@[i] == VRingDesc { addr: 0, len: 0, flags: 0, next: 0 }
        &&& self.avail.flags == 0 && self.avail.idx == 0
        &&& forall|i: int| 0 <= i < 64 ==> self.avail.ring@[i] == 0
        &&& self.used.flags == 0 && self.used.idx == 0
        &&& forall|i: int| 0 <= i < 64 ==> self.used.ring@[i] == VRingUsedElem { id: 0, len: 0 }
    }

    pub fn new() -> (r: Self)
        ensures
            r.is_zeroed(),
    {
        let d = VRingDesc::new();
        VRing { desc: [d; 64], avail: VringAvail::new(), used: VRingUsed::new() }
    }
}

pub struct VirtQueue {
    pub vring: VRing,
    pub queue_index: u16,
    pub last_used_index: u16,
    pub last_avail_index: u16,
}

impl VirtQueue {
    /// A zeroed queue: its rings as `VRing::is_zeroed` says, every index 0.
    pub open spec fn is_zeroed(&self) -> bool {
        &&& self.vring.is_zeroed()
        &&& self.queue_index == 0 && self.last_used_index == 0 && self.last_avail_index == 0
    }

    pub fn new() -> (r: Self)
        ensures
            r.is_zeroed(),
    {
        VirtQueue { vring: VRing::new(), queue_index: 0, last_used_index: 0, last_avail_index: 0 }
    }

    /// Publishes the chain starting at `desc_idx` in the next slot of the
    /// available ring.
    pub fn connect_to_avail_ring(&mut self, desc_idx: u16)
        requires
            old(self).vring.avail.idx < u16::MAX,
        ensures
            final(self).vring.avail.idx == old(self).vring.avail.idx + 1,
            final(self).vring.avail.ring@ == old(self).vring.avail.ring@.update(
                (old(self).vring.avail.idx % 64) as int,
                desc_idx,
            ),
            final(self).vring.avail.flags == old(self).vring.avail.flags,
            final(self).vring.desc == old(self).vring.desc,
            final(self).vring.used == old(self).vring.used,
            final(self).queue_index == old(self).queue_index,
            final(self).last_used_index == old(self).last_used_index,
            final(self).last_avail_index == old(self).last_avail_index,
    {
        let idx = self.vring.avail.idx;
        self.vring.avail.ring[(idx % VIRTQ_ENTRY_NUM) as usize] = desc_idx;
        self.vring.avail.idx = idx + 1;
    }
}

/// Free-function form of [`VirtQueue::connect_to_avail_ring`].
pub fn connect_to_avail_ring(queue: &mut VirtQueue, desc_idx: u16)
    requires
        old(queue).vring.avail.idx < u16::MAX,
    ensures
        final(queue).vring.avail.idx == old(queue).vring.avail.idx + 1,
        final(queue).vring.avail.ring@ == old(queue).vring.avail.ring@.update(
            (old(queue).vring.avail.idx % 64) as int,
            desc_idx,
        ),
        final(queue).vring.avail.flags == old(queue).vring.avail.flags,
        final(queue).vring.desc == old(queue).vring.desc,
        final(queue).vring.used == old(queue).vring.used,
        final(queue).queue_index == old(queue).queue_index,
        final(queue).last_used_index == old(queue).last_used_index,
        final(queue).last_avail_index == old(queue).last_avail_index,
{
    queue.connect_to_avail_ring(desc_idx);
}

pub enum VirtQueueError {
    UnsupportedVersion,
    InvalidQueue,
    AlreadyInUse,
}

impl VirtQueueError {
    pub fn as_str(&self) -> (r: &'static str)
        ensures
            *self is UnsupportedVersion ==> r@ == "Virtio version is not supported."@,
            *self is InvalidQueue ==> r@ == "Virt Queue is invalid."@,
            *self is AlreadyInUse ==> r@ == "Virt Queue is already in use."@,
    {
        match self {
            VirtQueueError::UnsupportedVersion => "Virtio version is not supported.",
            VirtQueueError::InvalidQueue => "Virt Queue is invalid.",
            VirtQueueError::AlreadyInUse => "Virt Queue is already in use.",
        }
    }
}

/// A virtio device behind an MMIO register window.
#[derive(Clone, Copy)]
pub struct VirtioMmio {
    pub base_address: usize,
}

/// The 64 feature bits from their two 32-bit halves.
pub open spec fn features_of(low: u32, high: u32) -> u64 {
    (high as nat * 0x1_0000_0000 + low as nat) as u64
}

/// One access of a driver to a register of its device.
#[derive(Clone, Copy, Debug, PartialEq, Eq, Structural)]
pub enum RegisterOp {
    /// Reads the register at the offset.
    Read(usize),
    /// Writes the value to the register at the offset.
    Write(usize, u32),
    /// Writes the value that the last read gave, with the given bits set.
    WriteLastReadWith(usize, u32),
}

impl VirtioMmio {
    pub fn new(base_address: usize) -> (r: Self)
        ensures
            r.base_address == base_address,
    {
        VirtioMmio { base_address }
    }

    /// Address of the register at `offset`.
    pub fn register_address(&self, offset: usize) -> (r: usize)
        requires
            self.base_address + offset <= usize::MAX,
        ensures
            r == self.base_address + offset,
    {
        self.base_address + offset
    }

    /// The device's feature bits, read as two halves through the feature
    /// selector.
    pub fn get_device_features(&self, device_features_low: u32, device_features_high: u32) -> (r:
        u64)
        ensures
            r == features_of(device_features_low, device_features_high),
    {
        let r = ((device_features_high as u64) << 32u64) | (device_features_low as u64);
        let h = device_features_high as u64;
        let l = device_features_low as u64;
        assert((h << 32u64) | l == h * 0x1_0000_0000 + l) by (bit_vector)
            requires
                h < 0x1_0000_0000,
                l < 0x1_0000_0000,
        ;
        r
    }

    /// The accesses that reset the device, acknowledge it, announce the
    /// driver and read the two halves of the device's feature bits (the
    /// two reads of `DEVICE_FEATURES`, low half first, go to
    /// `get_device_features`).
    pub fn device_features_program(&self) -> (r: Vec<RegisterOp>)
        ensures
            r@ == seq![
                RegisterOp::Write(VIRTIO_MMIO_STATUS, 0),
                RegisterOp::Write(VIRTIO_MMIO_STATUS, VIRTIO_MMIO_STATUS_ACKNOWLEDGE),
                RegisterOp::Read(VIRTIO_MMIO_STATUS),
                RegisterOp::WriteLastReadWith(VIRTIO_MMIO_STATUS, VIRTIO_MMIO_STATUS_DRIVER),
                RegisterOp::Write(VIRTIO_MMIO_DEVICE_FEATURES_SEL, 0),
                RegisterOp::Read(VIRTIO_MMIO_DEVICE_FEATURES),
                RegisterOp::Write(VIRTIO_MMIO_DEVICE_FEATURES_SEL, 1),
                RegisterOp::Read(VIRTIO_MMIO_DEVICE_FEATURES),
            ],
    {
        let mut v: Vec<RegisterOp> = Vec::new();
        v.push(RegisterOp::Write(VIRTIO_MMIO_STATUS, 0));
        v.push(RegisterOp::Write(VIRTIO_MMIO_STATUS, VIRTIO_MMIO_STATUS_ACKNOWLEDGE));
        v.push(RegisterOp::Read(VIRTIO_MMIO_STATUS));
        v.push(RegisterOp::WriteLastReadWith(VIRTIO_MMIO_STATUS, VIRTIO_MMIO_STATUS_DRIVER));
        v.push(RegisterOp::Write(VIRTIO_MMIO_DEVICE_FEATURES_SEL, 0));
        v.push(RegisterOp::Read(VIRTIO_MMIO_DEVICE_FEATURES));
        v.push(RegisterOp::Write(VIRTIO_MMIO_DEVICE_FEATURES_SEL, 1));
        v.push(RegisterOp::Read(VIRTIO_MMIO_DEVICE_FEATURES));
        v
    }

    /// The accesses that hand `features` to the device, low word first
    /// through the selector, and then set `FEATURES_OK` in the status.
    pub fn set_driver_features(&self, features: u64) -> (r: Vec<RegisterOp>)
        ensures
            r@ == seq![
                RegisterOp::Write(VIRTIO_MMIO_DRIVER_FEATURES_SEL, 0),
                RegisterOp::Write(VIRTIO_MMIO_DRIVER_FEATURES, (features % 0x1_0000_0000) as u32),
                RegisterOp::Write(VIRTIO_MMIO_DRIVER_FEATURES_SEL, 1),
                RegisterOp::Write(VIRTIO_MMIO_DRIVER_FEATURES, (features / 0x1_0000_0000) as u32),
                RegisterOp::Read(VIRTIO_MMIO_STATUS),
                RegisterOp::WriteLastReadWith(VIRTIO_MMIO_STATUS, VIRTIO_MMIO_STATUS_FEATURES_OK),
            ],
    {
        let (low, high) = Self::feature_halves(features);
        let mut v: Vec<RegisterOp> = Vec::new();
        v.push(RegisterOp::Write(VIRTIO_MMIO_DRIVER_FEATURES_SEL, 0));
        v.push(RegisterOp::Write(VIRTIO_MMIO_DRIVER_FEATURES, low));
        v.push(RegisterOp::Write(VIRTIO_MMIO_DRIVER_FEATURES_SEL, 1));
        v.push(RegisterOp::Write(VIRTIO_MMIO_DRIVER_FEATURES, high));
        v.push(RegisterOp::Read(VIRTIO_MMIO_STATUS));
        v.push(RegisterOp::WriteLastReadWith(VIRTIO_MMIO_STATUS, VIRTIO_MMIO_STATUS_FEATURES_OK));
        v
    }

    /// The low and high words of `features`.
    fn feature_halves(features: u64) -> (r: (u32, u32))
        ensures
            features_of(r.0, r.1) == features,
            r.0 == features % 0x1_0000_0000,
            r.1 == features / 0x1_0000_0000,
    {
        let mask: u64 = 0xffff_ffff;
        let low = features & mask;
        let high = (features & (mask << 32u64)) >> 32u64;
        assert(low == features % 0x1_0000_0000 && high == features / 0x1_0000_0000) by (bit_vector)
            requires
                low == features & 0xffff_ffffu64,
                high == (features & (0xffff_ffffu64 << 32u64)) >> 32u64,
        ;
        (low as u32, high as u32)
    }

    /// The accesses that announce the driver as ready: the status read
    /// back with `DRIVER_OK` set.
    pub fn set_driver_ok(&self) -> (r: Vec<RegisterOp>)
        ensures
            r@ == seq![
                RegisterOp::Read(VIRTIO_MMIO_STATUS),
                RegisterOp::WriteLastReadWith(VIRTIO_MMIO_STATUS, VIRTIO_MMIO_STATUS_DRIVER_OK),
            ],
    {
        let mut v: Vec<RegisterOp> = Vec::new();
        v.push(RegisterOp::Read(VIRTIO_MMIO_STATUS));
        v.push(RegisterOp::WriteLastReadWith(VIRTIO_MMIO_STATUS, VIRTIO_MMIO_STATUS_DRIVER_OK));
        v
    }

    /// The accesses that select queue `index` and read whether it is in use
    /// and its maximum size; the two reads go to `setup_virt_queue`, the
    /// second also to `is_queue_available`. The device's version is read
    /// before them.
    pub fn queue_select_program(&self, index: u32) -> (r: Vec<RegisterOp>)
        ensures
            r@ == seq![
                RegisterOp::Write(VIRTIO_MMIO_QUEUE_SEL, index),
                RegisterOp::Read(VIRTIO_MMIO_QUEUE_READY),
                RegisterOp::Read(VIRTIO_MMIO_QUEUE_MAX),
            ],
    {
        let mut v: Vec<RegisterOp> = Vec::new();
        v.push(RegisterOp::Write(VIRTIO_MMIO_QUEUE_SEL, index));
        v.push(RegisterOp::Read(VIRTIO_MMIO_QUEUE_READY));
        v.push(RegisterOp::Read(VIRTIO_MMIO_QUEUE_MAX));
        v
    }

    /// The writes that hand the selected queue to the device once its
    /// checks passed: its size, the addresses of its descriptor table,
    /// driver area and device area (low word first), and `QUEUE_READY` last.
    pub fn queue_setup_writes(&self, desc: u64, driver: u64, device: u64) -> (r: Vec<RegisterOp>)
        ensures
            r@ == seq![
                RegisterOp::Write(VIRTIO_MMIO_QUEUE_NUM, VIRTQ_ENTRY_NUM as u32),
                RegisterOp::Write(VIRTIO_MMIO_DESC_LOW, (desc % 0x1_0000_0000) as u32),
                RegisterOp::Write(VIRTIO_MMIO_DESC_HIGH, (desc / 0x1_0000_0000) as u32),
                RegisterOp::Write(VIRTIO_MMIO_DRIVER_LOW, (driver % 0x1_0000_0000) as u32),
                RegisterOp::Write(VIRTIO_MMIO_DRIVER_HIGH, (driver / 0x1_0000_0000) as u32),
                RegisterOp::Write(VIRTIO_MMIO_DEVICE_LOW, (device % 0x1_0000_0000) as u32),
                RegisterOp::Write(VIRTIO_MMIO_DEVICE_HIGH, (device / 0x1_0000_0000) as u32),
                RegisterOp::Write(VIRTIO_MMIO_QUEUE_READY, 1),
            ],
    {
        let (dl, dh) = split_address(desc);
        let (al, ah) = split_address(driver);
        let (ul, uh) = split_address(device);
        let mut v: Vec<RegisterOp> = Vec::new();
        v.push(RegisterOp::Write(VIRTIO_MMIO_QUEUE_NUM, VIRTQ_ENTRY_NUM as u32));
        v.push(RegisterOp::Write(VIRTIO_MMIO_DESC_LOW, dl));
        v.push(RegisterOp::Write(VIRTIO_MMIO_DESC_HIGH, dh));
        v.push(RegisterOp::Write(VIRTIO_MMIO_DRIVER_LOW, al));
        v.push(RegisterOp::Write(VIRTIO_MMIO_DRIVER_HIGH, ah));
        v.push(RegisterOp::Write(VIRTIO_MMIO_DEVICE_LOW, ul));
        v.push(RegisterOp::Write(VIRTIO_MMIO_DEVICE_HIGH, uh));
        v.push(RegisterOp::Write(VIRTIO_MMIO_QUEUE_READY, 1));
        v
    }

    /// Queue setup: the device must speak version 2 (the `VERSION`
    /// register, read first; nothing is written when it fails) and offer a
    /// queue of non-zero size (the `QUEUE_MAX` read of
    /// `queue_select_program`). When both pass, the result is a zeroed
    /// queue; `queue_setup_writes`, given the addresses of its descriptor
    /// table, available ring and used ring, then hands it to the device.
    pub fn setup_virt_queue(&self, version: u32, max_size: u32) -> (r: Result<
        Box<VirtQueue>,
        VirtQueueError,
    >)
        ensures
            version != VIRTIO_VERSION ==> r matches Err(VirtQueueError::UnsupportedVersion),
            version == VIRTIO_VERSION && max_size == 0 ==> r matches Err(
                VirtQueueError::InvalidQueue,
            ),
            version == VIRTIO_VERSION && max_size != 0 ==> r is Ok,
            r matches Ok(vq) ==> vq.is_zeroed(),
    {
        if version != VIRTIO_VERSION {
            return Err(VirtQueueError::UnsupportedVersion);
        }
        if max_size == 0 {
            return Err(VirtQueueError::InvalidQueue);
        }
        Ok(Box::new(VirtQueue::new()))
    }

    /// Register offset and value that notify the device about queue `index`.
    pub fn notify_to_device(&self, index: u32) -> (r: (usize, u32))
        ensures
            r == (VIRTIO_MMIO_QUEUE_NOTIFY, index),
    {
        (VIRTIO_MMIO_QUEUE_NOTIFY, index)
    }

    /// A queue exists when its maximum size, read after selecting it with
    /// `queue_select_program`, is non-zero.
    pub fn is_queue_available(&self, queue_max: u32) -> (r: bool)
        ensures
            r == (queue_max != 0),
    {
        queue_max != 0
    }
}

/// Low and high 32-bit words of a 64-bit guest address.
pub fn split_address(address: u64) -> (r: (u32, u32))
    ensures
        r.0 == address % 0x1_0000_0000,
        r.1 == address / 0x1_0000_0000,
{
    let low = address & 0xffff_ffff;
    let high = (address >> 32u64) & 0xffff_ffff;
    assert(low == address % 0x1_0000_0000 && high == address / 0x1_0000_0000) by (bit_vector)
        requires
            low == address & 0xffff_ffffu64,
            high == (address >> 32u64) & 0xffff_ffffu64,
    ;
    (low as u32, high as u32)
}

/// Queue setup values that the driver programs into an emulated virtio
/// MMIO device.
pub struct VirtioMmioRegister {
    pub queue_num: u32,
    pub queue_sel: u32,
    pub desc_address: u64,
    pub driver_address: u64,
    pub device_address: u64,
    pub status: u32,
    pub device_features_low: u32,
    pub device_features_high: u32,
    pub device_features_sel: u32,
    pub driver_features_low: u32,
    pub driver_features_high: u32,
    pub driver_features_sel: u32,
}

/// A notification of the selected queue: where its descriptor table and
/// device area live in guest memory.
#[derive(Clone, Copy, PartialEq, Eq)]
pub struct QueueNotify {
    pub desc_address: u64,
    pub device_address: u64,
}

impl VirtioMmioRegister {
    pub fn new() -> (r: Self)
        ensures
            r.is_reset(),
    {
        VirtioMmioRegister {
            queue_num: 0,
            queue_sel: 0,
            desc_address: 0,
            driver_address: 0,
            device_address: 0,
            status: 0,
            device_features_low: 0,
            device_features_high: 0,
            device_features_sel: 0,
            driver_features_low: 0,
            driver_features_high: 0,
            driver_features_sel: 0,
        }
    }

    /// Every register at its reset value, 0.
    pub open spec fn is_reset(self) -> bool {
        &&& self.queue_num == 0 && self.queue_sel == 0 && self.desc_address == 0
        &&& self.driver_address == 0 && self.device_address == 0 && self.status == 0
        &&& self.device_features_low == 0 && self.device_features_high == 0
        &&& self.device_features_sel == 0 && self.driver_features_low == 0
        &&& self.driver_features_high == 0 && self.driver_features_sel == 0
    }

    /// What a guest read of register `offset` returns.
    pub open spec fn read_value(self, offset: usize, device_id: u32) -> u32 {
        if offset == VIRTIO_MMIO_VERSION {
            VIRTIO_VERSION
        } else if offset == VIRTIO_MMIO_DEVICEID {
            device_id
        } else if offset == VIRTIO_MMIO_QUEUE_READY {
            VIRTIO_DEFAULT_INDEX
        } else if offset == VIRTIO_MMIO_STATUS {
            self.status
        } else if offset == VIRTIO_MMIO_DEVICE_FEATURES {
            if self.device_features_sel == 0 {
                self.device_features_low
            } else {
                self.device_features_high
            }
        } else {
            0
        }
    }

    /// The register state after a guest write of `value` to `offset`.
    pub open spec fn after_write(self, offset: usize, value: usize) -> Self {
        let v = value as u32;
        if offset == VIRTIO_MMIO_QUEUE_NUM {
            VirtioMmioRegister { queue_num: v, ..self }
        } else if offset == VIRTIO_MMIO_QUEUE_SEL {
            VirtioMmioRegister { queue_sel: v, ..self }
        } else if offset == VIRTIO_MMIO_DEVICE_FEATURES_SEL {
            VirtioMmioRegister { device_features_sel: v, ..self }
        } else if offset == VIRTIO_MMIO_DRIVER_FEATURES_SEL {
            VirtioMmioRegister { driver_features_sel: v, ..self }
        } else if offset == VIRTIO_MMIO_DRIVER_FEATURES {
            if self.driver_features_sel == 0 {
                VirtioMmioRegister { driver_features_low: v, ..self }
            } else {
                VirtioMmioRegister { driver_features_high: v, ..self }
            }
        } else if offset == VIRTIO_MMIO_STATUS_FEATURES_OK as usize {
            VirtioMmioRegister { status: self.status | VIRTIO_MMIO_STATUS_FEATURES_OK, ..self }
        } else if offset == VIRTIO_MMIO_STATUS {
            VirtioMmioRegister { status: v, ..self }
        } else if offset == VIRTIO_MMIO_DESC_LOW {
            VirtioMmioRegister { desc_address: v as u64, ..self }
        } else if offset == VIRTIO_MMIO_DRIVER_LOW {
            VirtioMmioRegister { driver_address: v as u64, ..self }
        } else if offset == VIRTIO_MMIO_DEVICE_LOW {
            VirtioMmioRegister { device_address: v as u64, ..self }
        } else {
            self
        }
    }

    /// Guest read of register `offset` of a device with id `device_id`.
    pub fn read_register(&self, offset: usize, device_id: u32) -> (r: u32)
        ensures
            r == self.read_value(offset, device_id),
    {
        if offset == VIRTIO_MMIO_VERSION {
            VIRTIO_VERSION
        } else if offset == VIRTIO_MMIO_DEVICEID {
            device_id
        } else if offset == VIRTIO_MMIO_QUEUE_READY {
            VIRTIO_DEFAULT_INDEX
        } else if offset == VIRTIO_MMIO_STATUS {
            self.status
        } else if offset == VIRTIO_MMIO_DEVICE_FEATURES {
            if self.device_features_sel == 0 {
                self.device_features_low
            } else {
                self.device_features_high
            }
        } else {
            0
        }
    }

    /// Guest write of `value` to register `offset`. A notification of the
    /// selected queue is returned for the device to process; notifications
    /// of other queues are ignored.
    pub fn write_register(&mut self, offset: usize, value: usize) -> (r: Option<QueueNotify>)
        ensures
            offset == VIRTIO_MMIO_QUEUE_NOTIFY ==> *final(self) == *old(self) && (r == if value
                as u32 == old(self).queue_sel {
                Some(
                    QueueNotify {
                        desc_address: old(self).desc_address,
                        device_address: old(self).device_address,
                    },
                )
            } else {
                None
            }),
            offset != VIRTIO_MMIO_QUEUE_NOTIFY ==> r is None && *final(self) == old(
                self,
            ).after_write(offset, value),
    {
        let v = value as u32;
        if offset == VIRTIO_MMIO_QUEUE_NOTIFY {
            if v != self.queue_sel {
                return None;
            }
            return Some(
                QueueNotify { desc_address: self.desc_address, device_address: self.device_address },
            );
        }
        if offset == VIRTIO_MMIO_QUEUE_NUM {
            self.queue_num = v;
        } else if offset == VIRTIO_MMIO_QUEUE_SEL {
            self.queue_sel = v;
        } else if offset == VIRTIO_MMIO_DEVICE_FEATURES_SEL {
            self.device_features_sel = v;
        } else if offset == VIRTIO_MMIO_DRIVER_FEATURES_SEL {
            self.driver_features_sel = v;
        } else if offset == VIRTIO_MMIO_DRIVER_FEATURES {
            if self.driver_features_sel == 0 {
                self.driver_features_low = v;
            } else {
                self.driver_features_high = v;
            }
        } else if offset == VIRTIO_MMIO_STATUS_FEATURES_OK as usize {
            self.status = self.status | VIRTIO_MMIO_STATUS_FEATURES_OK;
        } else if offset == VIRTIO_MMIO_STATUS {
            self.status = v;
        } else if offset == VIRTIO_MMIO_DESC_LOW {
            self.desc_address = v as u64;
        } else if offset == VIRTIO_MMIO_DRIVER_LOW {
            self.driver_address = v as u64;
        } else if offset == VIRTIO_MMIO_DEVICE_LOW {
            self.device_address = v as u64;
        }
        None
    }
}

/// Register window emulation state of the older single-device virtio
/// emulation.
pub struct VirtQueueMmio {
    pub queue_num: usize,
    pub queue_sel: usize,
    pub desc_address: usize,
    pub driver_address: usize,
    pub device_address: usize,
    pub status: u8,
    pub features_sel: u32,
}

impl VirtQueueMmio {
    pub fn new() -> (r: Self)
        ensures
            r.queue_num == 0 && r.queue_sel == 0 && r.desc_address == 0 && r.driver_address == 0
                && r.device_address == 0 && r.status == 0 && r.features_sel == 0,
    {
        VirtQueueMmio {
            queue_num: 0,
            queue_sel: 0,
            desc_address: 0,
            driver_address: 0,
            device_address: 0,
            status: 0,
            features_sel: 0,
        }
    }
}


/// A guest virtio window passed through to a host device; the queue set-up
/// registers and the feature words are kept on the side.
pub struct Virtio {
    pub register: VirtioMmioRegister,
}

/// What a guest read of register `offset` returns when the host register
/// reads `host_value`.
pub open spec fn pass_through_read(reg: VirtioMmioRegister, offset: usize, host_value: u32) -> u32 {
    if offset == VIRTIO_MMIO_QUEUE_READY {
        VIRTIO_DEFAULT_INDEX
    } else if offset == VIRTIO_MMIO_STATUS {
        reg.status
    } else if offset == VIRTIO_MMIO_DEVICE_FEATURES {
        if reg.device_features_sel == 0 {
            reg.device_features_low
        } else {
            reg.device_features_high
        }
    } else {
        host_value
    }
}

impl Virtio {
    pub fn new() -> (r: Self)
        ensures
            r.register.is_reset(),
    {
        Virtio { register: VirtioMmioRegister::new() }
    }

    /// Keeps the host device's feature words, read when the guest reads the
    /// version register.
    pub fn record_device_features(&mut self, low: u32, high: u32)
        ensures
            final(self).register == (VirtioMmioRegister {
                device_features_low: low,
                device_features_high: high,
                ..old(self).register
            }),
    {
        self.register.device_features_low = low;
        self.register.device_features_high = high;
    }

    /// Guest read of register `offset`, where the host register reads
    /// `host_value`.
    pub fn read(&self, offset: usize, host_value: u32) -> (r: u32)
        ensures
            r == pass_through_read(self.register, offset, host_value),
    {
        if offset == VIRTIO_MMIO_QUEUE_READY {
            VIRTIO_DEFAULT_INDEX
        } else if offset == VIRTIO_MMIO_STATUS {
            self.register.status
        } else if offset == VIRTIO_MMIO_DEVICE_FEATURES {
            if self.register.device_features_sel == 0 {
                self.register.device_features_low
            } else {
                self.register.device_features_high
            }
        } else {
            host_value
        }
    }

    /// Guest write of `value` to register `offset`; a notification of the
    /// selected queue comes back for the caller to serve.
    pub fn write(&mut self, offset: usize, value: usize) -> (r: Option<QueueNotify>)
        ensures
            offset == VIRTIO_MMIO_QUEUE_NOTIFY ==> final(self).register == old(self).register && (r
                == if value as u32 == old(self).register.queue_sel {
                Some(
                    QueueNotify {
                        desc_address: old(self).register.desc_address,
                        device_address: old(self).register.device_address,
                    },
                )
            } else {
                None
            }),
            offset != VIRTIO_MMIO_QUEUE_NOTIFY ==> r is None && final(self).register == old(
                self,
            ).register.after_write(offset, value),
    {
        self.register.write_register(offset, value)
    }
}


/// What the older virtio emulation does after a guest register write.
#[derive(Clone, Copy, PartialEq, Eq)]
pub enum VirtioWriteAction {
    /// Nothing beyond the register update.
    Done,
    /// Serve the request of the notified queue, whose descriptor table and
    /// device area are at these guest addresses.
    Notify { desc_address: usize, device_address: usize },
    /// The guest made the queue ready: set up the host device's queue.
    InitQueue,
}

/// The register state after a guest write of `value` to `offset`.
pub open spec fn legacy_after_write(vq: VirtQueueMmio, offset: usize, value: u32) -> VirtQueueMmio {
    if offset == VIRTIO_MMIO_QUEUE_NUM {
        VirtQueueMmio { queue_num: value as usize, ..vq }
    } else if offset == VIRTIO_MMIO_QUEUE_SEL {
        VirtQueueMmio { queue_sel: value as usize, ..vq }
    } else if offset == VIRTIO_MMIO_DEVICE_FEATURES_SEL {
        VirtQueueMmio { features_sel: value, ..vq }
    } else if offset == VIRTIO_MMIO_STATUS_FEATURES_OK as usize {
        VirtQueueMmio { status: vq.status | (VIRTIO_MMIO_STATUS_FEATURES_OK as u8), ..vq }
    } else if offset == VIRTIO_MMIO_STATUS {
        VirtQueueMmio { status: value as u8, ..vq }
    } else if offset == VIRTIO_MMIO_DESC_LOW {
        VirtQueueMmio { desc_address: value as usize, ..vq }
    } else if offset == VIRTIO_MMIO_DRIVER_LOW {
        VirtQueueMmio { driver_address: value as usize, ..vq }
    } else if offset == VIRTIO_MMIO_DEVICE_LOW {
        VirtQueueMmio { device_address: value as usize, ..vq }
    } else {
        vq
    }
}

/// Guest read of register `offset` of the older virtio emulation: the
/// status is emulated, every other register reads `host_value`, what the
/// host device's register reads.
pub fn emulate_read_virtio(vq: &VirtQueueMmio, offset: usize, host_value: u32) -> (r: u32)
    ensures
        r == (if offset == VIRTIO_MMIO_STATUS {
            vq.status as u32
        } else {
            host_value
        }),
{
    if offset == VIRTIO_MMIO_STATUS {
        vq.status as u32
    } else {
        host_value
    }
}

/// Guest write of `value` to register `offset` of the older virtio
/// emulation. A notification of the selected queue asks the caller to serve
/// it; a notification of another queue is ignored; making the queue ready
/// asks the caller to set up the host's queue.
pub fn emulate_write_virtio(vq: &mut VirtQueueMmio, offset: usize, value: u32) -> (r:
    VirtioWriteAction)
    ensures
        offset == VIRTIO_MMIO_QUEUE_NOTIFY ==> *final(vq) == *old(vq) && r == (if value as usize
            == old(vq).queue_sel {
            VirtioWriteAction::Notify {
                desc_address: old(vq).desc_address,
                device_address: old(vq).device_address,
            }
        } else {
            VirtioWriteAction::Done
        }),
        offset == VIRTIO_MMIO_QUEUE_READY ==> *final(vq) == *old(vq) && r
            == VirtioWriteAction::InitQueue,
        offset != VIRTIO_MMIO_QUEUE_NOTIFY && offset != VIRTIO_MMIO_QUEUE_READY ==> r
            == VirtioWriteAction::Done && *final(vq) == legacy_after_write(*old(vq), offset, value),
{
    if offset == VIRTIO_MMIO_QUEUE_NOTIFY {
        if value as usize != vq.queue_sel {
            return VirtioWriteAction::Done;
        }
        return VirtioWriteAction::Notify {
            desc_address: vq.desc_address,
            device_address: vq.device_address,
        };
    }
    if offset == VIRTIO_MMIO_QUEUE_READY {
        return VirtioWriteAction::InitQueue;
    }
    if offset == VIRTIO_MMIO_QUEUE_NUM {
        vq.queue_num = value as usize;
    } else if offset == VIRTIO_MMIO_QUEUE_SEL {
        vq.queue_sel = value as usize;
    } else if offset == VIRTIO_MMIO_DEVICE_FEATURES_SEL {
        vq.features_sel = value;
    } else if offset == VIRTIO_MMIO_STATUS_FEATURES_OK as usize {
        vq.status = vq.status | (VIRTIO_MMIO_STATUS_FEATURES_OK as u8);
    } else if offset == VIRTIO_MMIO_STATUS {
        vq.status = value as u8;
    } else if offset == VIRTIO_MMIO_DESC_LOW {
        vq.desc_address = value as usize;
    } else if offset == VIRTIO_MMIO_DRIVER_LOW {
        vq.driver_address = value as usize;
    } else if offset == VIRTIO_MMIO_DEVICE_LOW {
        vq.device_address = value as usize;
    }
    VirtioWriteAction::Done
}

} // verus!
