use vstd::prelude::*;

verus! {

pub const MXLEN: usize = 64;

pub const MSTATUS_SIE: u64 = 1 << 1;
pub const MSTATUS_MIE: u64 = 1 << 3;
pub const SSTATUS_SIE: u64 = 1 << 1;
pub const SSTATUS_SPP: u64 = 1 << 8;

pub const HSTATUS_VSBE: u64 = 1 << 5;
pub const HSTATUS_SPV: u64 = 1 << 7;
pub const HSTATUS_SPVP: u64 = 1 << 8;
pub const HSTATUS_VSTR: u64 = 1 << 22;

pub const XIE_SEIE: u64 = 1 << 9;
pub const XIE_STIE: u64 = 1 << 5;
pub const XIE_SSIE: u64 = 1 << 1;

pub const MISA_EXTENSION_H_OFFSET: u64 = 7;
pub const MISA_MXL_OFFSET: u64 = 62;

pub const PMP_A_FIELD_OFFSET: u8 = 3;
pub const PMP_A_FIELD_TOR: u8 = 1;
pub const PMP_A_FIELD_NA4: u8 = 2;
pub const PMP_A_FIELD_NAPOT: u8 = 3;

/// Mask of the physical page number field of `satp`/`hgatp`.
pub const SATP_PPN_MASK: u64 = 0xfff_ffff_ffff;

pub const CSR_MHARTID_ADDRESS: usize = 0xf14;
pub const CSR_MIE_ADDRESS: usize = 0x304;
pub const CSR_TIME_ADDRESS: usize = 0xc01;
pub const CSR_HSTATUS_ADDRESS: usize = 0x600;
pub const CSR_HEDELEG_ADDRESS: usize = 0x602;
pub const CSR_HIDELEG_ADDRESS: usize = 0x603;
pub const CSR_HIE_ADDRESS: usize = 0x604;
pub const CSR_HCOUNTEREN_ADDRESS: usize = 0x606;
pub const CSR_HGEIE_ADDRESS: usize = 0x607;
pub const CSR_HTVAL_ADDRESS: usize = 0x643;
pub const CSR_HIP_ADDRESS: usize = 0x644;
pub const CSR_HVIP_ADDRESS: usize = 0x645;
pub const CSR_HTINST_ADDRESS: usize = 0x64a;
pub const CSR_HGEIP_ADDRESS: usize = 0xe12;
pub const CSR_HENVCFG_ADDRESS: usize = 0x60a;
pub const CSR_HGATP_ADDRESS: usize = 0x680;

pub const REGISTER_ZERO: usize = 0;
pub const REGISTER_A0: usize = 10;
pub const REGISTER_A1: usize = 11;
pub const REGISTER_A2: usize = 12;
pub const REGISTER_A3: usize = 13;
pub const REGISTER_A4: usize = 14;
pub const REGISTER_A5: usize = 15;
pub const REGISTER_A6: usize = 16;
pub const REGISTER_A7: usize = 17;

/// CSR numbers in the hypervisor range `0x6xx`, and `hgeip`.
pub fn is_hypervisor_csr(csr_number: usize) -> (r: bool)
    ensures
        r == ((csr_number / 256) % 16 == 6 || csr_number == CSR_HGEIP_ADDRESS),
{
    let masked = csr_number & 0xF00;
    assert(masked == ((csr_number / 256) % 16) * 256) by (bit_vector)
        requires
            masked == csr_number & 0xF00,
    ;
    masked == 0x600 || csr_number == CSR_HGEIP_ADDRESS
}

/// Machine XLEN in bits encoded by the MXL field (two top bits) of `misa`;
/// zero when the field is zero.
pub open spec fn xlen_of(mxl: u64) -> usize {
    if mxl == 1 {
        32
    } else if mxl == 2 {
        64
    } else if mxl == 3 {
        128
    } else {
        0
    }
}

pub fn get_xlen_from_misa(misa: u64) -> (r: usize)
    ensures
        r == xlen_of(misa / 0x4000_0000_0000_0000),
{
    let mxl = (misa & 0xc000_0000_0000_0000u64) >> MISA_MXL_OFFSET;
    assert(mxl == misa / 0x4000_0000_0000_0000) by (bit_vector)
        requires
            mxl == (misa & 0xc000_0000_0000_0000u64) >> 62u64,
    ;
    if mxl == 1 {
        32
    } else if mxl == 2 {
        64
    } else if mxl == 3 {
        128
    } else {
        0
    }
}

/// Whether `misa` advertises the hypervisor extension.
pub fn has_hypervisor_extension(misa: u64) -> (r: bool)
    ensures
        r == ((misa / 128) % 2 == 1),
{
    let b = misa & (1u64 << MISA_EXTENSION_H_OFFSET);
    assert((b != 0) == ((misa / 128) % 2 == 1)) by (bit_vector)
        requires
            b == misa & (1u64 << 7u64),
    ;
    b != 0
}

/// New `hstatus` for a hypervisor load or store on behalf of the guest:
/// SPVP is cleared for a VU-mode access and set otherwise.
pub fn hstatus_effective_privileged(hstatus: u64, is_vu: bool) -> (r: u64)
    ensures
        is_vu ==> r == hstatus & !HSTATUS_SPVP,
        !is_vu ==> r == hstatus | HSTATUS_SPVP,
{
    if is_vu {
        hstatus & !HSTATUS_SPVP
    } else {
        hstatus | HSTATUS_SPVP
    }
}

/// PMP configuration byte: R, W and X in bits 0..=2, address mode above.
pub open spec fn pmp_cfg(is_readable: bool, is_writable: bool, is_executable: bool, mode: u8) -> u8 {
    ((if is_readable { 1u8 } else { 0u8 }) + (if is_writable { 2u8 } else { 0u8 }) + (
    if is_executable { 4u8 } else { 0u8 }) + mode * 8) as u8
}

fn pmp_cfg_byte(is_readable: bool, is_writable: bool, is_executable: bool, mode: u8) -> (r: u8)
    requires
        mode < 4,
    ensures
        r == pmp_cfg(is_readable, is_writable, is_executable, mode),
{
    let r: u8 = if is_readable { 1 } else { 0 };
    let w: u8 = if is_writable { 2 } else { 0 };
    let x: u8 = if is_executable { 4 } else { 0 };
    r + w + x + mode * 8
}

/// Values to write into the PMP registers.
pub struct PmpSetting {
    pub pmpcfg0: u64,
    pub pmpaddr0: u64,
    pub pmpaddr1: u64,
}

/// PMP entry 1 in top-of-range mode covering `[bottom_address, top_address)`.
pub fn set_pmp(
    top_address: usize,
    bottom_address: usize,
    is_readable: bool,
    is_writable: bool,
    is_executable: bool,
) -> (r: PmpSetting)
    ensures
        r.pmpcfg0 == pmp_cfg(is_readable, is_writable, is_executable, PMP_A_FIELD_TOR) as u64 * 256,
        r.pmpaddr0 == bottom_address / 4,
        r.pmpaddr1 == top_address / 4,
{
    let cfg = pmp_cfg_byte(is_readable, is_writable, is_executable, PMP_A_FIELD_TOR);
    PmpSetting {
        pmpcfg0: (cfg as u64) * 256,
        pmpaddr0: (bottom_address / 4) as u64,
        pmpaddr1: (top_address / 4) as u64,
    }
}

/// Values to write into `pmpcfg0` and `pmpaddr0`, the two registers of
/// PMP entry 0.
pub struct PmpEntry0 {
    pub pmpcfg0: u64,
    pub pmpaddr0: u64,
}

/// PMP entry 0 in naturally aligned power-of-two mode covering the whole
/// 56-bit physical address space; only set up on a 64-bit machine.
pub fn set_pmp_all_physical_address(
    misa: u64,
    is_readable: bool,
    is_writable: bool,
    is_executable: bool,
) -> (r: Option<PmpEntry0>)
    ensures
        xlen_of(misa / 0x4000_0000_0000_0000) == 64 ==> (r matches Some(s) && s.pmpcfg0 == pmp_cfg(
            is_readable,
            is_writable,
            is_executable,
            PMP_A_FIELD_NAPOT,
        ) as u64 && s.pmpaddr0 == 0x3f_ffff_ffff_ffff),
        xlen_of(misa / 0x4000_0000_0000_0000) != 64 ==> r is None,
{
    let cfg = pmp_cfg_byte(is_readable, is_writable, is_executable, PMP_A_FIELD_NAPOT);
    if get_xlen_from_misa(misa) == 64 {
        Some(PmpEntry0 { pmpcfg0: cfg as u64, pmpaddr0: 0x3f_ffff_ffff_ffff })
    } else {
        None
    }
}

/// `sie` with the supervisor timer interrupt enabled.
pub fn enable_timer_intr(sie: u64) -> (r: u64)
    ensures
        r == sie | XIE_STIE,
{
    sie | XIE_STIE
}

/// `sie` with the supervisor timer interrupt disabled.
pub fn disable_timer_intr(sie: u64) -> (r: u64)
    ensures
        r == sie & !XIE_STIE,
{
    sie & !XIE_STIE
}

/// Timer comparator and interrupt enable for a timer that fires `value`
/// ticks after `time`.
pub struct TimerSetting {
    pub stimecmp: u64,
    pub sie: u64,
}

pub fn start_timer(time: u64, value: u64, sie: u64) -> (r: TimerSetting)
    ensures
        r.stimecmp == (time + value) % 0x1_0000_0000_0000_0000,
        r.sie == sie | XIE_STIE,
{
    TimerSetting { stimecmp: time.wrapping_add(value), sie: enable_timer_intr(sie) }
}

/// `sstatus` with supervisor interrupts enabled.
pub fn enable_intr(sstatus: u64) -> (r: u64)
    ensures
        r == sstatus | SSTATUS_SIE,
{
    sstatus | SSTATUS_SIE
}

/// `sstatus` with supervisor interrupts disabled.
pub fn disable_intr(sstatus: u64) -> (r: u64)
    ensures
        r == sstatus & !SSTATUS_SIE,
{
    sstatus & !SSTATUS_SIE
}

/// The `hgatp` translation mode for a G-stage table of the given depth.
pub open spec fn hgatp_mode(table_level: i8) -> u64 {
    if table_level == 3 {
        8
    } else if table_level == 4 {
        9
    } else {
        10
    }
}

/// `hgatp` value selecting the G-stage table at `table_address` with
/// `table_level` levels.
pub fn hgatp_value(table_level: i8, table_address: usize) -> (r: u64)
    requires
        3 <= table_level <= 5,
    ensures
        r == hgatp_mode(table_level) * 0x1000_0000_0000_0000 + (table_address as nat / 4096)
            % 0x1000_0000_0000,
{
    let mode: u64 = if table_level == 3 {
        8
    } else if table_level == 4 {
        9
    } else {
        10
    };
    let ppn = ((table_address as u64) >> 12u64) & SATP_PPN_MASK;
    let a = table_address as u64;
    assert(ppn == (a / 4096) % 0x1000_0000_0000) by (bit_vector)
        requires
            ppn == (a >> 12u64) & 0xfff_ffff_ffffu64,
    ;
    let hi = mode << 60u64;
    assert(hi == mode * 0x1000_0000_0000_0000) by (bit_vector)
        requires
            hi == mode << 60u64,
            8 <= mode <= 10,
    ;
    assert(hi | ppn == hi + ppn) by (bit_vector)
        requires
            hi == mode * 0x1000_0000_0000_0000,
            ppn < 0x1000_0000_0000,
            8 <= mode <= 10,
    ;
    hi | ppn
}

/// Root table address and depth that `hgatp` selects, or `Err` in bare
/// mode (no G-stage translation).
pub fn decode_hgatp(hgatp: u64) -> (r: Result<(usize, i8), ()>)
    requires
        usize::BITS == 64,
        hgatp / 0x1000_0000_0000_0000 == 0 || 8 <= hgatp / 0x1000_0000_0000_0000 <= 10,
    ensures
        hgatp / 0x1000_0000_0000_0000 == 0 ==> r is Err,
        hgatp / 0x1000_0000_0000_0000 != 0 ==> (r matches Ok((addr, level)) && addr == (hgatp
            % 0x1000_0000_0000) * 4096 && level == hgatp / 0x1000_0000_0000_0000 - 5),
{
    let ppn = hgatp & SATP_PPN_MASK;
    let mode = hgatp >> 60u64;
    assert(ppn == hgatp % 0x1000_0000_0000 && mode == hgatp / 0x1000_0000_0000_0000) by (bit_vector)
        requires
            ppn == hgatp & 0xfff_ffff_ffffu64,
            mode == hgatp >> 60u64,
    ;
    let table_address = (ppn * 4096) as usize;
    if mode == 0 {
        Err(())
    } else if mode == 8 {
        Ok((table_address, 3))
    } else if mode == 9 {
        Ok((table_address, 4))
    } else {
        Ok((table_address, 5))
    }
}

} // verus!
