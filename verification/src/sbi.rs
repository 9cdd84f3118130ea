use vstd::prelude::*;

verus! {

pub const SBI_EXT_0_1_CONSOLE_PUTCHAR: usize = 0x01;
pub const SBI_EXT_0_1_CONSOLE_GETCHAR: usize = 0x02;
pub const SBI_EXT_BASE: usize = 0x10;
pub const SBI_EXT_DBCN: usize = 0x4442434E;
pub const SBI_EXT_SRST: usize = 0x53525354;

pub const SBI_FID_GET_SBI_SPECIFICATION_VERSION: usize = 0;
pub const SBI_FID_GET_SBI_IMPLEMENTATION_ID: usize = 1;
pub const SBI_FID_GET_SBI_IMPLEMENTATION_VERSION: usize = 2;
pub const SBI_FID_PROBE_SBI_EXT: usize = 3;
pub const SBI_FID_GET_MACHINE_VENDOR_ID: usize = 4;
pub const SBI_FID_GET_MACHINE_ARCHITECTURE_ID: usize = 5;
pub const SBI_FID_GET_MACHINE_IMPLEMENTATION_ID: usize = 6;

pub const SBI_EXT_DBCN_CONSOLE_WRITE: usize = 0;
pub const SBI_EXT_DBCN_CONSOLE_READ: usize = 1;
pub const SBI_EXT_DBCN_CONSOLE_WRITE_BYTE: usize = 2;

/// SBI specification version reported to guests: 3.0 (major in bits 24..).
pub const SBI_SPECIFICATION_VERSION: u64 = 0x300_0000;

/// Result registers of an SBI call: `a0` holds the error, `a1` the value.
#[derive(Clone, Copy, PartialEq, Eq)]
pub struct Sbiret {
    pub error: u64,
    pub value: u64,
}

/// Registers of an `ecall` into the SBI firmware.
#[derive(Clone, Copy, PartialEq, Eq)]
pub struct SbiCall {
    pub ext: usize,
    pub fid: usize,
    pub args: [usize; 6],
}

/// What the hypervisor does for an SBI call made by a guest.
#[derive(Clone, Copy, PartialEq, Eq)]
pub enum SbiOutcome {
    /// Return `ret` to the guest.
    Return(Sbiret),
    /// Print `byte` on the console, tagging the next line as coming from the
    /// guest when `tag_line` is set, and return success.
    Putchar { byte: u8, tag_line: bool },
    /// Reset the measurement counters and return success.
    StartMeasure,
    /// Report the measurement counters and stop.
    EndMeasure,
    /// Unknown extension or function: stop.
    Unrecognized,
}

/// The outcome of the guest SBI call (`ext`, `fid`) with first argument
/// `arg0`.
pub open spec fn sbi_outcome(ext: usize, fid: usize, arg0: usize) -> SbiOutcome {
    if ext == SBI_EXT_BASE {
        if fid == SBI_FID_GET_SBI_SPECIFICATION_VERSION {
            SbiOutcome::Return(Sbiret { error: 0, value: SBI_SPECIFICATION_VERSION })
        } else if fid == SBI_FID_GET_SBI_IMPLEMENTATION_VERSION {
            SbiOutcome::Return(Sbiret { error: 0, value: 2 })
        } else if fid == SBI_FID_GET_SBI_IMPLEMENTATION_ID || fid == SBI_FID_PROBE_SBI_EXT || fid
            == SBI_FID_GET_MACHINE_VENDOR_ID || fid == SBI_FID_GET_MACHINE_ARCHITECTURE_ID {
            SbiOutcome::Return(Sbiret { error: 0, value: 0 })
        } else if fid == SBI_FID_GET_MACHINE_IMPLEMENTATION_ID {
            SbiOutcome::StartMeasure
        } else {
            SbiOutcome::Unrecognized
        }
    } else if ext == SBI_EXT_0_1_CONSOLE_PUTCHAR {
        if fid == 0 {
            SbiOutcome::Putchar { byte: arg0 as u8, tag_line: arg0 as u32 == 0x0A }
        } else {
            SbiOutcome::Unrecognized
        }
    } else if ext == SBI_EXT_DBCN {
        if fid == SBI_EXT_DBCN_CONSOLE_WRITE_BYTE {
            SbiOutcome::Putchar { byte: arg0 as u8, tag_line: false }
        } else {
            SbiOutcome::Unrecognized
        }
    } else if ext == SBI_EXT_SRST {
        SbiOutcome::EndMeasure
    } else {
        SbiOutcome::Unrecognized
    }
}

/// Decides how to answer an SBI call from a guest.
pub fn virtual_sbi(
    ext: usize,
    fid: usize,
    arg0: usize,
    arg1: usize,
    arg2: usize,
    arg3: usize,
    arg4: usize,
    arg5: usize,
) -> (r: SbiOutcome)
    ensures
        r == sbi_outcome(ext, fid, arg0),
        ext == SBI_EXT_DBCN && fid == SBI_EXT_DBCN_CONSOLE_WRITE_BYTE ==> r == (SbiOutcome::Putchar {
            byte: arg0 as u8,
            tag_line: false,
        }),
        ext == SBI_EXT_0_1_CONSOLE_PUTCHAR && fid == 0 ==> r == (SbiOutcome::Putchar {
            byte: arg0 as u8,
            tag_line: arg0 as u32 == 0x0A,
        }),
        ext == SBI_EXT_SRST ==> r == SbiOutcome::EndMeasure,
        ext == SBI_EXT_BASE && fid == SBI_FID_GET_SBI_SPECIFICATION_VERSION ==> r
            == SbiOutcome::Return(Sbiret { error: 0, value: 0x300_0000 }),
{
    if ext == SBI_EXT_BASE {
        if fid == SBI_FID_GET_SBI_SPECIFICATION_VERSION {
            SbiOutcome::Return(Sbiret { error: 0, value: SBI_SPECIFICATION_VERSION })
        } else if fid == SBI_FID_GET_SBI_IMPLEMENTATION_VERSION {
            SbiOutcome::Return(Sbiret { error: 0, value: 2 })
        } else if fid == SBI_FID_GET_SBI_IMPLEMENTATION_ID || fid == SBI_FID_PROBE_SBI_EXT || fid
            == SBI_FID_GET_MACHINE_VENDOR_ID || fid == SBI_FID_GET_MACHINE_ARCHITECTURE_ID {
            SbiOutcome::Return(Sbiret { error: 0, value: 0 })
        } else if fid == SBI_FID_GET_MACHINE_IMPLEMENTATION_ID {
            SbiOutcome::StartMeasure
        } else {
            SbiOutcome::Unrecognized
        }
    } else if ext == SBI_EXT_0_1_CONSOLE_PUTCHAR {
        if fid == 0 {
            SbiOutcome::Putchar { byte: arg0 as u8, tag_line: arg0 as u32 == 0x0A }
        } else {
            SbiOutcome::Unrecognized
        }
    } else if ext == SBI_EXT_DBCN {
        if fid == SBI_EXT_DBCN_CONSOLE_WRITE_BYTE {
            SbiOutcome::Putchar { byte: arg0 as u8, tag_line: false }
        } else {
            SbiOutcome::Unrecognized
        }
    } else if ext == SBI_EXT_SRST {
        SbiOutcome::EndMeasure
    } else {
        SbiOutcome::Unrecognized
    }
}

/// The legacy console-putchar call for `ch`.
pub fn sbi_console_putchar(ch: u8) -> (r: SbiCall)
    ensures
        r.ext == SBI_EXT_0_1_CONSOLE_PUTCHAR,
        r.fid == 0,
        r.args@ == seq![ch as usize, 0usize, 0usize, 0usize, 0usize, 0usize],
{
    let r = SbiCall { ext: SBI_EXT_0_1_CONSOLE_PUTCHAR, fid: 0, args: [ch as usize, 0, 0, 0, 0, 0] };
    assert(r.args@ =~= seq![ch as usize, 0usize, 0usize, 0usize, 0usize, 0usize]);
    r
}

/// The legacy console-getchar call.
pub fn sbi_console_getchar_call() -> (r: SbiCall)
    ensures
        r.ext == SBI_EXT_0_1_CONSOLE_GETCHAR,
        r.fid == 0,
        r.args@ == seq![0usize, 0usize, 0usize, 0usize, 0usize, 0usize],
{
    let r = SbiCall { ext: SBI_EXT_0_1_CONSOLE_GETCHAR, fid: 0, args: [0, 0, 0, 0, 0, 0] };
    assert(r.args@ =~= seq![0usize, 0usize, 0usize, 0usize, 0usize, 0usize]);
    r
}

/// The character read by the legacy console-getchar call, which the
/// firmware returns in `a0`.
pub fn sbi_console_getchar(ret: Sbiret) -> (r: u64)
    ensures
        r == ret.error,
{
    ret.error
}

} // verus!
