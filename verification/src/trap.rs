use vstd::prelude::*;
use crate::instruction::{Instruction, OPCODE_SYSTEM, FUNCT3_CSRRW, FUNCT3_CSRRS, COMPRESSED_INSTRUCTION};
use crate::shmem::{ShmRing, BUF_LEN};
use crate::mmio::MmioEntry;
use crate::cpu::{
    CSR_TIME_ADDRESS, REGISTER_A0, REGISTER_A1, REGISTER_A2, REGISTER_A3, REGISTER_A4,
    REGISTER_A5, REGISTER_A6, REGISTER_A7,
};
use crate::sbi::Sbiret;
use crate::vm::CsrAccessInstructionType;

verus! {

pub const E_ILLEGAL_INSTRUCTION: usize = 2;
pub const E_ENVIRONMENT_CALL_FROM_VS_MODE: usize = 10;
pub const E_INSTRUCTION_GUEST_PAGE_FAULT: usize = 20;
pub const E_LOAD_GUEST_PAGE_FAULT: usize = 21;
pub const E_VIRTUAL_INSTRUCTION: usize = 22;
pub const E_STORE_AMO_GUEST_PAGE_FAULT: usize = 23;

/// The causes that `is_data_abort` accepts.
pub open spec fn is_data_abort_spec(scause: usize) -> bool {
    scause == E_STORE_AMO_GUEST_PAGE_FAULT || scause == E_LOAD_GUEST_PAGE_FAULT
}

/// The causes that `is_instruction_abort` accepts.
pub open spec fn is_instruction_abort_spec(scause: usize) -> bool {
    scause == E_ILLEGAL_INSTRUCTION || scause == E_VIRTUAL_INSTRUCTION || scause
        == E_ENVIRONMENT_CALL_FROM_VS_MODE
}

/// Guest page faults on loads and stores, which device emulation handles.
pub fn is_data_abort(scause: usize) -> (r: bool)
    ensures
        r == (scause == E_STORE_AMO_GUEST_PAGE_FAULT || scause == E_LOAD_GUEST_PAGE_FAULT),
{
    scause == E_STORE_AMO_GUEST_PAGE_FAULT || scause == E_LOAD_GUEST_PAGE_FAULT
}

/// Traps caused by the trapped instruction itself: illegal and virtual
/// instructions and environment calls.
pub fn is_instruction_abort(scause: usize) -> (r: bool)
    ensures
        r == (scause == E_ILLEGAL_INSTRUCTION || scause == E_VIRTUAL_INSTRUCTION || scause
            == E_ENVIRONMENT_CALL_FROM_VS_MODE),
{
    scause == E_ILLEGAL_INSTRUCTION || scause == E_VIRTUAL_INSTRUCTION || scause
        == E_ENVIRONMENT_CALL_FROM_VS_MODE
}

/// Length in bytes of the trapped instruction reported in `htinst`: two for
/// a compressed encoding, four otherwise (also when `htinst` is zero).
pub fn instruction_size(htinst: u32) -> (r: u64)
    ensures
        r == (if htinst != 0 && htinst % 4 == 1 { 2u64 } else { 4u64 }),
{
    let mut instruction = Instruction::new(htinst);
    if instruction.is_valid_instruction() {
        if instruction.is_compression_instruction() {
            2
        } else {
            4
        }
    } else {
        4
    }
}

/// Entry `e` serves guest address `va` (its window includes both ends).
pub open spec fn serves(e: MmioEntry, va: usize) -> bool {
    e.address <= va <= e.address + e.size
}

pub open spec fn mmio_windows_ok(mmios: Seq<MmioEntry>) -> bool {
    forall|i: int| 0 <= i < mmios.len() ==> #[trigger] mmios[i].address + mmios[i].size <= usize::MAX
}

/// Entry `i` is the first one that serves `va`.
pub open spec fn first_serving(mmios: Seq<MmioEntry>, va: usize, i: int) -> bool {
    &&& 0 <= i < mmios.len()
    &&& serves(mmios[i], va)
    &&& forall|j: int| 0 <= j < i ==> !serves(mmios[j], va)
}

/// The first entry that serves `va`, with the offset of `va` in its window.
pub fn find_mmio(mmios: &Vec<MmioEntry>, va: usize) -> (r: Option<(usize, usize)>)
    requires
        mmio_windows_ok(mmios@),
    ensures
        r matches Some((i, off)) ==> i < mmios@.len() && serves(mmios@[i as int], va) && off == va
            - mmios@[i as int].address && forall|j: int| 0 <= j < i ==> !serves(mmios@[j], va),
        r is None ==> forall|j: int| 0 <= j < mmios@.len() ==> !serves(mmios@[j], va),
{
    let mut i: usize = 0;
    while i < mmios.len()
        invariant
            i <= mmios@.len(),
            mmio_windows_ok(mmios@),
            forall|j: int| 0 <= j < i ==> !serves(mmios@[j], va),
        decreases mmios@.len() - i,
    {
        let e = &mmios[i];
        proof {
            assert(e.address + e.size <= usize::MAX);
        }
        if e.address <= va && va <= e.address + e.size {
            return Some((i, va - e.address));
        }
        i = i + 1;
    }
    None
}

/// A guest store of `value` to `va`: passed to the first device whose window
/// holds `va`, at the offset of `va` in it.
pub fn write_access(virtual_address: usize, value: u64, mmios: &mut Vec<MmioEntry>)
    requires
        mmio_windows_ok(old(mmios)@),
        exists|j: int| 0 <= j < old(mmios)@.len() && serves(old(mmios)@[j], virtual_address),
    ensures
        final(mmios)@.len() == old(mmios)@.len(),
        forall|j: int|
            #![trigger final(mmios)@[j]]
            0 <= j < old(mmios)@.len() ==> final(mmios)@[j].address == old(mmios)@[j].address
                && final(mmios)@[j].size == old(mmios)@[j].size,
        forall|i: int|
            first_serving(old(mmios)@, virtual_address, i) ==> final(mmios)@[i].handler.took_write(
                (virtual_address - old(mmios)@[i].address) as usize,
                value as usize,
            ) && forall|j: int|
                0 <= j < old(mmios)@.len() && j != i ==> final(mmios)@[j] == old(mmios)@[j],
{
    match find_mmio(mmios, virtual_address) {
        Some((i, offset)) => {
            mmios[i].handler.write(offset, value as usize);
        },
        None => {},
    }
}

/// A guest load from `va` into register `dst`: answered by the first device
/// whose window holds `va`; no other register changes.
pub fn read_access(
    virtual_address: usize,
    dst_register_idx: usize,
    registers: &mut [u64],
    mmios: &Vec<MmioEntry>,
)
    requires
        mmio_windows_ok(mmios@),
        dst_register_idx < old(registers)@.len(),
        exists|j: int| 0 <= j < mmios@.len() && serves(mmios@[j], virtual_address),
    ensures
        final(registers)@.len() == old(registers)@.len(),
        forall|j: int|
            0 <= j < old(registers)@.len() && j != dst_register_idx ==> final(registers)@[j] == old(
                registers,
            )@[j],
        forall|i: int|
            first_serving(mmios@, virtual_address, i) ==> exists|v: usize|
                #[trigger] mmios@[i].handler.may_read((virtual_address - mmios@[i].address) as usize, v)
                    && final(registers)@[dst_register_idx as int] == v as u64,
{
    match find_mmio(mmios, virtual_address) {
        Some((i, offset)) => {
            let v = mmios[i].handler.read(offset);
            assert(mmios@[i as int].handler.may_read(offset, v));
            assert(offset == (virtual_address - mmios@[i as int].address) as usize);
            registers[dst_register_idx] = v as u64;
            proof {
                assert forall|k: int| first_serving(mmios@, virtual_address, k) implies exists|w: usize|
                    #[trigger] mmios@[k].handler.may_read(
                        (virtual_address - mmios@[k].address) as usize,
                        w,
                    ) && registers@[dst_register_idx as int] == w as u64 by {
                    if k < i {
                        assert(!serves(mmios@[k], virtual_address));
                    } else if k > i {
                        assert(!serves(mmios@[i as int], virtual_address));
                    }
                    assert(mmios@[k].handler.may_read(offset, v));
                }
            }
        },
        None => {},
    }
}

/// Emulates the device access behind a guest page fault: a store passes
/// register `rs2` of the trapped instruction to the device, a load fills
/// register `rd` from it.
pub fn data_abort_handler(
    scause: usize,
    htinst: u32,
    stval: usize,
    registers: &mut [u64],
    mmios: &mut Vec<MmioEntry>,
)
    requires
        mmio_windows_ok(old(mmios)@),
        old(registers)@.len() == 32,
        exists|j: int| 0 <= j < old(mmios)@.len() && serves(old(mmios)@[j], stval),
    ensures
        final(registers)@.len() == 32,
        final(mmios)@.len() == old(mmios)@.len(),
        scause != E_LOAD_GUEST_PAGE_FAULT ==> final(registers)@ == old(registers)@,
        scause == E_LOAD_GUEST_PAGE_FAULT ==> forall|j: int|
            0 <= j < 32 && j != Instruction(htinst).rd() ==> final(registers)@[j] == old(
                registers,
            )@[j],
        scause == E_STORE_AMO_GUEST_PAGE_FAULT ==> forall|i: int|
            first_serving(old(mmios)@, stval, i) ==> final(mmios)@[i].handler.took_write(
                (stval - old(mmios)@[i].address) as usize,
                old(registers)@[Instruction(htinst).rs2() as int] as usize,
            ) && forall|j: int|
                0 <= j < old(mmios)@.len() && j != i ==> final(mmios)@[j] == old(mmios)@[j],
        scause == E_LOAD_GUEST_PAGE_FAULT ==> forall|i: int|
            first_serving(old(mmios)@, stval, i) ==> exists|v: usize|
                #[trigger] old(mmios)@[i].handler.may_read((stval - old(mmios)@[i].address) as usize, v)
                    && final(registers)@[Instruction(htinst).rd() as int] == v as u64,
        scause != E_STORE_AMO_GUEST_PAGE_FAULT ==> final(mmios)@ == old(mmios)@,
{
    let instruction = Instruction::new(htinst);
    if scause == E_STORE_AMO_GUEST_PAGE_FAULT {
        let register_idx = instruction.get_rs2();
        let value = registers[register_idx];
        write_access(stval, value, mmios);
    } else if scause == E_LOAD_GUEST_PAGE_FAULT {
        let register_idx = instruction.get_rd();
        read_access(stval, register_idx, registers, mmios);
    }
}

/// The CSR access kind of an instruction, if it is `csrrw` or `csrrs`.
pub fn csr_access_type(instruction: &Instruction) -> (r: Option<CsrAccessInstructionType>)
    ensures
        r == (if instruction.opcode() == OPCODE_SYSTEM && instruction.funct3() == FUNCT3_CSRRW {
            Some(CsrAccessInstructionType::CSRRW)
        } else if instruction.opcode() == OPCODE_SYSTEM && instruction.funct3() == FUNCT3_CSRRS {
            Some(CsrAccessInstructionType::CSRRS)
        } else {
            None
        }),
{
    if instruction.is_csrrw_instruction() {
        Some(CsrAccessInstructionType::CSRRW)
    } else if instruction.is_csrrs_instruction() {
        Some(CsrAccessInstructionType::CSRRS)
    } else {
        None
    }
}

/// How a virtual-instruction trap is handled.
#[derive(Clone, Copy, PartialEq, Eq)]
pub enum VirtualInstruction {
    /// Access to a hypervisor CSR by a guest hypervisor.
    HypervisorCsr { csr: usize, access: CsrAccessInstructionType, rs1: usize, rd: usize },
    /// Read of the `time` CSR into `rd`.
    ReadTime { rd: usize },
    /// Another CSR: unsupported.
    UnsupportedCsr { csr: usize },
    /// `sret` of a guest hypervisor entering its nested VM.
    Sret,
    /// Anything else: unsupported.
    Unsupported,
}

/// Classifies the instruction `stval` that raised a virtual-instruction
/// trap; `nested` tells whether guest hypervisors are supported.
pub fn classify_virtual_instruction(stval: u32, nested: bool) -> (r: VirtualInstruction)
    ensures
        ({
            let i = Instruction(stval);
            let csr = i.funct12() as usize;
            let is_csr = i.opcode() == OPCODE_SYSTEM && (i.funct3() == FUNCT3_CSRRW || i.funct3()
                == FUNCT3_CSRRS);
            let hyp = (csr / 256) % 16 == 6 || csr == crate::cpu::CSR_HGEIP_ADDRESS;
            &&& is_csr && nested && hyp ==> r == VirtualInstruction::HypervisorCsr {
                csr,
                access: if i.funct3() == FUNCT3_CSRRW {
                    CsrAccessInstructionType::CSRRW
                } else {
                    CsrAccessInstructionType::CSRRS
                },
                rs1: i.rs1() as usize,
                rd: i.rd() as usize,
            }
            &&& is_csr && !(nested && hyp) && csr == CSR_TIME_ADDRESS ==> r
                == VirtualInstruction::ReadTime { rd: i.rd() as usize }
            &&& is_csr && !(nested && hyp) && csr != CSR_TIME_ADDRESS ==> r
                == VirtualInstruction::UnsupportedCsr { csr }
            &&& !is_csr && nested && i.opcode() == OPCODE_SYSTEM && i.rs2() == 2 && i.funct7() == 8
                ==> r == VirtualInstruction::Sret
            &&& !is_csr && !(nested && i.opcode() == OPCODE_SYSTEM && i.rs2() == 2 && i.funct7()
                == 8) ==> r == VirtualInstruction::Unsupported
        }),
{
    let instruction = Instruction::new(stval);
    match csr_access_type(&instruction) {
        Some(access) => {
            let csr = instruction.get_funct12();
            let rd = instruction.get_rd();
            let rs1 = instruction.get_rs1();
            if nested && crate::cpu::is_hypervisor_csr(csr) {
                return VirtualInstruction::HypervisorCsr { csr, access, rs1, rd };
            }
            if csr == CSR_TIME_ADDRESS {
                return VirtualInstruction::ReadTime { rd };
            }
            VirtualInstruction::UnsupportedCsr { csr }
        },
        None => {
            if nested && instruction.is_sret() {
                VirtualInstruction::Sret
            } else {
                VirtualInstruction::Unsupported
            }
        },
    }
}

/// Arguments of a guest SBI call: extension, function and `a0..a5`.
pub fn ecall_arguments(registers: &[u64]) -> (r: (usize, usize, [usize; 6]))
    requires
        registers@.len() == 32,
    ensures
        r.0 == registers@[REGISTER_A7 as int] as usize,
        r.1 == registers@[REGISTER_A6 as int] as usize,
        r.2@ == seq![
            registers@[REGISTER_A0 as int] as usize,
            registers@[REGISTER_A1 as int] as usize,
            registers@[REGISTER_A2 as int] as usize,
            registers@[REGISTER_A3 as int] as usize,
            registers@[REGISTER_A4 as int] as usize,
            registers@[REGISTER_A5 as int] as usize,
        ],
{
    let args = [
        registers[REGISTER_A0] as usize,
        registers[REGISTER_A1] as usize,
        registers[REGISTER_A2] as usize,
        registers[REGISTER_A3] as usize,
        registers[REGISTER_A4] as usize,
        registers[REGISTER_A5] as usize,
    ];
    let r = (registers[REGISTER_A7] as usize, registers[REGISTER_A6] as usize, args);
    assert(r.2@ =~= seq![
        registers@[REGISTER_A0 as int] as usize,
        registers@[REGISTER_A1 as int] as usize,
        registers@[REGISTER_A2 as int] as usize,
        registers@[REGISTER_A3 as int] as usize,
        registers@[REGISTER_A4 as int] as usize,
        registers@[REGISTER_A5 as int] as usize,
    ]);
    r
}

/// Hands an SBI result back to the guest in `a0` (error) and `a1` (value).
pub fn apply_sbi_return(registers: &mut [u64], ret: Sbiret)
    requires
        old(registers)@.len() == 32,
    ensures
        final(registers)@ == old(registers)@.update(REGISTER_A0 as int, ret.error).update(
            REGISTER_A1 as int,
            ret.value,
        ),
{
    registers[REGISTER_A0] = ret.error;
    registers[REGISTER_A1] = ret.value;
}

/// Guest-physical address of the console's data register, whose stores by
/// a nested VM are captured into the shared ring.
pub const CONSOLE_TARGET_ADDRESS: usize = 0x1000_0000;
/// Captured bytes after which the guest hypervisor is made to flush them.
pub const CAPTURE_FLUSH_COUNT: usize = 16;

/// What capturing a console store decided: whether the guest hypervisor is
/// to flush the ring now, the count of captured bytes from here on, and the
/// length of the trapped store, by which the guest's pc moves on.
pub struct ConsoleCapture {
    pub flush: bool,
    pub count: usize,
    pub instruction_length: u64,
}

/// A nested VM's store to the console's data register (`scause` a store
/// guest page fault at `CONSOLE_TARGET_ADDRESS`): the low byte of register
/// `rs2` of the trapped store goes to the ring unless it is full, and the
/// count of captured bytes goes up; after more than `CAPTURE_FLUSH_COUNT`
/// bytes, or at a line feed, the guest hypervisor is to flush them and the
/// count starts again at 0. `None` for any other trap, which goes to the
/// guest hypervisor as it is; the ring is then untouched.
pub fn capture_console_store(
    scause: usize,
    stval: usize,
    htinst: u32,
    registers: &[u64],
    ring: &mut ShmRing,
    count: usize,
) -> (r: Option<ConsoleCapture>)
    requires
        registers@.len() == 32,
        count < usize::MAX,
    ensures
        !(scause == E_STORE_AMO_GUEST_PAGE_FAULT && stval == CONSOLE_TARGET_ADDRESS) ==> r is None
            && final(ring)@ == old(ring)@,
        scause == E_STORE_AMO_GUEST_PAGE_FAULT && stval == CONSOLE_TARGET_ADDRESS ==> ({
            let byte = registers@[Instruction(htinst).rs2() as int] as u8;
            let flush = count + 1 > CAPTURE_FLUSH_COUNT || byte == 0x0A;
            &&& r matches Some(c) && c.flush == flush && c.count == (if flush {
                0
            } else {
                count + 1
            }) && c.instruction_length == (if Instruction(htinst).compression()
                == COMPRESSED_INSTRUCTION {
                2u64
            } else {
                4u64
            })
            &&& final(ring)@ == old(ring)@ + (if old(ring)@.len() < BUF_LEN - 1 {
                seq![byte]
            } else {
                Seq::<u8>::empty()
            })
        }),
{
    if scause != E_STORE_AMO_GUEST_PAGE_FAULT || stval != CONSOLE_TARGET_ADDRESS {
        return None;
    }
    let mut instruction = Instruction::new(htinst);
    let rs2 = instruction.get_rs2();
    let byte = registers[rs2] as u8;
    let mut data: Vec<u8> = Vec::new();
    data.push(byte);
    let n = ring.push(data.as_slice());
    proof {
        if n == 1 {
            assert(data@.subrange(0, 1) =~= seq![byte]);
        } else {
            assert(data@.subrange(0, 0) =~= Seq::<u8>::empty());
        }
    }
    let next = count + 1;
    let flush = next > CAPTURE_FLUSH_COUNT || byte == 0x0A;
    let instruction_length: u64 = if instruction.is_compression_instruction() {
        2
    } else {
        4
    };
    Some(ConsoleCapture { flush, count: if flush { 0 } else { next }, instruction_length })
}

/// What the exception handler does with a trap.
#[derive(Clone, Copy, PartialEq, Eq, Structural)]
pub enum ExceptionAction {
    /// The trapping VM is nested and the trap is a guest page fault or an
    /// instruction trap: it goes to its guest hypervisor, running in VM
    /// `parent_vmid`.
    ReflectToParent(usize),
    /// A guest page fault on a load or store: device emulation.
    DataAbort,
    /// An illegal or virtual instruction or an environment call.
    InstructionAbort,
    /// Any other exception, from any VM, which stops the hypervisor.
    Fatal,
}

/// The dispatch of the exception handler by `scause`: a guest page fault
/// on a load or store, or an illegal or virtual instruction or environment
/// call, of a nested VM goes to its guest hypervisor; of any other VM to
/// device or instruction emulation. Any other exception is fatal.
pub fn exception_action(scause: usize, parent_vmid: Option<usize>) -> (r: ExceptionAction)
    ensures
        !is_data_abort_spec(scause) && !is_instruction_abort_spec(scause) ==> r
            == ExceptionAction::Fatal,
        is_data_abort_spec(scause) || is_instruction_abort_spec(scause) ==> (parent_vmid matches Some(
            p,
        ) ==> r == ExceptionAction::ReflectToParent(p)),
        parent_vmid is None && is_data_abort_spec(scause) ==> r == ExceptionAction::DataAbort,
        parent_vmid is None && !is_data_abort_spec(scause) && is_instruction_abort_spec(scause)
            ==> r == ExceptionAction::InstructionAbort,
{
    if !is_data_abort(scause) && !is_instruction_abort(scause) {
        return ExceptionAction::Fatal;
    }
    match parent_vmid {
        Some(p) => ExceptionAction::ReflectToParent(p),
        None => if is_data_abort(scause) {
            ExceptionAction::DataAbort
        } else {
            ExceptionAction::InstructionAbort
        },
    }
}

/// The guest's pc after a handled trap: past the trapped instruction.
pub fn sepc_after(sepc: u64, htinst: u32) -> (r: u64)
    requires
        sepc + 4 <= u64::MAX,
    ensures
        r == sepc + (if htinst != 0 && htinst % 4 == 1 { 2u64 } else { 4u64 }),
{
    sepc + instruction_size(htinst)
}

} // verus!
