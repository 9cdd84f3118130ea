use vstd::prelude::*;
use crate::cpu::{CSR_HGATP_ADDRESS, HSTATUS_SPV, hgatp_value, hgatp_mode};
use crate::emulate_csr::{HypervisorCsr, HypervisorContext, emulate_csr, is_writable_csr};
use crate::mmio::MmioEntry;
use crate::allocator::{Heap, allocate_pages, alloc_pages_spec};
use crate::paging::{
    map_address_stage2, resolve_address_stage2, map_spec, walk, permission_bits, DEFAULT_TABLE_LEVEL,
};

verus! {

/// Virtual supervisor CSRs saved while a VM is switched out.
#[derive(Clone, Copy)]
pub struct Csr {
    pub stvec: u64,
    pub sepc: u64,
    pub sstatus: u64,
    pub scause: u64,
    pub stval: u64,
    pub satp: u64,
}

impl Csr {
    pub fn new() -> (r: Self)
        ensures
            r.stvec == 0 && r.sepc == 0 && r.sstatus == 0 && r.scause == 0 && r.stval == 0
                && r.satp == 0,
    {
        Csr { stvec: 0, sepc: 0, sstatus: 0, scause: 0, stval: 0, satp: 0 }
    }
}

/// A virtual machine, possibly nested inside the VM of a guest hypervisor.
pub struct VM {
    pub vmid: usize,
    pub page_table_address: usize,
    pub ram_virtual_base_address: usize,
    pub ram_physical_base_address: usize,
    pub ram_size: usize,
    pub entry_point: usize,
    pub dtb_pointer: usize,
    pub mmio: Vec<MmioEntry>,
    pub vcsr: Csr,
    pub parent_vmid: Option<usize>,
    pub hypervisor: Option<HypervisorContext>,
}

impl VM {
    pub fn new(
        vmid: usize,
        page_table_address: usize,
        ram_virtual_base_address: usize,
        ram_physical_base_address: usize,
        ram_size: usize,
        entry_point: usize,
        dtb_pointer: usize,
        mmio: Vec<MmioEntry>,
        parent_vmid: Option<usize>,
    ) -> (r: Self)
        ensures
            r.vmid == vmid,
            r.page_table_address == page_table_address,
            r.ram_virtual_base_address == ram_virtual_base_address,
            r.ram_physical_base_address == ram_physical_base_address,
            r.ram_size == ram_size,
            r.entry_point == entry_point,
            r.dtb_pointer == dtb_pointer,
            r.mmio@ == mmio@,
            r.vcsr == (Csr { stvec: 0, sepc: 0, sstatus: 0, scause: 0, stval: 0, satp: 0 }),
            r.parent_vmid == parent_vmid,
            r.hypervisor is None,
    {
        VM {
            vmid,
            page_table_address,
            ram_virtual_base_address,
            ram_physical_base_address,
            ram_size,
            entry_point,
            dtb_pointer,
            mmio,
            vcsr: Csr::new(),
            parent_vmid,
            hypervisor: None,
        }
    }

    pub fn get_entry_point(&self) -> (r: usize)
        ensures
            r == self.entry_point,
    {
        self.entry_point
    }

    pub fn get_dtb_pointer(&self) -> (r: usize)
        ensures
            r == self.dtb_pointer,
    {
        self.dtb_pointer
    }
}

/// Guest-physical base of a VM's RAM.
pub const RAM_VIRTUAL_BASE: usize = 0x8000_0000;
/// Bytes of RAM a VM gets.
pub const RAM_SIZE: usize = 0x2000_0000;
/// Guest-physical address where the bootloader starts.
pub const VIRTUAL_ENTRY_POINT: usize = 0x8020_0000;

/// A new VM's memory once its RAM is mapped: where the RAM lies, the top
/// table of its G-stage mapping and the `hgatp` value that selects it, and
/// the host-physical address of its entry point.
pub struct VmMemory {
    pub ram_physical_base: usize,
    pub table_address: usize,
    pub hgatp: u64,
    pub entry_physical: usize,
}

impl VmMemory {
    /// Where the device tree goes: right after a bootloader of
    /// `bootloader_size` bytes at the start of the RAM.
    pub fn dtb_physical(&self, bootloader_size: usize) -> (r: usize)
        requires
            self.ram_physical_base + bootloader_size <= usize::MAX,
        ensures
            r == self.ram_physical_base + bootloader_size,
    {
        self.ram_physical_base + bootloader_size
    }
}

/// Takes a VM's RAM from `heap` and maps it with read, write and execute
/// permission from `RAM_VIRTUAL_BASE` on, with tables from `heap` in the
/// memory `mem` that starts at `base`; then finds where the entry point
/// lies. A failed RAM allocation leaves address 0 as the RAM's base, which
/// is mapped all the same. `Err` when the RAM would end past the address
/// space, when the mapping fails, or when the entry point does not resolve.
pub fn prepare_vm_memory<const ORDER: usize>(heap: &mut Heap<ORDER>, mem: &mut Vec<u64>, base: usize) -> (r:
    Result<VmMemory, ()>)
    requires
        old(heap).wf(),
        usize::BITS == 64,
    ensures
        final(heap).wf(),
        ({
            let ram = alloc_pages_spec(old(heap)@, (RAM_SIZE / 4096) as nat, 4096).0;
            let h1 = alloc_pages_spec(old(heap)@, (RAM_SIZE / 4096) as nat, 4096).1;
            let mapped = map_spec(
                old(mem)@,
                h1,
                base as nat,
                ram,
                RAM_VIRTUAL_BASE,
                RAM_SIZE,
                DEFAULT_TABLE_LEVEL as int,
                permission_bits(true, true, true),
            );
            &&& ram + RAM_SIZE > usize::MAX ==> r is Err && final(mem)@ == old(mem)@
            &&& ram + RAM_SIZE <= usize::MAX ==> match mapped {
                None => r is Err,
                Some((t, st)) => {
                    let hgatp = hgatp_mode(DEFAULT_TABLE_LEVEL) * 0x1000_0000_0000_0000 + (t as nat
                        / 4096) % 0x1000_0000_0000;
                    let w = walk(
                        st.mem,
                        base as nat,
                        VIRTUAL_ENTRY_POINT,
                        ((hgatp % 0x1000_0000_0000) * 4096) as nat,
                        (hgatp / 0x1000_0000_0000_0000 - 6) as usize,
                        2048,
                    );
                    &&& final(mem)@ == st.mem
                    &&& final(heap)@ == st.heap
                    &&& w is Err ==> r is Err
                    &&& r matches Ok(m) ==> m.ram_physical_base == ram && m.table_address == t
                        && m.hgatp == hgatp && w == Ok::<nat, ()>(m.entry_physical as nat)
                    &&& w is Ok ==> r is Ok
                },
            }
        }),
{
    let ram = allocate_pages(heap, RAM_SIZE / 4096, 4096);
    if ram > usize::MAX - RAM_SIZE {
        return Err(());
    }
    let table_address = match map_address_stage2(
        heap,
        mem,
        base,
        ram,
        RAM_VIRTUAL_BASE,
        RAM_SIZE,
        DEFAULT_TABLE_LEVEL,
        true,
        true,
        true,
    ) {
        Ok(t) => t,
        Err(()) => {
            return Err(());
        },
    };
    let hgatp = hgatp_value(DEFAULT_TABLE_LEVEL, table_address);
    let ghost x = (table_address as nat / 4096) % 0x1000_0000_0000;
    proof {
        vstd::arithmetic::div_mod::lemma_fundamental_div_mod_converse(
            hgatp as int,
            0x1000_0000_0000_0000,
            9,
            x as int,
        );
    }
    match resolve_address_stage2(hgatp, VIRTUAL_ENTRY_POINT, mem.as_slice(), base) {
        Ok(entry_physical) => Ok(VmMemory { ram_physical_base: ram, table_address, hgatp, entry_physical }),
        Err(()) => Err(()),
    }
}

/// Records a VM whose RAM `memory` is mapped and holds a bootloader of
/// `bootloader_size` bytes followed by its device tree; its id is the next
/// free index.
pub fn create_vm(
    vms: &mut Vec<VM>,
    memory: &VmMemory,
    bootloader_size: usize,
    mmio: Vec<MmioEntry>,
    parent_vmid: Option<usize>,
) -> (vmid: usize)
    requires
        bootloader_size <= RAM_SIZE,
    ensures
        vmid == old(vms)@.len(),
        final(vms)@.len() == old(vms)@.len() + 1,
        forall|i: int| 0 <= i < old(vms)@.len() ==> final(vms)@[i] == old(vms)@[i],
        ({
            let vm = final(vms)@[vmid as int];
            &&& vm.vmid == vmid
            &&& vm.page_table_address == memory.table_address
            &&& vm.ram_virtual_base_address == RAM_VIRTUAL_BASE
            &&& vm.ram_physical_base_address == memory.ram_physical_base
            &&& vm.ram_size == RAM_SIZE
            &&& vm.entry_point == VIRTUAL_ENTRY_POINT
            &&& vm.dtb_pointer == RAM_VIRTUAL_BASE + bootloader_size
            &&& vm.mmio@ == mmio@
            &&& vm.parent_vmid == parent_vmid
            &&& vm.hypervisor is None
            &&& vm.vcsr == (Csr { stvec: 0, sepc: 0, sstatus: 0, scause: 0, stval: 0, satp: 0 })
        }),
        vms_ok(old(vms)@) ==> vms_ok(final(vms)@),
{
    let vmid = vms.len();
    let vm = VM::new(
        vmid,
        memory.table_address,
        RAM_VIRTUAL_BASE,
        memory.ram_physical_base,
        RAM_SIZE,
        VIRTUAL_ENTRY_POINT,
        RAM_VIRTUAL_BASE + bootloader_size,
        mmio,
        parent_vmid,
    );
    vms.push(vm);
    vmid
}

/// Every guest hypervisor's nested VM exists.
pub open spec fn vms_ok(vms: Seq<VM>) -> bool {
    forall|i: int|
        0 <= i < vms.len() && (#[trigger] vms[i].hypervisor) is Some ==> vms[i].hypervisor->0.vmid
            < vms.len()
}

/// `vm` is the empty VM with id `vmid` nested under `parent_vmid`: no RAM,
/// no page table, no devices, zeroed virtual CSRs and no guest hypervisor.
pub open spec fn fresh_nested_vm(vm: VM, vmid: int, parent_vmid: usize) -> bool {
    &&& vm.vmid == vmid
    &&& vm.parent_vmid == Some(parent_vmid)
    &&& vm.hypervisor is None
    &&& vm.mmio@.len() == 0
    &&& vm.page_table_address == 0
    &&& vm.entry_point == 0
    &&& vm.ram_virtual_base_address == 0
    &&& vm.ram_physical_base_address == 0
    &&& vm.ram_size == 0
    &&& vm.dtb_pointer == 0
    &&& vm.vcsr == (Csr { stvec: 0, sepc: 0, sstatus: 0, scause: 0, stval: 0, satp: 0 })
}

/// `after` is `before` with one fresh VM nested under `parent_vmid`
/// appended; every earlier VM is unchanged.
pub open spec fn nested_vm_appended(before: Seq<VM>, after: Seq<VM>, parent_vmid: usize) -> bool {
    &&& after.len() == before.len() + 1
    &&& forall|i: int| 0 <= i < before.len() ==> after[i] == before[i]
    &&& fresh_nested_vm(after[before.len() as int], before.len() as int, parent_vmid)
}

/// Adds an empty VM nested under `parent_vmid` and returns its id, the
/// next free index.
pub fn create_l2_vm(parent_vmid: usize, vms: &mut Vec<VM>) -> (new_vmid: usize)
    ensures
        vms_ok(old(vms)@) ==> vms_ok(final(vms)@),
        new_vmid == old(vms)@.len(),
        nested_vm_appended(old(vms)@, final(vms)@, parent_vmid),
{
    let new_vmid = vms.len();
    let l2_vm = VM::new(new_vmid, 0, 0, 0, 0, 0, 0, Vec::new(), Some(parent_vmid));
    vms.push(l2_vm);
    new_vmid
}

/// Saves the virtual supervisor CSRs `saved` of the running VM and makes
/// `vmid` the running one.
pub fn switch_vm_context(vmid: usize, current_vmid: &mut usize, vms: &mut Vec<VM>, saved: Csr)
    requires
        *old(current_vmid) < old(vms)@.len(),
    ensures
        vms_ok(old(vms)@) ==> vms_ok(final(vms)@),
        *final(current_vmid) == vmid,
        final(vms)@.len() == old(vms)@.len(),
        final(vms)@[*old(current_vmid) as int].vcsr == saved,
        final(vms)@[*old(current_vmid) as int].hypervisor == old(vms)@[*old(
            current_vmid,
        ) as int].hypervisor,
        final(vms)@[*old(current_vmid) as int].page_table_address == old(vms)@[*old(
            current_vmid,
        ) as int].page_table_address,
        forall|i: int|
            0 <= i < old(vms)@.len() && i != *old(current_vmid) ==> final(vms)@[i] == old(
                vms,
            )@[i],
{
    let c = *current_vmid;
    vms[c].vcsr = saved;
    *current_vmid = vmid;
}

/// Kind of a trapped CSR access instruction.
#[derive(Clone, Copy, PartialEq, Eq)]
pub enum CsrAccessInstructionType {
    CSRRW,
    CSRRS,
}

/// The guest hypervisor of VM `vmid`, created along with its nested VM on
/// first use.
pub fn hypervisor_of(current_vmid: usize, vms: &mut Vec<VM>) -> (r: HypervisorContext)
    requires
        current_vmid < old(vms)@.len(),
        vms_ok(old(vms)@),
    ensures
        vms_ok(final(vms)@),
        old(vms)@[current_vmid as int].hypervisor matches Some(h) ==> r == h && final(vms)@
            == old(vms)@,
        old(vms)@[current_vmid as int].hypervisor is None ==> r.csr == HypervisorCsr::zeroed()
            && r.vmid == old(vms)@.len() && nested_vm_appended(old(vms)@, final(vms)@, current_vmid),
        r.vmid < final(vms)@.len(),
{
    match vms[current_vmid].hypervisor {
        Some(context) => context,
        None => {
            let vmid = create_l2_vm(current_vmid, vms);
            HypervisorContext { csr: HypervisorCsr::new(), vmid }
        },
    }
}

/// Emulates a guest hypervisor's access to one of its hypervisor CSRs:
/// `csrrw` writes register `src`, `csrrs` sets its bits; register `dst`
/// receives the old value. Returns the updated guest hypervisor and whether
/// its `hgatp` changed, so that the shadow G-stage table has to be rebuilt
/// before [`commit_hypervisor_csr_access`].
pub fn hypervisor_csr_access(
    registers: &mut [u64],
    current_vmid: usize,
    vms: &mut Vec<VM>,
    csr_address: usize,
    access_type: CsrAccessInstructionType,
    src: usize,
    dst: usize,
    time: u64,
) -> (r: (HypervisorContext, bool))
    requires
        current_vmid < old(vms)@.len(),
        vms_ok(old(vms)@),
        is_writable_csr(csr_address),
        src < old(registers)@.len(),
        dst < old(registers)@.len(),
    ensures
        ({
            let (h, remap) = r;
            let h0 = if old(vms)@[current_vmid as int].hypervisor is Some {
                old(vms)@[current_vmid as int].hypervisor->0.csr
            } else {
                HypervisorCsr::zeroed()
            };
            let wv = if access_type == CsrAccessInstructionType::CSRRW {
                old(registers)@[src as int]
            } else {
                h0.value_of(csr_address, time) | old(registers)@[src as int]
            };
            &&& h.csr == h0.written(csr_address, wv)
            &&& final(registers)@ == old(registers)@.update(
                dst as int,
                h0.value_of(csr_address, time),
            )
            &&& remap == (csr_address == CSR_HGATP_ADDRESS)
            &&& vms_ok(final(vms)@)
            &&& h.vmid < final(vms)@.len()
            &&& old(vms)@[current_vmid as int].hypervisor matches Some(c) ==> h.vmid == c.vmid
                && final(vms)@ == old(vms)@
            &&& old(vms)@[current_vmid as int].hypervisor is None ==> h.vmid == old(vms)@.len()
                && nested_vm_appended(old(vms)@, final(vms)@, current_vmid)
        }),
{
    let mut l1_hypervisor = hypervisor_of(current_vmid, vms);
    let write_value = match access_type {
        CsrAccessInstructionType::CSRRW => registers[src],
        CsrAccessInstructionType::CSRRS => {
            let reg_value = registers[src];
            let csr_value = l1_hypervisor.csr.get_csr(csr_address, time);
            csr_value | reg_value
        },
    };
    let remap = emulate_csr(&mut l1_hypervisor, csr_address, dst, write_value, registers, time);
    (l1_hypervisor, remap)
}

/// `vms` once a guest hypervisor CSR access is committed: the nested VM of
/// `h` gets the rebuilt shadow table when there is one, then VM `current`
/// gets `h` as its guest hypervisor. Nothing else changes.
pub open spec fn committed_vms(
    vms: Seq<VM>,
    current: usize,
    h: HypervisorContext,
    shadow: Option<Result<usize, ()>>,
) -> Seq<VM> {
    let with_table = match shadow {
        Some(Ok(t)) => vms.update(h.vmid as int, VM { page_table_address: t, ..vms[h.vmid as int] }),
        _ => vms,
    };
    with_table.update(current as int, VM { hypervisor: Some(h), ..with_table[current as int] })
}

/// Second half of a guest hypervisor CSR access: records the rebuilt shadow
/// table (`shadow`, when `hgatp` changed) in the nested VM and stores the
/// guest hypervisor back into its VM. A failed rebuild leaves the VMs as
/// they were.
pub fn commit_hypervisor_csr_access(
    vms: &mut Vec<VM>,
    current_vmid: usize,
    l1_hypervisor: HypervisorContext,
    shadow: Option<Result<usize, ()>>,
)
    requires
        current_vmid < old(vms)@.len(),
        l1_hypervisor.vmid < old(vms)@.len(),
        vms_ok(old(vms)@),
    ensures
        vms_ok(final(vms)@),
        final(vms)@.len() == old(vms)@.len(),
        shadow matches Some(Err(_)) ==> final(vms)@ == old(vms)@,
        !(shadow matches Some(Err(_))) ==> final(vms)@ == committed_vms(
            old(vms)@,
            current_vmid,
            l1_hypervisor,
            shadow,
        ),
        !(shadow matches Some(Err(_))) ==> final(vms)@[current_vmid as int].hypervisor == Some(
            l1_hypervisor,
        ),
        shadow matches Some(Ok(t)) ==> final(vms)@[l1_hypervisor.vmid as int].page_table_address
            == t,
{
    match shadow {
        Some(Ok(table_address)) => {
            vms[l1_hypervisor.vmid].page_table_address = table_address;
        },
        Some(Err(_)) => {
            return ;
        },
        None => {},
    }
    vms[current_vmid].hypervisor = Some(l1_hypervisor);
}

/// What the host has to do to enter a guest hypervisor's nested VM on its
/// `sret`: the guest hypervisor, the nested VM and the `hgatp` value that
/// selects its G-stage table.
pub struct L2Entry {
    pub hypervisor: HypervisorContext,
    pub l2_vmid: usize,
    pub hgatp: u64,
}

/// Decides the switch from a guest hypervisor into its nested VM. The guest
/// hypervisor must have set `hstatus.SPV`; otherwise the `sret` is invalid.
pub fn l1_to_l2(current_vmid: usize, vms: &mut Vec<VM>, table_level: i8) -> (r: Result<L2Entry, ()>)
    requires
        current_vmid < old(vms)@.len(),
        vms_ok(old(vms)@),
        3 <= table_level <= 5,
    ensures
        vms_ok(final(vms)@),
        old(vms)@[current_vmid as int].hypervisor matches Some(h) ==> final(vms)@ == old(vms)@,
        old(vms)@[current_vmid as int].hypervisor matches Some(h) ==> (h.csr.hstatus
            & HSTATUS_SPV == 0 <==> r is Err),
        old(vms)@[current_vmid as int].hypervisor matches Some(h) ==> (r matches Ok(e) ==> e.hypervisor
            == h && e.l2_vmid == h.vmid && e.hgatp == hgatp_mode(table_level)
            * 0x1000_0000_0000_0000 + (old(vms)@[h.vmid as int].page_table_address as nat / 4096)
            % 0x1000_0000_0000),
        old(vms)@[current_vmid as int].hypervisor is None ==> r is Err && nested_vm_appended(
            old(vms)@,
            final(vms)@,
            current_vmid,
        ),
{
    let l1_hypervisor = hypervisor_of(current_vmid, vms);
    proof {
        assert(0u64 & HSTATUS_SPV == 0) by (bit_vector);
    }
    if l1_hypervisor.csr.hstatus & HSTATUS_SPV == 0 {
        return Err(());
    }
    let l2_vmid = l1_hypervisor.vmid;
    let table_address = vms[l2_vmid].page_table_address;
    let hgatp = hgatp_value(table_level, table_address);
    Ok(L2Entry { hypervisor: l1_hypervisor, l2_vmid, hgatp })
}

/// Records in the guest hypervisor of VM `parent_vmid` the trap details of
/// an exception reflected from its nested VM.
pub fn reflect_to_l1(vms: &mut Vec<VM>, parent_vmid: usize, htinst: u64, htval: u64)
    requires
        parent_vmid < old(vms)@.len(),
        old(vms)@[parent_vmid as int].hypervisor is Some,
    ensures
        vms_ok(old(vms)@) ==> vms_ok(final(vms)@),
        final(vms)@.len() == old(vms)@.len(),
        final(vms)@[parent_vmid as int].hypervisor matches Some(h) && h.csr == (HypervisorCsr {
            htinst: htinst,
            htval: htval,
            ..old(vms)@[parent_vmid as int].hypervisor->0.csr
        }) && h.vmid == old(vms)@[parent_vmid as int].hypervisor->0.vmid,
        forall|i: int| 0 <= i < old(vms)@.len() && i != parent_vmid ==> final(vms)@[i] == old(
            vms,
        )@[i],
{
    let mut h = vms[parent_vmid].hypervisor.unwrap();
    h.csr.htinst = htinst;
    h.csr.htval = htval;
    vms[parent_vmid].hypervisor = Some(h);
}

} // verus!
