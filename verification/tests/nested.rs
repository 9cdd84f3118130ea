use halycon::cpu::{hgatp_value, CSR_HGATP_ADDRESS, CSR_HSTATUS_ADDRESS, HSTATUS_SPV};
use halycon::vm::{
    commit_hypervisor_csr_access, create_l2_vm, hypervisor_csr_access, l1_to_l2,
    CsrAccessInstructionType, VM,
};

fn one_vm() -> Vec<VM> {
    vec![VM::new(0, 0x9000_0000, 0x8000_0000, 0x9000_0000, 0x1000, 0x8020_0000, 0x8030_0000, Vec::new(), None)]
}

#[test]
fn first_hypervisor_csr_access_nests_a_vm() {
    let mut vms = one_vm();
    let mut regs = [0u64; 32];
    regs[5] = HSTATUS_SPV;
    let (h, remap) = hypervisor_csr_access(
        &mut regs,
        0,
        &mut vms,
        CSR_HSTATUS_ADDRESS,
        CsrAccessInstructionType::CSRRW,
        5,
        6,
        0,
    );
    assert!(!remap);
    assert_eq!(h.vmid, 1);
    assert_eq!(h.csr.hstatus, HSTATUS_SPV);
    assert_eq!(regs[6], 0);
    assert_eq!(vms.len(), 2);
    assert_eq!(vms[1].vmid, 1);
    assert_eq!(vms[1].parent_vmid, Some(0));
    assert_eq!(vms[1].page_table_address, 0);
    assert!(vms[1].hypervisor.is_none());
    assert!(vms[0].hypervisor.is_none());
    assert_eq!(vms[0].entry_point, 0x8020_0000);

    commit_hypervisor_csr_access(&mut vms, 0, h, None);
    assert_eq!(vms.len(), 2);
    assert_eq!(vms[0].hypervisor.map(|c| c.vmid), Some(1));
    assert_eq!(vms[0].hypervisor.map(|c| c.csr.hstatus), Some(HSTATUS_SPV));
    assert_eq!(vms[0].entry_point, 0x8020_0000);
    assert_eq!(vms[0].page_table_address, 0x9000_0000);

    // csrrs sets bits on top of the stored value; the stored guest
    // hypervisor is reused, no further VM is made.
    regs[7] = 0x2;
    let (h2, _) = hypervisor_csr_access(
        &mut regs,
        0,
        &mut vms,
        CSR_HSTATUS_ADDRESS,
        CsrAccessInstructionType::CSRRS,
        7,
        8,
        0,
    );
    assert_eq!(vms.len(), 2);
    assert_eq!(h2.vmid, 1);
    assert_eq!(regs[8], HSTATUS_SPV);
    assert_eq!(h2.csr.hstatus, HSTATUS_SPV | 0x2);
}

#[test]
fn shadow_table_is_recorded_in_the_nested_vm() {
    let mut vms = one_vm();
    let mut regs = [0u64; 32];
    regs[1] = 0x1234;
    let (h, remap) = hypervisor_csr_access(
        &mut regs,
        0,
        &mut vms,
        CSR_HGATP_ADDRESS,
        CsrAccessInstructionType::CSRRW,
        1,
        2,
        0,
    );
    assert!(remap);
    // a failed rebuild leaves every VM as it was
    commit_hypervisor_csr_access(&mut vms, 0, h, Some(Err(())));
    assert!(vms[0].hypervisor.is_none());
    assert_eq!(vms[1].page_table_address, 0);
    commit_hypervisor_csr_access(&mut vms, 0, h, Some(Ok(0x8040_0000)));
    assert_eq!(vms[1].page_table_address, 0x8040_0000);
    assert_eq!(vms[0].page_table_address, 0x9000_0000);
    assert_eq!(vms[0].hypervisor.map(|c| c.csr.hgatp), Some(0x1234));
}

#[test]
fn sret_enters_the_nested_vm_only_with_spv() {
    let mut vms = one_vm();
    // no guest hypervisor yet: refused, and an empty nested VM is added
    assert!(l1_to_l2(0, &mut vms, 3).is_err());
    assert_eq!(vms.len(), 2);
    assert_eq!(vms[1].parent_vmid, Some(0));

    let mut regs = [0u64; 32];
    let (h, _) = hypervisor_csr_access(
        &mut regs,
        0,
        &mut vms,
        CSR_HSTATUS_ADDRESS,
        CsrAccessInstructionType::CSRRW,
        0,
        3,
        0,
    );
    assert_eq!(h.vmid, 2);
    commit_hypervisor_csr_access(&mut vms, 0, h, None);
    // hstatus.SPV clear: refused, nothing changes
    assert!(l1_to_l2(0, &mut vms, 3).is_err());
    assert_eq!(vms.len(), 3);

    regs[4] = HSTATUS_SPV;
    let (h, _) = hypervisor_csr_access(
        &mut regs,
        0,
        &mut vms,
        CSR_HSTATUS_ADDRESS,
        CsrAccessInstructionType::CSRRW,
        4,
        3,
        0,
    );
    commit_hypervisor_csr_access(&mut vms, 0, h, None);
    vms[2].page_table_address = 0x8060_0000;
    let e = match l1_to_l2(0, &mut vms, 3) {
        Ok(e) => e,
        Err(()) => panic!("SPV is set"),
    };
    assert_eq!(e.l2_vmid, 2);
    assert_eq!(e.hypervisor.vmid, 2);
    assert_eq!(e.hgatp, hgatp_value(3, 0x8060_0000));
    assert_eq!(e.hgatp, (8u64 << 60) | 0x80600);
    assert_eq!(vms.len(), 3);
}

#[test]
fn nested_vm_starts_empty() {
    let mut vms = one_vm();
    assert_eq!(create_l2_vm(0, &mut vms), 1);
    let vm = &vms[1];
    assert_eq!(vm.vmid, 1);
    assert_eq!(vm.parent_vmid, Some(0));
    assert_eq!(vm.ram_size, 0);
    assert_eq!(vm.entry_point, 0);
    assert_eq!(vm.vcsr.sepc, 0);
    assert!(vm.mmio.is_empty());
    assert_eq!(vms[0].entry_point, 0x8020_0000);
}
