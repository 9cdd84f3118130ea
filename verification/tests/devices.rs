use halycon::aplic::{init_aplic, set_aplic_enable, set_plic_delegate, APLIC_ADDR};
use halycon::block::{BlockDevice, BlockDeviceError, MemBlk};
use halycon::cpu::{
    decode_hgatp, disable_intr, enable_intr, enable_timer_intr, disable_timer_intr,
    get_xlen_from_misa, has_hypervisor_extension, hgatp_value, hstatus_effective_privileged,
    is_hypervisor_csr, set_pmp, set_pmp_all_physical_address, start_timer, CSR_HGATP_ADDRESS,
    CSR_HSTATUS_ADDRESS, CSR_TIME_ADDRESS,
};
use halycon::emulate_csr::{emulate_csr, load_hypervisor_context, HypervisorContext, HypervisorCsr};
use halycon::instruction::Instruction;
use halycon::loader::{load_bootloader, load_dtb};
use halycon::plic::{init_plic, set_plic_claim, set_plic_enable, PLIC_ADDR};
use halycon::sbi::{sbi_console_putchar, virtual_sbi, SbiOutcome, Sbiret, SBI_EXT_BASE, SBI_SPECIFICATION_VERSION};
use halycon::trap::{classify_virtual_instruction, exception_action, instruction_size, is_data_abort, sepc_after, ExceptionAction, VirtualInstruction};
use halycon::uart::{emulate_read_ns16550, emulate_write_ns16550, uart_fifo_push, Console, Ns16550, Uart};
use halycon::virtio::{
    RegisterOp, VIRTIO_MMIO_DRIVER_FEATURES, VIRTIO_MMIO_DRIVER_FEATURES_SEL, VIRTIO_MMIO_QUEUE_MAX,
    VIRTIO_MMIO_QUEUE_NUM, VIRTIO_MMIO_DESC_HIGH,
    split_address, Virtio, VirtioMmio, VirtioMmioRegister, QueueNotify, VIRTIO_MMIO_DESC_LOW,
    VIRTIO_MMIO_DEVICE_FEATURES, VIRTIO_MMIO_DEVICE_FEATURES_SEL, VIRTIO_MMIO_DEVICE_LOW,
    VIRTIO_MMIO_QUEUE_NOTIFY, VIRTIO_MMIO_QUEUE_READY, VIRTIO_MMIO_QUEUE_SEL, VIRTIO_MMIO_STATUS,
    VIRTIO_MMIO_VERSION,
};
use halycon::virtio::VRingDesc;
use halycon::virtio_blk::{init_virtio_blk, VirtioBlk, VirtioBlkConfig, VirtioBlkDevice, VirtioBlkReq, VirtioMmioTransport};

#[test]
fn uart_fifo_keeps_arrival_order() {
    let mut u = Uart::new();
    assert_eq!(emulate_read_ns16550(&mut u, 5), Ok(0x60));
    uart_fifo_push(&mut u, b'a');
    uart_fifo_push(&mut u, b'b');
    assert_eq!(emulate_read_ns16550(&mut u, 5), Ok(0x1));
    assert_eq!(emulate_read_ns16550(&mut u, 0), Ok(b'a' as u32));
    assert_eq!(emulate_read_ns16550(&mut u, 0), Ok(b'b' as u32));
    assert_eq!(emulate_read_ns16550(&mut u, 5), Ok(0x60));
    assert_eq!(emulate_read_ns16550(&mut u, 3), Ok(0));
}

#[test]
fn uart_writes_print_characters() {
    assert_eq!(emulate_write_ns16550(0, 'x' as u32), vec!['x' as u32]);
    assert_eq!(emulate_write_ns16550(0, 0x0A), vec![0x0D, 0x0A]);
    assert_eq!(emulate_write_ns16550(0, 0xD800), Vec::<u32>::new());
    assert_eq!(emulate_write_ns16550(1, 'x' as u32), Vec::<u32>::new());
    let port = Ns16550::new();
    assert_eq!(port.write_action(0, 0x41), Some((0x41, false)));
    assert_eq!(port.write_action(0, 0x0A), Some((0x0A, true)));
    assert_eq!(port.write_action(0, 0x11_0000), None);
    assert_eq!(port.write_action(3, 0x1_03), Some((0x03, false)));
    assert_eq!(Console::new().output("ok\n"), b"ok\n".to_vec());
}

#[test]
fn csr_read_after_write() {
    let mut h = HypervisorContext::new();
    let mut regs = [0u64; 32];
    let remap = emulate_csr(&mut h, CSR_HSTATUS_ADDRESS, 5, 0x1234, &mut regs, 99);
    assert!(!remap);
    assert_eq!(regs[5], 0);
    assert_eq!(h.csr.get_csr(CSR_HSTATUS_ADDRESS, 0), 0x1234);
    assert_eq!(h.csr.get_csr(CSR_TIME_ADDRESS, 77), 77);
    let remap = emulate_csr(&mut h, CSR_HGATP_ADDRESS, 6, 0x8000_0000_0008_0000, &mut regs, 0);
    assert!(remap);
    assert_eq!(h.csr.hgatp, 0x8000_0000_0008_0000);
    assert_eq!(h.csr.hstatus, 0x1234);
    let mut c = HypervisorCsr::new();
    c.set_csr(CSR_HSTATUS_ADDRESS, 7);
    let writes = load_hypervisor_context(c);
    assert_eq!(writes.len(), 12);
    assert_eq!(writes[0], (CSR_HSTATUS_ADDRESS, 7));
    assert_eq!(writes[11], (CSR_HGATP_ADDRESS, 0));
}

#[test]
fn cpu_register_values() {
    assert!(is_hypervisor_csr(0x600));
    assert!(is_hypervisor_csr(0xe12));
    assert!(!is_hypervisor_csr(0x100));
    assert_eq!(get_xlen_from_misa(2u64 << 62), 64);
    assert_eq!(get_xlen_from_misa(1u64 << 62), 32);
    assert!(has_hypervisor_extension(1 << 7));
    assert!(!has_hypervisor_extension(1 << 6));
    assert_eq!(hstatus_effective_privileged(0xfff, true), 0xfff & !(1 << 8));
    assert_eq!(hstatus_effective_privileged(0, false), 1 << 8);
    assert_eq!(enable_timer_intr(0), 1 << 5);
    assert_eq!(disable_timer_intr(0xff), 0xff & !(1 << 5));
    assert_eq!(enable_intr(0), 2);
    assert_eq!(disable_intr(3), 1);
    let t = start_timer(100, 50, 0);
    assert_eq!(t.stimecmp, 150);
    assert_eq!(t.sie, 1 << 5);
    let p = set_pmp(0x9000_0000, 0x8000_0000, true, true, false);
    assert_eq!(p.pmpaddr0, 0x2000_0000);
    assert_eq!(p.pmpaddr1, 0x2400_0000);
    assert_eq!(p.pmpcfg0, (0b011 | (1 << 3)) << 8);
    let all = set_pmp_all_physical_address(2u64 << 62, true, true, true).expect("rv64");
    assert_eq!(all.pmpaddr0, (1 << 54) - 1);
    assert_eq!(all.pmpcfg0, 0b111 | (3 << 3));
    assert!(set_pmp_all_physical_address(1u64 << 62, true, true, true).is_none());
    let h = hgatp_value(3, 0x8020_0000);
    assert_eq!(h, (8u64 << 60) | 0x80200);
    assert_eq!(decode_hgatp(h), Ok((0x8020_0000, 3)));
    assert_eq!(decode_hgatp(0), Err(()));
}

#[test]
fn interrupt_controller_stores() {
    assert_eq!(set_aplic_enable(10), (APLIC_ADDR + 0x1e00, 1 << 10));
    assert_eq!(set_aplic_enable(33), (APLIC_ADDR + 0x1e00 + 1, 1 << 1));
    assert_eq!(set_plic_delegate(3), (APLIC_ADDR + 4 + 12, 1 << 10));
    assert_eq!(init_aplic(), vec![(APLIC_ADDR, 0x100), (APLIC_ADDR + 0x1e00, 0x400), (APLIC_ADDR, 1)]);
    assert_eq!(set_plic_enable(1, 10), (PLIC_ADDR + 0x2000 + 128, 1 << 10));
    assert_eq!(set_plic_claim(2, 10), (PLIC_ADDR + 0x200004 + 0x2000, 10));
    assert_eq!(
        init_plic(0),
        vec![(PLIC_ADDR + 0x2000, 0x400), (PLIC_ADDR + 40, 7), (PLIC_ADDR + 0x200000, 0)]
    );
}

#[test]
fn instruction_fields_and_traps() {
    // csrrw x5, hstatus(0x600), x6
    let word: u32 = (0x600 << 20) | (6 << 15) | (1 << 12) | (5 << 7) | 0b1110011;
    let i = Instruction::new(word);
    assert_eq!(i.get_opcode(), 0b1110011);
    assert_eq!(i.get_rd(), 5);
    assert_eq!(i.get_funct3(), 1);
    assert_eq!(i.get_rs1(), 6);
    assert_eq!(i.get_funct12(), 0x600);
    assert!(i.is_csrrw_instruction());
    assert!(!i.is_csrrs_instruction());
    assert!(matches!(
        classify_virtual_instruction(word, true),
        VirtualInstruction::HypervisorCsr { csr: 0x600, rs1: 6, rd: 5, .. }
    ));
    assert!(matches!(classify_virtual_instruction(word, false), VirtualInstruction::UnsupportedCsr { csr: 0x600 }));
    // csrrs x7, time, x0
    let rdtime: u32 = (0xc01 << 20) | (2 << 12) | (7 << 7) | 0b1110011;
    assert!(matches!(classify_virtual_instruction(rdtime, false), VirtualInstruction::ReadTime { rd: 7 }));
    // sret
    assert!(Instruction::new(0x1020_0073).is_sret());
    assert!(matches!(classify_virtual_instruction(0x1020_0073, true), VirtualInstruction::Sret));
    assert_eq!(instruction_size(0), 4);
    assert_eq!(instruction_size(0x4001), 2);
    assert_eq!(instruction_size(0x0003), 4);
    assert!(is_data_abort(21) && is_data_abort(23) && !is_data_abort(20));
}

#[test]
fn sbi_calls() {
    assert!(virtual_sbi(SBI_EXT_BASE, 0, 0, 0, 0, 0, 0, 0) == SbiOutcome::Return(Sbiret { error: 0, value: SBI_SPECIFICATION_VERSION }));
    assert!(virtual_sbi(1, 0, 0x41, 0, 0, 0, 0, 0) == SbiOutcome::Putchar { byte: 0x41, tag_line: false });
    assert!(virtual_sbi(1, 0, 0x0A, 0, 0, 0, 0, 0) == SbiOutcome::Putchar { byte: 0x0A, tag_line: true });
    assert!(virtual_sbi(0x999, 0, 0, 0, 0, 0, 0, 0) == SbiOutcome::Unrecognized);
    let call = sbi_console_putchar(b'z');
    assert_eq!(call.ext, 1);
    assert_eq!(call.args[0], b'z' as usize);
}

#[test]
fn virtio_register_read_after_write() {
    let mut reg = VirtioMmioRegister::new();
    assert!(reg.write_register(VIRTIO_MMIO_STATUS, 0xf).is_none());
    assert_eq!(reg.read_register(VIRTIO_MMIO_STATUS, 2), 0xf);
    assert_eq!(reg.read_register(VIRTIO_MMIO_VERSION, 2), 2);
    assert_eq!(reg.read_register(0x08, 2), 2);
    reg.device_features_low = 0x11;
    reg.device_features_high = 0x22;
    reg.write_register(VIRTIO_MMIO_DEVICE_FEATURES_SEL, 1);
    assert_eq!(reg.read_register(VIRTIO_MMIO_DEVICE_FEATURES, 2), 0x22);
    reg.write_register(VIRTIO_MMIO_QUEUE_SEL, 0);
    reg.write_register(VIRTIO_MMIO_DESC_LOW, 0x8000_0000);
    reg.write_register(VIRTIO_MMIO_DEVICE_LOW, 0x8000_2000);
    assert!(reg.write_register(VIRTIO_MMIO_QUEUE_NOTIFY, 1).is_none());
    assert!(
        reg.write_register(VIRTIO_MMIO_QUEUE_NOTIFY, 0)
            == Some(QueueNotify { desc_address: 0x8000_0000, device_address: 0x8000_2000 })
    );
}

#[test]
fn virtio_pass_through_and_features() {
    let mut v = Virtio::new();
    v.record_device_features(0xaa, 0xbb);
    assert_eq!(v.read(VIRTIO_MMIO_DEVICE_FEATURES, 0x1234), 0xaa);
    assert_eq!(v.read(VIRTIO_MMIO_QUEUE_READY, 0x1234), 0);
    assert_eq!(v.read(0x34, 0x1234), 0x1234);
    assert!(v.write(VIRTIO_MMIO_STATUS, 3).is_none());
    assert_eq!(v.read(VIRTIO_MMIO_STATUS, 0), 3);
    let m = VirtioMmio::new(0x1000_1000);
    assert_eq!(m.get_device_features(0x1, 0x2), 0x2_0000_0001);
    assert_eq!(
        m.set_driver_features(0x2_0000_0001),
        vec![
            RegisterOp::Write(VIRTIO_MMIO_DRIVER_FEATURES_SEL, 0),
            RegisterOp::Write(VIRTIO_MMIO_DRIVER_FEATURES, 1),
            RegisterOp::Write(VIRTIO_MMIO_DRIVER_FEATURES_SEL, 1),
            RegisterOp::Write(VIRTIO_MMIO_DRIVER_FEATURES, 2),
            RegisterOp::Read(VIRTIO_MMIO_STATUS),
            RegisterOp::WriteLastReadWith(VIRTIO_MMIO_STATUS, 8),
        ]
    );
    assert_eq!(
        m.set_driver_ok(),
        vec![RegisterOp::Read(VIRTIO_MMIO_STATUS), RegisterOp::WriteLastReadWith(VIRTIO_MMIO_STATUS, 4)]
    );
    let p = m.device_features_program();
    assert_eq!(p.len(), 8);
    assert_eq!(p[0], RegisterOp::Write(VIRTIO_MMIO_STATUS, 0));
    assert_eq!(p[3], RegisterOp::WriteLastReadWith(VIRTIO_MMIO_STATUS, 2));
    assert_eq!(p[7], RegisterOp::Read(VIRTIO_MMIO_DEVICE_FEATURES));
    assert_eq!(
        m.queue_select_program(3),
        vec![
            RegisterOp::Write(VIRTIO_MMIO_QUEUE_SEL, 3),
            RegisterOp::Read(VIRTIO_MMIO_QUEUE_READY),
            RegisterOp::Read(VIRTIO_MMIO_QUEUE_MAX),
        ]
    );
    let w = m.queue_setup_writes(0x1_2345_6000, 0x8000, 0x9000);
    assert_eq!(w.len(), 8);
    assert_eq!(w[0], RegisterOp::Write(VIRTIO_MMIO_QUEUE_NUM, 64));
    assert_eq!(w[1], RegisterOp::Write(VIRTIO_MMIO_DESC_LOW, 0x2345_6000));
    assert_eq!(w[2], RegisterOp::Write(VIRTIO_MMIO_DESC_HIGH, 1));
    assert_eq!(w[7], RegisterOp::Write(VIRTIO_MMIO_QUEUE_READY, 1));
    assert_eq!(split_address(0x1_2345_6789), (0x2345_6789, 0x1));
    let vq = match m.setup_virt_queue(2, 64) {
        Ok(q) => q,
        Err(_) => panic!("version 2 with a queue"),
    };
    assert!(vq.vring.desc.iter().all(|d| d.addr == 0 && d.len == 0 && d.flags == 0 && d.next == 0));
    assert!(vq.vring.avail.ring.iter().all(|&e| e == 0));
    assert!(vq.vring.used.ring.iter().all(|e| e.id == 0 && e.len == 0));
    assert_eq!((vq.vring.avail.idx, vq.vring.used.idx, vq.last_used_index), (0, 0, 0));
    assert!(m.setup_virt_queue(1, 64).is_err());
    assert!(m.setup_virt_queue(2, 0).is_err());
}

#[test]
fn virtio_block_status_handshake() {
    assert_eq!(
        init_virtio_blk(),
        vec![
            RegisterOp::Write(VIRTIO_MMIO_STATUS, 0),
            RegisterOp::Write(VIRTIO_MMIO_STATUS, 1),
            RegisterOp::Read(VIRTIO_MMIO_STATUS),
            RegisterOp::WriteLastReadWith(VIRTIO_MMIO_STATUS, 2),
            RegisterOp::Read(VIRTIO_MMIO_STATUS),
            RegisterOp::WriteLastReadWith(VIRTIO_MMIO_STATUS, 8),
            RegisterOp::Read(VIRTIO_MMIO_STATUS),
            RegisterOp::WriteLastReadWith(VIRTIO_MMIO_STATUS, 4),
        ]
    );
}

#[test]
fn virtio_block_requests() {
    let mut blk = match VirtioBlk::new(VirtioMmio::new(0x1000_1000), 2, 64) {
        Ok(b) => b,
        Err(_) => panic!("queue"),
    };
    let notify = blk.prepare_request(0x9000, 0xa000, 2, false);
    assert_eq!(notify, (VIRTIO_MMIO_QUEUE_NOTIFY, 0));
    let d = blk.queue.vring.desc;
    assert_eq!((d[0].addr, d[0].len, d[0].flags, d[0].next), (0x9000, 16, 1, 1));
    assert_eq!((d[1].addr, d[1].len, d[1].flags, d[1].next), (0xa000, 1024, 3, 2));
    assert_eq!((d[2].addr, d[2].len, d[2].flags, d[2].next), (0x9000 + 24, 1, 2, 0));
    assert_eq!(blk.queue.vring.avail.idx, 1);
    assert_eq!(blk.queue.vring.avail.ring[0], 0);
    assert!(blk.is_request_done(1));
    assert!(VirtioBlk::request_status(0).is_ok());
    assert!(VirtioBlk::request_status(1) == Err(BlockDeviceError::IOError));
    assert!(VirtioBlk::request_status(2) == Err(BlockDeviceError::UnsupportedDevice));
}

#[test]
fn virtio_block_config_and_transport() {
    let mut c = VirtioBlkConfig::new();
    c.capacity = 0x0102_0304_0506_0708;
    c.size_max = 0x1111_2222;
    assert_eq!(c.read_as_bytes(0), 0x0506_0708);
    assert_eq!(c.read_as_bytes(4), 0x0102_0304);
    assert_eq!(c.read_as_bytes(2), 0x0304_0506);
    assert_eq!(c.read_as_bytes(8), 0x1111_2222);
    assert_eq!(c.read_as_bytes(15), 0);
    assert_eq!(c.read_as_bytes(16), 0);
    let dev = VirtioBlkDevice::new(MemBlk { data: vec![0u8; 4096] });
    assert_eq!(dev.config.capacity, 8);
    assert_eq!(dev.read_config(0), 8);
    let mut t = VirtioMmioTransport::new(dev);
    assert_eq!(t.read(0x08), 2);
    assert_eq!(t.read(VIRTIO_MMIO_VERSION), 2);
    assert!(t.write(VIRTIO_MMIO_STATUS, 7).is_none());
    assert_eq!(t.read(VIRTIO_MMIO_STATUS), 7);
}

#[test]
fn loader_copies_the_disk() {
    let disk: Vec<u8> = (0..2048u32).map(|i| (i % 253) as u8).collect();
    let mut dev = MemBlk { data: disk.clone() };
    let mut memory = vec![0xEEu8; 3000];
    assert_eq!(load_bootloader(&mut dev, &mut memory), 2048);
    assert_eq!(&memory[..2048], &disk[..]);
    assert_eq!(&memory[2048..], &[0xEEu8; 952][..]);
    let mut memory2 = vec![0u8; 2048];
    load_dtb(&mut dev, &mut memory2);
    assert_eq!(memory2, disk);
}

#[test]
fn virtio_block_notify_serves_reads() {
    let mut disk = vec![0u8; 4096];
    for (i, b) in disk.iter_mut().enumerate() {
        *b = (i / 512) as u8 + 1;
    }
    let mut dev = VirtioBlkDevice::new(MemBlk { data: disk });
    let mut ring = [VRingDesc::new(); 64];
    ring[1].len = 1024;
    ring[1].flags = 2 | 1;
    let req = VirtioBlkReq::new(3, false);
    let mut data = vec![0u8; 1024];
    assert_eq!(dev.notify(&ring, &req, &mut data), 0);
    assert!(data[..512].iter().all(|b| *b == 4));
    assert!(data[512..].iter().all(|b| *b == 5));
    // A buffer the device may not write is left alone.
    ring[1].flags = 1;
    let mut untouched = vec![9u8; 1024];
    assert_eq!(dev.notify(&ring, &req, &mut untouched), 0);
    assert!(untouched.iter().all(|b| *b == 9));
}

#[test]
fn mem_blk_refuses_only_past_the_end() {
    let mut dev = MemBlk { data: vec![7u8; 1024] };
    let mut buf = vec![1u8; 1024];
    assert_eq!(dev.read_write_disk(&mut buf, 1, 2, false), Err(BlockDeviceError::IOError));
    assert!(buf.iter().all(|b| *b == 1));
    assert_eq!(dev.read_write_disk(&mut buf, 0, 2, false), Ok(()));
    assert!(buf.iter().all(|b| *b == 7));
    assert_eq!(dev.read_write_disk(&mut buf, 2, 0, false), Ok(()));
}

#[test]
fn exception_dispatch() {
    assert!(exception_action(21, Some(3)) == ExceptionAction::ReflectToParent(3));
    assert!(exception_action(21, None) == ExceptionAction::DataAbort);
    assert!(exception_action(23, None) == ExceptionAction::DataAbort);
    assert!(exception_action(22, None) == ExceptionAction::InstructionAbort);
    assert!(exception_action(10, None) == ExceptionAction::InstructionAbort);
    assert!(exception_action(5, None) == ExceptionAction::Fatal);
    assert!(exception_action(23, Some(3)) == ExceptionAction::ReflectToParent(3));
    assert!(exception_action(22, Some(3)) == ExceptionAction::ReflectToParent(3));
    assert!(exception_action(5, Some(3)) == ExceptionAction::Fatal);
    assert!(exception_action(1, Some(0)) == ExceptionAction::Fatal);
    assert_eq!(sepc_after(0x8000_0000, 0x0000_0013), 0x8000_0004);
    assert_eq!(sepc_after(0x8000_0000, 0x0000_4501), 0x8000_0002);
    assert_eq!(sepc_after(0x8000_0000, 0), 0x8000_0004);
}
