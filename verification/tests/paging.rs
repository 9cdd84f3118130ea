use halycon::allocator::Heap;
use halycon::cpu::hgatp_value;
use halycon::paging::{map_address_stage2, resolve_address_stage2, DEFAULT_TABLE_LEVEL};
use halycon::virtio::QueueNotify;
use halycon::virtio_blk::{next_used_idx, resolve_notify};
use halycon::vm::{create_vm, prepare_vm_memory, VM, RAM_SIZE, RAM_VIRTUAL_BASE, VIRTUAL_ENTRY_POINT};

const BASE: usize = 0x8000_0000;
const WINDOW: usize = 0x10_0000;

fn fresh() -> (Heap<32>, Vec<u64>) {
    let mut heap: Heap<32> = Heap::new();
    heap.init(BASE, WINDOW);
    (heap, vec![0u64; WINDOW / 8])
}

#[test]
fn mapped_pages_resolve_to_their_physical_pages() {
    let (mut heap, mut mem) = fresh();
    let table = map_address_stage2(
        &mut heap,
        &mut mem,
        BASE,
        0x9000_0000,
        0x8000_0000,
        0x3000,
        DEFAULT_TABLE_LEVEL,
        true,
        true,
        true,
    )
    .expect("mapping inside the window");
    assert_eq!(table % 0x4000, 0);
    let hgatp = hgatp_value(DEFAULT_TABLE_LEVEL, table);
    assert_eq!(resolve_address_stage2(hgatp, 0x8000_0000, &mem, BASE), Ok(0x9000_0000));
    assert_eq!(resolve_address_stage2(hgatp, 0x8000_1234, &mem, BASE), Ok(0x9000_1234));
    assert_eq!(resolve_address_stage2(hgatp, 0x8000_2fff, &mem, BASE), Ok(0x9000_2fff));
    assert_eq!(resolve_address_stage2(hgatp, 0x8000_3000, &mem, BASE), Err(()));
}

#[test]
fn leaf_entries_carry_permissions() {
    let (mut heap, mut mem) = fresh();
    let table = map_address_stage2(
        &mut heap,
        &mut mem,
        BASE,
        0x9000_0000,
        0x8000_0000,
        0x1000,
        DEFAULT_TABLE_LEVEL,
        true,
        false,
        false,
    )
    .expect("mapping inside the window");
    // Walk down by hand: the leaf is the only entry with R set.
    let leaves: Vec<u64> = mem.iter().copied().filter(|e| e & 0x2 != 0).collect();
    assert_eq!(leaves.len(), 1);
    assert_eq!(leaves[0], ((0x9000_0000u64 >> 12) << 10) | 0x13);
    assert_ne!(table, 0);
}

#[test]
fn unaligned_size_is_refused_untouched() {
    let (mut heap, mut mem) = fresh();
    let r = map_address_stage2(
        &mut heap,
        &mut mem,
        BASE,
        0x9000_0000,
        0x8000_0000,
        0x1800,
        DEFAULT_TABLE_LEVEL,
        true,
        true,
        true,
    );
    assert_eq!(r, Err(()));
    assert!(mem.iter().all(|w| *w == 0));
}

#[test]
fn tables_outside_the_window_fail() {
    let mut heap: Heap<32> = Heap::new();
    heap.init(BASE, WINDOW);
    let mut mem = vec![0u64; 16];
    let r = map_address_stage2(
        &mut heap,
        &mut mem,
        0x1000,
        0x9000_0000,
        0x8000_0000,
        0x1000,
        DEFAULT_TABLE_LEVEL,
        true,
        true,
        true,
    );
    assert_eq!(r, Err(()));
}

#[test]
fn vm_ram_is_mapped_and_registered() {
    let mut heap: Heap<32> = Heap::new();
    // A gigabyte to take RAM from, and two megabytes of window for tables.
    heap.init(0x1_0000_0000, 0x4000_0000);
    heap.init(BASE, 0x20_0000);
    let mut mem = vec![0u64; 0x20_0000 / 8];
    let m = match prepare_vm_memory(&mut heap, &mut mem, BASE) {
        Ok(m) => m,
        Err(()) => panic!("VM memory"),
    };
    assert_eq!(m.ram_physical_base, 0x1_0000_0000);
    assert!(m.table_address >= BASE && m.table_address < BASE + 0x20_0000);
    assert_eq!(m.hgatp, (9u64 << 60) | (m.table_address as u64 >> 12));
    assert_eq!(m.entry_physical, 0x1_0000_0000 + (VIRTUAL_ENTRY_POINT - RAM_VIRTUAL_BASE));
    assert_eq!(
        resolve_address_stage2(m.hgatp, RAM_VIRTUAL_BASE + RAM_SIZE - 8, &mem, BASE),
        Ok(0x1_0000_0000 + RAM_SIZE - 8)
    );
    assert_eq!(m.dtb_physical(0x1234), 0x1_0000_1234);
    let mut vms: Vec<VM> = Vec::new();
    let id = create_vm(&mut vms, &m, 0x1234, Vec::new(), None);
    assert_eq!(id, 0);
    assert_eq!(vms[0].get_entry_point(), VIRTUAL_ENTRY_POINT);
    assert_eq!(vms[0].get_dtb_pointer(), RAM_VIRTUAL_BASE + 0x1234);
    assert_eq!(vms[0].page_table_address, m.table_address);
    assert_eq!(create_vm(&mut vms, &m, 0, Vec::new(), Some(0)), 1);
}

#[test]
fn vm_memory_outside_the_window_fails() {
    let mut heap: Heap<32> = Heap::new();
    heap.init(0x1_0000_0000, 0x4000_0000);
    let mut mem = vec![0u64; 16];
    assert!(prepare_vm_memory(&mut heap, &mut mem, BASE).is_err());
}

#[test]
fn queue_notify_addresses_resolve_through_the_guest_table() {
    let (mut heap, mut mem) = fresh();
    let table = map_address_stage2(
        &mut heap,
        &mut mem,
        BASE,
        0x9000_0000,
        0x8000_0000,
        0x3000,
        DEFAULT_TABLE_LEVEL,
        true,
        true,
        true,
    )
    .expect("mapping inside the window");
    let hgatp = hgatp_value(DEFAULT_TABLE_LEVEL, table);
    let ok = QueueNotify { desc_address: 0x8000_1000, device_address: 0x8000_2040 };
    let n = resolve_notify(ok, hgatp, &mem, BASE).expect("both mapped");
    assert_eq!(n.desc_physical, 0x9000_1000);
    assert_eq!(n.used_physical, 0x9000_2040);
    let unmapped_used = QueueNotify { desc_address: 0x8000_1000, device_address: 0x8000_3000 };
    assert!(resolve_notify(unmapped_used, hgatp, &mem, BASE).is_err());
    let unmapped_desc = QueueNotify { desc_address: 0x7fff_f000, device_address: 0x8000_0000 };
    assert!(resolve_notify(unmapped_desc, hgatp, &mem, BASE).is_err());
    assert!(resolve_notify(ok, 0, &mem, BASE).is_err());
    assert_eq!(next_used_idx(0), 1);
    assert_eq!(next_used_idx(41), 42);
    assert_eq!(next_used_idx(0xffff), 0);
}
