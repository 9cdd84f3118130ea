use halycon::allocator::{align_up, allocate_pages, log2_floor_usize, pow2_usize, prev_power_of_two, size_class_of, trailing_zeros, Heap};
use halycon::linked_list::LinkedList;
use halycon::memory::{MemoryAllocator, MemoryAllocatorError, MemoryEntry};
use halycon::paging::TableEntry;

#[test]
fn power_of_two_helpers() {
    assert_eq!(align_up(0x1001, 0x1000), 0x2000);
    assert_eq!(align_up(0x2000, 0x1000), 0x2000);
    assert_eq!(pow2_usize(12), 4096);
    assert_eq!(trailing_zeros(0x8000), 15);
    assert_eq!(log2_floor_usize(4097), 12);
    assert_eq!(prev_power_of_two(100), 64);
    assert_eq!(size_class_of(1, 1), 3);
    assert_eq!(size_class_of(24, 8), 5);
    assert_eq!(size_class_of(16, 64), 6);
}

#[test]
fn heap_allocations_are_aligned_and_distinct() {
    let mut heap: Heap<32> = Heap::new();
    heap.init(0x8000_0000, 0x10_0000);
    let a = heap.allocate(4096, 4096).expect("first block");
    let b = heap.allocate(4096, 4096).expect("second block");
    assert_eq!(a % 4096, 0);
    assert_eq!(b % 4096, 0);
    assert_ne!(a, b);
    assert!(a >= 0x8000_0000 && a + 4096 <= 0x8010_0000);
    assert!(b >= 0x8000_0000 && b + 4096 <= 0x8010_0000);
    assert!(a + 4096 <= b || b + 4096 <= a);
}

#[test]
fn heap_reuses_a_returned_block() {
    let mut heap: Heap<32> = Heap::new();
    heap.init(0x8000_0000, 0x10_0000);
    let a = heap.allocate(64, 8).expect("block");
    heap.dealloc(a, 64, 8);
    let b = heap.allocate(64, 8).expect("block again");
    assert_eq!(a, b);
}

#[test]
fn heap_runs_out() {
    let mut heap: Heap<32> = Heap::new();
    heap.init(0x8000_0000, 0x2000);
    assert!(heap.allocate(0x2000, 8).is_ok());
    assert!(heap.allocate(8, 8).is_err());
    let empty: Heap<32> = Heap::new();
    let mut empty = empty;
    assert!(empty.allocate(8, 8).is_err());
}

#[test]
fn allocate_pages_gives_zero_when_out_of_memory() {
    let mut heap: Heap<32> = Heap::new();
    heap.init(0x8000_0000, 0x4000);
    let p = allocate_pages(&mut heap, 2, 0x2000);
    assert_ne!(p, 0);
    assert_eq!(p % 0x2000, 0);
    let q = allocate_pages(&mut heap, 2, 0x1000);
    assert_ne!(q, 0);
    assert_ne!(p, q);
    assert_eq!(allocate_pages(&mut heap, 1, 0x1000), 0);
}

#[test]
fn bump_allocator_aligns_and_advances() {
    let mut m = MemoryAllocator::new();
    m.init(&MemoryEntry { address: 0x8000_0000, size: 0x10_0000 }, 0x8000_0123);
    assert_eq!(m.free_address, 0x8000_0123);
    let a = m.allocate(1, 0x1000).expect("page");
    assert_eq!(a, 0x8000_1000);
    assert_eq!(m.free_address, 0x8000_2000);
    let b = m.allocate(2, 0x1000).expect("pages");
    assert_eq!(b, 0x8000_2000);
    assert_eq!(m.free_address, 0x8000_4000);
}

#[test]
fn bump_allocator_runs_out_but_moves_on() {
    let mut m = MemoryAllocator::new();
    m.init(&MemoryEntry { address: 0x8000_0000, size: 0x2000 }, 0x8000_0000);
    assert_eq!(m.allocate(1, 0x1000), Ok(0x8000_0000));
    assert_eq!(m.allocate(2, 0x1000), Err(MemoryAllocatorError::OutOfMemory));
    assert_eq!(m.free_address, 0x8000_3000);
}

#[test]
fn linked_list_is_a_stack() {
    let mut l = LinkedList::new();
    assert!(l.is_empty());
    l.push(0x1000);
    l.push(0x2000);
    l.push(0x3000);
    let mut it = l.iter();
    assert_eq!(it.next(), Some(0x3000));
    assert_eq!(it.next(), Some(0x2000));
    assert_eq!(it.next(), Some(0x1000));
    assert_eq!(it.next(), None);
    assert!(l.remove_first(0x2000));
    assert!(!l.remove_first(0x2000));
    assert_eq!(l.pop(), Some(0x3000));
    assert_eq!(l.pop(), Some(0x1000));
    assert_eq!(l.pop(), None);
}

#[test]
fn linked_list_nodes_unlink_themselves() {
    let mut l = LinkedList::new();
    l.push(10);
    l.push(20);
    l.push(30);
    let mut it = l.iter_mut();
    let head = it.next().expect("head");
    assert_eq!(head.value(), 30);
    let middle = it.next().expect("middle");
    assert_eq!(middle.value(), 20);
    assert_eq!(middle.pop(&mut l), 20);
    let mut rest = l.iter();
    assert_eq!(rest.next(), Some(30));
    assert_eq!(rest.next(), Some(10));
    assert_eq!(rest.next(), None);
}

#[test]
fn table_entry_round_trip() {
    let mut e = TableEntry::new();
    e.set_output_address(0x8020_3000);
    assert_eq!(e.get_next_table_address(), 0x8020_3000);
    assert!(!e.is_valid_pte());
    e.set_non_leaf_permission();
    assert!(e.is_valid_pte());
    assert_eq!(e.get_next_table_address(), 0x8020_3000);
    e.init();
    assert_eq!(e.get_next_table_address(), 0);
    e.set_permission(0x3ff | 0x400);
    assert!(e.is_valid_pte());
    assert_eq!(e.get_next_table_address(), 0);
}

#[test]
fn blocks_stay_apart_across_free_and_reuse() {
    let mut heap: Heap<32> = Heap::new();
    heap.init(0x8000_0000, 0x8000);
    let a = heap.allocate(0x1000, 0x1000).expect("a");
    let b = heap.allocate(0x2000, 0x1000).expect("b");
    assert!(a + 0x1000 <= b || b + 0x2000 <= a);
    heap.dealloc(a, 0x1000, 0x1000);
    let c = heap.allocate(0x1000, 0x1000).expect("c");
    let d = heap.allocate(0x1000, 0x1000).expect("d");
    for (x, xs, y, ys) in [(b, 0x2000, c, 0x1000), (b, 0x2000, d, 0x1000), (c, 0x1000, d, 0x1000)] {
        assert!(x + xs <= y || y + ys <= x, "{:#x} and {:#x} overlap", x, y);
    }
}
