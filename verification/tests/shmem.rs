use halycon::shmem::{ShmRing, BUF_LEN};
use halycon::trap::{capture_console_store, CONSOLE_TARGET_ADDRESS, E_STORE_AMO_GUEST_PAGE_FAULT};

#[test]
fn size_is_one_page() {
    assert_eq!(core::mem::size_of::<ShmRing>(), 4096);
    assert_eq!(BUF_LEN, 4096 - 8);
}

#[test]
fn basic_push_pop() {
    let mut r = ShmRing::new();
    let msg = b"hello";
    assert_eq!(r.push(msg), 5);

    let mut out = [0u8; 5];
    assert_eq!(r.pop(&mut out), 5);
    assert_eq!(&out, msg);

    assert!(r.is_empty());
    assert_eq!(r.pop(&mut out), 0);
}

#[test]
fn wrap_around_preserves_order() {
    let mut r = ShmRing::new();
    let cap = r.capacity() as usize;

    let a_len = cap - 20;
    let a: Vec<u8> = (0..a_len).map(|i| (i % 251) as u8).collect();
    assert_eq!(r.push(&a), a_len);

    let pop1 = 200;
    let mut tmp = vec![0u8; pop1];
    assert_eq!(r.pop(&mut tmp), pop1);
    assert_eq!(&tmp[..], &a[..pop1]);

    let b_len = 150;
    let b: Vec<u8> = (0..b_len).map(|i| (200 + i) as u8).collect();
    assert_eq!(r.push(&b), b_len);

    let mut out = vec![0u8; (a_len - pop1) + b_len];
    let out_len = out.len();
    assert_eq!(r.pop(&mut out), out_len);

    assert_eq!(&out[..a_len - pop1], &a[pop1..]);
    assert_eq!(&out[a_len - pop1..], &b[..]);
}

#[test]
fn full_and_partial_write() {
    let mut r = ShmRing::new();
    let cap = r.capacity() as usize;

    let fill = vec![0xAAu8; cap - 1];
    assert_eq!(r.push(&fill), cap - 1);
    assert!(r.is_full());

    assert_eq!(r.push(&[1, 2, 3]), 0);

    let mut out = vec![0u8; 10];
    assert_eq!(r.pop(&mut out), 10);
    assert_eq!(out, vec![0xAAu8; 10]);

    let more = vec![0xBBu8; 20];
    assert_eq!(r.push(&more), 10);

    let mut drain = vec![0u8; cap - 1];
    let drain_len = drain.len();
    assert_eq!(r.pop(&mut drain), drain_len);

    assert_eq!(&drain[..(cap - 1) - 10], vec![0xAAu8; (cap - 1) - 10].as_slice());
    assert_eq!(&drain[(cap - 1) - 10..], vec![0xBBu8; 10].as_slice());
}

#[test]
fn ring_lengths_add_up_to_capacity_less_one() {
    let mut r = ShmRing::new();
    assert_eq!(r.readable_len(), 0);
    assert_eq!(r.writable_len(), 4087);
    assert_eq!(r.push(&[7u8; 100]), 100);
    assert_eq!(r.readable_len() + r.writable_len(), r.capacity() - 1);
    assert_eq!(r.readable_len(), 100);
    assert!(!r.is_empty());
    assert!(!r.is_full());
}

#[test]
fn ring_round_trip_of_pushed_bytes() {
    let mut r = ShmRing::new();
    let data: Vec<u8> = (0..300u32).map(|i| (i * 7 % 256) as u8).collect();
    assert_eq!(r.push(&data), 300);
    let mut out = vec![0u8; 400];
    assert_eq!(r.pop(&mut out), 300);
    assert_eq!(&out[..300], &data[..]);
    assert_eq!(&out[300..], &[0u8; 100][..]);
}

#[test]
fn ring_pop_into_short_buffer_keeps_rest() {
    let mut r = ShmRing::new();
    assert_eq!(r.push(b"abcdef"), 6);
    let mut out = [0u8; 4];
    assert_eq!(r.pop(&mut out), 4);
    assert_eq!(&out, b"abcd");
    let mut rest = [0u8; 4];
    assert_eq!(r.pop(&mut rest), 2);
    assert_eq!(&rest, b"ef\0\0");
}

#[test]
fn ring_push_of_nothing_and_clear() {
    let mut r = ShmRing::new();
    assert_eq!(r.push(&[]), 0);
    assert_eq!(r.push(b"xyz"), 3);
    r.clear();
    assert!(r.is_empty());
    let mut out = [0u8; 3];
    assert_eq!(r.pop(&mut out), 0);
    assert_eq!(r.pop(&mut []), 0);
}

#[test]
fn console_stores_are_captured_and_flushed() {
    let mut r = ShmRing::new();
    let mut regs = [0u64; 32];
    // sb x5, 0(x10): rs2 = 5, a 32-bit encoding.
    let store: u32 = (5 << 20) | (10 << 15) | (0b000 << 12) | 0b0100011;
    regs[5] = 0x141; // low byte 'A'
    let c = capture_console_store(E_STORE_AMO_GUEST_PAGE_FAULT, CONSOLE_TARGET_ADDRESS, store, &regs, &mut r, 3)
        .expect("captured");
    assert!(!c.flush);
    assert_eq!(c.count, 4);
    assert_eq!(c.instruction_length, 4);
    regs[5] = b'\n' as u64;
    let c = capture_console_store(E_STORE_AMO_GUEST_PAGE_FAULT, CONSOLE_TARGET_ADDRESS, store, &regs, &mut r, 4)
        .expect("captured");
    assert!(c.flush);
    assert_eq!(c.count, 0);
    regs[5] = b'x' as u64;
    let c = capture_console_store(E_STORE_AMO_GUEST_PAGE_FAULT, CONSOLE_TARGET_ADDRESS, store, &regs, &mut r, 16)
        .expect("captured");
    assert!(c.flush);
    assert!(capture_console_store(E_STORE_AMO_GUEST_PAGE_FAULT, 0x1000_0008, store, &regs, &mut r, 0).is_none());
    let mut out = [0u8; 8];
    assert_eq!(r.pop(&mut out), 3);
    assert_eq!(&out[..3], b"A\nx");
}
