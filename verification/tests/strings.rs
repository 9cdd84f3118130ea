use halycon::string_utils::{hex_ptr_to_usize, hex_ptr_to_usize_length, slice_to_usize};

#[test]
fn hex_with_and_without_prefix() {
    assert_eq!(slice_to_usize(b"0x82200000"), Ok(0x8220_0000));
    assert_eq!(slice_to_usize(b"0X1f"), Ok(0x1f));
    assert_eq!(slice_to_usize(b"DeadBeef"), Ok(0xdead_beef));
    assert_eq!(slice_to_usize(b"+ff"), Ok(0xff));
    assert_eq!(slice_to_usize(b"0x+10"), Ok(0x10));
    assert_eq!(slice_to_usize(b"0"), Ok(0));
}

#[test]
fn hex_rejects_bad_input() {
    assert_eq!(slice_to_usize(b""), Err(()));
    assert_eq!(slice_to_usize(b"0x"), Err(()));
    assert_eq!(slice_to_usize(b"+"), Err(()));
    assert_eq!(slice_to_usize(b"-1"), Err(()));
    assert_eq!(slice_to_usize(b"0x12g4"), Err(()));
    assert_eq!(slice_to_usize(b"0x0x1"), Err(()));
    assert_eq!(slice_to_usize(b"\xff\xfe"), Err(()));
    assert_eq!(slice_to_usize(b" 1"), Err(()));
}

#[test]
fn hex_overflow_is_an_error() {
    assert_eq!(slice_to_usize(b"ffffffffffffffff"), Ok(usize::MAX));
    assert_eq!(slice_to_usize(b"10000000000000000"), Err(()));
    assert_eq!(slice_to_usize(b"0000000000000000000001"), Ok(1));
}

#[test]
fn hex_up_to_nul() {
    assert_eq!(hex_ptr_to_usize(b"0x1000\0garbage"), Ok(0x1000));
    assert_eq!(hex_ptr_to_usize(b"abc"), Ok(0xabc));
    assert_eq!(hex_ptr_to_usize(b"\0"), Err(()));
}

#[test]
fn hex_with_explicit_length() {
    assert_eq!(hex_ptr_to_usize_length(b"0x1234zz", 6), Ok(0x1234));
    assert_eq!(hex_ptr_to_usize_length(b"0x1234zz", 7), Err(()));
    assert_eq!(hex_ptr_to_usize_length(b"ff", 0), Err(()));
    assert_eq!(hex_ptr_to_usize_length(b"abc", 2), Ok(0xab));
}
