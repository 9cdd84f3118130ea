use halycon::fdt::{DeviceTreeInfo, FdtContext, FdtError, FdtHeader, FDT_MAGIC};

const BEGIN_NODE: u32 = 1;
const END_NODE: u32 = 2;
const PROP: u32 = 3;
const END: u32 = 9;

fn push_word(v: &mut Vec<u8>, w: u32) {
    v.extend_from_slice(&w.to_be_bytes());
}

fn push_padded(v: &mut Vec<u8>, bytes: &[u8]) {
    v.extend_from_slice(bytes);
    while v.len() % 4 != 0 {
        v.push(0);
    }
}

fn push_prop(v: &mut Vec<u8>, nameoff: u32, value: &[u8]) {
    push_word(v, PROP);
    push_word(v, value.len() as u32);
    push_word(v, nameoff);
    push_padded(v, value);
}

fn reg(address: u64, size: u64) -> Vec<u8> {
    let mut r = Vec::new();
    r.extend_from_slice(&address.to_be_bytes());
    r.extend_from_slice(&size.to_be_bytes());
    r
}

/// A tree with a memory node and a virtio MMIO device; `version` goes into
/// the header.
fn build_blob(version: u32) -> Vec<u8> {
    let strings = b"device_type\0reg\0compatible\0";
    let (dt, rg, cp) = (0u32, 12u32, 16u32);
    let mut s = Vec::new();
    push_word(&mut s, BEGIN_NODE);
    push_padded(&mut s, b"\0");
    push_word(&mut s, BEGIN_NODE);
    push_padded(&mut s, b"memory@80000000\0");
    push_prop(&mut s, dt, b"memory\0");
    push_prop(&mut s, rg, &reg(0x8000_0000, 0x0800_0000));
    push_word(&mut s, END_NODE);
    push_word(&mut s, BEGIN_NODE);
    push_padded(&mut s, b"virtio_mmio@10001000\0");
    push_prop(&mut s, cp, b"virtio,mmio\0");
    push_prop(&mut s, rg, &reg(0x1000_1000, 0x1000));
    push_word(&mut s, END_NODE);
    push_word(&mut s, END_NODE);
    push_word(&mut s, END);

    let off_struct = 40u32;
    let off_strings = off_struct + s.len() as u32;
    let total = off_strings + strings.len() as u32;
    let mut b = Vec::new();
    for w in [
        FDT_MAGIC,
        total,
        off_struct,
        off_strings,
        40,
        version,
        16,
        0,
        strings.len() as u32,
        s.len() as u32,
    ] {
        push_word(&mut b, w);
    }
    b.extend_from_slice(&s);
    b.extend_from_slice(strings);
    b
}

#[test]
fn parse_finds_memory_and_virtio_windows() {
    let blob = build_blob(17);
    let mut dt: DeviceTreeInfo<4, 4> = DeviceTreeInfo::new();
    assert!(dt.parse(&blob).is_ok());
    assert_eq!(dt.memory.len(), 1);
    assert_eq!(dt.memory[0].address, 0x8000_0000);
    assert_eq!(dt.memory[0].size, 0x0800_0000);
    assert_eq!(dt.mmio.len(), 1);
    assert_eq!(dt.mmio[0].address, 0x1000_1000);
    assert_eq!(dt.mmio[0].size, 0x1000);
}

#[test]
fn parse_appends_after_held_windows() {
    let blob = build_blob(17);
    let mut dt: DeviceTreeInfo<4, 4> = DeviceTreeInfo::new();
    assert!(dt.parse(&blob).is_ok());
    assert!(dt.parse(&blob).is_ok());
    assert_eq!(dt.memory.len(), 2);
    assert_eq!(dt.mmio.len(), 2);
    assert_eq!(dt.mmio[1].address, 0x1000_1000);
}

#[test]
fn header_is_big_endian() {
    let blob = build_blob(17);
    let h: FdtHeader = DeviceTreeInfo::<1, 1>::parse_header(&blob);
    assert_eq!(h.magic, 0xd00dfeed);
    assert_eq!(h.off_dt_struct, 40);
    assert_eq!(h.version, 17);
    assert_eq!(h.last_comp_version, 16);
    assert_eq!(h.size_dt_strings, 27);
    assert_eq!(h.totalsize as usize, blob.len());
    assert!(DeviceTreeInfo::<1, 1>::check_fdt_header(h).is_ok());
}

#[test]
fn bad_magic_is_rejected() {
    let mut blob = build_blob(17);
    blob[0] = 0;
    let mut dt: DeviceTreeInfo<4, 4> = DeviceTreeInfo::new();
    assert!(matches!(dt.parse(&blob), Err(FdtError::InvalidMagic)));
    assert_eq!(dt.memory.len(), 0);
}

#[test]
fn other_version_is_rejected() {
    let blob = build_blob(16);
    let mut dt: DeviceTreeInfo<4, 4> = DeviceTreeInfo::new();
    assert!(matches!(dt.parse(&blob), Err(FdtError::UnsupportedVersion)));
}

#[test]
fn short_blob_is_unexpected_eof() {
    let blob = build_blob(17);
    let mut dt: DeviceTreeInfo<4, 4> = DeviceTreeInfo::new();
    assert!(matches!(dt.parse(&blob[..20]), Err(FdtError::UnexpectedEOF)));
}

#[test]
fn fdt_errors_have_messages() {
    assert_eq!(FdtError::InvalidMagic.as_str(), "invalid header magic");
    assert_eq!(FdtError::UnsupportedVersion.as_str(), "unsupported version");
    assert_eq!(FdtError::UnexpectedEOF.as_str(), "unexpected EOF");
}

#[test]
fn context_addresses() {
    let blob = build_blob(17);
    let header = DeviceTreeInfo::<1, 1>::parse_header(&blob);
    let ctx = FdtContext { fdt_address: 0x8200_0000, struct_current_offset: 3, header };
    assert_eq!(ctx.get_struct_block_address(), 0x8200_0000 + 40);
    assert_eq!(ctx.get_struct_block_current_address(), 0x8200_0000 + 40 + 12);
    assert_eq!(ctx.get_strings_block_address(), 0x8200_0000 + header.off_dt_strings as usize);
    assert!(ctx.contains_struct_block());
    let far = FdtContext { fdt_address: 0, struct_current_offset: 1000, header };
    assert!(!far.contains_struct_block());
}

#[test]
fn full_window_list_stops_the_walk() {
    // A third memory window does not fit a list of two.
    let blob = build_blob(17);
    let mut dt: DeviceTreeInfo<2, 4> = DeviceTreeInfo::new();
    assert_eq!(dt.try_parse(&blob), Some(Ok(())));
    assert_eq!(dt.try_parse(&blob), Some(Ok(())));
    assert_eq!(dt.try_parse(&blob), None);
    assert_eq!(dt.memory.len(), 2);
}

#[test]
fn name_that_is_not_utf8_stops_the_walk() {
    let mut blob = build_blob(17);
    let n = blob.len();
    // The strings block ends the blob: spoil the first byte of "compatible".
    blob[n - 11] = 0xff;
    let mut dt: DeviceTreeInfo<4, 4> = DeviceTreeInfo::new();
    assert_eq!(dt.try_parse(&blob), None);
    // The memory node came first and was collected.
    assert_eq!(dt.memory.len(), 1);
}
