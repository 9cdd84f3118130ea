use vstd::prelude::*;
use byteorder::{BigEndian, ByteOrder};

verus! {

pub const FDT_MAGIC: u32 = 0xd00dfeed;
pub const FDT_VERSION: u32 = 17;

pub const FDT_BEGIN_NODE: u32 = 0x1;
pub const FDT_END_NODE: u32 = 0x2;
pub const FDT_PROP: u32 = 0x3;
pub const FDT_NOP: u32 = 0x4;
pub const FDT_END: u32 = 0x9;

/// Size in bytes of the header at the start of a device tree blob.
pub const FDT_HEADER_SIZE: usize = 40;

#[derive(Clone, Copy, Debug, PartialEq, Eq, Structural)]
pub enum FdtError {
    InvalidMagic,
    UnsupportedVersion,
    UnexpectedEOF,
}

impl FdtError {
    pub fn as_str(&self) -> (r: &'static str)
        ensures
            *self is InvalidMagic ==> r@ == "invalid header magic"@,
            *self is UnsupportedVersion ==> r@ == "unsupported version"@,
            *self is UnexpectedEOF ==> r@ == "unexpected EOF"@,
    {
        match self {
            FdtError::InvalidMagic => "invalid header magic",
            FdtError::UnsupportedVersion => "unsupported version",
            FdtError::UnexpectedEOF => "unexpected EOF",
        }
    }
}

// ---------------------------------------------------------------------------
// Big-endian fields

pub open spec fn be32(b: Seq<u8>, p: int) -> nat {
    b[p] as nat * 0x100_0000 + b[p + 1] as nat * 0x1_0000 + b[p + 2] as nat * 0x100 + b[p
        + 3] as nat
}

pub open spec fn be64(b: Seq<u8>, p: int) -> nat {
    be32(b, p) * 0x1_0000_0000 + be32(b, p + 4)
}

/// `BigEndian::read_u32` of byteorder: the first four bytes of `buf` as a
/// big-endian number. It panics on a shorter buffer, which `requires` rules
/// out.
#[verifier::external_body]
fn read_be_u32(buf: &[u8]) -> (r: u32)
    requires
        buf@.len() >= 4,
    ensures
        r == be32(buf@, 0),
{
    BigEndian::read_u32(buf)
}

/// `BigEndian::read_u64` of byteorder: the first eight bytes of `buf` as a
/// big-endian number. It panics on a shorter buffer, which `requires` rules
/// out.
#[verifier::external_body]
fn read_be_u64(buf: &[u8]) -> (r: u64)
    requires
        buf@.len() >= 8,
    ensures
        r == be64(buf@, 0),
{
    BigEndian::read_u64(buf)
}

/// `std::str::from_utf8` succeeds on `bytes`: they are well-formed UTF-8,
/// as `valid_utf8` of vstd defines it.
#[verifier::external_body]
fn is_utf8(bytes: &[u8]) -> (r: bool)
    ensures
        r == vstd::utf8::valid_utf8(bytes@),
{
    std::str::from_utf8(bytes).is_ok()
}

/// The big-endian word at byte `p` of `b`.
fn read_be32(b: &[u8], p: usize) -> (r: u32)
    requires
        p + 4 <= b@.len(),
    ensures
        r == be32(b@, p as int),
{
    let n = b.len();
    assert(p + 4 <= n);
    let s = vstd::slice::slice_subrange(b, p, p + 4);
    assert(s@[0] == b@[p as int] && s@[1] == b@[p + 1] && s@[2] == b@[p + 2] && s@[3] == b@[p
        + 3]);
    read_be_u32(s)
}

/// The big-endian double word at byte `p` of `b`.
fn be64_at(b: &[u8], p: usize) -> (r: u64)
    requires
        p + 8 <= b@.len(),
    ensures
        r == be64(b@, p as int),
{
    let n = b.len();
    assert(p + 8 <= n);
    let s = vstd::slice::slice_subrange(b, p, p + 8);
    assert(forall|k: int| 0 <= k < 8 ==> s@[k] == b@[p + k]);
    read_be_u64(s)
}

// ---------------------------------------------------------------------------
// Header

#[derive(Clone, Copy)]
pub struct FdtHeader {
    pub magic: u32,
    pub totalsize: u32,
    pub off_dt_struct: u32,
    pub off_dt_strings: u32,
    pub off_mem_rsvmap: u32,
    pub version: u32,
    pub last_comp_version: u32,
    pub boot_cpuid_phys: u32,
    pub size_dt_strings: u32,
    pub size_dt_struct: u32,
}

/// The header stored at the start of blob `b`.
pub open spec fn header_of(b: Seq<u8>) -> FdtHeader {
    FdtHeader {
        magic: be32(b, 0) as u32,
        totalsize: be32(b, 4) as u32,
        off_dt_struct: be32(b, 8) as u32,
        off_dt_strings: be32(b, 12) as u32,
        off_mem_rsvmap: be32(b, 16) as u32,
        version: be32(b, 20) as u32,
        last_comp_version: be32(b, 24) as u32,
        boot_cpuid_phys: be32(b, 28) as u32,
        size_dt_strings: be32(b, 32) as u32,
        size_dt_struct: be32(b, 36) as u32,
    }
}

/// What the header check makes of `h`.
pub open spec fn header_check(h: FdtHeader) -> Result<(), FdtError> {
    if h.magic != FDT_MAGIC {
        Err(FdtError::InvalidMagic)
    } else if h.version != FDT_VERSION {
        Err(FdtError::UnsupportedVersion)
    } else {
        Ok(())
    }
}

/// A cursor into the structure block of a device tree at `fdt_address`,
/// counted in 32-bit words.
#[derive(Clone, Copy)]
pub struct FdtContext {
    pub fdt_address: usize,
    pub struct_current_offset: usize,
    pub header: FdtHeader,
}

impl FdtContext {
    /// Address of the word under the cursor.
    pub fn get_struct_block_current_address(&self) -> (r: usize)
        requires
            self.header.off_dt_struct + self.fdt_address + self.struct_current_offset * 4
                <= usize::MAX,
        ensures
            r == self.header.off_dt_struct + self.fdt_address + self.struct_current_offset * 4,
    {
        self.header.off_dt_struct as usize + self.fdt_address + self.struct_current_offset * 4
    }

    /// Address of the structure block.
    pub fn get_struct_block_address(&self) -> (r: usize)
        requires
            self.header.off_dt_struct + self.fdt_address <= usize::MAX,
        ensures
            r == self.header.off_dt_struct + self.fdt_address,
    {
        self.header.off_dt_struct as usize + self.fdt_address
    }

    /// Address of the strings block.
    pub fn get_strings_block_address(&self) -> (r: usize)
        requires
            self.header.off_dt_strings + self.fdt_address <= usize::MAX,
        ensures
            r == self.header.off_dt_strings + self.fdt_address,
    {
        self.header.off_dt_strings as usize + self.fdt_address
    }

    /// Whether the cursor is still within the structure block (its end
    /// included).
    pub fn contains_struct_block(&self) -> (r: bool)
        requires
            self.struct_current_offset * 4 <= usize::MAX,
        ensures
            r == contains(self.header, self.struct_current_offset as nat),
    {
        self.struct_current_offset * 4 <= self.header.size_dt_struct as usize
    }
}

/// Whether word `off` of the structure block is within it (its end
/// included).
pub open spec fn contains(h: FdtHeader, off: nat) -> bool {
    off * 4 <= h.size_dt_struct
}

pub struct MemoryEntry {
    pub address: usize,
    pub size: usize,
}

pub enum MmioDeviceType {
    Uart,
    VirtioMmio,
}

pub struct MmioEntry {
    pub address: usize,
    pub size: usize,
}

// ---------------------------------------------------------------------------
// Walking the structure block

/// The big-endian word at byte `p` of `b`, if it lies within `b`.
pub open spec fn word_at(b: Seq<u8>, p: nat) -> Option<u32> {
    if p + 4 <= b.len() {
        Some(be32(b, p as int) as u32)
    } else {
        None
    }
}

/// Bytes of `b` from `p` on: the measure of every scan.
pub open spec fn room(b: Seq<u8>, p: nat) -> nat {
    if p < b.len() {
        (b.len() - p) as nat
    } else {
        0
    }
}

/// Byte position of word `off` of the structure block.
pub open spec fn pos(h: FdtHeader, off: nat) -> nat {
    h.off_dt_struct as nat + 4 * off
}

/// Skipping a node whose name starts at word `off` (the begin token already
/// consumed): the word just past its end token.
pub open spec fn skip_node(b: Seq<u8>, h: FdtHeader, off: nat) -> Result<nat, FdtError>
    decreases room(b, pos(h, off)), 1int,
{
    match word_at(b, pos(h, off)) {
        None => Err(FdtError::UnexpectedEOF),
        Some(t) => skip_rest(b, h, off, t),
    }
}

/// The rest of a node skip at word `off`, where token `t` was last seen.
/// Every word is taken for a token, and the word that follows a nested node
/// is passed over unread.
pub open spec fn skip_rest(b: Seq<u8>, h: FdtHeader, off: nat, t: u32) -> Result<nat, FdtError>
    decreases room(b, pos(h, off)), 0int,
{
    if t == FDT_END_NODE {
        Ok(off + 1)
    } else {
        let next = off + 1;
        match word_at(b, pos(h, next)) {
            None => Err(FdtError::UnexpectedEOF),
            Some(t2) => if t2 == FDT_BEGIN_NODE {
                match skip_node(b, h, next) {
                    Err(e) => Err(e),
                    Ok(after) => if after > next {
                        skip_rest(b, h, after, t2)
                    } else {
                        Err(FdtError::UnexpectedEOF)
                    },
                }
            } else {
                skip_rest(b, h, next, t2)
            },
        }
    }
}

/// Scan from word `off` for the next node: `(true, n)` with `n` past its
/// begin token, or `(false, n)` at the end token. Property values are
/// skipped by `(8 + len) / 4` words.
pub open spec fn node_scan(b: Seq<u8>, h: FdtHeader, off: nat) -> Result<(bool, nat), FdtError>
    decreases room(b, pos(h, off)),
{
    if !contains(h, off) {
        Err(FdtError::UnexpectedEOF)
    } else {
        match word_at(b, pos(h, off)) {
            None => Err(FdtError::UnexpectedEOF),
            Some(t) => {
                let next = off + 1;
                if t == FDT_BEGIN_NODE {
                    Ok((true, next))
                } else if t == FDT_PROP {
                    match (word_at(b, pos(h, next)), word_at(b, pos(h, next) + 4)) {
                        (Some(len), Some(_)) => node_scan(b, h, next + ((8 + len) / 4) as nat),
                        _ => Err(FdtError::UnexpectedEOF),
                    }
                } else if t == FDT_END {
                    Ok((false, next))
                } else {
                    node_scan(b, h, next)
                }
            },
        }
    }
}

/// The node scan as the walk starts it: `None` where the cursor is already
/// past the structure block, on which the walk stops the machine.
pub open spec fn next_node(b: Seq<u8>, h: FdtHeader, off: nat) -> Option<
    Result<(bool, nat), FdtError>,
> {
    if contains(h, off) {
        Some(node_scan(b, h, off))
    } else {
        None
    }
}

/// Scan from word `off` for the next property of the current node: `(true,
/// n)` with `n` at its length word, or `(false, n)` past the node's end
/// token. Nested nodes are skipped.
pub open spec fn prop_scan(b: Seq<u8>, h: FdtHeader, off: nat) -> Result<(bool, nat), FdtError>
    decreases room(b, pos(h, off)),
{
    if !contains(h, off) {
        Err(FdtError::UnexpectedEOF)
    } else {
        match word_at(b, pos(h, off)) {
            None => Err(FdtError::UnexpectedEOF),
            Some(t) => {
                let next = off + 1;
                if t == FDT_BEGIN_NODE {
                    match skip_node(b, h, next) {
                        Err(e) => Err(e),
                        Ok(after) => if after > next {
                            prop_scan(b, h, after)
                        } else {
                            Err(FdtError::UnexpectedEOF)
                        },
                    }
                } else if t == FDT_PROP {
                    Ok((true, next))
                } else if t == FDT_END_NODE {
                    Ok((false, next))
                } else {
                    prop_scan(b, h, next)
                }
            },
        }
    }
}

/// The property scan as the walk starts it: `None` where the cursor is
/// already past the structure block.
pub open spec fn next_prop(b: Seq<u8>, h: FdtHeader, off: nat) -> Option<
    Result<(bool, nat), FdtError>,
> {
    if contains(h, off) {
        Some(prop_scan(b, h, off))
    } else {
        None
    }
}

/// Length of the NUL-terminated string at byte `p` of `b`; `None` when `b`
/// ends before a NUL.
pub open spec fn cstr_len(b: Seq<u8>, p: nat) -> Option<nat>
    decreases room(b, p),
{
    if p >= b.len() {
        None
    } else if b[p as int] == 0 {
        Some(0)
    } else {
        match cstr_len(b, p + 1) {
            Some(n) => Some(n + 1),
            None => None,
        }
    }
}

/// The value of the first property named `name` of the node whose
/// properties start at word `off`. `None` where the walk stops the machine:
/// a cursor past the structure block, or a property name that is not UTF-8.
pub open spec fn search_scan(b: Seq<u8>, h: FdtHeader, off: nat, name: Seq<u8>) -> Option<
    Result<Option<Seq<u8>>, FdtError>,
>
    decreases room(b, pos(h, off)),
{
    match next_prop(b, h, off) {
        None => None,
        Some(Err(e)) => Some(Err(e)),
        Some(Ok((false, _))) => Some(Ok(None)),
        Some(Ok((true, p))) => match (word_at(b, pos(h, p)), word_at(b, pos(h, p) + 4)) {
            (Some(len), Some(nameoff)) => {
                let np = h.off_dt_strings as nat + nameoff as nat;
                match cstr_len(b, np) {
                    None => Some(Err(FdtError::UnexpectedEOF)),
                    Some(l) => {
                        let prop_name = b.subrange(np as int, (np + l) as int);
                        if !vstd::utf8::valid_utf8(prop_name) {
                            None
                        } else if prop_name == name {
                            let vp = pos(h, p + 2);
                            if vp + len <= b.len() {
                                Some(Ok(Some(b.subrange(vp as int, vp + len))))
                            } else {
                                Some(Err(FdtError::UnexpectedEOF))
                            }
                        } else {
                            let after = (p + 2 + len / 4) as nat;
                            if after > off {
                                search_scan(b, h, after, name)
                            } else {
                                Some(Err(FdtError::UnexpectedEOF))
                            }
                        }
                    },
                }
            },
            _ => Some(Err(FdtError::UnexpectedEOF)),
        },
    }
}

pub open spec fn name_device_type() -> Seq<u8> {
    seq![0x64u8, 0x65, 0x76, 0x69, 0x63, 0x65, 0x5f, 0x74, 0x79, 0x70, 0x65]
}

pub open spec fn name_compatible() -> Seq<u8> {
    seq![0x63u8, 0x6f, 0x6d, 0x70, 0x61, 0x74, 0x69, 0x62, 0x6c, 0x65]
}

pub open spec fn name_reg() -> Seq<u8> {
    seq![0x72u8, 0x65, 0x67]
}

/// The `device_type` value of memory nodes, its NUL included.
pub open spec fn value_memory() -> Seq<u8> {
    seq![0x6du8, 0x65, 0x6d, 0x6f, 0x72, 0x79, 0x00]
}

/// The `compatible` value of virtio MMIO devices, its NUL included.
pub open spec fn value_virtio_mmio() -> Seq<u8> {
    seq![0x76u8, 0x69, 0x72, 0x74, 0x69, 0x6f, 0x2c, 0x6d, 0x6d, 0x69, 0x6f, 0x00]
}

/// Address and size read from a `reg` value.
pub open spec fn reg_entry(r: Seq<u8>) -> (usize, usize) {
    ((be64(r, 0) as u64) as usize, (be64(r, 8) as u64) as usize)
}

/// What the walk collects from the node whose properties start at word `n`:
/// the windows `mem` and `mmio` with the node's own added, and the error that
/// stopped it, if any. `None` where the walk stops the machine: a property
/// name that is not UTF-8, a `reg` value shorter than 16 bytes, or a window
/// that does not fit its list.
pub open spec fn node_windows(
    b: Seq<u8>,
    h: FdtHeader,
    n: nat,
    mem: Seq<(usize, usize)>,
    mmio: Seq<(usize, usize)>,
    max_mem: nat,
    max_mmio: nat,
) -> Option<(Seq<(usize, usize)>, Seq<(usize, usize)>, Option<FdtError>)> {
    match search_scan(b, h, n, name_device_type()) {
        None => None,
        Some(Err(e)) => Some((mem, mmio, Some(e))),
        Some(Ok(Some(v))) => if v == value_memory() {
            match search_scan(b, h, n, name_reg()) {
                None => None,
                Some(Err(e)) => Some((mem, mmio, Some(e))),
                Some(Ok(None)) => Some((mem, mmio, None)),
                Some(Ok(Some(r))) => if r.len() < 16 || mem.len() >= max_mem {
                    None
                } else {
                    Some((mem.push(reg_entry(r)), mmio, None))
                },
            }
        } else {
            Some((mem, mmio, None))
        },
        Some(Ok(None)) => match search_scan(b, h, n, name_compatible()) {
            None => None,
            Some(Err(e)) => Some((mem, mmio, Some(e))),
            Some(Ok(Some(v))) => if v == value_virtio_mmio() {
                match search_scan(b, h, n, name_reg()) {
                    None => None,
                    Some(Err(e)) => Some((mem, mmio, Some(e))),
                    Some(Ok(None)) => Some((mem, mmio, None)),
                    Some(Ok(Some(r))) => if r.len() < 16 || mmio.len() >= max_mmio {
                        None
                    } else {
                        Some((mem, mmio.push(reg_entry(r)), None))
                    },
                }
            } else {
                Some((mem, mmio, None))
            },
            Some(Ok(None)) => Some((mem, mmio, None)),
        },
    }
}

/// The memory and MMIO windows collected by the walk from word `off` on,
/// added to `mem` and `mmio`, and the error that stopped it, if any. `None`
/// where the walk stops the machine: a node scan past the structure block,
/// or a node on which `node_windows` is `None`.
pub open spec fn parse_nodes(
    b: Seq<u8>,
    h: FdtHeader,
    off: nat,
    mem: Seq<(usize, usize)>,
    mmio: Seq<(usize, usize)>,
    max_mem: nat,
    max_mmio: nat,
) -> Option<(Seq<(usize, usize)>, Seq<(usize, usize)>, Option<FdtError>)>
    decreases room(b, pos(h, off)),
{
    match next_node(b, h, off) {
        None => None,
        Some(Err(e)) => Some((mem, mmio, Some(e))),
        Some(Ok((false, _))) => Some((mem, mmio, None)),
        Some(Ok((true, n))) => if n <= off {
            Some((mem, mmio, Some(FdtError::UnexpectedEOF)))
        } else {
            match node_windows(b, h, n, mem, mmio, max_mem, max_mmio) {
                None => None,
                Some((m2, i2, Some(e))) => Some((m2, i2, Some(e))),
                Some((m2, i2, None)) => parse_nodes(b, h, n, m2, i2, max_mem, max_mmio),
            }
        },
    }
}

/// The whole parse of blob `b` on top of the windows `mem` and `mmio`.
pub open spec fn parse_blob(
    b: Seq<u8>,
    mem: Seq<(usize, usize)>,
    mmio: Seq<(usize, usize)>,
    max_mem: nat,
    max_mmio: nat,
) -> Option<(Seq<(usize, usize)>, Seq<(usize, usize)>, Option<FdtError>)> {
    if b.len() < FDT_HEADER_SIZE {
        Some((mem, mmio, Some(FdtError::UnexpectedEOF)))
    } else {
        let h = header_of(b);
        if h.magic != FDT_MAGIC {
            Some((mem, mmio, Some(FdtError::InvalidMagic)))
        } else if h.version != FDT_VERSION {
            Some((mem, mmio, Some(FdtError::UnsupportedVersion)))
        } else {
            parse_nodes(b, h, 0, mem, mmio, max_mem, max_mmio)
        }
    }
}


/// `new` is `old` with windows added at its end.
pub open spec fn extends(old: Seq<(usize, usize)>, new: Seq<(usize, usize)>) -> bool {
    old.len() <= new.len() && new.subrange(0, old.len() as int) == old
}

proof fn lemma_node_windows_extend(
    b: Seq<u8>,
    h: FdtHeader,
    n: nat,
    mem: Seq<(usize, usize)>,
    mmio: Seq<(usize, usize)>,
    max_mem: nat,
    max_mmio: nat,
)
    requires
        node_windows(b, h, n, mem, mmio, max_mem, max_mmio) is Some,
        mem.len() <= max_mem,
        mmio.len() <= max_mmio,
    ensures
        ({
            let o = node_windows(b, h, n, mem, mmio, max_mem, max_mmio)->0;
            &&& extends(mem, o.0) && o.0.len() <= max_mem
            &&& extends(mmio, o.1) && o.1.len() <= max_mmio
        }),
{
    let o = node_windows(b, h, n, mem, mmio, max_mem, max_mmio)->0;
    assert(mem.subrange(0, mem.len() as int) =~= mem);
    assert(mmio.subrange(0, mmio.len() as int) =~= mmio);
    assert(o.0.subrange(0, mem.len() as int) =~= mem);
    assert(o.1.subrange(0, mmio.len() as int) =~= mmio);
}

proof fn lemma_parse_nodes_extend(
    b: Seq<u8>,
    h: FdtHeader,
    off: nat,
    mem: Seq<(usize, usize)>,
    mmio: Seq<(usize, usize)>,
    max_mem: nat,
    max_mmio: nat,
)
    requires
        parse_nodes(b, h, off, mem, mmio, max_mem, max_mmio) is Some,
        mem.len() <= max_mem,
        mmio.len() <= max_mmio,
    ensures
        ({
            let o = parse_nodes(b, h, off, mem, mmio, max_mem, max_mmio)->0;
            &&& extends(mem, o.0) && o.0.len() <= max_mem
            &&& extends(mmio, o.1) && o.1.len() <= max_mmio
        }),
    decreases room(b, pos(h, off)),
{
    assert(mem.subrange(0, mem.len() as int) =~= mem);
    assert(mmio.subrange(0, mmio.len() as int) =~= mmio);
    match next_node(b, h, off) {
        Some(Ok((true, n))) => {
            if n > off {
                lemma_node_windows_extend(b, h, n, mem, mmio, max_mem, max_mmio);
                let w = node_windows(b, h, n, mem, mmio, max_mem, max_mmio)->0;
                if w.2 is None {
                    lemma_parse_nodes_extend(b, h, n, w.0, w.1, max_mem, max_mmio);
                    let o = parse_nodes(b, h, n, w.0, w.1, max_mem, max_mmio)->0;
                    assert(o.0.subrange(0, mem.len() as int) =~= o.0.subrange(
                        0,
                        w.0.len() as int,
                    ).subrange(0, mem.len() as int));
                    assert(o.1.subrange(0, mmio.len() as int) =~= o.1.subrange(
                        0,
                        w.1.len() as int,
                    ).subrange(0, mmio.len() as int));
                }
            }
        },
        _ => {},
    }
}

/// Parsing a tree keeps the windows already held and adds the tree's own
/// after them, in tree order, never beyond the capacities.
pub proof fn law_parse_keeps_windows(
    b: Seq<u8>,
    mem: Seq<(usize, usize)>,
    mmio: Seq<(usize, usize)>,
    max_mem: nat,
    max_mmio: nat,
)
    requires
        parse_blob(b, mem, mmio, max_mem, max_mmio) is Some,
        mem.len() <= max_mem,
        mmio.len() <= max_mmio,
    ensures
        ({
            let o = parse_blob(b, mem, mmio, max_mem, max_mmio)->0;
            &&& extends(mem, o.0) && o.0.len() <= max_mem
            &&& extends(mmio, o.1) && o.1.len() <= max_mmio
        }),
{
    assert(mem.subrange(0, mem.len() as int) =~= mem);
    assert(mmio.subrange(0, mmio.len() as int) =~= mmio);
    if b.len() >= FDT_HEADER_SIZE {
        let h = header_of(b);
        if h.magic == FDT_MAGIC && h.version == FDT_VERSION {
            lemma_parse_nodes_extend(b, h, 0, mem, mmio, max_mem, max_mmio);
        }
    }
}

// ---------------------------------------------------------------------------
// The walk

/// The word at byte `p` of `b`, if it lies within `b`.
fn read_word(b: &[u8], p: u128) -> (r: Option<u32>)
    ensures
        r == word_at(b@, p as nat),
{
    let n = b.len();
    if (n as u128) < 4 || p > (n as u128) - 4 {
        None
    } else {
        Some(read_be32(b, p as usize))
    }
}

/// Byte position of word `off` of the structure block.
fn word_pos(h: &FdtHeader, off: usize) -> (r: u128)
    ensures
        r == pos(*h, off as nat),
{
    h.off_dt_struct as u128 + 4 * (off as u128)
}

/// Whether the cursor of `fdt` is within its structure block.
fn in_struct_block(fdt: &FdtContext) -> (r: bool)
    ensures
        r == contains(fdt.header, fdt.struct_current_offset as nat),
{
    (fdt.struct_current_offset as u128) * 4 <= fdt.header.size_dt_struct as u128
}

/// Length of the NUL-terminated string at byte `p` of `b`.
fn cstr_length(b: &[u8], p: u128) -> (r: Option<usize>)
    ensures
        r matches Some(l) ==> cstr_len(b@, p as nat) == Some(l as nat) && p + l < b@.len(),
        r is None ==> cstr_len(b@, p as nat) is None,
{
    let n = b.len();
    if p >= n as u128 {
        return None;
    }
    let start = p as usize;
    let mut i = start;
    while i < n
        invariant
            start == p,
            start <= i <= n,
            n == b@.len(),
            cstr_len(b@, p as nat) == (match cstr_len(b@, i as nat) {
                Some(k) => Some(k + (i - start) as nat),
                None => None,
            }),
        decreases n - i,
    {
        if b[i] == 0 {
            return Some(i - start);
        }
        i = i + 1;
    }
    None
}

/// Whether `a` and `c` hold the same bytes.
fn bytes_equal(a: &[u8], c: &[u8]) -> (r: bool)
    ensures
        r == (a@ == c@),
{
    if a.len() != c.len() {
        return false;
    }
    let mut i: usize = 0;
    while i < a.len()
        invariant
            i <= a@.len(),
            a@.len() == c@.len(),
            forall|k: int| 0 <= k < i ==> a@[k] == c@[k],
        decreases a@.len() - i,
    {
        if a[i] != c[i] {
            return false;
        }
        i = i + 1;
    }
    assert(a@ =~= c@);
    true
}

fn device_type_name() -> (r: [u8; 11])
    ensures
        r@ == name_device_type(),
{
    let r = [0x64u8, 0x65, 0x76, 0x69, 0x63, 0x65, 0x5f, 0x74, 0x79, 0x70, 0x65];
    assert(r@ =~= name_device_type());
    r
}

fn compatible_name() -> (r: [u8; 10])
    ensures
        r@ == name_compatible(),
{
    let r = [0x63u8, 0x6f, 0x6d, 0x70, 0x61, 0x74, 0x69, 0x62, 0x6c, 0x65];
    assert(r@ =~= name_compatible());
    r
}

fn reg_name() -> (r: [u8; 3])
    ensures
        r@ == name_reg(),
{
    let r = [0x72u8, 0x65, 0x67];
    assert(r@ =~= name_reg());
    r
}

fn memory_value() -> (r: [u8; 7])
    ensures
        r@ == value_memory(),
{
    let r = [0x6du8, 0x65, 0x6d, 0x6f, 0x72, 0x79, 0x00];
    assert(r@ =~= value_memory());
    r
}

fn virtio_mmio_value() -> (r: [u8; 12])
    ensures
        r@ == value_virtio_mmio(),
{
    let r = [0x76u8, 0x69, 0x72, 0x74, 0x69, 0x6f, 0x2c, 0x6d, 0x6d, 0x69, 0x6f, 0x00];
    assert(r@ =~= value_virtio_mmio());
    r
}

/// Skips the node whose name starts at word `off`; returns the word just
/// past its end token.
fn skip_fdt_node(b: &[u8], h: &FdtHeader, off: usize) -> (r: Result<usize, FdtError>)
    ensures
        r matches Ok(a) ==> skip_node(b@, *h, off as nat) == Ok::<nat, FdtError>(a as nat) && a
            > off && pos(*h, a as nat) <= b@.len(),
        r matches Err(e) ==> skip_node(b@, *h, off as nat) == Err::<nat, FdtError>(e),
    decreases room(b@, pos(*h, off as nat)),
{
    let n = b.len();
    let mut cur = off;
    let mut token = match read_word(b, word_pos(h, cur)) {
        None => {
            return Err(FdtError::UnexpectedEOF);
        },
        Some(t) => t,
    };
    while token != FDT_END_NODE
        invariant
            n == b@.len(),
            cur >= off,
            pos(*h, off as nat) + 4 <= n,
            pos(*h, cur as nat) <= n,
            token != FDT_BEGIN_NODE ==> pos(*h, cur as nat) + 4 <= n,
            skip_node(b@, *h, off as nat) == skip_rest(b@, *h, cur as nat, token),
        decreases room(b@, pos(*h, cur as nat)),
    {
        cur = cur + 1;
        token = match read_word(b, word_pos(h, cur)) {
            None => {
                return Err(FdtError::UnexpectedEOF);
            },
            Some(t) => t,
        };
        if token == FDT_BEGIN_NODE {
            match skip_fdt_node(b, h, cur) {
                Err(e) => {
                    return Err(e);
                },
                Ok(a) => {
                    cur = a;
                },
            }
        }
    }
    Ok(cur + 1)
}

/// Moves the cursor to the next node: past its begin token (`true`), or
/// past the end token of the tree (`false`).
fn fdt_node_iteration(fdt: &mut FdtContext, b: &[u8]) -> (r: Result<bool, FdtError>)
    requires
        contains(old(fdt).header, old(fdt).struct_current_offset as nat),
    ensures
        final(fdt).header == old(fdt).header,
        final(fdt).fdt_address == old(fdt).fdt_address,
        r matches Ok(found) ==> node_scan(b@, old(fdt).header, old(fdt).struct_current_offset as nat)
            == Ok::<(bool, nat), FdtError>((found, final(fdt).struct_current_offset as nat))
            && final(fdt).struct_current_offset > old(fdt).struct_current_offset && pos(
            old(fdt).header,
            old(fdt).struct_current_offset as nat,
        ) + 4 <= b@.len(),
        r matches Err(e) ==> node_scan(b@, old(fdt).header, old(fdt).struct_current_offset as nat)
            == Err::<(bool, nat), FdtError>(e),
{
    let ghost h = fdt.header;
    let ghost start = fdt.struct_current_offset;
    loop
        invariant
            fdt.header == h,
            fdt.fdt_address == old(fdt).fdt_address,
            h == old(fdt).header,
            start == old(fdt).struct_current_offset,
            fdt.struct_current_offset >= start,
            fdt.struct_current_offset > start ==> pos(h, start as nat) + 4 <= b@.len(),
            fdt.struct_current_offset <= 0x8000_0004,
            node_scan(b@, h, start as nat) == node_scan(
                b@,
                h,
                fdt.struct_current_offset as nat,
            ),
        decreases room(b@, pos(h, fdt.struct_current_offset as nat)),
    {
        if !in_struct_block(fdt) {
            return Err(FdtError::UnexpectedEOF);
        }
        let token = match read_word(b, word_pos(&fdt.header, fdt.struct_current_offset)) {
            None => {
                return Err(FdtError::UnexpectedEOF);
            },
            Some(t) => t,
        };
        fdt.struct_current_offset = fdt.struct_current_offset + 1;
        if token == FDT_BEGIN_NODE {
            return Ok(true);
        } else if token == FDT_PROP {
            let p = word_pos(&fdt.header, fdt.struct_current_offset);
            let len = match read_word(b, p) {
                None => {
                    return Err(FdtError::UnexpectedEOF);
                },
                Some(l) => l,
            };
            match read_word(b, p + 4) {
                None => {
                    return Err(FdtError::UnexpectedEOF);
                },
                Some(_) => {},
            }
            let skip = ((8 + len as u64) / 4) as usize;
            fdt.struct_current_offset = fdt.struct_current_offset + skip;
        } else if token == FDT_END {
            return Ok(false);
        }
    }
}

/// Moves the cursor to the next property of the current node: at its
/// length word (`true`), or past the node's end token (`false`).
fn fdt_prop_iteration(fdt: &mut FdtContext, b: &[u8]) -> (r: Result<bool, FdtError>)
    requires
        contains(old(fdt).header, old(fdt).struct_current_offset as nat),
    ensures
        final(fdt).header == old(fdt).header,
        final(fdt).fdt_address == old(fdt).fdt_address,
        r matches Ok(found) ==> prop_scan(b@, old(fdt).header, old(fdt).struct_current_offset as nat)
            == Ok::<(bool, nat), FdtError>((found, final(fdt).struct_current_offset as nat))
            && final(fdt).struct_current_offset > old(fdt).struct_current_offset
            && final(fdt).struct_current_offset <= 0x4000_0001 && pos(
            old(fdt).header,
            old(fdt).struct_current_offset as nat,
        ) + 4 <= b@.len(),
        r matches Err(e) ==> prop_scan(b@, old(fdt).header, old(fdt).struct_current_offset as nat)
            == Err::<(bool, nat), FdtError>(e),
{
    let ghost h = fdt.header;
    let ghost start = fdt.struct_current_offset;
    let n = b.len();
    loop
        invariant
            n == b@.len(),
            fdt.header == h,
            fdt.fdt_address == old(fdt).fdt_address,
            h == old(fdt).header,
            start == old(fdt).struct_current_offset,
            fdt.struct_current_offset >= start,
            fdt.struct_current_offset > start ==> pos(h, start as nat) + 4 <= n,
            pos(h, fdt.struct_current_offset as nat) <= n || fdt.struct_current_offset == start,
            prop_scan(b@, h, start as nat) == prop_scan(b@, h, fdt.struct_current_offset as nat),
        decreases room(b@, pos(h, fdt.struct_current_offset as nat)),
    {
        if !in_struct_block(fdt) {
            return Err(FdtError::UnexpectedEOF);
        }
        let token = match read_word(b, word_pos(&fdt.header, fdt.struct_current_offset)) {
            None => {
                return Err(FdtError::UnexpectedEOF);
            },
            Some(t) => t,
        };
        fdt.struct_current_offset = fdt.struct_current_offset + 1;
        if token == FDT_BEGIN_NODE {
            match skip_fdt_node(b, &fdt.header, fdt.struct_current_offset) {
                Err(e) => {
                    return Err(e);
                },
                Ok(a) => {
                    fdt.struct_current_offset = a;
                },
            }
        } else if token == FDT_PROP {
            return Ok(true);
        } else if token == FDT_END_NODE {
            return Ok(false);
        }
    }
}


/// The value of the first property named `name` of the node under the
/// cursor of `fdt`.
fn search_fdt_property<'a>(ctx: FdtContext, b: &'a [u8], name: &[u8]) -> (r: Option<
    Result<Option<&'a [u8]>, FdtError>,
>)
    ensures
        ({
            let s = search_scan(b@, ctx.header, ctx.struct_current_offset as nat, name@);
            &&& r is None <==> s is None
            &&& r matches Some(Ok(Some(v))) ==> s == Some(Ok::<Option<Seq<u8>>, FdtError>(Some(v@)))
            &&& r matches Some(Ok(None)) ==> s == Some(Ok::<Option<Seq<u8>>, FdtError>(None))
            &&& r matches Some(Err(e)) ==> s == Some(Err::<Option<Seq<u8>>, FdtError>(e))
        }),
{
    let ghost h = ctx.header;
    let ghost target = search_scan(b@, h, ctx.struct_current_offset as nat, name@);
    let n = b.len();
    let mut fdt = ctx;
    loop
        invariant
            n == b@.len(),
            h == ctx.header,
            target == search_scan(b@, ctx.header, ctx.struct_current_offset as nat, name@),
            fdt.header == h,
            search_scan(b@, h, fdt.struct_current_offset as nat, name@) == target,
        decreases room(b@, pos(h, fdt.struct_current_offset as nat)),
    {
        let ghost before = fdt.struct_current_offset;
        if !in_struct_block(&fdt) {
            return None;
        }
        let more = match fdt_prop_iteration(&mut fdt, b) {
            Ok(m) => m,
            Err(e) => {
                return Some(Err(e));
            },
        };
        if !more {
            return Some(Ok(None));
        }
        let p = fdt.struct_current_offset;
        let pp = word_pos(&fdt.header, p);
        let len = match read_word(b, pp) {
            None => {
                return Some(Err(FdtError::UnexpectedEOF));
            },
            Some(l) => l,
        };
        let nameoff = match read_word(b, pp + 4) {
            None => {
                return Some(Err(FdtError::UnexpectedEOF));
            },
            Some(x) => x,
        };
        let np: u128 = fdt.header.off_dt_strings as u128 + nameoff as u128;
        let l = match cstr_length(b, np) {
            None => {
                return Some(Err(FdtError::UnexpectedEOF));
            },
            Some(l) => l,
        };
        let prop_name = vstd::slice::slice_subrange(b, np as usize, np as usize + l);
        if !is_utf8(prop_name) {
            return None;
        }
        fdt.struct_current_offset = p + 2;
        if bytes_equal(prop_name, name) {
            let vp = word_pos(&fdt.header, fdt.struct_current_offset);
            if vp + (len as u128) <= n as u128 {
                let v = vstd::slice::slice_subrange(b, vp as usize, vp as usize + len as usize);
                return Some(Ok(Some(v)));
            } else {
                return Some(Err(FdtError::UnexpectedEOF));
            }
        }
        fdt.struct_current_offset = fdt.struct_current_offset + (len / 4) as usize;
        proof {
            assert(fdt.struct_current_offset > before);
        }
    }
}

/// The memory and MMIO windows found in a device tree, at most
/// `MAX_MEMORY_ENTRIES` and `MAX_MMIO_ENTRIES` of them.
pub struct DeviceTreeInfo<const MAX_MEMORY_ENTRIES: usize, const MAX_MMIO_ENTRIES: usize> {
    pub memory: Vec<MemoryEntry>,
    pub mmio: Vec<MmioEntry>,
}

impl<const MAX_MEMORY_ENTRIES: usize, const MAX_MMIO_ENTRIES: usize> DeviceTreeInfo<
    MAX_MEMORY_ENTRIES,
    MAX_MMIO_ENTRIES,
> {
    /// Address and size of each memory window, in order.
    pub open spec fn memory_windows(&self) -> Seq<(usize, usize)> {
        self.memory@.map_values(|e: MemoryEntry| (e.address, e.size))
    }

    /// Address and size of each MMIO window, in order.
    pub open spec fn mmio_windows(&self) -> Seq<(usize, usize)> {
        self.mmio@.map_values(|e: MmioEntry| (e.address, e.size))
    }

    /// Both lists within their capacities.
    pub open spec fn wf(&self) -> bool {
        &&& self.memory@.len() <= MAX_MEMORY_ENTRIES
        &&& self.mmio@.len() <= MAX_MMIO_ENTRIES
    }

    pub fn new() -> (r: Self)
        ensures
            r.wf(),
            r.memory@.len() == 0,
            r.mmio@.len() == 0,
    {
        DeviceTreeInfo { memory: Vec::new(), mmio: Vec::new() }
    }

    /// Decodes the header at the start of blob `b`.
    pub fn parse_header(b: &[u8]) -> (r: FdtHeader)
        requires
            FDT_HEADER_SIZE <= b@.len(),
        ensures
            r == header_of(b@),
    {
        FdtHeader {
            magic: read_be32(b, 0),
            totalsize: read_be32(b, 4),
            off_dt_struct: read_be32(b, 8),
            off_dt_strings: read_be32(b, 12),
            off_mem_rsvmap: read_be32(b, 16),
            version: read_be32(b, 20),
            last_comp_version: read_be32(b, 24),
            boot_cpuid_phys: read_be32(b, 28),
            size_dt_strings: read_be32(b, 32),
            size_dt_struct: read_be32(b, 36),
        }
    }

    /// The magic number and the version that this parser reads.
    pub fn check_fdt_header(header: FdtHeader) -> (r: Result<(), FdtError>)
        ensures
            r == header_check(header),
    {
        if header.magic != FDT_MAGIC {
            return Err(FdtError::InvalidMagic);
        }
        if header.version != FDT_VERSION {
            return Err(FdtError::UnsupportedVersion);
        }
        Ok(())
    }

    /// Adds the window of the node under the cursor of `fdt`: a memory node
    /// (`device_type` "memory") goes to `memory`, a virtio MMIO device
    /// (`compatible` "virtio,mmio") to `mmio`, each from its `reg` property.
    fn collect_node(&mut self, fdt: FdtContext, b: &[u8]) -> (r: Option<Result<(), FdtError>>)
        requires
            old(self).wf(),
        ensures
            final(self).wf(),
            ({
                let out = node_windows(
                    b@,
                    fdt.header,
                    fdt.struct_current_offset as nat,
                    old(self).memory_windows(),
                    old(self).mmio_windows(),
                    MAX_MEMORY_ENTRIES as nat,
                    MAX_MMIO_ENTRIES as nat,
                );
                &&& r is None <==> out is None
                &&& out matches Some(o) ==> {
                    &&& final(self).memory_windows() == o.0
                    &&& final(self).mmio_windows() == o.1
                    &&& o.2 is None ==> r == Some(Ok::<(), FdtError>(()))
                    &&& o.2 matches Some(e) ==> r == Some(Err::<(), FdtError>(e))
                }
            }),
    {
        let dt = device_type_name();
        let reg = reg_name();
        match search_fdt_property(fdt, b, dt.as_slice()) {
            None => None,
            Some(Err(e)) => Some(Err(e)),
            Some(Ok(Some(v))) => {
                let mem_val = memory_value();
                if bytes_equal(v, mem_val.as_slice()) {
                    match search_fdt_property(fdt, b, reg.as_slice()) {
                        None => None,
                        Some(Err(e)) => Some(Err(e)),
                        Some(Ok(None)) => Some(Ok(())),
                        Some(Ok(Some(r))) => {
                            if r.len() < 16 || self.memory.len() >= MAX_MEMORY_ENTRIES {
                                return None;
                            }
                            let address = be64_at(r, 0);
                            let size = be64_at(r, 8);
                            let ghost before = self.memory_windows();
                            self.memory.push(
                                MemoryEntry { address: address as usize, size: size as usize },
                            );
                            proof {
                                assert(self.memory_windows() =~= before.push(reg_entry(r@)));
                            }
                            Some(Ok(()))
                        },
                    }
                } else {
                    Some(Ok(()))
                }
            },
            Some(Ok(None)) => {
                let compat = compatible_name();
                match search_fdt_property(fdt, b, compat.as_slice()) {
                    None => None,
                    Some(Err(e)) => Some(Err(e)),
                    Some(Ok(None)) => Some(Ok(())),
                    Some(Ok(Some(v))) => {
                        let virtio_val = virtio_mmio_value();
                        if bytes_equal(v, virtio_val.as_slice()) {
                            match search_fdt_property(fdt, b, reg.as_slice()) {
                                None => None,
                                Some(Err(e)) => Some(Err(e)),
                                Some(Ok(None)) => Some(Ok(())),
                                Some(Ok(Some(r))) => {
                                    if r.len() < 16 || self.mmio.len() >= MAX_MMIO_ENTRIES {
                                        return None;
                                    }
                                    let address = be64_at(r, 0);
                                    let size = be64_at(r, 8);
                                    let ghost before = self.mmio_windows();
                                    self.mmio.push(
                                        MmioEntry { address: address as usize, size: size as usize },
                                    );
                                    proof {
                                        assert(self.mmio_windows() =~= before.push(reg_entry(r@)));
                                    }
                                    Some(Ok(()))
                                },
                            }
                        } else {
                            Some(Ok(()))
                        }
                    },
                }
            },
        }
    }

    /// Collects the memory nodes (`device_type` "memory") and the virtio
    /// MMIO devices (`compatible` "virtio,mmio") of blob `b`, from their
    /// `reg` properties, after the windows already held. `None` where the
    /// walk stops the machine (see `parse_blob`); the windows collected up
    /// to that point stay.
    pub fn try_parse(&mut self, b: &[u8]) -> (r: Option<Result<(), FdtError>>)
        requires
            old(self).wf(),
        ensures
            final(self).wf(),
            ({
                let out = parse_blob(
                    b@,
                    old(self).memory_windows(),
                    old(self).mmio_windows(),
                    MAX_MEMORY_ENTRIES as nat,
                    MAX_MMIO_ENTRIES as nat,
                );
                &&& r is None <==> out is None
                &&& out matches Some(o) ==> {
                    &&& final(self).memory_windows() == o.0
                    &&& final(self).mmio_windows() == o.1
                    &&& o.2 is None ==> r == Some(Ok::<(), FdtError>(()))
                    &&& o.2 matches Some(e) ==> r == Some(Err::<(), FdtError>(e))
                }
            }),
    {
        if b.len() < FDT_HEADER_SIZE {
            return Some(Err(FdtError::UnexpectedEOF));
        }
        let header = Self::parse_header(b);
        let mut fdt_context = FdtContext { fdt_address: 0, struct_current_offset: 0, header };
        match Self::check_fdt_header(header) {
            Ok(()) => {},
            Err(e) => {
                return Some(Err(e));
            },
        }
        let ghost out = parse_blob(
            b@,
            old(self).memory_windows(),
            old(self).mmio_windows(),
            MAX_MEMORY_ENTRIES as nat,
            MAX_MMIO_ENTRIES as nat,
        );
        loop
            invariant
                self.wf(),
                fdt_context.header == header,
                header == header_of(b@),
                out == parse_blob(
                    b@,
                    old(self).memory_windows(),
                    old(self).mmio_windows(),
                    MAX_MEMORY_ENTRIES as nat,
                    MAX_MMIO_ENTRIES as nat,
                ),
                parse_nodes(
                    b@,
                    header,
                    fdt_context.struct_current_offset as nat,
                    self.memory_windows(),
                    self.mmio_windows(),
                    MAX_MEMORY_ENTRIES as nat,
                    MAX_MMIO_ENTRIES as nat,
                ) == out,
            decreases room(b@, pos(header, fdt_context.struct_current_offset as nat)),
        {
            if !in_struct_block(&fdt_context) {
                return None;
            }
            let found = match fdt_node_iteration(&mut fdt_context, b) {
                Ok(f) => f,
                Err(e) => {
                    return Some(Err(e));
                },
            };
            if !found {
                return Some(Ok(()));
            }
            match self.collect_node(fdt_context, b) {
                None => {
                    return None;
                },
                Some(Ok(())) => {},
                Some(Err(e)) => {
                    return Some(Err(e));
                },
            }
        }
    }

    /// `try_parse` on a blob on which the walk does not stop the machine.
    pub fn parse(&mut self, b: &[u8]) -> (r: Result<(), FdtError>)
        requires
            old(self).wf(),
            parse_blob(
                b@,
                old(self).memory_windows(),
                old(self).mmio_windows(),
                MAX_MEMORY_ENTRIES as nat,
                MAX_MMIO_ENTRIES as nat,
            ) is Some,
        ensures
            final(self).wf(),
            ({
                let out = parse_blob(
                    b@,
                    old(self).memory_windows(),
                    old(self).mmio_windows(),
                    MAX_MEMORY_ENTRIES as nat,
                    MAX_MMIO_ENTRIES as nat,
                )->0;
                &&& final(self).memory_windows() == out.0
                &&& final(self).mmio_windows() == out.1
                &&& out.2 is None ==> r is Ok
                &&& out.2 matches Some(e) ==> r == Err::<(), FdtError>(e)
            }),
    {
        match self.try_parse(b) {
            Some(r) => r,
            None => {
                proof {
                    assert(false);
                }
                Err(FdtError::UnexpectedEOF)
            },
        }
    }
}

} // verus!
