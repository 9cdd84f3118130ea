use vstd::prelude::*;
use vstd::string::*;
use crate::block::{BlockDevice, BlockDeviceError, SECTOR_SIZE, sectors_of};

verus! {

pub const PARTITION_TYPE_FAT32: u8 = 0x1c;
pub const PARTITION_TABLE_OFFSET: usize = 446;
pub const NUM_PARTITIONS: usize = 4;
pub const DIR_ENTRY_SIZE: usize = 32;

pub const ATTR_READ_ONLY: u8 = 0x01;
pub const ATTR_HIDDEN: u8 = 0x02;
pub const ATTR_SYSTEM: u8 = 0x04;
pub const ATTR_VOLUME_ID: u8 = 0x08;
pub const ATTR_DIRECTORY: u8 = 0x10;
pub const ATTR_ARCHIVE: u8 = 0x20;
/// Attribute value that marks a long-file-name entry.
pub const ATTR_LONG_NAME: u8 = 0x0F;

/// Cluster numbers from here on mark the end of a chain.
pub const END_OF_CHAIN: u32 = 0x0FFFFFF8;

// ---------------------------------------------------------------------------
// Little-endian fields

pub open spec fn le16(b: Seq<u8>, off: int) -> nat {
    b[off] as nat + b[off + 1] as nat * 0x100
}

pub open spec fn le32(b: Seq<u8>, off: int) -> nat {
    le16(b, off) + le16(b, off + 2) * 0x1_0000
}

pub open spec fn le64(b: Seq<u8>, off: int) -> nat {
    le32(b, off) + le32(b, off + 4) * 0x1_0000_0000
}

pub fn read_le16(b: &[u8], off: usize) -> (r: u16)
    requires
        off + 2 <= b@.len(),
    ensures
        r == le16(b@, off as int),
{
    let n = b.len();
    assert(off + 2 <= n);
    b[off] as u16 + (b[off + 1] as u16) * 0x100
}

pub fn read_le32(b: &[u8], off: usize) -> (r: u32)
    requires
        off + 4 <= b@.len(),
    ensures
        r == le32(b@, off as int),
{
    let n = b.len();
    assert(off + 4 <= n);
    read_le16(b, off) as u32 + (read_le16(b, off + 2) as u32) * 0x1_0000
}

pub fn read_le64(b: &[u8], off: usize) -> (r: u64)
    requires
        off + 8 <= b@.len(),
    ensures
        r == le64(b@, off as int),
{
    let n = b.len();
    assert(off + 8 <= n);
    read_le32(b, off) as u64 + (read_le32(b, off + 4) as u64) * 0x1_0000_0000
}

fn copy_bytes<const N: usize>(b: &[u8], off: usize) -> (r: [u8; N])
    requires
        off + N <= b@.len(),
    ensures
        r@ == b@.subrange(off as int, off + N),
{
    let mut r = [0u8; N];
    let mut i: usize = 0;
    let n = b.len();
    while i < N
        invariant
            i <= N,
            off + N <= b@.len(),
            n == b@.len(),
            r@.len() == N,
            forall|k: int| 0 <= k < i ==> r@[k] == b@[off + k],
        decreases N - i,
    {
        r[i] = b[off + i];
        i = i + 1;
    }
    assert(r@ =~= b@.subrange(off as int, off + N));
    r
}

// ---------------------------------------------------------------------------
// Short file names

/// What `String::from_utf8_lossy` makes of `bytes`.
pub uninterp spec fn utf8_lossy(bytes: Seq<u8>) -> Seq<char>;

/// The characters of ASCII bytes.
pub open spec fn ascii_chars(bytes: Seq<u8>) -> Seq<char> {
    Seq::new(bytes.len(), |i: int| bytes[i] as char)
}

/// `String::from_utf8_lossy`: decodes the bytes as UTF-8, each invalid
/// sequence becoming U+FFFD. Claimed: the result is the named decoding of
/// the bytes, and ASCII bytes decode to the same characters.
#[verifier::external_body]
fn from_utf8_lossy(bytes: &[u8]) -> (r: String)
    ensures
        r@ == utf8_lossy(bytes@),
        (forall|i: int| 0 <= i < bytes@.len() ==> bytes@[i] < 128) ==> r@ == ascii_chars(bytes@),
{
    String::from_utf8_lossy(bytes).into_owned()
}

/// Characters with the Unicode White_Space property, as `char::is_whitespace`
/// tells them.
pub open spec fn is_whitespace(c: char) -> bool {
    let u = c as u32;
    ||| 0x09 <= u <= 0x0D
    ||| u == 0x20
    ||| u == 0x85
    ||| u == 0xA0
    ||| u == 0x1680
    ||| 0x2000 <= u <= 0x200A
    ||| u == 0x2028
    ||| u == 0x2029
    ||| u == 0x202F
    ||| u == 0x205F
    ||| u == 0x3000
}

/// `s` without its trailing whitespace.
pub open spec fn trim_end_spec(s: Seq<char>) -> Seq<char>
    decreases s.len(),
{
    if s.len() > 0 && is_whitespace(s.last()) {
        trim_end_spec(s.drop_last())
    } else {
        s
    }
}

/// `str::trim_end`: claimed to drop exactly the trailing characters for
/// which `char::is_whitespace` holds.
#[verifier::external_body]
fn trim_end(s: &str) -> (r: &str)
    ensures
        r@ == trim_end_spec(s@),
{
    s.trim_end()
}

/// The printable name of an 8.3 directory entry: the trimmed name, then a
/// dot and the trimmed extension when there is one.
pub open spec fn short_name(name: Seq<u8>, ext: Seq<u8>) -> Seq<char> {
    let n = trim_end_spec(utf8_lossy(name));
    let e = trim_end_spec(utf8_lossy(ext));
    if e.len() > 0 {
        n + seq!['.'] + e
    } else {
        n
    }
}

pub fn get_short_file_name(name: &[u8; 8], ext: &[u8; 3]) -> (r: String)
    ensures
        r@ == short_name(name@, ext@),
{
    let name_full = from_utf8_lossy(name.as_slice());
    let name_str = trim_end(name_full.as_str()).to_owned();
    let ext_full = from_utf8_lossy(ext.as_slice());
    let ext_str = trim_end(ext_full.as_str()).to_owned();
    if !ext_str.as_str().is_empty() {
        let joined = name_str.concat(".");
        proof {
            reveal_strlit(".");
        }
        let r = joined.concat(ext_str.as_str());
        r
    } else {
        name_str
    }
}

// ---------------------------------------------------------------------------
// On-disk structures

/// One entry of the MBR partition table.
pub struct PartitionTableEntry {
    pub bootflag: u8,
    pub chs_partition_start: [u8; 3],
    pub partition_type: u8,
    pub chs_partition_end: [u8; 3],
    pub lba_partition_start: u32,
    pub sector_number: u32,
}

impl PartitionTableEntry {
    /// The 16-byte entry at `off` of a boot sector.
    pub fn parse(b: &[u8], off: usize) -> (r: Self)
        requires
            off + 16 <= b@.len(),
        ensures
            r.bootflag == b@[off as int],
            r.partition_type == b@[off + 4],
            r.lba_partition_start == le32(b@, off + 8),
            r.sector_number == le32(b@, off + 12),
    {
        let n = b.len();
        assert(off + 16 <= n);
        PartitionTableEntry {
            bootflag: b[off],
            chs_partition_start: copy_bytes::<3>(b, off + 1),
            partition_type: b[off + 4],
            chs_partition_end: copy_bytes::<3>(b, off + 5),
            lba_partition_start: read_le32(b, off + 8),
            sector_number: read_le32(b, off + 12),
        }
    }
}

/// The BIOS parameter block of a FAT32 volume.
#[derive(Clone, Copy)]
pub struct BiosParameterBlock {
    pub jump_boot: [u8; 3],
    pub name: [u8; 8],
    pub bytes_per_sector: u16,
    pub sectors_per_cluster: u8,
    pub reserved_sectors_count: u16,
    pub fat_number: u8,
    pub root_entry_count: u16,
    pub total_sectors: u16,
    pub media: u8,
    pub fat_size_16: u16,
    pub sectors_per_track: u16,
    pub heads_number: u16,
    pub hidden_sectors: u32,
    pub total_sectors_32: u32,
    pub fat_size_32: u32,
    pub ext_flags: u16,
    pub filesystem_version: u16,
    pub root_cluster: u32,
    pub filesystem_info: u16,
    pub bk_boot_sector: u16,
    pub reserved: [u8; 12],
    pub drive_number_32: u8,
    pub reserved1: u8,
    pub boot_signature: u8,
    pub volume_id: u32,
    pub volume_label: [u8; 11],
    pub filesystem_type: u64,
}

/// Size of the packed parameter block at the start of a volume.
pub const BPB_SIZE: usize = 90;

impl BiosParameterBlock {
    /// Every field zero, every byte array all zeros.
    pub open spec fn is_zeroed(self) -> bool {
        &&& self.jump_boot@ == Seq::new(3, |i: int| 0u8)
        &&& self.name@ == Seq::new(8, |i: int| 0u8)
        &&& self.bytes_per_sector == 0 && self.sectors_per_cluster == 0
        &&& self.reserved_sectors_count == 0 && self.fat_number == 0
        &&& self.root_entry_count == 0 && self.total_sectors == 0 && self.media == 0
        &&& self.fat_size_16 == 0 && self.sectors_per_track == 0 && self.heads_number == 0
        &&& self.hidden_sectors == 0 && self.total_sectors_32 == 0 && self.fat_size_32 == 0
        &&& self.ext_flags == 0 && self.filesystem_version == 0 && self.root_cluster == 0
        &&& self.filesystem_info == 0 && self.bk_boot_sector == 0
        &&& self.reserved@ == Seq::new(12, |i: int| 0u8)
        &&& self.drive_number_32 == 0 && self.reserved1 == 0 && self.boot_signature == 0
        &&& self.volume_id == 0
        &&& self.volume_label@ == Seq::new(11, |i: int| 0u8)
        &&& self.filesystem_type == 0
    }

    pub fn new() -> (r: Self)
        ensures
            r.is_zeroed(),
    {
        let r = BiosParameterBlock {
            jump_boot: [0; 3],
            name: [0; 8],
            bytes_per_sector: 0,
            sectors_per_cluster: 0,
            reserved_sectors_count: 0,
            fat_number: 0,
            root_entry_count: 0,
            total_sectors: 0,
            media: 0,
            fat_size_16: 0,
            sectors_per_track: 0,
            heads_number: 0,
            hidden_sectors: 0,
            total_sectors_32: 0,
            fat_size_32: 0,
            ext_flags: 0,
            filesystem_version: 0,
            root_cluster: 0,
            filesystem_info: 0,
            bk_boot_sector: 0,
            reserved: [0; 12],
            drive_number_32: 0,
            reserved1: 0,
            boot_signature: 0,
            volume_id: 0,
            volume_label: [0; 11],
            filesystem_type: 0,
        };
        assert(r.jump_boot@ =~= Seq::new(3, |i: int| 0u8));
        assert(r.name@ =~= Seq::new(8, |i: int| 0u8));
        assert(r.reserved@ =~= Seq::new(12, |i: int| 0u8));
        assert(r.volume_label@ =~= Seq::new(11, |i: int| 0u8));
        r
    }

    /// Decodes the parameter block at the start of a volume's first sector.
    pub fn parse(b: &[u8]) -> (r: Self)
        requires
            BPB_SIZE <= b@.len(),
        ensures
            r.bytes_per_sector == le16(b@, 11),
            r.sectors_per_cluster == b@[13],
            r.reserved_sectors_count == le16(b@, 14),
            r.fat_number == b@[16],
            r.root_entry_count == le16(b@, 17),
            r.total_sectors == le16(b@, 19),
            r.media == b@[21],
            r.fat_size_16 == le16(b@, 22),
            r.sectors_per_track == le16(b@, 24),
            r.heads_number == le16(b@, 26),
            r.hidden_sectors == le32(b@, 28),
            r.total_sectors_32 == le32(b@, 32),
            r.fat_size_32 == le32(b@, 36),
            r.ext_flags == le16(b@, 40),
            r.filesystem_version == le16(b@, 42),
            r.root_cluster == le32(b@, 44),
            r.filesystem_info == le16(b@, 48),
            r.bk_boot_sector == le16(b@, 50),
            r.drive_number_32 == b@[64],
            r.reserved1 == b@[65],
            r.boot_signature == b@[66],
            r.volume_id == le32(b@, 67),
            r.filesystem_type == le64(b@, 82),
    {
        BiosParameterBlock {
            jump_boot: copy_bytes::<3>(b, 0),
            name: copy_bytes::<8>(b, 3),
            bytes_per_sector: read_le16(b, 11),
            sectors_per_cluster: b[13],
            reserved_sectors_count: read_le16(b, 14),
            fat_number: b[16],
            root_entry_count: read_le16(b, 17),
            total_sectors: read_le16(b, 19),
            media: b[21],
            fat_size_16: read_le16(b, 22),
            sectors_per_track: read_le16(b, 24),
            heads_number: read_le16(b, 26),
            hidden_sectors: read_le32(b, 28),
            total_sectors_32: read_le32(b, 32),
            fat_size_32: read_le32(b, 36),
            ext_flags: read_le16(b, 40),
            filesystem_version: read_le16(b, 42),
            root_cluster: read_le32(b, 44),
            filesystem_info: read_le16(b, 48),
            bk_boot_sector: read_le16(b, 50),
            reserved: copy_bytes::<12>(b, 52),
            drive_number_32: b[64],
            reserved1: b[65],
            boot_signature: b[66],
            volume_id: read_le32(b, 67),
            volume_label: copy_bytes::<11>(b, 71),
            filesystem_type: read_le64(b, 82),
        }
    }
}

/// A short (8.3) directory entry.
#[derive(Clone, Copy)]
pub struct DirEntry {
    pub name: [u8; 8],
    pub ext: [u8; 3],
    pub attributes: u8,
    pub reserved: u8,
    pub creation_tenths: u8,
    pub creation_time: u16,
    pub creation_date: u16,
    pub last_access_date: u16,
    pub first_cluster_high: u16,
    pub last_write_time: u16,
    pub last_write_data: u16,
    pub first_cluster_low: u16,
    pub file_size: u32,
}

/// The fields of the entry at `off` that the file system reads.
pub open spec fn entry_matches(e: DirEntry, b: Seq<u8>, off: int) -> bool {
    &&& e.name@ == b.subrange(off, off + 8)
    &&& e.ext@ == b.subrange(off + 8, off + 11)
    &&& e.attributes == b[off + 11]
    &&& e.first_cluster_high == le16(b, off + 20)
    &&& e.first_cluster_low == le16(b, off + 26)
    &&& e.file_size == le32(b, off + 28)
}

impl DirEntry {
    pub fn parse(b: &[u8], off: usize) -> (r: Self)
        requires
            off + DIR_ENTRY_SIZE <= b@.len(),
        ensures
            entry_matches(r, b@, off as int),
    {
        let n = b.len();
        assert(off + 32 <= n);
        DirEntry {
            name: copy_bytes::<8>(b, off),
            ext: copy_bytes::<3>(b, off + 8),
            attributes: b[off + 11],
            reserved: b[off + 12],
            creation_tenths: b[off + 13],
            creation_time: read_le16(b, off + 14),
            creation_date: read_le16(b, off + 16),
            last_access_date: read_le16(b, off + 18),
            first_cluster_high: read_le16(b, off + 20),
            last_write_time: read_le16(b, off + 22),
            last_write_data: read_le16(b, off + 24),
            first_cluster_low: read_le16(b, off + 26),
            file_size: read_le32(b, off + 28),
        }
    }
}


// ---------------------------------------------------------------------------
// The file system

#[derive(Debug)]
pub enum FatError {
    DeviceError(BlockDeviceError),
    NoSuchFileOrDirectory,
    OutOfBuffer,
    /// A cluster chain leaves the FAT, loops, or runs past the file's buffer.
    BrokenClusterChain,
}

impl FatError {
    pub fn as_str(&self) -> (r: &'static str)
        ensures
            *self is DeviceError ==> r@ == "block device error"@,
            *self is NoSuchFileOrDirectory ==> r@ == "No such file or directory."@,
            *self is OutOfBuffer ==> r@ == "Buffer too small."@,
            *self is BrokenClusterChain ==> r@ == "Broken cluster chain."@,
    {
        match self {
            FatError::DeviceError(_) => "block device error",
            FatError::NoSuchFileOrDirectory => "No such file or directory.",
            FatError::OutOfBuffer => "Buffer too small.",
            FatError::BrokenClusterChain => "Broken cluster chain.",
        }
    }
}

/// Name bytes of directory slot `i` of `b`.
pub open spec fn slot_name(b: Seq<u8>, i: nat) -> Seq<u8> {
    b.subrange((i * 32) as int, (i * 32 + 8) as int)
}

/// Extension bytes of directory slot `i` of `b`.
pub open spec fn slot_ext(b: Seq<u8>, i: nat) -> Seq<u8> {
    b.subrange((i * 32 + 8) as int, (i * 32 + 11) as int)
}

/// Directory listing of the entries from slot `i` of `b`: up to the first
/// free slot, long-name entries skipped.
pub open spec fn listing(b: Seq<u8>, i: nat) -> Seq<Seq<char>>
    decreases b.len() - i * 32,
{
    if (i + 1) * 32 > b.len() || b[(i * 32) as int] == 0 {
        Seq::empty()
    } else if b[(i * 32 + 11) as int] == ATTR_LONG_NAME {
        listing(b, i + 1)
    } else {
        seq![short_name(slot_name(b, i), slot_ext(b, i))] + listing(b, i + 1)
    }
}

/// The first slot from `i` on whose name reads `name`.
pub open spec fn find_entry(b: Seq<u8>, name: Seq<char>, i: nat) -> Option<nat>
    decreases b.len() - i * 32,
{
    if (i + 1) * 32 > b.len() {
        None
    } else if short_name(slot_name(b, i), slot_ext(b, i)) == name {
        Some(i)
    } else {
        find_entry(b, name, i + 1)
    }
}

/// Every name in a directory listing can be looked up: the lookup finds an
/// entry by that name (the first one).
pub proof fn law_listed_names_found(b: Seq<u8>, i: nat, name: Seq<char>)
    requires
        listing(b, i).contains(name),
    ensures
        find_entry(b, name, i) is Some,
    decreases b.len() - i * 32,
{
    if (i + 1) * 32 > b.len() || b[(i * 32) as int] == 0 {
    } else if b[(i * 32 + 11) as int] == ATTR_LONG_NAME {
        law_listed_names_found(b, i + 1, name);
    } else {
        if short_name(slot_name(b, i), slot_ext(b, i)) != name {
            let rest = listing(b, i + 1);
            let k = choose|k: int| 0 <= k < listing(b, i).len() && listing(b, i)[k] == name;
            assert(listing(b, i) == seq![short_name(slot_name(b, i), slot_ext(b, i))] + rest);
            assert(k > 0);
            assert(rest[k - 1] == name);
            law_listed_names_found(b, i + 1, name);
        }
    }
}

/// The clusters of the chain that starts at `c`, following `fat` for at
/// most `fuel` clusters; `None` when it leaves the table or is longer.
pub open spec fn chain(fat: Seq<u32>, c: u32, fuel: nat) -> Option<Seq<u32>>
    decreases fuel,
{
    if c >= END_OF_CHAIN {
        Some(Seq::empty())
    } else if fuel == 0 || c < 2 || c >= fat.len() {
        None
    } else {
        match chain(fat, fat[c as int], (fuel - 1) as nat) {
            Some(rest) => Some(seq![c] + rest),
            None => None,
        }
    }
}

/// Cluster `c` is one of the clusters that following the chain from `c0`
/// for at most `fuel` steps visits.
pub open spec fn on_walk(fat: Seq<u32>, c0: u32, c: u32, fuel: nat) -> bool
    decreases fuel,
{
    if c0 >= END_OF_CHAIN || fuel == 0 || c0 < 2 || c0 >= fat.len() {
        false
    } else {
        c0 == c || on_walk(fat, fat[c0 as int], c, (fuel - 1) as nat)
    }
}

/// A FAT32 volume on a block device.
pub struct Fat32<T: BlockDevice> {
    pub block_device: T,
    pub volume_start_sector: usize,
    pub bpb: BiosParameterBlock,
    pub fat: Vec<u32>,
}

/// The FAT as stored in `b`: entry `i` is the little-endian word at `4 * i`,
/// zero where `b` ends first.
pub open spec fn fat_entry(b: Seq<u8>, i: int) -> u32 {
    if 4 * i + 4 <= b.len() {
        le32(b, 4 * i) as u32
    } else {
        0
    }
}

/// The first FAT32 partition of the partition table in boot sector `b`.
pub open spec fn first_fat32_partition(b: Seq<u8>, p: nat) -> Option<nat>
    decreases NUM_PARTITIONS - p,
{
    if p >= NUM_PARTITIONS {
        None
    } else if b[PARTITION_TABLE_OFFSET + 16 * p + 4] == PARTITION_TYPE_FAT32 {
        Some(p)
    } else {
        first_fat32_partition(b, p + 1)
    }
}

impl<T: BlockDevice> Fat32<T> {
    pub open spec fn disk(&self) -> Seq<u8> {
        self.block_device.disk()
    }

    /// The geometry that this driver reads correctly: 512-byte sectors,
    /// clusters of at most 64 KiB and a volume that starts at a 32-bit LBA.
    pub open spec fn geometry_ok(&self) -> bool {
        &&& self.bpb.bytes_per_sector == 512
        &&& self.bpb.sectors_per_cluster as nat * 512 <= 0xffff
        &&& self.volume_start_sector <= u32::MAX
    }

    pub open spec fn bytes_per_cluster(&self) -> nat {
        self.bpb.sectors_per_cluster as nat * 512
    }

    /// First sector of cluster `c`, counted from the start of the volume.
    pub open spec fn cluster_sector(&self, c: nat) -> nat {
        (self.bpb.reserved_sectors_count as nat + self.bpb.fat_number as nat
            * self.bpb.fat_size_32 as nat + (c - 2) * self.bpb.sectors_per_cluster as nat) as nat
    }

    /// The bytes of cluster `c` on the disk.
    pub open spec fn cluster_data(&self, c: nat) -> Seq<u8> {
        sectors_of(
            self.disk(),
            (self.volume_start_sector + self.cluster_sector(c)) as nat,
            self.bpb.sectors_per_cluster as nat,
        )
    }

    /// The device may refuse the read of cluster `c`.
    pub open spec fn cluster_may_refuse(&self, c: nat) -> bool {
        T::may_refuse(
            self.disk(),
            (self.volume_start_sector + self.cluster_sector(c)) as nat,
            self.bpb.sectors_per_cluster as nat,
            false,
        )
    }

    /// The same volume with the device possibly in another state but the
    /// same disk contents.
    pub open spec fn same_volume(&self, other: &Self) -> bool {
        &&& self.disk() == other.disk()
        &&& self.volume_start_sector == other.volume_start_sector
        &&& self.bpb == other.bpb
        &&& self.fat@ == other.fat@
    }

    /// This is the volume that starts at sector `start` of `disk`: its
    /// parameter block is read from that sector and its table from the first
    /// FAT after the reserved sectors.
    pub open spec fn opened_from(&self, disk: Seq<u8>, start: nat) -> bool {
        let b = sectors_of(disk, start, 1);
        &&& self.disk() == disk
        &&& self.volume_start_sector == start
        &&& self.bpb.bytes_per_sector == le16(b, 11)
        &&& self.bpb.sectors_per_cluster == b[13]
        &&& self.bpb.reserved_sectors_count == le16(b, 14)
        &&& self.bpb.fat_number == b[16]
        &&& self.bpb.fat_size_32 == le32(b, 36)
        &&& self.bpb.root_cluster == le32(b, 44)
        &&& self.fat@.len() == self.bpb.fat_size_32 as nat * self.bpb.bytes_per_sector as nat / 4
        &&& forall|i: int|
            0 <= i < self.fat@.len() ==> #[trigger] self.fat@[i] == fat_entry(
                sectors_of(
                    disk,
                    start + self.bpb.reserved_sectors_count as nat,
                    self.bpb.fat_size_32 as nat,
                ),
                i,
            )
    }

    /// Where opening the volume at sector `start` of `disk` may fail: the
    /// device may refuse to read its first sector or its first FAT, or the
    /// FAT is larger than memory can address.
    pub open spec fn open_may_fail(disk: Seq<u8>, start: nat) -> bool {
        let b = sectors_of(disk, start, 1);
        ||| T::may_refuse(disk, start, 1, false)
        ||| le32(b, 36) * 512 > usize::MAX
        ||| le32(b, 36) * le16(b, 11) > usize::MAX
        ||| T::may_refuse(disk, start + le16(b, 14), le32(b, 36) as nat, false)
    }

    /// Opens the FAT32 volume that starts at `volume_start_sector`: reads its
    /// parameter block and its first FAT.
    pub fn new(block_device: T, volume_start_sector: usize) -> (r: Result<Self, FatError>)
        requires
            volume_start_sector <= u32::MAX,
        ensures
            r matches Ok(fs) ==> fs.opened_from(block_device.disk(), volume_start_sector as nat),
            r matches Err(e) ==> e is DeviceError,
            r is Err ==> Self::open_may_fail(block_device.disk(), volume_start_sector as nat),
    {
        let mut block_device = block_device;
        let ghost d = block_device.disk();
        let mut bpb_buf: Vec<u8> = vec![0u8; SECTOR_SIZE];
        match block_device.read_write_disk(bpb_buf.as_mut_slice(), volume_start_sector as u64, 1, false) {
            Ok(()) => {},
            Err(e) => {
                return Err(FatError::DeviceError(e));
            },
        }
        assert(bpb_buf@.subrange(0, 512) == bpb_buf@);
        let bpb = BiosParameterBlock::parse(bpb_buf.as_slice());
        let fat_start_sector = volume_start_sector as u64 + bpb.reserved_sectors_count as u64;
        let fs32 = bpb.fat_size_32 as u64;
        let bps = bpb.bytes_per_sector as u64;
        assert(fs32 * bps <= 0xffff_ffff * 0xffff) by (nonlinear_arith)
            requires
                fs32 <= 0xffff_ffff,
                bps <= 0xffff,
        ;
        let fat_bytes: u64 = fs32 * bps;
        let read_bytes: u64 = fs32 * 512;
        if read_bytes > usize::MAX as u64 || fat_bytes > usize::MAX as u64 {
            return Err(FatError::DeviceError(BlockDeviceError::IOError));
        }
        let mut raw: Vec<u8> = vec![0u8; read_bytes as usize];
        match block_device.read_write_disk(
            raw.as_mut_slice(),
            fat_start_sector,
            bpb.fat_size_32 as usize,
            false,
        ) {
            Ok(()) => {},
            Err(e) => {
                return Err(FatError::DeviceError(e));
            },
        }
        assert(raw@.subrange(0, bpb.fat_size_32 * 512) == raw@);
        let n = (fat_bytes / 4) as usize;
        let mut fat: Vec<u32> = Vec::new();
        let mut i: usize = 0;
        while i < n
            invariant
                i <= n,
                fat@.len() == i,
                raw@.len() == read_bytes,
                forall|k: int| 0 <= k < i ==> #[trigger] fat@[k] == fat_entry(raw@, k),
            decreases n - i,
        {
            if raw.len() >= 4 && i <= raw.len() / 4 - 1 {
                fat.push(read_le32(raw.as_slice(), 4 * i));
            } else {
                fat.push(0);
            }
            i = i + 1;
        }
        Ok(Fat32 { block_device, volume_start_sector, bpb, fat })
    }
}


impl<T: BlockDevice> Fat32<T> {
    /// First sector of cluster `cluster` (2 or more), counted from the start
    /// of the volume: the data area follows the reserved sectors and the FATs.
    pub fn cluster_to_sector(&self, cluster: u32) -> (r: usize)
        requires
            cluster >= 2,
            self.cluster_sector(cluster as nat) <= usize::MAX,
        ensures
            r == self.cluster_sector(cluster as nat),
    {
        let fnum = self.bpb.fat_number as u64;
        let fsz = self.bpb.fat_size_32 as u64;
        let c2 = cluster as u64 - 2;
        let spc = self.bpb.sectors_per_cluster as u64;
        assert(fnum * fsz <= 0xff * 0xffff_ffff && c2 * spc <= 0xffff_ffff * 0xff)
            by (nonlinear_arith)
            requires
                fnum <= 0xff,
                fsz <= 0xffff_ffff,
                c2 <= 0xffff_ffff,
                spc <= 0xff,
        ;
        let a = fnum * fsz;
        let b = c2 * spc;
        (self.bpb.reserved_sectors_count as u64 + a + b) as usize
    }

    /// Reads `count` sectors from sector `sector_offset` of the volume into
    /// `buf`.
    pub fn get_sector(&mut self, sector_offset: usize, count: usize, buf: &mut [u8]) -> (r: Result<
        (),
        FatError,
    >)
        requires
            old(self).volume_start_sector + sector_offset <= u64::MAX,
            old(buf)@.len() >= count * SECTOR_SIZE,
        ensures
            final(self).same_volume(old(self)),
            final(buf)@.len() == old(buf)@.len(),
            r is Ok ==> final(buf)@.subrange(0, count * 512) == sectors_of(
                old(self).disk(),
                (old(self).volume_start_sector + sector_offset) as nat,
                count as nat,
            ) && final(buf)@.subrange(count * 512, old(buf)@.len() as int) == old(buf)@.subrange(
                count * 512,
                old(buf)@.len() as int,
            ),
            r matches Err(e) ==> e is DeviceError,
            r is Err ==> T::may_refuse(
                old(self).disk(),
                (old(self).volume_start_sector + sector_offset) as nat,
                count as nat,
                false,
            ),
    {
        let sector = self.volume_start_sector as u64 + sector_offset as u64;
        match self.block_device.read_write_disk(buf, sector, count, false) {
            Ok(()) => Ok(()),
            Err(e) => Err(FatError::DeviceError(e)),
        }
    }

    /// Reads cluster `cluster` into `buf`.
    pub fn get_cluster(&mut self, cluster: u32, buf: &mut [u8]) -> (r: Result<(), FatError>)
        requires
            old(self).geometry_ok(),
            cluster >= 2,
            old(buf)@.len() >= old(self).bytes_per_cluster(),
        ensures
            final(self).same_volume(old(self)),
            final(buf)@.len() == old(buf)@.len(),
            r is Ok ==> final(buf)@.subrange(0, old(self).bytes_per_cluster() as int) == old(
                self,
            ).cluster_data(cluster as nat) && final(buf)@.subrange(
                old(self).bytes_per_cluster() as int,
                old(buf)@.len() as int,
            ) == old(buf)@.subrange(old(self).bytes_per_cluster() as int, old(buf)@.len() as int),
            r matches Err(e) ==> e is DeviceError,
            r is Err ==> old(self).cluster_may_refuse(cluster as nat),
    {
        let sector = self.cluster_sector_u64(cluster);
        let count = self.bpb.sectors_per_cluster as usize;
        match self.block_device.read_write_disk(buf, sector, count, false) {
            Ok(()) => Ok(()),
            Err(e) => Err(FatError::DeviceError(e)),
        }
    }

    /// Absolute sector of cluster `cluster` on the disk.
    fn cluster_sector_u64(&self, cluster: u32) -> (r: u64)
        requires
            self.geometry_ok(),
            cluster >= 2,
        ensures
            r == self.volume_start_sector + self.cluster_sector(cluster as nat),
    {
        let fnum = self.bpb.fat_number as u64;
        let fsz = self.bpb.fat_size_32 as u64;
        let c2 = cluster as u64 - 2;
        let spc = self.bpb.sectors_per_cluster as u64;
        assert(fnum * fsz <= 0xff * 0xffff_ffff && c2 * spc <= 0xffff_ffff * 0xff)
            by (nonlinear_arith)
            requires
                fnum <= 0xff,
                fsz <= 0xffff_ffff,
                c2 <= 0xffff_ffff,
                spc <= 0xff,
        ;
        let a = fnum * fsz;
        let b = c2 * spc;
        self.volume_start_sector as u64 + self.bpb.reserved_sectors_count as u64 + a + b
    }

    /// The FAT entry of `cluster`: the next cluster of its chain.
    pub fn get_next_cluster(&mut self, cluster: u32) -> (r: u32)
        requires
            cluster < old(self).fat@.len(),
        ensures
            r == old(self).fat@[cluster as int],
            *final(self) == *old(self),
    {
        self.fat[cluster as usize]
    }

    /// The directory entries stored in cluster `dir_cluster_number`.
    pub fn get_directory_entries(&mut self, dir_cluster_number: u32) -> (r: Result<
        Vec<DirEntry>,
        FatError,
    >)
        requires
            old(self).geometry_ok(),
            dir_cluster_number >= 2,
        ensures
            final(self).same_volume(old(self)),
            r is Ok ==> old(self).cluster_data(dir_cluster_number as nat).len() == old(
                self,
            ).bytes_per_cluster(),
            r matches Ok(v) ==> v@.len() == old(self).bytes_per_cluster() / 32 && forall|i: int|
                0 <= i < v@.len() ==> entry_matches(
                    #[trigger] v@[i],
                    old(self).cluster_data(dir_cluster_number as nat),
                    32 * i,
                ),
            r matches Err(e) ==> e is DeviceError,
            r is Err ==> old(self).cluster_may_refuse(dir_cluster_number as nat),
    {
        let bytes_per_cluster = self.bpb.sectors_per_cluster as usize * 512;
        let mut buf: Vec<u8> = vec![0u8; bytes_per_cluster];
        match self.get_cluster(dir_cluster_number, buf.as_mut_slice()) {
            Ok(()) => {},
            Err(e) => {
                return Err(e);
            },
        }
        let ghost data = self.cluster_data(dir_cluster_number as nat);
        assert(buf@ == buf@.subrange(0, bytes_per_cluster as int));
        let num_entries = bytes_per_cluster / DIR_ENTRY_SIZE;
        let mut dir_entries: Vec<DirEntry> = Vec::new();
        let mut i: usize = 0;
        while i < num_entries
            invariant
                i <= num_entries,
                num_entries == bytes_per_cluster / 32,
                buf@ == data,
                buf@.len() == bytes_per_cluster,
                dir_entries@.len() == i,
                forall|k: int|
                    0 <= k < i ==> entry_matches(#[trigger] dir_entries@[k], data, 32 * k),
            decreases num_entries - i,
        {
            dir_entries.push(DirEntry::parse(buf.as_slice(), i * DIR_ENTRY_SIZE));
            i = i + 1;
        }
        Ok(dir_entries)
    }
}


impl<T: BlockDevice> Fat32<T> {
    /// The bytes of the clusters `cs`, one after the other.
    pub open spec fn chain_bytes(&self, cs: Seq<u32>) -> Seq<u8>
        decreases cs.len(),
    {
        if cs.len() == 0 {
            Seq::empty()
        } else {
            self.chain_bytes(cs.drop_last()) + self.cluster_data(cs.last() as nat)
        }
    }

    /// Names of the files in the root directory, in directory order.
    pub fn list_root_files(&mut self) -> (r: Result<Vec<String>, FatError>)
        requires
            old(self).geometry_ok(),
            old(self).bpb.root_cluster >= 2,
        ensures
            final(self).same_volume(old(self)),
            r matches Ok(files) ==> files@.map_values(|f: String| f@) == listing(
                old(self).cluster_data(old(self).bpb.root_cluster as nat),
                0,
            ),
            r matches Err(e) ==> e is DeviceError,
            r is Err ==> old(self).cluster_may_refuse(old(self).bpb.root_cluster as nat),
    {
        let root = self.bpb.root_cluster;
        let dir_entries = match self.get_directory_entries(root) {
            Ok(v) => v,
            Err(e) => {
                return Err(e);
            },
        };
        let ghost data = old(self).cluster_data(root as nat);
        let n = dir_entries.len();
        let mut file_list: Vec<String> = Vec::new();
        let mut i: usize = 0;
        let mut done = false;
        proof {
            let spc = old(self).bpb.sectors_per_cluster as nat;
            assert(spc * 512 / 32 * 32 == spc * 512) by (nonlinear_arith);
            assert(data.len() == n * 32);
        }
        while i < n && !done
            invariant
                i <= n,
                n == dir_entries@.len(),
                data.len() == n * 32,
                forall|k: int|
                    0 <= k < n ==> entry_matches(#[trigger] dir_entries@[k], data, 32 * k),
                done ==> listing(data, i as nat) == Seq::<Seq<char>>::empty(),
                file_list@.map_values(|f: String| f@) + listing(data, i as nat) == listing(
                    data,
                    0,
                ),
            decreases n - i + (if done { 0int } else { 1int }),
        {
            let entry = &dir_entries[i];
            proof {
                assert(entry_matches(dir_entries@[i as int], data, 32 * i));
                assert(entry.name@[0] == data[32 * i]);
            }
            if entry.name[0] == 0 {
                done = true;
            } else {
                let ghost before = file_list@.map_values(|f: String| f@);
                if entry.attributes != ATTR_LONG_NAME {
                    let name = get_short_file_name(&entry.name, &entry.ext);
                    file_list.push(name);
                    proof {
                        assert(file_list@.map_values(|f: String| f@) =~= before.push(name@));
                        assert(listing(data, i as nat) == seq![name@] + listing(data, (i + 1) as nat));
                        assert(before.push(name@) + listing(data, (i + 1) as nat) =~= before + (seq![
                            name@,
                        ] + listing(data, (i + 1) as nat)));
                    }
                }
                i = i + 1;
            }
        }
        proof {
            if !done {
                assert(listing(data, i as nat) == Seq::<Seq<char>>::empty());
            }
            assert(file_list@.map_values(|f: String| f@) + Seq::<Seq<char>>::empty() =~= file_list@.map_values(|f: String| f@));
        }
        Ok(file_list)
    }
}


/// A chain that is `prefix` followed by the chain `rest`, if that exists.
pub open spec fn after_prefix(prefix: Seq<u32>, rest: Option<Seq<u32>>) -> Option<Seq<u32>> {
    match rest {
        Some(r) => Some(prefix + r),
        None => None,
    }
}

impl<T: BlockDevice> Fat32<T> {
    /// The first entry of directory cluster `dir_cluster_number` whose name
    /// is `name`.
    pub fn get_directory_entry(&mut self, dir_cluster_number: u32, name: &String) -> (r: Result<
        DirEntry,
        FatError,
    >)
        requires
            old(self).geometry_ok(),
            dir_cluster_number >= 2,
        ensures
            final(self).same_volume(old(self)),
            ({
                let data = old(self).cluster_data(dir_cluster_number as nat);
                &&& r matches Ok(e) ==> find_entry(data, name@, 0) matches Some(j) && entry_matches(
                    e,
                    data,
                    32 * j as int,
                )
                &&& r matches Err(FatError::NoSuchFileOrDirectory) ==> find_entry(data, name@, 0)
                    is None
                &&& r matches Err(e) ==> e is DeviceError || e is NoSuchFileOrDirectory
                &&& r matches Err(FatError::DeviceError(_)) ==> old(self).cluster_may_refuse(
                    dir_cluster_number as nat,
                )
                &&& !old(self).cluster_may_refuse(dir_cluster_number as nat) ==> (r is Ok
                    <==> find_entry(data, name@, 0) is Some)
            }),
    {
        let dir_entries = match self.get_directory_entries(dir_cluster_number) {
            Ok(v) => v,
            Err(e) => {
                return Err(e);
            },
        };
        let ghost data = old(self).cluster_data(dir_cluster_number as nat);
        let n = dir_entries.len();
        proof {
            let spc = old(self).bpb.sectors_per_cluster as nat;
            assert(spc * 512 / 32 * 32 == spc * 512) by (nonlinear_arith);
        }
        let ghost vol = *old(self);
        let mut i: usize = 0;
        while i < n
            invariant
                i <= n,
                n == dir_entries@.len(),
                data.len() == n * 32,
                vol == *old(self),
                data == vol.cluster_data(dir_cluster_number as nat),
                self.same_volume(&vol),
                forall|k: int|
                    0 <= k < n ==> entry_matches(#[trigger] dir_entries@[k], data, 32 * k),
                find_entry(data, name@, 0) == find_entry(data, name@, i as nat),
            decreases n - i,
        {
            let entry = &dir_entries[i];
            proof {
                assert(entry_matches(dir_entries@[i as int], data, 32 * i));
                assert((i + 1) * 32 <= data.len());
                assert(slot_name(data, i as nat) == entry.name@);
                assert(slot_ext(data, i as nat) == entry.ext@);
            }
            let file_name = get_short_file_name(&entry.name, &entry.ext);
            if file_name == *name {
                return Ok(*entry);
            }
            i = i + 1;
        }
        Err(FatError::NoSuchFileOrDirectory)
    }

    /// Size in bytes of the file `name` in the root directory.
    pub fn get_file_size(&mut self, name: &String) -> (r: Result<usize, FatError>)
        requires
            old(self).geometry_ok(),
            old(self).bpb.root_cluster >= 2,
        ensures
            final(self).same_volume(old(self)),
            ({
                let data = old(self).cluster_data(old(self).bpb.root_cluster as nat);
                &&& r matches Ok(n) ==> find_entry(data, name@, 0) matches Some(j) && n == le32(
                    data,
                    32 * j as int + 28,
                )
                &&& r matches Err(FatError::NoSuchFileOrDirectory) ==> find_entry(data, name@, 0)
                    is None
                &&& r matches Err(e) ==> e is DeviceError || e is NoSuchFileOrDirectory
                &&& r matches Err(FatError::DeviceError(_)) ==> old(self).cluster_may_refuse(
                    old(self).bpb.root_cluster as nat,
                )
                &&& !old(self).cluster_may_refuse(old(self).bpb.root_cluster as nat) ==> (r is Ok
                    <==> find_entry(data, name@, 0) is Some)
            }),
    {
        let root = self.bpb.root_cluster;
        match self.get_directory_entry(root, name) {
            Ok(entry) => Ok(entry.file_size as usize),
            Err(e) => Err(e),
        }
    }

    /// Reads the file `name` of the root directory into `buf`, cluster by
    /// cluster along its chain, and returns its size. `buf` must hold the
    /// file; the whole last cluster is copied.
    pub fn read_file(&mut self, name: &String, buf: &mut [u8]) -> (r: Result<usize, FatError>)
        requires
            old(self).geometry_ok(),
            old(self).bpb.root_cluster >= 2,
        ensures
            final(self).same_volume(old(self)),
            final(buf)@.len() == old(buf)@.len(),
            ({
                let data = old(self).cluster_data(old(self).bpb.root_cluster as nat);
                let j = find_entry(data, name@, 0)->0 as int;
                let first = (le16(data, 32 * j + 20) * 0x1_0000 + le16(data, 32 * j + 26)) as u32;
                let size = le32(data, 32 * j + 28);
                let cs = chain(old(self).fat@, first, old(self).fat@.len());
                &&& r matches Ok(n) ==> find_entry(data, name@, 0) is Some && n == size && size
                    <= old(buf)@.len() && cs is Some && old(self).chain_bytes(cs->0).len() <= old(
                    buf,
                )@.len() && final(buf)@.subrange(0, old(self).chain_bytes(cs->0).len() as int)
                    == old(self).chain_bytes(cs->0) && final(buf)@.subrange(
                    old(self).chain_bytes(cs->0).len() as int,
                    old(buf)@.len() as int,
                ) == old(buf)@.subrange(
                    old(self).chain_bytes(cs->0).len() as int,
                    old(buf)@.len() as int,
                )
                &&& r matches Err(FatError::NoSuchFileOrDirectory) ==> find_entry(data, name@, 0)
                    is None
                &&& r matches Err(FatError::OutOfBuffer) ==> find_entry(data, name@, 0) is Some
                    && old(buf)@.len() < size
                &&& r matches Err(FatError::BrokenClusterChain) ==> find_entry(data, name@, 0)
                    is Some && size <= old(buf)@.len() && (cs is None || cs->0.len() * old(
                    self,
                ).bytes_per_cluster() > old(buf)@.len())
                &&& r matches Err(FatError::DeviceError(_)) ==> old(self).cluster_may_refuse(
                    old(self).bpb.root_cluster as nat,
                ) || (find_entry(data, name@, 0) is Some && exists|c: u32|
                    on_walk(old(self).fat@, first, c, old(self).fat@.len())
                        && #[trigger] old(self).cluster_may_refuse(c as nat))
                &&& find_entry(data, name@, 0) is None || old(buf)@.len() < size ==> final(buf)@
                    == old(buf)@
                &&& !old(self).cluster_may_refuse(old(self).bpb.root_cluster as nat) ==> {
                    &&& find_entry(data, name@, 0) is None ==> r == Err::<usize, FatError>(
                        FatError::NoSuchFileOrDirectory,
                    )
                    &&& find_entry(data, name@, 0) is Some && old(buf)@.len() < size ==> r
                        == Err::<usize, FatError>(FatError::OutOfBuffer)
                    &&& find_entry(data, name@, 0) is Some && size <= old(buf)@.len() && cs is Some
                        && cs->0.len() * old(self).bytes_per_cluster() <= old(buf)@.len() && (
                    forall|c: u32|
                        on_walk(old(self).fat@, first, c, old(self).fat@.len())
                            ==> !#[trigger] old(self).cluster_may_refuse(c as nat)) ==> r is Ok
                }
            }),
    {
        let root = self.bpb.root_cluster;
        let entry = match self.get_directory_entry(root, name) {
            Ok(e) => e,
            Err(e) => {
                return Err(e);
            },
        };
        if buf.len() < entry.file_size as usize {
            return Err(FatError::OutOfBuffer);
        }
        let ghost fat = self.fat@;
        let ghost vol = *old(self);
        let first = entry.first_cluster_high as u32 * 0x1_0000 + entry.first_cluster_low as u32;
        let bytes_per_cluster = self.bpb.sectors_per_cluster as usize * 512;
        let fuel = self.fat.len();
        let mut current = first;
        let mut steps: usize = 0;
        let mut offset: usize = 0;
        let ghost mut prefix: Seq<u32> = Seq::empty();
        let ghost old_buf = buf@;
        let buf_len = buf.len();
        let ghost data = vol.cluster_data(vol.bpb.root_cluster as nat);
        let mut tmp: Vec<u8> = vec![0u8; bytes_per_cluster];
        while current < END_OF_CHAIN
            invariant
                vol == *old(self),
                old_buf == old(buf)@,
                buf_len == old_buf.len(),
                data == vol.cluster_data(vol.bpb.root_cluster as nat),
                find_entry(data, name@, 0) matches Some(j) && entry_matches(entry, data, 32 * j as int),
                first == (entry.first_cluster_high as nat * 0x1_0000 + entry.first_cluster_low as nat),
                entry.file_size <= old_buf.len(),
                self.same_volume(&vol),
                self.geometry_ok(),
                vol.geometry_ok(),
                fat == self.fat@,
                fuel == fat.len(),
                steps <= fuel,
                bytes_per_cluster == vol.bytes_per_cluster(),
                tmp@.len() == bytes_per_cluster,
                buf@.len() == old_buf.len(),
                offset <= old_buf.len(),
                vol.chain_bytes(prefix).len() == offset,
                offset == prefix.len() * bytes_per_cluster,
                buf@.subrange(0, offset as int) == vol.chain_bytes(prefix),
                buf@.subrange(offset as int, old_buf.len() as int) == old_buf.subrange(
                    offset as int,
                    old_buf.len() as int,
                ),
                after_prefix(prefix, chain(fat, current, (fuel - steps) as nat)) == chain(
                    fat,
                    first,
                    fuel as nat,
                ),
                forall|c: u32|
                    #[trigger] on_walk(fat, current, c, (fuel - steps) as nat) ==> on_walk(
                        fat,
                        first,
                        c,
                        fuel as nat,
                    ),
            decreases fuel - steps,
        {
            if steps >= fuel || current < 2 || current as usize >= self.fat.len() {
                return Err(FatError::BrokenClusterChain);
            }
            if bytes_per_cluster > buf_len - offset {
                proof {
                    let n = prefix.len();
                    assert((n + 1) * bytes_per_cluster == n * bytes_per_cluster + bytes_per_cluster)
                        by (nonlinear_arith);
                    match chain(fat, fat[current as int], (fuel - steps - 1) as nat) {
                        Some(rest) => {
                            let full = prefix + (seq![current] + rest);
                            assert(full.len() >= n + 1);
                            assert(full.len() * bytes_per_cluster >= (n + 1) * bytes_per_cluster)
                                by (nonlinear_arith)
                                requires
                                    full.len() >= n + 1,
                            ;
                        },
                        None => {},
                    }
                }
                return Err(FatError::BrokenClusterChain);
            }
            match self.get_cluster(current, tmp.as_mut_slice()) {
                Ok(()) => {},
                Err(e) => {
                    proof {
                        assert(on_walk(fat, current, current, (fuel - steps) as nat));
                        assert(on_walk(fat, first, current, fuel as nat));
                        assert(vol.cluster_may_refuse(current as nat));
                    }
                    return Err(e);
                },
            }
            proof {
                assert(buf@.subrange((offset + bytes_per_cluster) as int, old_buf.len() as int)
                    =~= old_buf.subrange((offset + bytes_per_cluster) as int, old_buf.len() as int)) by {
                    assert forall|p: int| (offset + bytes_per_cluster) as int <= p < old_buf.len()
                        implies buf@[p] == old_buf[p] by {
                        assert(buf@.subrange(offset as int, old_buf.len() as int)[p - offset]
                            == old_buf.subrange(offset as int, old_buf.len() as int)[p - offset]);
                    }
                }
            }
            let mut k: usize = 0;
            while k < bytes_per_cluster
                invariant
                    k <= bytes_per_cluster,
                    tmp@.len() == bytes_per_cluster,
                    buf_len == buf@.len(),
                    offset + bytes_per_cluster <= buf@.len(),
                    buf@.len() == old_buf.len(),
                    buf@.subrange(0, offset as int) == vol.chain_bytes(prefix),
                    forall|p: int| offset <= p < offset + k ==> buf@[p] == tmp@[p - offset],
                    buf@.subrange((offset + bytes_per_cluster) as int, old_buf.len() as int)
                        == old_buf.subrange(
                        (offset + bytes_per_cluster) as int,
                        old_buf.len() as int,
                    ),
                decreases bytes_per_cluster - k,
            {
                buf[offset + k] = tmp[k];
                k = k + 1;
            }
            let next = self.get_next_cluster(current);
            proof {
                let np = prefix.push(current);
                assert(tmp@ == tmp@.subrange(0, bytes_per_cluster as int));
                assert(vol.chain_bytes(np) == vol.chain_bytes(prefix) + vol.cluster_data(
                    current as nat,
                )) by {
                    assert(np.drop_last() =~= prefix);
                }
                assert(buf@.subrange(0, (offset + bytes_per_cluster) as int) =~= vol.chain_bytes(np));
                assert(chain(fat, current, (fuel - steps) as nat) == match chain(
                    fat,
                    next,
                    (fuel - steps - 1) as nat,
                ) {
                    Some(rest) => Some(seq![current] + rest),
                    None => None,
                });
                match chain(fat, next, (fuel - steps - 1) as nat) {
                    Some(rest) => {
                        assert(prefix + (seq![current] + rest) =~= np + rest);
                    },
                    None => {},
                }
                assert(np.len() * bytes_per_cluster == prefix.len() * bytes_per_cluster
                    + bytes_per_cluster) by (nonlinear_arith)
                    requires
                        np.len() == prefix.len() + 1,
                ;
                prefix = np;
            }
            proof {
                assert forall|c: u32| #[trigger] on_walk(fat, next, c, (fuel - steps - 1) as nat)
                    implies on_walk(fat, first, c, fuel as nat) by {
                    assert(on_walk(fat, current, c, (fuel - steps) as nat));
                }
            }
            current = next;
            offset = offset + bytes_per_cluster;
            steps = steps + 1;
        }
        proof {
            assert(chain(fat, current, (fuel - steps) as nat) == Some(Seq::<u32>::empty()));
            assert(prefix + Seq::<u32>::empty() =~= prefix);
        }
        Ok(entry.file_size as usize)
    }
}


/// Lba of partition `p` of the table in boot sector `b`.
pub open spec fn partition_start(b: Seq<u8>, p: nat) -> nat {
    le32(b, PARTITION_TABLE_OFFSET + 16 * p + 8)
}

/// Opens the first FAT32 partition of the disk: reads the partition table in
/// sector 0 and opens the volume of the first entry of type FAT32. Fails when
/// sector 0 cannot be read, no entry is of that type or that volume cannot be
/// opened.
pub fn fat32_init<T: BlockDevice>(block_device: T) -> (r: Result<Fat32<T>, ()>)
    ensures
        ({
            let b = sectors_of(block_device.disk(), 0, 1);
            &&& r matches Ok(fs) ==> first_fat32_partition(b, 0) matches Some(p)
                && fs.opened_from(block_device.disk(), partition_start(b, p))
            &&& first_fat32_partition(b, 0) is None ==> r is Err
            &&& r is Err ==> first_fat32_partition(b, 0) is None || T::may_refuse(
                block_device.disk(),
                0,
                1,
                false,
            ) || (first_fat32_partition(b, 0) matches Some(p) && Fat32::<T>::open_may_fail(
                block_device.disk(),
                partition_start(b, p),
            ))
        }),
{
    let mut dev = block_device;
    let ghost disk = dev.disk();
    let mut buf: Vec<u8> = vec![0u8; SECTOR_SIZE];
    match dev.read_write_disk(buf.as_mut_slice(), 0, 1, false) {
        Ok(()) => {},
        Err(_) => {
            return Err(());
        },
    }
    let ghost b = sectors_of(disk, 0, 1);
    assert(buf@ =~= b) by {
        assert(buf@.subrange(0, 512) =~= buf@);
    }
    let mut p: usize = 0;
    while p < NUM_PARTITIONS
        invariant
            p <= NUM_PARTITIONS,
            buf@ == b,
            b.len() == 512,
            b == sectors_of(block_device.disk(), 0, 1),
            dev.disk() == block_device.disk(),
            first_fat32_partition(b, 0) == first_fat32_partition(b, p as nat),
        decreases NUM_PARTITIONS - p,
    {
        let entry = PartitionTableEntry::parse(buf.as_slice(), PARTITION_TABLE_OFFSET + 16 * p);
        if entry.partition_type == PARTITION_TYPE_FAT32 {
            return match Fat32::new(dev, entry.lba_partition_start as usize) {
                Ok(fs) => Ok(fs),
                Err(_) => Err(()),
            };
        }
        p = p + 1;
    }
    Err(())
}

} // verus!
