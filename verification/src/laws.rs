use vstd::prelude::*;
use crate::block::BlockDevice;
use crate::emulate_csr::{HypervisorContext, HypervisorCsr, is_emulated_csr, is_writable_csr};
use crate::fat32::Fat32;
use crate::memory::{aligned_start, PAGE_SIZE};
use crate::paging::{ppn_bits, leaf_entry, permission_bits, entry_target};
use crate::string_utils::{hex_digit, hex_value, parse_hex};
use crate::vm::{VM, committed_vms};
use crate::uart::{is_scalar_value, ns16550_output};
use crate::instruction::Instruction;
use crate::trap::{is_data_abort_spec, is_instruction_abort_spec};
use crate::cpu::{pmp_cfg, hgatp_mode, xlen_of, CSR_TIME_ADDRESS};
use crate::virtio_blk::{status_result, request_descs, config_bytes, VirtioBlkConfig};
use crate::virtio::VRingDesc;
use crate::block::BlockDeviceError;
use crate::fat32::{le16, le32, le64, trim_end_spec, is_whitespace, chain, entry_matches, DirEntry};
use crate::fdt::{
    be32, parse_blob, FdtError, name_device_type, name_compatible, name_reg, value_memory,
    value_virtio_mmio,
};
use crate::sbi::{
    sbi_outcome, SbiOutcome, Sbiret, SBI_EXT_0_1_CONSOLE_PUTCHAR, SBI_EXT_BASE, SBI_EXT_DBCN,
    SBI_EXT_SRST,
};
use crate::virtio::{
    VirtioMmioRegister, features_of, VIRTIO_MMIO_STATUS, VIRTIO_MMIO_DEVICE_FEATURES,
    VIRTIO_MMIO_DEVICE_FEATURES_SEL, VIRTIO_MMIO_QUEUE_SEL, VIRTIO_MMIO_DESC_LOW,
    VIRTIO_MMIO_DEVICE_LOW, VIRTIO_MMIO_QUEUE_NUM, VIRTIO_MMIO_DRIVER_FEATURES_SEL,
    VIRTIO_MMIO_DRIVER_FEATURES, VIRTIO_MMIO_DRIVER_LOW, VIRTIO_MMIO_QUEUE_READY,
    VIRTIO_MMIO_STATUS_FEATURES_OK, VIRTIO_MMIO_VERSION, VIRTIO_MMIO_DEVICEID, VirtQueueMmio,
    legacy_after_write, pass_through_read,
};

verus! {

/// Reading a writable hypervisor CSR gives back the value last written to
/// it, and the write leaves every other emulated CSR as it was.
pub proof fn law_csr_read_after_write(h: HypervisorCsr, a: usize, v: u64, b: usize, time: u64)
    requires
        is_writable_csr(a),
        is_emulated_csr(b),
    ensures
        h.written(a, v).value_of(a, time) == v,
        b != a ==> h.written(a, v).value_of(b, time) == h.value_of(b, time),
{
}

/// Once a guest hypervisor CSR access is committed with a rebuilt shadow
/// table `t`, the VM that made it holds that guest hypervisor and the
/// guest hypervisor's nested VM holds `t` as its G-stage table: what the
/// next `sret` into the nested VM (`l1_to_l2`) enters. The other VMs are
/// unchanged.
pub proof fn law_commit_then_enter(vms: Seq<VM>, current: usize, h: HypervisorContext, t: usize)
    requires
        current < vms.len(),
        h.vmid < vms.len(),
    ensures
        committed_vms(vms, current, h, Some(Ok(t))).len() == vms.len(),
        committed_vms(vms, current, h, Some(Ok(t)))[current as int].hypervisor == Some(h),
        committed_vms(vms, current, h, Some(Ok(t)))[h.vmid as int].page_table_address == t,
        forall|i: int|
            0 <= i < vms.len() && i != current && i != h.vmid ==> committed_vms(
                vms,
                current,
                h,
                Some(Ok(t)),
            )[i] == vms[i],
{
}

/// A cleared page-table entry given a page-aligned output address below
/// 2^56 points back at exactly that address.
pub proof fn law_table_entry_round_trip(address: usize)
    requires
        address % 4096 == 0,
        address < 0x100_0000_0000_0000,
    ensures
        (((0u64 | ppn_bits(address as nat)) / 1024) % 0x1000_0000_0000) * 4096 == address,
{
    let p = ppn_bits(address as nat);
    assert(0u64 | p == p) by (bit_vector);
    let q = address as nat / 4096;
    assert(q < 0x1000_0000_0000);
    assert(q % 0x1000_0000_0000 == q);
    assert(p == q * 1024);
    assert((q * 1024) / 1024 == q) by (nonlinear_arith);
    assert(q * 4096 == address) by (nonlinear_arith)
        requires
            q == address as nat / 4096,
            address % 4096 == 0,
    ;
}

/// The driver reads back the status it wrote, and a feature read returns
/// the word that the last selector write chose.
pub proof fn law_virtio_read_after_write(reg: VirtioMmioRegister, v: usize, id: u32)
    ensures
        reg.after_write(VIRTIO_MMIO_STATUS, v).read_value(VIRTIO_MMIO_STATUS, id) == v as u32,
        reg.after_write(VIRTIO_MMIO_DEVICE_FEATURES_SEL, 0).read_value(
            VIRTIO_MMIO_DEVICE_FEATURES,
            id,
        ) == reg.device_features_low,
        reg.after_write(VIRTIO_MMIO_DEVICE_FEATURES_SEL, 1).read_value(
            VIRTIO_MMIO_DEVICE_FEATURES,
            id,
        ) == reg.device_features_high,
{
}

/// A queue notification after the queue was selected and its areas set
/// carries those areas.
pub proof fn law_virtio_notify_after_setup(
    reg: VirtioMmioRegister,
    queue: usize,
    desc: usize,
    device: usize,
)
    requires
        queue <= u32::MAX,
        desc <= u32::MAX,
        device <= u32::MAX,
    ensures
        ({
            let r = reg.after_write(VIRTIO_MMIO_QUEUE_SEL, queue).after_write(
                VIRTIO_MMIO_DESC_LOW,
                desc,
            ).after_write(VIRTIO_MMIO_DEVICE_LOW, device);
            &&& r.queue_sel == queue
            &&& r.desc_address == desc
            &&& r.device_address == device
        }),
{
    assert(queue as u32 == queue);
    assert(desc as u32 == desc);
    assert(device as u32 == device);
}

/// The two 32-bit feature words and the 64-bit feature set convert into
/// each other without loss.
pub proof fn law_features_round_trip(f: u64, low: u32, high: u32)
    ensures
        features_of((f % 0x1_0000_0000) as u32, (f / 0x1_0000_0000) as u32) == f,
        features_of(low, high) % 0x1_0000_0000 == low,
        features_of(low, high) / 0x1_0000_0000 == high,
{
    assert(high as nat * 0x1_0000_0000 + low as nat <= u64::MAX);
}

/// The mask arithmetic never moves the free address down: the start of an
/// allocation is at least the free address before it, whatever the
/// alignment.
pub proof fn law_aligned_start_not_below(free: usize, alignment: usize)
    requires
        alignment > 0,
    ensures
        aligned_start(free, alignment) >= free,
{
    let mask = (alignment - 1) as usize;
    let down = free & !mask;
    assert(down + (free & mask) == free && (free & mask) <= mask) by (bit_vector)
        requires
            down == free & !mask,
    ;
}

/// Two allocations in a row do not overlap: the second starts past the
/// pages of the first.
pub proof fn law_bump_allocations_disjoint(free: usize, n1: usize, a1: usize, a2: usize)
    requires
        a1 > 0,
        a2 > 0,
        aligned_start(free, a1) + PAGE_SIZE * n1 <= usize::MAX,
    ensures
        aligned_start((aligned_start(free, a1) + PAGE_SIZE * n1) as usize, a2) >= aligned_start(
            free,
            a1,
        ) + PAGE_SIZE * n1,
        aligned_start(free, a1) >= free,
{
    law_aligned_start_not_below(free, a1);
    law_aligned_start_not_below((aligned_start(free, a1) + PAGE_SIZE * n1) as usize, a2);
}

/// Consecutive clusters lie `sectors_per_cluster` sectors apart, and
/// cluster 2 starts the data area, right after the reserved sectors and the
/// FATs.
pub proof fn law_cluster_sectors<T: BlockDevice>(fs: &Fat32<T>, c: nat)
    requires
        c >= 2,
    ensures
        fs.cluster_sector(c + 1) == fs.cluster_sector(c) + fs.bpb.sectors_per_cluster,
        fs.cluster_sector(2) == fs.bpb.reserved_sectors_count + fs.bpb.fat_number
            * fs.bpb.fat_size_32,
{
    let spc = fs.bpb.sectors_per_cluster as int;
    assert((c + 1 - 2) * spc == (c - 2) * spc + spc) by (nonlinear_arith);
    assert(fs.bpb.fat_number as nat * fs.bpb.fat_size_32 as nat >= 0) by (nonlinear_arith);
    assert((c - 2) * spc >= 0) by (nonlinear_arith)
        requires
            c >= 2,
            spc >= 0,
    ;
}

/// The `0x` or `0X` in front of a hexadecimal number is optional: the
/// number reads the same without it.
pub proof fn law_hex_prefix_optional(d: Seq<u8>)
    requires
        !(d.len() >= 2 && d[0] == 0x30 && (d[1] == 0x78 || d[1] == 0x58)),
    ensures
        parse_hex(seq![0x30u8, 0x78u8] + d) == parse_hex(d),
        parse_hex(seq![0x30u8, 0x58u8] + d) == parse_hex(d),
{
    let x = seq![0x30u8, 0x78u8] + d;
    let y = seq![0x30u8, 0x58u8] + d;
    assert(x.subrange(2, x.len() as int) =~= d);
    assert(y.subrange(2, y.len() as int) =~= d);
}

/// How the hypervisor answers each SBI call of a guest, by extension
/// (`ext`) and function (`fid`), with first argument `arg0`:
/// - base extension: specification version 3.0 (fid 0), implementation
///   version 2 (fid 2), 0 for the implementation id, an extension probe,
///   the vendor and architecture ids (fids 1, 3, 4, 5); the machine
///   implementation id (fid 6) starts a measurement; other fids stop;
/// - legacy console putchar (fid 0) and debug-console write-byte (fid 2)
///   print the low byte of `arg0` and succeed; only a line feed through the
///   legacy call tags the next line; other fids of these stop;
/// - system reset ends the measurement, whatever the fid;
/// - any other extension stops.
pub proof fn law_sbi_answers(ext: usize, fid: usize, arg0: usize)
    ensures
        ext == SBI_EXT_BASE && fid == 0 ==> sbi_outcome(ext, fid, arg0) == SbiOutcome::Return(
            Sbiret { error: 0, value: 0x300_0000 },
        ),
        ext == SBI_EXT_BASE && fid == 2 ==> sbi_outcome(ext, fid, arg0) == SbiOutcome::Return(
            Sbiret { error: 0, value: 2 },
        ),
        ext == SBI_EXT_BASE && (fid == 1 || fid == 3 || fid == 4 || fid == 5) ==> sbi_outcome(
            ext,
            fid,
            arg0,
        ) == SbiOutcome::Return(Sbiret { error: 0, value: 0 }),
        ext == SBI_EXT_BASE && fid == 6 ==> sbi_outcome(ext, fid, arg0) == SbiOutcome::StartMeasure,
        ext == SBI_EXT_BASE && fid > 6 ==> sbi_outcome(ext, fid, arg0) == SbiOutcome::Unrecognized,
        ext == SBI_EXT_0_1_CONSOLE_PUTCHAR && fid == 0 ==> sbi_outcome(ext, fid, arg0)
            == (SbiOutcome::Putchar { byte: arg0 as u8, tag_line: arg0 as u32 == 0x0A }),
        ext == SBI_EXT_DBCN && fid == 2 ==> sbi_outcome(ext, fid, arg0)
            == (SbiOutcome::Putchar { byte: arg0 as u8, tag_line: false }),
        (ext == SBI_EXT_0_1_CONSOLE_PUTCHAR && fid != 0) || (ext == SBI_EXT_DBCN && fid != 2)
            ==> sbi_outcome(ext, fid, arg0) == SbiOutcome::Unrecognized,
        ext == SBI_EXT_SRST ==> sbi_outcome(ext, fid, arg0) == SbiOutcome::EndMeasure,
        ext != SBI_EXT_BASE && ext != SBI_EXT_0_1_CONSOLE_PUTCHAR && ext != SBI_EXT_DBCN && ext
            != SBI_EXT_SRST ==> sbi_outcome(ext, fid, arg0) == SbiOutcome::Unrecognized,
{
}

/// The hexadecimal digits: `0`..`9` are worth 0 to 9, `a`..`f` and
/// `A`..`F` both 10 to 15, so an upper-case digit is worth what its
/// lower-case twin is; no other byte is a digit.
pub proof fn law_hex_digits(c: u8)
    ensures
        0x30 <= c <= 0x39 ==> hex_digit(c) == Some((c - 0x30) as nat),
        0x61 <= c <= 0x66 ==> hex_digit(c) == Some((c - 0x57) as nat),
        0x41 <= c <= 0x46 ==> hex_digit(c) == Some((c - 0x37) as nat),
        0x41 <= c <= 0x46 ==> hex_digit(c) == hex_digit((c + 0x20) as u8),
        !(0x30 <= c <= 0x39 || 0x61 <= c <= 0x66 || 0x41 <= c <= 0x46) ==> hex_digit(c) is None,
{
}

/// One more digit after a number of digits multiplies its value by 16 and
/// adds the digit's, as long as the result fits in `usize`.
pub proof fn law_parse_hex_append(s: Seq<u8>, c: u8)
    requires
        s.len() >= 1,
        forall|i: int| 0 <= i < s.len() ==> (#[trigger] hex_digit(s[i])) is Some,
        hex_digit(c) is Some,
        parse_hex(s) is Some,
        parse_hex(s)->0 * 16 + hex_digit(c)->0 <= usize::MAX,
    ensures
        parse_hex(s.push(c)) == Some((parse_hex(s)->0 * 16 + hex_digit(c)->0) as usize),
{
    let t = s.push(c);
    assert(hex_digit(s[0]) is Some);
    assert(t[0] == s[0]);
    assert(t[1] != 0x78 && t[1] != 0x58) by {
        if s.len() >= 2 {
            assert(t[1] == s[1]);
            assert(hex_digit(s[1]) is Some);
        }
    }
    assert(t.drop_last() =~= s);
    if s.len() >= 2 {
        assert(s[1] != 0x78 && s[1] != 0x58) by {
            assert(hex_digit(s[1]) is Some);
        }
    }
}

/// Each guest write lands in its own register: the queue size, queue
/// selector, both feature selectors, the status and the low words of the
/// three queue areas read back what was written; a write to the driver
/// feature window goes to the low word when the driver selector is 0 and
/// to the high word when it is 1, leaving the other word; a write to
/// `QUEUE_READY` changes nothing; a write at offset 8 sets `FEATURES_OK`
/// in the status.
pub proof fn law_virtio_register_writes(reg: VirtioMmioRegister, v: u32)
    ensures
        reg.after_write(VIRTIO_MMIO_QUEUE_NUM, v as usize).queue_num == v,
        reg.after_write(VIRTIO_MMIO_QUEUE_SEL, v as usize).queue_sel == v,
        reg.after_write(VIRTIO_MMIO_DEVICE_FEATURES_SEL, v as usize).device_features_sel == v,
        reg.after_write(VIRTIO_MMIO_DRIVER_FEATURES_SEL, v as usize).driver_features_sel == v,
        reg.after_write(VIRTIO_MMIO_STATUS, v as usize).status == v,
        reg.after_write(VIRTIO_MMIO_DESC_LOW, v as usize).desc_address == v,
        reg.after_write(VIRTIO_MMIO_DRIVER_LOW, v as usize).driver_address == v,
        reg.after_write(VIRTIO_MMIO_DEVICE_LOW, v as usize).device_address == v,
        ({
            let r = reg.after_write(VIRTIO_MMIO_DRIVER_FEATURES_SEL, 0).after_write(
                VIRTIO_MMIO_DRIVER_FEATURES,
                v as usize,
            );
            r.driver_features_low == v && r.driver_features_high == reg.driver_features_high
        }),
        ({
            let r = reg.after_write(VIRTIO_MMIO_DRIVER_FEATURES_SEL, 1).after_write(
                VIRTIO_MMIO_DRIVER_FEATURES,
                v as usize,
            );
            r.driver_features_high == v && r.driver_features_low == reg.driver_features_low
        }),
        reg.after_write(VIRTIO_MMIO_QUEUE_READY, v as usize) == reg,
        reg.after_write(8, v as usize).status == reg.status | VIRTIO_MMIO_STATUS_FEATURES_OK,
{
    assert((v as usize) as u32 == v);
}

/// Guest reads of the emulated register window: version 2, the device's
/// id, queue 0 as the ready queue, the status last written, the device
/// feature word that the selector picks, and 0 for any other register.
pub proof fn law_virtio_register_reads(reg: VirtioMmioRegister, id: u32, v: u32, offset: usize)
    ensures
        reg.read_value(VIRTIO_MMIO_VERSION, id) == 2,
        reg.read_value(VIRTIO_MMIO_DEVICEID, id) == id,
        reg.read_value(VIRTIO_MMIO_QUEUE_READY, id) == 0,
        reg.after_write(VIRTIO_MMIO_STATUS, v as usize).read_value(VIRTIO_MMIO_STATUS, id) == v,
        reg.device_features_sel == 0 ==> reg.read_value(VIRTIO_MMIO_DEVICE_FEATURES, id)
            == reg.device_features_low,
        reg.device_features_sel != 0 ==> reg.read_value(VIRTIO_MMIO_DEVICE_FEATURES, id)
            == reg.device_features_high,
        offset != VIRTIO_MMIO_VERSION && offset != VIRTIO_MMIO_DEVICEID && offset
            != VIRTIO_MMIO_QUEUE_READY && offset != VIRTIO_MMIO_STATUS && offset
            != VIRTIO_MMIO_DEVICE_FEATURES ==> reg.read_value(offset, id) == 0,
{
    assert((v as usize) as u32 == v);
}

/// Guest reads through the pass-through window: queue 0 as the ready
/// queue, the emulated status and device feature words, and what the host
/// register reads for every other register.
pub proof fn law_pass_through_reads(reg: VirtioMmioRegister, v: u32, offset: usize, host: u32)
    ensures
        pass_through_read(reg, VIRTIO_MMIO_QUEUE_READY, host) == 0,
        pass_through_read(reg.after_write(VIRTIO_MMIO_STATUS, v as usize), VIRTIO_MMIO_STATUS, host)
            == v,
        reg.device_features_sel == 0 ==> pass_through_read(reg, VIRTIO_MMIO_DEVICE_FEATURES, host)
            == reg.device_features_low,
        reg.device_features_sel != 0 ==> pass_through_read(reg, VIRTIO_MMIO_DEVICE_FEATURES, host)
            == reg.device_features_high,
        offset != VIRTIO_MMIO_QUEUE_READY && offset != VIRTIO_MMIO_STATUS && offset
            != VIRTIO_MMIO_DEVICE_FEATURES ==> pass_through_read(reg, offset, host) == host,
{
    assert((v as usize) as u32 == v);
}

/// Writes to the older virtio emulation land in their own registers: queue
/// size, queue selector, feature selector, the low byte of the status,
/// and the three queue areas; a write at offset 8 sets `FEATURES_OK` in
/// the status; a write elsewhere, such as the version register, changes
/// nothing.
pub proof fn law_legacy_virtio_writes(vq: VirtQueueMmio, v: u32)
    ensures
        legacy_after_write(vq, VIRTIO_MMIO_QUEUE_NUM, v).queue_num == v,
        legacy_after_write(vq, VIRTIO_MMIO_QUEUE_SEL, v).queue_sel == v,
        legacy_after_write(vq, VIRTIO_MMIO_DEVICE_FEATURES_SEL, v).features_sel == v,
        legacy_after_write(vq, VIRTIO_MMIO_STATUS, v).status == v % 256,
        legacy_after_write(vq, VIRTIO_MMIO_DESC_LOW, v).desc_address == v,
        legacy_after_write(vq, VIRTIO_MMIO_DRIVER_LOW, v).driver_address == v,
        legacy_after_write(vq, VIRTIO_MMIO_DEVICE_LOW, v).device_address == v,
        legacy_after_write(vq, 8, v).status == vq.status | 8u8,
        legacy_after_write(vq, VIRTIO_MMIO_VERSION, v) == vq,
{
    assert((v as u8) == v % 256) by (bit_vector);
}

/// The leaf entry written for a page carries exactly the permissions asked
/// for: V and U always, R when readable, W when writable, X when
/// executable, no other bit among the low ten; and it points at the page.
pub proof fn law_leaf_entry_permissions(pa: usize, r: bool, w: bool, x: bool)
    requires
        pa % 4096 == 0,
        pa < 0x100_0000_0000_0000,
    ensures
        leaf_entry(pa, permission_bits(r, w, x)) & 0x3ff == 17 + (if r {
            2u64
        } else {
            0u64
        }) + (if w {
            4u64
        } else {
            0u64
        }) + (if x {
            8u64
        } else {
            0u64
        }),
        entry_target(leaf_entry(pa, permission_bits(r, w, x))) == pa,
{
    let q = (pa as nat / 4096) % 0x1000_0000_0000;
    let p = ppn_bits(pa as nat);
    assert(q < 0x1000_0000_0000);
    assert(q * 1024 < 0x40_0000_0000_0000) by (nonlinear_arith)
        requires
            q < 0x1000_0000_0000,
    ;
    assert(p == q * 1024);
    let qq = q as u64;
    assert(p & 0x3ff == 0 && p / 1024 == qq) by (bit_vector)
        requires
            p == qq * 1024,
            qq < 0x1000_0000_0000u64,
    ;
    let m = permission_bits(r, w, x);
    assert(m < 16 && m | 17u64 == 17 + (if r {
        2u64
    } else {
        0u64
    }) + (if w {
        4u64
    } else {
        0u64
    }) + (if x {
        8u64
    } else {
        0u64
    })) by (bit_vector)
        requires
            m == (if r {
                2u64
            } else {
                0u64
            }) | (if w {
                4u64
            } else {
                0u64
            }) | (if x {
                8u64
            } else {
                0u64
            }),
    ;
    assert(((m | 1u64 | 16u64) & 0x3ff) == m | 17u64) by (bit_vector)
        requires
            m < 16,
    ;
    let e = leaf_entry(pa, m);
    let low = (m | 1u64 | 16u64) & 0x3ffu64;
    assert(e == p | low);
    assert(e & 0x3ff == low && e / 1024 == qq) by (bit_vector)
        requires
            e == p | low,
            p & 0x3ff == 0,
            p / 1024 == qq,
            low < 1024,
    ;
    assert(qq % 0x1000_0000_0000 == qq);
    assert(q == pa as nat / 4096);
    assert(q * 4096 == pa) by (nonlinear_arith)
        requires
            q == pa as nat / 4096,
            pa % 4096 == 0,
    ;
}

/// The Unicode scalar values are the code points up to 0x10FFFF outside
/// the surrogates 0xD800..=0xDFFF.
pub proof fn law_scalar_values(value: u32)
    ensures
        is_scalar_value(value) <==> (value < 0xD800 || (0xE000 <= value && value <= 0x10FFFF)),
{
}

/// A guest write to the serial port's transmit register (offset 0) prints
/// the character written, every Unicode scalar value, carriage return
/// included; a line feed is printed as carriage return and line feed. A
/// write of a non-character, or to any other register, prints nothing.
pub proof fn law_ns16550_prints_characters(offset: usize, value: u32)
    ensures
        offset == 0 && value != 0x0A && (value < 0xD800 || (0xE000 <= value && value <= 0x10FFFF))
            ==> ns16550_output(offset, value) == seq![value],
        offset == 0 && value == 0x0A ==> ns16550_output(offset, value) == seq![0x0Du32, 0x0Au32],
        offset == 0 && ((0xD800 <= value && value <= 0xDFFF) || value > 0x10FFFF) ==> ns16550_output(
            offset,
            value,
        ).len() == 0,
        offset != 0 ==> ns16550_output(offset, value).len() == 0,
        ns16550_output(offset, value).len() > 0 ==> ns16550_output(offset, value).last() == value,
{
}

/// The fields of a 32-bit instruction word sit where the RISC-V base
/// format puts them: opcode in bits 0..=6, rd in 7..=11, funct3 in
/// 12..=14, rs1 in 15..=19, rs2 in 20..=24, funct7 in 25..=31; the
/// compressed-instruction marker is bits 0..=1.
pub proof fn law_instruction_fields(
    opcode: u32,
    rd: u32,
    funct3: u32,
    rs1: u32,
    rs2: u32,
    funct7: u32,
)
    requires
        opcode < 128,
        rd < 32,
        funct3 < 8,
        rs1 < 32,
        rs2 < 32,
        funct7 < 128,
    ensures
        ({
            let w = opcode + rd * 0x80 + funct3 * 0x1000 + rs1 * 0x8000 + rs2 * 0x10_0000 + funct7
                * 0x200_0000;
            let i = Instruction(w as u32);
            &&& w < 0x1_0000_0000
            &&& i.opcode() == opcode
            &&& i.rd() == rd
            &&& i.funct3() == funct3
            &&& i.rs1() == rs1
            &&& i.rs2() == rs2
            &&& i.funct7() == funct7
            &&& i.funct12() == rs2 + funct7 * 32
            &&& i.compression() == opcode % 4
        }),
{
    let w: u32 = (opcode + rd * 0x80 + funct3 * 0x1000 + rs1 * 0x8000 + rs2 * 0x10_0000 + funct7
        * 0x200_0000) as u32;
    assert(opcode + rd * 0x80 + funct3 * 0x1000 + rs1 * 0x8000 + rs2 * 0x10_0000 + funct7
        * 0x200_0000 == w && w % 128 == opcode && (w / 128) % 32 == rd && (w / 4096) % 8 == funct3
        && (w / 32768) % 32 == rs1 && (w / 1048576) % 32 == rs2 && w / 33554432 == funct7 && w
        / 1048576 == rs2 + funct7 * 32 && w % 4 == opcode % 4) by (bit_vector)
        requires
            w == (opcode + rd * 0x80 + funct3 * 0x1000 + rs1 * 0x8000 + rs2 * 0x10_0000 + funct7
                * 0x200_0000) as u32,
            opcode < 128,
            rd < 32,
            funct3 < 8,
            rs1 < 32,
            rs2 < 32,
            funct7 < 128,
    ;
}

/// Which trap causes are which: guest page faults on a load (21) and on a
/// store or AMO (23) are data aborts; an illegal instruction (2), a
/// virtual instruction (22) and an environment call from VS-mode (10) are
/// instruction aborts; no cause is both.
pub proof fn law_trap_causes(scause: usize)
    ensures
        is_data_abort_spec(scause) <==> (scause == 21 || scause == 23),
        is_instruction_abort_spec(scause) <==> (scause == 2 || scause == 10 || scause == 22),
        !(is_data_abort_spec(scause) && is_instruction_abort_spec(scause)),
{
}

/// A PMP configuration byte has R in bit 0, W in bit 1, X in bit 2 and the
/// address-matching mode in bits 3 and 4.
pub proof fn law_pmp_cfg_bits(r: bool, w: bool, x: bool, mode: u8)
    requires
        mode < 4,
    ensures
        (pmp_cfg(r, w, x, mode) & 1 == 1) == r,
        (pmp_cfg(r, w, x, mode) & 2 == 2) == w,
        (pmp_cfg(r, w, x, mode) & 4 == 4) == x,
        pmp_cfg(r, w, x, mode) >> 3u8 == mode,
{
    let c = pmp_cfg(r, w, x, mode);
    let rb: u8 = if r { 1 } else { 0 };
    let wb: u8 = if w { 2 } else { 0 };
    let xb: u8 = if x { 4 } else { 0 };
    assert(c == rb + wb + xb + mode * 8);
    assert((c & 1 == 1) == (rb == 1) && (c & 2 == 2) == (wb == 2) && (c & 4 == 4) == (xb == 4) && c
        >> 3u8 == mode) by (bit_vector)
        requires
            c == rb + wb + xb + mode * 8,
            rb == 0 || rb == 1,
            wb == 0 || wb == 2,
            xb == 0 || xb == 4,
            mode < 4,
    ;
}

/// The `hgatp` mode for a G-stage table of 3, 4 or 5 levels is Sv39x4 (8),
/// Sv48x4 (9) or Sv57x4 (10): five more than the number of levels; and
/// the MXL field of `misa` reads 32, 64 or 128 bits for 1, 2 or 3.
pub proof fn law_translation_modes(levels: i8)
    requires
        3 <= levels <= 5,
    ensures
        hgatp_mode(levels) == levels + 5,
        xlen_of(1) == 32 && xlen_of(2) == 64 && xlen_of(3) == 128 && xlen_of(0) == 0,
{
}

/// A finished block request succeeded when its status byte is 0; 1 is an
/// I/O error and anything else an unsupported request.
pub proof fn law_block_status(status: u8)
    ensures
        status == 0 <==> status_result(status) is Ok,
        status == 1 ==> status_result(status) == Err::<(), BlockDeviceError>(BlockDeviceError::IOError),
        status > 1 ==> status_result(status) == Err::<(), BlockDeviceError>(
            BlockDeviceError::UnsupportedDevice,
        ),
{
}

/// Reading a guest hypervisor CSR at the `time` address gives the current
/// time, whatever was written to the CSRs before.
pub proof fn law_time_csr(h: HypervisorCsr, a: usize, v: u64, time: u64)
    requires
        is_writable_csr(a),
    ensures
        h.value_of(CSR_TIME_ADDRESS, time) == time,
        h.written(a, v).value_of(CSR_TIME_ADDRESS, time) == time,
{
}

/// Little-endian and big-endian fields hold their bytes in opposite
/// orders: the first byte of a little-endian word is its least
/// significant, and a little-endian word is the big-endian reading of its
/// four bytes reversed.
pub proof fn law_byte_orders(b: Seq<u8>, off: int)
    requires
        0 <= off,
        off + 4 <= b.len(),
    ensures
        le16(b, off) == b[off] + 256 * b[off + 1],
        le32(b, off) == be32(seq![b[off + 3], b[off + 2], b[off + 1], b[off]], 0),
        le32(b, off) % 256 == b[off],
        be32(b, off) / 0x100_0000 == b[off],
{
}

/// Trimming the end of a string keeps a prefix of it that is empty or ends
/// in a character that is not whitespace, and drops only whitespace.
pub proof fn law_trim_end(s: Seq<char>)
    ensures
        trim_end_spec(s).len() <= s.len(),
        trim_end_spec(s) == s.take(trim_end_spec(s).len() as int),
        trim_end_spec(s).len() == 0 || !is_whitespace(trim_end_spec(s).last()),
        forall|i: int| trim_end_spec(s).len() <= i < s.len() ==> is_whitespace(#[trigger] s[i]),
    decreases s.len(),
{
    if s.len() > 0 && is_whitespace(s.last()) {
        let d = s.drop_last();
        law_trim_end(d);
        let t = trim_end_spec(d);
        assert(trim_end_spec(s) == t);
        assert(d.take(t.len() as int) =~= s.take(t.len() as int));
        assert forall|i: int| t.len() <= i < s.len() implies is_whitespace(#[trigger] s[i]) by {
            if i < d.len() {
                assert(s[i] == d[i]);
            }
        }
    } else {
        assert(s.take(s.len() as int) =~= s);
    }
}

/// A cluster chain starts at its first cluster and goes on through the
/// FAT: each cluster's entry names the next, the last cluster's entry is
/// an end-of-chain marker (0x0FFFFFF8 or above), and every cluster is a
/// data cluster (2 or above) inside the FAT. A start at an end marker
/// gives the empty chain.
pub proof fn law_chain_follows_fat(fat: Seq<u32>, c: u32, fuel: nat)
    requires
        chain(fat, c, fuel) is Some,
    ensures
        ({
            let cs = chain(fat, c, fuel)->0;
            &&& cs.len() == 0 <==> c >= 0x0FFF_FFF8
            &&& cs.len() > 0 ==> cs[0] == c && fat[cs.last() as int] >= 0x0FFF_FFF8
            &&& forall|i: int| 0 <= i < cs.len() ==> 2 <= #[trigger] cs[i] < fat.len()
            &&& forall|i: int| 0 <= i < cs.len() - 1 ==> cs[i + 1] == fat[#[trigger] cs[i] as int]
            &&& cs.len() <= fuel
        }),
    decreases fuel,
{
    if c >= 0x0FFF_FFF8 {
    } else {
        let next = fat[c as int];
        law_chain_follows_fat(fat, next, (fuel - 1) as nat);
        let rest = chain(fat, next, (fuel - 1) as nat)->0;
        let cs = chain(fat, c, fuel)->0;
        assert(cs == seq![c] + rest);
        assert forall|i: int| 0 <= i < cs.len() implies 2 <= #[trigger] cs[i] < fat.len() by {
            if i > 0 {
                assert(cs[i] == rest[i - 1]);
            }
        }
        assert forall|i: int| 0 <= i < cs.len() - 1 implies cs[i + 1] == fat[
            #[trigger] cs[i] as int] by {
            if i > 0 {
                assert(cs[i] == rest[i - 1]);
                assert(cs[i + 1] == rest[i]);
            } else {
                assert(cs[1] == rest[0]);
            }
        }
        if rest.len() > 0 {
            assert(cs.last() == rest.last());
        }
    }
}

/// Where a 32-byte directory entry keeps what the file system reads: the
/// name in bytes 0..8, the extension in 8..11, the attributes in byte 11,
/// the high and low halves of the first cluster in bytes 20..22 and
/// 26..28, and the file size in bytes 28..32, all little-endian.
pub proof fn law_dir_entry_layout(e: DirEntry, b: Seq<u8>, off: int)
    requires
        0 <= off,
        off + 32 <= b.len(),
        entry_matches(e, b, off),
    ensures
        forall|k: int| 0 <= k < 8 ==> e.name@[k] == b[off + k],
        forall|k: int| 0 <= k < 3 ==> e.ext@[k] == b[off + 8 + k],
        e.attributes == b[off + 11],
        e.first_cluster_high == b[off + 20] + 256 * b[off + 21],
        e.first_cluster_low == b[off + 26] + 256 * b[off + 27],
        e.file_size == b[off + 28] + 0x100 * b[off + 29] + 0x1_0000 * b[off + 30] + 0x100_0000 * b[
            off + 31],
{
    assert forall|k: int| 0 <= k < 8 implies e.name@[k] == b[off + k] by {
        assert(e.name@[k] == b.subrange(off, off + 8)[k]);
    }
    assert forall|k: int| 0 <= k < 3 implies e.ext@[k] == b[off + 8 + k] by {
        assert(e.ext@[k] == b.subrange(off + 8, off + 11)[k]);
    }
}

/// A device tree blob is read only after its header passes: a blob of
/// fewer than 40 bytes ends in an unexpected end, one that does not start
/// with the magic bytes `d0 0d fe ed` is refused as having a wrong magic,
/// and one whose version word (bytes 20..24) is not 17 as having an
/// unsupported version; in each case no window is added.
pub proof fn law_fdt_header(
    b: Seq<u8>,
    mem: Seq<(usize, usize)>,
    mmio: Seq<(usize, usize)>,
    max_mem: nat,
    max_mmio: nat,
)
    ensures
        b.len() < 40 ==> parse_blob(b, mem, mmio, max_mem, max_mmio) == Some(
            (mem, mmio, Some(FdtError::UnexpectedEOF)),
        ),
        b.len() >= 40 && !(b[0] == 0xd0 && b[1] == 0x0d && b[2] == 0xfe && b[3] == 0xed)
            ==> parse_blob(b, mem, mmio, max_mem, max_mmio) == Some(
            (mem, mmio, Some(FdtError::InvalidMagic)),
        ),
        b.len() >= 40 && (b[0] == 0xd0 && b[1] == 0x0d && b[2] == 0xfe && b[3] == 0xed) && !(b[20]
            == 0 && b[21] == 0 && b[22] == 0 && b[23] == 17) ==> parse_blob(
            b,
            mem,
            mmio,
            max_mem,
            max_mmio,
        ) == Some((mem, mmio, Some(FdtError::UnsupportedVersion))),
{
    if b.len() >= 40 {
        assert(be32(b, 0) < 0x1_0000_0000);
        assert(be32(b, 20) < 0x1_0000_0000);
    }
}

/// The device tree walk looks for the properties `device_type`,
/// `compatible` and `reg`, takes memory from nodes whose `device_type` is
/// the string `memory` and virtio devices from nodes compatible with
/// `virtio,mmio` (both values NUL-terminated, as strings are in a blob).
pub proof fn law_fdt_names()
    ensures
        name_device_type() == seq!['d' as u8, 'e' as u8, 'v' as u8, 'i' as u8, 'c' as u8, 'e' as u8, '_' as u8, 't' as u8, 'y' as u8, 'p' as u8, 'e' as u8],
        name_compatible() == seq!['c' as u8, 'o' as u8, 'm' as u8, 'p' as u8, 'a' as u8, 't' as u8, 'i' as u8, 'b' as u8, 'l' as u8, 'e' as u8],
        name_reg() == seq!['r' as u8, 'e' as u8, 'g' as u8],
        value_memory() == seq!['m' as u8, 'e' as u8, 'm' as u8, 'o' as u8, 'r' as u8, 'y' as u8, 0u8],
        value_virtio_mmio() == seq!['v' as u8, 'i' as u8, 'r' as u8, 't' as u8, 'i' as u8, 'o' as u8, ',' as u8, 'm' as u8, 'm' as u8, 'i' as u8, 'o' as u8, 0u8],
{
    assert(name_device_type() =~= seq!['d' as u8, 'e' as u8, 'v' as u8, 'i' as u8, 'c' as u8, 'e' as u8, '_' as u8, 't' as u8, 'y' as u8, 'p' as u8, 'e' as u8]);
    assert(name_compatible() =~= seq!['c' as u8, 'o' as u8, 'm' as u8, 'p' as u8, 'a' as u8, 't' as u8, 'i' as u8, 'b' as u8, 'l' as u8, 'e' as u8]);
    assert(name_reg() =~= seq!['r' as u8, 'e' as u8, 'g' as u8]);
    assert(value_memory() =~= seq!['m' as u8, 'e' as u8, 'm' as u8, 'o' as u8, 'r' as u8, 'y' as u8, 0u8]);
    assert(value_virtio_mmio() =~= seq!['v' as u8, 'i' as u8, 'r' as u8, 't' as u8, 'i' as u8, 'o' as u8, ',' as u8, 'm' as u8, 'm' as u8, 'i' as u8, 'o' as u8, 0u8]);
}

/// A block request is a chain of three descriptors, 0 then 1 then 2: the
/// header at the request address, which the device only reads; the data
/// buffer of `count` sectors, which the device writes exactly when the
/// request is a read; and the one status byte 24 bytes into the request,
/// which the device writes and which ends the chain.
pub proof fn law_request_chain(
    desc: Seq<VRingDesc>,
    req: u64,
    buf: u64,
    count: usize,
    is_write: bool,
)
    requires
        request_descs(desc, req, buf, count, is_write),
        512 * count <= u32::MAX,
        req + 24 <= u64::MAX,
    ensures
        desc[0].addr == req && desc[0].len == 16,
        desc[0].flags & 1 == 1 && desc[0].next == 1 && desc[0].flags & 2 == 0,
        desc[1].addr == buf && desc[1].len == 512 * count,
        desc[1].flags & 1 == 1 && desc[1].next == 2,
        (desc[1].flags & 2 == 2) == !is_write,
        desc[2].addr == req + 24 && desc[2].len == 1,
        desc[2].flags & 1 == 0 && desc[2].flags & 2 == 2,
{
    assert(1u16 & 1u16 == 1u16 && 1u16 & 2u16 == 0u16 && (1u16 | 2u16) & 1u16 == 1u16 && (1u16
        | 2u16) & 2u16 == 2u16 && 2u16 & 1u16 == 0u16 && 2u16 & 2u16 == 2u16) by (bit_vector);
}

/// The configuration space reads, little-endian, the capacity in bytes
/// 0..8, the largest segment size in bytes 8..12 and the segment count in
/// bytes 12..16.
pub proof fn law_config_layout(c: VirtioBlkConfig)
    ensures
        le64(config_bytes(c), 0) == c.capacity,
        le32(config_bytes(c), 8) == c.size_max,
        le32(config_bytes(c), 12) == c.seg_max,
{
    let b = config_bytes(c);
    let cap = c.capacity;
    let sm = c.size_max;
    let sg = c.seg_max;
    assert(((cap >> 0u64) & 0xff) as u8 as nat + ((cap >> 8u64) & 0xff) as u8 as nat * 0x100 + ((
    cap >> 16u64) & 0xff) as u8 as nat * 0x1_0000 + ((cap >> 24u64) & 0xff) as u8 as nat
        * 0x100_0000 + (((cap >> 32u64) & 0xff) as u8 as nat + ((cap >> 40u64) & 0xff) as u8 as nat
        * 0x100 + ((cap >> 48u64) & 0xff) as u8 as nat * 0x1_0000 + ((cap >> 56u64) & 0xff) as u8
        as nat * 0x100_0000) * 0x1_0000_0000 == cap && ((sm >> 0u32) & 0xff) as u8 as nat + ((sm
        >> 8u32) & 0xff) as u8 as nat * 0x100 + ((sm >> 16u32) & 0xff) as u8 as nat * 0x1_0000 + ((
    sm >> 24u32) & 0xff) as u8 as nat * 0x100_0000 == sm && ((sg >> 0u32) & 0xff) as u8 as nat + ((
    sg >> 8u32) & 0xff) as u8 as nat * 0x100 + ((sg >> 16u32) & 0xff) as u8 as nat * 0x1_0000 + ((
    sg >> 24u32) & 0xff) as u8 as nat * 0x100_0000 == sg) by (bit_vector);
    assert(b[0] == ((cap >> 0u64) & 0xff) as u8);
    assert(b[1] == ((cap >> 8u64) & 0xff) as u8);
    assert(b[2] == ((cap >> 16u64) & 0xff) as u8);
    assert(b[3] == ((cap >> 24u64) & 0xff) as u8);
    assert(b[4] == ((cap >> 32u64) & 0xff) as u8);
    assert(b[5] == ((cap >> 40u64) & 0xff) as u8);
    assert(b[6] == ((cap >> 48u64) & 0xff) as u8);
    assert(b[7] == ((cap >> 56u64) & 0xff) as u8);
    assert(b[8] == ((sm >> 0u32) & 0xff) as u8);
    assert(b[9] == ((sm >> 8u32) & 0xff) as u8);
    assert(b[10] == ((sm >> 16u32) & 0xff) as u8);
    assert(b[11] == ((sm >> 24u32) & 0xff) as u8);
    assert(b[12] == ((sg >> 0u32) & 0xff) as u8);
    assert(b[13] == ((sg >> 8u32) & 0xff) as u8);
    assert(b[14] == ((sg >> 16u32) & 0xff) as u8);
    assert(b[15] == ((sg >> 24u32) & 0xff) as u8);
}

/// The hypervisor CSRs that a guest hypervisor can write, by their RISC-V
/// numbers: hstatus 0x600, hedeleg 0x602, hideleg 0x603, hie 0x604,
/// hcounteren 0x606, hgeie 0x607, henvcfg 0x60a, htval 0x643, hip 0x644,
/// hvip 0x645, htinst 0x64a, hgatp 0x680 and hgeip 0xe12; `time` (0xc01)
/// can be read as well, and nothing else is emulated.
pub proof fn law_csr_numbers(a: usize)
    ensures
        is_writable_csr(a) <==> (a == 0x600 || a == 0x602 || a == 0x603 || a == 0x604 || a == 0x606
            || a == 0x607 || a == 0x60a || a == 0x643 || a == 0x644 || a == 0x645 || a == 0x64a || a
            == 0x680 || a == 0xe12),
        is_emulated_csr(a) <==> (is_writable_csr(a) || a == 0xc01),
{
}

/// The `hgatp` value that selects a G-stage table at a page-aligned
/// address below 2^56 with 3 to 5 levels gives back, when decoded, that
/// address (PPN field times 4096) and the mode for that many levels.
pub proof fn law_hgatp_round_trip(levels: i8, t: nat)
    requires
        3 <= levels <= 5,
        t % 4096 == 0,
        t < 0x100_0000_0000_0000,
    ensures
        ({
            let h = hgatp_mode(levels) * 0x1000_0000_0000_0000 + (t / 4096) % 0x1000_0000_0000;
            &&& (h % 0x1000_0000_0000) * 4096 == t
            &&& h / 0x1000_0000_0000_0000 == levels + 5
        }),
{
    let q: int = (t / 4096) as int;
    assert(q < 0x1000_0000_0000);
    assert(q % 0x1000_0000_0000 == q);
    let m = hgatp_mode(levels) as int;
    let h = m * 0x1000_0000_0000_0000 + q;
    vstd::arithmetic::div_mod::lemma_fundamental_div_mod_converse(h, 0x1000_0000_0000_0000, m, q);
    assert(0x1000_0000_0000_0000int == 0x1_0000 * 0x1000_0000_0000int);
    assert(h == (m * 0x1_0000) * 0x1000_0000_0000int + q) by (nonlinear_arith)
        requires
            h == m * 0x1000_0000_0000_0000 + q,
    ;
    vstd::arithmetic::div_mod::lemma_fundamental_div_mod_converse(
        h,
        0x1000_0000_0000,
        m * 0x1_0000,
        q,
    );
    assert(q * 4096 == t) by (nonlinear_arith)
        requires
            q == t / 4096,
            t % 4096 == 0,
    ;
}

} // verus!
