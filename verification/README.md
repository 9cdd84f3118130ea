# halycon

The verified core of a RISC-V hypervisor, written in Verus. Every function in
`src/` carries a contract, and Verus proves all of them but five small
trusted wrappers around library calls, whose contracts are taken on trust:
`read_be_u32` and `read_be_u64` (`byteorder::BigEndian`) and `is_utf8`
(`std::str::from_utf8`) in `src/fdt.rs`, and `from_utf8_lossy`
(`String::from_utf8_lossy`) and `trim_end` (`str::trim_end`) in
`src/fat32.rs`.

The library decides; it does not touch the machine. Its functions take what
a CSR or device register read gives and return the values to write, or a
list of register accesses (`RegisterOp`) for a device. The bare-metal side
that performs those accesses, the trap entry and the loop that switches
between VMs are not part of this crate. `app/` holds host-side glue only:
building disk images, running a register program against a memory-mapped
window, and the shared-ring and heap set-up.

## Layout of `src/`

| module | contents |
|---|---|
| `instruction`, `trap`, `sbi`, `cpu` | decoding trapped instructions, classifying traps, SBI calls, CSR values |
| `emulate_csr`, `vm` | hypervisor CSR emulation for guest hypervisors, the VM table, nested-VM switches, VM memory set-up |
| `pow2`, `linked_list`, `allocator` | the buddy heap: free lists, splitting, merging, carving regions |
| `memory` | the bump allocator for early boot |
| `paging`, `stage2` | G-stage page tables: entries, the table walk, building a mapping, and the proof that a mapping resolves |
| `mmio`, `uart`, `virtio`, `virtio_blk`, `plic`, `aplic` | device register emulation and driver-side register programming |
| `block`, `fat32`, `loader` | block devices, the FAT32 reader, loading images into guest memory |
| `fdt` | flattened device tree parsing |
| `shmem` | the shared-memory ring between hypervisor levels |
| `string_utils` | hexadecimal parsing |
| `laws` | properties that relate several functions |

Outside crates: `byteorder` is called from `src/fdt.rs` through the two
wrappers above; `fatfs`, `mbrman`, `fs-err`, `log` and `spin` are used by
`app/` and the tests.
