//! Verified core of a RISC-V hypervisor: instruction decoding, CSR
//! bookkeeping, device emulation state, memory allocation and on-disk
//! format parsing.


pub mod instruction;
pub mod shmem;
pub mod uart;

pub mod pow2;
pub mod linked_list;
pub mod allocator;
pub mod paging;
pub mod stage2;
pub mod cpu;
pub mod mmio;
pub mod emulate_csr;
pub mod vm;
pub mod sbi;
pub mod trap;
pub mod virtio;
pub mod block;
pub mod fat32;
pub mod fdt;
pub mod string_utils;
pub mod memory;
pub mod virtio_blk;
pub mod aplic;
pub mod plic;
pub mod loader;
pub mod laws;
