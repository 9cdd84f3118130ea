use vstd::prelude::*;
use crate::pow2::is_power_of_two;
use vstd::arithmetic::power2::pow2;

verus! {

pub const PAGE_SIZE: usize = 4096;

/// A window of physical memory.
pub struct MemoryEntry {
    pub address: usize,
    pub size: usize,
}

#[derive(Debug, PartialEq, Eq, Structural)]
pub enum MemoryAllocatorError {
    OutOfMemory,
}

/// A bump allocator of whole pages: `free_address` is the next free byte
/// of the window `free_memory_entry`.
pub struct MemoryAllocator {
    pub free_memory_entry: MemoryEntry,
    pub free_address: usize,
}

/// `free` moved up to the next multiple of `alignment` when it is not one
/// already, as the allocator's mask arithmetic computes it.
pub open spec fn aligned_start(free: usize, alignment: usize) -> int {
    let mask = (alignment - 1) as usize;
    if free & mask != 0 {
        (free & !mask) + alignment
    } else {
        free as int
    }
}

/// The mask arithmetic, for a power-of-two alignment, gives the least
/// multiple of the alignment that is at least `free`.
pub proof fn lemma_aligned_start(free: usize, alignment: usize)
    requires
        is_power_of_two(alignment as nat),
        aligned_start(free, alignment) <= usize::MAX,
    ensures
        aligned_start(free, alignment) % (alignment as int) == 0,
        free <= aligned_start(free, alignment) < free + alignment,
{
    let k = choose|k: nat| pow2(k) == alignment as nat;
    vstd::arithmetic::power2::lemma_pow2_pos(k);
    if k >= usize::BITS {
        if k > usize::BITS {
            vstd::arithmetic::power2::lemma_pow2_strictly_increases(usize::BITS as nat, k);
        }
        vstd::arithmetic::power2::lemma2_to64();
        assert(pow2(usize::BITS as nat) == usize::MAX + 1);
        assert(false);
    }
    let mask = (alignment - 1) as usize;
    assert(mask == vstd::bits::low_bits_mask(k) as usize);
    vstd::bits::lemma_usize_low_bits_mask_is_mod(free, k);
    let a = alignment as int;
    assert(free & mask == free % alignment);
    let down = free & !mask;
    assert(down + (free & mask) == free) by (bit_vector)
        requires
            down == free & !mask,
    ;
    vstd::arithmetic::div_mod::lemma_fundamental_div_mod(free as int, a);
    assert(down == a * (free as int / a));
    vstd::arithmetic::div_mod::lemma_mod_multiples_basic(free as int / a, a);
    vstd::arithmetic::div_mod::lemma_mod_multiples_basic(free as int / a + 1, a);
    assert(a * (free as int / a + 1) == a * (free as int / a) + a) by (nonlinear_arith);
    assert((free as int / a) * a == a * (free as int / a)) by (nonlinear_arith);
    assert((free as int / a + 1) * a == a * (free as int / a + 1)) by (nonlinear_arith);
}

impl MemoryAllocator {
    pub fn new() -> (r: Self)
        ensures
            r.free_memory_entry.address == 0,
            r.free_memory_entry.size == 0,
            r.free_address == 0,
    {
        MemoryAllocator { free_memory_entry: MemoryEntry { address: 0, size: 0 }, free_address: 0 }
    }

    /// Takes the window `memory_entry`, whose free part starts at
    /// `free_start_address` (the end of the loaded image).
    pub fn init(&mut self, memory_entry: &MemoryEntry, free_start_address: usize)
        ensures
            final(self).free_memory_entry.address == memory_entry.address,
            final(self).free_memory_entry.size == memory_entry.size,
            final(self).free_address == free_start_address,
    {
        self.free_memory_entry = MemoryEntry { address: memory_entry.address, size: memory_entry.size };
        self.free_address = free_start_address;
    }

    /// Hands out `num_of_pages` pages from the next multiple of
    /// `alignment`. The free address moves past them even when they do not
    /// fit the window, in which case `OutOfMemory` comes back.
    pub fn allocate(&mut self, num_of_pages: usize, alignment: usize) -> (r: Result<
        usize,
        MemoryAllocatorError,
    >)
        requires
            alignment > 0,
            aligned_start(old(self).free_address, alignment) + PAGE_SIZE * num_of_pages
                <= usize::MAX,
            old(self).free_memory_entry.address + old(self).free_memory_entry.size <= usize::MAX,
        ensures
            final(self).free_memory_entry == old(self).free_memory_entry,
            final(self).free_address == aligned_start(old(self).free_address, alignment)
                + PAGE_SIZE * num_of_pages,
            r matches Ok(top) ==> top == aligned_start(old(self).free_address, alignment),
            r is Ok <==> final(self).free_address <= old(self).free_memory_entry.address + old(
                self,
            ).free_memory_entry.size,
            r matches Ok(top) ==> (is_power_of_two(alignment as nat) ==> top % alignment
                == 0 && old(self).free_address <= top < old(self).free_address + alignment),
    {
        proof {
            if is_power_of_two(alignment as nat) {
                lemma_aligned_start(self.free_address, alignment);
            }
        }
        let align_mask = alignment - 1;
        if (self.free_address & align_mask) != 0 {
            self.free_address = self.free_address & !align_mask;
            self.free_address = self.free_address + alignment;
        }
        let top_address = self.free_address;
        self.free_address = self.free_address + PAGE_SIZE * num_of_pages;
        if self.free_address > self.free_memory_entry.address + self.free_memory_entry.size {
            Err(MemoryAllocatorError::OutOfMemory)
        } else {
            Ok(top_address)
        }
    }
}

} // verus!
