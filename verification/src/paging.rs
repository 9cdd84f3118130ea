use vstd::prelude::*;
use crate::allocator::{Heap, alloc_pages_spec, allocate_pages};

verus! {

pub const DEFAULT_TABLE_LEVEL: i8 = 4;
pub const VPN_SIZE: i8 = 9;
pub const G_STAGE_TOP_VPN_SIZE: i8 = 11;

pub const PAGE_SHIFT: usize = 12;
pub const PAGE_SIZE: usize = 4096;
pub const PAGE_MASK: usize = 4095;

pub const PAGE_NUM_BITS: usize = 44;

pub const PPN_OFFSET: u64 = 10;
/// Bits 10..=53 of an entry: the physical page number.
pub const PPN_MASK: u64 = 0x003f_ffff_ffff_fc00;
pub const PERMISSION_MASK: u64 = 0x3ff;
pub const V_OFFSET: u64 = 0;
pub const R_OFFSET: u64 = 1;
pub const W_OFFSET: u64 = 2;
pub const X_OFFSET: u64 = 3;
pub const U_OFFSET: u64 = 4;
pub const G_OFFSET: u64 = 5;
pub const A_OFFSET: u64 = 6;
pub const D_OFFSET: u64 = 7;

/// A G-stage page-table entry.
pub struct TableEntry(u64);

/// The physical page number field that `address` puts into an entry.
pub open spec fn ppn_bits(address: nat) -> u64 {
    (((address / 4096) % 0x1000_0000_0000) * 1024) as u64
}

impl TableEntry {
    /// The raw 64-bit entry.
    pub closed spec fn bits(self) -> u64 {
        self.0
    }

    pub fn new() -> (r: Self)
        ensures
            r.bits() == 0,
    {
        Self(0)
    }

    /// Clears the entry.
    pub fn init(&mut self)
        ensures
            final(self).bits() == 0,
    {
        *self = Self::new();
    }

    /// The page-aligned physical address that the entry points to.
    pub fn get_next_table_address(&mut self) -> (r: usize)
        requires
            usize::BITS == 64,
        ensures
            r == ((old(self).bits() / 1024) % 0x1000_0000_0000) * 4096,
            final(self).bits() == old(self).bits(),
    {
        let x = self.0;
        let v = ((x & PPN_MASK) >> PPN_OFFSET) << 12u64;
        assert(v == ((x / 1024) % 0x1000_0000_0000) * 4096) by (bit_vector)
            requires
                v == ((x & 0x003f_ffff_ffff_fc00u64) >> 10u64) << 12u64,
        ;
        v as usize
    }

    /// Adds the page number of `address` to the entry.
    pub fn set_output_address(&mut self, address: usize)
        ensures
            final(self).bits() == old(self).bits() | ppn_bits(address as nat),
    {
        let a = address as u64;
        let field = ((a >> 12u64) << PPN_OFFSET) & PPN_MASK;
        assert(field == (((a / 4096) % 0x1000_0000_0000) * 1024) as u64) by (bit_vector)
            requires
                field == ((a >> 12u64) << 10u64) & 0x003f_ffff_ffff_fc00u64,
        ;
        self.0 = self.0 | field;
    }

    /// Adds the low ten permission and status bits of `permission`.
    pub fn set_permission(&mut self, permission: u64)
        ensures
            final(self).bits() == old(self).bits() | (permission & PERMISSION_MASK),
    {
        self.0 = self.0 | (permission & PERMISSION_MASK);
    }

    /// Marks the entry as a valid pointer to a next-level table: V set, R
    /// and X cleared.
    pub fn set_non_leaf_permission(&mut self)
        ensures
            final(self).bits() == (old(self).bits() | 1) & !0b1010u64,
    {
        self.0 = self.0 | 1;
        self.0 = self.0 & !0b1010u64;
    }

    pub fn is_valid_pte(&mut self) -> (r: bool)
        ensures
            r == (old(self).bits() & 1 != 0),
            final(self).bits() == old(self).bits(),
    {
        (self.0 & 1) != 0
    }
}


/// The 64-bit word at physical address `addr` of a memory window whose word
/// `k` is at `base + 8 * k`; `None` outside the window or off word
/// alignment.
pub open spec fn word_at(mem: Seq<u64>, base: nat, addr: nat) -> Option<u64> {
    if addr >= base && (addr - base) % 8 == 0 && (addr - base) / 8 < mem.len() {
        Some(mem[((addr - base) / 8) as int])
    } else {
        None
    }
}

/// The address that entry `e` points to.
pub open spec fn entry_target(e: u64) -> nat {
    ((e as nat / 1024) % 0x1000_0000_0000) * 4096
}

/// Index into a table of `entries` entries at level `level` for `va`.
pub open spec fn table_index(va: usize, level: usize, entries: usize) -> usize {
    (va >> ((12 + 9 * level) as usize)) & ((entries - 1) as usize)
}

/// The G-stage walk for `va` from the table at `table` on level `level`
/// down to level 0: the physical address it maps to, or `Err` at an
/// invalid entry or an entry outside the memory window.
pub open spec fn walk(
    mem: Seq<u64>,
    base: nat,
    va: usize,
    table: nat,
    level: usize,
    entries: usize,
) -> Result<nat, ()>
    decreases level,
{
    match word_at(mem, base, (table + 8 * table_index(va, level, entries)) as nat) {
        None => Err(()),
        Some(e) => if e & 1 == 0 {
            Err(())
        } else if level == 0 {
            Ok(entry_target(e) + va as nat % 4096)
        } else {
            walk(mem, base, va, entry_target(e), (level - 1) as usize, 512)
        },
    }
}

/// What a mapping pass has written and where it stands: the memory window,
/// the free lists of the heap that tables come from, the next physical and
/// virtual address and the bytes still to map.
pub struct MapState {
    pub mem: Seq<u64>,
    pub heap: Seq<Seq<usize>>,
    pub pa: usize,
    pub va: usize,
    pub remaining: usize,
}

/// The leaf entry that maps a page at `pa` with the permission bits
/// `perm`, valid and user-accessible.
pub open spec fn leaf_entry(pa: usize, perm: u64) -> u64 {
    ppn_bits(pa as nat) | ((perm | 1u64 | 16u64) & PERMISSION_MASK)
}

/// The non-leaf entry that points to the table at `t`.
pub open spec fn table_entry(t: usize) -> u64 {
    (ppn_bits(t as nat) | 1) & !0b1010u64
}

/// The R, W and X bits for the three permissions.
pub open spec fn permission_bits(r: bool, w: bool, x: bool) -> u64 {
    (if r { 2u64 } else { 0u64 }) | (if w { 4u64 } else { 0u64 }) | (if x { 8u64 } else { 0u64 })
}

/// Mapping from entry `idx` of the table at `table` on `level` onwards:
/// each entry is cleared and filled, on level 0 with the next page and on
/// other levels with a fresh one-page table that is filled in turn, until
/// nothing remains to map or the table ends. `None` where an entry to write
/// lies outside the memory window.
pub open spec fn map_entries(
    st: MapState,
    base: nat,
    table: nat,
    level: nat,
    idx: nat,
    entries: nat,
    perm: u64,
) -> Option<MapState>
    decreases level, entries - idx,
{
    if idx >= entries {
        Some(st)
    } else if word_at(st.mem, base, table + 8 * idx) is None {
        None
    } else {
        let k = ((table + 8 * idx - base) / 8) as int;
        if level == 0 {
            let st1 = MapState {
                mem: st.mem.update(k, leaf_entry(st.pa, perm)),
                heap: st.heap,
                pa: (st.pa + 4096) as usize,
                va: (st.va + 4096) as usize,
                remaining: (st.remaining - 4096) as usize,
            };
            if st1.remaining == 0 {
                Some(st1)
            } else {
                map_entries(st1, base, table, level, idx + 1, entries, perm)
            }
        } else {
            let t = alloc_pages_spec(st.heap, 1, 4096).0;
            let st1 = MapState {
                mem: st.mem.update(k, table_entry(t)),
                heap: alloc_pages_spec(st.heap, 1, 4096).1,
                pa: st.pa,
                va: st.va,
                remaining: st.remaining,
            };
            match map_entries(
                st1,
                base,
                t as nat,
                (level - 1) as nat,
                table_index(st.va, (level - 1) as usize, 512) as nat,
                512,
                perm,
            ) {
                None => None,
                Some(st2) => if st2.remaining == 0 {
                    Some(st2)
                } else {
                    map_entries(st2, base, table, level, idx + 1, entries, perm)
                },
            }
        }
    }
}

/// A whole mapping: a four-page top table aligned to 16 KiB from the heap,
/// filled from the entry for `va` on level `table_level - 1`; the table's
/// address and the final state, or `None` on a write outside the window.
pub open spec fn map_spec(
    mem: Seq<u64>,
    heap: Seq<Seq<usize>>,
    base: nat,
    pa: usize,
    va: usize,
    size: usize,
    table_level: int,
    perm: u64,
) -> Option<(usize, MapState)> {
    let t = alloc_pages_spec(heap, 4, 0x4000).0;
    let st0 = MapState {
        mem,
        heap: alloc_pages_spec(heap, 4, 0x4000).1,
        pa,
        va,
        remaining: size,
    };
    match map_entries(
        st0,
        base,
        t as nat,
        (table_level - 1) as nat,
        table_index(va, (table_level - 1) as usize, 2048) as nat,
        2048,
        perm,
    ) {
        Some(st) => Some((t, st)),
        None => None,
    }
}

fn _map_address_stage2<const ORDER: usize>(
    heap: &mut Heap<ORDER>,
    mem: &mut Vec<u64>,
    base: usize,
    physical_address: &mut usize,
    virtual_address: &mut usize,
    remaining_size: &mut usize,
    table_address: usize,
    permission: u64,
    table_level: usize,
    num_of_entries: usize,
) -> (r: Result<(), ()>)
    requires
        old(heap).wf(),
        usize::BITS == 64,
        table_level <= 5,
        1 <= num_of_entries <= 2048,
        *old(remaining_size) > 0,
        *old(remaining_size) % 4096 == 0,
        *old(physical_address) + *old(remaining_size) <= usize::MAX,
        *old(virtual_address) + *old(remaining_size) <= usize::MAX,
    ensures
        final(heap).wf(),
        ({
            let st0 = MapState {
                mem: old(mem)@,
                heap: old(heap)@,
                pa: *old(physical_address),
                va: *old(virtual_address),
                remaining: *old(remaining_size),
            };
            match map_entries(
                st0,
                base as nat,
                table_address as nat,
                table_level as nat,
                table_index(*old(virtual_address), table_level, num_of_entries) as nat,
                num_of_entries as nat,
                permission,
            ) {
                Some(st) => r is Ok && final(mem)@ == st.mem && final(heap)@ == st.heap
                    && *final(physical_address) == st.pa && *final(virtual_address) == st.va
                    && *final(remaining_size) == st.remaining,
                None => r is Err,
            }
        }),
        r is Ok ==> {
            &&& *final(physical_address) + *final(remaining_size) == *old(physical_address)
                + *old(remaining_size)
            &&& *final(virtual_address) + *final(remaining_size) == *old(virtual_address)
                + *old(remaining_size)
            &&& *final(remaining_size) % 4096 == 0
        },
    decreases table_level,
{
    let shift_level = 12 + 9 * table_level;
    let index_mask = num_of_entries - 1;
    let shifted = *virtual_address >> shift_level;
    let start = shifted & index_mask;
    assert(start <= index_mask) by (bit_vector)
        requires
            start == shifted & index_mask,
    ;
    assert(start == table_index(*virtual_address, table_level, num_of_entries));
    let ghost st0 = MapState {
        mem: mem@,
        heap: heap@,
        pa: *physical_address,
        va: *virtual_address,
        remaining: *remaining_size,
    };
    let ghost pa0 = *physical_address;
    let ghost va0 = *virtual_address;
    let ghost rem0 = *remaining_size;
    let mut idx = start;
    while idx < num_of_entries
        invariant
            heap.wf(),
            usize::BITS == 64,
            table_level <= 5,
            1 <= num_of_entries <= 2048,
            start <= idx <= num_of_entries,
            start == table_index(*old(virtual_address), table_level, num_of_entries),
            st0 == (MapState {
                mem: old(mem)@,
                heap: old(heap)@,
                pa: *old(physical_address),
                va: *old(virtual_address),
                remaining: *old(remaining_size),
            }),
            pa0 == *old(physical_address),
            va0 == *old(virtual_address),
            rem0 == *old(remaining_size),
            *remaining_size > 0,
            *remaining_size % 4096 == 0,
            *physical_address + *remaining_size == pa0 + rem0,
            *virtual_address + *remaining_size == va0 + rem0,
            pa0 + rem0 <= usize::MAX,
            va0 + rem0 <= usize::MAX,
            map_entries(
                st0,
                base as nat,
                table_address as nat,
                table_level as nat,
                start as nat,
                num_of_entries as nat,
                permission,
            ) == map_entries(
                MapState {
                    mem: mem@,
                    heap: heap@,
                    pa: *physical_address,
                    va: *virtual_address,
                    remaining: *remaining_size,
                },
                base as nat,
                table_address as nat,
                table_level as nat,
                idx as nat,
                num_of_entries as nat,
                permission,
            ),
        decreases num_of_entries - idx,
    {
        let addr = table_address as u128 + 8 * (idx as u128);
        if addr < base as u128 || (addr - base as u128) % 8 != 0 || (addr - base as u128) / 8
            >= mem.len() as u128 {
            assert(word_at(mem@, base as nat, table_address as nat + 8 * idx as nat) is None);
            return Err(());
        }
        let k = ((addr - base as u128) / 8) as usize;
        if table_level == 0 {
            let mut e = TableEntry::new();
            e.set_output_address(*physical_address);
            e.set_permission(permission | 1u64 | 16u64);
            let ghost ppn = ppn_bits(*physical_address as nat);
            assert(0u64 | ppn == ppn) by (bit_vector);
            mem.set(k, e.0);
            *physical_address = *physical_address + PAGE_SIZE;
            *virtual_address = *virtual_address + PAGE_SIZE;
            *remaining_size = *remaining_size - PAGE_SIZE;
            if *remaining_size == 0 {
                return Ok(());
            }
        } else {
            let mut e = TableEntry::new();
            let mut next_table_address = e.get_next_table_address();
            assert(0u64 & 1 == 0) by (bit_vector);
            if !e.is_valid_pte() {
                next_table_address = allocate_pages(heap, 1, PAGE_SIZE);
                e.set_output_address(next_table_address);
                e.set_non_leaf_permission();
            }
            let ghost ppn = ppn_bits(next_table_address as nat);
            assert(0u64 | ppn == ppn) by (bit_vector);
            mem.set(k, e.0);
            let sub = _map_address_stage2(
                heap,
                mem,
                base,
                physical_address,
                virtual_address,
                remaining_size,
                next_table_address,
                permission,
                table_level - 1,
                512,
            );
            if sub.is_err() {
                return Err(());
            }
            if *remaining_size == 0 {
                return Ok(());
            }
        }
        idx = idx + 1;
    }
    Ok(())
}

/// Builds G-stage tables that map `map_size` bytes from `virtual_address`
/// onto the physical memory from `physical_address` on, with the given
/// permissions, and returns the address of the top table. Tables come from
/// `heap`; `mem` holds the physical memory from `base` on. `Err` when the
/// size is not a whole number of pages (nothing is touched then), or when
/// an entry to write lies outside `mem`. Mapping stops early where the top
/// table ends.
pub fn map_address_stage2<const ORDER: usize>(
    heap: &mut Heap<ORDER>,
    mem: &mut Vec<u64>,
    base: usize,
    physical_address: usize,
    virtual_address: usize,
    map_size: usize,
    table_level: i8,
    is_readable: bool,
    is_writable: bool,
    is_executable: bool,
) -> (r: Result<usize, ()>)
    requires
        old(heap).wf(),
        usize::BITS == 64,
        1 <= table_level <= 6,
        map_size % 4096 == 0 ==> map_size > 0 && physical_address + map_size <= usize::MAX
            && virtual_address + map_size <= usize::MAX,
    ensures
        final(heap).wf(),
        map_size % 4096 != 0 ==> r is Err && final(heap)@ == old(heap)@ && final(mem)@ == old(mem)@,
        map_size % 4096 == 0 ==> match map_spec(
            old(mem)@,
            old(heap)@,
            base as nat,
            physical_address,
            virtual_address,
            map_size,
            table_level as int,
            permission_bits(is_readable, is_writable, is_executable),
        ) {
            Some((t, st)) => r == Ok::<usize, ()>(t) && final(mem)@ == st.mem && final(heap)@
                == st.heap,
            None => r is Err,
        },
{
    if (map_size & PAGE_MASK) != 0 {
        assert(map_size & 4095 == map_size % 4096) by (bit_vector);
        return Err(());
    }
    assert(map_size & 4095 == map_size % 4096) by (bit_vector);
    let table_address = allocate_pages(heap, 4, 0x4000);
    let mut permission: u64 = if is_readable {
        2u64
    } else {
        0u64
    };
    permission = permission | if is_writable {
        4u64
    } else {
        0u64
    };
    permission = permission | if is_executable {
        8u64
    } else {
        0u64
    };
    let mut pa = physical_address;
    let mut va = virtual_address;
    let mut remaining = map_size;
    let level = (table_level - 1) as usize;
    match _map_address_stage2(
        heap,
        mem,
        base,
        &mut pa,
        &mut va,
        &mut remaining,
        table_address,
        permission,
        level,
        2048,
    ) {
        Ok(()) => Ok(table_address),
        Err(()) => Err(()),
    }
}

/// The word at physical address `addr` of the window `mem` at `base`.
fn read_word(mem: &[u64], base: usize, addr: u128) -> (r: Option<u64>)
    ensures
        r == word_at(mem@, base as nat, addr as nat),
{
    let n = mem.len();
    if addr < base as u128 {
        return None;
    }
    let d = addr - base as u128;
    if d % 8 != 0 || d / 8 >= n as u128 {
        return None;
    }
    Some(mem[(d / 8) as usize])
}

fn _resolve_address_stage2(
    virtual_address: usize,
    table_address: usize,
    table_level: usize,
    num_of_entries: usize,
    mem: &[u64],
    base: usize,
) -> (r: Result<usize, ()>)
    requires
        usize::BITS == 64,
        table_level <= 4,
        num_of_entries >= 1,
    ensures
        r matches Ok(pa) ==> walk(
            mem@,
            base as nat,
            virtual_address,
            table_address as nat,
            table_level,
            num_of_entries,
        ) == Ok::<nat, ()>(pa as nat),
        r is Err ==> walk(
            mem@,
            base as nat,
            virtual_address,
            table_address as nat,
            table_level,
            num_of_entries,
        ) is Err,
    decreases table_level,
{
    let shift_level = 12 + 9 * table_level;
    let table_index = (virtual_address >> shift_level) & (num_of_entries - 1);
    let addr = table_address as u128 + 8 * (table_index as u128);
    let e = match read_word(mem, base, addr) {
        None => {
            return Err(());
        },
        Some(e) => e,
    };
    if e & 1 == 0 {
        return Err(());
    }
    let next = ((e & PPN_MASK) >> PPN_OFFSET) << 12u64;
    assert(next == ((e / 1024) % 0x1000_0000_0000) * 4096) by (bit_vector)
        requires
            next == ((e & 0x003f_ffff_ffff_fc00u64) >> 10u64) << 12u64,
    ;
    if table_level == 0 {
        let offset = virtual_address & 4095;
        assert(offset == virtual_address % 4096) by (bit_vector)
            requires
                offset == virtual_address & 4095,
        ;
        return Ok(next as usize + offset);
    }
    _resolve_address_stage2(virtual_address, next as usize, table_level - 1, 512, mem, base)
}

/// Where guest-physical `va` lies in host memory under the G-stage table
/// that `hgatp` selects, with the tables in `mem` starting at `base`;
/// `Err` when translation is off or the walk finds no leaf.
pub open spec fn translate_stage2(mem: Seq<u64>, base: nat, hgatp: u64, va: usize) -> Result<nat, ()> {
    if hgatp / 0x1000_0000_0000_0000 == 0 {
        Err(())
    } else {
        walk(
            mem,
            base,
            va,
            (hgatp as nat % 0x1000_0000_0000) * 4096,
            (hgatp / 0x1000_0000_0000_0000 - 6) as usize,
            2048,
        )
    }
}

/// The physical address that `virtual_address` maps to through the G-stage
/// tables that `hgatp` selects, where `mem` holds the physical memory from
/// `base` on. `Err` in bare mode, at an invalid entry, or where a table
/// lies outside `mem`.
pub fn resolve_address_stage2(hgatp: u64, virtual_address: usize, mem: &[u64], base: usize) -> (r:
    Result<usize, ()>)
    requires
        usize::BITS == 64,
        hgatp / 0x1000_0000_0000_0000 == 0 || 8 <= hgatp / 0x1000_0000_0000_0000 <= 10,
    ensures
        hgatp / 0x1000_0000_0000_0000 == 0 ==> r is Err,
        hgatp / 0x1000_0000_0000_0000 != 0 ==> ({
            let w = walk(
                mem@,
                base as nat,
                virtual_address,
                (hgatp as nat % 0x1000_0000_0000) * 4096,
                (hgatp / 0x1000_0000_0000_0000 - 6) as usize,
                2048,
            );
            &&& r matches Ok(pa) ==> w == Ok::<nat, ()>(pa as nat)
            &&& r is Err ==> w is Err
        }),
{
    match crate::cpu::decode_hgatp(hgatp) {
        Err(()) => Err(()),
        Ok((table_address, table_level)) => {
            let level = (table_level - 1) as usize;
            _resolve_address_stage2(virtual_address, table_address, level, 2048, mem, base)
        },
    }
}

} // verus!
