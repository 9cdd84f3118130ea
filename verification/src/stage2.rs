//! What a G-stage mapping leaves behind: every page that
//! `map_address_stage2` maps is found again by the table walk of
//! `resolve_address_stage2`.

use vstd::prelude::*;
use vstd::arithmetic::power2::{pow2, lemma_pow2_pos, lemma2_to64};
use crate::paging::{table_index, table_entry, leaf_entry, entry_target, ppn_bits, walk, word_at, MapState, map_entries, map_spec};
use crate::cpu::hgatp_mode;
use crate::allocator::{
    alloc_pages_spec, lists_ok, lists_disjoint, apart, size_class, is_size_class,
    first_nonempty, split_lists, block_ok, lemma_first_nonempty, lemma_size_class_unique,
    lemma_split_ok, lemma_split_within, law_allocation_apart,
};
use crate::pow2::lemma_aligned_weaken;

verus! {

/// Bytes that one entry of a table on `level` covers.
pub open spec fn span(level: nat) -> nat {
    pow2(12 + 9 * level)
}

/// The entry index the walk uses on `level` is the number of the
/// `span(level)`-sized piece that holds `va`, within the table.
proof fn lemma_table_index(va: usize, level: usize, n: usize)
    requires
        usize::BITS == 64,
        level <= 5,
        n == 512 || n == 2048,
    ensures
        table_index(va, level, n) as nat == (va as nat / span(level as nat)) % (n as nat),
{
    let s = (12 + 9 * level) as usize;
    vstd::bits::lemma_usize_shr_is_div(va, s);
    let x = va >> s;
    if n == 512 {
        assert(x & 511 == x % 512) by (bit_vector);
    } else {
        assert(x & 2047 == x % 2048) by (bit_vector);
    }
}

/// A non-leaf entry for a page-aligned table below 2^56 is valid and points
/// back to that table.
proof fn lemma_table_entry(t: usize)
    requires
        t % 4096 == 0,
        t < 0x100_0000_0000_0000,
    ensures
        table_entry(t) & 1 != 0,
        entry_target(table_entry(t)) == t,
{
    let x: u64 = (t / 4096) as u64;
    let f = ppn_bits(t as nat);
    assert(f == (x * 1024) as u64);
    let e = table_entry(t);
    assert(e / 1024 == x && e & 1 == 1) by (bit_vector)
        requires
            x < 0x1000_0000_0000u64,
            f == (x * 1024) as u64,
            e == (f | 1u64) & !0b1010u64,
    ;
}

/// A leaf entry for a page-aligned address below 2^56 is valid and points
/// to that page.
proof fn lemma_leaf_entry(pa: usize, perm: u64)
    requires
        pa % 4096 == 0,
        pa < 0x100_0000_0000_0000,
    ensures
        leaf_entry(pa, perm) & 1 != 0,
        entry_target(leaf_entry(pa, perm)) == pa,
{
    let x: u64 = (pa / 4096) as u64;
    let f = ppn_bits(pa as nat);
    assert(f == (x * 1024) as u64);
    let e = leaf_entry(pa, perm);
    assert(e / 1024 == x && e & 1 == 1) by (bit_vector)
        requires
            x < 0x1000_0000_0000u64,
            f == (x * 1024) as u64,
            e == f | ((perm | 1u64 | 16u64) & 0x3ffu64),
    ;
}

/// The highest address a G-stage entry can point to: its page number field
/// has 44 bits.
pub open spec fn ppn_limit() -> nat {
    0x100_0000_0000_0000
}

/// Address `a` lies in a free block of the lists `h`.
pub open spec fn free_at(h: Seq<Seq<usize>>, a: int) -> bool {
    exists|k: int, m: int|
        #![trigger h[k][m]]
        0 <= k < h.len() && 0 <= m < h[k].len() && h[k][m] <= a < h[k][m] + pow2(k as nat)
}

/// Every free block of `h` ends at or below `limit`.
pub open spec fn heap_below(h: Seq<Seq<usize>>, limit: nat) -> bool {
    forall|k: int, m: int|
        #![trigger h[k][m]]
        0 <= k < h.len() && 0 <= m < h[k].len() ==> h[k][m] + pow2(k as nat) <= limit
}

/// The free lists a mapping can draw tables from: well formed, apart, and
/// below the limit of an entry's page number.
#[verifier::opaque]
pub open spec fn heap_fit(h: Seq<Seq<usize>>) -> bool {
    &&& lists_ok(h)
    &&& lists_disjoint(h)
    &&& heap_below(h, ppn_limit())
}

/// What taking `pages` pages at `align`, of size class `c`, does to lists
/// that fit: on success a page-aligned block that was free and no longer
/// is, and lists that still fit with no new free address.
proof fn lemma_alloc(h: Seq<Seq<usize>>, pages: nat, align: nat, c: nat)
    requires
        heap_fit(h),
        is_size_class(c, pages * 4096, align),
        c >= 12,
    ensures
        ({
            let t = alloc_pages_spec(h, pages, align).0;
            let h1 = alloc_pages_spec(h, pages, align).1;
            &&& t == 0 ==> h1 == h
            &&& t != 0 ==> {
                &&& t % 4096 == 0
                &&& t + pages * 4096 <= ppn_limit()
                &&& heap_fit(h1)
                &&& forall|a: int| #[trigger] free_at(h1, a) ==> free_at(h, a)
                &&& forall|a: int|
                    t <= a < t + pages * 4096 ==> #[trigger] free_at(h, a) && !free_at(h1, a)
            }
        }),
{
    reveal(heap_fit);
    let c0 = size_class(pages * 4096, align);
    assert(is_size_class(c0, pages * 4096, align));
    lemma_size_class_unique(c0, c, pages * 4096, align);
    lemma_first_nonempty(h, c as int);
    let i = first_nonempty(h, c as int);
    if i < h.len() {
        let n = h[i].len();
        let b = h[i].last();
        let h1 = split_lists(h, c as int, i, b);
        assert(block_ok(h[i][n - 1], i as nat));
        lemma_aligned_weaken(b as nat, 12, i as nat);
        lemma2_to64();
        if c < i {
            vstd::arithmetic::power2::lemma_pow2_strictly_increases(c, i as nat);
        }
        lemma_split_ok(h, c as int, i, i, b);
        law_allocation_apart(h, c as int);
        lemma_split_within(h, c as int, i);
        assert(h[i][n - 1] + pow2(i as nat) <= ppn_limit());
        assert forall|k: int, m: int|
            #![trigger h1[k][m]]
            0 <= k < h1.len() && 0 <= m < h1[k].len() implies h1[k][m] + pow2(k as nat)
            <= ppn_limit() by {
            let (k0, m0) = choose|k0: int, m0: int|
                #![trigger h[k0][m0]]
                0 <= k0 < h.len() && 0 <= m0 < h[k0].len() && h[k0][m0] <= h1[k][m] && h1[k][m]
                    + pow2(k as nat) <= h[k0][m0] + pow2(k0 as nat);
            assert(h[k0][m0] + pow2(k0 as nat) <= ppn_limit());
        }
        assert forall|a: int| #[trigger] free_at(h1, a) implies free_at(h, a) by {
            let (k, m) = choose|k: int, m: int|
                #![trigger h1[k][m]]
                0 <= k < h1.len() && 0 <= m < h1[k].len() && h1[k][m] <= a < h1[k][m] + pow2(
                    k as nat,
                );
            let (k0, m0) = choose|k0: int, m0: int|
                #![trigger h[k0][m0]]
                0 <= k0 < h.len() && 0 <= m0 < h[k0].len() && h[k0][m0] <= h1[k][m] && h1[k][m]
                    + pow2(k as nat) <= h[k0][m0] + pow2(k0 as nat);
            assert(h[k0][m0] <= a < h[k0][m0] + pow2(k0 as nat));
        }
        assert forall|a: int| b <= a < b + pages * 4096 implies #[trigger] free_at(h, a)
            && !free_at(h1, a) by {
            assert(h[i][n - 1] <= a < h[i][n - 1] + pow2(i as nat));
            if free_at(h1, a) {
                let (k, m) = choose|k: int, m: int|
                    #![trigger h1[k][m]]
                    0 <= k < h1.len() && 0 <= m < h1[k].len() && h1[k][m] <= a < h1[k][m] + pow2(
                        k as nat,
                    );
                assert(apart(h1[k][m] as int, k as nat, b as int, c));
            }
        }
    }
}

/// One entry on `level + 1` covers 512 entries on `level`.
proof fn lemma_span_step(level: nat)
    ensures
        span(level + 1) == 512 * span(level),
        span(level) > 0,
        span(0) == 4096,
{
    vstd::arithmetic::power2::lemma_pow2_adds(9, 12 + 9 * level);
    lemma2_to64();
    lemma_pow2_pos(12 + 9 * level);
}

/// An address in the `j`-th piece of size `r` of a range that starts at a
/// multiple of `n * r` has index `j` within the range.
proof fn lemma_piece(v: int, tb: int, r: int, n: int, j: int)
    requires
        r > 0,
        n > 0,
        tb >= 0,
        tb % (n * r) == 0,
        0 <= j < n,
        tb + j * r <= v < tb + (j + 1) * r,
    ensures
        (v / r) % n == j,
        v / r == tb / r + j,
        (tb / r) % n == 0,
{
    assert(n * r > 0) by (nonlinear_arith)
        requires
            n > 0,
            r > 0,
    ;
    let q = tb / (n * r);
    vstd::arithmetic::div_mod::lemma_fundamental_div_mod(tb, n * r);
    assert(tb == q * (n * r));
    assert(tb == (q * n) * r) by (nonlinear_arith)
        requires
            tb == q * (n * r),
    ;
    let off = v - tb - j * r;
    assert((j + 1) * r == j * r + r) by (nonlinear_arith);
    assert(0 <= off < r);
    assert(v == (q * n + j) * r + off) by (nonlinear_arith)
        requires
            tb == (q * n) * r,
            off == v - tb - j * r,
    ;
    vstd::arithmetic::div_mod::lemma_fundamental_div_mod_converse(v, r, q * n + j, off);
    vstd::arithmetic::div_mod::lemma_fundamental_div_mod_converse(tb, r, q * n, 0);
    vstd::arithmetic::div_mod::lemma_fundamental_div_mod_converse(q * n + j, n, q, j);
    vstd::arithmetic::div_mod::lemma_fundamental_div_mod_converse(q * n, n, q, 0);
}

/// The piece of size `r` that holds `v`, within a range of `n` pieces that
/// starts at a multiple of `n * r`.
proof fn lemma_piece_of(v: int, tb: int, r: int, n: int)
    requires
        r > 0,
        n > 0,
        tb >= 0,
        tb % (n * r) == 0,
        tb <= v < tb + n * r,
    ensures
        0 <= (v - tb) / r < n,
        tb + ((v - tb) / r) * r <= v < tb + ((v - tb) / r + 1) * r,
        (v / r) % n == (v - tb) / r,
{
    let j = (v - tb) / r;
    vstd::arithmetic::div_mod::lemma_fundamental_div_mod(v - tb, r);
    assert(0 <= (v - tb) % r < r);
    assert((j + 1) * r == j * r + r) by (nonlinear_arith);
    assert(j < n) by (nonlinear_arith)
        requires
            v - tb == r * j + (v - tb) % r,
            (v - tb) % r >= 0,
            v - tb < n * r,
            r > 0,
    ;
    assert(j >= 0) by (nonlinear_arith)
        requires
            v - tb == r * j + (v - tb) % r,
            (v - tb) % r < r,
            v - tb >= 0,
            r > 0,
    ;
    lemma_piece(v, tb, r, n, j);
}

/// A multiple of `n * r` is a multiple of `r`, and so is one more piece of
/// `r` on top of it.
proof fn lemma_piece_start(tb: int, r: int, n: int, j: int)
    requires
        r > 0,
        n > 0,
        tb >= 0,
        j >= 0,
        tb % (n * r) == 0,
    ensures
        (tb + j * r) % r == 0,
{
    assert(n * r > 0) by (nonlinear_arith)
        requires
            n > 0,
            r > 0,
    ;
    let q = tb / (n * r);
    vstd::arithmetic::div_mod::lemma_fundamental_div_mod(tb, n * r);
    assert(tb + j * r == (q * n + j) * r) by (nonlinear_arith)
        requires
            tb == (n * r) * q,
    ;
    vstd::arithmetic::div_mod::lemma_fundamental_div_mod_converse(tb + j * r, r, q * n + j, 0);
}

/// Addresses that a pass filling the table at `table` from entry `idx` on
/// may write: that entry and the ones after it, and what the pass took from
/// the heap (free in `h0`, no longer free in `h1`).
pub open spec fn touched(
    h0: Seq<Seq<usize>>,
    h1: Seq<Seq<usize>>,
    table: int,
    idx: int,
    n: int,
    a: int,
) -> bool {
    (table + 8 * idx <= a < table + 8 * n) || (free_at(h0, a) && !free_at(h1, a))
}

/// `m1` holds the words of `m2` wherever such a pass may have written.
pub open spec fn agree_on(
    m1: Seq<u64>,
    m2: Seq<u64>,
    base: int,
    h0: Seq<Seq<usize>>,
    h1: Seq<Seq<usize>>,
    table: int,
    idx: int,
    n: int,
) -> bool {
    &&& m1.len() == m2.len()
    &&& forall|w: int|
        #![trigger m1[w]]
        0 <= w < m1.len() && touched(h0, h1, table, idx, n, base + 8 * w) ==> m1[w] == m2[w]
}

/// Where a pass may start: entry `idx` of a table whose `n` entries of
/// `span(level)` bytes each cover the range from `tb`, at the next page to
/// map, with tables to come from lists that fit.
pub open spec fn pass_pre(
    st: MapState,
    base: nat,
    table: nat,
    level: nat,
    idx: nat,
    n: nat,
    tb: nat,
) -> bool {
    &&& usize::BITS == 64
    &&& base >= 0x4000
    &&& level <= 5
    &&& (n == 512 || n == 2048)
    &&& idx <= n
    &&& table % 4096 == 0
    &&& forall|a: int| table <= a < table + 8 * n ==> !#[trigger] free_at(st.heap, a)
    &&& heap_fit(st.heap)
    &&& st.va % 4096 == 0
    &&& st.pa % 4096 == 0
    &&& st.remaining % 4096 == 0
    &&& (idx < n ==> st.remaining > 0)
    &&& st.pa + st.remaining <= ppn_limit()
    &&& st.va + st.remaining <= usize::MAX
    &&& tb % (n * span(level)) == 0
    &&& tb + idx * span(level) <= st.va
    &&& (idx < n ==> st.va < tb + (idx + 1) * span(level))
    &&& (idx == n ==> st.va == tb + n * span(level))
}

/// The bookkeeping of a pass from `st` to `st2`: it mapped the pages from
/// `st.va` up to `st2.va` in order, stopping at the end of the table's range
/// unless nothing remained; the heap only lost free addresses; memory
/// changed only where the pass may write.
pub open spec fn pass_shape(
    st: MapState,
    st2: MapState,
    base: nat,
    table: nat,
    level: nat,
    idx: nat,
    n: nat,
    tb: nat,
) -> bool {
    &&& st2.remaining <= st.remaining
    &&& st2.va == st.va + (st.remaining - st2.remaining)
    &&& st2.pa == st.pa + (st.remaining - st2.remaining)
    &&& st2.remaining % 4096 == 0
    &&& st2.va <= tb + n * span(level)
    &&& (st2.remaining > 0 ==> st2.va == tb + n * span(level))
    &&& heap_fit(st2.heap)
    &&& forall|a: int| #[trigger] free_at(st2.heap, a) ==> free_at(st.heap, a)
    &&& st2.mem.len() == st.mem.len()
    &&& forall|w: int|
        #![trigger st2.mem[w]]
        0 <= w < st.mem.len() && !touched(st.heap, st2.heap, table as int, idx as int, n as int, base + 8 * w)
            ==> st2.mem[w] == st.mem[w]
}

/// On any memory that agrees with the result of a pass from `st` to `st2`
/// where the pass may write, the walk from the table finds each page the
/// pass mapped.
pub open spec fn pass_walks(
    st: MapState,
    st2: MapState,
    base: nat,
    table: nat,
    level: nat,
    idx: nat,
    n: nat,
) -> bool {
    forall|m: Seq<u64>, v: usize|
        #![trigger walk(m, base, v, table, level as usize, n as usize)]
        agree_on(m, st2.mem, base as int, st.heap, st2.heap, table as int, idx as int, n as int)
            && st.va <= v < st2.va ==> walk(m, base, v, table, level as usize, n as usize) == Ok::<
            nat,
            (),
        >((st.pa + (v - st.va)) as nat)
}

/// What a pass from `st` to `st2` guarantees.
pub open spec fn pass_ok(
    st: MapState,
    st2: MapState,
    base: nat,
    table: nat,
    level: nat,
    idx: nat,
    n: nat,
    tb: nat,
) -> bool {
    &&& pass_shape(st, st2, base, table, level, idx, n, tb)
    &&& pass_walks(st, st2, base, table, level, idx, n)
}

/// A pass over a leaf table maps one page per entry.
proof fn lemma_pass_leaf(st: MapState, base: nat, table: nat, idx: nat, n: nat, perm: u64, tb: nat)
    requires
        pass_pre(st, base, table, 0, idx, n, tb),
        map_entries(st, base, table, 0, idx, n, perm) is Some,
    ensures
        pass_ok(st, map_entries(st, base, table, 0, idx, n, perm)->0, base, table, 0, idx, n, tb),
    decreases n - idx,
{
    let r = span(0);
    lemma_span_step(0);
    let st2 = map_entries(st, base, table, 0, idx, n, perm)->0;
    if idx >= n {
        assert(st2 == st);
        assert forall|m: Seq<u64>, v: usize|
            #![trigger walk(m, base, v, table, 0usize, n as usize)]
            agree_on(m, st2.mem, base as int, st.heap, st2.heap, table as int, idx as int, n as int)
                && st.va <= v < st2.va implies walk(m, base, v, table, 0usize, n as usize) == Ok::<
            nat,
            (),
        >((st.pa + (v - st.va)) as nat) by {}
    } else {
        let a0 = table + 8 * idx;
        assert(word_at(st.mem, base, a0) is Some);
        let k = ((a0 - base) / 8) as int;
        assert(base + 8 * k == a0);
        lemma_piece(st.va as int, tb as int, r as int, n as int, idx as int);
        lemma_piece_start(tb as int, r as int, n as int, idx as int);
        assert(st.va == tb + idx * r);
        lemma_leaf_entry(st.pa, perm);
        let e = leaf_entry(st.pa, perm);
        let st1 = MapState {
            mem: st.mem.update(k, e),
            heap: st.heap,
            pa: (st.pa + 4096) as usize,
            va: (st.va + 4096) as usize,
            remaining: (st.remaining - 4096) as usize,
        };
        if st1.remaining == 0 {
            assert(st2 == st1);
        } else {
            assert(st2 == map_entries(st1, base, table, 0, idx + 1, n, perm)->0);
            assert((idx + 1) * r == idx * r + r) by (nonlinear_arith);
            assert((idx + 2) * r == idx * r + 2 * r) by (nonlinear_arith);
            lemma_pass_leaf(st1, base, table, idx + 1, n, perm, tb);
        }
        assert(st2.mem[k] == e) by {
            if st1.remaining != 0 {
                assert(!touched(st1.heap, st2.heap, table as int, idx + 1int, n as int, base + 8 * k));
            }
        }
        assert forall|w: int|
            #![trigger st2.mem[w]]
            0 <= w < st.mem.len() && !touched(
                st.heap,
                st2.heap,
                table as int,
                idx as int,
                n as int,
                base + 8 * w,
            ) implies st2.mem[w] == st.mem[w] by {
            assert(w != k);
            if st1.remaining != 0 {
                assert(st2.mem[w] == st1.mem[w]);
            }
        }
        assert forall|m: Seq<u64>, v: usize|
            #![trigger walk(m, base, v, table, 0usize, n as usize)]
            agree_on(m, st2.mem, base as int, st.heap, st2.heap, table as int, idx as int, n as int)
                && st.va <= v < st2.va implies walk(m, base, v, table, 0usize, n as usize) == Ok::<
            nat,
            (),
        >((st.pa + (v - st.va)) as nat) by {
            if v < st1.va {
                lemma_table_index(v, 0, n as usize);
                lemma_piece(v as int, tb as int, r as int, n as int, idx as int);
                assert(touched(st.heap, st2.heap, table as int, idx as int, n as int, base + 8 * k));
                assert(m[k] == st2.mem[k]);
                assert(word_at(m, base, a0) == Some(e));
                assert(v as nat % 4096 == v - st.va);
            } else {
                assert(agree_on(
                    m,
                    st2.mem,
                    base as int,
                    st1.heap,
                    st2.heap,
                    table as int,
                    (idx + 1) as int,
                    n as int,
                )) by {
                    assert forall|w: int|
                        #![trigger m[w]]
                        0 <= w < m.len() && touched(
                            st1.heap,
                            st2.heap,
                            table as int,
                            (idx + 1) as int,
                            n as int,
                            base + 8 * w,
                        ) implies m[w] == st2.mem[w] by {
                        assert(touched(
                            st.heap,
                            st2.heap,
                            table as int,
                            idx as int,
                            n as int,
                            base + 8 * w,
                        ));
                    }
                }
            }
        }
    }
}

/// The table that entry `idx` of a pass on a level above 0 gets, and the
/// state in which the pass one level down starts.
pub open spec fn step_table(st: MapState) -> usize {
    alloc_pages_spec(st.heap, 1, 4096).0
}

pub open spec fn step_state(st: MapState, base: nat, table: nat, idx: nat) -> MapState {
    MapState {
        mem: st.mem.update(((table + 8 * idx - base) / 8) as int, table_entry(step_table(st))),
        heap: alloc_pages_spec(st.heap, 1, 4096).1,
        pa: st.pa,
        va: st.va,
        remaining: st.remaining,
    }
}

pub open spec fn step_index(st: MapState, level: nat) -> nat {
    table_index(st.va, (level - 1) as usize, 512) as nat
}

/// What the step at entry `idx` above level 0 sets up: a fresh table,
/// free before and taken now, the entry pointing to it, and a pass one
/// level down that may start there.
proof fn lemma_step_setup(st: MapState, base: nat, table: nat, level: nat, idx: nat, n: nat, perm: u64, tb: nat)
    requires
        pass_pre(st, base, table, level, idx, n, tb),
        map_entries(st, base, table, level, idx, n, perm) is Some,
        level > 0,
        idx < n,
    ensures
        ({
            let t = step_table(st);
            let st1 = step_state(st, base, table, idx);
            let k = ((table + 8 * idx - base) / 8) as int;
            let r = span(level);
            &&& base + 8 * k == table + 8 * idx
            &&& 0 <= k < st.mem.len()
            &&& t % 4096 == 0
            &&& t + 4096 <= ppn_limit()
            &&& table_entry(t) & 1 != 0
            &&& entry_target(table_entry(t)) == t
            &&& forall|a: int| t <= a < t + 4096 ==> #[trigger] free_at(st.heap, a) && !free_at(st1.heap, a)
            &&& forall|a: int| #[trigger] free_at(st1.heap, a) ==> free_at(st.heap, a)
            &&& pass_pre(st1, base, t as nat, (level - 1) as nat, step_index(st, level), 512, tb + idx * r)
            &&& map_entries(st1, base, t as nat, (level - 1) as nat, step_index(st, level), 512, perm) is Some
            &&& map_entries(st, base, table, level, idx, n, perm) == match map_entries(st1, base, t as nat, (level - 1) as nat, step_index(st, level), 512, perm) {
                None => None,
                Some(st2) => if st2.remaining == 0 {
                    Some(st2)
                } else {
                    map_entries(st2, base, table, level, idx + 1, n, perm)
                },
            }
            &&& tb + idx * r <= st.va < tb + (idx + 1) * r
            &&& (tb + idx * r) % span(level) == 0
            &&& span(level) == 512 * span((level - 1) as nat)
        }),
{
    let r = span(level);
    let rc = span((level - 1) as nat);
    lemma_span_step((level - 1) as nat);
    let h0 = st.heap;
    let a0 = table + 8 * idx;
    assert(word_at(st.mem, base, a0) is Some);
    let k = ((a0 - base) / 8) as int;
    lemma_piece(st.va as int, tb as int, r as int, n as int, idx as int);
    lemma_piece_start(tb as int, r as int, n as int, idx as int);
    lemma2_to64();
    assert(is_size_class(12, 1 * 4096, 4096));
    lemma_alloc(h0, 1, 4096, 12);
    let t = step_table(st);
    let h1 = alloc_pages_spec(h0, 1, 4096).1;
    let st1 = step_state(st, base, table, idx);
    let lc = (level - 1) as nat;
    let idx_c = step_index(st, level);
    lemma_table_index(st.va, lc as usize, 512);
    let tb_c = tb + idx * r;
    assert(map_entries(st1, base, t as nat, lc, idx_c, 512, perm) is Some);
    assert(t != 0) by {
        if t == 0 {
            assert(word_at(st1.mem, base, (t + 8 * idx_c) as nat) is None);
        }
    }
    lemma_table_entry(t);
    assert((idx + 1) * r == idx * r + r) by (nonlinear_arith);
    lemma_piece_of(st.va as int, tb_c as int, rc as int, 512);
    assert((idx_c + 1) * rc == idx_c * rc + rc) by (nonlinear_arith);
    assert forall|a: int| t <= a < t + 8 * 512 implies !#[trigger] free_at(h1, a) by {
        assert(t <= a < t + 1 * 4096);
    }
}

/// The state after the pass one level down for entry `idx`.
pub open spec fn step_child(st: MapState, base: nat, table: nat, level: nat, idx: nat, perm: u64) -> MapState {
    map_entries(
        step_state(st, base, table, idx),
        base,
        step_table(st) as nat,
        (level - 1) as nat,
        step_index(st, level),
        512,
        perm,
    )->0
}

/// When the pass one level down leaves pages to map, the pass may go on at
/// the next entry.
proof fn lemma_step_next(st: MapState, base: nat, table: nat, level: nat, idx: nat, n: nat, perm: u64, tb: nat)
    requires
        pass_pre(st, base, table, level, idx, n, tb),
        map_entries(st, base, table, level, idx, n, perm) is Some,
        level > 0,
        idx < n,
        pass_shape(
            step_state(st, base, table, idx),
            step_child(st, base, table, level, idx, perm),
            base,
            step_table(st) as nat,
            (level - 1) as nat,
            step_index(st, level),
            512,
            tb + idx * span(level),
        ),
        step_child(st, base, table, level, idx, perm).remaining > 0,
    ensures
        pass_pre(step_child(st, base, table, level, idx, perm), base, table, level, idx + 1, n, tb),
{
    lemma_step_setup(st, base, table, level, idx, n, perm, tb);
    let r = span(level);
    let stc = step_child(st, base, table, level, idx, perm);
    let h1 = step_state(st, base, table, idx).heap;
    assert forall|a: int| table <= a < table + 8 * n implies !#[trigger] free_at(stc.heap, a) by {
        if free_at(stc.heap, a) {
            assert(free_at(h1, a));
            assert(free_at(st.heap, a));
        }
    }
    assert((idx + 1) * r == idx * r + r) by (nonlinear_arith);
    assert((idx + 2) * r == idx * r + 2 * r) by (nonlinear_arith);
}

/// The state after the whole pass from entry `idx` above level 0, in
/// terms of the pass one level down and the pass from the next entry.
proof fn lemma_step_result(st: MapState, base: nat, table: nat, level: nat, idx: nat, n: nat, perm: u64, tb: nat)
    requires
        pass_pre(st, base, table, level, idx, n, tb),
        map_entries(st, base, table, level, idx, n, perm) is Some,
        level > 0,
        idx < n,
    ensures
        ({
            let stc = step_child(st, base, table, level, idx, perm);
            let st2 = map_entries(st, base, table, level, idx, n, perm)->0;
            &&& stc.remaining == 0 ==> st2 == stc
            &&& stc.remaining > 0 ==> map_entries(stc, base, table, level, idx + 1, n, perm) is Some
                && st2 == map_entries(stc, base, table, level, idx + 1, n, perm)->0
        }),
{
    lemma_step_setup(st, base, table, level, idx, n, perm, tb);
}

/// The bookkeeping of a pass from entry `idx` above level 0 follows from
/// that of the pass one level down and that of the pass from the next
/// entry.
proof fn lemma_step_shape(st: MapState, base: nat, table: nat, level: nat, idx: nat, n: nat, perm: u64, tb: nat)
    requires
        pass_pre(st, base, table, level, idx, n, tb),
        map_entries(st, base, table, level, idx, n, perm) is Some,
        level > 0,
        idx < n,
        pass_shape(
            step_state(st, base, table, idx),
            step_child(st, base, table, level, idx, perm),
            base,
            step_table(st) as nat,
            (level - 1) as nat,
            step_index(st, level),
            512,
            tb + idx * span(level),
        ),
        step_child(st, base, table, level, idx, perm).remaining > 0 ==> pass_shape(
            step_child(st, base, table, level, idx, perm),
            map_entries(step_child(st, base, table, level, idx, perm), base, table, level, idx + 1, n, perm)->0,
            base,
            table,
            level,
            idx + 1,
            n,
            tb,
        ),
    ensures
        pass_shape(st, map_entries(st, base, table, level, idx, n, perm)->0, base, table, level, idx, n, tb),
{
    lemma_step_setup(st, base, table, level, idx, n, perm, tb);
    lemma_step_result(st, base, table, level, idx, n, perm, tb);
    let r = span(level);
    let t = step_table(st);
    let st1 = step_state(st, base, table, idx);
    let idx_c = step_index(st, level);
    let stc = step_child(st, base, table, level, idx, perm);
    let st2 = map_entries(st, base, table, level, idx, n, perm)->0;
    let h0 = st.heap;
    let h1 = st1.heap;
    let hc = stc.heap;
    let h2 = st2.heap;
    let k = ((table + 8 * idx - base) / 8) as int;
    assert((idx + 1) * r == idx * r + r) by (nonlinear_arith);
    assert(idx * r + r <= n * r) by (nonlinear_arith)
        requires
            idx < n,
            r > 0,
    ;
    assert forall|a: int| #[trigger] free_at(h2, a) implies free_at(h0, a) by {
        if stc.remaining > 0 {
            assert(free_at(hc, a));
        }
        assert(free_at(h1, a));
    }
    assert forall|w: int|
        #![trigger st2.mem[w]]
        0 <= w < st.mem.len() && !touched(h0, h2, table as int, idx as int, n as int, base + 8 * w)
            implies st2.mem[w] == st.mem[w] by {
        let a = base + 8 * w;
        if stc.remaining > 0 {
            if free_at(hc, a) {
                assert(free_at(h1, a));
            }
            assert(!touched(hc, h2, table as int, idx + 1int, n as int, a));
            assert(st2.mem[w] == stc.mem[w]);
        }
        if free_at(hc, a) {
            assert(free_at(h1, a));
        }
        if stc.remaining > 0 && free_at(h2, a) {
            assert(free_at(hc, a));
        }
        if free_at(h1, a) {
            assert(free_at(h0, a));
        }
        assert(!touched(h1, hc, t as int, idx_c as int, 512, a));
        assert(stc.mem[w] == st1.mem[w]);
        assert(w != k);
    }
}

/// The walks of a pass from entry `idx` above level 0: a page the pass
/// one level down mapped is reached through this entry, which points to its
/// table; a later page through the pass from the next entry.
proof fn lemma_step_walks(st: MapState, base: nat, table: nat, level: nat, idx: nat, n: nat, perm: u64, tb: nat)
    requires
        pass_pre(st, base, table, level, idx, n, tb),
        map_entries(st, base, table, level, idx, n, perm) is Some,
        level > 0,
        idx < n,
        pass_ok(
            step_state(st, base, table, idx),
            step_child(st, base, table, level, idx, perm),
            base,
            step_table(st) as nat,
            (level - 1) as nat,
            step_index(st, level),
            512,
            tb + idx * span(level),
        ),
        step_child(st, base, table, level, idx, perm).remaining > 0 ==> pass_ok(
            step_child(st, base, table, level, idx, perm),
            map_entries(step_child(st, base, table, level, idx, perm), base, table, level, idx + 1, n, perm)->0,
            base,
            table,
            level,
            idx + 1,
            n,
            tb,
        ),
    ensures
        pass_walks(st, map_entries(st, base, table, level, idx, n, perm)->0, base, table, level, idx, n),
{
    lemma_step_setup(st, base, table, level, idx, n, perm, tb);
    lemma_step_result(st, base, table, level, idx, n, perm, tb);
    let r = span(level);
    let t = step_table(st);
    let st1 = step_state(st, base, table, idx);
    let lc = (level - 1) as nat;
    let idx_c = step_index(st, level);
    let stc = step_child(st, base, table, level, idx, perm);
    let st2 = map_entries(st, base, table, level, idx, n, perm)->0;
    let h0 = st.heap;
    let h1 = st1.heap;
    let hc = stc.heap;
    let h2 = st2.heap;
    let k = ((table + 8 * idx - base) / 8) as int;
    let e = table_entry(t);
    assert((idx + 1) * r == idx * r + r) by (nonlinear_arith);
    // The entry keeps pointing to the new table.
    assert(st2.mem[k] == e) by {
        if stc.remaining > 0 {
            assert(!touched(hc, h2, table as int, idx + 1int, n as int, base + 8 * k));
        }
        assert(!free_at(h1, base + 8 * k));
        assert(!touched(h1, hc, t as int, idx_c as int, 512, base + 8 * k));
    }
    assert forall|m: Seq<u64>, v: usize|
        #![trigger walk(m, base, v, table, level as usize, n as usize)]
        agree_on(m, st2.mem, base as int, h0, h2, table as int, idx as int, n as int) && st.va <= v
            < st2.va implies walk(m, base, v, table, level as usize, n as usize) == Ok::<nat, ()>(
        (st.pa + (v - st.va)) as nat,
    ) by {
        if v < stc.va {
            lemma_table_index(v, level as usize, n as usize);
            lemma_piece(v as int, tb as int, r as int, n as int, idx as int);
            assert(touched(h0, h2, table as int, idx as int, n as int, base + 8 * k));
            assert(m[k] == e);
            assert(word_at(m, base, table + 8 * idx) == Some(e));
            assert(agree_on(m, stc.mem, base as int, h1, hc, t as int, idx_c as int, 512)) by {
                assert forall|w: int|
                    #![trigger m[w]]
                    0 <= w < m.len() && touched(h1, hc, t as int, idx_c as int, 512, base + 8 * w)
                        implies m[w] == stc.mem[w] by {
                    let a = base + 8 * w;
                    if free_at(h1, a) {
                        assert(free_at(h0, a));
                    }
                    if free_at(hc, a) {
                        assert(free_at(h1, a));
                    }
                    if stc.remaining > 0 && free_at(h2, a) {
                        assert(free_at(hc, a));
                    }
                    assert(touched(h0, h2, table as int, idx as int, n as int, a));
                    if stc.remaining > 0 {
                        assert(!touched(hc, h2, table as int, idx + 1int, n as int, a));
                    }
                }
            }
            assert(walk(m, base, v, t as nat, lc as usize, 512) == Ok::<nat, ()>(
                (st.pa + (v - st.va)) as nat,
            ));
        } else {
            assert(agree_on(m, st2.mem, base as int, hc, h2, table as int, idx + 1int, n as int)) by {
                assert forall|w: int|
                    #![trigger m[w]]
                    0 <= w < m.len() && touched(hc, h2, table as int, idx + 1int, n as int, base + 8 * w)
                        implies m[w] == st2.mem[w] by {
                    let a = base + 8 * w;
                    if free_at(hc, a) {
                        assert(free_at(h1, a));
                        assert(free_at(h0, a));
                    }
                    assert(touched(h0, h2, table as int, idx as int, n as int, a));
                }
            }
        }
    }
}

/// A pass over a table on any level maps the pages in order; on a level
/// above 0 each entry gets a fresh table from the heap, filled by a pass one
/// level down.
proof fn lemma_pass(st: MapState, base: nat, table: nat, level: nat, idx: nat, n: nat, perm: u64, tb: nat)
    requires
        pass_pre(st, base, table, level, idx, n, tb),
        map_entries(st, base, table, level, idx, n, perm) is Some,
    ensures
        pass_ok(st, map_entries(st, base, table, level, idx, n, perm)->0, base, table, level, idx, n, tb),
    decreases level, n - idx,
{
    if level == 0 {
        lemma_pass_leaf(st, base, table, idx, n, perm, tb);
        return;
    }
    let st2 = map_entries(st, base, table, level, idx, n, perm)->0;
    if idx >= n {
        assert(st2 == st);
        assert forall|m: Seq<u64>, v: usize|
            #![trigger walk(m, base, v, table, level as usize, n as usize)]
            agree_on(m, st2.mem, base as int, st.heap, st2.heap, table as int, idx as int, n as int)
                && st.va <= v < st2.va implies walk(m, base, v, table, level as usize, n as usize)
            == Ok::<nat, ()>((st.pa + (v - st.va)) as nat) by {}
        return;
    }
    lemma_step_setup(st, base, table, level, idx, n, perm, tb);
    let r = span(level);
    let t = step_table(st);
    let st1 = step_state(st, base, table, idx);
    let lc = (level - 1) as nat;
    let idx_c = step_index(st, level);
    let tb_c = tb + idx * r;
    lemma_pass(st1, base, t as nat, lc, idx_c, 512, perm, tb_c);
    let stc = step_child(st, base, table, level, idx, perm);
    if stc.remaining == 0 {
        assert(st2 == stc);
    } else {
        lemma_step_next(st, base, table, level, idx, n, perm, tb);
        lemma_pass(stc, base, table, level, idx + 1, n, perm, tb);
    }
    lemma_step_shape(st, base, table, level, idx, n, perm, tb);
    lemma_step_walks(st, base, table, level, idx, n, perm, tb);
}


/// Mapping then resolving gives back the mapping: after
/// `map_address_stage2` maps `size` bytes from `va` onto `pa` with tables
/// from a heap whose free blocks are apart and lie below 2^56, the G-stage
/// walk from the top table it returns, which is also the table that the
/// matching `hgatp` value selects, finds every mapped address at `pa` plus
/// its offset from `va`. Every address is mapped when the range stays
/// within the span of the top table. The addresses are page aligned, the
/// physical range and the tables lie below 2^56 (the reach of an entry's
/// page number), and the memory window starts above the first 16 KiB.
pub proof fn law_map_then_resolve(
    mem: Seq<u64>,
    heap: Seq<Seq<usize>>,
    base: nat,
    pa: usize,
    va: usize,
    size: usize,
    table_level: int,
    perm: u64,
)
    requires
        usize::BITS == 64,
        base >= 0x4000,
        3 <= table_level <= 5,
        lists_ok(heap),
        lists_disjoint(heap),
        heap_below(heap, ppn_limit()),
        pa % 4096 == 0,
        va % 4096 == 0,
        size % 4096 == 0,
        size > 0,
        pa + size <= ppn_limit(),
        va + size <= usize::MAX,
        map_spec(mem, heap, base, pa, va, size, table_level, perm) is Some,
    ensures
        ({
            let res = map_spec(mem, heap, base, pa, va, size, table_level, perm)->0;
            let t = res.0;
            let st = res.1;
            let hgatp = hgatp_mode(table_level as i8) * 0x1000_0000_0000_0000 + (t as nat / 4096)
                % 0x1000_0000_0000;
            let top = span((table_level - 1) as nat) * 2048;
            &&& st.remaining <= size
            &&& (va as int) / (top as int) == (va + size - 1) / (top as int) ==> st.remaining == 0
            &&& (hgatp % 0x1000_0000_0000) * 4096 == t
            &&& hgatp / 0x1000_0000_0000_0000 - 6 == table_level - 1
            &&& forall|v: usize|
                va <= v < va + (size - st.remaining) ==> #[trigger] walk(
                    st.mem,
                    base,
                    v,
                    t as nat,
                    (table_level - 1) as usize,
                    2048,
                ) == Ok::<nat, ()>((pa + (v - va)) as nat)
        }),
{
    reveal(heap_fit);
    let lv = (table_level - 1) as nat;
    let r = span(lv);
    lemma_span_step(lv);
    lemma2_to64();
    assert(is_size_class(14, 4 * 4096, 0x4000));
    lemma_alloc(heap, 4, 0x4000, 14);
    let t = alloc_pages_spec(heap, 4, 0x4000).0;
    let h1 = alloc_pages_spec(heap, 4, 0x4000).1;
    let st0 = MapState { mem, heap: h1, pa, va, remaining: size };
    let idx0 = table_index(va, lv as usize, 2048) as nat;
    lemma_table_index(va, lv as usize, 2048);
    assert(map_entries(st0, base, t as nat, lv, idx0, 2048, perm) is Some);
    assert(t != 0) by {
        if t == 0 {
            assert(word_at(mem, base, (t + 8 * idx0) as nat) is None);
        }
    }
    let top = 2048 * r;
    assert(top > 0) by (nonlinear_arith)
        requires
            r > 0,
            top == 2048 * r,
    ;
    let tb = (va as nat / top) * top;
    vstd::arithmetic::div_mod::lemma_fundamental_div_mod(va as int, top as int);
    vstd::arithmetic::div_mod::lemma_mod_multiples_basic((va as nat / top) as int, top as int);
    assert(tb % top == 0) by {
        assert(tb == (va as nat / top) * top);
    }
    lemma_piece_of(va as int, tb as int, r as int, 2048);
    assert((idx0 + 1) * r == idx0 * r + r) by (nonlinear_arith);
    assert forall|a: int| t <= a < t + 8 * 2048 implies !#[trigger] free_at(h1, a) by {
        assert(t <= a < t + 4 * 4096);
    }
    assert(pass_pre(st0, base, t as nat, lv, idx0, 2048, tb));
    lemma_pass(st0, base, t as nat, lv, idx0, 2048, perm, tb);
    let st = map_entries(st0, base, t as nat, lv, idx0, 2048, perm)->0;
    assert(agree_on(st.mem, st.mem, base as int, h1, st.heap, t as int, idx0 as int, 2048));
    assert forall|v: usize| va <= v < va + (size - st.remaining) implies #[trigger] walk(
        st.mem,
        base,
        v,
        t as nat,
        (table_level - 1) as usize,
        2048,
    ) == Ok::<nat, ()>((pa + (v - va)) as nat) by {
        assert(walk(st.mem, base, v, t as nat, lv as usize, 2048 as usize) == Ok::<nat, ()>(
            (st0.pa + (v - st0.va)) as nat,
        ));
    }
    // A range inside one span of the top table is mapped whole.
    if (va as int) / (top as int) == (va + size - 1) / (top as int) && st.remaining > 0 {
        vstd::arithmetic::div_mod::lemma_fundamental_div_mod((va + size - 1) as int, top as int);
        assert(st.va == tb + 2048 * r);
        assert(false);
    }
    // The top table's address survives the trip through `hgatp`.
    let mode = hgatp_mode(table_level as i8);
    let x = (t as nat / 4096) % 0x1000_0000_0000;
    assert(x == t as nat / 4096);
    let hgatp = mode * 0x1000_0000_0000_0000 + x;
    vstd::arithmetic::div_mod::lemma_fundamental_div_mod_converse(
        hgatp as int,
        0x1000_0000_0000_0000,
        mode as int,
        x as int,
    );
    vstd::arithmetic::div_mod::lemma_fundamental_div_mod_converse(
        hgatp as int,
        0x1000_0000_0000,
        (mode * 0x10000) as int,
        x as int,
    );
}

} // verus!
