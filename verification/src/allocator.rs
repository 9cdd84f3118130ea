use vstd::prelude::*;
use vstd::arithmetic::power2::{pow2, lemma_pow2_pos, lemma_pow2_unfold, lemma_pow2_strictly_increases};
use crate::pow2::{is_power_of_two, tz_nat, log2_floor, lemma_pow2_divides, lemma_aligned_weaken, lemma_tz_nat, lemma_log2_floor, lemma_aligned_room, lemma_buddy_align};
use crate::linked_list::{LinkedList, top_index_of, lemma_top_index_of};

verus! {

/// Smallest unit handed out: one machine word of the 64-bit target.
pub const WORD_SIZE: usize = 8;

/// Largest power of two that a `usize` holds.
pub open spec fn half_range() -> nat {
    (usize::MAX as nat) / 2 + 1
}

pub proof fn lemma_half_range()
    ensures
        half_range() == pow2((usize::BITS - 1) as nat),
        half_range() * 2 == usize::MAX as nat + 1,
{
    vstd::arithmetic::power2::lemma2_to64();
    vstd::arithmetic::power2::lemma2_to64_rest();
}

/// A block at `b` of size `2^k` is usable: non-null, aligned to its size and
/// inside the address space.
pub open spec fn block_ok(b: usize, k: nat) -> bool {
    &&& b > 0
    &&& b as nat % pow2(k) == 0
    &&& b as nat + pow2(k) <= usize::MAX as nat + 1
}

pub open spec fn lists_ok(lists: Seq<Seq<usize>>) -> bool {
    forall|k: int, m: int|
        #![trigger lists[k][m]]
        0 <= k < lists.len() && 0 <= m < lists[k].len() ==> block_ok(lists[k][m], k as nat)
}

/// `align` rounded up to a multiple of `align`.
pub open spec fn align_up_spec(address: nat, align: nat) -> nat {
    ((address + align - 1) as nat / align) * align
}

/// The size class of a request: the least `c >= 3` whose block `2^c` covers
/// both the size and the alignment.
pub open spec fn is_size_class(c: nat, size: nat, align: nat) -> bool {
    &&& c >= 3
    &&& pow2(c) >= size
    &&& pow2(c) >= align
    &&& (c == 3 || pow2((c - 1) as nat) < size || pow2((c - 1) as nat) < align)
}

pub open spec fn size_class(size: nat, align: nat) -> nat {
    choose|c: nat| is_size_class(c, size, align)
}

pub proof fn lemma_size_class_unique(c: nat, d: nat, size: nat, align: nat)
    requires
        is_size_class(c, size, align),
        is_size_class(d, size, align),
    ensures
        c == d,
{
    if c < d {
        lemma_pow2_divides(c, (d - 1) as nat);
    } else if d < c {
        lemma_pow2_divides(d, (c - 1) as nat);
    }
}

/// Index of the first non-empty free list at or after `k` (the number of
/// lists when there is none).
pub open spec fn first_nonempty(lists: Seq<Seq<usize>>, k: int) -> int
    decreases lists.len() - k,
{
    if k >= lists.len() {
        lists.len() as int
    } else if lists[k].len() > 0 {
        k
    } else {
        first_nonempty(lists, k + 1)
    }
}

pub proof fn lemma_first_nonempty(lists: Seq<Seq<usize>>, k: int)
    requires
        0 <= k,
    ensures
        k <= first_nonempty(lists, k) || (k > lists.len() && first_nonempty(lists, k) == lists.len()),
        first_nonempty(lists, k) <= lists.len() || k > lists.len(),
        first_nonempty(lists, k) < lists.len() ==> lists[first_nonempty(lists, k)].len() > 0,
        forall|j: int| k <= j < first_nonempty(lists, k) && j < lists.len() ==> lists[j].len() == 0,
    decreases lists.len() - k,
{
    if k < lists.len() && lists[k].len() == 0 {
        lemma_first_nonempty(lists, k + 1);
    }
}

/// Free lists after taking block `b` from list `i` and splitting it down to
/// class `c`: every level in between keeps the upper half of its split.
pub open spec fn split_lists(lists: Seq<Seq<usize>>, c: int, i: int, b: usize) -> Seq<Seq<usize>> {
    Seq::new(
        lists.len(),
        |k: int|
            if k == i {
                lists[k].drop_last()
            } else if c <= k < i {
                lists[k].push((b + pow2(k as nat)) as usize)
            } else {
                lists[k]
            },
    )
}

/// The address of the other half of the level-`k+1` block that holds `p`.
pub open spec fn buddy_of(p: usize, k: nat) -> int {
    if (p as nat / pow2(k)) % 2 == 0 {
        p + pow2(k)
    } else {
        p - pow2(k)
    }
}

/// Free lists after returning block `p` at level `k`: while its buddy is
/// free, the two merge into the block one level up.
pub open spec fn merge_spec(lists: Seq<Seq<usize>>, p: usize, k: nat) -> Seq<Seq<usize>>
    decreases lists.len() - k,
{
    let b = buddy_of(p, k) as usize;
    if k + 1 < lists.len() && top_index_of(lists[k as int], b) >= 0 {
        merge_spec(
            lists.update(k as int, lists[k as int].remove(top_index_of(lists[k as int], b))),
            if p < b { p } else { b },
            k + 1,
        )
    } else if k < lists.len() {
        lists.update(k as int, lists[k as int].push(p))
    } else {
        lists
    }
}

/// Level of the next block that `add_to_heap` carves at `cur`: limited by the
/// alignment of `cur`, by the room left before `end` and by the number of
/// levels.
pub open spec fn piece_order(cur: nat, end: nat, order: nat) -> nat {
    let a = tz_nat(cur);
    let b = log2_floor((end - cur) as nat);
    let m = if a < b { a } else { b };
    if m > order - 1 {
        (order - 1) as nat
    } else {
        m
    }
}

/// Free lists after carving `[cur, end)` into maximal aligned blocks.
pub open spec fn carve(lists: Seq<Seq<usize>>, cur: nat, end: nat, order: nat) -> Seq<Seq<usize>>
    decreases end - cur,
{
    if cur == 0 || cur + WORD_SIZE > end || order == 0 || lists.len() != order {
        lists
    } else {
        let o = piece_order(cur, end, order);
        proof {
            lemma_pow2_pos(o);
            lemma_log2_floor((end - cur) as nat);
            lemma_pow2_divides(o, log2_floor((end - cur) as nat));
        }
        carve(
            lists.update(o as int, lists[o as int].push(cur as usize)),
            cur + pow2(o),
            end,
            order,
        )
    }
}

/// `address` rounded up to a multiple of the power of two `align`.
pub fn align_up(address: usize, align: usize) -> (r: usize)
    requires
        is_power_of_two(align as nat),
        align > 0,
        address + align - 1 <= usize::MAX,
    ensures
        r == align_up_spec(address as nat, align as nat),
{
    let t = address + (align - 1);
    let q = t / align;
    assert(q * align <= t) by (nonlinear_arith)
        requires
            q == t / align,
            align > 0,
    ;
    q * align
}

/// `2^k` as a `usize`.
pub fn pow2_usize(k: usize) -> (r: usize)
    requires
        pow2(k as nat) <= usize::MAX,
    ensures
        r == pow2(k as nat),
{
    let mut r: usize = 1;
    let mut i: usize = 0;
    proof { vstd::arithmetic::power2::lemma2_to64(); }
    while i < k
        invariant
            i <= k,
            r == pow2(i as nat),
            pow2(k as nat) <= usize::MAX,
        decreases k - i,
    {
        proof { lemma_pow2_unfold((i + 1) as nat); }
        proof { lemma_pow2_divides((i + 1) as nat, k as nat); }
        r = r * 2;
        i = i + 1;
    }
    r
}

/// Number of trailing zero bits of a non-zero `x`.
pub fn trailing_zeros(x: usize) -> (r: usize)
    requires
        x > 0,
    ensures
        r == tz_nat(x as nat),
        pow2(r as nat) <= x,
{
    let mut y = x;
    let mut k: usize = 0;
    proof { vstd::arithmetic::power2::lemma2_to64(); }
    while y % 2 == 0
        invariant
            y > 0,
            k + tz_nat(y as nat) == tz_nat(x as nat),
            y as nat * pow2(k as nat) == x as nat,
            k < 64,
        decreases y,
    {
        proof { lemma_pow2_unfold((k + 1) as nat); }
        assert(y as nat * pow2(k as nat) == (y / 2) as nat * pow2((k + 1) as nat)) by (nonlinear_arith)
            requires
                y % 2 == 0,
                pow2((k + 1) as nat) == 2 * pow2(k as nat),
        ;
        assert((y / 2) as nat * pow2((k + 1) as nat) >= pow2((k + 1) as nat)) by (nonlinear_arith)
            requires
                y / 2 >= 1,
        ;
        if k + 1 >= 64 {
            proof {
                vstd::arithmetic::power2::lemma2_to64();
                lemma_pow2_divides(64, (k + 1) as nat);
            }
            assert(false);
        }
        y = y / 2;
        k = k + 1;
    }
    assert(y as nat * pow2(k as nat) >= pow2(k as nat)) by (nonlinear_arith)
        requires
            y >= 1,
    ;
    k
}

/// Floor of the base-2 logarithm of a non-zero `x`.
pub fn log2_floor_usize(x: usize) -> (r: usize)
    requires
        x > 0,
    ensures
        r == log2_floor(x as nat),
        pow2(r as nat) <= x,
{
    let mut y = x;
    let mut k: usize = 0;
    proof { vstd::arithmetic::power2::lemma2_to64(); }
    while y > 1
        invariant
            y > 0,
            k + log2_floor(y as nat) == log2_floor(x as nat),
            k <= 64,
            y as nat * pow2(k as nat) <= x as nat,
        decreases y,
    {
        proof { lemma_pow2_unfold((k + 1) as nat); }
        assert((y / 2) as nat * pow2((k + 1) as nat) <= y as nat * pow2(k as nat)) by (nonlinear_arith)
            requires
                pow2((k + 1) as nat) == 2 * pow2(k as nat),
        ;
        proof {
            if k >= 64 {
                vstd::arithmetic::power2::lemma2_to64();
                lemma_pow2_divides(64, k as nat);
                assert(y as nat * pow2(k as nat) >= pow2(k as nat)) by (nonlinear_arith)
                    requires
                        y >= 1,
                ;
                assert(false);
            }
        }
        y = y / 2;
        k = k + 1;
    }
    proof { lemma_pow2_pos(k as nat); }
    assert(y as nat * pow2(k as nat) >= pow2(k as nat)) by (nonlinear_arith)
        requires
            y >= 1,
    ;
    k
}

/// Largest power of two not above `num`.
pub fn prev_power_of_two(num: usize) -> (r: usize)
    requires
        num > 0,
    ensures
        r == pow2(log2_floor(num as nat)),
        r <= num,
        num < 2 * r,
{
    let k = log2_floor_usize(num);
    proof {
        lemma_log2_floor(num as nat);
        lemma_pow2_unfold((k + 1) as nat);
    }
    pow2_usize(k)
}

/// Binary buddy allocator over `ORDER` free lists; list `k` holds free
/// blocks of `2^k` bytes.
pub struct Heap<const ORDER: usize> {
    free_list: Vec<LinkedList>,
}

impl<const ORDER: usize> Heap<ORDER> {
    /// The free lists, level by level.
    pub closed spec fn view(&self) -> Seq<Seq<usize>> {
        Seq::new(self.free_list@.len(), |k: int| self.free_list@[k]@)
    }

    pub open spec fn wf(&self) -> bool {
        &&& self@.len() == ORDER
        &&& lists_ok(self@)
    }

    pub fn new() -> (r: Self)
        ensures
            r.wf(),
            forall|k: int| 0 <= k < ORDER ==> (#[trigger] r@[k]).len() == 0,
    {
        let mut v: Vec<LinkedList> = Vec::new();
        let mut i: usize = 0;
        while i < ORDER
            invariant
                i <= ORDER,
                v@.len() == i,
                forall|k: int| 0 <= k < i ==> (#[trigger] v@[k])@.len() == 0,
            decreases ORDER - i,
        {
            v.push(LinkedList::new());
            i = i + 1;
        }
        let r = Heap { free_list: v };
        assert(lists_ok(r@));
        r
    }
}


/// Size class of a request of `size` bytes aligned to `align`: the exponent of
/// the larger of the size rounded up to a power of two, the alignment and a
/// machine word.
pub fn size_class_of(size: usize, align: usize) -> (c: usize)
    requires
        size <= half_range(),
        align <= half_range(),
    ensures
        is_size_class(c as nat, size as nat, align as nat),
        c as nat == size_class(size as nat, align as nat),
        c < usize::BITS,
{
    proof {
        lemma_half_range();
        vstd::arithmetic::power2::lemma2_to64();
    }
    let mut p: usize = 8;
    let mut c: usize = 3;
    while p < size || p < align
        invariant
            p == pow2(c as nat),
            c >= 3,
            c < usize::BITS,
            size <= half_range(),
            align <= half_range(),
            half_range() == pow2((usize::BITS - 1) as nat),
            c == 3 || pow2((c - 1) as nat) < size || pow2((c - 1) as nat) < align,
        decreases usize::BITS - c,
    {
        proof {
            if c >= usize::BITS - 1 {
                lemma_pow2_divides((usize::BITS - 1) as nat, c as nat);
            }
            lemma_pow2_unfold((c + 1) as nat);
        }
        p = p * 2;
        c = c + 1;
    }
    proof {
        let w = choose|d: nat| is_size_class(d, size as nat, align as nat);
        assert(is_size_class(c as nat, size as nat, align as nat));
        lemma_size_class_unique(w, c as nat, size as nat, align as nat);
    }
    c
}

impl<const ORDER: usize> Heap<ORDER> {
    /// Adds `[address, address + size)` to the free lists, cut into the
    /// largest blocks that are aligned to their size.
    pub fn add_to_heap(&mut self, address: usize, size: usize)
        requires
            old(self).wf(),
            ORDER > 0,
            address > 0,
            address + 7 <= usize::MAX,
            align_up_spec(address as nat, 8) + size / 8 * 8 + 8 <= usize::MAX,
        ensures
            final(self).wf(),
            final(self)@ == carve(
                old(self)@,
                align_up_spec(address as nat, 8),
                (align_up_spec(address as nat, 8) + size / 8 * 8) as nat,
                ORDER as nat,
            ),
    {
        proof {
            vstd::arithmetic::power2::lemma_pow2(3);
            vstd::arithmetic::power2::lemma2_to64();
            assert(pow2(3) == 8);
            assert(is_power_of_two(8));
        }
        let start = align_up(address, WORD_SIZE);
        let size = size / 8 * 8;
        let end = start + size;
        let mut cur = start;
        while cur + WORD_SIZE <= end
            invariant
                self.wf(),
                cur > 0,
                cur <= end,
                end + 8 <= usize::MAX,
                ORDER > 0,
                carve(self@, cur as nat, end as nat, ORDER as nat) == carve(
                    old(self)@,
                    start as nat,
                    end as nat,
                    ORDER as nat,
                ),
            decreases end - cur,
        {
            let tz = trailing_zeros(cur);
            let fl = log2_floor_usize(end - cur);
            let mut order = if tz < fl {
                tz
            } else {
                fl
            };
            if order > ORDER - 1 {
                order = ORDER - 1;
            }
            proof {
                assert(order as nat == piece_order(cur as nat, end as nat, ORDER as nat));
                lemma_tz_nat(cur as nat);
                lemma_log2_floor((end - cur) as nat);
                lemma_pow2_divides(order as nat, fl as nat);
                lemma_pow2_divides(order as nat, tz as nat);
                lemma_aligned_weaken(cur as nat, order as nat, tz as nat);
            }
            proof { lemma_pow2_pos(order as nat); }
            let current_size = pow2_usize(order);
            let ghost before = self@;
            self.free_list[order].push(cur);
            proof {
                assert(self@ =~= before.update(order as int, before[order as int].push(cur)));
                assert forall|k: int, m: int|
                    #![trigger self@[k][m]]
                    0 <= k < self@.len() && 0 <= m < self@[k].len() implies block_ok(
                    self@[k][m],
                    k as nat,
                ) by {
                    if k == order && m == before[k].len() {
                    } else {
                        assert(self@[k][m] == before[k][m]);
                    }
                }
            }
            cur = cur + current_size;
        }
    }

    /// Hands the region `[address, address + size)` to the allocator.
    pub fn init(&mut self, address: usize, size: usize)
        requires
            old(self).wf(),
            ORDER > 0,
            address > 0,
            address + 7 <= usize::MAX,
            align_up_spec(address as nat, 8) + size / 8 * 8 + 8 <= usize::MAX,
        ensures
            final(self).wf(),
            final(self)@ == carve(
                old(self)@,
                align_up_spec(address as nat, 8),
                (align_up_spec(address as nat, 8) + size / 8 * 8) as nat,
                ORDER as nat,
            ),
    {
        self.add_to_heap(address, size);
    }
}


/// Free lists part way through splitting block `b` from level `i` down to
/// level `c`: levels above `j` hold their upper halves, level `j` holds `b`.
pub open spec fn split_state(lists: Seq<Seq<usize>>, i: int, j: int, b: usize) -> Seq<Seq<usize>> {
    Seq::new(
        lists.len(),
        |k: int|
            if k == i && j == i {
                lists[k]
            } else if k == i {
                lists[k].drop_last()
            } else if j < k < i {
                lists[k].push((b + pow2(k as nat)) as usize)
            } else if k == j && j < i {
                lists[k].push((b + pow2(k as nat)) as usize).push(b)
            } else {
                lists[k]
            },
    )
}

pub proof fn lemma_split_ok(lists: Seq<Seq<usize>>, c: int, i: int, j: int, b: usize)
    requires
        lists_ok(lists),
        0 <= c <= j <= i < lists.len(),
        lists[i].len() > 0,
        lists[i].last() == b,
    ensures
        lists_ok(split_state(lists, i, j, b)),
        lists_ok(split_lists(lists, c, i, b)),
{
    assert(block_ok(b, i as nat)) by {
        assert(lists[i][lists[i].len() - 1] == b);
    }
    assert forall|k: int| j <= k < i implies #[trigger] block_ok((b + pow2(k as nat)) as usize, k as nat)
        && block_ok(b, k as nat) by {
        lemma_aligned_weaken(b as nat, k as nat, i as nat);
        lemma_buddy_align(b as nat, k as nat);
        lemma_pow2_unfold((k + 1) as nat);
        lemma_pow2_divides((k + 1) as nat, i as nat);
        lemma_pow2_divides(k as nat, i as nat);
        lemma_pow2_pos(k as nat);
    }
    assert forall|k: int| c <= k < i implies #[trigger] block_ok((b + pow2(k as nat)) as usize, k as nat) by {
        lemma_aligned_weaken(b as nat, k as nat, i as nat);
        lemma_buddy_align(b as nat, k as nat);
        lemma_pow2_unfold((k + 1) as nat);
        lemma_pow2_divides((k + 1) as nat, i as nat);
        lemma_pow2_pos(k as nat);
    }
    let st = split_state(lists, i, j, b);
    assert forall|k: int, m: int|
        #![trigger st[k][m]]
        0 <= k < st.len() && 0 <= m < st[k].len() implies block_ok(st[k][m], k as nat) by {
        if k == i && j < i {
            assert(st[k][m] == lists[k][m]);
        } else if j < k < i {
            if m < lists[k].len() {
                assert(st[k][m] == lists[k][m]);
            } else {
                assert(st[k][m] == (b + pow2(k as nat)) as usize);
            }
        } else if k == j && j < i {
            if m < lists[k].len() {
                assert(st[k][m] == lists[k][m]);
            } else if m == lists[k].len() {
                assert(st[k][m] == (b + pow2(k as nat)) as usize);
            } else {
                assert(st[k][m] == b);
                lemma_aligned_weaken(b as nat, k as nat, i as nat);
                lemma_pow2_divides(k as nat, i as nat);
            }
        } else {
            assert(st[k][m] == lists[k][m]);
        }
    }
    let sl = split_lists(lists, c, i, b);
    assert forall|k: int, m: int|
        #![trigger sl[k][m]]
        0 <= k < sl.len() && 0 <= m < sl[k].len() implies block_ok(sl[k][m], k as nat) by {
        if k == i {
            assert(sl[k][m] == lists[k][m]);
        } else if c <= k < i {
            if m < lists[k].len() {
                assert(sl[k][m] == lists[k][m]);
            } else {
                assert(sl[k][m] == (b + pow2(k as nat)) as usize);
            }
        } else {
            assert(sl[k][m] == lists[k][m]);
        }
    }
}

impl<const ORDER: usize> Heap<ORDER> {
    /// Takes a block for `size` bytes aligned to `align` from the first
    /// non-empty list of its size class or above, splitting larger blocks
    /// and keeping their upper halves free.
    pub fn allocate(&mut self, size: usize, align: usize) -> (r: Result<usize, ()>)
        requires
            old(self).wf(),
            size <= half_range(),
            align <= half_range(),
        ensures
            final(self).wf(),
            ({
                let c = size_class(size as nat, align as nat) as int;
                let i = first_nonempty(old(self)@, c);
                &&& (r is Ok) == (i < ORDER)
                &&& r is Ok ==> r == Ok::<usize, ()>(old(self)@[i].last()) && final(self)@
                    == split_lists(old(self)@, c, i, old(self)@[i].last())
                &&& r is Err ==> final(self)@ == old(self)@
            }),
            r matches Ok(b) ==> b > 0 && b + size <= usize::MAX + 1 && (is_power_of_two(
                align as nat,
            ) ==> b % align == 0),
    {
        let c = size_class_of(size, align);
        let n = self.free_list.len();
        let mut i = c;
        proof {
            lemma_first_nonempty(self@, c as int);
        }
        while i < n
            invariant
                self@ == old(self)@,
                self.wf(),
                n == ORDER,
                c <= i,
                forall|j: int| c <= j < i ==> #[trigger] self@[j].len() == 0,
                c as nat == size_class(size as nat, align as nat),
                is_size_class(c as nat, size as nat, align as nat),
                first_nonempty(self@, c as int) >= i || (c > n && first_nonempty(self@, c as int)
                    == n),
                first_nonempty(self@, c as int) <= n || c > n,
                first_nonempty(self@, c as int) < n ==> self@[first_nonempty(
                    self@,
                    c as int,
                )].len() > 0,
                forall|j: int|
                    c <= j < first_nonempty(self@, c as int) && j < self@.len() ==> self@[j].len()
                        == 0,
            decreases n - i,
        {
            if !self.free_list[i].is_empty() {
                let ghost lists = self@;
                let ghost b = lists[i as int].last();
                assert(first_nonempty(lists, c as int) == i);
                proof {
                    lemma_split_ok(lists, c as int, i as int, i as int, b);
                    assert(self@ =~= split_state(lists, i as int, i as int, b));
                }
                let mut j = i;
                while j > c
                    invariant
                        c <= j <= i < n,
                        n == ORDER,
                        self@.len() == n,
                        lists.len() == n,
                        lists_ok(lists),
                        lists[i as int].len() > 0,
                        lists[i as int].last() == b,
                        self@ == split_state(lists, i as int, j as int, b),
                    decreases j,
                {
                    let ghost before = self@;
                    assert(before[j as int] == self.free_list@[j as int]@);
                    assert(before[j as int].len() > 0 && before[j as int].last() == b) by {
                        if j < i {
                            assert(before[j as int] == lists[j as int].push(
                                (b + pow2(j as nat)) as usize,
                            ).push(b));
                        }
                    }
                    let block = self.free_list[j].pop().unwrap();
                    proof {
                        assert(block == b);
                        assert(block_ok(b, i as nat)) by {
                            assert(lists[i as int][lists[i as int].len() - 1] == b);
                        }
                        lemma_pow2_divides((j - 1) as nat, i as nat);
                        lemma_pow2_pos((j - 1) as nat);
                        lemma_pow2_unfold(j as nat);
                        lemma_pow2_divides(j as nat, i as nat);
                    }
                    let half = pow2_usize(j - 1);
                    let ghost mid = self@;
                    assert(mid[j as int] == before[j as int].drop_last());
                    self.free_list[j - 1].push(block + half);
                    self.free_list[j - 1].push(block);
                    proof {
                        let target = split_state(lists, i as int, (j - 1) as int, b);
                        assert(self@[j - 1] == before[j - 1].push((block + half) as usize).push(block));
                        assert(before[j - 1] == lists[j - 1]);
                        if j < i {
                            assert(before[j as int] == lists[j as int].push(
                                (b + pow2(j as nat)) as usize,
                            ).push(b));
                            assert(before[j as int].drop_last() =~= lists[j as int].push(
                                (b + pow2(j as nat)) as usize,
                            ));
                        }
                        assert forall|k: int| 0 <= k < self@.len() implies self@[k] == target[k] by {
                            if k == j - 1 {
                            } else if k == j {
                            } else {
                                assert(self@[k] == before[k]);
                            }
                        }
                        assert(self@ =~= target);
                        lemma_split_ok(lists, c as int, i as int, (j - 1) as int, b);
                    }
                    j = j - 1;
                }
                assert(self@[c as int] == self.free_list@[c as int]@);
                assert(self@[c as int].len() > 0 && self@[c as int].last() == b) by {
                    if c < i {
                        assert(self@[c as int] == lists[c as int].push(
                            (b + pow2(c as nat)) as usize,
                        ).push(b));
                    }
                }
                let ghost before_c = self@;
                let result = self.free_list[c].pop().unwrap();
                proof {
                    assert(result == b);
                    let target = split_lists(lists, c as int, i as int, b);
                    if c < i {
                        assert(before_c[c as int].drop_last() =~= lists[c as int].push(
                            (b + pow2(c as nat)) as usize,
                        ));
                    }
                    assert forall|k: int| 0 <= k < self@.len() implies self@[k] == target[k] by {
                        if k != c {
                            assert(self@[k] == before_c[k]);
                        }
                    }
                    assert(self@ =~= target);
                    lemma_split_ok(lists, c as int, i as int, c as int, b);
                    assert(block_ok(b, i as nat)) by {
                        assert(lists[i as int][lists[i as int].len() - 1] == b);
                    }
                    lemma_pow2_divides(c as nat, i as nat);
                    lemma_aligned_weaken(b as nat, c as nat, i as nat);
                    if is_power_of_two(align as nat) {
                        let e = choose|e: nat| pow2(e) == align as nat;
                        if e > c {
                            lemma_pow2_strictly_increases(c as nat, e);
                        }
                        lemma_aligned_weaken(b as nat, e, c as nat);
                    }
                }
                return Ok(result);
            }
            i = i + 1;
        }
        Err(())
    }

    /// Returns the block at `ptr` of the size class of (`size`, `align`),
    /// merging it with its free buddy as long as there is one.
    pub fn dealloc(&mut self, ptr: usize, size: usize, align: usize)
        requires
            old(self).wf(),
            size <= half_range(),
            align <= half_range(),
            size_class(size as nat, align as nat) < ORDER,
            block_ok(ptr, size_class(size as nat, align as nat)),
        ensures
            final(self).wf(),
            final(self)@ == merge_spec(old(self)@, ptr, size_class(size as nat, align as nat)),
    {
        let c = size_class_of(size, align);
        let n = self.free_list.len();
        let mut p = ptr;
        let mut k = c;
        let mut done = false;
        proof {
            lemma_half_range();
        }
        while !done
            invariant
                n == ORDER,
                self@.len() == n,
                self.wf(),
                k < n,
                block_ok(p, k as nat),
                half_range() * 2 == usize::MAX as nat + 1,
                half_range() == pow2((usize::BITS - 1) as nat),
                !done ==> merge_spec(self@, p, k as nat) == merge_spec(
                    old(self)@,
                    ptr,
                    c as nat,
                ),
                done ==> self@ == merge_spec(old(self)@, ptr, c as nat),
            decreases n - k + (if done { 0int } else { 1int }),
        {
            let ghost lists = self@;
            proof {
                lemma_pow2_pos(k as nat);
            }
            if k + 1 < n {
                let s = pow2_usize(k);
                proof {
                    lemma_buddy_align(p as nat, k as nat);
                    lemma_pow2_unfold((k + 1) as nat);
                    if (k + 1) as nat > (usize::BITS) as nat {
                        lemma_pow2_divides(usize::BITS as nat, k as nat);
                        lemma_pow2_unfold(usize::BITS as nat);
                    }
                    lemma_pow2_divides((k + 1) as nat, usize::BITS as nat);
                    lemma_pow2_unfold(usize::BITS as nat);
                    if (p as nat / pow2(k as nat)) % 2 == 0 {
                        lemma_aligned_room(p as nat, pow2((k + 1) as nat), usize::MAX as nat + 1);
                    }
                }
                let buddy = if (p / s) % 2 == 0 {
                    p + s
                } else {
                    p - s
                };
                assert(buddy == buddy_of(p, k as nat));
                proof {
                    lemma_top_index_of(lists[k as int], buddy);
                }
                if self.free_list[k].remove_first(buddy) {
                    let np = if p < buddy {
                        p
                    } else {
                        buddy
                    };
                    proof {
                        assert(self@ =~= lists.update(
                            k as int,
                            lists[k as int].remove(top_index_of(lists[k as int], buddy)),
                        ));
                        assert forall|kk: int, m: int|
                            #![trigger self@[kk][m]]
                            0 <= kk < self@.len() && 0 <= m < self@[kk].len() implies block_ok(
                            self@[kk][m],
                            kk as nat,
                        ) by {
                            if kk == k {
                                let t = top_index_of(lists[k as int], buddy);
                                if m < t {
                                    assert(self@[kk][m] == lists[kk][m]);
                                } else {
                                    assert(self@[kk][m] == lists[kk][m + 1]);
                                }
                            } else {
                                assert(self@[kk][m] == lists[kk][m]);
                            }
                        }
                        lemma_aligned_room(np as nat, pow2((k + 1) as nat), usize::MAX as nat + 1);
                    }
                    p = np;
                    k = k + 1;
                } else {
                    self.free_list[k].push(p);
                    proof {
                        assert(self@ =~= lists.update(k as int, lists[k as int].push(p)));
                        assert forall|kk: int, m: int|
                            #![trigger self@[kk][m]]
                            0 <= kk < self@.len() && 0 <= m < self@[kk].len() implies block_ok(
                            self@[kk][m],
                            kk as nat,
                        ) by {
                            if !(kk == k && m == lists[kk].len()) {
                                assert(self@[kk][m] == lists[kk][m]);
                            }
                        }
                    }
                    done = true;
                }
            } else {
                self.free_list[k].push(p);
                proof {
                    assert(self@ =~= lists.update(k as int, lists[k as int].push(p)));
                    assert forall|kk: int, m: int|
                        #![trigger self@[kk][m]]
                        0 <= kk < self@.len() && 0 <= m < self@[kk].len() implies block_ok(
                        self@[kk][m],
                        kk as nat,
                    ) by {
                        if !(kk == k && m == lists[kk].len()) {
                            assert(self@[kk][m] == lists[kk][m]);
                        }
                    }
                }
                done = true;
            }
        }
    }
}


pub const PAGE_SIZE: usize = 0x1000;

/// The block that `allocate_pages` hands out for `num_of_pages` pages at
/// `align` from the free lists `lists`, and the free lists it leaves; the
/// block is 0 when no list of a large enough class holds one.
pub open spec fn alloc_pages_spec(lists: Seq<Seq<usize>>, num_of_pages: nat, align: nat) -> (usize, Seq<Seq<usize>>) {
    let c = size_class(num_of_pages * 0x1000, align) as int;
    let i = first_nonempty(lists, c);
    if i < lists.len() {
        (lists[i].last(), split_lists(lists, c, i, lists[i].last()))
    } else {
        (0, lists)
    }
}

/// Takes `num_of_pages` pages aligned to `align` from `heap`; 0 when no
/// block is free.
pub fn allocate_pages<const ORDER: usize>(heap: &mut Heap<ORDER>, num_of_pages: usize, align: usize) -> (r: usize)
    requires
        old(heap).wf(),
        num_of_pages * PAGE_SIZE <= half_range(),
        align <= half_range(),
    ensures
        final(heap).wf(),
        ({
            let c = size_class((num_of_pages * PAGE_SIZE) as nat, align as nat) as int;
            let i = first_nonempty(old(heap)@, c);
            &&& (r != 0) == (i < ORDER)
            &&& r != 0 ==> r == old(heap)@[i].last() && final(heap)@ == split_lists(
                old(heap)@,
                c,
                i,
                old(heap)@[i].last(),
            )
            &&& r == 0 ==> final(heap)@ == old(heap)@
        }),
        r != 0 ==> r + num_of_pages * PAGE_SIZE <= usize::MAX + 1 && (is_power_of_two(align as nat)
            ==> r % align == 0),
        (r, final(heap)@) == alloc_pages_spec(old(heap)@, num_of_pages as nat, align as nat),
{
    match heap.allocate(num_of_pages * PAGE_SIZE, align) {
        Ok(b) => b,
        Err(()) => 0,
    }
}


/// The blocks at `a` of `2^ka` bytes and at `b` of `2^kb` bytes share no
/// byte.
pub open spec fn apart(a: int, ka: nat, b: int, kb: nat) -> bool {
    a + pow2(ka) <= b || b + pow2(kb) <= a
}

/// No two free blocks share a byte.
pub open spec fn lists_disjoint(lists: Seq<Seq<usize>>) -> bool {
    forall|k1: int, m1: int, k2: int, m2: int|
        #![trigger lists[k1][m1], lists[k2][m2]]
        0 <= k1 < lists.len() && 0 <= m1 < lists[k1].len() && 0 <= k2 < lists.len() && 0 <= m2
            < lists[k2].len() && (k1 != k2 || m1 != m2) ==> apart(
            lists[k1][m1] as int,
            k1 as nat,
            lists[k2][m2] as int,
            k2 as nat,
        )
}

/// The block at `b` of `2^k` bytes shares no byte with any free block.
pub open spec fn apart_from_free(lists: Seq<Seq<usize>>, b: int, k: nat) -> bool {
    forall|k1: int, m1: int|
        #![trigger lists[k1][m1]]
        0 <= k1 < lists.len() && 0 <= m1 < lists[k1].len() ==> apart(
            lists[k1][m1] as int,
            k1 as nat,
            b,
            k,
        )
}

/// A block apart from a larger block is apart from every block inside it.
proof fn lemma_apart_inside(x: int, kx: nat, b: int, kb: nat, y: int, ky: nat)
    requires
        apart(x, kx, b, kb),
        b <= y,
        y + pow2(ky) <= b + pow2(kb),
        pow2(ky) > 0,
    ensures
        apart(x, kx, y, ky),
{
}

/// The upper halves that a split leaves, `[b + 2^k, b + 2^(k+1))` for
/// `c <= k < i`, lie inside the split block, above its first `2^c` bytes,
/// and apart from each other.
proof fn lemma_split_halves(b: int, c: nat, i: nat, k1: nat, k2: nat)
    requires
        c <= k1 < i,
        c <= k2 < i,
    ensures
        b + pow2(c) <= b + pow2(k1),
        b + pow2(k1) + pow2(k1) <= b + pow2(i),
        pow2(k1) > 0,
        k1 != k2 ==> apart(b + pow2(k1), k1, b + pow2(k2), k2),
{
    lemma_pow2_pos(k1);
    lemma_pow2_unfold(k1 + 1);
    lemma_pow2_unfold(k2 + 1);
    if c < k1 {
        lemma_pow2_strictly_increases(c, k1);
    }
    if k1 + 1 < i {
        lemma_pow2_strictly_increases(k1 + 1, i);
    }
    if k1 + 1 < k2 {
        lemma_pow2_strictly_increases(k1 + 1, k2);
    }
    if k2 + 1 < k1 {
        lemma_pow2_strictly_increases(k2 + 1, k1);
    }
}

/// Taking a block keeps the free blocks apart: after `allocate` takes the
/// last block of the first non-empty list at or above class `c` and splits
/// it down to `c`, no two free blocks share a byte, and none shares a byte
/// with the block handed out.
pub proof fn law_allocation_apart(lists: Seq<Seq<usize>>, c: int)
    requires
        lists_ok(lists),
        lists_disjoint(lists),
        0 <= c,
        first_nonempty(lists, c) < lists.len(),
    ensures
        ({
            let i = first_nonempty(lists, c);
            let b = lists[i].last();
            let after = split_lists(lists, c, i, b);
            &&& lists_disjoint(after)
            &&& apart_from_free(after, b as int, c as nat)
        }),
{
    lemma_first_nonempty(lists, c);
    let i = first_nonempty(lists, c);
    let n = lists[i].len();
    let b = lists[i].last();
    let after = split_lists(lists, c, i, b);
    assert(block_ok(lists[i][n - 1], i as nat));
    // Every block of `after` is an old block other than `b`, or an upper
    // half of `b`.
    assert forall|k: int, m: int|
        0 <= k < after.len() && 0 <= m < after[k].len() implies {
        ||| (m < lists[k].len() && (k != i || m != n - 1) && after[k][m] == lists[k][m])
        ||| (c <= k < i && m == lists[k].len() && after[k][m] as int == b + pow2(k as nat))
    } by {
        if k == i {
            assert(after[k][m] == lists[k][m]);
        } else if c <= k < i {
            lemma_split_halves(b as int, c as nat, i as nat, k as nat, k as nat);
            if m == lists[k].len() {
                assert(after[k][m] as int == b + pow2(k as nat));
            }
        }
    }
    assert forall|k1: int, m1: int, k2: int, m2: int|
        #![trigger after[k1][m1], after[k2][m2]]
        0 <= k1 < after.len() && 0 <= m1 < after[k1].len() && 0 <= k2 < after.len() && 0 <= m2
            < after[k2].len() && (k1 != k2 || m1 != m2) implies apart(
        after[k1][m1] as int,
        k1 as nat,
        after[k2][m2] as int,
        k2 as nat,
    ) by {
        let old1 = m1 < lists[k1].len() && (k1 != i || m1 != n - 1);
        let old2 = m2 < lists[k2].len() && (k2 != i || m2 != n - 1);
        if old1 && old2 {
            assert(lists[k1][m1] == after[k1][m1] && lists[k2][m2] == after[k2][m2]);
        } else if old1 {
            lemma_split_halves(b as int, c as nat, i as nat, k2 as nat, k2 as nat);
            assert(apart(lists[k1][m1] as int, k1 as nat, lists[i][n - 1] as int, i as nat));
            lemma_apart_inside(
                lists[k1][m1] as int,
                k1 as nat,
                b as int,
                i as nat,
                after[k2][m2] as int,
                k2 as nat,
            );
        } else if old2 {
            lemma_split_halves(b as int, c as nat, i as nat, k1 as nat, k1 as nat);
            assert(apart(lists[k2][m2] as int, k2 as nat, lists[i][n - 1] as int, i as nat));
            lemma_apart_inside(
                lists[k2][m2] as int,
                k2 as nat,
                b as int,
                i as nat,
                after[k1][m1] as int,
                k1 as nat,
            );
        } else {
            lemma_split_halves(b as int, c as nat, i as nat, k1 as nat, k2 as nat);
        }
    }
    assert forall|k1: int, m1: int|
        #![trigger after[k1][m1]]
        0 <= k1 < after.len() && 0 <= m1 < after[k1].len() implies apart(
        after[k1][m1] as int,
        k1 as nat,
        b as int,
        c as nat,
    ) by {
        lemma_pow2_pos(c as nat);
        if c < i {
            lemma_pow2_strictly_increases(c as nat, i as nat);
        }
        if m1 < lists[k1].len() && (k1 != i || m1 != n - 1) {
            assert(apart(lists[k1][m1] as int, k1 as nat, lists[i][n - 1] as int, i as nat));
            lemma_apart_inside(
                lists[k1][m1] as int,
                k1 as nat,
                b as int,
                i as nat,
                b as int,
                c as nat,
            );
        } else {
            lemma_split_halves(b as int, c as nat, i as nat, k1 as nat, k1 as nat);
        }
    }
}

/// Removing one free block keeps the rest well formed and apart.
proof fn lemma_remove_keeps(lists: Seq<Seq<usize>>, k: int, j: int)
    requires
        lists_ok(lists),
        lists_disjoint(lists),
        0 <= k < lists.len(),
        0 <= j < lists[k].len(),
    ensures
        ({
            let after = lists.update(k, lists[k].remove(j));
            &&& lists_ok(after)
            &&& lists_disjoint(after)
            &&& forall|k1: int, m1: int|
                #![trigger after[k1][m1]]
                0 <= k1 < after.len() && 0 <= m1 < after[k1].len() ==> {
                    let m0 = if k1 == k && m1 >= j { m1 + 1 } else { m1 };
                    &&& 0 <= m0 < lists[k1].len()
                    &&& (k1 != k || m0 != j)
                    &&& after[k1][m1] == lists[k1][m0]
                }
        }),
{
    let after = lists.update(k, lists[k].remove(j));
    assert forall|k1: int, m1: int|
        #![trigger after[k1][m1]]
        0 <= k1 < after.len() && 0 <= m1 < after[k1].len() implies {
        let m0 = if k1 == k && m1 >= j { m1 + 1 } else { m1 };
        &&& 0 <= m0 < lists[k1].len()
        &&& (k1 != k || m0 != j)
        &&& after[k1][m1] == lists[k1][m0]
    } by {
        if k1 == k {
            assert(after[k1] == lists[k].remove(j));
        }
    }
    assert forall|k1: int, m1: int|
        #![trigger after[k1][m1]]
        0 <= k1 < after.len() && 0 <= m1 < after[k1].len() implies block_ok(
        after[k1][m1],
        k1 as nat,
    ) by {
        let m0 = if k1 == k && m1 >= j { m1 + 1 } else { m1 };
        assert(after[k1][m1] == lists[k1][m0]);
    }
    assert forall|k1: int, m1: int, k2: int, m2: int|
        #![trigger after[k1][m1], after[k2][m2]]
        0 <= k1 < after.len() && 0 <= m1 < after[k1].len() && 0 <= k2 < after.len() && 0 <= m2
            < after[k2].len() && (k1 != k2 || m1 != m2) implies apart(
        after[k1][m1] as int,
        k1 as nat,
        after[k2][m2] as int,
        k2 as nat,
    ) by {
        let a = if k1 == k && m1 >= j { m1 + 1 } else { m1 };
        let d = if k2 == k && m2 >= j { m2 + 1 } else { m2 };
        assert(after[k1][m1] == lists[k1][a]);
        assert(after[k2][m2] == lists[k2][d]);
    }
}

/// Returning a block keeps the free blocks apart: when the block at `p` of
/// `2^k` bytes shares no byte with any free block, no two blocks share a
/// byte after it is merged with its free buddies and put on its list.
pub proof fn law_deallocation_apart(lists: Seq<Seq<usize>>, p: usize, k: nat)
    requires
        lists_ok(lists),
        lists_disjoint(lists),
        k < lists.len(),
        block_ok(p, k),
        apart_from_free(lists, p as int, k),
    ensures
        lists_disjoint(merge_spec(lists, p, k)),
    decreases lists.len() - k,
{
    let b = buddy_of(p, k) as usize;
    lemma_pow2_pos(k);
    if k + 1 < lists.len() && top_index_of(lists[k as int], b) >= 0 {
        let j = top_index_of(lists[k as int], b);
        lemma_top_index_of(lists[k as int], b);
        assert(block_ok(lists[k as int][j], k));
        let after = lists.update(k as int, lists[k as int].remove(j));
        lemma_remove_keeps(lists, k as int, j);
        let q = if p < b { p } else { b };
        lemma_buddy_align(p as nat, k);
        lemma_pow2_unfold(k + 1);
        // The buddy is the neighbouring block of the same size: it cannot
        // lie past the end of the address space, where the cast gives 0.
        assert(b as int == buddy_of(p, k)) by {
            lemma_half_range();
            lemma_pow2_unfold(usize::BITS as nat);
            if k + 1 > usize::BITS as nat {
                lemma_pow2_divides(usize::BITS as nat, k);
            }
            lemma_pow2_divides(k + 1, usize::BITS as nat);
            if (p as nat / pow2(k)) % 2 == 0 {
                lemma_aligned_room(p as nat, pow2(k + 1), usize::MAX as nat + 1);
            }
        }
        assert(block_ok(q, k + 1));
        assert forall|k1: int, m1: int|
            #![trigger after[k1][m1]]
            0 <= k1 < after.len() && 0 <= m1 < after[k1].len() implies apart(
            after[k1][m1] as int,
            k1 as nat,
            q as int,
            k + 1,
        ) by {
            let m0 = if k1 == k && m1 >= j { m1 + 1 } else { m1 };
            assert(after[k1][m1] == lists[k1][m0]);
            assert(apart(lists[k1][m0] as int, k1 as nat, p as int, k));
            assert(apart(lists[k1][m0] as int, k1 as nat, lists[k as int][j] as int, k));
            lemma_pow2_pos(k1 as nat);
        }
        law_deallocation_apart(after, q, k + 1);
    } else if k < lists.len() {
        let after = lists.update(k as int, lists[k as int].push(p));
        assert forall|k1: int, m1: int, k2: int, m2: int|
            #![trigger after[k1][m1], after[k2][m2]]
            0 <= k1 < after.len() && 0 <= m1 < after[k1].len() && 0 <= k2 < after.len() && 0
                <= m2 < after[k2].len() && (k1 != k2 || m1 != m2) implies apart(
            after[k1][m1] as int,
            k1 as nat,
            after[k2][m2] as int,
            k2 as nat,
        ) by {
            let new1 = k1 == k && m1 == lists[k as int].len();
            let new2 = k2 == k && m2 == lists[k as int].len();
            if !new1 {
                assert(after[k1][m1] == lists[k1][m1]);
            }
            if !new2 {
                assert(after[k2][m2] == lists[k2][m2]);
            }
        }
    }
}

/// Every free block lies outside `[cur, end)`.
pub open spec fn region_free_of_blocks(lists: Seq<Seq<usize>>, cur: nat, end: nat) -> bool {
    forall|k1: int, m1: int|
        #![trigger lists[k1][m1]]
        0 <= k1 < lists.len() && 0 <= m1 < lists[k1].len() ==> lists[k1][m1] + pow2(k1 as nat)
            <= cur || end <= lists[k1][m1]
}

/// Adding a region keeps the free blocks apart: when no free block meets
/// `[cur, end)`, no two blocks share a byte after the region is carved into
/// blocks and put on the lists.
pub proof fn law_carve_apart(lists: Seq<Seq<usize>>, cur: nat, end: nat, order: nat)
    requires
        lists_disjoint(lists),
        region_free_of_blocks(lists, cur, end),
        end <= usize::MAX + 1,
    ensures
        lists_disjoint(carve(lists, cur, end, order)),
    decreases end - cur,
{
    if cur == 0 || cur + WORD_SIZE > end || order == 0 || lists.len() != order {
    } else {
        let o = piece_order(cur, end, order);
        lemma_pow2_pos(o);
        lemma_log2_floor((end - cur) as nat);
        lemma_pow2_divides(o, log2_floor((end - cur) as nat));
        let after = lists.update(o as int, lists[o as int].push(cur as usize));
        assert forall|k1: int, m1: int, k2: int, m2: int|
            #![trigger after[k1][m1], after[k2][m2]]
            0 <= k1 < after.len() && 0 <= m1 < after[k1].len() && 0 <= k2 < after.len() && 0
                <= m2 < after[k2].len() && (k1 != k2 || m1 != m2) implies apart(
            after[k1][m1] as int,
            k1 as nat,
            after[k2][m2] as int,
            k2 as nat,
        ) by {
            let new1 = k1 == o && m1 == lists[o as int].len();
            let new2 = k2 == o && m2 == lists[o as int].len();
            if !new1 {
                assert(after[k1][m1] == lists[k1][m1]);
            }
            if !new2 {
                assert(after[k2][m2] == lists[k2][m2]);
            }
        }
        assert forall|k1: int, m1: int|
            #![trigger after[k1][m1]]
            0 <= k1 < after.len() && 0 <= m1 < after[k1].len() implies after[k1][m1] + pow2(
            k1 as nat,
        ) <= cur + pow2(o) || end <= after[k1][m1] by {
            if !(k1 == o && m1 == lists[o as int].len()) {
                assert(after[k1][m1] == lists[k1][m1]);
            }
        }
        law_carve_apart(after, cur + pow2(o), end, order);
    }
}

/// Two allocations in a row never overlap: the block of class `c1` that
/// the first takes and the block of class `c2` that the second takes from
/// the lists the first left share no byte.
pub proof fn law_allocations_apart(lists: Seq<Seq<usize>>, c1: int, c2: int)
    requires
        lists_ok(lists),
        lists_disjoint(lists),
        0 <= c1,
        0 <= c2,
        first_nonempty(lists, c1) < lists.len(),
        first_nonempty(
            split_lists(lists, c1, first_nonempty(lists, c1), lists[first_nonempty(lists, c1)].last()),
            c2,
        ) < lists.len(),
    ensures
        ({
            let i1 = first_nonempty(lists, c1);
            let b1 = lists[i1].last();
            let after = split_lists(lists, c1, i1, b1);
            let i2 = first_nonempty(after, c2);
            apart(b1 as int, c1 as nat, after[i2].last() as int, c2 as nat)
        }),
{
    let i1 = first_nonempty(lists, c1);
    let b1 = lists[i1].last();
    let after = split_lists(lists, c1, i1, b1);
    law_allocation_apart(lists, c1);
    lemma_first_nonempty(after, c2);
    let i2 = first_nonempty(after, c2);
    let b2 = after[i2][after[i2].len() - 1];
    assert(apart(b2 as int, i2 as nat, b1 as int, c1 as nat));
    lemma_pow2_pos(c2 as nat);
    if c2 < i2 {
        lemma_pow2_strictly_increases(c2 as nat, i2 as nat);
    }
    lemma_apart_inside(b1 as int, c1 as nat, b2 as int, i2 as nat, b2 as int, c2 as nat);
}

/// Every free block left by a split lies inside a block that was free
/// before it.
pub proof fn lemma_split_within(lists: Seq<Seq<usize>>, c: int, i: int)
    requires
        lists_ok(lists),
        0 <= c <= i < lists.len(),
        lists[i].len() > 0,
    ensures
        ({
            let after = split_lists(lists, c, i, lists[i].last());
            forall|k: int, m: int|
                #![trigger after[k][m]]
                0 <= k < after.len() && 0 <= m < after[k].len() ==> exists|k0: int, m0: int|
                    0 <= k0 < lists.len() && 0 <= m0 < lists[k0].len() && lists[k0][m0]
                        <= after[k][m] && after[k][m] + pow2(k as nat) <= lists[k0][m0] + pow2(
                        k0 as nat,
                    )
        }),
{
    let n = lists[i].len();
    let b = lists[i].last();
    let after = split_lists(lists, c, i, b);
    assert(block_ok(lists[i][n - 1], i as nat));
    assert forall|k: int, m: int|
        #![trigger after[k][m]]
        0 <= k < after.len() && 0 <= m < after[k].len() implies exists|k0: int, m0: int|
        0 <= k0 < lists.len() && 0 <= m0 < lists[k0].len() && lists[k0][m0] <= after[k][m]
            && after[k][m] + pow2(k as nat) <= lists[k0][m0] + pow2(k0 as nat) by {
        if m < lists[k].len() && !(k == i && m == n - 1) {
            assert(after[k][m] == lists[k][m]);
        } else {
            lemma_split_halves(b as int, c as nat, i as nat, k as nat, k as nat);
            assert(lists[i][n - 1] <= after[k][m] && after[k][m] + pow2(k as nat) <= lists[i][n
                - 1] + pow2(i as nat));
        }
    }
}

/// A block aligned to `2^(k+1)` is the lower of two buddies at level `k`.
proof fn lemma_lower_buddy(p: nat, k: nat)
    requires
        p % pow2(k + 1) == 0,
    ensures
        (p / pow2(k)) % 2 == 0,
{
    lemma_pow2_pos(k);
    lemma_pow2_unfold(k + 1);
    lemma_aligned_weaken(p, k, k + 1);
    lemma_buddy_align(p, k);
    if (p / pow2(k)) % 2 == 1 {
        let s = pow2(k) as int;
        let q = pow2(k + 1) as int;
        vstd::arithmetic::div_mod::lemma_fundamental_div_mod(p as int, q);
        vstd::arithmetic::div_mod::lemma_fundamental_div_mod(p - s, q);
        let x = p as int / q;
        let y = (p - s) / q;
        assert(p == q * x);
        assert(p - s == q * y);
        assert(false) by (nonlinear_arith)
            requires
                q == 2 * s,
                s > 0,
                p == q * x,
                p - s == q * y,
        ;
    }
}

/// Returning a block right after taking it restores the free lists: the
/// block `b` taken from list `i` and split down to class `c` merges back
/// with every upper half that the split left free, as long as its buddy at
/// level `i` is not free as well.
pub proof fn law_alloc_dealloc_round_trip(lists: Seq<Seq<usize>>, c: int, i: int)
    requires
        lists_ok(lists),
        0 <= c <= i < lists.len(),
        lists[i].len() > 0,
        i + 1 < lists.len() ==> top_index_of(
            lists[i].drop_last(),
            buddy_of(lists[i].last(), i as nat) as usize,
        ) < 0,
    ensures
        merge_spec(split_lists(lists, c, i, lists[i].last()), lists[i].last(), c as nat) == lists,
    decreases i - c,
{
    let b = lists[i].last();
    let l1 = split_lists(lists, c, i, b);
    assert(block_ok(lists[i][lists[i].len() - 1], i as nat));
    if c == i {
        assert(l1.update(i, l1[i].push(b)) =~= lists) by {
            assert(lists[i].drop_last().push(b) =~= lists[i]);
        }
    } else {
        lemma_pow2_pos(c as nat);
        lemma_aligned_weaken(b as nat, (c + 1) as nat, i as nat);
        lemma_lower_buddy(b as nat, c as nat);
        lemma_pow2_strictly_increases(c as nat, i as nat);
        let v = (b + pow2(c as nat)) as usize;
        assert(buddy_of(b, c as nat) == b + pow2(c as nat));
        assert(l1[c] == lists[c].push(v));
        assert(top_index_of(l1[c], v) == lists[c].len());
        assert(l1[c].remove(lists[c].len() as int) =~= lists[c]);
        let l2 = l1.update(c, l1[c].remove(top_index_of(l1[c], v)));
        assert(l2 =~= split_lists(lists, c + 1, i, b));
        law_alloc_dealloc_round_trip(lists, c + 1, i);
    }
}

} // verus!
