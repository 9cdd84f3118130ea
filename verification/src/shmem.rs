use vstd::prelude::*;

verus! {

pub const PAGE_SIZE: usize = 4096;

/// Bytes taken by the two indices in front of the buffer.
pub const HEADER_SIZE: usize = 8;

/// Bytes of the data area: one page minus the header.
pub const BUF_LEN: usize = 4088;

/// Single-producer single-consumer byte ring that fills exactly one page.
///
/// The consumer advances `head`, the producer advances `tail`; one slot is
/// always kept free so that a full ring and an empty ring differ.
pub struct ShmRing {
    head: u32,
    tail: u32,
    buf: [u8; 4088],
}

/// Number of stored bytes for the given indices.
pub open spec fn used_len(head: int, tail: int) -> int {
    if tail >= head {
        tail - head
    } else {
        BUF_LEN - (head - tail)
    }
}

impl ShmRing {
    #[verifier::type_invariant]
    spec fn inv(self) -> bool {
        &&& self.head < BUF_LEN
        &&& self.tail < BUF_LEN
    }

    /// The bytes held by the ring, oldest first.
    pub closed spec fn view(self) -> Seq<u8> {
        Seq::new(
            used_len(self.head as int, self.tail as int) as nat,
            |k: int| self.buf@[(self.head + k) % (BUF_LEN as int)],
        )
    }

    pub fn new() -> (r: Self)
        ensures
            r@ == Seq::<u8>::empty(),
    {
        Self { head: 0, tail: 0, buf: [0u8; 4088] }
    }

    pub fn capacity(&self) -> (r: u32)
        ensures
            r == BUF_LEN,
    {
        4088
    }

    /// How many bytes are currently stored.
    pub fn readable_len(&self) -> (r: u32)
        ensures
            r == self@.len(),
            r <= BUF_LEN - 1,
    {
        proof {
            use_type_invariant(self);
        }
        let cap = self.capacity();
        if self.tail >= self.head {
            self.tail - self.head
        } else {
            cap - (self.head - self.tail)
        }
    }

    /// How many bytes can be written right now (one slot stays free).
    pub fn writable_len(&self) -> (r: u32)
        ensures
            r == BUF_LEN - 1 - self@.len(),
    {
        proof {
            use_type_invariant(self);
        }
        let cap = self.capacity();
        let used = self.readable_len();
        cap - used - 1
    }

    pub fn is_empty(&self) -> (r: bool)
        ensures
            r == (self@.len() == 0),
    {
        self.readable_len() == 0
    }

    pub fn is_full(&self) -> (r: bool)
        ensures
            r == (self@.len() == BUF_LEN - 1),
    {
        proof {
            use_type_invariant(self);
        }
        self.writable_len() == 0
    }

    /// Producer side: appends as many leading bytes of `data` as fit and
    /// returns how many were written.
    pub fn push(&mut self, data: &[u8]) -> (n: usize)
        ensures
            n as int == vstd::math::min(data@.len() as int, BUF_LEN - 1 - old(self)@.len()),
            final(self)@ == old(self)@ + data@.subrange(0, n as int),
    {
        proof {
            use_type_invariant(&*self);
        }
        let cap: usize = BUF_LEN;
        if data.len() == 0 {
            assert(old(self)@ + data@.subrange(0, 0) =~= old(self)@);
            return 0;
        }
        let head = self.head as usize;
        let tail = self.tail as usize;
        let used = if tail >= head {
            tail - head
        } else {
            cap - (head - tail)
        };
        let free = cap - used - 1;
        if free == 0 {
            assert(old(self)@ + data@.subrange(0, 0) =~= old(self)@);
            return 0;
        }
        let n = if data.len() < free {
            data.len()
        } else {
            free
        };
        let ghost old_buf = self.buf@;
        let mut i: usize = 0;
        while i < n
            invariant
                0 <= i <= n,
                n <= free,
                free == cap - used - 1,
                cap == BUF_LEN,
                n <= data@.len(),
                head == self.head,
                tail == self.tail,
                head < BUF_LEN,
                tail < BUF_LEN,
                used == used_len(head as int, tail as int),
                self.buf@.len() == BUF_LEN,
                forall|k: int|
                    #![trigger self.buf@[k]]
                    0 <= k < BUF_LEN ==> {
                        let d = if k >= tail { k - tail } else { k + BUF_LEN - tail };
                        if d < i {
                            self.buf@[k] == data@[d]
                        } else {
                            self.buf@[k] == old_buf[k]
                        }
                    },
            decreases n - i,
        {
            let pos = if tail + i >= cap {
                tail + i - cap
            } else {
                tail + i
            };
            self.buf[pos] = data[i];
            i = i + 1;
        }
        let new_tail = if tail + n >= cap {
            tail + n - cap
        } else {
            tail + n
        };
        self.tail = new_tail as u32;
        proof {
            let s = final(self)@;
            let e = old(self)@ + data@.subrange(0, n as int);
            assert(s.len() == e.len());
            assert forall|k: int| 0 <= k < s.len() implies s[k] == e[k] by {
                let p = (head + k) % (BUF_LEN as int);
                assert(self.buf@[p] == s[k]);
            }
            assert(s =~= e);
        }
        n
    }

    /// Consumer side: moves the oldest bytes into the front of `out`, as many
    /// as are stored and fit, and returns how many were moved.
    pub fn pop(&mut self, out: &mut [u8]) -> (n: usize)
        ensures
            n as int == vstd::math::min(old(out)@.len() as int, old(self)@.len() as int),
            final(out)@.len() == old(out)@.len(),
            final(out)@.subrange(0, n as int) == old(self)@.subrange(0, n as int),
            final(out)@.subrange(n as int, old(out)@.len() as int) == old(out)@.subrange(
                n as int,
                old(out)@.len() as int,
            ),
            final(self)@ == old(self)@.subrange(n as int, old(self)@.len() as int),
    {
        proof {
            use_type_invariant(&*self);
        }
        let cap: usize = BUF_LEN;
        if out.len() == 0 {
            return 0;
        }
        let head = self.head as usize;
        let tail = self.tail as usize;
        let used = if tail >= head {
            tail - head
        } else {
            cap - (head - tail)
        };
        if used == 0 {
            return 0;
        }
        let n = if out.len() < used {
            out.len()
        } else {
            used
        };
        let ghost old_out = out@;
        let ghost contents = self@;
        let mut i: usize = 0;
        while i < n
            invariant
                0 <= i <= n,
                n <= used,
                n <= old_out.len(),
                cap == BUF_LEN,
                head == self.head,
                tail == self.tail,
                head < BUF_LEN,
                tail < BUF_LEN,
                used == used_len(head as int, tail as int),
                contents == self@,
                contents.len() == used,
                out@.len() == old_out.len(),
                forall|k: int| 0 <= k < i ==> out@[k] == contents[k],
                forall|k: int| i <= k < out@.len() ==> out@[k] == old_out[k],
            decreases n - i,
        {
            let pos = if head + i >= cap {
                head + i - cap
            } else {
                head + i
            };
            proof {
                assert(head + i < 2 * BUF_LEN);
                if head + i >= BUF_LEN {
                    assert((head + i) % 4088 == head + i - 4088) by (nonlinear_arith)
                        requires 4088 <= head + i < 8176;
                } else {
                    assert((head + i) % 4088 == head + i) by (nonlinear_arith)
                        requires 0 <= head + i < 4088;
                }
                assert(pos == (head + i) % (BUF_LEN as int));
                assert(contents[i as int] == self.buf@[pos as int]);
            }
            out[i] = self.buf[pos];
            i = i + 1;
        }
        let new_head = if head + n >= cap {
            head + n - cap
        } else {
            head + n
        };
        self.head = new_head as u32;
        proof {
            let s = final(self)@;
            let e = contents.subrange(n as int, contents.len() as int);
            assert(s.len() == e.len());
            assert forall|k: int| 0 <= k < s.len() implies s[k] == e[k] by {
                assert((new_head + k) % (BUF_LEN as int) == (head + (n + k)) % (BUF_LEN as int));
            }
            assert(s =~= e);
            assert(out@.subrange(0, n as int) =~= contents.subrange(0, n as int));
            assert(out@.subrange(n as int, out@.len() as int) =~= old_out.subrange(
                n as int,
                old_out.len() as int,
            ));
        }
        n
    }

    /// Empties the ring.
    pub fn clear(&mut self)
        ensures
            final(self)@ == Seq::<u8>::empty(),
    {
        proof {
            use_type_invariant(&*self);
        }
        self.head = 0;
        self.tail = 0;
        assert(final(self)@ =~= Seq::<u8>::empty());
    }
}


/// Bytes come out of the ring in the order they went in: pushing `d` into a
/// ring that holds `s` accepts as many bytes as fit, and popping `m` bytes
/// afterwards returns the oldest of `s` followed by the accepted ones. In
/// particular, up to `BUF_LEN - 1` bytes pushed into an empty ring all come
/// back.
pub proof fn law_ring_fifo(s: Seq<u8>, d: Seq<u8>, m: nat)
    requires
        s.len() <= BUF_LEN - 1,
    ensures
        ({
            let n = vstd::math::min(d.len() as int, BUF_LEN - 1 - s.len());
            let held = s + d.subrange(0, n);
            let k = vstd::math::min(m as int, held.len() as int);
            &&& held.len() <= BUF_LEN - 1
            &&& held.subrange(0, k) + held.subrange(k, held.len() as int) == held
            &&& s.len() == 0 && d.len() <= BUF_LEN - 1 && m >= d.len() ==> held.subrange(0, k)
                == d
        }),
{
    let n = vstd::math::min(d.len() as int, BUF_LEN - 1 - s.len());
    let held = s + d.subrange(0, n);
    let k = vstd::math::min(m as int, held.len() as int);
    assert(held.subrange(0, k) + held.subrange(k, held.len() as int) =~= held);
    if s.len() == 0 && d.len() <= BUF_LEN - 1 && m >= d.len() {
        assert(held.subrange(0, k) =~= d);
    }
}

} // verus!
