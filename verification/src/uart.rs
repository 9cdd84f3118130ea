use vstd::prelude::*;
use vstd::string::StringSliceAdditionalSpecFns;

verus! {

pub const NS16550_ADDR: usize = 0x10000000;
pub const NS16500_RBR: usize = 0x0;
pub const NS16500_IER: usize = 0x1;
pub const NS16550_LSR: usize = 0x5;
pub const NS16550_IER_RX_INTR: usize = 1;

pub const DEFAULT_FIFO_SIZE: usize = 16;

/// Line status reported when the receive FIFO is empty: transmitter empty
/// and holding register empty.
pub const LSR_IDLE: u32 = 0x60;

/// Line status reported when a received byte is waiting.
pub const LSR_DATA_READY: u32 = 0x1;

/// Receive FIFO of the emulated NS16550 serial port.
pub struct Uart {
    pub fifo: [u8; 16],
    pub head: usize,
    pub tail: usize,
}

impl Uart {
    pub open spec fn wf(self) -> bool {
        self.head < DEFAULT_FIFO_SIZE && self.tail < DEFAULT_FIFO_SIZE
    }

    /// Bytes waiting in the FIFO, oldest first.
    pub open spec fn view(self) -> Seq<u8> {
        let len = if self.tail >= self.head {
            self.tail - self.head
        } else {
            DEFAULT_FIFO_SIZE - (self.head - self.tail)
        };
        Seq::new(len as nat, |k: int| self.fifo@[(self.head + k) % (DEFAULT_FIFO_SIZE as int)])
    }

    pub fn new() -> (r: Self)
        ensures
            r.wf(),
            r@ == Seq::<u8>::empty(),
            r.head == 0 && r.tail == 0,
            r.fifo@ == Seq::new(16, |k: int| 0u8),
    {
        let r = Uart { fifo: [0u8; 16], head: 0, tail: 0 };
        assert(r.fifo@ =~= Seq::new(16, |k: int| 0u8));
        r
    }

    /// Appends `c`; the FIFO must not be full (it holds at most 15 bytes).
    pub fn fifo_in(&mut self, c: u8)
        requires
            old(self).wf(),
            old(self)@.len() < DEFAULT_FIFO_SIZE - 1,
        ensures
            final(self).wf(),
            final(self)@ == old(self)@.push(c),
    {
        let next = (self.tail + 1) % DEFAULT_FIFO_SIZE;
        let ghost before = self@;
        self.fifo[self.tail] = c;
        self.tail = next;
        proof {
            let s = final(self)@;
            let e = before.push(c);
            assert(s.len() == e.len());
            assert forall|k: int| 0 <= k < s.len() implies s[k] == e[k] by {
                if k < before.len() {
                    assert((old(self).head + k) % 16 != old(self).tail as int);
                }
            }
            assert(s =~= e);
        }
    }

    /// Removes and returns the oldest byte; the FIFO must not be empty.
    pub fn fifo_out(&mut self) -> (c: u8)
        requires
            old(self).wf(),
            old(self)@.len() > 0,
        ensures
            final(self).wf(),
            c == old(self)@[0],
            final(self)@ == old(self)@.drop_first(),
    {
        let ghost before = self@;
        let c = self.fifo[self.head];
        self.head = (self.head + 1) % DEFAULT_FIFO_SIZE;
        proof {
            let s = final(self)@;
            let e = before.drop_first();
            assert(s.len() == e.len());
            assert forall|k: int| 0 <= k < s.len() implies s[k] == e[k] by {
                assert((final(self).head + k) % 16 == (old(self).head + (k + 1)) % 16);
            }
            assert(s =~= e);
        }
        c
    }

    pub fn is_fifo_empty(&mut self) -> (r: bool)
        requires
            old(self).wf(),
        ensures
            r == (old(self)@.len() == 0),
            *final(self) == *old(self),
    {
        self.head == self.tail
    }
}

/// Guest read of an emulated NS16550 register. Reading RBR takes the oldest
/// received byte, so it needs one waiting; LSR reports whether data is ready.
pub fn emulate_read_ns16550(uart: &mut Uart, offset: usize) -> (r: Result<u32, ()>)
    requires
        old(uart).wf(),
        offset == NS16500_RBR ==> old(uart)@.len() > 0,
    ensures
        final(uart).wf(),
        offset == NS16500_RBR ==> r == Ok::<u32, ()>(old(uart)@[0] as u32)
            && final(uart)@ == old(uart)@.drop_first(),
        offset == NS16550_LSR ==> r == Ok::<u32, ()>(
            if old(uart)@.len() == 0 { LSR_IDLE } else { LSR_DATA_READY },
        ) && final(uart)@ == old(uart)@,
        offset != NS16500_RBR && offset != NS16550_LSR ==> r == Ok::<u32, ()>(0) && final(uart)@
            == old(uart)@,
{
    let is_empty = uart.is_fifo_empty();
    if offset == NS16500_RBR {
        let c = uart.fifo_out();
        Ok(c as u32)
    } else if offset == NS16550_LSR {
        if is_empty {
            Ok(LSR_IDLE)
        } else {
            Ok(LSR_DATA_READY)
        }
    } else {
        Ok(0)
    }
}

/// Register read of the pass-through serial port as seen before the FIFO
/// exists: LSR always reports an idle line, every other register reads zero.
pub fn read_ns16550(offset: usize) -> (r: Result<u64, ()>)
    ensures
        r == Ok::<u64, ()>(if offset == NS16550_LSR { 0x60u64 } else { 0u64 }),
{
    if offset == 0x5 {
        Ok(0x60)
    } else {
        Ok(0)
    }
}

/// Stores a byte received by the host port into the guest's FIFO.
pub fn uart_fifo_push(uart: &mut Uart, c: u8)
    requires
        old(uart).wf(),
        old(uart)@.len() < DEFAULT_FIFO_SIZE - 1,
    ensures
        final(uart).wf(),
        final(uart)@ == old(uart)@.push(c),
{
    uart.fifo_in(c);
}

/// Whether `value` is a Unicode scalar value, that is, a valid `char`.
pub open spec fn is_scalar_value(value: u32) -> bool {
    value <= 0x10FFFF && !(0xD800 <= value && value <= 0xDFFF)
}

/// The code points a guest write to the serial port prints: a write of a
/// valid character to the transmit register prints it, a line feed being
/// preceded by a carriage return; any other write prints nothing.
pub open spec fn ns16550_output(offset: usize, value: u32) -> Seq<u32> {
    if offset == 0 && is_scalar_value(value) {
        if value == 0x0A {
            seq![0x0Du32, 0x0Au32]
        } else {
            seq![value]
        }
    } else {
        Seq::empty()
    }
}

/// Decides what a guest write to the emulated serial port prints.
pub fn emulate_write_ns16550(offset: usize, value: u32) -> (out: Vec<u32>)
    ensures
        out@ == ns16550_output(offset, value),
        offset == 0 && value != 0x0A && (value < 0xD800 || (0xE000 <= value && value <= 0x10FFFF))
            ==> out@ == seq![value],
        offset == 0 && value == 0x0A ==> out@ == seq![0x0Du32, 0x0Au32],
        offset != 0 || (0xD800 <= value && value <= 0xDFFF) || value > 0x10FFFF ==> out@.len() == 0,
{
    let mut out: Vec<u32> = Vec::new();
    if offset == 0x0 {
        if value <= 0x10FFFF && !(0xD800 <= value && value <= 0xDFFF) {
            if value == 0x0A {
                out.push(0x0D);
            }
            out.push(value);
        }
    }
    proof {
        if offset == 0 && is_scalar_value(value) && value == 0x0A {
            assert(out@ =~= seq![0x0Du32, 0x0Au32]);
        } else if offset == 0 && is_scalar_value(value) {
            assert(out@ =~= seq![value]);
        } else {
            assert(out@ =~= Seq::<u32>::empty());
        }
    }
    out
}

/// Same decision for the host-facing serial write path.
pub fn write_ns16550(offset: usize, value: u32) -> (out: Vec<u32>)
    ensures
        out@ == ns16550_output(offset, value),
        offset == 0 && value != 0x0A && (value < 0xD800 || (0xE000 <= value && value <= 0x10FFFF))
            ==> out@ == seq![value],
        offset == 0 && value == 0x0A ==> out@ == seq![0x0Du32, 0x0Au32],
        offset != 0 || (0xD800 <= value && value <= 0xDFFF) || value > 0x10FFFF ==> out@.len() == 0,
{
    emulate_write_ns16550(offset, value)
}

/// New interrupt-enable register value with receive interrupts switched on.
pub fn ns16500_intr_receive_enable(ier: u8) -> (r: u8)
    ensures
        r == ier | 1u8,
{
    ier | (NS16550_IER_RX_INTR as u8)
}


/// A guest serial port passed through to the host's.
pub struct Ns16550;

impl Ns16550 {
    pub fn new() -> (r: Self) {
        Ns16550
    }

    /// What a guest store of `value` to register `offset` does to the host
    /// port: the byte stored there, and whether a line prefix is printed
    /// after it. A store to the data register of a value that is not a
    /// character is dropped; a line feed there is followed by the prefix.
    pub fn write_action(&self, offset: usize, value: usize) -> (r: Option<(u8, bool)>)
        ensures
            offset == 0 && is_scalar_value(value as u32) ==> r == Some(
                (value as u8, value as u32 == 0x0A),
            ),
            offset == 0 && !is_scalar_value(value as u32) ==> r is None,
            offset != 0 ==> r == Some((value as u8, false)),
    {
        let v = value as u32;
        if offset == 0 {
            if v <= 0x10FFFF && !(0xD800 <= v && v <= 0xDFFF) {
                Some((value as u8, v == 0x0A))
            } else {
                None
            }
        } else {
            Some((value as u8, false))
        }
    }
}

/// The hypervisor's console: a sink for text on the serial port.
pub struct Console();

impl Console {
    pub fn new() -> (r: Self) {
        Console()
    }

    /// The bytes that printing `s` sends to the serial port, in order.
    pub fn output(&self, s: &str) -> (r: Vec<u8>)
        ensures
            r@ == s.spec_bytes(),
    {
        let b = s.as_bytes();
        let mut out: Vec<u8> = Vec::new();
        let mut i: usize = 0;
        while i < b.len()
            invariant
                i <= b@.len(),
                out@ == b@.take(i as int),
            decreases b@.len() - i,
        {
            out.push(b[i]);
            i = i + 1;
            assert(out@ =~= b@.take(i as int));
        }
        assert(out@ =~= b@);
        out
    }
}


/// The receive FIFO hands bytes out in arrival order: after receiving `c`
/// into a FIFO holding `s`, the next byte read is the oldest of `s`, or `c`
/// when `s` was empty; the FIFO then holds the rest followed by `c`.
pub proof fn law_uart_fifo_order(s: Seq<u8>, c: u8)
    ensures
        s.push(c)[0] == (if s.len() == 0 {
            c
        } else {
            s[0]
        }),
        s.len() > 0 ==> s.push(c).drop_first() == s.drop_first().push(c),
{
    if s.len() > 0 {
        assert(s.push(c).drop_first() =~= s.drop_first().push(c));
    }
}

} // verus!
