use vstd::prelude::*;

verus! {

pub const PLIC_ADDR: usize = 0xc000000;

pub const PLIC_PRIORITY_OFFSET: usize = 0x0;
pub const PLIC_ENABLE_BITS_OFFSET: usize = 0x2000;
pub const PLIC_CLAIM_OFFSET: usize = 0x200004;
pub const PLIC_THRESHOLD_OFFSET: usize = 0x200000;
pub const PLIC_WORD_SIZE_BITS: usize = 32;
pub const PLIC_WORD_SIZE: usize = 4;
pub const PLIC_SOURCE_NUM: usize = 1024;
/// Bytes of enable bits per hart: one bit per source.
pub const PLIC_ENABLE_BITS_SIZE: usize = 128;
pub const PLIC_CLAIM_SIZE: usize = 0x1000;

/// Interrupt source of the serial port.
pub const UART_IRQ: usize = 0xa;
pub const PLIC_PRIORITY_MAX: usize = 7;

/// The store that enables source `source` for `hart`: bit `source % 32` at
/// byte `source / 32` of the hart's enable bits.
pub fn set_plic_enable(hart: usize, source: usize) -> (r: (usize, u32))
    requires
        PLIC_ADDR + PLIC_ENABLE_BITS_OFFSET + hart * PLIC_ENABLE_BITS_SIZE + source / 32
            <= usize::MAX,
    ensures
        r.0 == PLIC_ADDR + PLIC_ENABLE_BITS_OFFSET + hart * PLIC_ENABLE_BITS_SIZE + source / 32,
        r.1 == 1u32 << (source % 32) as u32,
{
    let row = source % 32;
    let column = source / 32;
    (PLIC_ADDR + PLIC_ENABLE_BITS_OFFSET + hart * PLIC_ENABLE_BITS_SIZE + column, 1u32 << row as u32)
}

/// The store that sets the priority of `source`.
pub fn set_plic_priority(source: usize, priority: usize) -> (r: (usize, u32))
    requires
        PLIC_ADDR + PLIC_PRIORITY_OFFSET + source * PLIC_WORD_SIZE <= usize::MAX,
    ensures
        r == ((PLIC_ADDR + PLIC_PRIORITY_OFFSET + source * PLIC_WORD_SIZE) as usize, priority as u32),
{
    (PLIC_ADDR + PLIC_PRIORITY_OFFSET + source * PLIC_WORD_SIZE, priority as u32)
}

/// The store that sets the priority threshold of `hart`.
pub fn set_plic_thresholds(hart: usize, thresholds: usize) -> (r: (usize, u32))
    requires
        PLIC_ADDR + PLIC_THRESHOLD_OFFSET + hart * PLIC_CLAIM_SIZE <= usize::MAX,
    ensures
        r == ((PLIC_ADDR + PLIC_THRESHOLD_OFFSET + hart * PLIC_CLAIM_SIZE) as usize, thresholds as u32),
{
    (PLIC_ADDR + PLIC_THRESHOLD_OFFSET + hart * PLIC_CLAIM_SIZE, thresholds as u32)
}

/// Address of the claim register of `hart`.
pub fn plic_claim_address(hart: usize) -> (r: usize)
    requires
        PLIC_ADDR + PLIC_CLAIM_OFFSET + PLIC_CLAIM_SIZE * hart <= usize::MAX,
    ensures
        r == PLIC_ADDR + PLIC_CLAIM_OFFSET + PLIC_CLAIM_SIZE * hart,
{
    PLIC_ADDR + PLIC_CLAIM_OFFSET + PLIC_CLAIM_SIZE * hart
}

/// The store that completes interrupt `irq` on `hart`.
pub fn set_plic_claim(hart: usize, irq: usize) -> (r: (usize, u32))
    requires
        PLIC_ADDR + PLIC_CLAIM_OFFSET + PLIC_CLAIM_SIZE * hart <= usize::MAX,
    ensures
        r == ((PLIC_ADDR + PLIC_CLAIM_OFFSET + PLIC_CLAIM_SIZE * hart) as usize, irq as u32),
{
    (plic_claim_address(hart), irq as u32)
}

/// The stores that route the serial port's interrupts to `hart`: source
/// enabled, top priority, threshold 0.
pub fn init_plic(hart: usize) -> (r: Vec<(usize, u32)>)
    requires
        PLIC_ADDR + PLIC_THRESHOLD_OFFSET + hart * PLIC_CLAIM_SIZE <= usize::MAX,
    ensures
        r@ == seq![
            ((PLIC_ADDR + PLIC_ENABLE_BITS_OFFSET + hart * PLIC_ENABLE_BITS_SIZE) as usize, 0x400u32),
            ((PLIC_ADDR + UART_IRQ * PLIC_WORD_SIZE) as usize, PLIC_PRIORITY_MAX as u32),
            ((PLIC_ADDR + PLIC_THRESHOLD_OFFSET + hart * PLIC_CLAIM_SIZE) as usize, 0u32),
        ],
{
    let mut r: Vec<(usize, u32)> = Vec::new();
    r.push(set_plic_enable(hart, UART_IRQ));
    r.push(set_plic_priority(UART_IRQ, PLIC_PRIORITY_MAX));
    r.push(set_plic_thresholds(hart, 0));
    assert(1u32 << 10u32 == 0x400u32) by (bit_vector);
    assert(r@ =~= seq![
        ((PLIC_ADDR + PLIC_ENABLE_BITS_OFFSET + hart * PLIC_ENABLE_BITS_SIZE) as usize, 0x400u32),
        ((PLIC_ADDR + UART_IRQ * PLIC_WORD_SIZE) as usize, PLIC_PRIORITY_MAX as u32),
        ((PLIC_ADDR + PLIC_THRESHOLD_OFFSET + hart * PLIC_CLAIM_SIZE) as usize, 0u32),
    ]);
    r
}

} // verus!
