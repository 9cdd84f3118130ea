use vstd::prelude::*;

verus! {

pub const APLIC_ADDR: usize = 0xc000000;

pub const APLIC_DOMAINCFG_OFFSET: usize = 0x0;
pub const APLIC_SOURCECFG_OFFSET: usize = 0x4;
pub const APLIC_SETIE_OFFSET: usize = 0x1e00;
pub const APLIC_IDC_OFFSET: usize = 0x4000;
pub const APLIC_WORD_SIZE: usize = 4;
pub const APLIC_SOURCECFG_D_OFFSET: usize = 10;
pub const APLIC_DOMAINCFG_IE_OFFSET: usize = 8;
pub const APLIC_DOMAINCFG_DM_OFFSET: usize = 2;
pub const APLIC_IDC_IDELIVERY_OFFSET: usize = 0x0;

/// Interrupt source of the serial port.
pub const UART_IRQ: usize = 0xa;

/// The register store of `value` at `offset` of the APLIC window: its
/// address and the value.
pub fn set_aplic_by_offset(offset: usize, value: u32) -> (r: (usize, u32))
    requires
        APLIC_ADDR + offset <= usize::MAX,
    ensures
        r == ((APLIC_ADDR + offset) as usize, value),
{
    (APLIC_ADDR + offset, value)
}

/// The store that delegates interrupt source `source` to the child domain.
pub fn set_plic_delegate(source: usize) -> (r: (usize, u32))
    requires
        APLIC_ADDR + APLIC_SOURCECFG_OFFSET + source * APLIC_WORD_SIZE <= usize::MAX,
    ensures
        r == ((APLIC_ADDR + APLIC_SOURCECFG_OFFSET + source * APLIC_WORD_SIZE) as usize, 0x400u32),
{
    assert(1u32 << 10u32 == 0x400u32) by (bit_vector);
    set_aplic_by_offset(APLIC_SOURCECFG_OFFSET + source * APLIC_WORD_SIZE, 1u32 << 10u32)
}

/// The store that enables interrupt source `source`: bit `source % 32` at
/// byte `source / 32` of the enable area.
pub fn set_aplic_enable(source: usize) -> (r: (usize, u32))
    ensures
        r.0 == APLIC_ADDR + APLIC_SETIE_OFFSET + source / 32,
        r.1 == 1u32 << (source % 32) as u32,
{
    let row = source % 32;
    let column = source / 32;
    set_aplic_by_offset(APLIC_SETIE_OFFSET + column, 1u32 << row as u32)
}

/// The stores that bring the APLIC up: interrupts enabled in the domain,
/// the serial port's source enabled, delivery switched on.
pub fn init_aplic() -> (r: Vec<(usize, u32)>)
    ensures
        r@ == seq![
            ((APLIC_ADDR + APLIC_DOMAINCFG_OFFSET) as usize, 0x100u32),
            ((APLIC_ADDR + APLIC_SETIE_OFFSET) as usize, 0x400u32),
            ((APLIC_ADDR + APLIC_IDC_IDELIVERY_OFFSET + APLIC_IDC_IDELIVERY_OFFSET) as usize, 1u32),
        ],
{
    let mut r: Vec<(usize, u32)> = Vec::new();
    r.push(set_aplic_by_offset(APLIC_DOMAINCFG_OFFSET, 1u32 << APLIC_DOMAINCFG_IE_OFFSET as u32));
    r.push(set_aplic_enable(UART_IRQ));
    r.push(set_aplic_by_offset(APLIC_IDC_IDELIVERY_OFFSET + APLIC_IDC_IDELIVERY_OFFSET, 0x1));
    assert(1u32 << 8u32 == 0x100u32) by (bit_vector);
    assert(1u32 << 10u32 == 0x400u32) by (bit_vector);
    assert(r@ =~= seq![
        ((APLIC_ADDR + APLIC_DOMAINCFG_OFFSET) as usize, 0x100u32),
        ((APLIC_ADDR + APLIC_SETIE_OFFSET) as usize, 0x400u32),
        ((APLIC_ADDR + APLIC_IDC_IDELIVERY_OFFSET + APLIC_IDC_IDELIVERY_OFFSET) as usize, 1u32),
    ]);
    r
}

} // verus!
