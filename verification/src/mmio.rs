use vstd::prelude::*;

verus! {

/// A device model that answers guest loads and stores to its register window.
/// Each device says, through the two relations, which answers to a load it
/// may give and which states a store may leave it in.
pub trait MmioHandler {
    /// The device may answer a load at `offset` with `value`.
    spec fn may_read(&self, offset: usize, value: usize) -> bool;

    /// The device is in a state that taking a store of `value` at `offset`
    /// may leave it in.
    spec fn took_write(&self, offset: usize, value: usize) -> bool;

    fn read(&self, offset: usize) -> (r: usize)
        ensures
            self.may_read(offset, r),
    ;

    fn write(&mut self, offset: usize, value: usize)
        ensures
            final(self).took_write(offset, value),
    ;
}

/// A guest-physical window `[address, address + size]` served by `handler`.
pub struct MmioEntry {
    pub address: usize,
    pub size: usize,
    pub handler: Box<dyn MmioHandler>,
}

impl MmioEntry {
    pub fn new(address: usize, size: usize, handler: Box<dyn MmioHandler>) -> (r: Self)
        ensures
            r.address == address,
            r.size == size,
    {
        MmioEntry { address, size, handler }
    }
}

} // verus!
