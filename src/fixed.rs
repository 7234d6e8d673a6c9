use vstd::prelude::*;

verus! {

/// An unsigned 16.16 fixed-point number, kept as its raw 32 bits.
#[derive(Debug, Clone, Copy, PartialEq, Eq, Structural)]
pub struct FixedPointU16(u32);

impl View for FixedPointU16 {
    type V = u32;

    /// The raw 32 bits.
    closed spec fn view(&self) -> u32 {
        self.0
    }
}

impl FixedPointU16 {
    /// The number whose integer part is `val` and whose fraction is zero.
    pub fn new(val: u16) -> (r: FixedPointU16)
        ensures
            r@ == val as u32 * 0x1_0000,
    {
        assert((val as u32) << 16 == val as u32 * 0x1_0000) by (bit_vector);
        FixedPointU16((val as u32) << 16)
    }

    /// The number whose raw bits are `val`.
    pub fn new_raw(val: u32) -> (r: FixedPointU16)
        ensures
            r@ == val,
    {
        FixedPointU16(val)
    }

    /// The integer part.
    pub fn value(&self) -> (r: u16)
        ensures
            r == self@ / 0x1_0000,
    {
        let raw = self.0;
        assert(raw >> 16 == raw / 0x1_0000) by (bit_vector);
        (raw >> 16) as u16
    }

    /// The raw bits.
    pub fn raw_value(&self) -> (r: u32)
        ensures
            r == self@,
    {
        self.0
    }
}

} // verus!
