//! Scalar runtime values.
use vstd::prelude::*;

verus! {

/// A single scalar number, held as its IEEE-754 binary32 encoding.
///
/// The library only moves values around; the arithmetic on them is done by
/// an `Arithmetic` implementation supplied by the caller.
#[derive(Debug, Clone, Copy, PartialEq, Eq, Structural)]
pub struct Value {
    pub bits: u32,
}

impl Value {
    /// Builds a value from the bit pattern of a binary32 number.
    pub fn from_bits(bits: u32) -> (r: Value)
        ensures
            r.bits == bits,
    {
        Value { bits }
    }

    /// The bit pattern of the binary32 number held.
    pub fn to_bits(&self) -> (r: u32)
        ensures
            r == self.bits,
    {
        self.bits
    }
}

/// An append-only pool of values.
#[derive(Debug, Default)]
pub struct ValueVec(pub Vec<Value>);

impl ValueVec {
    pub open spec fn view(&self) -> Seq<Value> {
        self.0@
    }

    /// Appends `value` at the end of the pool.
    pub fn push(&mut self, value: Value)
        ensures
            final(self)@ == old(self)@.push(value),
    {
        self.0.push(value)
    }

    /// The values held, in order of insertion.
    pub fn values(&self) -> (r: &[Value])
        ensures
            r@ == self@,
    {
        self.0.as_slice()
    }
}

} // verus!
