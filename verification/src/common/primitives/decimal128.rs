use vstd::prelude::*;
use crate::common::primitives::text::{decimal_text, write_decimal_text};

verus! {

/// A 128-bit decimal number: `mantissa * 10^exponent`.
#[derive(Copy, Clone)]
pub struct LDecimal128 {
    mantissa: i128,
    exponent: i16,
}

impl LDecimal128 {
    /// The number of decimal digits an `i128` mantissa always holds.
    pub const MAX_DIGITS: i16 = 38;

    pub closed spec fn mantissa_spec(&self) -> i128 {
        self.mantissa
    }

    pub closed spec fn exponent_spec(&self) -> i16 {
        self.exponent
    }

    /// The number `value * 10^exponent`.
    pub fn new(value: i128, exponent: i16) -> (r: Self)
        ensures
            r.mantissa_spec() == value,
            r.exponent_spec() == exponent,
    {
        LDecimal128 { mantissa: value, exponent }
    }

    pub fn mantissa(&self) -> (r: i128)
        ensures
            r == self.mantissa_spec(),
    {
        self.mantissa
    }

    pub fn exponent(&self) -> (r: i16)
        ensures
            r == self.exponent_spec(),
    {
        self.exponent
    }

    /// The number written out (see `decimal_text`).
    pub fn to_string(&self) -> (r: String)
        requires
            self.mantissa_spec() != i128::MIN,
        ensures
            r@ == decimal_text(self.mantissa_spec() as int, self.exponent_spec() as int, Self::MAX_DIGITS as int),
    {
        let m = self.mantissa;
        let negative = m < 0;
        let magnitude: u128 = if negative { (-m) as u128 } else { m as u128 };
        write_decimal_text(negative, magnitude, self.exponent as i32, Self::MAX_DIGITS as i32)
    }
}

} // verus!
