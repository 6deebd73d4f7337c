use vstd::prelude::*;
use crate::common::primitives::text::{decimal_text, write_decimal_text};

verus! {

/// A 64-bit decimal number: `mantissa * 10^exponent`.
#[derive(Copy, Clone)]
pub struct LDecimal64 {
    mantissa: i64,
    exponent: i8,
}

impl LDecimal64 {
    /// The number of decimal digits an `i64` mantissa always holds.
    pub const MAX_DIGITS: i8 = 18;

    pub closed spec fn mantissa_spec(&self) -> i64 {
        self.mantissa
    }

    pub closed spec fn exponent_spec(&self) -> i8 {
        self.exponent
    }

    /// The number `value * 10^exponent`.
    pub fn new(value: i64, exponent: i8) -> (r: Self)
        ensures
            r.mantissa_spec() == value,
            r.exponent_spec() == exponent,
    {
        LDecimal64 { mantissa: value, exponent }
    }

    pub fn mantissa(&self) -> (r: i64)
        ensures
            r == self.mantissa_spec(),
    {
        self.mantissa
    }

    pub fn exponent(&self) -> (r: i8)
        ensures
            r == self.exponent_spec(),
    {
        self.exponent
    }

    /// The number written out (see `decimal_text`).
    pub fn to_string(&self) -> (r: String)
        requires
            self.mantissa_spec() != i64::MIN,
        ensures
            r@ == decimal_text(self.mantissa_spec() as int, self.exponent_spec() as int, Self::MAX_DIGITS as int),
    {
        let m = self.mantissa;
        let negative = m < 0;
        let magnitude: u128 = if negative { (-m) as u128 } else { m as u128 };
        write_decimal_text(negative, magnitude, self.exponent as i32, Self::MAX_DIGITS as i32)
    }
}

} // verus!
