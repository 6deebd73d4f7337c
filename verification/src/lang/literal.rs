use vstd::prelude::*;

verus! {

/// An integer literal as written: a sign and a magnitude.
#[derive(Copy, Clone, Debug, Eq, PartialEq, Structural)]
pub struct IntLiteral {
    pub negative: bool,
    pub val: u64,
}

impl IntLiteral {
    /// The number the literal stands for.
    pub open spec fn value(self) -> int {
        if self.negative {
            -(self.val as int)
        } else {
            self.val as int
        }
    }

    /// The literal as an `i64`, when its value fits.
    pub open spec fn signed_value(self) -> Option<i64> {
        if i64::MIN <= self.value() <= i64::MAX {
            Some(self.value() as i64)
        } else {
            None
        }
    }

    /// The literal as an `i64`, clamped to the range of `i64`.
    pub open spec fn lossy_value(self) -> i64 {
        if self.value() < i64::MIN {
            i64::MIN
        } else if self.value() > i64::MAX {
            i64::MAX
        } else {
            self.value() as i64
        }
    }

    /// The literal as an `i64`, when its value fits.
    pub fn as_signed(&self) -> (r: Option<i64>)
        ensures
            r == self.signed_value(),
    {
        if self.negative {
            let min_magnitude: u64 = 9223372036854775808u64;
            if self.val > min_magnitude {
                None
            } else if self.val == min_magnitude {
                Some(i64::MIN)
            } else {
                let v = self.val as i64;
                Some(-v)
            }
        } else {
            if self.val <= i64::MAX as u64 {
                Some(self.val as i64)
            } else {
                None
            }
        }
    }

    /// The literal as an `i64`, clamped to the range of `i64`.
    pub fn as_signed_lossy(&self) -> (r: i64)
        ensures
            r == self.lossy_value(),
    {
        if self.negative {
            let min_magnitude: u64 = 9223372036854775808u64;
            if self.val >= min_magnitude {
                i64::MIN
            } else {
                let v = self.val as i64;
                -v
            }
        } else {
            if self.val > i64::MAX as u64 {
                i64::MAX
            } else {
                self.val as i64
            }
        }
    }

    /// The literal as a `u64` modulo 2^64: a negative literal wraps around.
    pub fn as_unsigned(&self) -> (r: u64)
        ensures
            r as int == self.value() % 0x1_0000_0000_0000_0000int,
    {
        if self.negative {
            if self.val == 0 {
                0
            } else {
                u64::MAX - self.val + 1
            }
        } else {
            self.val
        }
    }
}

/// Where the literal fits an `i64`, the clamped reading is the exact one;
/// and the clamped reading of any literal lies between the literal and
/// zero or equals it.
pub proof fn law_lossy_agrees(l: IntLiteral)
    ensures
        l.signed_value() matches Some(x) ==> l.lossy_value() == x,
        l.signed_value() is None ==> (l.lossy_value() == i64::MIN || l.lossy_value() == i64::MAX),
{
}

} // verus!
