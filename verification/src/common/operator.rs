use vstd::prelude::*;

verus! {

/// How an operator binds: its left and right binding powers when binary.
/// A higher left power than right power makes it right-associative.
#[derive(Copy, Clone, Hash, Debug, PartialEq, Eq, Structural)]
pub enum BindingPower {
    Binary(u8, u8),
    BinaryOrUnary(u8, u8),
    Unary,
    /// Post-fix operators (member access, call, index), which bind tighter
    /// than any prefix.
    PostFix,
}

impl BindingPower {
    pub fn effective_lbp(&self) -> (r: u8)
        ensures
            r == (match *self {
                BindingPower::Binary(l, _) => l,
                BindingPower::BinaryOrUnary(l, _) => l,
                BindingPower::Unary => 0u8,
                BindingPower::PostFix => 100u8,
            }),
    {
        match self {
            BindingPower::Binary(l, _r) => *l,
            BindingPower::BinaryOrUnary(l, _r) => *l,
            BindingPower::Unary => 0,
            BindingPower::PostFix => 100,
        }
    }

    pub fn effective_rbp(&self) -> (r: u8)
        ensures
            r == (match *self {
                BindingPower::Binary(_, rb) => rb,
                BindingPower::BinaryOrUnary(_, rb) => rb,
                BindingPower::Unary => 255u8,
                BindingPower::PostFix => 101u8,
            }),
    {
        match self {
            BindingPower::Binary(_l, r) => *r,
            BindingPower::BinaryOrUnary(_l, r) => *r,
            BindingPower::Unary => 255,
            BindingPower::PostFix => 101,
        }
    }

    pub fn is_binary(&self) -> (r: bool)
        ensures
            r == (*self is Binary || *self is BinaryOrUnary),
    {
        match self {
            BindingPower::Binary(_, _) => true,
            BindingPower::BinaryOrUnary(_, _) => true,
            BindingPower::Unary => false,
            BindingPower::PostFix => false,
        }
    }

    pub fn effective_unary_rbp(&self) -> (r: u8)
        ensures
            r == (if *self is Unary || *self is BinaryOrUnary { 255u8 } else { 0u8 }),
    {
        match self {
            BindingPower::Unary => 255,
            BindingPower::BinaryOrUnary(_, _) => 255,
            BindingPower::Binary(_, _) => 0,
            BindingPower::PostFix => 0,
        }
    }

    pub fn is_unary(&self) -> (r: bool)
        ensures
            r == (*self is Unary || *self is BinaryOrUnary),
    {
        match self {
            BindingPower::Binary(_, _) => false,
            BindingPower::BinaryOrUnary(_, _) => true,
            BindingPower::Unary => true,
            BindingPower::PostFix => false,
        }
    }

    /// The operator read either way, with its effective binding powers.
    pub fn to_binary_or_unary(self) -> (r: BindingPower)
        ensures
            r == BindingPower::BinaryOrUnary(
                match self {
                    BindingPower::Binary(l, _) => l,
                    BindingPower::BinaryOrUnary(l, _) => l,
                    BindingPower::Unary => 0u8,
                    BindingPower::PostFix => 100u8,
                },
                match self {
                    BindingPower::Binary(_, rb) => rb,
                    BindingPower::BinaryOrUnary(_, rb) => rb,
                    BindingPower::Unary => 255u8,
                    BindingPower::PostFix => 101u8,
                },
            ),
    {
        BindingPower::BinaryOrUnary(self.effective_lbp(), self.effective_rbp())
    }
}

/// An operator: how it binds and its token.
#[derive(Copy, Clone, Debug)]
pub struct Operator {
    pub bp: BindingPower,
    pub tk: &'static str,
}

impl Operator {
    pub fn min_binary_bp() -> (r: BindingPower)
        ensures
            r == BindingPower::Binary(0, 1),
    {
        BindingPower::Binary(0, 1)
    }

    pub fn bool_or_bp() -> (r: BindingPower)
        ensures
            r == BindingPower::Binary(2, 1),
    {
        BindingPower::Binary(2, 1)
    }

    pub fn bool_and_bp() -> (r: BindingPower)
        ensures
            r == BindingPower::Binary(4, 3),
    {
        BindingPower::Binary(4, 3)
    }

    pub fn comparison_bp() -> (r: BindingPower)
        ensures
            r == BindingPower::Binary(6, 7),
    {
        BindingPower::Binary(6, 7)
    }

    pub fn bit_or_bp() -> (r: BindingPower)
        ensures
            r == BindingPower::Binary(8, 7),
    {
        BindingPower::Binary(8, 7)
    }

    pub fn bit_xor_bp() -> (r: BindingPower)
        ensures
            r == BindingPower::Binary(10, 9),
    {
        BindingPower::Binary(10, 9)
    }

    pub fn bit_and_bp() -> (r: BindingPower)
        ensures
            r == BindingPower::Binary(12, 11),
    {
        BindingPower::Binary(12, 11)
    }

    pub fn shift_bp() -> (r: BindingPower)
        ensures
            r == BindingPower::Binary(14, 13),
    {
        BindingPower::Binary(14, 13)
    }

    pub fn additive_bp() -> (r: BindingPower)
        ensures
            r == BindingPower::Binary(16, 15),
    {
        BindingPower::Binary(16, 15)
    }

    pub fn multiplicative_bp() -> (r: BindingPower)
        ensures
            r == BindingPower::Binary(18, 17),
    {
        BindingPower::Binary(18, 17)
    }
}

} // verus!
