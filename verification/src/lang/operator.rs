use vstd::prelude::*;

verus! {

/// What kind of operator a token is, with the binding powers of its binary
/// form.
#[derive(Copy, Clone, Debug, PartialEq, Eq, Structural)]
pub enum BindingPower {
    BinaryOrUnary(u8, u8),
    Binary(u8, u8),
    Unary,
    PostFix,
    Unknown,
}

impl BindingPower {
    pub const ADDITIVE_LBP: u8 = 5;
    pub const ADDITIVE_RBP: u8 = 6;
    pub const MULTIPLICATIVE_LBP: u8 = 7;
    pub const MULTIPLICATIVE_RBP: u8 = 8;

    pub fn binary_or_unary(bp: (u8, u8)) -> (r: Self)
        ensures
            r == BindingPower::BinaryOrUnary(bp.0, bp.1),
    {
        BindingPower::BinaryOrUnary(bp.0, bp.1)
    }

    pub fn binary(bp: (u8, u8)) -> (r: Self)
        ensures
            r == BindingPower::Binary(bp.0, bp.1),
    {
        BindingPower::Binary(bp.0, bp.1)
    }

    /// Whether the operator can stand before an operand.
    pub fn is_unary(&self) -> (r: bool)
        ensures
            r == (*self is BinaryOrUnary || *self is Unary),
    {
        match self {
            BindingPower::BinaryOrUnary(_, _) | BindingPower::Unary => true,
            _ => false,
        }
    }

    /// The binding powers of the binary form, if there is one.
    pub fn is_binary(&self) -> (r: Option<(u8, u8)>)
        ensures
            r == (match *self {
                BindingPower::BinaryOrUnary(l, rb) => Some((l, rb)),
                BindingPower::Binary(l, rb) => Some((l, rb)),
                _ => None,
            }),
    {
        match self {
            BindingPower::BinaryOrUnary(lbp, rbp) | BindingPower::Binary(lbp, rbp) => Some((*lbp, *rbp)),
            _ => None,
        }
    }
}

} // verus!
