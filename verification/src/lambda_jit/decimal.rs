use vstd::prelude::*;
use rust_decimal::Decimal;
use rust_decimal::MathematicalOps;
use crate::common::utils::chars::{decimal, pad_left};

verus! {

/// The largest magnitude a decimal mantissa can have: 96 bits.
pub const MAX_MANTISSA: i128 = 0xFFFF_FFFF_FFFF_FFFF_FFFF_FFFF;

/// The largest scale (number of digits after the point) a decimal can have.
pub const MAX_SCALE: u32 = 28;

/// A decimal number held as plain values: the value is
/// `mantissa / 10^scale`, with a mantissa of at most 96 bits and a scale of
/// at most 28, which is what `rust_decimal::Decimal` can represent.
#[derive(Clone, Copy, PartialEq, Eq, Debug)]
pub struct Dec {
    pub mantissa: i128,
    pub scale: u32,
}

pub open spec fn pow10(n: nat) -> nat
    decreases n,
{
    if n == 0 { 1 } else { 10 * pow10((n - 1) as nat) }
}

/// The sum, difference, product and quotient of two decimals as
/// `rust_decimal` computes them, each as (mantissa, scale), or `None` where
/// the crate reports overflow (or, for the quotient, division by zero).
pub uninterp spec fn decimal_checked_sum(am: int, ascale: int, bm: int, bscale: int) -> Option<(int, int)>;

pub uninterp spec fn decimal_checked_difference(am: int, ascale: int, bm: int, bscale: int) -> Option<(int, int)>;

pub uninterp spec fn decimal_checked_product(am: int, ascale: int, bm: int, bscale: int) -> Option<(int, int)>;

pub uninterp spec fn decimal_checked_quotient(am: int, ascale: int, bm: int, bscale: int) -> Option<(int, int)>;

/// The square root of a decimal as `rust_decimal` computes it.
pub uninterp spec fn decimal_sqrt(m: int, scale: int) -> Option<(int, int)>;

impl Dec {
    /// The representable decimals.
    pub open spec fn wf(self) -> bool {
        &&& -MAX_MANTISSA <= self.mantissa <= MAX_MANTISSA
        &&& self.scale <= MAX_SCALE
    }

    pub open spec fn parts(self) -> (int, int) {
        (self.mantissa as int, self.scale as int)
    }

    pub open spec fn is_zero_spec(self) -> bool {
        self.mantissa == 0
    }

    pub open spec fn is_negative_spec(self) -> bool {
        self.mantissa < 0
    }

    /// The integer part of a non-negative decimal, if it fits a `usize`.
    pub open spec fn to_usize_spec(self) -> Option<usize> {
        if self.mantissa < 0 {
            None
        } else {
            let t = (self.mantissa as int) / (pow10(self.scale as nat) as int);
            if t <= usize::MAX { Some(t as usize) } else { None }
        }
    }

    pub open spec fn from_parts(p: (int, int)) -> Dec {
        Dec { mantissa: p.0 as i128, scale: p.1 as u32 }
    }

    /// Zero, with no digits after the point.
    pub fn zero() -> (r: Dec)
        ensures
            r == (Dec { mantissa: 0, scale: 0 }),
            r.wf(),
    {
        Dec { mantissa: 0, scale: 0 }
    }

    pub fn is_zero(&self) -> (r: bool)
        ensures
            r == self.is_zero_spec(),
    {
        self.mantissa == 0
    }

    /// Whether the decimal is below zero.
    pub fn is_negative(&self) -> (r: bool)
        ensures
            r == self.is_negative_spec(),
    {
        self.mantissa < 0
    }

    /// Whether the decimal is above zero.
    pub fn is_positive(&self) -> (r: bool)
        ensures
            r == (self.mantissa > 0),
    {
        self.mantissa > 0
    }

    /// The integer part of a non-negative decimal when it fits a `usize`
    /// (the fractional part is dropped); `None` for a negative decimal or
    /// one too large.
    pub fn to_usize(&self) -> (r: Option<usize>)
        requires
            self.wf(),
        ensures
            r == self.to_usize_spec(),
    {
        if self.mantissa < 0 {
            return None;
        }
        let mut p: i128 = 1;
        let mut i: u32 = 0;
        proof {
            lemma_pow10_mono(0, 28);
            lemma_pow10_28();
        }
        while i < self.scale
            invariant
                i <= self.scale <= MAX_SCALE,
                p == pow10(i as nat),
                p <= pow10(28),
            decreases self.scale - i,
        {
            proof {
                lemma_pow10_mono(i as nat + 1, 28);
                lemma_pow10_28();
                assert(pow10(i as nat + 1) == 10 * pow10(i as nat));
            }
            p = p * 10;
            i = i + 1;
        }
        proof { lemma_pow10_pos(self.scale as nat); }
        let t = self.mantissa / p;
        if t <= usize::MAX as i128 {
            Some(t as usize)
        } else {
            None
        }
    }
}

pub proof fn lemma_pow10_pos(n: nat)
    ensures
        pow10(n) >= 1,
    decreases n,
{
    if n > 0 {
        lemma_pow10_pos((n - 1) as nat);
    }
}

pub proof fn lemma_pow10_mono(a: nat, b: nat)
    requires
        a <= b,
    ensures
        pow10(a) <= pow10(b),
    decreases b,
{
    if a < b {
        lemma_pow10_mono(a, (b - 1) as nat);
        lemma_pow10_pos((b - 1) as nat);
    }
}

proof fn lemma_pow10_28()
    ensures
        pow10(28) == 10_000_000_000_000_000_000_000_000_000,
{
    reveal_with_fuel(pow10, 29);
}

pub open spec fn as_dec(o: Option<(int, int)>) -> Option<Dec> {
    match o {
        Some(p) => Some(Dec::from_parts(p)),
        None => None,
    }
}

/// The larger scale of two decimals.
pub open spec fn common_scale(a: Dec, b: Dec) -> nat {
    if a.scale >= b.scale { a.scale as nat } else { b.scale as nat }
}

/// The mantissa of `a` written with `s` digits after the point.
pub open spec fn aligned(a: Dec, s: nat) -> int {
    a.mantissa * pow10((s - a.scale) as nat)
}

/// Whether `a - b` is within what a decimal holds without rounding: both
/// operands brought to their larger scale, and their difference there, fit
/// in 96 bits.
pub open spec fn sub_fits(a: Dec, b: Dec) -> bool {
    let s = common_scale(a, b);
    &&& a.wf()
    &&& b.wf()
    &&& -MAX_MANTISSA <= aligned(a, s) <= MAX_MANTISSA
    &&& -MAX_MANTISSA <= aligned(b, s) <= MAX_MANTISSA
    &&& -MAX_MANTISSA <= aligned(a, s) - aligned(b, s) <= MAX_MANTISSA
}

/// The exact difference `a - b` as `rust_decimal` writes it: the other
/// operand (negated) when one is zero, else the difference of the aligned
/// mantissas at the larger scale.
pub open spec fn exact_sub(a: Dec, b: Dec) -> Dec {
    if a.mantissa == 0 {
        Dec { mantissa: (-b.mantissa) as i128, scale: b.scale }
    } else if b.mantissa == 0 {
        a
    } else {
        let s = common_scale(a, b);
        Dec { mantissa: (aligned(a, s) - aligned(b, s)) as i128, scale: s as u32 }
    }
}

/// The difference `a - b` as the machine computes it: exact where it fits,
/// else what `rust_decimal` gives (`None` on overflow).
pub open spec fn sub_result(a: Dec, b: Dec) -> Option<Dec> {
    if sub_fits(a, b) {
        Some(exact_sub(a, b))
    } else {
        as_dec(decimal_checked_difference(a.parts().0, a.parts().1, b.parts().0, b.parts().1))
    }
}

/// Whether `d` has the value `a - b`, all values read as mantissa over a
/// power of ten: `d.m / 10^d.s == a.m / 10^a.s - b.m / 10^b.s`.
pub open spec fn is_difference(d: Dec, a: Dec, b: Dec) -> bool {
    d.mantissa * pow10(a.scale as nat) * pow10(b.scale as nat)
        == (a.mantissa * pow10(b.scale as nat) - b.mantissa * pow10(a.scale as nat)) * pow10(d.scale as nat)
}

pub proof fn lemma_pow10_positive(n: nat)
    ensures
        pow10(n) >= 1,
    decreases n,
{
    if n > 0 {
        lemma_pow10_positive((n - 1) as nat);
    }
}

pub proof fn lemma_pow10_add(a: nat, b: nat)
    ensures
        pow10(a + b) == pow10(a) * pow10(b),
    decreases a,
{
    if a == 0 {
        assert(pow10(0) == 1);
        assert(a + b == b);
    } else {
        let a1 = (a - 1) as nat;
        lemma_pow10_add(a1, b);
        let n = a + b;
        assert(n > 0);
        assert((n - 1) as nat == a1 + b);
        assert(pow10(n) == 10 * pow10((n - 1) as nat));
        assert(pow10(a) == 10 * pow10(a1));
        let x = pow10(a1);
        let y = pow10(b);
        assert(pow10(a1 + b) == x * y);
        assert(10 * (x * y) == (10 * x) * y) by (nonlinear_arith);
    }
}

/// The exact difference has the value `a - b`.
pub proof fn lemma_exact_sub_value(a: Dec, b: Dec)
    requires
        sub_fits(a, b),
    ensures
        is_difference(exact_sub(a, b), a, b),
{
    let pa = pow10(a.scale as nat);
    let pb = pow10(b.scale as nat);
    let am = a.mantissa as int;
    let bm = b.mantissa as int;
    if a.mantissa == 0 {
        assert((-bm) * pa * pb == (am * pb - bm * pa) * pb) by (nonlinear_arith)
            requires
                am == 0;
    } else if b.mantissa == 0 {
        assert(am * pa * pb == (am * pb - bm * pa) * pa) by (nonlinear_arith)
            requires
                bm == 0;
    } else {
        let s = common_scale(a, b);
        let ps = pow10(s);
        let qa = pow10((s - a.scale) as nat);
        let qb = pow10((s - b.scale) as nat);
        lemma_pow10_add((s - a.scale) as nat, a.scale as nat);
        lemma_pow10_add((s - b.scale) as nat, b.scale as nat);
        assert(ps == qa * pa);
        assert(ps == qb * pb);
        assert((am * qa - bm * qb) * pa * pb == am * qa * pa * pb - bm * qb * pa * pb) by (nonlinear_arith);
        assert(am * qa * pa * pb == am * pb * (qa * pa)) by (nonlinear_arith);
        assert(bm * qb * pa * pb == bm * pa * (qb * pb)) by (nonlinear_arith);
        assert((am * pb - bm * pa) * ps == am * pb * ps - bm * pa * ps) by (nonlinear_arith);
        assert(exact_sub(a, b).mantissa == am * qa - bm * qb);
        assert(exact_sub(a, b).scale == s);
    }
}

/// A difference has the sign of the comparison of its operands: below zero
/// exactly when `a < b`, zero exactly when they are equal.
pub proof fn lemma_difference_sign(d: Dec, a: Dec, b: Dec)
    requires
        is_difference(d, a, b),
    ensures
        (d.mantissa < 0) == (a.mantissa * pow10(b.scale as nat) < b.mantissa * pow10(a.scale as nat)),
        (d.mantissa == 0) == (a.mantissa * pow10(b.scale as nat) == b.mantissa * pow10(a.scale as nat)),
        (d.mantissa > 0) == (a.mantissa * pow10(b.scale as nat) > b.mantissa * pow10(a.scale as nat)),
{
    let pa = pow10(a.scale as nat);
    let pb = pow10(b.scale as nat);
    let pd = pow10(d.scale as nat);
    lemma_pow10_positive(a.scale as nat);
    lemma_pow10_positive(b.scale as nat);
    lemma_pow10_positive(d.scale as nat);
    let x = a.mantissa * pb - b.mantissa * pa;
    let dm = d.mantissa as int;
    assert(dm * (pa * pb) == x * pd) by (nonlinear_arith)
        requires
            dm * pa * pb == x * pd;
    assert((dm < 0) == (x < 0) && (dm == 0) == (x == 0) && (dm > 0) == (x > 0)) by (nonlinear_arith)
        requires
            dm * (pa * pb) == x * pd,
            pa >= 1,
            pb >= 1,
            pd >= 1,
    {
        assert(pa * pb >= 1);
    }
}

/// Calls `Decimal::checked_add`: the crate's sum of two decimals, `None` on
/// overflow. Claims only that the result is the named sum and is a
/// representable decimal.
#[verifier::external_body]
pub(crate) fn checked_sum(a: Dec, b: Dec) -> (r: Option<Dec>)
    requires
        a.wf(),
        b.wf(),
    ensures
        r == as_dec(decimal_checked_sum(a.parts().0, a.parts().1, b.parts().0, b.parts().1)),
        r matches Some(d) ==> d.wf(),
{
    let x = Decimal::from_i128_with_scale(a.mantissa, a.scale);
    let y = Decimal::from_i128_with_scale(b.mantissa, b.scale);
    match x.checked_add(y) {
        Some(d) => Some(Dec { mantissa: d.mantissa(), scale: d.scale() }),
        None => None,
    }
}

/// Calls `Decimal::checked_sub`: the crate's difference, `None` on overflow.
/// Where the difference needs no rounding (`sub_fits`) it is exact, as the
/// source (ops/add.rs) shows: a zero operand gives the other one (negated);
/// else the operand with the smaller scale is multiplied up to the larger
/// scale without loss (`rescale32`, `unaligned_add`) and the aligned
/// mantissas are subtracted (`fast_add`, `aligned_add`), keeping that scale.
#[verifier::external_body]
pub(crate) fn checked_difference(a: Dec, b: Dec) -> (r: Option<Dec>)
    requires
        a.wf(),
        b.wf(),
    ensures
        r == as_dec(decimal_checked_difference(a.parts().0, a.parts().1, b.parts().0, b.parts().1)),
        r matches Some(d) ==> d.wf(),
        sub_fits(a, b) ==> r == Some(exact_sub(a, b)),
{
    let x = Decimal::from_i128_with_scale(a.mantissa, a.scale);
    let y = Decimal::from_i128_with_scale(b.mantissa, b.scale);
    match x.checked_sub(y) {
        Some(d) => Some(Dec { mantissa: d.mantissa(), scale: d.scale() }),
        None => None,
    }
}

/// Calls `Decimal::checked_mul`: the crate's product, `None` on overflow.
#[verifier::external_body]
pub(crate) fn checked_product(a: Dec, b: Dec) -> (r: Option<Dec>)
    requires
        a.wf(),
        b.wf(),
    ensures
        r == as_dec(decimal_checked_product(a.parts().0, a.parts().1, b.parts().0, b.parts().1)),
        r matches Some(d) ==> d.wf(),
{
    let x = Decimal::from_i128_with_scale(a.mantissa, a.scale);
    let y = Decimal::from_i128_with_scale(b.mantissa, b.scale);
    match x.checked_mul(y) {
        Some(d) => Some(Dec { mantissa: d.mantissa(), scale: d.scale() }),
        None => None,
    }
}

/// Calls `Decimal::checked_div`: the crate's quotient, `None` when the
/// divisor is zero or on overflow (the crate's `div_impl` answers
/// `DivByZero` for a zero divisor).
#[verifier::external_body]
pub(crate) fn checked_quotient(a: Dec, b: Dec) -> (r: Option<Dec>)
    requires
        a.wf(),
        b.wf(),
    ensures
        r == as_dec(decimal_checked_quotient(a.parts().0, a.parts().1, b.parts().0, b.parts().1)),
        r matches Some(d) ==> d.wf(),
        b.mantissa == 0 ==> r is None,
{
    let x = Decimal::from_i128_with_scale(a.mantissa, a.scale);
    let y = Decimal::from_i128_with_scale(b.mantissa, b.scale);
    match x.checked_div(y) {
        Some(d) => Some(Dec { mantissa: d.mantissa(), scale: d.scale() }),
        None => None,
    }
}

/// Calls `MathematicalOps::sqrt`: the crate's square root, `None` for a
/// negative decimal; zero has root zero. The crate's Newton loop stops with
/// a panic after 1000 rounds that do not settle; which inputs, if any, reach
/// that is not shown by its source or documentation, so no clause here
/// leaves them out, and the crate offers no square root that cannot panic.
#[verifier::external_body]
pub(crate) fn sqrt(a: Dec) -> (r: Option<Dec>)
    requires
        a.wf(),
    ensures
        r == as_dec(decimal_sqrt(a.parts().0, a.parts().1)),
        r matches Some(d) ==> d.wf(),
        a.mantissa < 0 ==> r is None,
        a.mantissa == 0 ==> r == Some(Dec { mantissa: 0, scale: 0 }),
{
    let x = Decimal::from_i128_with_scale(a.mantissa, a.scale);
    match x.sqrt() {
        Some(d) => Some(Dec { mantissa: d.mantissa(), scale: d.scale() }),
        None => None,
    }
}

/// How `Decimal` writes itself with `Display` (no precision asked): a `-`
/// for a negative value, the digits of the whole part, and, where the scale
/// is above zero, `.` and the digits of the fractional part with leading
/// zeros up to `scale` digits. Trailing zeros of the scale are kept.
pub open spec fn decimal_display(mantissa: int, scale: nat) -> Seq<char> {
    let a: nat = if mantissa < 0 { (-mantissa) as nat } else { mantissa as nat };
    let sign = if mantissa < 0 { seq!['-'] } else { Seq::<char>::empty() };
    let whole = decimal(a / pow10(scale));
    if scale == 0 {
        sign + whole
    } else {
        sign + whole + seq!['.'] + pad_left(decimal(a % pow10(scale)), scale as int)
    }
}

/// Calls `Display` of `Decimal` (through `ToString`) on the decimal with
/// this mantissa and scale. `from_i128_with_scale` panics outside the
/// representable decimals, which `requires` leaves out; the text is what
/// the crate's `to_str_internal` builds, as `decimal_display` states it.
#[verifier::external_body]
fn display(d: Dec) -> (r: String)
    requires
        d.wf(),
    ensures
        r@ == decimal_display(d.mantissa as int, d.scale as nat),
{
    Decimal::from_i128_with_scale(d.mantissa, d.scale).to_string()
}

impl Dec {
    /// The decimal written out as `rust_decimal` writes it.
    pub fn to_text(&self) -> (r: String)
        requires
            self.wf(),
        ensures
            r@ == decimal_display(self.mantissa as int, self.scale as nat),
    {
        display(*self)
    }
}

} // verus!
