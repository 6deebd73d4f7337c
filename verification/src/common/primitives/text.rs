use vstd::prelude::*;
use crate::common::utils::chars::{append_decimal, append_decimal_padded_left, append_zeros, decimal, pad_left};
use crate::lambda_jit::decimal::{lemma_pow10_mono, lemma_pow10_pos, pow10};

verus! {

/// How `mantissa * 10^exponent` is written: `0` for zero; otherwise a `-`
/// for a negative number, then for a non-negative exponent the digits of
/// the magnitude followed by `exponent` zeros; for an exponent below
/// `-max_digits`, `0.` and the digits after zeros up to `-exponent`
/// characters; and otherwise the whole part, `.`, and the remainder's
/// digits after zeros up to `-exponent` characters.
pub open spec fn decimal_text(mantissa: int, exponent: int, max_digits: int) -> Seq<char> {
    if mantissa == 0 {
        seq!['0']
    } else {
        let a: nat = if mantissa < 0 { (-mantissa) as nat } else { mantissa as nat };
        let sign = if mantissa < 0 { seq!['-'] } else { Seq::<char>::empty() };
        sign + if exponent >= 0 {
            decimal(a) + Seq::new(exponent as nat, |i: int| '0')
        } else if exponent < -max_digits {
            seq!['0', '.'] + pad_left(decimal(a), -exponent)
        } else {
            let f = pow10((-exponent) as nat);
            decimal(a / f) + seq!['.'] + pad_left(decimal(a % f), -exponent)
        }
    }
}

/// Ten to the `n`.
fn pow10_u128(n: u32) -> (r: u128)
    requires
        n <= 38,
    ensures
        r == pow10(n as nat),
{
    proof {
        reveal_with_fuel(pow10, 39);
        assert(pow10(38) == 100000000000000000000000000000000000000nat);
    }
    let mut r: u128 = 1;
    let mut k: u32 = 0;
    while k < n
        invariant
            k <= n <= 38,
            r == pow10(k as nat),
            pow10(38) == 100000000000000000000000000000000000000nat,
        decreases n - k,
    {
        proof {
            lemma_pow10_mono((k + 1) as nat, 38);
            lemma_pow10_pos(k as nat);
        }
        r = r * 10;
        k = k + 1;
    }
    r
}

/// The text of `mantissa * 10^exponent` (see `decimal_text`), the mantissa
/// given by its sign and magnitude.
pub fn write_decimal_text(negative: bool, magnitude: u128, exponent: i32, max_digits: i32) -> (r: String)
    requires
        0 <= max_digits <= 38,
        -40000 <= exponent <= 40000,
        !negative || magnitude > 0,
    ensures
        r@ == decimal_text(if negative { -(magnitude as int) } else { magnitude as int }, exponent as int, max_digits as int),
{
    let ghost m: int = if negative { -(magnitude as int) } else { magnitude as int };
    let mut s = String::new();
    proof {
        reveal_strlit("0");
        reveal_strlit("-");
        reveal_strlit("0.");
        reveal_strlit(".");
    }
    if magnitude == 0 {
        s.append("0");
        return s;
    }
    if negative {
        s.append("-");
    }
    let ghost sign = s@;
    assert(sign == (if m < 0 { seq!['-'] } else { Seq::<char>::empty() }));
    if exponent >= 0 {
        append_decimal(&mut s, magnitude);
        append_zeros(&mut s, exponent as usize);
        assert(s@ =~= sign + (decimal(magnitude as nat) + Seq::new(exponent as nat, |i: int| '0')));
    } else if exponent < -max_digits {
        s.append("0.");
        append_decimal_padded_left(&mut s, magnitude, (-exponent) as usize);
        assert(s@ =~= sign + (seq!['0', '.'] + pad_left(decimal(magnitude as nat), -exponent)));
    } else {
        let factor = pow10_u128((-exponent) as u32);
        proof {
            lemma_pow10_pos((-exponent) as nat);
        }
        append_decimal(&mut s, magnitude / factor);
        s.append(".");
        append_decimal_padded_left(&mut s, magnitude % factor, (-exponent) as usize);
        assert(s@ =~= sign + (decimal((magnitude / factor) as nat) + seq!['.'] + pad_left(
            decimal((magnitude % factor) as nat),
            -exponent,
        )));
    }
    s
}

} // verus!
