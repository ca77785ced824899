//! Small presentation helpers over the fixed-point values.

use vstd::prelude::*;
use vstd::string::*;

verus! {

use crate::DEC_SCALE;
use crate::fixed::{Dec, Rat, Ratio, rat_zero, ratio_wf, lemma_mul_le};
use crate::textnum::{nat_digits, digit_char, fmt_u64, digit_to_str};

/// A fixed-point value written with exactly two fractional digits, the
/// rest truncated toward zero.
pub open spec fn two_dp_chars(units: int) -> Seq<char> {
    nat_digits(units / (DEC_SCALE as int)) + seq![
        '.',
        digit_char(units % (DEC_SCALE as int) / 1000),
        digit_char(units % (DEC_SCALE as int) / 100 % 10),
    ]
}

/// Writes a value with two fractional digits, truncating the rest.
pub fn format_two_dp(value: Dec) -> (r: String)
    ensures
        r@ == two_dp_chars(value@),
{
    proof {
        reveal_strlit(".");
    }
    let mut r = fmt_u64(value.units / DEC_SCALE);
    r.append(".");
    let f = value.units % DEC_SCALE;
    r.append(digit_to_str(f / 1000));
    r.append(digit_to_str(f / 100 % 10));
    proof {
        assert(r@ =~= two_dp_chars(value@));
    }
    r
}

/// Writes a fraction as a percentage with two decimals: the value times one
/// hundred, a percent sign appended.
pub fn format_percentage(value: Dec) -> (r: String)
    requires
        value@ * 100 <= u64::MAX as int,
    ensures
        r@ == two_dp_chars(value@ * 100) + "%"@,
{
    proof {
        reveal_strlit("%");
    }
    let mut r = format_two_dp(Dec::new(value.units * 100));
    r.append("%");
    proof {
        assert(r@ =~= two_dp_chars(value@ * 100) + "%"@);
    }
    r
}

/// Writes an amount as dollars with two decimals.
pub fn format_currency(value: Dec) -> (r: String)
    ensures
        r@ == "$"@ + two_dp_chars(value@),
{
    proof {
        reveal_strlit("$");
    }
    let mut r: String = "$".to_owned();
    let body = format_two_dp(value);
    r.append(body.as_str());
    proof {
        assert(r@ =~= "$"@ + two_dp_chars(value@));
    }
    r
}

/// Return on investment as a percentage: `(profit / investment) * 100`,
/// zero for a zero investment.
pub open spec fn spec_roi(profit: int, investment: int) -> Rat {
    if investment == 0 {
        rat_zero()
    } else {
        Rat { num: profit * 100, den: investment }
    }
}

/// Computes the return on investment as an exact percentage.
pub fn calculate_roi(profit: Dec, investment: Dec) -> (r: Ratio)
    ensures
        r@ == spec_roi(profit@, investment@),
        ratio_wf(r),
{
    if investment.units == 0 {
        Ratio::zero()
    } else {
        proof {
            lemma_mul_le(profit.units as int, 100, u64::MAX as int, 100);
        }
        Ratio { num: profit.units as u128 * 100, den: investment.units as u128 }
    }
}

} // verus!
