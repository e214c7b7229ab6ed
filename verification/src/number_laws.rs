//! What floats come to as whole numbers.
use crate::float::{
    finite, floored, has_fraction, lowered, negative, not_a_number, raised, scaled, significand,
    truncated,
};
use vstd::arithmetic::power2::{lemma_pow2_pos, pow2};
use vstd::prelude::*;

verus! {

/// The whole part of a float times a number is not larger than the product, and by less
/// than one smaller. The float is its significand times or over a power of two.
pub proof fn law_whole_part_is_next_below(bits: u64, k: int)
    requires
        0 <= k,
    ensures
        ({
            let product = significand(bits) * k * pow2(raised(bits));
            let unit = pow2(lowered(bits));
            scaled(bits, k) * unit <= product < (scaled(bits, k) + 1) * unit
        }),
{
    let product = significand(bits) * k * pow2(raised(bits)) as int;
    let unit = pow2(lowered(bits)) as int;
    lemma_pow2_pos(lowered(bits));
    vstd::arithmetic::div_mod::lemma_fundamental_div_mod(product, unit);
    vstd::arithmetic::div_mod::lemma_mod_bound(product, unit);
    let q = product / unit;
    assert(unit * q == q * unit && (q + 1) * unit == q * unit + unit) by (nonlinear_arith);
}

/// Truncating goes towards zero and flooring goes down: they differ by one for a negative
/// float with a fraction, and not at all otherwise. The sign of a float turns the sign of
/// what it is truncated to. What is no number is zero, and what is too large is the largest
/// integer there is.
pub proof fn law_floor_is_below_truncation(bits: u64)
    ensures
        !not_a_number(bits) && !finite(bits) && negative(bits) ==> truncated(bits) == i64::MIN,
        !not_a_number(bits) && !finite(bits) && !negative(bits) ==> truncated(bits) == i64::MAX,
        not_a_number(bits) ==> truncated(bits) == 0 && floored(bits) == 0,
        !(negative(bits) && finite(bits) && has_fraction(bits)) ==> floored(bits) == truncated(
            bits,
        ),
        negative(bits) && finite(bits) && has_fraction(bits) && i64::MIN < truncated(bits)
            < i64::MAX ==> floored(bits) == truncated(bits) - 1,
        finite(bits) && 0 <= scaled(bits, 1) <= i64::MAX ==> truncated(bits) == (if negative(
            bits,
        ) {
            -scaled(bits, 1)
        } else {
            scaled(bits, 1)
        }),
{
}

} // verus!
