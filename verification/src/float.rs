//! Floats as the bits of an IEEE 754 double: their parts, and the integers next to them.
use vstd::arithmetic::power2::{
    lemma2_to64, lemma2_to64_rest, lemma_pow2_pos, lemma_pow2_strictly_increases,
    lemma_pow2_unfold, pow2,
};
use vstd::prelude::*;

verus! {

/// Whether the sign bit is set.
pub open spec fn negative(bits: u64) -> bool {
    bits >= 0x8000_0000_0000_0000
}

/// The exponent field.
pub open spec fn exponent(bits: u64) -> int {
    (bits as int / 0x10_0000_0000_0000) % 2048
}

/// The fraction field.
pub open spec fn fraction(bits: u64) -> int {
    bits as int % 0x10_0000_0000_0000
}

/// Whether the bits stand for a number and not for an infinity or for no number.
pub open spec fn finite(bits: u64) -> bool {
    exponent(bits) != 2047
}

/// Whether the bits stand for no number.
pub open spec fn not_a_number(bits: u64) -> bool {
    exponent(bits) == 2047 && fraction(bits) != 0
}

/// The significand as an integer.
pub open spec fn significand(bits: u64) -> int {
    if exponent(bits) == 0 {
        fraction(bits)
    } else {
        fraction(bits) + 0x10_0000_0000_0000
    }
}

/// The power of two by which the significand is multiplied.
pub open spec fn raised(bits: u64) -> nat {
    if exponent(bits) > 1075 {
        (exponent(bits) - 1075) as nat
    } else {
        0
    }
}

/// The power of two by which the significand is divided.
pub open spec fn lowered(bits: u64) -> nat {
    if exponent(bits) == 0 {
        1074
    } else if exponent(bits) < 1075 {
        (1075 - exponent(bits)) as nat
    } else {
        0
    }
}

/// The whole part of the size of a number, times `k`.
pub open spec fn scaled(bits: u64, k: int) -> int {
    significand(bits) * k * pow2(raised(bits)) as int / pow2(lowered(bits)) as int
}

/// Whether a number is not whole.
pub open spec fn has_fraction(bits: u64) -> bool {
    significand(bits) % pow2(lowered(bits)) as int != 0
}

/// A bound above every integer that is held in 64 bits.
pub const CAP: u128 = 0x1_0000_0000_0000_0000_0000;

/// A number cut off at the bound.
pub open spec fn capped(n: int) -> int {
    if n < CAP {
        n
    } else {
        CAP as int
    }
}

/// The exponent and fraction fields.
fn fields(bits: u64) -> (r: (u64, u64))
    ensures
        r.0 == exponent(bits),
        r.1 == fraction(bits),
        r.0 < 2048,
        r.1 < 0x10_0000_0000_0000,
{
    ((bits / 0x10_0000_0000_0000) % 2048, bits % 0x10_0000_0000_0000)
}

/// A power of two.
fn power_of_two(n: u64) -> (r: u128)
    requires
        n < 127,
    ensures
        r == pow2(n as nat),
{
    let mut p: u128 = 1;
    let mut i: u64 = 0;
    proof {
        lemma2_to64();
    }
    while i < n
        invariant
            i <= n < 127,
            p == pow2(i as nat),
        decreases n - i,
    {
        proof {
            lemma_pow2_unfold((i + 1) as nat);
            lemma_small_power((i + 1) as nat);
        }
        p = p * 2;
        i = i + 1;
    }
    p
}

proof fn lemma_small_power(n: nat)
    requires
        n < 128,
    ensures
        pow2(n) <= 0x8000_0000_0000_0000_0000_0000_0000_0000,
{
    lemma2_to64();
    lemma2_to64_rest();
    assert(pow2(127) == 0x8000_0000_0000_0000_0000_0000_0000_0000) by {
        vstd::arithmetic::power2::lemma_pow2_adds(64, 63);
        assert(pow2(127) == pow2(64) * pow2(63));
        assert(0x1_0000_0000_0000_0000int * 0x8000_0000_0000_0000int
            == 0x8000_0000_0000_0000_0000_0000_0000_0000int);
    }
    if n < 127 {
        lemma_pow2_strictly_increases(n, 127);
    }
}

proof fn lemma_division_vanishes(prod: int, n: nat)
    requires
        0 <= prod < 0x20_0000_0000_0000_0000_0000,
        n >= 100,
    ensures
        prod / pow2(n) as int == 0,
{
    lemma2_to64();
    lemma2_to64_rest();
    assert(pow2(100) == 0x10_0000_0000_0000_0000_0000_0000) by {
        vstd::arithmetic::power2::lemma_pow2_adds(64, 36);
        assert(0x1_0000_0000_0000_0000int * 0x10_0000_0000int
            == 0x10_0000_0000_0000_0000_0000_0000int);
    }
    if n > 100 {
        lemma_pow2_strictly_increases(100, n);
    }
    lemma_pow2_pos(n);
    vstd::arithmetic::div_mod::lemma_basic_div(prod, pow2(n) as int);
}

/// The whole part of the size of a number, times `k`, cut off at the bound.
pub fn float_scaled(bits: u64, k: u32) -> (r: u128)
    ensures
        r == capped(scaled(bits, k as int)),
        r <= CAP,
{
    let (e, f) = fields(bits);
    let sig: u64 = if e == 0 {
        f
    } else {
        f + 0x10_0000_0000_0000
    };
    proof {
        assert(0 <= sig * k < 0x20_0000_0000_0000 * 0x1_0000_0000) by (nonlinear_arith)
            requires
                sig < 0x20_0000_0000_0000,
                k < 0x1_0000_0000,
        ;
        assert(0x20_0000_0000_0000int * 0x1_0000_0000int == 0x20_0000_0000_0000_0000_0000int);
        lemma2_to64();
    }
    let prod: u128 = sig as u128 * k as u128;
    if e <= 1075 {
        let down: u64 = if e == 0 {
            1074
        } else {
            1075 - e
        };
        proof {
            assert(lowered(bits) == down as nat);
            assert(raised(bits) == 0);
            assert(significand(bits) * k * pow2(0) as int == prod) by (nonlinear_arith)
                requires
                    significand(bits) == sig,
                    pow2(0) == 1,
                    prod == sig * k,
            ;
        }
        if down >= 100 {
            proof {
                lemma_division_vanishes(prod as int, down as nat);
            }
            return 0;
        }
        let p: u128 = power_of_two(down);
        proof {
            lemma_pow2_pos(down as nat);
        }
        let q: u128 = prod / p;
        if q < CAP {
            q
        } else {
            CAP
        }
    } else {
        let up: u64 = e - 1075;
        let mut v: u128 = prod;
        let mut i: u64 = 0;
        proof {
            assert(prod * 1 == prod);
            assert(pow2(0) == 1);
            assert(prod * pow2(0) == prod) by (nonlinear_arith)
                requires
                    pow2(0) == 1,
            ;
        }
        while i < up && v < CAP
            invariant
                i <= up,
                v < CAP || (i < up ==> v >= CAP) || i == up,
                v == prod * pow2(i as nat),
                v < 2 * CAP || v == prod,
                prod < 0x20_0000_0000_0000_0000_0000,
            decreases up - i,
        {
            proof {
                lemma_pow2_unfold((i + 1) as nat);
                assert(prod * pow2((i + 1) as nat) == 2 * (prod * pow2(i as nat)))
                    by (nonlinear_arith)
                    requires
                        pow2((i + 1) as nat) == 2 * pow2(i as nat),
                ;
            }
            v = v * 2;
            i = i + 1;
        }
        proof {
            assert(raised(bits) == up as nat);
            assert(lowered(bits) == 0);
            let whole = significand(bits) * k * pow2(up as nat);
            assert(whole == prod * pow2(up as nat)) by (nonlinear_arith)
                requires
                    whole == significand(bits) * k * pow2(up as nat),
                    significand(bits) == sig,
                    prod == sig * k,
            ;
            vstd::arithmetic::div_mod::lemma_div_basics(whole as int);
            if i < up {
                lemma_pow2_strictly_increases(i as nat, up as nat);
                assert(prod * pow2(up as nat) >= prod * pow2(i as nat)) by (nonlinear_arith)
                    requires
                        pow2(up as nat) >= pow2(i as nat),
                        prod >= 0,
                ;
            }
        }
        if v < CAP {
            v
        } else {
            CAP
        }
    }
}

/// Whether a number is not whole.
fn is_fractional(bits: u64) -> (r: bool)
    ensures
        r == has_fraction(bits),
{
    let (e, f) = fields(bits);
    let sig: u64 = if e == 0 {
        f
    } else {
        f + 0x10_0000_0000_0000
    };
    proof {
        lemma2_to64();
        lemma2_to64_rest();
    }
    if e >= 1075 {
        proof {
            assert(significand(bits) % 1 == 0);
        }
        return false;
    }
    let down: u64 = if e == 0 {
        1074
    } else {
        1075 - e
    };
    proof {
        assert(lowered(bits) == down as nat);
        lemma_pow2_pos(down as nat);
    }
    if down >= 53 {
        proof {
            if down > 53 {
                lemma_pow2_strictly_increases(53, down as nat);
            }
            assert(pow2(53) == 0x20_0000_0000_0000);
            vstd::arithmetic::div_mod::lemma_small_mod(sig as nat, pow2(down as nat));
        }
        return sig != 0;
    }
    let p: u128 = power_of_two(down);
    sig as u128 % p != 0
}

/// A number kept within the 64-bit integers.
pub open spec fn clamped(n: int) -> i64 {
    if n > i64::MAX {
        i64::MAX
    } else if n < i64::MIN {
        i64::MIN
    } else {
        n as i64
    }
}

/// The integer next to a float towards zero, kept within the 64-bit integers;
/// zero where the float is no number.
pub open spec fn truncated(bits: u64) -> i64 {
    if not_a_number(bits) {
        0
    } else if !finite(bits) {
        if negative(bits) {
            i64::MIN
        } else {
            i64::MAX
        }
    } else if negative(bits) {
        clamped(-scaled(bits, 1))
    } else {
        clamped(scaled(bits, 1))
    }
}

/// The largest integer that is no larger than a float, kept within the 64-bit
/// integers; zero where the float is no number.
pub open spec fn floored(bits: u64) -> i64 {
    if finite(bits) && negative(bits) && has_fraction(bits) {
        clamped(-scaled(bits, 1) - 1)
    } else {
        truncated(bits)
    }
}

/// A number kept within the 64-bit integers.
pub fn clamp(n: i128) -> (r: i64)
    ensures
        r == clamped(n as int),
{
    if n > i64::MAX as i128 {
        i64::MAX
    } else if n < i64::MIN as i128 {
        i64::MIN
    } else {
        n as i64
    }
}

/// The integer next to a float towards zero.
pub fn float_truncate(bits: u64) -> (r: i64)
    ensures
        r == truncated(bits),
{
    let (e, f) = fields(bits);
    let neg: bool = bits >= 0x8000_0000_0000_0000;
    if e == 2047 {
        if f != 0 {
            return 0;
        }
        return if neg {
            i64::MIN
        } else {
            i64::MAX
        };
    }
    let m: i128 = float_scaled(bits, 1) as i128;
    if neg {
        clamp(-m)
    } else {
        clamp(m)
    }
}

/// The largest integer that is no larger than a float.
pub fn float_floor(bits: u64) -> (r: i64)
    ensures
        r == floored(bits),
{
    let (e, _) = fields(bits);
    if e != 2047 && bits >= 0x8000_0000_0000_0000 && is_fractional(bits) {
        let m: i128 = float_scaled(bits, 1) as i128;
        clamp(-m - 1)
    } else {
        float_truncate(bits)
    }
}

} // verus!
