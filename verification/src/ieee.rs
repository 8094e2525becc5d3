//! The IEEE-754 wire form of a fixed-point metric value.
//!
//! The binary payload carries each value as a 64-bit floating-point number.
//! A [`MetricValue`](crate::value::MetricValue) is `raw / 65536` with `raw`
//! a signed 64-bit integer, so its nearest double — rounding ties to even,
//! as the wire format's readers expect — is computable in plain integer
//! arithmetic: normalize the magnitude to 53 bits of mantissa and assemble
//! sign, biased exponent, and fraction. Every representable value falls in
//! the normal range of the format, so no zero-exponent or infinity cases
//! arise beyond the zero value itself.

use vstd::arithmetic::div_mod::{
    lemma_div_is_ordered, lemma_fundamental_div_mod, lemma_fundamental_div_mod_converse,
};
use vstd::arithmetic::power2::{
    lemma2_to64, lemma2_to64_rest, lemma_pow2_adds, lemma_pow2_pos, lemma_pow2_strictly_increases,
    lemma_pow2_subtracts, lemma_pow2_unfold, pow2,
};
use vstd::prelude::*;

use crate::value::MetricValue;

verus! {

/// `a / d` rounded to the nearest integer, ties to even.
pub open spec fn round_half_even(a: nat, d: nat) -> nat {
    let q = a / d;
    let r = a % d;
    if 2 * r > d {
        q + 1
    } else if 2 * r < d {
        q
    } else if q % 2 == 0 {
        q
    } else {
        q + 1
    }
}

/// The position of the highest set bit: `floor(log2(a))` for `a >= 1`.
pub open spec fn msb_index(a: nat) -> nat
    decreases a,
{
    if a < 2 {
        0
    } else {
        1 + msb_index(a / 2)
    }
}

/// The magnitude a raw fixed-point representation denotes.
pub open spec fn raw_magnitude(raw: int) -> nat {
    if raw < 0 {
        (-raw) as nat
    } else {
        raw as nat
    }
}

/// The IEEE-754 binary64 bit pattern of `raw / 65536`, rounding ties to
/// even. The value `raw * 2^-16` with `2^p <= |raw| < 2^(p+1)` is
/// `1.xxx * 2^(p-16)`, so the biased exponent is `p + 1007`.
pub open spec fn double_bits_of_raw(raw: int) -> nat {
    if raw == 0 {
        0
    } else {
        let sign: nat = if raw < 0 {
            1
        } else {
            0
        };
        let a = raw_magnitude(raw);
        let p = msb_index(a);
        if p <= 52 {
            sign * pow2(63) + (p + 1007) * pow2(52) + (a * pow2((52 - p) as nat) - pow2(
                52,
            )) as nat
        } else {
            let q = round_half_even(a, pow2((p - 52) as nat));
            if q == pow2(53) {
                sign * pow2(63) + (p + 1008) * pow2(52)
            } else {
                sign * pow2(63) + (p + 1007) * pow2(52) + (q - pow2(52)) as nat
            }
        }
    }
}

/// `2^p <= a < 2^(p+1)` for the highest set bit `p` of `a >= 1`.
proof fn lemma_msb_bounds(a: nat)
    requires
        a >= 1,
    ensures
        pow2(msb_index(a)) <= a < pow2(msb_index(a) + 1),
    decreases a,
{
    lemma2_to64();
    if a < 2 {
    } else {
        lemma_msb_bounds(a / 2);
        let p = msb_index(a / 2);
        lemma_fundamental_div_mod(a as int, 2);
        lemma_pow2_unfold(p + 1);
        lemma_pow2_unfold(p + 2);
    }
}

/// Executable power of two.
fn pow2_u64(e: u64) -> (r: u64)
    requires
        e <= 63,
    ensures
        r as nat == pow2(e as nat),
{
    proof {
        lemma2_to64();
    }
    let mut r: u64 = 1;
    let mut i: u64 = 0;
    while i < e
        invariant
            0 <= i <= e <= 63,
            r as nat == pow2(i as nat),
        decreases e - i,
    {
        proof {
            lemma_pow2_unfold(i as nat + 1);
            lemma_pow2_strictly_increases(i as nat, 63);
            lemma2_to64_rest();
        }
        r = r * 2;
        i += 1;
    }
    r
}

/// The IEEE-754 binary64 bit pattern of a metric value, assembled by
/// integer arithmetic alone.
pub fn value_to_double_bits(v: MetricValue) -> (r: u64)
    ensures
        r as nat == double_bits_of_raw(v.raw as int),
{
    if v.raw == 0 {
        return 0u64;
    }
    let neg = v.raw < 0;
    let a: u64 = if v.raw == i64::MIN {
        9223372036854775808u64
    } else if neg {
        (-v.raw) as u64
    } else {
        v.raw as u64
    };
    proof {
        assert(a as nat == raw_magnitude(v.raw as int));
    }
    let sign: u64 = if neg {
        1
    } else {
        0
    };

    let mut p: u64 = 0;
    let mut t: u64 = a;
    proof {
        lemma2_to64();
    }
    while t >= 2
        invariant
            t >= 1,
            p <= 63,
            (t as nat) * pow2(p as nat) <= a as nat,
            msb_index(a as nat) == p + msb_index(t as nat),
        decreases t,
    {
        proof {
            assert(msb_index(t as nat) == 1 + msb_index((t / 2) as nat));
            lemma_pow2_pos(p as nat);
            lemma_pow2_unfold((p + 1) as nat);
            lemma_fundamental_div_mod(t as int, 2);
            assert(((t / 2) as nat) * pow2((p + 1) as nat) <= a as nat) by (nonlinear_arith)
                requires
                    (t as nat) * pow2(p as nat) <= a as nat,
                    pow2((p + 1) as nat) == 2 * pow2(p as nat),
                    ((t / 2) as nat) * 2 <= t as nat,
            ;
            assert(pow2((p + 1) as nat) <= a as nat) by (nonlinear_arith)
                requires
                    t as nat >= 2,
                    (t as nat) * pow2(p as nat) <= a as nat,
                    pow2((p + 1) as nat) == 2 * pow2(p as nat),
                    pow2(p as nat) > 0,
            ;
            lemma_pow2_pos(p as nat);
            lemma2_to64_rest();
            if p + 1 >= 64 {
                lemma_pow2_strictly_increases(63, (p + 1) as nat);
                assert(false);
            }
        }
        t = t / 2;
        p = p + 1;
    }
    proof {
        assert(msb_index(t as nat) == 0);
        assert(p as nat == msb_index(a as nat));
        lemma_msb_bounds(a as nat);
        lemma2_to64();
        lemma2_to64_rest();
        if p >= 64 {
            lemma_pow2_strictly_increases(63, p as nat);
            assert(false);
        }
    }

    let e_bits: u64;
    let frac: u64;
    if p <= 52 {
        let shift = 52 - p;
        let scale = pow2_u64(shift);
        proof {
            lemma_pow2_adds((p + 1) as nat, shift as nat);
            lemma_pow2_adds(p as nat, shift as nat);
            lemma2_to64_rest();
            assert((a as nat) * pow2(shift as nat) < pow2(53)) by (nonlinear_arith)
                requires
                    (a as nat) < pow2((p + 1) as nat),
                    pow2((p + 1) as nat) * pow2(shift as nat) == pow2(53),
                    pow2(shift as nat) > 0,
            ;
            assert((a as nat) * pow2(shift as nat) >= pow2(52)) by (nonlinear_arith)
                requires
                    (a as nat) >= pow2(p as nat),
                    pow2(p as nat) * pow2(shift as nat) == pow2(52),
            ;
        }
        let m = a * scale;
        frac = m - pow2_u64(52);
        e_bits = p + 1007;
    } else {
        let d = pow2_u64(p - 52);
        proof {
            lemma_pow2_pos((p - 52) as nat);
            lemma_pow2_strictly_increases((p - 52) as nat, 12);
            lemma2_to64();
        }
        let q0 = a / d;
        let rem = a % d;
        proof {
            lemma_fundamental_div_mod(a as int, d as int);
            lemma_pow2_adds(53, (p - 52) as nat);
            lemma2_to64_rest();
            // q0 < 2^53: otherwise a >= 2^53 * d == 2^(p+1).
            assert((q0 as nat) < pow2(53)) by (nonlinear_arith)
                requires
                    a as int == (d as int) * (q0 as int) + rem as int,
                    0 <= rem as int,
                    (rem as int) < (d as int),
                    (a as nat) < pow2((p + 1) as nat),
                    pow2(53) * pow2((p - 52) as nat) == pow2((p + 1) as nat),
                    d as nat == pow2((p - 52) as nat),
            ;
            // q0 >= 2^52 by monotonicity of division.
            lemma_pow2_subtracts((p - 52) as nat, p as nat);
            lemma_div_is_ordered(pow2(p as nat) as int, a as int, d as int);
        }
        let q = if 2 * rem > d {
            q0 + 1
        } else if 2 * rem < d {
            q0
        } else if q0 % 2 == 0 {
            q0
        } else {
            q0 + 1
        };
        let p53 = pow2_u64(53);
        if q == p53 {
            e_bits = p + 1008;
            frac = 0;
        } else {
            frac = q - pow2_u64(52);
            e_bits = p + 1007;
        }
    }

    proof {
        lemma2_to64_rest();
        assert((e_bits as nat) * pow2(52) <= 1071 * pow2(52)) by (nonlinear_arith)
            requires
                e_bits as nat <= 1071,
                pow2(52) > 0,
        ;
    }
    let bits = sign * 9223372036854775808u64 + e_bits * pow2_u64(52) + frac;
    bits
}

} // verus!
