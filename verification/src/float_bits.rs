//! Float64 values as their bit patterns.
//!
//! A float64 travels through this library as the `u64` of its IEEE 754
//! encoding. What a bit pattern denotes is given as an exact integer: every
//! finite float64 is a whole number of units of 2^-1074, and [`scaled`] is
//! that number of units.

use vstd::arithmetic::div_mod::{lemma_fundamental_div_mod, lemma_fundamental_div_mod_converse};
use vstd::arithmetic::mul::{lemma_mul_is_associative, lemma_mul_strict_inequality};
use vstd::arithmetic::power2::{
    lemma2_to64, lemma2_to64_rest, lemma_pow2_adds, lemma_pow2_pos, lemma_pow2_strictly_increases,
    lemma_pow2_unfold, pow2,
};
use vstd::prelude::*;

verus! {

/// Is the sign bit set?
pub open spec fn negative(bits: u64) -> bool {
    bits >= 0x8000_0000_0000_0000
}

/// The biased exponent field.
pub open spec fn exponent_field(bits: u64) -> nat {
    ((bits as nat) / 0x10_0000_0000_0000) % 2048
}

/// The stored fraction field.
pub open spec fn fraction_field(bits: u64) -> nat {
    (bits as nat) % 0x10_0000_0000_0000
}

/// Neither an infinity nor a NaN.
pub open spec fn is_finite(bits: u64) -> bool {
    exponent_field(bits) != 2047
}

/// The significand, with the implicit leading bit of a normal number.
pub open spec fn significand(bits: u64) -> nat {
    if exponent_field(bits) == 0 {
        fraction_field(bits)
    } else {
        0x10_0000_0000_0000 + fraction_field(bits)
    }
}

/// The exponent by which the significand is scaled, counted from the
/// smallest one.
pub open spec fn scale(bits: u64) -> nat {
    if exponent_field(bits) == 0 {
        0
    } else {
        (exponent_field(bits) - 1) as nat
    }
}

/// The absolute value of a finite float64, in units of 2^-1074.
pub open spec fn magnitude(bits: u64) -> nat {
    significand(bits) * pow2(scale(bits))
}

/// The value of a finite float64, in units of 2^-1074.
pub open spec fn scaled(bits: u64) -> int {
    if negative(bits) {
        -(magnitude(bits) as int)
    } else {
        magnitude(bits) as int
    }
}

/// The number of units in 1.
pub open spec fn one() -> int {
    pow2(1074) as int
}

/// A finite float64 without a fractional part.
pub open spec fn is_whole(bits: u64) -> bool {
    is_finite(bits) && scaled(bits) % one() == 0
}

/// The integer that a whole float64 denotes.
pub open spec fn whole_value(bits: u64) -> int {
    scaled(bits) / one()
}

/// The largest magnitude up to which every integer is a float64: 2^53.
pub open spec fn exact_limit() -> int {
    0x20_0000_0000_0000
}

/// What a float64 is when it is asked to stand for an integer.
#[derive(Clone, Copy, Debug, PartialEq, Eq, Structural)]
pub enum Whole {
    /// An infinity or a NaN.
    NotFinite,
    /// A finite number with a fractional part.
    Fractional,
    /// A whole number beyond 2^53 in magnitude.
    Beyond,
    /// A whole number of at most 2^53 in magnitude.
    Exact(i64),
}

/// The classification that [`classify`] computes.
pub open spec fn classified(bits: u64) -> Whole {
    if !is_finite(bits) {
        Whole::NotFinite
    } else if !is_whole(bits) {
        Whole::Fractional
    } else if whole_value(bits) > exact_limit() || whole_value(bits) < -exact_limit() {
        Whole::Beyond
    } else {
        Whole::Exact(whole_value(bits) as i64)
    }
}

/// Neither an infinity nor a NaN?
pub fn finite(bits: u64) -> (b: bool)
    ensures
        b == is_finite(bits),
{
    (bits / 0x10_0000_0000_0000) % 2048 != 2047
}

/// 2 to the power `k`.
fn power_of_two(k: u64) -> (p: u64)
    requires
        k < 64,
    ensures
        p == pow2(k as nat),
{
    let mut p: u64 = 1;
    let mut i: u64 = 0;
    proof {
        lemma2_to64();
    }
    while i < k
        invariant
            i <= k < 64,
            p == pow2(i as nat),
        decreases k - i,
    {
        proof {
            lemma2_to64_rest();
            lemma_pow2_unfold((i + 1) as nat);
            if i + 1 < 63 {
                lemma_pow2_strictly_increases((i + 1) as nat, 63);
            }
        }
        p = p * 2;
        i += 1;
    }
    p
}

/// A multiple of 1, plus and minus.
proof fn lemma_whole_multiple(q: int)
    ensures
        (q * one()) % one() == 0,
        (q * one()) / one() == q,
        (-(q * one())) % one() == 0,
        (-(q * one())) / one() == -q,
{
    lemma_pow2_pos(1074);
    let d = one();
    lemma_fundamental_div_mod_converse(q * d, d, q, 0);
    assert(-(q * d) == (-q) * d) by (nonlinear_arith);
    lemma_fundamental_div_mod_converse((-q) * d, d, -q, 0);
}

/// A number strictly between two multiples of 1, plus and minus.
proof fn lemma_not_whole(m: int, q: int, r: int)
    requires
        m == q * one() + r,
        0 < r < one(),
    ensures
        m % one() != 0,
        (-m) % one() != 0,
{
    let d = one();
    lemma_fundamental_div_mod_converse(m, d, q, r);
    assert(-m == (-q - 1) * d + (d - r)) by (nonlinear_arith)
        requires
            m == q * d + r,
    ;
    lemma_fundamental_div_mod_converse(-m, d, -q - 1, d - r);
}

/// A float64 whose scale reaches 1 is whole.
proof fn lemma_large_scale(bits: u64)
    requires
        is_finite(bits),
        scale(bits) >= 1074,
    ensures
        magnitude(bits) == (significand(bits) * pow2((scale(bits) - 1074) as nat)) * one(),
{
    let k = (scale(bits) - 1074) as nat;
    lemma_pow2_adds(k, 1074);
    lemma_mul_is_associative(significand(bits) as int, pow2(k) as int, pow2(1074) as int);
}

/// Below the scale of 1, a float64 is its significand split at the point.
proof fn lemma_small_scale(bits: u64, shift: nat)
    requires
        is_finite(bits),
        scale(bits) + shift == 1074,
    ensures
        magnitude(bits) == (significand(bits) / pow2(shift)) * one() + (significand(bits) % pow2(
            shift,
        )) * pow2(scale(bits)),
        0 <= (significand(bits) % pow2(shift)) * pow2(scale(bits)) < one(),
        (significand(bits) % pow2(shift)) * pow2(scale(bits)) == 0 <==> significand(bits) % pow2(
            shift,
        ) == 0,
{
    let s = significand(bits) as int;
    let p = pow2(shift) as int;
    let u = pow2(scale(bits)) as int;
    lemma_pow2_pos(shift);
    lemma_pow2_pos(scale(bits));
    lemma_pow2_adds(scale(bits), shift);
    lemma_fundamental_div_mod(s, p);
    assert(u * p == one());
    assert(s * u == (s / p) * (u * p) + (s % p) * u) by (nonlinear_arith)
        requires
            s == p * (s / p) + (s % p),
    ;
    assert(0 <= (s % p) * u < u * p) by (nonlinear_arith)
        requires
            0 <= s % p < p,
            u > 0,
    ;
    assert((s % p) * u == 0 <==> s % p == 0) by (nonlinear_arith)
        requires
            u > 0,
    ;
}

/// Decide which of the four a float64 is.
pub fn classify(bits: u64) -> (w: Whole)
    ensures
        w == classified(bits),
{
    let exponent: u64 = (bits / 0x10_0000_0000_0000) % 2048;
    let fraction: u64 = bits % 0x10_0000_0000_0000;
    if exponent == 2047 {
        return Whole::NotFinite;
    }
    let sig: u64 = if exponent == 0 {
        fraction
    } else {
        0x10_0000_0000_0000 + fraction
    };
    let sc: u64 = if exponent == 0 {
        0
    } else {
        exponent - 1
    };
    assert(sig == significand(bits) && sc == scale(bits));
    proof {
        lemma2_to64();
        lemma2_to64_rest();
        lemma_pow2_pos(1074);
    }
    if sc > 1075 {
        proof {
            let k = (sc - 1074) as nat;
            lemma_large_scale(bits);
            lemma_whole_multiple((sig * pow2(k)) as int);
            if k > 2 {
                lemma_pow2_strictly_increases(2, k);
            }
            assert(sig * pow2(k) >= 0x10_0000_0000_0000 * 4) by (nonlinear_arith)
                requires
                    sig >= 0x10_0000_0000_0000,
                    pow2(k) >= 4,
            ;
        }
        return Whole::Beyond;
    }
    let value: u64 = if sc >= 1074 {
        proof {
            lemma_large_scale(bits);
            let k = (sc - 1074) as nat;
            lemma_whole_multiple((sig * pow2(k)) as int);
            if k == 0 {
                assert(sig * pow2(k) == sig) by (nonlinear_arith)
                    requires
                        pow2(k) == 1,
                ;
            } else {
                assert(sig * pow2(k) == 2 * sig) by (nonlinear_arith)
                    requires
                        pow2(k) == 2,
                ;
            }
        }
        if sc == 1074 {
            sig
        } else {
            2 * sig
        }
    } else {
        let shift: u64 = 1074 - sc;
        proof {
            lemma_small_scale(bits, shift as nat);
        }
        if sig == 0 {
            proof {
                lemma_whole_multiple(0);
                assert(magnitude(bits) == 0) by (nonlinear_arith)
                    requires
                        magnitude(bits) == significand(bits) * pow2(scale(bits)),
                        significand(bits) == 0,
                ;
            }
            0
        } else if shift >= 53 {
            proof {
                if shift > 53 {
                    lemma_pow2_strictly_increases(53, shift as nat);
                }
                let p = pow2(shift as nat) as int;
                lemma_fundamental_div_mod_converse(sig as int, p, 0, sig as int);
                lemma_not_whole(
                    magnitude(bits) as int,
                    0,
                    ((significand(bits) % pow2(shift as nat)) * pow2(scale(bits))) as int,
                );
            }
            return Whole::Fractional;
        } else {
            let p: u64 = power_of_two(shift);
            proof {
                lemma_pow2_pos(shift as nat);
            }
            if sig % p != 0 {
                proof {
                    lemma_not_whole(
                        magnitude(bits) as int,
                        (sig / p) as int,
                        ((significand(bits) % pow2(shift as nat)) * pow2(scale(bits))) as int,
                    );
                }
                return Whole::Fractional;
            }
            proof {
                lemma_whole_multiple((sig / p) as int);
                assert(sig / p <= sig) by (nonlinear_arith)
                    requires
                        p > 0,
                ;
                assert(magnitude(bits) == (sig / p) * one());
            }
            sig / p
        }
    };
    assert(magnitude(bits) == value * one());
    assert(whole_value(bits) == if negative(bits) { -(value as int) } else { value as int });
    if value > 0x20_0000_0000_0000 {
        Whole::Beyond
    } else if bits >= 0x8000_0000_0000_0000 {
        Whole::Exact(-(value as i64))
    } else {
        Whole::Exact(value as i64)
    }
}

/// The bit pattern without its sign.
pub open spec fn unsigned_bits(bits: u64) -> nat {
    (bits as nat) % 0x8000_0000_0000_0000
}

/// Without their signs, finite bit patterns order as the magnitudes do.
proof fn lemma_magnitude_order(a: u64, b: u64)
    requires
        is_finite(a),
        is_finite(b),
        unsigned_bits(a) < unsigned_bits(b),
    ensures
        magnitude(a) < magnitude(b),
{
    let (ea, eb) = (exponent_field(a), exponent_field(b));
    let (sa, sb) = (significand(a) as int, significand(b) as int);
    let (ua, ub) = (pow2(scale(a)) as int, pow2(scale(b)) as int);
    lemma2_to64();
    lemma_pow2_pos(scale(a));
    lemma_pow2_pos(scale(b));
    assert(ea * 0x10_0000_0000_0000 + fraction_field(a) == unsigned_bits(a));
    assert(eb * 0x10_0000_0000_0000 + fraction_field(b) == unsigned_bits(b));
    if ea == eb {
        lemma_mul_strict_inequality(sa, sb, ua);
    } else if ea == 0 && eb == 1 {
        lemma_mul_strict_inequality(sa, sb, ua);
    } else {
        assert(scale(a) < scale(b));
        lemma_pow2_unfold((scale(a) + 1) as nat);
        if scale(a) + 1 < scale(b) {
            lemma_pow2_strictly_increases((scale(a) + 1) as nat, scale(b));
        }
        assert(ub >= 2 * ua);
        assert(sa * ua < sb * ub) by (nonlinear_arith)
            requires
                0 <= sa < 0x20_0000_0000_0000,
                sb >= 0x10_0000_0000_0000,
                ua > 0,
                ub >= 2 * ua,
        ;
    }
}

/// Equal patterns without their signs have equal magnitudes.
proof fn lemma_magnitude_same(a: u64, b: u64)
    requires
        unsigned_bits(a) == unsigned_bits(b),
    ensures
        magnitude(a) == magnitude(b),
{
    assert(exponent_field(a) == (unsigned_bits(a) / 0x10_0000_0000_0000) % 2048);
    assert(exponent_field(b) == (unsigned_bits(b) / 0x10_0000_0000_0000) % 2048);
    assert(fraction_field(a) == unsigned_bits(a) % 0x10_0000_0000_0000);
    assert(fraction_field(b) == unsigned_bits(b) % 0x10_0000_0000_0000);
}

/// A magnitude is zero only for the two zero patterns.
proof fn lemma_magnitude_zero(a: u64)
    requires
        is_finite(a),
    ensures
        magnitude(a) == 0 <==> unsigned_bits(a) == 0,
{
    lemma_pow2_pos(scale(a));
    if unsigned_bits(a) == 0 {
        assert(magnitude(a) == 0) by (nonlinear_arith)
            requires
                magnitude(a) == significand(a) * pow2(scale(a)),
                significand(a) == 0,
        ;
    } else {
        assert(exponent_field(a) == (unsigned_bits(a) / 0x10_0000_0000_0000) % 2048);
        assert(magnitude(a) > 0) by (nonlinear_arith)
            requires
                magnitude(a) == significand(a) * pow2(scale(a)),
                significand(a) > 0,
                pow2(scale(a)) > 0,
        ;
    }
}

/// `a < b` on two finite float64 values.
pub fn less(a: u64, b: u64) -> (r: bool)
    requires
        is_finite(a),
        is_finite(b),
    ensures
        r == (scaled(a) < scaled(b)),
{
    let ua: u64 = a % 0x8000_0000_0000_0000;
    let ub: u64 = b % 0x8000_0000_0000_0000;
    let na: bool = a >= 0x8000_0000_0000_0000;
    let nb: bool = b >= 0x8000_0000_0000_0000;
    proof {
        lemma_magnitude_zero(a);
        lemma_magnitude_zero(b);
        if ua < ub {
            lemma_magnitude_order(a, b);
        } else if ub < ua {
            lemma_magnitude_order(b, a);
        } else {
            lemma_magnitude_same(a, b);
        }
    }
    if na && nb {
        ub < ua
    } else if na {
        ua != 0 || ub != 0
    } else if nb {
        false
    } else {
        ua < ub
    }
}

/// `a < 0` on a finite float64.
pub fn below_zero(a: u64) -> (r: bool)
    requires
        is_finite(a),
    ensures
        r == (scaled(a) < 0),
{
    proof {
        lemma_magnitude_zero(a);
    }
    a > 0x8000_0000_0000_0000
}

/// `a > 0` on a finite float64.
pub fn above_zero(a: u64) -> (r: bool)
    requires
        is_finite(a),
    ensures
        r == (scaled(a) > 0),
{
    proof {
        lemma_magnitude_zero(a);
    }
    0 < a && a < 0x8000_0000_0000_0000
}

/// The bit pattern of 1.
pub const ONE: u64 = 0x3FF0_0000_0000_0000;

/// [`ONE`] denotes 1.
pub proof fn lemma_one()
    ensures
        is_finite(ONE),
        scaled(ONE) == one(),
{
    lemma2_to64_rest();
    lemma_pow2_adds(52, 1022);
}

/// `0 <= a <= 1` on any float64: false of an infinity and of a NaN.
pub fn in_unit_interval(a: u64) -> (r: bool)
    ensures
        r == (is_finite(a) && 0 <= scaled(a) <= one()),
{
    proof {
        lemma_one();
    }
    finite(a) && !below_zero(a) && !less(ONE, a)
}

/// A pattern is finite exactly where, without its sign, it stands below that
/// of infinity.
pub proof fn law_finite_patterns(bits: u64)
    ensures
        is_finite(bits) <==> unsigned_bits(bits) < 0x7FF0_0000_0000_0000,
        bits < 0x7FF0_0000_0000_0000 ==> is_finite(bits),
        0x7FF0_0000_0000_0000 <= bits < 0x8000_0000_0000_0000 ==> !is_finite(bits),
{
}

/// Patterns of the same sign order as their values do, and the order turns
/// with the sign.
pub proof fn law_patterns_order_as_values(a: u64, b: u64)
    requires
        a < b < 0x7FF0_0000_0000_0000,
    ensures
        0 <= scaled(a) < scaled(b),
        scaled((b + 0x8000_0000_0000_0000) as u64) < scaled((a + 0x8000_0000_0000_0000) as u64)
            <= 0,
{
    law_finite_patterns(a);
    law_finite_patterns(b);
    lemma_magnitude_order(a, b);
    law_sign_turns_the_value(a);
    law_sign_turns_the_value(b);
}

/// Setting the sign bit turns a value into its opposite.
pub proof fn law_sign_turns_the_value(bits: u64)
    requires
        bits < 0x8000_0000_0000_0000,
    ensures
        scaled((bits + 0x8000_0000_0000_0000) as u64) == -scaled(bits),
        is_finite((bits + 0x8000_0000_0000_0000) as u64) <==> is_finite(bits),
{
    let other = (bits + 0x8000_0000_0000_0000) as u64;
    assert(unsigned_bits(other) == unsigned_bits(bits));
    lemma_magnitude_same(other, bits);
    law_finite_patterns(bits);
    law_finite_patterns(other);
}

/// The smallest patterns count the units one by one.
pub proof fn law_small_patterns_count_units(bits: u64)
    requires
        bits < 0x20_0000_0000_0000,
    ensures
        scaled(bits) == bits,
{
    lemma2_to64();
    assert(pow2(0) == 1);
    assert(scale(bits) == 0);
    assert(magnitude(bits) == significand(bits) * 1);
}

/// One more in the exponent doubles a value.
pub proof fn law_exponent_doubles_the_value(bits: u64)
    requires
        0x10_0000_0000_0000 <= bits < 0x7FE0_0000_0000_0000,
    ensures
        is_finite((bits + 0x10_0000_0000_0000) as u64),
        scaled((bits + 0x10_0000_0000_0000) as u64) == 2 * scaled(bits),
{
    let next = (bits + 0x10_0000_0000_0000) as u64;
    assert(fraction_field(next) == fraction_field(bits));
    assert(exponent_field(next) == exponent_field(bits) + 1);
    assert(scale(next) == scale(bits) + 1);
    lemma_pow2_unfold(scale(next));
    let s = significand(bits) as int;
    let p = pow2(scale(bits)) as int;
    assert(s * (2 * p) == 2 * (s * p)) by (nonlinear_arith);
}

/// A float64 stands for a whole number exactly where its value is that number
/// of ones and no more than 2^53; it is fractional where its value is no
/// number of ones.
pub proof fn law_whole_numbers_are_told(bits: u64, n: int)
    ensures
        classified(bits) is NotFinite <==> !is_finite(bits),
        is_finite(bits) && scaled(bits) == n * one() ==> match classified(bits) {
            Whole::Exact(v) => v == n && -0x20_0000_0000_0000 <= n <= 0x20_0000_0000_0000,
            Whole::Beyond => n < -0x20_0000_0000_0000 || n > 0x20_0000_0000_0000,
            _ => false,
        },
        classified(bits) matches Whole::Exact(v) ==> scaled(bits) == v * one(),
        classified(bits) is Fractional ==> is_finite(bits) && scaled(bits) != n * one(),
{
    lemma_whole_multiple(n);
    lemma_pow2_pos(1074);
    lemma_fundamental_div_mod(scaled(bits), one());
    if let Whole::Exact(v) = classified(bits) {
        assert(one() * whole_value(bits) == whole_value(bits) * one()) by (nonlinear_arith);
    }
}

} // verus!
