//! Fixed-point arithmetic kernel.
//!
//! A quantity is an `i64` counting units of `1 / FX_ONE`. Products are
//! computed in `i128` and scaled back down with truncation toward zero,
//! so every operation here is exact integer arithmetic with a
//! mathematical definition that contracts elsewhere can reuse.

use vstd::prelude::*;

verus! {

/// The fixed-point scale: the representation of the real number 1.
pub const FX_ONE: i64 = 65536;

/// Half pi in fixed-point units.
pub const FX_HALF_PI: i64 = 102944;

/// Pi in fixed-point units.
pub const FX_PI: i64 = 205887;

/// Two pi in fixed-point units, exactly twice `FX_PI` so that reduction
/// modulo a full turn lands exactly on the half-turn boundary.
pub const FX_TWO_PI: i64 = 411774;

/// Magnitude of an integer.
pub open spec fn fx_abs(x: int) -> int {
    if x >= 0 {
        x
    } else {
        -x
    }
}

/// Division by the scale, truncating toward zero, so that scaling down
/// a negated product gives the negated result.
pub open spec fn fx_scale_down(p: int) -> int {
    if p >= 0 {
        p / (FX_ONE as int)
    } else {
        -((-p) / (FX_ONE as int))
    }
}

/// The fixed-point product of two quantities.
pub open spec fn fx_mul(a: int, b: int) -> int {
    fx_scale_down(a * b)
}

/// Half of a quantity, truncating toward zero.
pub open spec fn fx_half(a: int) -> int {
    if a >= 0 {
        a / 2
    } else {
        -((-a) / 2)
    }
}

proof fn lemma_i64_product_fits(a: int, b: int)
    by (nonlinear_arith)
    requires
        -0x8000_0000_0000_0000 <= a <= 0x7fff_ffff_ffff_ffff,
        -0x8000_0000_0000_0000 <= b <= 0x7fff_ffff_ffff_ffff,
    ensures
        -0x4000_0000_0000_0000_0000_0000_0000_0000 <= a * b
            <= 0x4000_0000_0000_0000_0000_0000_0000_0000,
{
}

/// Negating either factor negates the fixed-point product.
pub proof fn lemma_fx_mul_neg_left(a: int, b: int)
    ensures
        fx_mul(-a, b) == -fx_mul(a, b),
{
    assert((-a) * b == -(a * b)) by (nonlinear_arith);
}

/// The fixed-point product does not depend on the order of its
/// factors.
pub proof fn lemma_fx_mul_comm(a: int, b: int)
    ensures
        fx_mul(a, b) == fx_mul(b, a),
{
    assert(a * b == b * a) by (nonlinear_arith);
}

/// A factor of magnitude at most one scales the other factor down:
/// the product's magnitude never exceeds the other factor's.
pub proof fn lemma_fx_mul_unit_bound(a: int, b: int)
    requires
        -(FX_ONE as int) <= b <= FX_ONE as int,
    ensures
        -fx_abs(a) <= fx_mul(a, b) <= fx_abs(a),
{
    let s = FX_ONE as int;
    assert(-(fx_abs(a) * s) <= a * b <= fx_abs(a) * s) by (nonlinear_arith)
        requires
            -s <= b <= s,
            s == 65536,
    ;
    let p = a * b;
    if p >= 0 {
        assert(p / s <= (fx_abs(a) * s) / s) by {
            vstd::arithmetic::div_mod::lemma_div_is_ordered(p, fx_abs(a) * s, s);
        }
        assert((fx_abs(a) * s) / s == fx_abs(a)) by {
            vstd::arithmetic::div_mod::lemma_div_by_multiple(fx_abs(a), s);
        }
        assert(p / s >= 0) by {
            vstd::arithmetic::div_mod::lemma_div_is_ordered(0, p, s);
        }
    } else {
        assert((-p) / s <= (fx_abs(a) * s) / s) by {
            vstd::arithmetic::div_mod::lemma_div_is_ordered(-p, fx_abs(a) * s, s);
        }
        assert((fx_abs(a) * s) / s == fx_abs(a)) by {
            vstd::arithmetic::div_mod::lemma_div_by_multiple(fx_abs(a), s);
        }
        assert((-p) / s >= 0) by {
            vstd::arithmetic::div_mod::lemma_div_is_ordered(0, -p, s);
        }
    }
}

/// Fixed-point multiplication: the product scaled back down, truncating
/// toward zero.
pub fn mul_fx(a: i64, b: i64) -> (r: i64)
    requires
        -0x7fff_ffff_ffff_ffff <= fx_mul(a as int, b as int) <= 0x7fff_ffff_ffff_ffff,
    ensures
        r == fx_mul(a as int, b as int),
{
    proof {
        lemma_i64_product_fits(a as int, b as int);
    }
    let p: i128 = (a as i128) * (b as i128);
    if p >= 0 {
        let q: i128 = p / 65536;
        proof {
            vstd::arithmetic::div_mod::lemma_div_is_ordered(0, p as int, 65536);
            vstd::arithmetic::div_mod::lemma_div_is_ordered(p as int, 0x4000_0000_0000_0000_0000_0000_0000_0000, 65536);
        }
        q as i64
    } else {
        let q: i128 = (-p) / 65536;
        proof {
            vstd::arithmetic::div_mod::lemma_div_is_ordered(0, -p as int, 65536);
            vstd::arithmetic::div_mod::lemma_div_is_ordered(-p as int, 0x4000_0000_0000_0000_0000_0000_0000_0000, 65536);
        }
        -(q as i64)
    }
}

/// Half of a quantity, truncating toward zero.
pub fn half_fx(a: i64) -> (r: i64)
    requires
        a != i64::MIN,
    ensures
        r == fx_half(a as int),
{
    if a >= 0 {
        a / 2
    } else {
        -((-a) / 2)
    }
}

/// An angle reduced to `[0, FX_TWO_PI)` by floored (Euclidean) modulo:
/// a negative angle wraps to its positive equivalent.
pub fn fx_mod_two_pi(a: i64) -> (r: i64)
    ensures
        r == (a as int) % (FX_TWO_PI as int),
        0 <= r < FX_TWO_PI,
{
    let m: i64 = FX_TWO_PI;
    if a >= 0 {
        proof {
            vstd::arithmetic::div_mod::lemma_mod_bound(a as int, m as int);
        }
        a % m
    } else {
        let big: i128 = -(a as i128);
        proof {
            vstd::arithmetic::div_mod::lemma_mod_bound(big as int, m as int);
        }
        let t: i64 = (big % (m as i128)) as i64;
        proof {
            let mi = m as int;
            let neg = big as int;
            vstd::arithmetic::div_mod::lemma_fundamental_div_mod(neg, mi);
            let q = neg / mi;
            if t == 0 {
                assert(a as int == (-q) * mi + 0) by (nonlinear_arith)
                    requires
                        neg == q * mi + t,
                        t == 0,
                        a as int == -neg,
                ;
                vstd::arithmetic::div_mod::lemma_fundamental_div_mod_converse(a as int, mi, -q, 0);
            } else {
                assert(a as int == (-q - 1) * mi + (mi - t)) by (nonlinear_arith)
                    requires
                        neg == q * mi + t,
                        a as int == -neg,
                ;
                vstd::arithmetic::div_mod::lemma_fundamental_div_mod_converse(
                    a as int,
                    mi,
                    -q - 1,
                    mi - t,
                );
            }
        }
        if t == 0 {
            0
        } else {
            m - t
        }
    }
}

/// The rational sine approximation on a half turn, scaled to fixed
/// point and capped at one. Exact statement of what the kernel computes
/// for an angle already reduced to `[0, FX_PI]`.
pub open spec fn fx_sin_half_turn(x: int) -> int {
    let prod = x * (FX_PI - x);
    let num = 16 * prod;
    let den = 5 * FX_PI * FX_PI - 4 * prod;
    let q = (num * FX_ONE) / den;
    if q > FX_ONE {
        FX_ONE as int
    } else {
        q
    }
}

/// The fixed-point sine of an angle: the angle is reduced to a full
/// turn, the second half turn is the negated first one.
pub open spec fn fx_sin_spec(a: int) -> int {
    let x = a % (FX_TWO_PI as int);
    if x <= FX_PI {
        fx_sin_half_turn(x)
    } else {
        -fx_sin_half_turn(x - FX_PI)
    }
}

/// The fixed-point cosine: the sine a quarter turn ahead.
pub open spec fn fx_cos_spec(a: int) -> int {
    fx_sin_spec(a + FX_HALF_PI)
}

proof fn lemma_half_turn_product_bounds(x: int)
    by (nonlinear_arith)
    requires
        0 <= x <= FX_PI,
        (FX_PI as int) == 205887,
    ensures
        0 <= x * (FX_PI - x) <= 10597364192,
{
}

fn sin_half_turn(x: i64) -> (r: i64)
    requires
        0 <= x <= FX_PI,
    ensures
        r == fx_sin_half_turn(x as int),
        0 <= r <= FX_ONE,
{
    proof {
        lemma_half_turn_product_bounds(x as int);
    }
    assert(5 * (FX_PI as int) * (FX_PI as int) == 211947283845
        && (FX_PI as int) * (FX_PI as int) == 42389456769) by (nonlinear_arith)
        requires
            (FX_PI as int) == 205887,
    ;
    let xx: i128 = x as i128;
    let pp: i128 = FX_PI as i128;
    let prod: i128 = xx * (pp - xx);
    let num: i128 = 16 * prod;
    let den: i128 = 211947283845 - 4 * prod;
    let q: i128 = (num * 65536) / den;
    proof {
        vstd::arithmetic::div_mod::lemma_div_is_ordered(0, (num as int) * 65536, den as int);
    }
    if q > 65536 {
        65536
    } else {
        q as i64
    }
}

/// The fixed-point sine, defined for every angle; the result has
/// magnitude at most one.
pub fn fx_sin(a: i64) -> (r: i64)
    ensures
        r == fx_sin_spec(a as int),
        -FX_ONE <= r <= FX_ONE,
{
    let x = fx_mod_two_pi(a);
    if x <= FX_PI {
        sin_half_turn(x)
    } else {
        -sin_half_turn(x - FX_PI)
    }
}

/// The fixed-point cosine, defined for every angle; the result has
/// magnitude at most one.
pub fn fx_cos(a: i64) -> (r: i64)
    ensures
        r == fx_cos_spec(a as int),
        -FX_ONE <= r <= FX_ONE,
{
    let x = fx_mod_two_pi(a);
    proof {
        vstd::arithmetic::div_mod::lemma_mod_twice(a as int, FX_TWO_PI as int);
        vstd::arithmetic::div_mod::lemma_add_mod_noop(
            a as int % (FX_TWO_PI as int),
            FX_HALF_PI as int,
            FX_TWO_PI as int,
        );
        vstd::arithmetic::div_mod::lemma_add_mod_noop(
            a as int,
            FX_HALF_PI as int,
            FX_TWO_PI as int,
        );
    }
    fx_sin(x + FX_HALF_PI)
}

} // verus!
