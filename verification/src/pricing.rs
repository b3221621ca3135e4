//! Price arithmetic shared by the push-based and the pull-based engine:
//! deviation in basis points, the confidence score and the weighted average.

use vstd::prelude::*;
use vstd::arithmetic::div_mod::{
    lemma_div_pos_is_pos,
    lemma_fundamental_div_mod,
    lemma_fundamental_div_mod_converse_div,
    lemma_mod_pos_bound,
};

verus! {

/// Distance between two integers.
pub open spec fn abs_diff(a: int, b: int) -> int {
    if a >= b {
        a - b
    } else {
        b - a
    }
}

/// Magnitude of an integer.
pub open spec fn magnitude(a: int) -> int {
    if a >= 0 {
        a
    } else {
        -a
    }
}

/// Quotient of `a` by a positive `d`, rounded toward zero.
pub open spec fn quotient_toward_zero(a: int, d: int) -> int {
    if a >= 0 {
        a / d
    } else {
        -((-a) / d)
    }
}

/// Deviation of `new_price` from `old_price` in basis points, measured against
/// the magnitude of the baseline. A zero baseline counts as a full deviation.
pub open spec fn deviation_bps(new_price: int, old_price: int) -> int {
    if old_price == 0 {
        10000
    } else {
        abs_diff(new_price, old_price) * 10000 / magnitude(old_price)
    }
}

/// The deviation as the engine reports it: capped at the largest `u32`.
pub open spec fn deviation_bps_capped(new_price: int, old_price: int) -> int {
    let d = deviation_bps(new_price, old_price);
    if d > u32::MAX as int {
        u32::MAX as int
    } else {
        d
    }
}

/// Confidence score of an aggregate built from `valid` of `total` sources:
/// the share of sources that contributed, in percent, plus ten points when at
/// least three contributed, capped at 100. Without any source it is 0.
pub open spec fn confidence_score(valid: int, total: int) -> int {
    if total == 0 {
        0
    } else {
        let raw = valid * 100 / total + if valid >= 3 { 10int } else { 0int };
        if raw > 100 {
            100
        } else {
            raw
        }
    }
}

/// `|a - b|` of two signed 128-bit integers, which always fits unsigned.
pub fn distance(a: i128, b: i128) -> (d: u128)
    ensures
        d as int == abs_diff(a as int, b as int),
{
    let hi: i128 = if a >= b { a } else { b };
    let lo: i128 = if a >= b { b } else { a };
    if lo >= 0 || hi < 0 {
        (hi - lo) as u128
    } else {
        (hi as u128) + unsigned_magnitude(lo)
    }
}

/// `|a|` of a signed 128-bit integer, which always fits unsigned.
pub fn unsigned_magnitude(a: i128) -> (m: u128)
    ensures
        m as int == magnitude(a as int),
{
    if a >= 0 {
        a as u128
    } else {
        ((-(a + 1)) as u128) + 1
    }
}

/// A number is its quotient times the divisor plus its remainder, and the
/// remainder is below the divisor.
pub proof fn lemma_quotient_and_rest(x: int, d: int)
    requires
        0 <= x,
        0 < d,
    ensures
        x == (x / d) * d + x % d,
        0 <= x % d < d,
        0 <= x / d,
{
    lemma_fundamental_div_mod(x, d);
    lemma_mod_pos_bound(x, d);
    lemma_div_pos_is_pos(x, d);
    assert(d * (x / d) == (x / d) * d) by (nonlinear_arith);
}

/// Largest magnitude of a signed 128-bit integer.
pub const MAGNITUDE_LIMIT: u128 = 0x8000_0000_0000_0000_0000_0000_0000_0000u128;

/// Largest total weight that the exact average is computed for: more than
/// any list of `u32` weights in memory adds up to.
pub const WEIGHT_LIMIT: u128 = 0x1_0000_0000_0000_0000_0000_0000u128;

/// Adds `m * w` to a sum that is held as quotient `q` and remainder `r` by
/// `total`, without ever forming the sum itself.
pub fn add_scaled(q: u128, r: u128, m: u128, w: u32, total: u128) -> (out: (u128, u128))
    requires
        0 < total <= WEIGHT_LIMIT,
        r < total,
        w <= total,
        q as int * total as int + r as int + m as int * w as int <= MAGNITUDE_LIMIT as int
            * total as int,
    ensures
        out.0 as int * total as int + out.1 as int == q as int * total as int + r as int
            + m as int * w as int,
        out.1 < total,
{
    let a: u128 = m / total;
    let c: u128 = m % total;
    let ghost big = total as int;
    proof {
        lemma_quotient_and_rest(m as int, big);
        assert(a as int * w as int <= m as int) by (nonlinear_arith)
            requires
                m as int == a as int * big + c as int,
                0 <= c as int,
                0 <= w as int <= big,
                0 <= a as int,
        ;
        assert(c as int * w as int <= (big - 1) * 0xFFFF_FFFF) by (nonlinear_arith)
            requires
                0 <= (c as int) < big,
                0 <= w as int <= 0xFFFF_FFFF,
        ;
        assert(m as int * w as int >= 0) by (nonlinear_arith)
            requires
                m as int >= 0,
                w as int >= 0,
        ;
        assert(q as int * big >= 0) by (nonlinear_arith)
            requires
                q as int >= 0,
                big > 0,
        ;
    }
    let r2: u128 = r + c * (w as u128);
    let k: u128 = r2 / total;
    let r3: u128 = r2 % total;
    proof {
        lemma_quotient_and_rest(r2 as int, big);
        let next = q as int + a as int * w as int + k as int;
        assert(next * big + r3 as int == q as int * big + r as int + m as int * w as int)
            by (nonlinear_arith)
            requires
                m as int == a as int * big + c as int,
                r2 as int == r as int + c as int * w as int,
                r2 as int == k as int * big + r3 as int,
                next == q as int + a as int * w as int + k as int,
        ;
        assert(next <= MAGNITUDE_LIMIT as int) by (nonlinear_arith)
            requires
                next * big + r3 as int <= MAGNITUDE_LIMIT as int * big,
                0 <= r3 as int,
                big > 0,
        ;
    }
    (q + a * (w as u128) + k, r3)
}

/// Quotient and remainder of `r * m` by `b`, computed without leaving 128 bits.
fn scaled_div_rem(r: u128, m: u32, b: u128) -> (out: (u128, u128))
    requires
        r < b,
        b <= 0x8000_0000_0000_0000_0000_0000_0000_0000u128,
    ensures
        r as int * m as int == out.0 as int * b as int + out.1 as int,
        out.1 < b,
        out.0 <= m,
    decreases m,
{
    if m == 0 {
        return (0, 0);
    }
    let half: u32 = m / 2;
    let (q1, r1) = scaled_div_rem(r, half, b);
    let mut q: u128 = 2 * q1;
    let mut rem: u128 = 2 * r1;
    if rem >= b {
        rem = rem - b;
        q = q + 1;
    }
    proof {
        assert(r as int * (2 * half as int) == q as int * b as int + rem as int)
            by (nonlinear_arith)
            requires
                r as int * half as int == q1 as int * b as int + r1 as int,
                (q as int == 2 * q1 as int && rem as int == 2 * r1 as int) || (q as int == 2
                    * q1 as int + 1 && rem as int == 2 * r1 as int - b as int),
        ;
    }
    let ghost q0 = q as int;
    let ghost rem0 = rem as int;
    if m % 2 == 1 {
        rem = rem + r;
        if rem >= b {
            rem = rem - b;
            q = q + 1;
        }
        proof {
            assert(r as int * m as int == q as int * b as int + rem as int)
                by (nonlinear_arith)
                requires
                    m as int == 2 * half as int + 1,
                    r as int * (2 * half as int) == q0 * b as int + rem0,
                    (q as int == q0 && rem as int == rem0 + r as int) || (q as int == q0 + 1
                        && rem as int == rem0 + r as int - b as int),
            ;
        }
    }
    proof {
        assert(q as int <= m as int) by (nonlinear_arith)
            requires
                r as int * m as int == q as int * b as int + rem as int,
                0 <= rem as int,
                0 <= (r as int) < b as int,
                0 <= m as int,
                0 <= q as int,
        ;
    }
    (q, rem)
}

/// Deviation of `new_price` from `old_price` in basis points. A zero baseline
/// yields 10000, so that it always trips protection. The result is exact for
/// every pair of prices; a deviation beyond the range of `u32` is reported as
/// `u32::MAX`.
pub fn calculate_deviation_bps(new_price: i128, old_price: i128) -> (bps: u32)
    ensures
        bps as int == deviation_bps_capped(new_price as int, old_price as int),
{
    if old_price == 0 {
        return 10000;
    }
    let d: u128 = distance(new_price, old_price);
    let b: u128 = unsigned_magnitude(old_price);
    let q: u128 = d / b;
    let r: u128 = d % b;
    let (t, rest) = scaled_div_rem(r, 10000, b);
    proof {
        let total = q as int * 10000 + t as int;
        assert(d as int == q as int * b as int + r as int) by (nonlinear_arith)
            requires
                q as int == d as int / b as int,
                r as int == d as int % b as int,
                b as int > 0,
        ;
        assert(d as int * 10000 == total * b as int + rest as int) by (nonlinear_arith)
            requires
                d as int == q as int * b as int + r as int,
                r as int * 10000 == t as int * b as int + rest as int,
                total == q as int * 10000 + t as int,
        ;
        lemma_fundamental_div_mod_converse_div(d as int * 10000, b as int, total, rest as int);
        assert(deviation_bps(new_price as int, old_price as int) == total);
    }
    if q > 429496 {
        u32::MAX
    } else {
        let total: u128 = q * 10000 + t;
        if total > 0xFFFF_FFFFu128 {
            u32::MAX
        } else {
            total as u32
        }
    }
}

/// Confidence of an aggregate to which `valid` of `total` sources
/// contributed.
pub fn confidence_of(valid: usize, total: usize) -> (confidence: u32)
    ensures
        confidence as int == confidence_score(valid as int, total as int),
        confidence <= 100,
{
    if total == 0 {
        return 0;
    }
    let base: u128 = (valid as u128 * 100) / (total as u128);
    let bonus: u128 = if valid >= 3 { 10 } else { 0 };
    let raw: u128 = base + bonus;
    if raw > 100 {
        100
    } else {
        raw as u32
    }
}

/// Confidence of an aggregate to which `valid_sources` of `total_sources`
/// contributed.
pub fn calculate_confidence(valid_sources: u32, total_sources: u32) -> (confidence: u32)
    ensures
        confidence as int == confidence_score(valid_sources as int, total_sources as int),
        confidence <= 100,
{
    confidence_of(valid_sources as usize, total_sources as usize)
}

} // verus!
