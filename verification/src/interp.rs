//! Exact integer arithmetic for interpolated pointer motion.
//!
//! During a timed move the engine issues, at each tick, the difference
//! between the cumulative intended displacement `floor(d * t / total)` and
//! the displacement already applied, so rounding error never accumulates.
use vstd::prelude::*;

verus! {

use vstd::arithmetic::div_mod::{
    lemma_fundamental_div_mod,
    lemma_fundamental_div_mod_converse,
    lemma_div_is_ordered,
    lemma_div_multiples_vanish,
};
use vstd::arithmetic::mul::lemma_mul_inequality;

/// The cumulative intended displacement along one axis once `t` of `total`
/// milliseconds have elapsed: `floor(d * t / total)` (`/` on `int` rounds
/// toward minus infinity for a positive divisor).
pub open spec fn interp_at(d: int, t: int, total: int) -> int
    recommends
        0 < total,
{
    (d * t) / total
}

/// At the start of a move nothing has been applied yet.
pub proof fn lemma_interp_zero(d: int, total: int)
    requires
        0 < total,
    ensures
        interp_at(d, 0, total) == 0,
{
    assert(d * 0 == 0) by (nonlinear_arith);
}

/// Once the full move time has elapsed, the cumulative displacement is the
/// whole requested displacement, exactly: floor rounding causes no drift.
pub proof fn lemma_interp_total(d: int, total: int)
    requires
        0 < total,
    ensures
        interp_at(d, total, total) == d,
{
    assert(d * total == total * d) by (nonlinear_arith);
    lemma_div_multiples_vanish(d, total);
}

/// The cumulative displacement moves monotonically toward the target:
/// it never overshoots and never backs up.
pub proof fn lemma_interp_monotonic(d: int, t1: int, t2: int, total: int)
    requires
        0 < total,
        0 <= t1 <= t2,
    ensures
        d >= 0 ==> interp_at(d, t1, total) <= interp_at(d, t2, total),
        d < 0 ==> interp_at(d, t2, total) <= interp_at(d, t1, total),
{
    if d >= 0 {
        lemma_mul_inequality(t1, t2, d);
        assert(t1 * d == d * t1) by (nonlinear_arith);
        assert(t2 * d == d * t2) by (nonlinear_arith);
        lemma_div_is_ordered(d * t1, d * t2, total);
    } else {
        lemma_mul_inequality(-d, -d, t1);
        assert((-d) * t1 <= (-d) * t2) by (nonlinear_arith)
            requires
                -d >= 0 && t1 <= t2,
        ;
        assert((-d) * t1 == -(d * t1)) by (nonlinear_arith);
        assert((-d) * t2 == -(d * t2)) by (nonlinear_arith);
        lemma_div_is_ordered(d * t2, d * t1, total);
    }
}

/// The cumulative displacement always lies between zero and the full
/// displacement `d`, so it fits wherever `d` fits.
pub proof fn lemma_interp_bounds(d: int, t: int, total: int)
    requires
        0 < total,
        0 <= t <= total,
    ensures
        d >= 0 ==> 0 <= interp_at(d, t, total) <= d,
        d < 0 ==> d <= interp_at(d, t, total) <= 0,
{
    lemma_interp_zero(d, total);
    lemma_interp_total(d, total);
    lemma_interp_monotonic(d, 0, t, total);
    lemma_interp_monotonic(d, t, total, total);
}

/// Computes `floor(d * t / total)` exactly in integer arithmetic.
pub fn interp_step(d: i32, t: u64, total: u64) -> (r: i32)
    requires
        0 < total,
        t <= total,
    ensures
        r as int == interp_at(d as int, t as int, total as int),
{
    let magnitude: u64 = if d >= 0 {
        d as u64
    } else {
        (-(d as i64)) as u64
    };
    proof {
        assert((magnitude as int) * (t as int) <= 0x8000_0000 * 0xFFFF_FFFF_FFFF_FFFF)
            by (nonlinear_arith)
            requires
                magnitude <= 0x8000_0000u64 && t <= 0xFFFF_FFFF_FFFF_FFFFu64,
        ;
    }
    let num: u128 = (magnitude as u128) * (t as u128);
    let quot: u128 = num / (total as u128);
    let rem: u128 = num % (total as u128);
    proof {
        lemma_fundamental_div_mod(num as int, total as int);
        lemma_mul_inequality(t as int, total as int, magnitude as int);
        assert((t as int) * (magnitude as int) == (magnitude as int) * (t as int))
            by (nonlinear_arith);
        assert((total as int) * (magnitude as int) == (magnitude as int) * (total as int))
            by (nonlinear_arith);
        lemma_div_is_ordered(num as int, (magnitude as int) * (total as int), total as int);
        lemma_div_multiples_vanish(magnitude as int, total as int);
        assert(quot <= magnitude);
        lemma_interp_bounds(d as int, t as int, total as int);
    }
    if d >= 0 {
        proof {
            assert((d as int) * (t as int) == num as int) by (nonlinear_arith)
                requires
                    d >= 0 && magnitude == d && num == (magnitude as int) * (t as int),
            ;
        }
        quot as i32
    } else if rem == 0 {
        proof {
            assert((d as int) * (t as int) == (-(quot as int)) * (total as int) + 0)
                by (nonlinear_arith)
                requires
                    d < 0 && magnitude == -(d as int)
                        && num == (magnitude as int) * (t as int)
                        && num == (total as int) * (quot as int) + (rem as int) && rem == 0,
            ;
            lemma_fundamental_div_mod_converse(
                (d as int) * (t as int),
                total as int,
                -(quot as int),
                0,
            );
        }
        (-(quot as i64)) as i32
    } else {
        proof {
            assert((d as int) * (t as int) == (-(quot as int) - 1) * (total as int) + (
            (total as int) - (rem as int))) by (nonlinear_arith)
                requires
                    d < 0 && magnitude == -(d as int)
                        && num == (magnitude as int) * (t as int)
                        && num == (total as int) * (quot as int) + (rem as int),
            ;
            lemma_fundamental_div_mod_converse(
                (d as int) * (t as int),
                total as int,
                -(quot as int) - 1,
                (total as int) - (rem as int),
            );
        }
        (-(quot as i64) - 1) as i32
    }
}

} // verus!
