//! Gray-body radiative balance: from a local albedo to a local temperature.
//!
//! The physical law is `T = (S * L / SB * (1 - albedo))^(1/4)`. In the
//! fixed-point scale, the flux under the root is `RAD_NUM * (UNIT - albedo)
//! / RAD_DEN`, and its integer fourth root is the temperature in
//! millikelvin.

use vstd::prelude::*;

use crate::params::{HALF, RAD_DEN, RAD_NUM, UNIT};

verus! {

/// `n` to the fourth power.
pub open spec fn pow4(n: int) -> int {
    n * n * n * n
}

/// `r` is the integer fourth root of `x`: the largest integer whose fourth
/// power does not exceed `x`.
pub open spec fn is_fourth_root_of(r: int, x: int) -> bool {
    pow4(r) <= x < pow4(r + 1)
}

/// The scaled radiative flux seen by a cell of local albedo `la` (in
/// millionths): the darker the ground, the larger the flux.
pub open spec fn spec_flux(la: int) -> int {
    (RAD_NUM as int) * (UNIT - la) / (RAD_DEN as int)
}

/// `t` millikelvin is the local radiative-equilibrium temperature for local
/// albedo `la` millionths.
pub open spec fn spec_is_temp(la: int, t: int) -> bool {
    is_fourth_root_of(t, spec_flux(la))
}

/// The fourth power does not decrease on the nonnegative integers.
pub proof fn lemma_pow4_le(a: int, b: int)
    by (nonlinear_arith)
    requires
        0 <= a <= b,
    ensures
        pow4(a) <= pow4(b),
{
}

/// A nonnegative integer has at most one integer fourth root.
pub proof fn lemma_fourth_root_unique(r1: int, r2: int, x: int)
    requires
        0 <= r1,
        0 <= r2,
        is_fourth_root_of(r1, x),
        is_fourth_root_of(r2, x),
    ensures
        r1 == r2,
{
    if r1 < r2 {
        lemma_pow4_le(r1 + 1, r2);
    }
    if r2 < r1 {
        lemma_pow4_le(r2 + 1, r1);
    }
}

/// The bare-ground law: at the bare-ground albedo of one half, the
/// radiative balance comes to 299.874 K exactly, so the temperature of a
/// cell whose whole neighbourhood is bare ground is pinned to that value.
pub proof fn lemma_bare_ground_temperature(t: u64)
    requires
        spec_is_temp(HALF as int, t as int),
    ensures
        t == 299_874,
{
    assert(spec_flux(HALF as int) == 8_086_419_753_086_419_753_086int);
    assert(pow4(299_874) <= 8_086_419_753_086_419_753_086int < pow4(299_875))
        by (nonlinear_arith);
    lemma_fourth_root_unique(t as int, 299_874, spec_flux(HALF as int));
}

/// The integer fourth root, by binary search.
pub fn fourth_root(x: u128) -> (r: u64)
    ensures
        is_fourth_root_of(r as int, x as int),
        r < 0x1_0000_0000,
{
    let mut lo: u64 = 0;
    let mut hi: u64 = 0x1_0000_0000;
    proof {
        assert(pow4(0x1_0000_0000) == 0x1_0000_0000_0000_0000_0000_0000_0000_0000)
            by (nonlinear_arith);
    }
    while hi - lo > 1
        invariant
            lo < hi <= 0x1_0000_0000,
            pow4(lo as int) <= x as int,
            (x as int) < pow4(hi as int),
        decreases hi - lo,
    {
        let mid: u64 = lo + (hi - lo) / 2;
        let m: u128 = mid as u128;
        assert(m * m < 0x1_0000_0000_0000_0000) by (nonlinear_arith)
            requires
                m < 0x1_0000_0000,
        ;
        let m2: u128 = m * m;
        assert(m2 * m2 < 0x1_0000_0000_0000_0000_0000_0000_0000_0000) by (nonlinear_arith)
            requires
                m2 < 0x1_0000_0000_0000_0000,
        ;
        let m4: u128 = m2 * m2;
        assert((m2 as int) * (m2 as int) == pow4(mid as int)) by (nonlinear_arith)
            requires
                (m2 as int) == (mid as int) * (mid as int),
        ;
        if m4 <= x {
            lo = mid;
        } else {
            hi = mid;
        }
    }
    lo
}

/// The local radiative-equilibrium temperature, in millikelvin, for a local
/// albedo in millionths.
pub fn temperature_from_albedo(la: u64) -> (t: u64)
    requires
        la <= UNIT,
    ensures
        spec_is_temp(la as int, t as int),
{
    let d: u128 = (UNIT - la) as u128;
    assert((RAD_NUM as int) * (d as int) <= 9_170_000_000_000_000_000 * 1_000_000)
        by (nonlinear_arith)
        requires
            (RAD_NUM as int) == 9_170_000_000_000_000_000,
            0 <= (d as int) <= 1_000_000,
    ;
    let flux: u128 = RAD_NUM * d / RAD_DEN;
    fourth_root(flux)
}

} // verus!
