//! The daisy phenotype and its pure reproduction rules.

use vstd::prelude::*;

use crate::params::{
    BLACK_ALBEDO, HALF, OPTIMAL_MILLIK, SEED_VOLATILITY, THRESHOLD_MILLIK, UNIT, WHITE_ALBEDO,
};
use crate::rng::RandomSource;

verus! {

/// A daisy phenotype. `albedo` is the cell's reflectivity in millionths of
/// the unit interval; `volatility` scales the mutation of an offspring's
/// albedo and is inherited unchanged down a lineage.
#[derive(Clone, Copy, Debug, PartialEq, Eq, Structural)]
pub struct Daisy {
    pub albedo: u64,
    pub volatility: u64,
}

/// The black seed phenotype: albedo 0.25, volatility 0.05.
pub open spec fn spec_black() -> Daisy {
    Daisy { albedo: BLACK_ALBEDO, volatility: SEED_VOLATILITY }
}

/// The white seed phenotype: albedo 0.75, volatility 0.05.
pub open spec fn spec_white() -> Daisy {
    Daisy { albedo: WHITE_ALBEDO, volatility: SEED_VOLATILITY }
}

/// Reproduction probability, in millionths, at `temperature` millikelvin:
/// zero at and beyond the band edges `OPTIMAL_MILLIK +- THRESHOLD_MILLIK`,
/// and inside the band a downward parabola peaking at one whole exactly at
/// the optimum.
pub open spec fn spec_reproduce_prob(temperature: int) -> int {
    let d = if temperature >= OPTIMAL_MILLIK {
        temperature - OPTIMAL_MILLIK
    } else {
        OPTIMAL_MILLIK - temperature
    };
    if d < THRESHOLD_MILLIK {
        UNIT - d * d * UNIT / (THRESHOLD_MILLIK * THRESHOLD_MILLIK)
    } else {
        0
    }
}

/// The albedo of the offspring of `parent` for mutation draw `r`: the
/// parent's albedo shifted by `volatility * (r - 1/2)` (all in millionths),
/// clamped to the unit interval.
pub open spec fn spec_offspring_albedo(parent: Daisy, r: u64) -> int {
    if r >= HALF {
        let inc = parent.volatility * (r - HALF) / (UNIT as int);
        if parent.albedo + inc > UNIT {
            UNIT as int
        } else {
            parent.albedo + inc
        }
    } else {
        let dec = parent.volatility * (HALF - r) / (UNIT as int);
        if dec >= parent.albedo {
            0
        } else if parent.albedo - dec > UNIT {
            UNIT as int
        } else {
            parent.albedo - dec
        }
    }
}

/// The offspring of `parent` for mutation draw `r`: mutated albedo, the
/// parent's volatility unchanged.
pub open spec fn spec_offspring(parent: Daisy, r: u64) -> Daisy {
    Daisy { albedo: spec_offspring_albedo(parent, r) as u64, volatility: parent.volatility }
}

/// Clamping law: an offspring's albedo lies in the unit interval whatever
/// the parent's albedo and volatility and whatever the mutation draw.
pub proof fn lemma_offspring_albedo_clamped(parent: Daisy, r: u64)
    ensures
        0 <= spec_offspring_albedo(parent, r) <= UNIT,
        spec_offspring(parent, r).albedo <= UNIT,
{
    if r >= HALF {
        assert(parent.volatility * (r - HALF) >= 0) by (nonlinear_arith)
            requires
                r >= HALF,
        ;
        assert(parent.volatility * (r - HALF) / (UNIT as int) >= 0) by (nonlinear_arith)
            requires
                parent.volatility * (r - HALF) >= 0,
        ;
    } else {
        assert(parent.volatility * (HALF - r) >= 0) by (nonlinear_arith)
            requires
                r < HALF,
        ;
        assert(parent.volatility * (HALF - r) / (UNIT as int) >= 0) by (nonlinear_arith)
            requires
                parent.volatility * (HALF - r) >= 0,
        ;
    }
}

/// Boundary law: reproduction probability is one whole exactly at the
/// optimal temperature, and zero at and beyond the band edges.
pub proof fn lemma_reproduce_prob_boundary(temperature: int)
    ensures
        spec_reproduce_prob(OPTIMAL_MILLIK as int) == UNIT,
        temperature - OPTIMAL_MILLIK >= THRESHOLD_MILLIK ==> spec_reproduce_prob(temperature)
            == 0,
        OPTIMAL_MILLIK - temperature >= THRESHOLD_MILLIK ==> spec_reproduce_prob(temperature)
            == 0,
        0 <= spec_reproduce_prob(temperature) <= UNIT,
{
    let d = if temperature >= OPTIMAL_MILLIK {
        temperature - OPTIMAL_MILLIK
    } else {
        OPTIMAL_MILLIK - temperature
    };
    if d < THRESHOLD_MILLIK {
        assert(0 <= d * d * UNIT <= THRESHOLD_MILLIK * THRESHOLD_MILLIK * UNIT) by (nonlinear_arith)
            requires
                0 <= d < THRESHOLD_MILLIK,
        ;
        assert(0 <= d * d * UNIT / (THRESHOLD_MILLIK * THRESHOLD_MILLIK) <= UNIT);
    }
}

impl Daisy {
    /// A daisy is well formed when its albedo lies in the unit interval.
    pub open spec fn wf(self) -> bool {
        self.albedo <= UNIT
    }

    /// The black seed phenotype.
    pub fn black() -> (d: Daisy)
        ensures
            d == spec_black(),
            d.wf(),
    {
        Daisy { albedo: BLACK_ALBEDO, volatility: SEED_VOLATILITY }
    }

    /// The white seed phenotype.
    pub fn white() -> (d: Daisy)
        ensures
            d == spec_white(),
            d.wf(),
    {
        Daisy { albedo: WHITE_ALBEDO, volatility: SEED_VOLATILITY }
    }

    /// Reproduction probability, in millionths, at `temperature` millikelvin.
    pub fn reproduce_prob(&self, temperature: u64) -> (p: u64)
        ensures
            p == spec_reproduce_prob(temperature as int),
            p <= UNIT,
    {
        let d: u64 = if temperature >= OPTIMAL_MILLIK {
            temperature - OPTIMAL_MILLIK
        } else {
            OPTIMAL_MILLIK - temperature
        };
        if d < THRESHOLD_MILLIK {
            assert(d * d < THRESHOLD_MILLIK * THRESHOLD_MILLIK) by (nonlinear_arith)
                requires
                    d < THRESHOLD_MILLIK,
            ;
            let num: u64 = d * d * UNIT;
            let denom: u64 = THRESHOLD_MILLIK * THRESHOLD_MILLIK;
            UNIT - num / denom
        } else {
            0
        }
    }

    /// The offspring of this daisy, drawing exactly one mutation value
    /// from `rng`: for a predictable source the result and the source's
    /// next state are pinned.
    pub fn offspring<R: RandomSource>(&self, rng: &mut R) -> (d: Daisy)
        ensures
            d.volatility == self.volatility,
            d.wf(),
            exists|r: u64| r < UNIT && d == spec_offspring(*self, r),
            final(rng).spec_predictable() == old(rng).spec_predictable(),
            old(rng).spec_predictable() ==> d == spec_offspring(*self, old(rng).spec_peek())
                && *final(rng) == old(rng).spec_advance(),
    {
        let r = rng.next_unit();
        offspring_of(self, r)
    }
}

/// The offspring of `parent` for the given mutation draw: the decision rule
/// of a reproduction event, separated from the drawing of the randomness.
pub fn offspring_of(parent: &Daisy, r: u64) -> (d: Daisy)
    requires
        r < UNIT,
    ensures
        d == spec_offspring(*parent, r),
        d.wf(),
{
    proof {
        lemma_offspring_albedo_clamped(*parent, r);
    }
    let vol: u128 = parent.volatility as u128;
    let albedo: u64 = if r >= HALF {
        assert(vol * ((r - HALF) as u128) < 0x10000000000000000 * 0x100000) by (nonlinear_arith)
            requires
                vol < 0x10000000000000000,
                ((r - HALF) as u128) < 0x100000,
        ;
        let inc: u128 = vol * ((r - HALF) as u128) / (UNIT as u128);
        if (parent.albedo as u128) + inc > (UNIT as u128) {
            UNIT
        } else {
            parent.albedo + (inc as u64)
        }
    } else {
        assert(vol * ((HALF - r) as u128) < 0x10000000000000000 * 0x100000) by (nonlinear_arith)
            requires
                vol < 0x10000000000000000,
                ((HALF - r) as u128) < 0x100000,
        ;
        let dec: u128 = vol * ((HALF - r) as u128) / (UNIT as u128);
        if dec >= (parent.albedo as u128) {
            0
        } else {
            let v: u64 = parent.albedo - (dec as u64);
            if v > UNIT {
                UNIT
            } else {
                v
            }
        }
    };
    Daisy { albedo, volatility: parent.volatility }
}

} // verus!
