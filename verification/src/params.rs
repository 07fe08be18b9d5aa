//! Model parameters, as fixed-point integers.
//!
//! Fractions of the unit interval are stored in millionths (`UNIT`),
//! temperatures in millikelvin.

use vstd::prelude::*;

verus! {

/// One whole, in millionths: the fixed-point scale for albedos,
/// probabilities and random draws.
pub const UNIT: u64 = 1_000_000;

/// One half (the bare-ground albedo) in millionths.
pub const HALF: u64 = 500_000;

/// One quarter, in millionths: first quartile bound for neighbour choice.
pub const QUARTER: u64 = 250_000;

/// Three quarters, in millionths: third quartile bound for neighbour choice.
pub const THREE_QUARTERS: u64 = 750_000;

/// Albedo of the black seed phenotype (0.25).
pub const BLACK_ALBEDO: u64 = 250_000;

/// Albedo of the white seed phenotype (0.75).
pub const WHITE_ALBEDO: u64 = 750_000;

/// Mutation volatility of both seed phenotypes (0.05).
pub const SEED_VOLATILITY: u64 = 50_000;

/// Optimal reproduction temperature, in millikelvin (295.5 K).
pub const OPTIMAL_MILLIK: u64 = 295_500;

/// Half-width of the viable temperature band, in millikelvin (17.5 K).
pub const THRESHOLD_MILLIK: u64 = 17_500;

/// Random draws below this bound seed a black daisy (10% of the unit).
pub const BLACK_SEED_BOUND: u64 = 100_000;

/// Random draws in `[BLACK_SEED_BOUND, WHITE_SEED_BOUND)` seed a white daisy.
pub const WHITE_SEED_BOUND: u64 = 200_000;

/// Numerator of the radiative flux: solar insolation times luminosity over
/// the Stefan-Boltzmann constant, scaled so that the fourth root of
/// `RAD_NUM * (UNIT - albedo) / RAD_DEN` comes out in millikelvin.
/// With S = 917, L = 1, SB = 5.67e-8: S*L/SB = 917e10/567 K^4, and the
/// millikelvin scale contributes a further factor of 10^12.
pub const RAD_NUM: u128 = 9_170_000_000_000_000_000;

/// Denominator of the radiative flux (see `RAD_NUM`).
pub const RAD_DEN: u128 = 567;

} // verus!
