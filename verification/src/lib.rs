//! Daisyworld: a discrete-time ecological feedback simulation on a 2-D grid.
//!
//! Each cell is empty or holds a daisy of some albedo; local albedo sets a
//! local radiative-equilibrium temperature, which drives stochastic
//! reproduction and death, generation by generation.
//!
//! All quantities in the unit interval (albedos, probabilities, random draws)
//! are fixed-point values in millionths; temperatures are in millikelvin.

pub mod daisy;
pub mod params;
pub mod radiance;
pub mod rng;
pub mod step;
pub mod world;
