//! A terrain and vegetation coevolution simulator over a square cell grid.
//!
//! The landscape is a grid of cells, each a stack of material layers
//! (bedrock, rock, sand, humus) with plant populations on top. Yearly event
//! kernels (lightning, thermal fracture, granular slides, rainfall erosion,
//! vegetation life cycles, wind-driven sand transport) mutate the grid.
//! All physical quantities are held in integer fixed point: heights in
//! micrometers, fractions and probabilities in parts per million,
//! temperatures in microdegrees Celsius, biomass in millionths of a
//! kilogram, so every kernel is exact integer arithmetic.

pub mod allometry;
pub mod cell;
pub mod constants;
pub mod driver;
pub mod ecosystem;
pub mod events;
pub mod export;
pub mod geometry;
pub mod grid;
pub mod initializer;
pub mod lightning;
pub mod math;
pub mod rainfall;
mod rng;
pub mod slide;
pub mod solar;
pub mod thermal;
pub mod vegetation;
pub mod viability;
pub mod wind;
