//! Compiled-in configuration: grid dimensions, climate tables, material
//! constants. All values are integer fixed point. The unit conventions are:
//! heights in micrometers (`UM_PER_M` per meter), dimensionless fractions and
//! probabilities in parts per million (`PPM`), temperatures in microdegrees
//! Celsius, soil moisture in milliliters, biomass in micro-kilograms.

use vstd::prelude::*;

verus! {

/// Side length of the square grid, in cells.
pub const AREA_SIDE_LENGTH: usize = 256;

/// Number of cells in the grid.
pub const NUM_CELLS: usize = 65536;

/// Side length of one cell, in meters.
pub const CELL_SIDE_LENGTH_M: u64 = 10;

/// Micrometers per meter: the fixed-point scale of all heights.
pub const UM_PER_M: u64 = 1000000;

/// Parts per million: the fixed-point scale of fractions and probabilities.
pub const PPM: u64 = 1000000;

/// Default bedrock height of a freshly initialized cell, in micrometers
/// (100 m).
pub const DEFAULT_BEDROCK_HEIGHT: u64 = 100000000;

/// Cap on any single material-layer height, in micrometers. Adders saturate
/// here so that the sum of the four layers always fits in a `u64`.
pub const LAYER_CAP: u64 = 0x2000000000000000;

/// Cap on accumulated per-population sums (heights, ages) and biomass.
pub const SUM_CAP: u64 = 0x2000000000000000;

/// Timezone of the site, in hours offset from UTC.
pub const TIMEZONE: i32 = -5;

/// Default humus height seeded on flat ground, in micrometers (0.5 m).
pub const DEFAULT_HUMUS_HEIGHT: u64 = 500000;

/// Density of grass cover, in kilograms per square meter of full coverage.
pub const GRASS_DENSITY_KG_PER_M2: u64 = 1;

/// Average monthly temperatures at sea level, in microdegrees Celsius.
pub const AVERAGE_MONTHLY_TEMPERATURES: [i64; 12] = [
    -2000000, -800000, 2800000, 8800000, 14300000, 19200000, 23000000, 22300000, 18700000,
    12500000, 6700000, 1500000,
];

/// Average daily hours of sunlight per month, in micro-hours.
pub const AVERAGE_SUNLIGHT_HOURS: [u64; 12] = [
    6750000, 6750000, 8250000, 9750000, 10500000, 11250000, 11250000, 10500000, 9750000, 9000000,
    7500000, 7500000,
];

/// Average monthly rainfall, in millimeters.
pub const AVERAGE_MONTHLY_RAINFALL: [u64; 12] =
    [96, 81, 111, 99, 86, 91, 87, 103, 93, 106, 88, 110];

/// Sum of `AVERAGE_MONTHLY_RAINFALL`.
pub const ANNUAL_RAINFALL: u64 = 1151;

/// Fraction of days that are sunny, in parts per million.
pub const PERCENT_SUNNY_DAYS_PPM: u64 = 750000;

/// Temperature lapse: microdegrees Celsius lost per meter of elevation
/// (0.0065 degrees per meter).
pub const LAPSE_UC_PER_M: i64 = 6500;

/// tan^2 of the critical angle of repose, scaled by 10^12, for each granular
/// material. A descending height difference d over planar distance s is at
/// least the critical angle exactly when d^2 * 10^12 >= TAN2 * s^2 (heights in
/// micrometers, s in cells).
pub const TAN2_SAND_E12: u128 = 454961739293;
pub const TAN2_ROCK_E12: u128 = 1000000000000;
pub const TAN2_HUMUS_E12: u128 = 704088191042;

/// tan of the critical angle times the neighbor distance, in micrometers:
/// the height above a neighbor at which the slope toward it equals the
/// critical angle. `STRAIGHT` is for 4-neighbors (distance 1 cell), `DIAG`
/// for diagonal neighbors (distance sqrt(2) cells).
pub const IDEAL_OFFSET_SAND_STRAIGHT: u64 = 674509;
pub const IDEAL_OFFSET_SAND_DIAG: u64 = 953899;
pub const IDEAL_OFFSET_ROCK_STRAIGHT: u64 = 1000000;
pub const IDEAL_OFFSET_ROCK_DIAG: u64 = 1414214;
pub const IDEAL_OFFSET_HUMUS_STRAIGHT: u64 = 839100;
pub const IDEAL_OFFSET_HUMUS_DIAG: u64 = 1186666;

/// Default wind direction in millidegrees clockwise from north, and default
/// wind strength in micro-units.
pub const WIND_DIRECTION_MILLIDEG: u64 = 45000;
pub const WIND_STRENGTH_U: u64 = 10000000;

/// Erosion transport constants, in parts per million: sediment capacity per
/// unit of water (5.0), deposition fraction (0.1), bedrock softness (0.3).
pub const KC_PPM: u64 = 5000000;
pub const KD_PPM: u64 = 100000;
pub const KS_PPM: u64 = 300000;

} // verus!
