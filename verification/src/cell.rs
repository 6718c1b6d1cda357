//! One cell of the grid: a stack of optional material layers (bedrock, rock,
//! sand, humus), optional plant populations (trees, bushes, grasses), dead
//! biomass, soil moisture, and the cached monthly sunlight hours.
//!
//! Heights are micrometers, biomass is micro-kilograms, grass coverage is
//! parts per million, moisture is milliliters, sunlight is micro-hours.
//! A layer that is absent reads as height 0; adders create the layer and
//! saturate at `LAYER_CAP`; removers saturate at 0 and never create a layer.

use vstd::prelude::*;
use crate::constants::{
    AVERAGE_MONTHLY_RAINFALL, AVERAGE_MONTHLY_TEMPERATURES, ANNUAL_RAINFALL, LAYER_CAP, SUM_CAP,
    PPM,
};

verus! {

/// The base material layer.
#[derive(PartialEq, Eq, Structural, Clone, Copy, Debug)]
pub struct Bedrock {
    pub height: u64,
}

/// Coarse fractured rock.
#[derive(PartialEq, Eq, Structural, Clone, Copy, Debug)]
pub struct Rock {
    pub height: u64,
}

/// Loose sand.
#[derive(PartialEq, Eq, Structural, Clone, Copy, Debug)]
pub struct Sand {
    pub height: u64,
}

/// Organic topsoil.
#[derive(PartialEq, Eq, Structural, Clone, Copy, Debug)]
pub struct Humus {
    pub height: u64,
}

/// A tree population: a count together with the sums of the plants' heights
/// (micrometers) and ages (micro-years).
#[derive(PartialEq, Eq, Structural, Clone, Copy, Debug)]
pub struct Trees {
    pub number_of_plants: u32,
    pub plant_height_sum: u64,
    pub plant_age_sum: u64,
}

/// A bush population, with the same shape as a tree population.
#[derive(PartialEq, Eq, Structural, Clone, Copy, Debug)]
pub struct Bushes {
    pub number_of_plants: u32,
    pub plant_height_sum: u64,
    pub plant_age_sum: u64,
}

/// Collective grass cover: a coverage density in parts per million of the
/// cell area, between 0 and `PPM`.
#[derive(PartialEq, Eq, Structural, Clone, Copy, Debug)]
pub struct Grasses {
    pub coverage_density: u64,
}

/// Dead biomass resting on the cell, in micro-kilograms.
#[derive(PartialEq, Eq, Structural, Clone, Copy, Debug)]
pub struct DeadVegetation {
    pub biomass: u64,
}

/// One column of the landscape.
#[derive(Clone, Copy, Debug)]
pub struct Cell {
    pub bedrock: Option<Bedrock>,
    pub rock: Option<Rock>,
    pub sand: Option<Sand>,
    pub humus: Option<Humus>,
    pub trees: Option<Trees>,
    pub bushes: Option<Bushes>,
    pub grasses: Option<Grasses>,
    pub dead_vegetation: Option<DeadVegetation>,
    pub soil_moisture: u64,
    pub hours_of_sunlight: [u64; 12],
}

impl Cell {
    /// Height of the bedrock layer, 0 when absent.
    pub open spec fn bedrock_um(self) -> u64 {
        match self.bedrock {
            Some(b) => b.height,
            None => 0,
        }
    }

    /// Height of the rock layer, 0 when absent.
    pub open spec fn rock_um(self) -> u64 {
        match self.rock {
            Some(r) => r.height,
            None => 0,
        }
    }

    /// Height of the sand layer, 0 when absent.
    pub open spec fn sand_um(self) -> u64 {
        match self.sand {
            Some(s) => s.height,
            None => 0,
        }
    }

    /// Height of the humus layer, 0 when absent.
    pub open spec fn humus_um(self) -> u64 {
        match self.humus {
            Some(h) => h.height,
            None => 0,
        }
    }

    /// Total terrain height: the sum of the four material layers.
    pub open spec fn height_um(self) -> int {
        self.bedrock_um() + self.rock_um() + self.sand_um() + self.humus_um()
    }

    /// Dead biomass, 0 when absent.
    pub open spec fn dead_biomass_ukg(self) -> u64 {
        match self.dead_vegetation {
            Some(d) => d.biomass,
            None => 0,
        }
    }

    /// Well-formedness: every layer height is below the saturation cap, so
    /// sums of the four layers fit in a `u64`; a plant population that is
    /// present has a positive count and bounded sums; grass coverage lies in
    /// [0, 1]; dead biomass is bounded.
    pub open spec fn wf(self) -> bool {
        &&& self.bedrock_um() <= LAYER_CAP
        &&& self.rock_um() <= LAYER_CAP
        &&& self.sand_um() <= LAYER_CAP
        &&& self.humus_um() <= LAYER_CAP
        &&& (self.trees matches Some(t) ==> t.number_of_plants > 0
            && t.plant_height_sum <= SUM_CAP && t.plant_age_sum <= SUM_CAP)
        &&& (self.bushes matches Some(b) ==> b.number_of_plants > 0
            && b.plant_height_sum <= SUM_CAP && b.plant_age_sum <= SUM_CAP)
        &&& (self.grasses matches Some(g) ==> g.coverage_density <= PPM)
        &&& self.dead_biomass_ukg() <= SUM_CAP
    }

    /// A bare cell with no layers at all.
    pub fn init() -> (r: Self)
        ensures
            r.bedrock is None && r.rock is None && r.sand is None && r.humus is None,
            r.trees is None && r.bushes is None && r.grasses is None,
            r.dead_vegetation is None,
            r.soil_moisture == 0,
            r.hours_of_sunlight@ == Seq::new(12, |i: int| 0u64),
            r.wf(),
    {
        let r = Cell {
            bedrock: None,
            rock: None,
            sand: None,
            humus: None,
            trees: None,
            bushes: None,
            grasses: None,
            dead_vegetation: None,
            soil_moisture: 0,
            hours_of_sunlight: [0; 12],
        };
        proof {
            assert(r.hours_of_sunlight@ =~= Seq::new(12, |i: int| 0u64));
        }
        r
    }

    /// Total terrain height of this cell.
    pub fn get_height(&self) -> (r: u64)
        requires
            self.wf(),
        ensures
            r == self.height_um(),
    {
        let mut height: u64 = 0;
        if let Some(bedrock) = &self.bedrock {
            height += bedrock.height;
        }
        if let Some(rock) = &self.rock {
            height += rock.height;
        }
        if let Some(sand) = &self.sand {
            height += sand.height;
        }
        if let Some(humus) = &self.humus {
            height += humus.height;
        }
        height
    }

    /// Monthly air temperature in microdegrees Celsius: the climate table
    /// value lowered by a lapse rate of 0.0065 degrees per meter of height.
    pub fn get_monthly_temperature(&self, month: usize) -> (r: i64)
        requires
            self.wf(),
            month < 12,
        ensures
            r == AVERAGE_MONTHLY_TEMPERATURES[month as int]
                - self.height_um() * 13 / 2000,
    {
        let height = self.get_height();
        let lapse128: u128 = (height as u128) * 13 / 2000;
        let lapse: i64 = lapse128 as i64;
        AVERAGE_MONTHLY_TEMPERATURES[month] - lapse
    }

    /// Share of this cell's resident water available in the given month, in
    /// milliliters: the cell moisture scaled by the month's fraction of
    /// annual rainfall.
    pub fn get_monthly_soil_moisture(&self, month: usize) -> (r: u64)
        requires
            month < 12,
        ensures
            r == self.soil_moisture * AVERAGE_MONTHLY_RAINFALL[month as int]
                / (ANNUAL_RAINFALL as int),
    {
        let rainfall = AVERAGE_MONTHLY_RAINFALL[month];
        proof {
            assert(self.soil_moisture * rainfall <= 111 * (u64::MAX as int)) by (nonlinear_arith)
                requires
                    rainfall <= 111,
                    self.soil_moisture <= u64::MAX,
            ;
        }
        let prod: u128 = (self.soil_moisture as u128) * (rainfall as u128);
        let q: u128 = prod / (ANNUAL_RAINFALL as u128);
        q as u64
    }

    // *** LAYER ADDERS ***

    /// Adds bedrock height, creating the layer if absent; saturates at
    /// `LAYER_CAP`.
    pub fn add_bedrock(&mut self, height: u64)
        requires
            old(self).wf(),
        ensures
            final(self).wf(),
            *final(self) == (Cell {
                bedrock: Some(Bedrock { height: sat_add_cap(old(self).bedrock_um(), height) }),
                ..*old(self)
            }),
    {
        let h = self.get_bedrock_height();
        self.bedrock = Some(Bedrock { height: add_capped(h, height) });
    }

    /// Adds rock height, creating the layer if absent; saturates at
    /// `LAYER_CAP`.
    pub fn add_rocks(&mut self, height: u64)
        requires
            old(self).wf(),
        ensures
            final(self).wf(),
            *final(self) == (Cell {
                rock: Some(Rock { height: sat_add_cap(old(self).rock_um(), height) }),
                ..*old(self)
            }),
    {
        let h = self.get_rock_height();
        self.rock = Some(Rock { height: add_capped(h, height) });
    }

    /// Adds sand height, creating the layer if absent; saturates at
    /// `LAYER_CAP`.
    pub fn add_sand(&mut self, height: u64)
        requires
            old(self).wf(),
        ensures
            final(self).wf(),
            *final(self) == (Cell {
                sand: Some(Sand { height: sat_add_cap(old(self).sand_um(), height) }),
                ..*old(self)
            }),
    {
        let h = self.get_sand_height();
        self.sand = Some(Sand { height: add_capped(h, height) });
    }

    /// Adds humus height, creating the layer if absent; saturates at
    /// `LAYER_CAP`.
    pub fn add_humus(&mut self, height: u64)
        requires
            old(self).wf(),
        ensures
            final(self).wf(),
            *final(self) == (Cell {
                humus: Some(Humus { height: sat_add_cap(old(self).humus_um(), height) }),
                ..*old(self)
            }),
    {
        let h = self.get_humus_height();
        self.humus = Some(Humus { height: add_capped(h, height) });
    }

    /// Adds dead biomass, creating the store if absent; saturates at
    /// `SUM_CAP`.
    pub fn add_dead_vegetation(&mut self, biomass: u64)
        requires
            old(self).wf(),
        ensures
            final(self).wf(),
            *final(self) == (Cell {
                dead_vegetation: Some(DeadVegetation {
                    biomass: sat_add_cap(old(self).dead_biomass_ukg(), biomass),
                }),
                ..*old(self)
            }),
    {
        let b = self.get_dead_vegetation_biomass();
        self.dead_vegetation = Some(DeadVegetation { biomass: add_capped(b, biomass) });
    }

    /// Clears all dead biomass.
    pub fn remove_all_dead_vegetation(&mut self)
        requires
            old(self).wf(),
        ensures
            final(self).wf(),
            *final(self) == (Cell { dead_vegetation: None, ..*old(self) }),
    {
        self.dead_vegetation = None;
    }

    // *** LAYER REMOVERS ***

    /// Removes bedrock height, saturating at 0; does nothing when the layer
    /// is absent.
    pub fn remove_bedrock(&mut self, height: u64)
        requires
            old(self).wf(),
        ensures
            final(self).wf(),
            *final(self) == (Cell {
                bedrock: match old(self).bedrock {
                    Some(b) => Some(Bedrock { height: sat_sub(b.height, height) }),
                    None => None,
                },
                ..*old(self)
            }),
    {
        if let Some(bedrock) = &self.bedrock {
            let h = bedrock.height;
            self.bedrock = Some(Bedrock { height: sub_floored(h, height) });
        }
    }

    /// Removes rock height, saturating at 0; does nothing when the layer is
    /// absent.
    pub fn remove_rocks(&mut self, height: u64)
        requires
            old(self).wf(),
        ensures
            final(self).wf(),
            *final(self) == (Cell {
                rock: match old(self).rock {
                    Some(r) => Some(Rock { height: sat_sub(r.height, height) }),
                    None => None,
                },
                ..*old(self)
            }),
    {
        if let Some(rock) = &self.rock {
            let h = rock.height;
            self.rock = Some(Rock { height: sub_floored(h, height) });
        }
    }

    /// Removes sand height, saturating at 0; does nothing when the layer is
    /// absent.
    pub fn remove_sand(&mut self, height: u64)
        requires
            old(self).wf(),
        ensures
            final(self).wf(),
            *final(self) == (Cell {
                sand: match old(self).sand {
                    Some(s) => Some(Sand { height: sat_sub(s.height, height) }),
                    None => None,
                },
                ..*old(self)
            }),
    {
        if let Some(sand) = &self.sand {
            let h = sand.height;
            self.sand = Some(Sand { height: sub_floored(h, height) });
        }
    }

    /// Removes humus height, saturating at 0; does nothing when the layer is
    /// absent.
    pub fn remove_humus(&mut self, height: u64)
        requires
            old(self).wf(),
        ensures
            final(self).wf(),
            *final(self) == (Cell {
                humus: match old(self).humus {
                    Some(h) => Some(Humus { height: sat_sub(h.height, height) }),
                    None => None,
                },
                ..*old(self)
            }),
    {
        if let Some(humus) = &self.humus {
            let h = humus.height;
            self.humus = Some(Humus { height: sub_floored(h, height) });
        }
    }

    // *** HEIGHT GETTERS ***

    /// Bedrock layer height, 0 when absent.
    pub fn get_bedrock_height(&self) -> (r: u64)
        ensures
            r == self.bedrock_um(),
    {
        match &self.bedrock {
            Some(bedrock) => bedrock.height,
            None => 0,
        }
    }

    /// Rock layer height, 0 when absent.
    pub fn get_rock_height(&self) -> (r: u64)
        ensures
            r == self.rock_um(),
    {
        match &self.rock {
            Some(rock) => rock.height,
            None => 0,
        }
    }

    /// Sand layer height, 0 when absent.
    pub fn get_sand_height(&self) -> (r: u64)
        ensures
            r == self.sand_um(),
    {
        match &self.sand {
            Some(sand) => sand.height,
            None => 0,
        }
    }

    /// Humus layer height, 0 when absent.
    pub fn get_humus_height(&self) -> (r: u64)
        ensures
            r == self.humus_um(),
    {
        match &self.humus {
            Some(humus) => humus.height,
            None => 0,
        }
    }

    /// Dead biomass, 0 when absent.
    pub fn get_dead_vegetation_biomass(&self) -> (r: u64)
        ensures
            r == self.dead_biomass_ukg(),
    {
        match &self.dead_vegetation {
            Some(dead) => dead.biomass,
            None => 0,
        }
    }

    // *** HEIGHT SETTERS ***

    /// Sets the bedrock layer to exactly the given height, creating it if
    /// absent.
    pub fn set_height_of_bedrock(&mut self, height: u64)
        requires
            old(self).wf(),
            height <= LAYER_CAP,
        ensures
            final(self).wf(),
            *final(self) == (Cell { bedrock: Some(Bedrock { height }), ..*old(self) }),
    {
        self.bedrock = Some(Bedrock { height });
    }
}

/// `a + b` saturated at `LAYER_CAP` (spec form).
pub open spec fn sat_add_cap(a: u64, b: u64) -> u64 {
    if a + b >= LAYER_CAP { LAYER_CAP } else { (a + b) as u64 }
}

/// `a - b` saturated at 0 (spec form).
pub open spec fn sat_sub(a: u64, b: u64) -> u64 {
    if b >= a { 0 } else { (a - b) as u64 }
}

/// `a + b` saturated at `LAYER_CAP`.
pub fn add_capped(a: u64, b: u64) -> (r: u64)
    requires
        a <= LAYER_CAP,
    ensures
        r == sat_add_cap(a, b),
{
    if b >= LAYER_CAP - a {
        LAYER_CAP
    } else {
        a + b
    }
}

/// `a - b` saturated at 0.
pub fn sub_floored(a: u64, b: u64) -> (r: u64)
    ensures
        r == sat_sub(a, b),
{
    if b >= a {
        0
    } else {
        a - b
    }
}

} // verus!
