//! The simulation driver: one tick is a simulated year. Wind is sampled and
//! the blurred terrain rebuilt, then every cell, in a fresh random order,
//! undergoes the enabled events in a fresh random order.

use vstd::prelude::*;
use crate::constants::{AREA_SIDE_LENGTH, NUM_CELLS};
use crate::ecosystem::Ecosystem;
use crate::events::Events;
use crate::grid::CellIndex;
use crate::rng::rng_below;
use crate::wind::{blurred, spec_decode, spec_height_pixels, spec_hrange, spec_weight_prefix,
    WindState};

verus! {

/// What one tick establishes in the wind state of a windy landscape `pre`:
/// the rose survives, the direction and strength are freshly sampled from
/// it exactly as `sample_wind` promises, and both convolution fields are
/// the decoded blurs of the tick's starting heightfield.
pub open spec fn spec_wind_tick(pre: Ecosystem, w: WindState) -> bool {
    let cells = pre.cells@;
    let range = spec_hrange(cells);
    let rose = pre.wind_state->0.wind_rose;
    &&& w.wind_rose == rose
    &&& w.wind_direction < 360000 && w.wind_direction % 45000 == 0
    &&& (spec_weight_prefix(rose.weights@, 8) == 0
        ==> w.wind_direction == 0 && w.wind_strength == 0)
    &&& (spec_weight_prefix(rose.weights@, 8) > 0 ==> exists|b: int| 0 <= b < 8
        && (#[trigger] rose.weights@[b]) > 0 && w.wind_direction == b * 45000
        && rose.min_speed@[b] <= w.wind_strength <= rose.max_speed@[b])
    &&& w.high_freq_convolution@ == Seq::new(NUM_CELLS as nat, |k: int|
        spec_decode(blurred(spec_height_pixels(cells), AREA_SIDE_LENGTH, 11), range, k))
    &&& w.low_freq_convolution@ == Seq::new(NUM_CELLS as nat, |k: int|
        spec_decode(blurred(spec_height_pixels(cells), AREA_SIDE_LENGTH, 25), range, k))
}

/// A uniformly shuffled vector of all flat cell indices.
fn shuffled_indices() -> (r: Vec<usize>)
    ensures
        r@.len() == NUM_CELLS,
        forall|j: int| 0 <= j < NUM_CELLS ==> #[trigger] r@[j] < NUM_CELLS,
{
    let mut order: Vec<usize> = Vec::new();
    let mut k: usize = 0;
    while k < NUM_CELLS
        invariant
            order@.len() == k,
            k <= NUM_CELLS,
            forall|j: int| 0 <= j < k ==> #[trigger] order@[j] < NUM_CELLS,
        decreases NUM_CELLS - k,
    {
        order.push(k);
        k += 1;
    }
    let mut i: usize = NUM_CELLS;
    while i > 1
        invariant
            order@.len() == NUM_CELLS,
            i <= NUM_CELLS,
            forall|j: int| 0 <= j < NUM_CELLS ==> #[trigger] order@[j] < NUM_CELLS,
        decreases i,
    {
        let pick = rng_below(i as u64) as usize;
        let a = order[i - 1];
        let b = order[pick];
        order[i - 1] = b;
        order[pick] = a;
        i -= 1;
    }
    order
}

impl Ecosystem {
    /// Advances the landscape by one simulated year: samples the wind and
    /// rebuilds the blurred terrain when wind is enabled, then applies the
    /// per-cell events in random cell and event order. Whatever the draws,
    /// no cell's resident water or cached sunlight changes, and the wind
    /// rose survives the tick (only the sampled direction and strength and
    /// the blurred terrain are refreshed).
    pub fn take_time_step(&mut self)
        requires
            old(self).wf(),
        ensures
            final(self).wf(),
            crate::events::climate_preserved(*old(self), *final(self)),
            final(self).wind_state is Some <==> old(self).wind_state is Some,
            final(self).wind_state matches Some(w)
                ==> w.wind_rose == old(self).wind_state->0.wind_rose,
            old(self).wind_state is Some
                ==> spec_wind_tick(*old(self), final(self).wind_state->0),
    {
        if self.wind_state.is_some() {
            let sampled = match &self.wind_state {
                Some(ws) => Some(ws.wind_rose.sample_wind()),
                None => None,
            };
            if let (Some((dir, strength)), Some(ws)) = (sampled, &mut self.wind_state) {
                ws.wind_direction = dir;
                ws.wind_strength = strength;
            }
            crate::wind::convolve_terrain(self);
        }

        let ghost after_wind = *self;
        proof {
            assert(crate::events::climate_preserved(*old(self), after_wind));
            assert(old(self).wind_state is Some
                ==> spec_wind_tick(*old(self), after_wind.wind_state->0));
        }
        let order = shuffled_indices();
        let mut k: usize = 0;
        while k < NUM_CELLS
            invariant
                self.wf(),
                order@.len() == NUM_CELLS,
                forall|j: int| 0 <= j < NUM_CELLS ==> #[trigger] order@[j] < NUM_CELLS,
                k <= NUM_CELLS,
                crate::events::climate_preserved(*old(self), *self),
                self.wind_state == after_wind.wind_state,
                after_wind.wind_state is Some <==> old(self).wind_state is Some,
                after_wind.wind_state matches Some(w)
                    ==> w.wind_rose == old(self).wind_state->0.wind_rose,
                old(self).wind_state is Some
                    ==> spec_wind_tick(*old(self), after_wind.wind_state->0),
            decreases NUM_CELLS - k,
        {
            let index = CellIndex::get_from_flat_index(order[k]);
            let mut events: Vec<Events> = Vec::new();
            events.push(Events::Lightning);
            events.push(Events::ThermalStress);
            events.push(Events::SandSlide);
            events.push(Events::RockSlide);
            events.push(Events::HumusSlide);
            events.push(Events::VegetationTrees);
            events.push(Events::VegetationBushes);
            events.push(Events::VegetationGrasses);
            // a fresh random order of the events for this cell
            let mut i: usize = 8;
            while i > 1
                invariant
                    events@.len() == 8,
                    i <= 8,
                decreases i,
            {
                let pick = rng_below(i as u64) as usize;
                let a = events[i - 1];
                let b = events[pick];
                events[i - 1] = b;
                events[pick] = a;
                i -= 1;
            }
            let mut e: usize = 0;
            while e < 8
                invariant
                    self.wf(),
                    events@.len() == 8,
                    e <= 8,
                    crate::grid::in_bounds(index),
                    crate::events::climate_preserved(*old(self), *self),
                    self.wind_state == after_wind.wind_state,
                decreases 8 - e,
            {
                events[e].apply_event(self, index);
                e += 1;
            }
            k += 1;
        }
    }
}

} // verus!
