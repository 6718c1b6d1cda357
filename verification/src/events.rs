//! The event vocabulary and the dispatcher that chases a kernel's
//! propagation chain until it ends (or a safety cap is reached).

use vstd::prelude::*;
use crate::constants::NUM_CELLS;
use crate::ecosystem::Ecosystem;
use crate::grid::{in_bounds, CellIndex};

verus! {

/// No kernel touches a cell's resident water or its cached sunlight, and
/// none replaces the wind state: those belong to the driver and the
/// illumination pass.
pub open spec fn climate_preserved(pre: Ecosystem, post: Ecosystem) -> bool {
    &&& post.cells@.len() == pre.cells@.len()
    &&& forall|k: int| 0 <= k < pre.cells@.len() ==> {
        &&& (#[trigger] post.cells@[k]).soil_moisture == pre.cells@[k].soil_moisture
        &&& post.cells@[k].hours_of_sunlight == pre.cells@[k].hours_of_sunlight
    }
}

/// Pointwise preservation over cell indices yields `climate_preserved`.
pub proof fn lemma_climate_from_cells(pre: Ecosystem, post: Ecosystem)
    requires
        pre.cells@.len() == NUM_CELLS,
        post.cells@.len() == NUM_CELLS,
        forall|q: CellIndex| in_bounds(q) ==> {
            &&& (#[trigger] post.cell_at(q)).soil_moisture == pre.cell_at(q).soil_moisture
            &&& post.cell_at(q).hours_of_sunlight == pre.cell_at(q).hours_of_sunlight
        },
    ensures
        climate_preserved(pre, post),
{
    assert forall|k: int| 0 <= k < pre.cells@.len() implies {
        &&& (#[trigger] post.cells@[k]).soil_moisture == pre.cells@[k].soil_moisture
        &&& post.cells@[k].hours_of_sunlight == pre.cells@[k].hours_of_sunlight
    } by {
        crate::ecosystem::lemma_index_surjective(k);
        let q = crate::ecosystem::spec_index_of(k);
        assert(post.cell_at(q).soil_moisture == pre.cell_at(q).soil_moisture);
    }
}

/// The kinds of event a cell can undergo in a tick.
#[derive(PartialEq, Eq, Structural, Clone, Copy, Debug)]
pub enum Events {
    Rainfall,
    ThermalStress,
    Lightning,
    RockSlide,
    SandSlide,
    HumusSlide,
    VegetationTrees,
    VegetationBushes,
    VegetationGrasses,
    Wind,
}

impl Events {
    /// Performs the event and chases its propagation chain until a kernel
    /// stops it, with a safety cap of ten thousand hops.
    pub fn apply_event(self, eco: &mut Ecosystem, index: CellIndex)
        requires
            old(eco).wf(),
            in_bounds(index),
        ensures
            final(eco).wf(),
            final(eco).wind_state == old(eco).wind_state,
            climate_preserved(*old(eco), *final(eco)),
    {
        let mut event_option: Option<(Events, CellIndex)> = Some((self, index));
        let mut fuel: u64 = 10000;
        while fuel > 0
            invariant
                eco.wf(),
                eco.wind_state == old(eco).wind_state,
                climate_preserved(*old(eco), *eco),
                event_option matches Some(p) ==> in_bounds(p.1),
            decreases fuel,
        {
            match event_option {
                None => {
                    return;
                },
                Some((event, idx)) => {
                    event_option = match event {
                        Events::Rainfall => crate::rainfall::apply_rainfall_event(eco, idx),
                        Events::ThermalStress => crate::thermal::apply_thermal_stress_event(
                            eco, idx),
                        Events::Lightning => crate::lightning::apply_lightning_event(eco, idx),
                        Events::RockSlide => crate::slide::apply_rock_slide_event(eco, idx),
                        Events::SandSlide => crate::slide::apply_sand_slide_event(eco, idx),
                        Events::HumusSlide => crate::slide::apply_humus_slide_event(eco, idx),
                        Events::VegetationTrees => crate::vegetation::apply_trees_event(eco, idx),
                        Events::VegetationBushes => crate::vegetation::apply_bushes_event(
                            eco, idx),
                        Events::VegetationGrasses => crate::vegetation::apply_grasses_event(
                            eco, idx),
                        Events::Wind => crate::wind::apply_wind_event(eco, idx),
                    };
                },
            }
            fuel = fuel - 1;
        }
    }
}

} // verus!
