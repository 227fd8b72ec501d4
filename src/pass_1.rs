//! Seeding: the items a fit is made of, with their slots and activation.
use vstd::prelude::*;

use crate::data_types::{EsfDrone, EsfFit, EsfModule, EsfSlotType, EsfState};
use crate::item::{EffectCategory, Slot, SlotType};

verus! {

/// Creation of the fit's items.
pub struct PassOne {}

/// A fitted module or drone before any attribute is installed.
#[derive(Debug, Clone, Copy, PartialEq, Eq, Structural)]
pub struct Placed {
    pub type_id: i32,
    pub slot: Slot,
    pub state: EffectCategory,
    pub max_state: EffectCategory,
    pub charge_type_id: Option<i32>,
}

/// The activation a fit asks for, one to one.
pub open spec fn spec_module_state(s: EsfState) -> EffectCategory {
    match s {
        EsfState::Passive => EffectCategory::Passive,
        EsfState::Online => EffectCategory::Online,
        EsfState::Active => EffectCategory::Active,
        EsfState::Overload => EffectCategory::Overload,
    }
}

pub open spec fn spec_slot_type(t: EsfSlotType) -> SlotType {
    match t {
        EsfSlotType::High => SlotType::High,
        EsfSlotType::Medium => SlotType::Medium,
        EsfSlotType::Low => SlotType::Low,
        EsfSlotType::Rig => SlotType::Rig,
        EsfSlotType::SubSystem => SlotType::SubSystem,
    }
}

/// A module keeps its slot class and index; its highest reachable activation
/// starts at passive and is raised by expansion.
pub open spec fn module_placed(m: EsfModule) -> Placed {
    Placed {
        type_id: m.type_id,
        slot: Slot { slot_type: spec_slot_type(m.slot.slot_type), index: Some(m.slot.index) },
        state: spec_module_state(m.state),
        max_state: EffectCategory::Passive,
        charge_type_id: match m.charge {
            Some(c) => Some(c.type_id),
            None => None,
        },
    }
}

/// A drone sits in the drone bay; like a module, its highest reachable
/// activation starts at passive and is raised by expansion.
pub open spec fn drone_placed(d: EsfDrone) -> Placed {
    Placed {
        type_id: d.type_id,
        slot: Slot { slot_type: SlotType::DroneBay, index: None },
        state: spec_module_state(d.state),
        max_state: EffectCategory::Passive,
        charge_type_id: None,
    }
}

impl PassOne {
    pub fn module_state(s: EsfState) -> (r: EffectCategory)
        ensures
            r == spec_module_state(s),
    {
        match s {
            EsfState::Passive => EffectCategory::Passive,
            EsfState::Online => EffectCategory::Online,
            EsfState::Active => EffectCategory::Active,
            EsfState::Overload => EffectCategory::Overload,
        }
    }

    pub fn slot_type(t: EsfSlotType) -> (r: SlotType)
        ensures
            r == spec_slot_type(t),
    {
        match t {
            EsfSlotType::High => SlotType::High,
            EsfSlotType::Medium => SlotType::Medium,
            EsfSlotType::Low => SlotType::Low,
            EsfSlotType::Rig => SlotType::Rig,
            EsfSlotType::SubSystem => SlotType::SubSystem,
        }
    }

    /// The fit's items in ship order: every module, then every drone.
    pub fn items(fit: &EsfFit) -> (r: Vec<Placed>)
        ensures
            r@.len() == fit.modules@.len() + fit.drones@.len(),
            forall|i: int|
                0 <= i < fit.modules@.len() ==> #[trigger] r@[i] == module_placed(fit.modules@[i]),
            forall|i: int|
                0 <= i < fit.drones@.len() ==> r@[fit.modules@.len() + i] == drone_placed(
                    #[trigger] fit.drones@[i],
                ),
    {
        let mut items: Vec<Placed> = Vec::new();
        let mut i: usize = 0;
        while i < fit.modules.len()
            invariant
                0 <= i <= fit.modules@.len(),
                items@.len() == i,
                forall|k: int| 0 <= k < i ==> #[trigger] items@[k] == module_placed(fit.modules@[k]),
            decreases fit.modules@.len() - i,
        {
            let m = fit.modules[i];
            let charge_type_id = match m.charge {
                Some(c) => Some(c.type_id),
                None => None,
            };
            items.push(
                Placed {
                    type_id: m.type_id,
                    slot: Slot { slot_type: PassOne::slot_type(m.slot.slot_type), index: Some(m.slot.index) },
                    state: PassOne::module_state(m.state),
                    max_state: EffectCategory::Passive,
                    charge_type_id,
                },
            );
            i = i + 1;
        }
        let nm = fit.modules.len();
        let mut j: usize = 0;
        while j < fit.drones.len()
            invariant
                0 <= j <= fit.drones@.len(),
                nm == fit.modules@.len(),
                items@.len() == nm + j,
                forall|k: int| 0 <= k < nm ==> #[trigger] items@[k] == module_placed(fit.modules@[k]),
                forall|k: int|
                    0 <= k < j ==> items@[nm + k] == drone_placed(#[trigger] fit.drones@[k]),
            decreases fit.drones@.len() - j,
        {
            let d = fit.drones[j];
            items.push(
                Placed {
                    type_id: d.type_id,
                    slot: Slot { slot_type: SlotType::DroneBay, index: None },
                    state: PassOne::module_state(d.state),
                    max_state: EffectCategory::Passive,
                    charge_type_id: None,
                },
            );
            j = j + 1;
        }
        items
    }
}

} // verus!
