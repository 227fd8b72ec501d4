//! Records of the static data corpus and of the fit input that carry no
//! fractional quantity.
use vstd::prelude::*;

verus! {

/// Catalogue facts about a type that are identities: its group and category.
#[allow(non_snake_case)]
#[derive(Debug, Clone, Copy, PartialEq, Eq, Structural)]
pub struct Type {
    pub groupID: i32,
    pub categoryID: i32,
}

/// One dogma effect that a type carries.
#[allow(non_snake_case)]
#[derive(Debug, Clone, Copy, PartialEq, Eq, Structural)]
pub struct TypeDogmaEffect {
    pub effectID: i32,
    pub isDefault: bool,
}

/// Which entity a modifier reaches, relative to the item carrying the effect.
#[derive(Debug, Clone, Copy, PartialEq, Eq, Structural)]
pub enum DogmaEffectModifierInfoDomain {
    ItemID,
    ShipID,
    CharID,
    OtherID,
    StructureID,
    Target,
    TargetID,
}

/// How a modifier selects its targets.
#[derive(Debug, Clone, Copy, PartialEq, Eq, Structural)]
pub enum DogmaEffectModifierInfoFunc {
    ItemModifier,
    LocationGroupModifier,
    LocationModifier,
    LocationRequiredSkillModifier,
    OwnerRequiredSkillModifier,
    EffectStopper,
}

pub open spec fn spec_domain_from(value: i32) -> DogmaEffectModifierInfoDomain {
    if value == 1 {
        DogmaEffectModifierInfoDomain::ShipID
    } else if value == 2 {
        DogmaEffectModifierInfoDomain::CharID
    } else if value == 3 {
        DogmaEffectModifierInfoDomain::OtherID
    } else if value == 4 {
        DogmaEffectModifierInfoDomain::StructureID
    } else if value == 5 {
        DogmaEffectModifierInfoDomain::Target
    } else if value == 6 {
        DogmaEffectModifierInfoDomain::TargetID
    } else {
        DogmaEffectModifierInfoDomain::ItemID
    }
}

pub open spec fn spec_func_from(value: i32) -> DogmaEffectModifierInfoFunc {
    if value == 1 {
        DogmaEffectModifierInfoFunc::LocationGroupModifier
    } else if value == 2 {
        DogmaEffectModifierInfoFunc::LocationModifier
    } else if value == 3 {
        DogmaEffectModifierInfoFunc::LocationRequiredSkillModifier
    } else if value == 4 {
        DogmaEffectModifierInfoFunc::OwnerRequiredSkillModifier
    } else if value == 5 {
        DogmaEffectModifierInfoFunc::EffectStopper
    } else {
        DogmaEffectModifierInfoFunc::ItemModifier
    }
}

/// Decodes the numeric domain of the data corpus; unknown codes read as `ItemID`.
impl From<i32> for DogmaEffectModifierInfoDomain {
    fn from(value: i32) -> (r: DogmaEffectModifierInfoDomain) {
        match value {
            1 => DogmaEffectModifierInfoDomain::ShipID,
            2 => DogmaEffectModifierInfoDomain::CharID,
            3 => DogmaEffectModifierInfoDomain::OtherID,
            4 => DogmaEffectModifierInfoDomain::StructureID,
            5 => DogmaEffectModifierInfoDomain::Target,
            6 => DogmaEffectModifierInfoDomain::TargetID,
            _ => DogmaEffectModifierInfoDomain::ItemID,
        }
    }
}

impl vstd::std_specs::convert::FromSpecImpl<i32> for DogmaEffectModifierInfoDomain {
    open spec fn obeys_from_spec() -> bool {
        true
    }

    open spec fn from_spec(v: i32) -> DogmaEffectModifierInfoDomain {
        spec_domain_from(v)
    }
}

/// Decodes the numeric function of the data corpus; unknown codes read as `ItemModifier`.
impl From<i32> for DogmaEffectModifierInfoFunc {
    fn from(value: i32) -> (r: DogmaEffectModifierInfoFunc) {
        match value {
            1 => DogmaEffectModifierInfoFunc::LocationGroupModifier,
            2 => DogmaEffectModifierInfoFunc::LocationModifier,
            3 => DogmaEffectModifierInfoFunc::LocationRequiredSkillModifier,
            4 => DogmaEffectModifierInfoFunc::OwnerRequiredSkillModifier,
            5 => DogmaEffectModifierInfoFunc::EffectStopper,
            _ => DogmaEffectModifierInfoFunc::ItemModifier,
        }
    }
}

impl vstd::std_specs::convert::FromSpecImpl<i32> for DogmaEffectModifierInfoFunc {
    open spec fn obeys_from_spec() -> bool {
        true
    }

    open spec fn from_spec(v: i32) -> DogmaEffectModifierInfoFunc {
        spec_func_from(v)
    }
}

/// One modifier of a dogma effect: a source attribute acting on a target attribute.
#[allow(non_snake_case)]
#[derive(Debug, Clone, Copy, PartialEq, Eq, Structural)]
pub struct DogmaEffectModifierInfo {
    pub domain: DogmaEffectModifierInfoDomain,
    pub func: DogmaEffectModifierInfoFunc,
    pub modifiedAttributeID: Option<i32>,
    pub modifyingAttributeID: Option<i32>,
    pub operation: Option<i32>,
    pub groupID: Option<i32>,
    pub skillTypeID: Option<i32>,
}

/// A dogma effect of the corpus: its category and its modifiers.
#[allow(non_snake_case)]
#[derive(Debug, Clone)]
pub struct DogmaEffect {
    pub dischargeAttributeID: Option<i32>,
    pub durationAttributeID: Option<i32>,
    pub effectCategory: i32,
    pub electronicChance: bool,
    pub isAssistance: bool,
    pub isOffensive: bool,
    pub isWarpSafe: bool,
    pub propulsionChance: bool,
    pub rangeChance: bool,
    pub rangeAttributeID: Option<i32>,
    pub falloffAttributeID: Option<i32>,
    pub trackingSpeedAttributeID: Option<i32>,
    pub fittingUsageChanceAttributeID: Option<i32>,
    pub resistanceAttributeID: Option<i32>,
    pub modifierInfo: Vec<DogmaEffectModifierInfo>,
}

/// The activation a fit asks of a module or drone.
#[derive(Debug, Clone, Copy, PartialEq, Eq, Structural)]
pub enum EsfState {
    Passive,
    Online,
    Active,
    Overload,
}

/// Module slot classes of a fit.
#[derive(Debug, Clone, Copy, PartialEq, Eq, Structural, Hash)]
pub enum EsfSlotType {
    High,
    Medium,
    Low,
    Rig,
    SubSystem,
}

#[derive(Debug, Clone, Copy, PartialEq, Eq, Structural)]
pub struct EsfCharge {
    pub type_id: i32,
}

#[derive(Debug, Clone, Copy, PartialEq, Eq, Structural)]
pub struct EsfSlot {
    pub slot_type: EsfSlotType,
    pub index: i32,
}

#[derive(Debug, Clone, Copy, PartialEq, Eq, Structural)]
pub struct EsfModule {
    pub type_id: i32,
    pub slot: EsfSlot,
    pub state: EsfState,
    pub charge: Option<EsfCharge>,
}

#[derive(Debug, Clone, Copy, PartialEq, Eq, Structural)]
pub struct EsfDrone {
    pub type_id: i32,
    pub state: EsfState,
}

/// A ship fit: the hull, its modules (with slot and state) and its drones.
#[derive(Debug, Clone)]
pub struct EsfFit {
    pub ship_type_id: i32,
    pub modules: Vec<EsfModule>,
    pub drones: Vec<EsfDrone>,
}

} // verus!
