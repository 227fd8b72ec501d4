use vstd::prelude::*;

verus! {

/// Activation levels of an item, and the categories in which an effect can apply.
///
/// The first four form the ladder an item climbs (passive, online, active,
/// overloaded); the last four only occur as effect categories.
#[derive(Debug, Clone, Copy, PartialEq, Eq, Structural)]
pub enum EffectCategory {
    Passive,
    Online,
    Active,
    Overload,
    Target,
    Area,
    Dungeon,
    System,
}

impl EffectCategory {
    /// Position in the total order `Passive < Online < ... < System`.
    pub open spec fn spec_level(self) -> nat {
        match self {
            EffectCategory::Passive => 0,
            EffectCategory::Online => 1,
            EffectCategory::Active => 2,
            EffectCategory::Overload => 3,
            EffectCategory::Target => 4,
            EffectCategory::Area => 5,
            EffectCategory::Dungeon => 6,
            EffectCategory::System => 7,
        }
    }

    pub fn level(&self) -> (r: u8)
        ensures
            r as nat == self.spec_level(),
    {
        match self {
            EffectCategory::Passive => 0,
            EffectCategory::Online => 1,
            EffectCategory::Active => 2,
            EffectCategory::Overload => 3,
            EffectCategory::Target => 4,
            EffectCategory::Area => 5,
            EffectCategory::Dungeon => 6,
            EffectCategory::System => 7,
        }
    }

    /// An item in this state has been activated (active or overloaded).
    pub fn is_active(&self) -> (r: bool)
        ensures
            r == (*self == EffectCategory::Active || *self == EffectCategory::Overload),
    {
        match self {
            EffectCategory::Active | EffectCategory::Overload => true,
            _ => false,
        }
    }
}

/// The nine ways a contribution can act on an attribute, in the order in
/// which they are applied.
#[derive(Debug, Clone, Copy, PartialEq, Eq, Structural)]
pub enum EffectOperator {
    PreAssign,
    PreMul,
    PreDiv,
    ModAdd,
    ModSub,
    PostMul,
    PostDiv,
    PostPercent,
    PostAssign,
}

impl EffectOperator {
    /// Position of the operator in the order of application.
    pub open spec fn spec_rank(self) -> nat {
        match self {
            EffectOperator::PreAssign => 0,
            EffectOperator::PreMul => 1,
            EffectOperator::PreDiv => 2,
            EffectOperator::ModAdd => 3,
            EffectOperator::ModSub => 4,
            EffectOperator::PostMul => 5,
            EffectOperator::PostDiv => 6,
            EffectOperator::PostPercent => 7,
            EffectOperator::PostAssign => 8,
        }
    }

    /// Multiplicative operators, the only ones a stacking penalty can touch.
    pub open spec fn spec_penalty_eligible(self) -> bool {
        match self {
            EffectOperator::PreMul | EffectOperator::PreDiv | EffectOperator::PostMul
            | EffectOperator::PostDiv | EffectOperator::PostPercent => true,
            _ => false,
        }
    }

    pub fn is_penalty_eligible(&self) -> (r: bool)
        ensures
            r == self.spec_penalty_eligible(),
    {
        match self {
            EffectOperator::PreMul | EffectOperator::PreDiv | EffectOperator::PostMul
            | EffectOperator::PostDiv | EffectOperator::PostPercent => true,
            _ => false,
        }
    }

    /// Operators that replace the running value instead of changing it.
    pub fn is_assignment(&self) -> (r: bool)
        ensures
            r == (*self == EffectOperator::PreAssign || *self == EffectOperator::PostAssign),
    {
        match self {
            EffectOperator::PreAssign | EffectOperator::PostAssign => true,
            _ => false,
        }
    }
}

/// A reference to an entity of the ship graph.
///
/// `Item(i)` is the i-th fitted module or drone, `Charge(i)` the charge loaded
/// in it, `Skill(i)` the i-th skill.
#[derive(Debug, Clone, Copy, PartialEq, Eq, Structural)]
pub enum Object {
    Ship,
    Item(usize),
    Charge(usize),
    Skill(usize),
    Char,
    Structure,
    Target,
}

/// One inbound contribution to an attribute.
#[derive(Debug, Clone, Copy, PartialEq, Eq, Structural)]
pub struct Effect {
    pub operator: EffectOperator,
    pub penalty: bool,
    pub source: Object,
    pub source_category: EffectCategory,
    pub source_attribute_id: i32,
}

/// The slot class an item occupies.
#[derive(Debug, Clone, Copy, PartialEq, Eq, Structural)]
pub enum SlotType {
    High,
    Medium,
    Low,
    Rig,
    SubSystem,
    DroneBay,
    Charge,
    NoSlot,
}

/// Where an item sits: its slot class and, for modules, its index there.
#[derive(Debug, Clone, Copy, PartialEq, Eq, Structural)]
pub struct Slot {
    pub slot_type: SlotType,
    pub index: Option<i32>,
}

impl Slot {
    pub open spec fn spec_is_module(self) -> bool {
        match self.slot_type {
            SlotType::High | SlotType::Medium | SlotType::Low | SlotType::Rig
            | SlotType::SubSystem => true,
            _ => false,
        }
    }

    /// The slot is one of the five module slot classes.
    pub fn is_module(&self) -> (r: bool)
        ensures
            r == self.spec_is_module(),
    {
        match self.slot_type {
            SlotType::High | SlotType::Medium | SlotType::Low | SlotType::Rig
            | SlotType::SubSystem => true,
            _ => false,
        }
    }
}

} // verus!
