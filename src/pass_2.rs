//! Effect expansion: every modifier of every effect of every item becomes a
//! set of inbound contributions on concrete target attributes, and each item
//! learns the highest activation level it can reach.
use vstd::prelude::*;

use crate::data_types::{
    DogmaEffect, DogmaEffectModifierInfo, DogmaEffectModifierInfoDomain,
    DogmaEffectModifierInfoFunc,
};
use crate::item::{Effect, EffectCategory, EffectOperator, Object};

verus! {

/// Routing of modifiers to targets, and activation bookkeeping.
pub struct PassTwo {}

/// How a modifier chooses its targets, with the payload each choice needs.
#[derive(Debug, Clone, Copy, PartialEq, Eq, Structural)]
pub enum Modifier {
    LocationRequiredSkillModifier(i32),
    LocationGroupModifier(i32),
    LocationModifier,
    OwnerRequiredSkillModifier(i32),
    ItemModifier,
}

/// A modifier that survived expansion, before it is routed to its targets.
#[derive(Debug, Clone, Copy, PartialEq, Eq, Structural)]
pub struct Pass2Effect {
    pub modifier: Modifier,
    pub operator: EffectOperator,
    pub source: Object,
    /// Type of the item that carries the effect.
    pub source_type_id: i32,
    /// Catalogue category of that type (decides the stacking-penalty exemption).
    pub source_category_id: i32,
    pub source_category: EffectCategory,
    pub source_attribute_id: i32,
    pub target: Object,
    pub target_attribute_id: i32,
}

/// A dogma effect of an item's type, with its identifier.
#[derive(Debug, Clone)]
pub struct TypeEffect {
    pub effect_id: i32,
    pub effect: DogmaEffect,
}

/// What expansion reads of one entity of the ship graph.
#[derive(Debug, Clone)]
pub struct Node {
    pub object: Object,
    pub type_id: i32,
    pub group_id: i32,
    pub category_id: i32,
    pub state: EffectCategory,
    pub max_state: EffectCategory,
    /// The item has a charge loaded (meaningful for `Object::Item`).
    pub has_charge: bool,
    /// The item declares a non-zero capacitor need, so it can be activated.
    pub has_capacitor_need: bool,
    /// Skill type ids held by the item's required-skill attributes, in attribute order.
    pub required_skills: Vec<i32>,
    pub effects: Vec<TypeEffect>,
}

/// Activation of one entity after expansion, with its effects that carry no modifier.
#[derive(Debug, Clone)]
pub struct Activation {
    pub state: EffectCategory,
    pub max_state: EffectCategory,
    pub effects: Vec<i32>,
}

/// One contribution delivered to one attribute of one target.
#[derive(Debug, Clone, Copy, PartialEq, Eq, Structural)]
pub struct Routed {
    pub target: Object,
    pub attribute_id: i32,
    pub effect: Effect,
}

/// Result of expansion: one activation per input node, and every routed contribution in order.
#[derive(Debug, Clone)]
pub struct PassTwoResult {
    pub activations: Vec<Activation>,
    pub routed: Vec<Routed>,
}

pub open spec fn known_category(code: i32) -> bool {
    0 <= code <= 7
}

pub open spec fn known_operation(code: i32) -> bool {
    -1 <= code <= 7 || code == 9
}

pub open spec fn spec_effect_category(code: i32) -> EffectCategory {
    if code == 0 {
        EffectCategory::Passive
    } else if code == 1 {
        EffectCategory::Active
    } else if code == 2 {
        EffectCategory::Target
    } else if code == 3 {
        EffectCategory::Area
    } else if code == 4 {
        EffectCategory::Online
    } else if code == 5 {
        EffectCategory::Overload
    } else if code == 6 {
        EffectCategory::Dungeon
    } else {
        EffectCategory::System
    }
}

/// `None` stands for operation 9 (skill points to level), which is skipped.
pub open spec fn spec_effect_operator(code: i32) -> Option<EffectOperator> {
    if code == -1 {
        Some(EffectOperator::PreAssign)
    } else if code == 0 {
        Some(EffectOperator::PreMul)
    } else if code == 1 {
        Some(EffectOperator::PreDiv)
    } else if code == 2 {
        Some(EffectOperator::ModAdd)
    } else if code == 3 {
        Some(EffectOperator::ModSub)
    } else if code == 4 {
        Some(EffectOperator::PostMul)
    } else if code == 5 {
        Some(EffectOperator::PostDiv)
    } else if code == 6 {
        Some(EffectOperator::PostPercent)
    } else if code == 7 {
        Some(EffectOperator::PostAssign)
    } else {
        None
    }
}

pub open spec fn needs_skill(func: DogmaEffectModifierInfoFunc) -> bool {
    func == DogmaEffectModifierInfoFunc::LocationRequiredSkillModifier
        || func == DogmaEffectModifierInfoFunc::OwnerRequiredSkillModifier
}

/// `None` for an effect stopper, which plays no part in attribute arithmetic.
pub open spec fn spec_modifier_func(
    func: DogmaEffectModifierInfoFunc,
    skill_type_id: Option<i32>,
    group_id: Option<i32>,
) -> Option<Modifier> {
    match func {
        DogmaEffectModifierInfoFunc::LocationRequiredSkillModifier => Some(
            Modifier::LocationRequiredSkillModifier(skill_type_id.unwrap()),
        ),
        DogmaEffectModifierInfoFunc::LocationGroupModifier => Some(
            Modifier::LocationGroupModifier(group_id.unwrap()),
        ),
        DogmaEffectModifierInfoFunc::LocationModifier => Some(Modifier::LocationModifier),
        DogmaEffectModifierInfoFunc::ItemModifier => Some(Modifier::ItemModifier),
        DogmaEffectModifierInfoFunc::OwnerRequiredSkillModifier => Some(
            Modifier::OwnerRequiredSkillModifier(skill_type_id.unwrap()),
        ),
        DogmaEffectModifierInfoFunc::EffectStopper => None,
    }
}

/// The entity a modifier domain designates, seen from `origin`.
pub open spec fn spec_target_object(domain: DogmaEffectModifierInfoDomain, origin: Object) -> Object {
    match domain {
        DogmaEffectModifierInfoDomain::ShipID => Object::Ship,
        DogmaEffectModifierInfoDomain::CharID => Object::Char,
        DogmaEffectModifierInfoDomain::OtherID => match origin {
            Object::Item(index) => Object::Charge(index),
            Object::Charge(index) => Object::Item(index),
            _ => origin,
        },
        DogmaEffectModifierInfoDomain::StructureID => Object::Structure,
        DogmaEffectModifierInfoDomain::ItemID => origin,
        DogmaEffectModifierInfoDomain::TargetID => Object::Target,
        DogmaEffectModifierInfoDomain::Target => Object::Target,
    }
}

/// A module whose effect reaches its charge, while no charge is loaded.
pub open spec fn charge_missing(m: DogmaEffectModifierInfo, origin: Object, has_charge: bool) -> bool {
    origin is Item && m.domain == DogmaEffectModifierInfoDomain::OtherID && !has_charge
}

/// The modifier can be expanded from `origin` without a defect that must abort:
/// its payload, operation and attribute ids are present, the operation is
/// tabulated, and an `OtherID` domain is only used between a module and its charge.
pub open spec fn modifier_valid(m: DogmaEffectModifierInfo, origin: Object, has_charge: bool) -> bool {
    m.func != DogmaEffectModifierInfoFunc::EffectStopper ==> {
        &&& needs_skill(m.func) ==> m.skillTypeID is Some
        &&& m.func == DogmaEffectModifierInfoFunc::LocationGroupModifier ==> m.groupID is Some
        &&& m.operation is Some
        &&& known_operation(m.operation.unwrap())
        &&& (m.operation.unwrap() != 9 && !charge_missing(m, origin, has_charge)) ==> {
            &&& m.domain == DogmaEffectModifierInfoDomain::OtherID ==> (origin is Item
                || origin is Charge)
            &&& m.modifyingAttributeID is Some
            &&& m.modifiedAttributeID is Some
        }
    }
}

pub open spec fn effect_valid(e: TypeEffect, origin: Object, has_charge: bool) -> bool {
    &&& known_category(e.effect.effectCategory)
    &&& forall|k: int|
        0 <= k < e.effect.modifierInfo@.len() ==> modifier_valid(
            #[trigger] e.effect.modifierInfo@[k],
            origin,
            has_charge,
        )
}

/// The node is an entity that carries effects, and all its effects can be expanded.
pub open spec fn node_valid(n: Node) -> bool {
    &&& !(n.object is Structure)
    &&& !(n.object is Target)
    &&& forall|j: int|
        0 <= j < n.effects@.len() ==> effect_valid(#[trigger] n.effects@[j], n.object, n.has_charge)
}

pub open spec fn nodes_valid(ns: Seq<Node>) -> bool {
    forall|i: int| 0 <= i < ns.len() ==> node_valid(#[trigger] ns[i])
}

/// Raise `cur` to `cat`, where `cat` is first capped at `Overload`.
pub open spec fn raise(cur: EffectCategory, cat: EffectCategory) -> EffectCategory {
    let capped = if cat.spec_level() > 3 {
        EffectCategory::Overload
    } else {
        cat
    };
    if capped.spec_level() > cur.spec_level() {
        capped
    } else {
        cur
    }
}

pub open spec fn raised_max(start: EffectCategory, effs: Seq<TypeEffect>) -> EffectCategory
    decreases effs.len(),
{
    if effs.len() == 0 {
        start
    } else {
        raise(
            raised_max(start, effs.drop_last()),
            spec_effect_category(effs.last().effect.effectCategory),
        )
    }
}

/// Highest activation a node can reach after expansion.
pub open spec fn spec_max_state(n: Node) -> EffectCategory {
    let m = raised_max(n.max_state, n.effects@);
    if n.has_capacitor_need && m.spec_level() < 2 {
        EffectCategory::Active
    } else {
        m
    }
}

/// The node's state, lowered to its highest reachable activation.
pub open spec fn spec_state(n: Node) -> EffectCategory {
    if n.state.spec_level() > spec_max_state(n).spec_level() {
        spec_max_state(n)
    } else {
        n.state
    }
}

/// Identifiers of the effects that carry no modifier, in order.
pub open spec fn bare_effects(effs: Seq<TypeEffect>) -> Seq<i32>
    decreases effs.len(),
{
    if effs.len() == 0 {
        Seq::empty()
    } else if effs.last().effect.modifierInfo@.len() == 0 {
        bare_effects(effs.drop_last()).push(effs.last().effect_id)
    } else {
        bare_effects(effs.drop_last())
    }
}

pub open spec fn activation_matches(a: Activation, n: Node) -> bool {
    &&& a.state == spec_state(n)
    &&& a.max_state == spec_max_state(n)
    &&& a.effects@ == bare_effects(n.effects@)
}

/// What one modifier of an effect in category `cat` of node `n` expands to.
pub open spec fn modifier_pe(n: Node, cat: EffectCategory, m: DogmaEffectModifierInfo) -> Option<Pass2Effect> {
    match spec_modifier_func(m.func, m.skillTypeID, m.groupID) {
        None => None,
        Some(modifier) => match spec_effect_operator(m.operation.unwrap()) {
            None => None,
            Some(operator) => if charge_missing(m, n.object, n.has_charge) {
                None
            } else {
                Some(
                    Pass2Effect {
                        modifier,
                        operator,
                        source: n.object,
                        source_type_id: n.type_id,
                        source_category_id: n.category_id,
                        source_category: cat,
                        source_attribute_id: m.modifyingAttributeID.unwrap(),
                        target: spec_target_object(m.domain, n.object),
                        target_attribute_id: m.modifiedAttributeID.unwrap(),
                    },
                )
            },
        },
    }
}

pub open spec fn option_seq<T>(o: Option<T>) -> Seq<T> {
    match o {
        Some(v) => seq![v],
        None => Seq::empty(),
    }
}

pub open spec fn modifiers_pes(n: Node, cat: EffectCategory, mods: Seq<DogmaEffectModifierInfo>) -> Seq<Pass2Effect>
    decreases mods.len(),
{
    if mods.len() == 0 {
        Seq::empty()
    } else {
        modifiers_pes(n, cat, mods.drop_last()) + option_seq(modifier_pe(n, cat, mods.last()))
    }
}

pub open spec fn effects_pes(n: Node, effs: Seq<TypeEffect>) -> Seq<Pass2Effect>
    decreases effs.len(),
{
    if effs.len() == 0 {
        Seq::empty()
    } else {
        effects_pes(n, effs.drop_last()) + modifiers_pes(
            n,
            spec_effect_category(effs.last().effect.effectCategory),
            effs.last().effect.modifierInfo@,
        )
    }
}

/// Every modifier that survives expansion, node by node, in order.
pub open spec fn nodes_pes(ns: Seq<Node>) -> Seq<Pass2Effect>
    decreases ns.len(),
{
    if ns.len() == 0 {
        Seq::empty()
    } else {
        nodes_pes(ns.drop_last()) + effects_pes(ns.last(), ns.last().effects@)
    }
}

/// Categories exempt from stacking penalties: ship, charge, skill, implant, subsystem.
pub open spec fn spec_penalty_exempt(category_id: i32) -> bool {
    category_id == 6 || category_id == 8 || category_id == 16 || category_id == 20 || category_id
        == 32
}

pub open spec fn spec_penalty(pe: Pass2Effect, stackable: Seq<i32>) -> bool {
    !stackable.contains(pe.target_attribute_id) && !spec_penalty_exempt(pe.source_category_id)
}

/// The inbound record an expanded modifier leaves on each of its targets.
pub open spec fn effect_record(pe: Pass2Effect, stackable: Seq<i32>) -> Effect {
    Effect {
        operator: pe.operator,
        penalty: spec_penalty(pe, stackable),
        source: pe.source,
        source_category: pe.source_category,
        source_attribute_id: pe.source_attribute_id,
    }
}

pub open spec fn routed_to(pe: Pass2Effect, stackable: Seq<i32>, target: Object) -> Routed {
    Routed { target, attribute_id: pe.target_attribute_id, effect: effect_record(pe, stackable) }
}

/// Entities reached by location-wide modifiers: the hull, the items and their charges.
pub open spec fn in_location(o: Object) -> bool {
    o is Ship || o is Item || o is Charge
}

/// The skill a required-skill modifier looks for; `-1` names the source's own type.
pub open spec fn skill_target(skill_type_id: i32, source_type_id: i32) -> i32 {
    if skill_type_id == -1 {
        source_type_id
    } else {
        skill_type_id
    }
}

/// Contributions a location-wide modifier delivers to node `n`.
pub open spec fn node_routed(pe: Pass2Effect, stackable: Seq<i32>, n: Node) -> Seq<Routed> {
    let r = routed_to(pe, stackable, n.object);
    if !in_location(n.object) {
        Seq::empty()
    } else {
        match pe.modifier {
            Modifier::ItemModifier => Seq::empty(),
            Modifier::LocationModifier => seq![r],
            Modifier::LocationGroupModifier(g) => if n.group_id == g {
                seq![r]
            } else {
                Seq::empty()
            },
            Modifier::LocationRequiredSkillModifier(s) => if n.required_skills@.contains(
                skill_target(s, pe.source_type_id),
            ) {
                seq![r]
            } else {
                Seq::empty()
            },
            Modifier::OwnerRequiredSkillModifier(s) => if n.required_skills@.contains(
                skill_target(s, pe.source_type_id),
            ) {
                seq![r]
            } else {
                Seq::empty()
            },
        }
    }
}

pub open spec fn nodes_routed(pe: Pass2Effect, stackable: Seq<i32>, ns: Seq<Node>) -> Seq<Routed>
    decreases ns.len(),
{
    if ns.len() == 0 {
        Seq::empty()
    } else {
        nodes_routed(pe, stackable, ns.drop_last()) + node_routed(pe, stackable, ns.last())
    }
}

/// Contributions one expanded modifier delivers, in order.
pub open spec fn pe_routed(pe: Pass2Effect, stackable: Seq<i32>, ns: Seq<Node>) -> Seq<Routed> {
    match pe.modifier {
        Modifier::ItemModifier => seq![routed_to(pe, stackable, pe.target)],
        _ => nodes_routed(pe, stackable, ns),
    }
}

pub open spec fn all_routed(pes: Seq<Pass2Effect>, stackable: Seq<i32>, ns: Seq<Node>) -> Seq<Routed>
    decreases pes.len(),
{
    if pes.len() == 0 {
        Seq::empty()
    } else {
        all_routed(pes.drop_last(), stackable, ns) + pe_routed(pes.last(), stackable, ns)
    }
}


/// Decodes an effect category of the data corpus.
pub fn get_effect_category(category: i32) -> (r: EffectCategory)
    requires
        known_category(category),
    ensures
        r == spec_effect_category(category),
{
    match category {
        0 => EffectCategory::Passive,
        1 => EffectCategory::Active,
        2 => EffectCategory::Target,
        3 => EffectCategory::Area,
        4 => EffectCategory::Online,
        5 => EffectCategory::Overload,
        6 => EffectCategory::Dungeon,
        _ => EffectCategory::System,
    }
}

/// Decodes a modifier operation of the data corpus; operation 9 gives `None`.
pub fn get_effect_operator(operation: i32) -> (r: Option<EffectOperator>)
    requires
        known_operation(operation),
    ensures
        r == spec_effect_operator(operation),
{
    match operation {
        -1 => Some(EffectOperator::PreAssign),
        0 => Some(EffectOperator::PreMul),
        1 => Some(EffectOperator::PreDiv),
        2 => Some(EffectOperator::ModAdd),
        3 => Some(EffectOperator::ModSub),
        4 => Some(EffectOperator::PostMul),
        5 => Some(EffectOperator::PostDiv),
        6 => Some(EffectOperator::PostPercent),
        7 => Some(EffectOperator::PostAssign),
        _ => None,
    }
}

/// The targeting rule of a modifier; `None` for an effect stopper.
pub fn get_modifier_func(
    func: DogmaEffectModifierInfoFunc,
    skill_type_id: Option<i32>,
    group_id: Option<i32>,
) -> (r: Option<Modifier>)
    requires
        needs_skill(func) ==> skill_type_id is Some,
        func == DogmaEffectModifierInfoFunc::LocationGroupModifier ==> group_id is Some,
    ensures
        r == spec_modifier_func(func, skill_type_id, group_id),
{
    match func {
        DogmaEffectModifierInfoFunc::LocationRequiredSkillModifier => Some(
            Modifier::LocationRequiredSkillModifier(skill_type_id.unwrap()),
        ),
        DogmaEffectModifierInfoFunc::LocationGroupModifier => Some(
            Modifier::LocationGroupModifier(group_id.unwrap()),
        ),
        DogmaEffectModifierInfoFunc::LocationModifier => Some(Modifier::LocationModifier),
        DogmaEffectModifierInfoFunc::ItemModifier => Some(Modifier::ItemModifier),
        DogmaEffectModifierInfoFunc::OwnerRequiredSkillModifier => Some(
            Modifier::OwnerRequiredSkillModifier(skill_type_id.unwrap()),
        ),
        DogmaEffectModifierInfoFunc::EffectStopper => None,
    }
}

/// The entity that a modifier domain designates from `origin`.
pub fn get_target_object(domain: DogmaEffectModifierInfoDomain, origin: Object) -> (r: Object)
    requires
        domain == DogmaEffectModifierInfoDomain::OtherID ==> (origin is Item || origin is Charge),
    ensures
        r == spec_target_object(domain, origin),
{
    match domain {
        DogmaEffectModifierInfoDomain::ShipID => Object::Ship,
        DogmaEffectModifierInfoDomain::CharID => Object::Char,
        DogmaEffectModifierInfoDomain::OtherID => match origin {
            Object::Item(index) => Object::Charge(index),
            Object::Charge(index) => Object::Item(index),
            _ => origin,
        },
        DogmaEffectModifierInfoDomain::StructureID => Object::Structure,
        DogmaEffectModifierInfoDomain::ItemID => origin,
        DogmaEffectModifierInfoDomain::TargetID => Object::Target,
        DogmaEffectModifierInfoDomain::Target => Object::Target,
    }
}

/// The source's category is one whose contributions are never stacking-penalised.
pub fn is_penalty_exempt(category_id: i32) -> (r: bool)
    ensures
        r == spec_penalty_exempt(category_id),
{
    category_id == 6 || category_id == 8 || category_id == 16 || category_id == 20 || category_id
        == 32
}

pub(crate) fn contains_id(ids: &Vec<i32>, id: i32) -> (r: bool)
    ensures
        r == ids@.contains(id),
{
    let mut i: usize = 0;
    while i < ids.len()
        invariant
            0 <= i <= ids@.len(),
            forall|k: int| 0 <= k < i ==> ids@[k] != id,
        decreases ids@.len() - i,
    {
        if ids[i] == id {
            return true;
        }
        i = i + 1;
    }
    false
}

fn modifier_effect(node: &Node, category: EffectCategory, m: DogmaEffectModifierInfo) -> (r: Option<Pass2Effect>)
    requires
        modifier_valid(m, node.object, node.has_charge),
    ensures
        r == modifier_pe(*node, category, m),
{
    if m.func == DogmaEffectModifierInfoFunc::EffectStopper {
        return None;
    }
    let modifier = get_modifier_func(m.func, m.skillTypeID, m.groupID);
    let modifier = match modifier {
        Some(v) => v,
        None => return None,
    };
    let operator = match get_effect_operator(m.operation.unwrap()) {
        Some(v) => v,
        None => return None,
    };
    let is_item = match node.object {
        Object::Item(_) => true,
        _ => false,
    };
    if is_item && m.domain == DogmaEffectModifierInfoDomain::OtherID && !node.has_charge {
        return None;
    }
    let target = get_target_object(m.domain, node.object);
    Some(
        Pass2Effect {
            modifier,
            operator,
            source: node.object,
            source_type_id: node.type_id,
            source_category_id: node.category_id,
            source_category: category,
            source_attribute_id: m.modifyingAttributeID.unwrap(),
            target,
            target_attribute_id: m.modifiedAttributeID.unwrap(),
        },
    )
}

impl Node {
    /// Expands the node's effects: appends every surviving modifier to `effects`
    /// and returns the node's activation after expansion.
    pub fn collect_effects(&self, effects: &mut Vec<Pass2Effect>) -> (r: Activation)
        requires
            node_valid(*self),
        ensures
            final(effects)@ == old(effects)@ + effects_pes(*self, self.effects@),
            activation_matches(r, *self),
    {
        let ghost start = effects@;
        let mut max_state = self.max_state;
        let mut bare: Vec<i32> = Vec::new();
        let n = self.effects.len();
        let mut j: usize = 0;
        while j < n
            invariant
                node_valid(*self),
                n == self.effects@.len(),
                0 <= j <= n,
                max_state == raised_max(self.max_state, self.effects@.take(j as int)),
                bare@ == bare_effects(self.effects@.take(j as int)),
                effects@ == start + effects_pes(*self, self.effects@.take(j as int)),
            decreases n - j,
        {
            let te = &self.effects[j];
            assert(effect_valid(self.effects@[j as int], self.object, self.has_charge));
            let category = get_effect_category(te.effect.effectCategory);
            let capped = if category.level() > 3 {
                EffectCategory::Overload
            } else {
                category
            };
            if capped.level() > max_state.level() {
                max_state = capped;
            }
            let ghost before = effects@;
            let mods = &te.effect.modifierInfo;
            if mods.len() == 0 {
                bare.push(te.effect_id);
            }
            let mut k: usize = 0;
            while k < mods.len()
                invariant
                    effect_valid(*te, self.object, self.has_charge),
                    0 <= k <= mods@.len(),
                    mods@ == te.effect.modifierInfo@,
                    category == spec_effect_category(te.effect.effectCategory),
                    effects@ == before + modifiers_pes(*self, category, mods@.take(k as int)),
                decreases mods@.len() - k,
            {
                let m = mods[k];
                assert(modifier_valid(mods@[k as int], self.object, self.has_charge));
                let pe = modifier_effect(self, category, m);
                match pe {
                    Some(v) => {
                        effects.push(v);
                    },
                    None => {},
                }
                proof {
                    assert(mods@.take(k + 1).drop_last() =~= mods@.take(k as int));
                }
                k = k + 1;
            }
            proof {
                assert(mods@.take(mods@.len() as int) =~= mods@);
                assert(self.effects@.take(j + 1).drop_last() =~= self.effects@.take(j as int));
            }
            j = j + 1;
        }
        proof {
            assert(self.effects@.take(n as int) =~= self.effects@);
        }
        if self.has_capacitor_need && max_state.level() < 2 {
            max_state = EffectCategory::Active;
        }
        let state = if self.state.level() > max_state.level() {
            max_state
        } else {
            self.state
        };
        Activation { state, max_state, effects: bare }
    }
}


fn route_to_node(
    pe: &Pass2Effect,
    stackable: &Vec<i32>,
    effect: Effect,
    node: &Node,
    routed: &mut Vec<Routed>,
)
    requires
        effect == effect_record(*pe, stackable@),
    ensures
        final(routed)@ == old(routed)@ + node_routed(*pe, stackable@, *node),
{
    let r = Routed { target: node.object, attribute_id: pe.target_attribute_id, effect };
    let located = match node.object {
        Object::Ship | Object::Item(_) | Object::Charge(_) => true,
        _ => false,
    };
    if !located {
        assert(node_routed(*pe, stackable@, *node) =~= Seq::empty());
        assert(routed@ =~= old(routed)@ + Seq::empty());
        return;
    }
    match pe.modifier {
        Modifier::ItemModifier => {
            assert(routed@ =~= old(routed)@ + Seq::empty());
        },
        Modifier::LocationModifier => {
            routed.push(r);
            assert(routed@ =~= old(routed)@ + seq![r]);
        },
        Modifier::LocationGroupModifier(g) => {
            if node.group_id == g {
                routed.push(r);
                assert(routed@ =~= old(routed)@ + seq![r]);
            } else {
                assert(routed@ =~= old(routed)@ + Seq::empty());
            }
        },
        Modifier::LocationRequiredSkillModifier(s) | Modifier::OwnerRequiredSkillModifier(s) => {
            let skill = if s == -1 {
                pe.source_type_id
            } else {
                s
            };
            if contains_id(&node.required_skills, skill) {
                routed.push(r);
                assert(routed@ =~= old(routed)@ + seq![r]);
            } else {
                assert(routed@ =~= old(routed)@ + Seq::empty());
            }
        },
    }
}

fn route_effect(pe: &Pass2Effect, nodes: &Vec<Node>, stackable: &Vec<i32>, routed: &mut Vec<Routed>)
    ensures
        final(routed)@ == old(routed)@ + pe_routed(*pe, stackable@, nodes@),
{
    let penalty = !contains_id(stackable, pe.target_attribute_id) && !is_penalty_exempt(
        pe.source_category_id,
    );
    let effect = Effect {
        operator: pe.operator,
        penalty,
        source: pe.source,
        source_category: pe.source_category,
        source_attribute_id: pe.source_attribute_id,
    };
    match pe.modifier {
        Modifier::ItemModifier => {
            let r = Routed { target: pe.target, attribute_id: pe.target_attribute_id, effect };
            routed.push(r);
            assert(routed@ =~= old(routed)@ + seq![r]);
        },
        _ => {
            let ghost start = routed@;
            let mut j: usize = 0;
            while j < nodes.len()
                invariant
                    0 <= j <= nodes@.len(),
                    effect == effect_record(*pe, stackable@),
                    !(pe.modifier is ItemModifier),
                    routed@ == start + nodes_routed(*pe, stackable@, nodes@.take(j as int)),
                decreases nodes@.len() - j,
            {
                route_to_node(pe, stackable, effect, &nodes[j], routed);
                proof {
                    assert(nodes@.take(j + 1).drop_last() =~= nodes@.take(j as int));
                    assert(routed@ =~= start + nodes_routed(*pe, stackable@, nodes@.take(j + 1)));
                }
                j = j + 1;
            }
            proof {
                assert(nodes@.take(nodes@.len() as int) =~= nodes@);
            }
        },
    }
}

/// The activation of a node after expansion never exceeds its highest reachable
/// activation, and expansion never lowers the highest reachable activation.
pub proof fn lemma_state_within_max_state(n: Node)
    ensures
        spec_state(n).spec_level() <= spec_max_state(n).spec_level(),
        n.max_state.spec_level() <= spec_max_state(n).spec_level(),
        spec_max_state(n).spec_level() <= 3 || spec_max_state(n) == n.max_state,
{
    lemma_raised_max_bounds(n.max_state, n.effects@);
}

proof fn lemma_raised_max_bounds(start: EffectCategory, effs: Seq<TypeEffect>)
    ensures
        start.spec_level() <= raised_max(start, effs).spec_level(),
        raised_max(start, effs).spec_level() <= 3 || raised_max(start, effs) == start,
    decreases effs.len(),
{
    if effs.len() > 0 {
        lemma_raised_max_bounds(start, effs.drop_last());
    }
}

impl PassTwo {
    /// Tells whether every node can be expanded without a defect that must abort.
    pub fn accepts(nodes: &Vec<Node>) -> (r: bool)
        ensures
            r == nodes_valid(nodes@),
    {
        let mut i: usize = 0;
        while i < nodes.len()
            invariant
                0 <= i <= nodes@.len(),
                forall|a: int| 0 <= a < i ==> node_valid(#[trigger] nodes@[a]),
            decreases nodes@.len() - i,
        {
            if !node_accepts(&nodes[i]) {
                return false;
            }
            i = i + 1;
        }
        true
    }

    /// Expands every node in order: the activation of each node, and every
    /// contribution routed to its target attributes.
    ///
    /// `stackable` lists the attribute ids flagged stackable in the data corpus;
    /// any other target attribute takes stacking penalties, unless the source's
    /// category is exempt.
    pub fn pass(nodes: &Vec<Node>, stackable: &Vec<i32>) -> (r: PassTwoResult)
        requires
            nodes_valid(nodes@),
        ensures
            r.activations@.len() == nodes@.len(),
            forall|i: int|
                0 <= i < nodes@.len() ==> activation_matches(
                    #[trigger] r.activations@[i],
                    nodes@[i],
                ),
            forall|i: int|
                0 <= i < nodes@.len() ==> (#[trigger] r.activations@[i]).state.spec_level()
                    <= r.activations@[i].max_state.spec_level(),
            r.routed@ == all_routed(nodes_pes(nodes@), stackable@, nodes@),
    {
        let mut pes: Vec<Pass2Effect> = Vec::new();
        let mut activations: Vec<Activation> = Vec::new();
        let mut i: usize = 0;
        while i < nodes.len()
            invariant
                0 <= i <= nodes@.len(),
                nodes_valid(nodes@),
                activations@.len() == i,
                forall|a: int|
                    0 <= a < i ==> activation_matches(#[trigger] activations@[a], nodes@[a]),
                pes@ == nodes_pes(nodes@.take(i as int)),
            decreases nodes@.len() - i,
        {
            let activation = nodes[i].collect_effects(&mut pes);
            activations.push(activation);
            proof {
                assert(nodes@.take(i + 1).drop_last() =~= nodes@.take(i as int));
            }
            i = i + 1;
        }
        proof {
            assert(nodes@.take(nodes@.len() as int) =~= nodes@);
            assert forall|a: int| 0 <= a < nodes@.len() implies (
            #[trigger] activations@[a]).state.spec_level()
                <= activations@[a].max_state.spec_level() by {
                lemma_state_within_max_state(nodes@[a]);
            }
        }
        let mut routed: Vec<Routed> = Vec::new();
        let mut k: usize = 0;
        while k < pes.len()
            invariant
                0 <= k <= pes@.len(),
                routed@ == all_routed(pes@.take(k as int), stackable@, nodes@),
            decreases pes@.len() - k,
        {
            route_effect(&pes[k], nodes, stackable, &mut routed);
            proof {
                assert(pes@.take(k + 1).drop_last() =~= pes@.take(k as int));
            }
            k = k + 1;
        }
        proof {
            assert(pes@.take(pes@.len() as int) =~= pes@);
        }
        PassTwoResult { activations, routed }
    }
}

fn modifier_accepts(m: DogmaEffectModifierInfo, origin: Object, has_charge: bool) -> (r: bool)
    ensures
        r == modifier_valid(m, origin, has_charge),
{
    if m.func == DogmaEffectModifierInfoFunc::EffectStopper {
        return true;
    }
    let skill_func = m.func == DogmaEffectModifierInfoFunc::LocationRequiredSkillModifier || m.func
        == DogmaEffectModifierInfoFunc::OwnerRequiredSkillModifier;
    if skill_func && m.skillTypeID.is_none() {
        return false;
    }
    if m.func == DogmaEffectModifierInfoFunc::LocationGroupModifier && m.groupID.is_none() {
        return false;
    }
    let operation = match m.operation {
        Some(v) => v,
        None => return false,
    };
    if !(-1 <= operation && operation <= 7 || operation == 9) {
        return false;
    }
    let is_item = match origin {
        Object::Item(_) => true,
        _ => false,
    };
    let is_charge = match origin {
        Object::Charge(_) => true,
        _ => false,
    };
    if operation == 9 || (is_item && m.domain == DogmaEffectModifierInfoDomain::OtherID
        && !has_charge) {
        return true;
    }
    (m.domain != DogmaEffectModifierInfoDomain::OtherID || is_item || is_charge)
        && m.modifyingAttributeID.is_some() && m.modifiedAttributeID.is_some()
}

fn node_accepts(node: &Node) -> (r: bool)
    ensures
        r == node_valid(*node),
{
    match node.object {
        Object::Structure | Object::Target => {
            return false;
        },
        _ => {},
    }
    let mut j: usize = 0;
    while j < node.effects.len()
        invariant
            0 <= j <= node.effects@.len(),
            !(node.object is Structure) && !(node.object is Target),
            forall|a: int|
                0 <= a < j ==> effect_valid(#[trigger] node.effects@[a], node.object, node.has_charge),
        decreases node.effects@.len() - j,
    {
        let te = &node.effects[j];
        let code = te.effect.effectCategory;
        if code < 0 || code > 7 {
            return false;
        }
        let mods = &te.effect.modifierInfo;
        let mut k: usize = 0;
        while k < mods.len()
            invariant
                0 <= k <= mods@.len(),
                j < node.effects@.len(),
                mods@ == node.effects@[j as int].effect.modifierInfo@,
                forall|b: int|
                    0 <= b < k ==> modifier_valid(#[trigger] mods@[b], node.object, node.has_charge),
            decreases mods@.len() - k,
        {
            if !modifier_accepts(mods[k], node.object, node.has_charge) {
                assert(!modifier_valid(mods@[k as int], node.object, node.has_charge));
                assert(!effect_valid(node.effects@[j as int], node.object, node.has_charge));
                return false;
            }
            k = k + 1;
        }
        j = j + 1;
    }
    true
}


/// The skill a required-skill modifier names (`-1` for the source's own type).
pub open spec fn required_skill_of(m: Modifier) -> i32 {
    match m {
        Modifier::LocationRequiredSkillModifier(s) => s,
        Modifier::OwnerRequiredSkillModifier(s) => s,
        _ => 0,
    }
}

/// `n` is reached by the required-skill modifier `pe`: the hull, an item or a
/// charge, one of whose required-skill attributes names the skill looked for.
pub open spec fn skill_match(pe: Pass2Effect, n: Node) -> bool {
    in_location(n.object) && n.required_skills@.contains(
        skill_target(required_skill_of(pe.modifier), pe.source_type_id),
    )
}

/// A required-skill modifier reaches, once each and in order, exactly the
/// entities of the hull, the items and the charges one of whose required-skill
/// attributes names the skill looked for (with `-1`, the type of the
/// modifier's own source); it reaches no skill, character, structure or target.
pub proof fn lemma_required_skill_routing(pe: Pass2Effect, stackable: Seq<i32>, ns: Seq<Node>)
    requires
        pe.modifier is LocationRequiredSkillModifier || pe.modifier is OwnerRequiredSkillModifier,
    ensures
        pe_routed(pe, stackable, ns) == ns.filter(|n: Node| skill_match(pe, n)).map_values(
            |n: Node| routed_to(pe, stackable, n.object),
        ),
    decreases ns.len(),
{
    reveal(Seq::filter);
    let pred = |n: Node| skill_match(pe, n);
    let f = |n: Node| routed_to(pe, stackable, n.object);
    if ns.len() == 0 {
        assert(ns.filter(pred).map_values(f) =~= Seq::empty());
    } else {
        lemma_required_skill_routing(pe, stackable, ns.drop_last());
        let prev = ns.drop_last().filter(pred);
        if pred(ns.last()) {
            assert(prev.push(ns.last()).map_values(f) =~= prev.map_values(f).push(f(ns.last())));
            assert(node_routed(pe, stackable, ns.last()) =~= seq![f(ns.last())]);
        } else {
            assert(node_routed(pe, stackable, ns.last()) =~= Seq::empty());
        }
        assert(pe_routed(pe, stackable, ns) =~= ns.filter(pred).map_values(f));
    }
}

} // verus!
