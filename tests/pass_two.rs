use esf_dogma_engine::data_types::{
    DogmaEffect, DogmaEffectModifierInfo, DogmaEffectModifierInfoDomain,
    DogmaEffectModifierInfoFunc,
};
use esf_dogma_engine::item::{EffectCategory, EffectOperator, Object};
use esf_dogma_engine::pass_2::{
    get_effect_category, get_effect_operator, get_modifier_func, get_target_object,
    is_penalty_exempt, Modifier, Node, PassTwo, TypeEffect,
};

fn effect(category: i32, modifiers: Vec<DogmaEffectModifierInfo>) -> DogmaEffect {
    DogmaEffect {
        dischargeAttributeID: None,
        durationAttributeID: None,
        effectCategory: category,
        electronicChance: false,
        isAssistance: false,
        isOffensive: false,
        isWarpSafe: false,
        propulsionChance: false,
        rangeChance: false,
        rangeAttributeID: None,
        falloffAttributeID: None,
        trackingSpeedAttributeID: None,
        fittingUsageChanceAttributeID: None,
        resistanceAttributeID: None,
        modifierInfo: modifiers,
    }
}

fn modifier(
    domain: DogmaEffectModifierInfoDomain,
    func: DogmaEffectModifierInfoFunc,
    operation: i32,
    modified: i32,
    modifying: i32,
) -> DogmaEffectModifierInfo {
    DogmaEffectModifierInfo {
        domain,
        func,
        modifiedAttributeID: Some(modified),
        modifyingAttributeID: Some(modifying),
        operation: Some(operation),
        groupID: None,
        skillTypeID: None,
    }
}

fn node(object: Object, type_id: i32, category_id: i32, effects: Vec<TypeEffect>) -> Node {
    Node {
        object,
        type_id,
        group_id: 0,
        category_id,
        state: EffectCategory::Active,
        max_state: EffectCategory::Active,
        has_charge: false,
        has_capacitor_need: false,
        required_skills: Vec::new(),
        effects,
    }
}

fn module(index: usize, type_id: i32, state: EffectCategory, effects: Vec<TypeEffect>) -> Node {
    let mut n = node(Object::Item(index), type_id, 7, effects);
    n.state = state;
    n.max_state = EffectCategory::Passive;
    n
}

#[test]
fn category_and_operator_codes() {
    assert_eq!(get_effect_category(0), EffectCategory::Passive);
    assert_eq!(get_effect_category(1), EffectCategory::Active);
    assert_eq!(get_effect_category(2), EffectCategory::Target);
    assert_eq!(get_effect_category(4), EffectCategory::Online);
    assert_eq!(get_effect_category(5), EffectCategory::Overload);
    assert_eq!(get_effect_category(7), EffectCategory::System);
    assert_eq!(get_effect_operator(-1), Some(EffectOperator::PreAssign));
    assert_eq!(get_effect_operator(2), Some(EffectOperator::ModAdd));
    assert_eq!(get_effect_operator(6), Some(EffectOperator::PostPercent));
    assert_eq!(get_effect_operator(7), Some(EffectOperator::PostAssign));
    assert_eq!(get_effect_operator(9), None);
}

#[test]
fn modifier_functions_and_domains() {
    assert_eq!(
        get_modifier_func(DogmaEffectModifierInfoFunc::LocationGroupModifier, None, Some(55)),
        Some(Modifier::LocationGroupModifier(55))
    );
    assert_eq!(
        get_modifier_func(DogmaEffectModifierInfoFunc::OwnerRequiredSkillModifier, Some(-1), None),
        Some(Modifier::OwnerRequiredSkillModifier(-1))
    );
    assert_eq!(get_modifier_func(DogmaEffectModifierInfoFunc::EffectStopper, None, None), None);
    assert_eq!(
        get_target_object(DogmaEffectModifierInfoDomain::OtherID, Object::Item(3)),
        Object::Charge(3)
    );
    assert_eq!(
        get_target_object(DogmaEffectModifierInfoDomain::OtherID, Object::Charge(2)),
        Object::Item(2)
    );
    assert_eq!(
        get_target_object(DogmaEffectModifierInfoDomain::ShipID, Object::Skill(1)),
        Object::Ship
    );
    assert_eq!(
        get_target_object(DogmaEffectModifierInfoDomain::ItemID, Object::Skill(1)),
        Object::Skill(1)
    );
    assert_eq!(DogmaEffectModifierInfoDomain::from(3), DogmaEffectModifierInfoDomain::OtherID);
    assert_eq!(DogmaEffectModifierInfoDomain::from(42), DogmaEffectModifierInfoDomain::ItemID);
    assert_eq!(
        DogmaEffectModifierInfoFunc::from(4),
        DogmaEffectModifierInfoFunc::OwnerRequiredSkillModifier
    );
}

#[test]
fn penalty_exempt_categories() {
    for c in [6, 8, 16, 20, 32] {
        assert!(is_penalty_exempt(c));
    }
    for c in [0, 7, 18, 87] {
        assert!(!is_penalty_exempt(c));
    }
}

#[test]
fn max_state_follows_effect_categories() {
    // Online (4) effect: a passive module can be put online, not activated.
    let online = TypeEffect { effect_id: 16, effect: effect(4, vec![]) };
    let nodes = vec![module(0, 100, EffectCategory::Overload, vec![online])];
    let r = PassTwo::pass(&nodes, &vec![]);
    assert_eq!(r.activations[0].max_state, EffectCategory::Online);
    assert_eq!(r.activations[0].state, EffectCategory::Online);
    assert_eq!(r.activations[0].effects, vec![16]);
    assert!(r.routed.is_empty());
}

#[test]
fn capacitor_need_makes_a_module_activatable() {
    let online = TypeEffect { effect_id: 16, effect: effect(4, vec![]) };
    let mut m = module(0, 100, EffectCategory::Overload, vec![online]);
    m.has_capacitor_need = true;
    let r = PassTwo::pass(&vec![m], &vec![]);
    assert_eq!(r.activations[0].max_state, EffectCategory::Active);
    assert_eq!(r.activations[0].state, EffectCategory::Active);
}

#[test]
fn target_category_is_capped_at_overload() {
    let targeted = TypeEffect { effect_id: 20, effect: effect(2, vec![]) };
    let r = PassTwo::pass(&vec![module(0, 100, EffectCategory::Overload, vec![targeted])], &vec![]);
    assert_eq!(r.activations[0].max_state, EffectCategory::Overload);
    assert_eq!(r.activations[0].state, EffectCategory::Overload);
}

#[test]
fn passive_state_stays_below_max_state() {
    let active = TypeEffect { effect_id: 10, effect: effect(1, vec![]) };
    let r = PassTwo::pass(&vec![module(0, 100, EffectCategory::Passive, vec![active])], &vec![]);
    assert_eq!(r.activations[0].max_state, EffectCategory::Active);
    assert_eq!(r.activations[0].state, EffectCategory::Passive);
}

#[test]
fn item_modifier_routes_to_ship_with_penalty() {
    let m = modifier(
        DogmaEffectModifierInfoDomain::ShipID,
        DogmaEffectModifierInfoFunc::ItemModifier,
        6,
        263,
        1,
    );
    let e = TypeEffect { effect_id: 5, effect: effect(0, vec![m]) };
    let nodes = vec![
        node(Object::Ship, 587, 6, vec![]),
        module(0, 200, EffectCategory::Online, vec![e]),
    ];
    let r = PassTwo::pass(&nodes, &vec![]);
    assert_eq!(r.routed.len(), 1);
    assert_eq!(r.routed[0].target, Object::Ship);
    assert_eq!(r.routed[0].attribute_id, 263);
    assert_eq!(r.routed[0].effect.operator, EffectOperator::PostPercent);
    assert_eq!(r.routed[0].effect.source, Object::Item(0));
    assert_eq!(r.routed[0].effect.source_category, EffectCategory::Passive);
    assert_eq!(r.routed[0].effect.source_attribute_id, 1);
    assert!(r.routed[0].effect.penalty);

    // A stackable target attribute takes no penalty.
    let r = PassTwo::pass(&nodes, &vec![263]);
    assert!(!r.routed[0].effect.penalty);
}

#[test]
fn skill_sources_are_exempt_from_penalty() {
    let m = modifier(
        DogmaEffectModifierInfoDomain::ShipID,
        DogmaEffectModifierInfoFunc::ItemModifier,
        4,
        37,
        280,
    );
    let e = TypeEffect { effect_id: 5, effect: effect(0, vec![m]) };
    let nodes = vec![node(Object::Ship, 587, 6, vec![]), node(Object::Skill(0), 3300, 16, vec![e])];
    let r = PassTwo::pass(&nodes, &vec![]);
    assert_eq!(r.routed.len(), 1);
    assert!(!r.routed[0].effect.penalty);
}

#[test]
fn skipped_modifiers() {
    let skill_points = modifier(
        DogmaEffectModifierInfoDomain::ItemID,
        DogmaEffectModifierInfoFunc::ItemModifier,
        9,
        280,
        276,
    );
    let stopper = DogmaEffectModifierInfo {
        domain: DogmaEffectModifierInfoDomain::ItemID,
        func: DogmaEffectModifierInfoFunc::EffectStopper,
        modifiedAttributeID: None,
        modifyingAttributeID: None,
        operation: None,
        groupID: None,
        skillTypeID: None,
    };
    let to_charge = modifier(
        DogmaEffectModifierInfoDomain::OtherID,
        DogmaEffectModifierInfoFunc::ItemModifier,
        0,
        114,
        64,
    );
    let e = TypeEffect { effect_id: 5, effect: effect(0, vec![skill_points, stopper, to_charge]) };
    let nodes = vec![module(0, 200, EffectCategory::Active, vec![e.clone()])];
    assert!(PassTwo::accepts(&nodes));
    let r = PassTwo::pass(&nodes, &vec![]);
    assert!(r.routed.is_empty());
    assert!(r.activations[0].effects.is_empty());

    // With a charge loaded, the `OtherID` modifier reaches it.
    let mut loaded = module(0, 200, EffectCategory::Active, vec![e]);
    loaded.has_charge = true;
    let charge = node(Object::Charge(0), 300, 8, vec![]);
    let r = PassTwo::pass(&vec![loaded, charge], &vec![]);
    assert_eq!(r.routed.len(), 1);
    assert_eq!(r.routed[0].target, Object::Charge(0));
    assert_eq!(r.routed[0].effect.operator, EffectOperator::PreMul);
}

#[test]
fn defects_that_abort_are_rejected() {
    let unknown_category = TypeEffect { effect_id: 1, effect: effect(8, vec![]) };
    assert!(!PassTwo::accepts(&vec![module(0, 1, EffectCategory::Active, vec![unknown_category])]));

    let unknown_operation = modifier(
        DogmaEffectModifierInfoDomain::ItemID,
        DogmaEffectModifierInfoFunc::ItemModifier,
        8,
        1,
        2,
    );
    let e = TypeEffect { effect_id: 1, effect: effect(0, vec![unknown_operation]) };
    assert!(!PassTwo::accepts(&vec![module(0, 1, EffectCategory::Active, vec![e])]));

    let other_from_ship = modifier(
        DogmaEffectModifierInfoDomain::OtherID,
        DogmaEffectModifierInfoFunc::ItemModifier,
        0,
        1,
        2,
    );
    let e = TypeEffect { effect_id: 1, effect: effect(0, vec![other_from_ship]) };
    assert!(!PassTwo::accepts(&vec![node(Object::Ship, 587, 6, vec![e])]));

    let mut missing_group = modifier(
        DogmaEffectModifierInfoDomain::ShipID,
        DogmaEffectModifierInfoFunc::LocationGroupModifier,
        0,
        1,
        2,
    );
    missing_group.groupID = None;
    let e = TypeEffect { effect_id: 1, effect: effect(0, vec![missing_group]) };
    assert!(!PassTwo::accepts(&vec![node(Object::Ship, 587, 6, vec![e])]));
}

#[test]
fn location_and_group_modifiers() {
    let mut by_group = modifier(
        DogmaEffectModifierInfoDomain::ShipID,
        DogmaEffectModifierInfoFunc::LocationGroupModifier,
        6,
        64,
        10,
    );
    by_group.groupID = Some(55);
    let everywhere = modifier(
        DogmaEffectModifierInfoDomain::ShipID,
        DogmaEffectModifierInfoFunc::LocationModifier,
        2,
        9,
        11,
    );
    let e = TypeEffect { effect_id: 7, effect: effect(0, vec![by_group, everywhere]) };
    let mut gun = module(0, 400, EffectCategory::Active, vec![]);
    gun.group_id = 55;
    gun.has_charge = true;
    let mut ammo = node(Object::Charge(0), 500, 8, vec![]);
    ammo.group_id = 85;
    let nodes = vec![
        node(Object::Ship, 587, 6, vec![e]),
        node(Object::Char, 1373, 1, vec![]),
        gun,
        ammo,
        node(Object::Skill(0), 3300, 16, vec![]),
    ];
    let r = PassTwo::pass(&nodes, &vec![]);
    let targets: Vec<(Object, i32)> = r.routed.iter().map(|x| (x.target, x.attribute_id)).collect();
    assert_eq!(
        targets,
        vec![(Object::Item(0), 64), (Object::Ship, 9), (Object::Item(0), 9), (Object::Charge(0), 9)]
    );
    // The hull is a ship: its contributions are never penalised.
    assert!(r.routed.iter().all(|x| !x.effect.penalty));
}

#[test]
fn required_skill_minus_one_reaches_items_that_require_the_source() {
    let mut m = modifier(
        DogmaEffectModifierInfoDomain::ShipID,
        DogmaEffectModifierInfoFunc::OwnerRequiredSkillModifier,
        6,
        51,
        292,
    );
    m.skillTypeID = Some(-1);
    let e = TypeEffect { effect_id: 9, effect: effect(0, vec![m]) };
    let mut hull = node(Object::Ship, 587, 6, vec![]);
    hull.required_skills = vec![3327];
    let mut gun = module(0, 400, EffectCategory::Active, vec![]);
    gun.required_skills = vec![3300, 3301];
    gun.has_charge = true;
    let mut ammo = node(Object::Charge(0), 500, 8, vec![]);
    ammo.required_skills = vec![3300];
    let mut launcher = module(1, 401, EffectCategory::Active, vec![]);
    launcher.required_skills = vec![3319];
    let mut both = module(2, 402, EffectCategory::Active, vec![]);
    both.required_skills = vec![3300, 3300];
    let nodes = vec![
        hull,
        gun,
        ammo,
        launcher,
        both,
        node(Object::Skill(0), 3300, 16, vec![e]),
    ];
    let r = PassTwo::pass(&nodes, &vec![]);
    let targets: Vec<Object> = r.routed.iter().map(|x| x.target).collect();
    // Each matching entity is reached once, even when two of its
    // required-skill attributes name the skill.
    assert_eq!(targets, vec![Object::Item(0), Object::Charge(0), Object::Item(2)]);
    assert!(r.routed.iter().all(|x| x.attribute_id == 51 && x.effect.source == Object::Skill(0)));
}
