use esf_dogma_engine::data_types::{EsfCharge, EsfDrone, EsfFit, EsfModule, EsfSlot, EsfSlotType, EsfState};
use esf_dogma_engine::item::{Effect, EffectCategory, EffectOperator, Object, Slot, SlotType};
use esf_dogma_engine::pass_1::PassOne;
use esf_dogma_engine::pass_3::PassThree;
use esf_dogma_engine::pass_4::{HullAttribute, PassFour};

fn contribution(source: Object, source_attribute_id: i32) -> Effect {
    Effect {
        operator: EffectOperator::PostMul,
        penalty: false,
        source,
        source_category: EffectCategory::Active,
        source_attribute_id,
    }
}

#[test]
fn activation_ladder() {
    assert!(EffectCategory::Active.is_active());
    assert!(EffectCategory::Overload.is_active());
    assert!(!EffectCategory::Online.is_active());
    assert!(!EffectCategory::Target.is_active());
    assert_eq!(EffectCategory::Passive.level(), 0);
    assert_eq!(EffectCategory::System.level(), 7);
}

#[test]
fn module_slots() {
    assert!(Slot { slot_type: SlotType::Rig, index: Some(0) }.is_module());
    assert!(Slot { slot_type: SlotType::SubSystem, index: Some(2) }.is_module());
    assert!(!Slot { slot_type: SlotType::DroneBay, index: None }.is_module());
    assert!(!Slot { slot_type: SlotType::Charge, index: None }.is_module());
    assert!(!Slot { slot_type: SlotType::NoSlot, index: None }.is_module());
}

#[test]
fn fit_items_in_ship_order() {
    let fit = EsfFit {
        ship_type_id: 587,
        modules: vec![
            EsfModule {
                type_id: 2881,
                slot: EsfSlot { slot_type: EsfSlotType::High, index: 1 },
                state: EsfState::Overload,
                charge: Some(EsfCharge { type_id: 185 }),
            },
            EsfModule {
                type_id: 2048,
                slot: EsfSlot { slot_type: EsfSlotType::Low, index: 0 },
                state: EsfState::Online,
                charge: None,
            },
        ],
        drones: vec![
            EsfDrone { type_id: 2488, state: EsfState::Passive },
            EsfDrone { type_id: 2488, state: EsfState::Online },
            EsfDrone { type_id: 2488, state: EsfState::Overload },
        ],
    };
    let items = PassOne::items(&fit);
    assert_eq!(items.len(), 5);
    assert_eq!(items[0].slot, Slot { slot_type: SlotType::High, index: Some(1) });
    assert_eq!(items[0].state, EffectCategory::Overload);
    assert_eq!(items[0].max_state, EffectCategory::Passive);
    assert_eq!(items[0].charge_type_id, Some(185));
    assert_eq!(items[1].slot.slot_type, SlotType::Low);
    assert_eq!(items[1].state, EffectCategory::Online);
    assert_eq!(items[2].slot, Slot { slot_type: SlotType::DroneBay, index: None });
    assert_eq!(items[2].state, EffectCategory::Passive);
    assert_eq!(items[2].max_state, EffectCategory::Passive);
    // Drone states map one to one, like module states.
    assert_eq!(items[3].state, EffectCategory::Online);
    assert_eq!(items[3].max_state, EffectCategory::Passive);
    assert_eq!(items[4].state, EffectCategory::Overload);
}

#[test]
fn operators_in_order_of_application() {
    assert_eq!(
        PassThree::operators(),
        vec![
            EffectOperator::PreAssign,
            EffectOperator::PreMul,
            EffectOperator::PreDiv,
            EffectOperator::ModAdd,
            EffectOperator::ModSub,
            EffectOperator::PostMul,
            EffectOperator::PostDiv,
            EffectOperator::PostPercent,
            EffectOperator::PostAssign,
        ]
    );
    assert!(EffectOperator::PostPercent.is_penalty_eligible());
    assert!(!EffectOperator::ModAdd.is_penalty_eligible());
    assert!(EffectOperator::PostAssign.is_assignment());
}

#[test]
fn stacking_penalty_exponents() {
    assert_eq!(PassThree::penalty_exponent(0), 0);
    assert_eq!(PassThree::penalty_exponent(1), 1);
    assert_eq!(PassThree::penalty_exponent(2), 4);
    assert_eq!(PassThree::penalty_exponent(3), 9);
    // Two +10% modules: (1 + 0.1) * (1 + 0.1 * PENALTY); a third adds (1 + 0.1 * PENALTY^4).
    let penalty: f64 = (-(1.0f64 / 2.67).powi(2)).exp();
    assert!((penalty - 0.8691199808003974).abs() < 1e-12);
    let mut value = 1.0f64;
    for k in 0..3usize {
        value *= 1.0 + 0.1 * penalty.powi(PassThree::penalty_exponent(k));
    }
    let expected = 1.1 * (1.0 + 0.1 * penalty) * (1.0 + 0.1 * penalty.powi(4));
    assert!((value - expected).abs() < 1e-9);
}

#[test]
fn gating_and_penalties() {
    let mut e = contribution(Object::Item(0), 20);
    assert!(PassThree::applies(&e, EffectCategory::Active));
    assert!(PassThree::applies(&e, EffectCategory::Overload));
    assert!(!PassThree::applies(&e, EffectCategory::Online));
    assert!(!PassThree::is_penalised(&e));
    e.penalty = true;
    assert!(PassThree::is_penalised(&e));
    e.operator = EffectOperator::ModAdd;
    assert!(!PassThree::is_penalised(&e));
}

#[test]
fn rah_dependencies_are_transitive() {
    let hull = vec![
        HullAttribute { attribute_id: 100, effects: vec![contribution(Object::Ship, 200)] },
        HullAttribute { attribute_id: 109, effects: vec![contribution(Object::Item(2), 999)] },
        HullAttribute { attribute_id: 200, effects: vec![contribution(Object::Item(3), 267)] },
        HullAttribute { attribute_id: 267, effects: vec![contribution(Object::Item(2), 267)] },
        HullAttribute { attribute_id: 300, effects: vec![contribution(Object::Ship, 100)] },
    ];
    let affected = PassFour::rah_affected_attributes(&hull, 3);
    assert_eq!(affected, vec![200, 100, 300]);
    assert!(PassFour::rah_affected_attributes(&hull, 5).is_empty());
}

#[test]
fn buckets_group_counting_contributions_by_operator() {
    let mut a = contribution(Object::Item(0), 20);
    a.penalty = true;
    let mut b = contribution(Object::Item(1), 20);
    b.penalty = false;
    let mut c = contribution(Object::Skill(0), 280);
    c.operator = EffectOperator::ModAdd;
    c.penalty = true;
    let mut d = contribution(Object::Charge(4), 30);
    d.operator = EffectOperator::ModAdd;
    let mut e = contribution(Object::Item(2), 20);
    e.source_category = EffectCategory::Overload;
    let effects = vec![a, b, c, d, e];
    let states = vec![
        Some(EffectCategory::Active),
        Some(EffectCategory::Active),
        Some(EffectCategory::Active),
        None,
        Some(EffectCategory::Active),
    ];
    let buckets = PassThree::buckets(&effects, &states);
    assert_eq!(buckets.len(), 9);
    assert_eq!(buckets[3].operator, EffectOperator::ModAdd);
    assert_eq!(buckets[3].plain, vec![c]);
    assert!(buckets[3].penalised.is_empty());
    assert_eq!(buckets[5].operator, EffectOperator::PostMul);
    assert_eq!(buckets[5].plain, vec![b]);
    assert_eq!(buckets[5].penalised, vec![a]);
    for (i, bucket) in buckets.iter().enumerate() {
        if i != 3 && i != 5 {
            assert!(bucket.plain.is_empty() && bucket.penalised.is_empty());
        }
    }
}

#[test]
fn pass_four_item_selection() {
    let high = Slot { slot_type: SlotType::High, index: Some(0) };
    let bay = Slot { slot_type: SlotType::DroneBay, index: None };
    assert!(PassFour::uses_fitting(&high, EffectCategory::Online));
    assert!(!PassFour::uses_fitting(&high, EffectCategory::Passive));
    assert!(!PassFour::uses_fitting(&bay, EffectCategory::Active));
    assert!(PassFour::drains_capacitor(&high, EffectCategory::Overload));
    assert!(!PassFour::drains_capacitor(&high, EffectCategory::Online));
    assert!(PassFour::is_active_drone(&bay, EffectCategory::Active));
    assert!(!PassFour::is_active_drone(&bay, EffectCategory::Passive));
    assert!(!PassFour::is_active_drone(&high, EffectCategory::Active));
}

fn fitted(slot_type: EsfSlotType, index: i32) -> EsfModule {
    EsfModule {
        type_id: 1,
        slot: EsfSlot { slot_type, index },
        state: EsfState::Active,
        charge: None,
    }
}

#[test]
fn state_letters_set_module_states() {
    let mut fit = EsfFit {
        ship_type_id: 587,
        modules: vec![
            fitted(EsfSlotType::High, 0),
            fitted(EsfSlotType::High, 0),
            fitted(EsfSlotType::Medium, 7),
            fitted(EsfSlotType::Low, 1),
            fitted(EsfSlotType::Rig, 0),
        ],
        drones: vec![],
    };
    let letters = "PAAAAAAA".to_string() + "AAAAAAAV" + "AOAAAAAA";
    assert_eq!(esf_dogma_engine::fit_states::apply_state_letters(&mut fit, &letters), Ok(()));
    let states: Vec<EsfState> = fit.modules.iter().map(|m| m.state).collect();
    assert_eq!(
        states,
        vec![EsfState::Passive, EsfState::Active, EsfState::Overload, EsfState::Online, EsfState::Active]
    );
}

#[test]
fn state_letters_errors() {
    let mut fit = EsfFit {
        ship_type_id: 587,
        modules: vec![fitted(EsfSlotType::Low, 2)],
        drones: vec![],
    };
    assert!(esf_dogma_engine::fit_states::apply_state_letters(&mut fit, "PPP").is_err());
    // An unknown letter at an empty slot is ignored; at a fitted one it fails.
    let ignored = "X".repeat(8) + &"A".repeat(8) + "AAAAAAAA";
    assert_eq!(esf_dogma_engine::fit_states::apply_state_letters(&mut fit, &ignored), Ok(()));
    let bad = "A".repeat(16) + "AAXAAAAA";
    assert_eq!(
        esf_dogma_engine::fit_states::apply_state_letters(&mut fit, &bad),
        Err("Invalid state character: X".to_string())
    );
    assert_eq!(fit.modules[0].state, EsfState::Active);
}
