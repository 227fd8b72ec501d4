//! Derived synthesis: the part of the reactive-adaptive-hardener solution
//! that is about which hull attributes follow the hardener's resonances.
use vstd::prelude::*;

use crate::item::{Effect, EffectCategory, Object, Slot, SlotType};
use crate::pass_2::contains_id;

verus! {

/// Synthesis of derived attributes.
pub struct PassFour {}

/// Type id of the reactive armor hardener.
pub const RAH_TYPE_ID: i32 = 4403;

/// One attribute of the hull with its inbound contributions.
#[derive(Debug, Clone)]
pub struct HullAttribute {
    pub attribute_id: i32,
    pub effects: Vec<Effect>,
}

/// The hardener's four resonance attributes: em, explosive, kinetic, thermal.
pub open spec fn is_resonance_id(id: i32) -> bool {
    id == 267 || id == 268 || id == 269 || id == 270
}

pub open spec fn as_set(v: Seq<i32>) -> Set<i32> {
    Set::new(|x: i32| v.contains(x))
}

/// The contribution is driven by a resonance of the hardener at `rah_index`,
/// or by a hull attribute in `found`.
pub open spec fn rah_source(e: Effect, rah_index: usize, found: Set<i32>) -> bool {
    ||| (e.source == Object::Item(rah_index) && is_resonance_id(e.source_attribute_id))
    ||| (e.source == Object::Ship && found.contains(e.source_attribute_id))
}

pub open spec fn driven(effects: Seq<Effect>, rah_index: usize, found: Set<i32>) -> bool {
    exists|j: int| 0 <= j < effects.len() && rah_source(#[trigger] effects[j], rah_index, found)
}

/// Every hull attribute driven by the hardener or by a member of `s` is in `s`.
pub open spec fn closed(hull: Seq<HullAttribute>, rah_index: usize, s: Set<i32>) -> bool {
    forall|k: int|
        0 <= k < hull.len() && driven(#[trigger] hull[k].effects@, rah_index, s) ==> s.contains(
            hull[k].attribute_id,
        )
}

pub open spec fn count_false(s: Seq<bool>) -> nat
    decreases s.len(),
{
    if s.len() == 0 {
        0
    } else {
        count_false(s.drop_last()) + if s.last() {
            0nat
        } else {
            1nat
        }
    }
}

proof fn lemma_count_false_set(s: Seq<bool>, k: int)
    requires
        0 <= k < s.len(),
        !s[k],
    ensures
        count_false(s.update(k, true)) + 1 == count_false(s),
    decreases s.len(),
{
    if k < s.len() - 1 {
        assert(s.update(k, true).drop_last() =~= s.drop_last().update(k, true));
        lemma_count_false_set(s.drop_last(), k);
    } else {
        assert(s.update(k, true).drop_last() =~= s.drop_last());
    }
}

fn is_driven(effects: &Vec<Effect>, rah_index: usize, found: &Vec<i32>) -> (r: bool)
    ensures
        r == driven(effects@, rah_index, as_set(found@)),
{
    let mut j: usize = 0;
    while j < effects.len()
        invariant
            0 <= j <= effects@.len(),
            forall|k: int| 0 <= k < j ==> !rah_source(#[trigger] effects@[k], rah_index, as_set(found@)),
        decreases effects@.len() - j,
    {
        let e = effects[j];
        let hit = match e.source {
            Object::Item(i) => i == rah_index && (e.source_attribute_id == 267
                || e.source_attribute_id == 268 || e.source_attribute_id == 269
                || e.source_attribute_id == 270),
            Object::Ship => contains_id(found, e.source_attribute_id),
            _ => false,
        };
        if hit {
            assert(rah_source(effects@[j as int], rah_index, as_set(found@)));
            return true;
        }
        j = j + 1;
    }
    false
}

impl PassFour {
    /// The item counts towards CPU and power usage: a module that is at least online.
    pub fn uses_fitting(slot: &Slot, state: EffectCategory) -> (r: bool)
        ensures
            r == (slot.spec_is_module() && state != EffectCategory::Passive),
    {
        slot.is_module() && state != EffectCategory::Passive
    }

    /// The item draws on the capacitor when cycling: an active or overloaded module.
    pub fn drains_capacitor(slot: &Slot, state: EffectCategory) -> (r: bool)
        ensures
            r == (slot.spec_is_module() && (state == EffectCategory::Active || state
                == EffectCategory::Overload)),
    {
        slot.is_module() && state.is_active()
    }

    /// The item is a launched drone: in the drone bay and active.
    pub fn is_active_drone(slot: &Slot, state: EffectCategory) -> (r: bool)
        ensures
            r == (slot.slot_type == SlotType::DroneBay && state == EffectCategory::Active),
    {
        slot.slot_type == SlotType::DroneBay && state == EffectCategory::Active
    }

    /// Hull attributes whose value follows, directly or through other hull
    /// attributes, from the resonances of the hardener at `rah_index`.
    ///
    /// The result is the least set of hull attributes closed under "driven by
    /// the hardener or by a member", listed in order of discovery.
    pub fn rah_affected_attributes(hull: &Vec<HullAttribute>, rah_index: usize) -> (r: Vec<i32>)
        ensures
            closed(hull@, rah_index, as_set(r@)),
            forall|s: Set<i32>, i: int|
                closed(hull@, rah_index, s) && 0 <= i < r@.len() ==> #[trigger] s.contains(r@[i]),
    {
        let mut found: Vec<i32> = Vec::new();
        let mut taken: Vec<bool> = Vec::new();
        let mut t: usize = 0;
        while t < hull.len()
            invariant
                0 <= t <= hull@.len(),
                taken@.len() == t,
                forall|k: int| 0 <= k < t ==> !(#[trigger] taken@[k]),
            decreases hull@.len() - t,
        {
            taken.push(false);
            t = t + 1;
        }
        loop
            invariant
                taken@.len() == hull@.len(),
                forall|k: int|
                    0 <= k < hull@.len() && #[trigger] taken@[k] ==> found@.contains(
                        hull@[k].attribute_id,
                    ),
                forall|s: Set<i32>, i: int|
                    closed(hull@, rah_index, s) && 0 <= i < found@.len() ==> #[trigger] s.contains(found@[i]),
            ensures
                closed(hull@, rah_index, as_set(found@)),
                forall|s: Set<i32>, i: int|
                    closed(hull@, rah_index, s) && 0 <= i < found@.len() ==> #[trigger] s.contains(found@[i]),
            decreases count_false(taken@),
        {
            let ghost start_taken = taken@;
            let mut added = false;
            let mut k: usize = 0;
            while k < hull.len()
                invariant
                    0 <= k <= hull@.len(),
                    taken@.len() == hull@.len(),
                    forall|a: int|
                        0 <= a < hull@.len() && #[trigger] taken@[a] ==> found@.contains(
                            hull@[a].attribute_id,
                        ),
                    forall|s: Set<i32>, i: int|
                        closed(hull@, rah_index, s) && 0 <= i < found@.len() ==> #[trigger] s.contains(found@[i]),
                    !added ==> taken@ == start_taken,
                    added ==> count_false(taken@) < count_false(start_taken),
                    !added ==> forall|a: int|
                        0 <= a < k && !(#[trigger] taken@[a]) ==> !driven(
                            hull@[a].effects@,
                            rah_index,
                            as_set(found@),
                        ),
                decreases hull@.len() - k,
            {
                if !taken[k] && is_driven(&hull[k].effects, rah_index, &found) {
                    let id = hull[k].attribute_id;
                    let ghost before = found@;
                    let ghost before_taken = taken@;
                    proof {
                        assert forall|s: Set<i32>|
                            closed(hull@, rah_index, s) && (forall|i: int|
                                0 <= i < before.len() ==> #[trigger] s.contains(before[i]))
                                implies s.contains(id) by {
                            let j = choose|j: int|
                                0 <= j < hull@[k as int].effects@.len() && rah_source(
                                    #[trigger] hull@[k as int].effects@[j],
                                    rah_index,
                                    as_set(before),
                                );
                            let e = hull@[k as int].effects@[j];
                            if e.source == Object::Ship && as_set(before).contains(
                                e.source_attribute_id,
                            ) {
                                let i = choose|i: int|
                                    0 <= i < before.len() && before[i] == e.source_attribute_id;
                                assert(s.contains(before[i]));
                            }
                            assert(rah_source(e, rah_index, s));
                            assert(driven(hull@[k as int].effects@, rah_index, s));
                        }
                    }
                    found.push(id);
                    taken.set(k, true);
                    proof {
                        lemma_count_false_set(before_taken, k as int);
                        assert forall|a: int|
                            0 <= a < hull@.len() && #[trigger] taken@[a] implies found@.contains(
                                hull@[a].attribute_id,
                            ) by {
                            if a != k {
                                assert(before_taken[a]);
                                let i = choose|i: int|
                                    0 <= i < before.len() && before[i] == hull@[a].attribute_id;
                                assert(found@[i] == hull@[a].attribute_id);
                            } else {
                                assert(found@[before.len() as int] == id);
                            }
                        }
                        assert forall|s: Set<i32>, i: int|
                            closed(hull@, rah_index, s) && 0 <= i < found@.len() implies #[trigger] s.contains(found@[i]) by {
                            if i < before.len() {
                                assert(found@[i] == before[i]);
                            } else {
                                assert(forall|i2: int|
                                    0 <= i2 < before.len() ==> #[trigger] s.contains(before[i2]));
                            }
                        }
                    }
                    added = true;
                }
                k = k + 1;
            }
            if !added {
                proof {
                    assert forall|a: int|
                        0 <= a < hull@.len() && driven(
                            #[trigger] hull@[a].effects@,
                            rah_index,
                            as_set(found@),
                        ) implies as_set(found@).contains(hull@[a].attribute_id) by {
                        if !taken@[a] {
                            assert(!driven(hull@[a].effects@, rah_index, as_set(found@)));
                        }
                    }
                }
                break;
            }
        }
        found
    }
}

} // verus!
