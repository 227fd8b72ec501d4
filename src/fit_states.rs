//! Module states given as letters: eight each for the high, medium and low
//! slots, `P` passive, `O` online, `A` active, `V` overloaded.
use vstd::prelude::*;
use vstd::string::*;

use crate::data_types::{EsfFit, EsfModule, EsfSlotType, EsfState};

verus! {

pub open spec fn state_of_char(c: char) -> Option<EsfState> {
    if c == 'P' {
        Some(EsfState::Passive)
    } else if c == 'O' {
        Some(EsfState::Online)
    } else if c == 'A' {
        Some(EsfState::Active)
    } else if c == 'V' {
        Some(EsfState::Overload)
    } else {
        None
    }
}

/// Position of the letter for a module: its slot group times eight plus its
/// index, for the first eight slots of the high, medium and low groups.
pub open spec fn state_position(m: EsfModule) -> Option<int> {
    let group: int = match m.slot.slot_type {
        EsfSlotType::High => 0,
        EsfSlotType::Medium => 1,
        EsfSlotType::Low => 2,
        _ => -1,
    };
    if group >= 0 && 0 <= m.slot.index < 8 {
        Some(group * 8 + m.slot.index)
    } else {
        None
    }
}

/// The letter at a module's position applies to it: the module has a position
/// and is the first of the fit in its slot.
pub open spec fn addressed(ms: Seq<EsfModule>, k: int) -> bool {
    &&& state_position(ms[k]) is Some
    &&& forall|j: int| 0 <= j < k ==> (#[trigger] ms[j]).slot != ms[k].slot
}

/// Every letter that applies to a module names a state.
pub open spec fn letters_ok(ms: Seq<EsfModule>, s: Seq<char>) -> bool {
    forall|k: int|
        0 <= k < ms.len() && #[trigger] addressed(ms, k) ==> state_of_char(
            s[state_position(ms[k]).unwrap()],
        ) is Some
}

/// Module `k` after the letters are applied.
pub open spec fn with_letter(ms: Seq<EsfModule>, s: Seq<char>, k: int) -> EsfModule {
    if addressed(ms, k) {
        EsfModule { state: state_of_char(s[state_position(ms[k]).unwrap()]).unwrap(), ..ms[k] }
    } else {
        ms[k]
    }
}

fn letter_state(c: char) -> (r: Option<EsfState>)
    ensures
        r == state_of_char(c),
{
    if c == 'P' {
        Some(EsfState::Passive)
    } else if c == 'O' {
        Some(EsfState::Online)
    } else if c == 'A' {
        Some(EsfState::Active)
    } else if c == 'V' {
        Some(EsfState::Overload)
    } else {
        None
    }
}

fn position(m: &EsfModule) -> (r: Option<usize>)
    ensures
        r is Some <==> state_position(*m) is Some,
        r matches Some(p) ==> state_position(*m) == Some(p as int) && p < 24,
{
    let group: usize = match m.slot.slot_type {
        EsfSlotType::High => 0,
        EsfSlotType::Medium => 1,
        EsfSlotType::Low => 2,
        _ => return None,
    };
    if 0 <= m.slot.index && m.slot.index < 8 {
        Some(group * 8 + m.slot.index as usize)
    } else {
        None
    }
}

fn is_addressed(ms: &Vec<EsfModule>, k: usize) -> (r: Option<usize>)
    requires
        k < ms@.len(),
    ensures
        r is Some <==> addressed(ms@, k as int),
        r matches Some(p) ==> state_position(ms@[k as int]) == Some(p as int) && p < 24,
{
    let p = match position(&ms[k]) {
        Some(p) => p,
        None => return None,
    };
    let mut j: usize = 0;
    while j < k
        invariant
            k < ms@.len(),
            0 <= j <= k,
            forall|i: int| 0 <= i < j ==> (#[trigger] ms@[i]).slot != ms@[k as int].slot,
        decreases k - j,
    {
        if ms[j].slot == ms[k].slot {
            return None;
        }
        j = j + 1;
    }
    Some(p)
}

/// Sets the state of the fit's modules from a string of 24 letters.
///
/// The letter at position `8 * g + i` applies to the first module in slot `i`
/// (below 8) of group `g` (high, medium, low). Fails without a change when the
/// string does not hold 24 characters, or when a letter that applies to a
/// module is not one of `P`, `O`, `A`, `V`.
pub fn apply_state_letters(fit: &mut EsfFit, state: &str) -> (r: Result<(), String>)
    ensures
        r is Ok <==> (state@.len() == 24 && letters_ok(old(fit).modules@, state@)),
        r is Err ==> final(fit).modules@ == old(fit).modules@,
        final(fit).ship_type_id == old(fit).ship_type_id,
        final(fit).drones@ == old(fit).drones@,
        final(fit).modules@.len() == old(fit).modules@.len(),
        r is Ok ==> forall|k: int|
            0 <= k < old(fit).modules@.len() ==> #[trigger] final(fit).modules@[k] == with_letter(
                old(fit).modules@,
                state@,
                k,
            ),
{
    if state.unicode_len() != 24 {
        return Err(
            String::from_str(
                "State should be 24 letters; 8 for each high/medium/low slot. P = Passive (Offline), O = Online, A = Active, V = Overload.",
            ),
        );
    }
    let ghost ms = fit.modules@;
    let mut updated: Vec<EsfModule> = Vec::new();
    let mut k: usize = 0;
    while k < fit.modules.len()
        invariant
            ms == fit.modules@,
            state@.len() == 24,
            0 <= k <= ms.len(),
            updated@.len() == k,
            forall|i: int| 0 <= i < k ==> #[trigger] updated@[i] == with_letter(ms, state@, i),
            forall|i: int|
                0 <= i < k && #[trigger] addressed(ms, i) ==> state_of_char(
                    state@[state_position(ms[i]).unwrap()],
                ) is Some,
        decreases ms.len() - k,
    {
        let m = fit.modules[k];
        match is_addressed(&fit.modules, k) {
            Some(p) => {
                let c = state.get_char(p);
                match letter_state(c) {
                    Some(s) => {
                        updated.push(EsfModule { state: s, ..m });
                    },
                    None => {
                        let letter = state.substring_char(p, p + 1);
                        return Err(String::from_str("Invalid state character: ").concat(letter));
                    },
                }
            },
            None => {
                updated.push(m);
            },
        }
        k = k + 1;
    }
    fit.modules = updated;
    Ok(())
}

} // verus!
