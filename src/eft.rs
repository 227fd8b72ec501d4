//! Reading a fit written in the EFT text format.
use vstd::prelude::*;
use vstd::string::*;

use crate::data_types::{
    EsfCharge, EsfDrone, EsfFit, EsfModule, EsfSlot, EsfSlotType, EsfState, TypeDogmaEffect,
};
use crate::info::InfoName;
use crate::text::{
    all_digits, digits_value, find_char, parse_digits, spec_find, spec_lines, spec_starts_with,
    spec_trim, starts_with, strip_brackets, strip_end, strip_start, text_eq, text_lines, trim,
    views, Strip,
};

verus! {

/// Items listed with a quantity that are not drones.
#[derive(Debug, Clone, Copy, PartialEq, Eq, Structural)]
pub struct EftCargo {
    pub type_id: i32,
    pub quantity: i32,
}

/// A fit read from EFT text: its name, the fit itself and the cargo.
#[derive(Debug, Clone)]
pub struct EftFit {
    pub name: String,
    pub esf_fit: EsfFit,
    pub cargo: Vec<EftCargo>,
}

/// Whether a character is numeric in Unicode (general categories Nd, Nl and No).
pub uninterp spec fn numeric_char(c: char) -> bool;

/// Relies on `char::is_numeric`: true exactly for the characters of the
/// Unicode numeric categories, among them the ASCII digits.
#[verifier::external_body]
fn char_is_numeric(c: char) -> (r: bool)
    ensures
        r == numeric_char(c),
        ('0' <= c && c <= '9') ==> r,
{
    c.is_numeric()
}

/// Groups of consecutive non-empty lines, and the group still open.
pub open spec fn group(lines: Seq<Seq<char>>) -> (Seq<Seq<Seq<char>>>, Seq<Seq<char>>)
    decreases lines.len(),
{
    if lines.len() == 0 {
        (Seq::empty(), Seq::empty())
    } else {
        let g = group(lines.drop_last());
        if lines.last().len() == 0 {
            if g.1.len() > 0 {
                (g.0.push(g.1), Seq::empty())
            } else {
                g
            }
        } else {
            (g.0, g.1.push(lines.last()))
        }
    }
}

/// Sections of an EFT text: the blocks of non-empty lines after the header line.
pub open spec fn spec_sections(lines: Seq<Seq<char>>) -> Seq<Seq<Seq<char>>> {
    let g = group(if lines.len() == 0 {
        lines
    } else {
        lines.drop_first()
    });
    if g.1.len() > 0 {
        g.0.push(g.1)
    } else {
        g.0
    }
}

pub open spec fn section_views(v: Seq<Vec<String>>) -> Seq<Seq<Seq<char>>> {
    v.map_values(|s: Vec<String>| views(s@))
}

/// Splits the lines after the header into sections at empty lines.
pub fn section_iter(eft_lines: Vec<String>) -> (r: Vec<Vec<String>>)
    ensures
        section_views(r@) == spec_sections(views(eft_lines@)),
{
    let ghost all = views(eft_lines@);
    let ghost rest = if all.len() == 0 {
        all
    } else {
        all.drop_first()
    };
    let mut sections: Vec<Vec<String>> = Vec::new();
    let mut section: Vec<String> = Vec::new();
    let n = eft_lines.len();
    let mut i: usize = if n == 0 {
        0
    } else {
        1
    };
    proof {
        assert(rest.take(0) =~= Seq::<Seq<char>>::empty());
        assert(section_views(sections@) =~= Seq::<Seq<Seq<char>>>::empty());
        assert(views(section@) =~= Seq::<Seq<char>>::empty());
    }
    while i < n
        invariant
            n == eft_lines@.len(),
            all == views(eft_lines@),
            rest == (if all.len() == 0 {
                all
            } else {
                all.drop_first()
            }),
            1 <= i <= n || (n == 0 && i == 0),
            rest.len() == (if n == 0 {
                0
            } else {
                n - 1
            }),
            group(rest.take(i - 1)) == (section_views(sections@), views(section@)) || n == 0,
            n == 0 ==> sections@.len() == 0 && section@.len() == 0,
        decreases n - i,
    {
        let line = &eft_lines[i];
        proof {
            assert(rest.take(i as int).drop_last() =~= rest.take(i - 1));
            assert(rest[i - 1] == eft_lines@[i as int]@);
        }
        let ghost prev_sections = sections@;
        let ghost prev_section = section@;
        if line.unicode_len() == 0 {
            if section.len() > 0 {
                sections.push(section);
                section = Vec::new();
                proof {
                    assert(section_views(sections@) =~= section_views(prev_sections).push(
                        views(prev_section),
                    ));
                    assert(views(section@) =~= Seq::<Seq<char>>::empty());
                }
            }
        } else {
            section.push(line.clone());
            proof {
                assert(views(section@) =~= views(prev_section).push(line@));
            }
        }
        i = i + 1;
    }
    proof {
        if n > 0 {
            assert(rest.take(n - 1) =~= rest);
        } else {
            assert(rest =~= Seq::<Seq<char>>::empty());
            assert(group(rest) == (Seq::<Seq<Seq<char>>>::empty(), Seq::<Seq<char>>::empty()));
            assert(section_views(sections@) =~= Seq::<Seq<Seq<char>>>::empty());
            assert(views(section@) =~= Seq::<Seq<char>>::empty());
        }
        assert(views(section@).len() == section@.len());
    }
    if section.len() > 0 {
        let ghost prev_sections = sections@;
        let ghost prev_section = section@;
        sections.push(section);
        proof {
            assert(section_views(sections@) =~= section_views(prev_sections).push(
                views(prev_section),
            ));
        }
    }
    sections
}


/// Ship type name and fit name of a header line `[<ship type>,<name>]`.
///
/// The header must open with `[` and close with `]`; after the brackets are
/// stripped it needs at least one comma. The name runs to the next comma.
pub open spec fn spec_header(line: Seq<char>) -> Option<(Seq<char>, Seq<char>)> {
    if !(line.len() > 0 && line[0] == '[' && line.last() == ']') {
        None
    } else {
        let h = strip_end(strip_start(line, Strip::Open), Strip::Close);
        match spec_find(h, ',') {
            None => None,
            Some(c1) => {
                let rest = h.subrange(c1 + 1, h.len() as int);
                let name = match spec_find(rest, ',') {
                    Some(c2) => rest.subrange(0, c2),
                    None => rest,
                };
                Some((h.subrange(0, c1), name))
            },
        }
    }
}

/// Reads the header line of an EFT text.
pub fn parse_header(line: &str) -> (r: Option<(String, String)>)
    ensures
        r is None <==> spec_header(line@) is None,
        r matches Some(p) ==> spec_header(line@) == Some((p.0@, p.1@)),
{
    let n = line.unicode_len();
    if n == 0 || line.get_char(0) != '[' || line.get_char(n - 1) != ']' {
        return None;
    }
    let h = strip_brackets(line);
    let c1 = match find_char(h, ',') {
        Some(c) => c,
        None => return None,
    };
    let hn = h.unicode_len();
    let rest = h.substring_char(c1 + 1, hn);
    let name = match find_char(rest, ',') {
        Some(c2) => rest.substring_char(0, c2),
        None => rest,
    };
    let ship = h.substring_char(0, c1);
    Some((String::from_str(ship), String::from_str(name)))
}

/// A line `<name> x<digits>`: it holds an `x`, and every character after the
/// first `x` is numeric.
pub open spec fn quantity_shaped(l: Seq<char>) -> bool {
    match spec_find(l, 'x') {
        Some(p) => forall|j: int| p < j < l.len() ==> numeric_char(#[trigger] l[j]),
        None => false,
    }
}

/// A section lists modules unless every one of its lines carries a quantity.
pub open spec fn spec_is_module_section(section: Seq<Seq<char>>) -> bool {
    !(forall|i: int| 0 <= i < section.len() ==> quantity_shaped(#[trigger] section[i]))
}

fn is_quantity_line(line: &str) -> (r: bool)
    ensures
        r == quantity_shaped(line@),
{
    let p = match find_char(line, 'x') {
        Some(p) => p,
        None => return false,
    };
    let n = line.unicode_len();
    let mut j: usize = p + 1;
    while j < n
        invariant
            n == line@.len(),
            p < n,
            p + 1 <= j <= n,
            spec_find(line@, 'x') == Some(p as int),
            forall|k: int| p < k < j ==> numeric_char(#[trigger] line@[k]),
        decreases n - j,
    {
        if !char_is_numeric(line.get_char(j)) {
            return false;
        }
        j = j + 1;
    }
    true
}

/// Decides whether a section lists modules (or else quantities).
pub fn is_module_section(section: &Vec<String>) -> (r: bool)
    ensures
        r == spec_is_module_section(views(section@)),
{
    let mut i: usize = 0;
    while i < section.len()
        invariant
            0 <= i <= section@.len(),
            forall|k: int| 0 <= k < i ==> quantity_shaped(#[trigger] views(section@)[k]),
        decreases section@.len() - i,
    {
        if !is_quantity_line(section[i].as_str()) {
            assert(!quantity_shaped(views(section@)[i as int]));
            return true;
        }
        i = i + 1;
    }
    false
}

/// The slot class named by an empty-slot marker line.
pub open spec fn spec_empty_slot(l: Seq<char>) -> Option<EsfSlotType> {
    if l == "[Empty High Slots]"@ {
        Some(EsfSlotType::High)
    } else if l == "[Empty Medium Slots]"@ {
        Some(EsfSlotType::Medium)
    } else if l == "[Empty Low Slots]"@ {
        Some(EsfSlotType::Low)
    } else if l == "[Empty Rig Slots]"@ {
        Some(EsfSlotType::Rig)
    } else if l == "[Empty Subsystem Slots]"@ {
        Some(EsfSlotType::SubSystem)
    } else {
        None
    }
}

pub fn empty_slot_type(line: &str) -> (r: Option<EsfSlotType>)
    ensures
        r == spec_empty_slot(line@),
{
    if text_eq(line, "[Empty High Slots]") {
        Some(EsfSlotType::High)
    } else if text_eq(line, "[Empty Medium Slots]") {
        Some(EsfSlotType::Medium)
    } else if text_eq(line, "[Empty Low Slots]") {
        Some(EsfSlotType::Low)
    } else if text_eq(line, "[Empty Rig Slots]") {
        Some(EsfSlotType::Rig)
    } else if text_eq(line, "[Empty Subsystem Slots]") {
        Some(EsfSlotType::SubSystem)
    } else {
        None
    }
}

/// Module name and optional charge name of a module line `<module>[, <charge>]`.
pub open spec fn spec_module_line(l: Seq<char>) -> (Seq<char>, Option<Seq<char>>) {
    match spec_find(l, ',') {
        Some(c) => (
            spec_trim(l.subrange(0, c)),
            Some(spec_trim(l.subrange(c + 1, l.len() as int))),
        ),
        None => (spec_trim(l), None),
    }
}

pub fn split_module_line(line: &str) -> (r: (String, Option<String>))
    ensures
        r.0@ == spec_module_line(line@).0,
        r.1 is Some <==> spec_module_line(line@).1 is Some,
        r.1 matches Some(c) ==> spec_module_line(line@).1 == Some(c@),
{
    match find_char(line, ',') {
        Some(c) => {
            let module_name = trim(line.substring_char(0, c));
            let n = line.unicode_len();
            let charge_name = trim(line.substring_char(c + 1, n));
            (String::from_str(module_name), Some(String::from_str(charge_name)))
        },
        None => (String::from_str(trim(line)), None),
    }
}

/// Type name and quantity of a line `<name> x<quantity>`; `None` when the
/// quantity is not a non-negative `i32` in ASCII digits.
pub open spec fn spec_quantity_line(l: Seq<char>) -> Option<(Seq<char>, i32)> {
    match spec_find(l, 'x') {
        Some(p) => {
            let digits = l.subrange(p + 1, l.len() as int);
            if digits.len() > 0 && all_digits(digits) && digits_value(digits) <= i32::MAX {
                Some((spec_trim(l.subrange(0, p)), digits_value(digits) as i32))
            } else {
                None
            }
        },
        None => None,
    }
}

pub fn split_quantity_line(line: &str) -> (r: Option<(String, i32)>)
    ensures
        r is None <==> spec_quantity_line(line@) is None,
        r matches Some(v) ==> spec_quantity_line(line@) == Some((v.0@, v.1)),
{
    let p = match find_char(line, 'x') {
        Some(p) => p,
        None => return None,
    };
    let n = line.unicode_len();
    let quantity = match parse_digits(line.substring_char(p + 1, n)) {
        Some(q) => q,
        None => return None,
    };
    let item_name = trim(line.substring_char(0, p));
    Some((String::from_str(item_name), quantity))
}


/// Next free index in each module slot class of one section.
#[derive(Debug, Clone, Copy, PartialEq, Eq, Structural)]
pub struct SlotCounters {
    pub high: i32,
    pub medium: i32,
    pub low: i32,
    pub rig: i32,
    pub subsystem: i32,
}

impl SlotCounters {
    pub open spec fn spec_get(self, t: EsfSlotType) -> i32 {
        match t {
            EsfSlotType::High => self.high,
            EsfSlotType::Medium => self.medium,
            EsfSlotType::Low => self.low,
            EsfSlotType::Rig => self.rig,
            EsfSlotType::SubSystem => self.subsystem,
        }
    }

    /// The counters after one more slot of class `t` is taken.
    pub open spec fn spec_bump(self, t: EsfSlotType) -> SlotCounters {
        match t {
            EsfSlotType::High => SlotCounters { high: (self.high + 1) as i32, ..self },
            EsfSlotType::Medium => SlotCounters { medium: (self.medium + 1) as i32, ..self },
            EsfSlotType::Low => SlotCounters { low: (self.low + 1) as i32, ..self },
            EsfSlotType::Rig => SlotCounters { rig: (self.rig + 1) as i32, ..self },
            EsfSlotType::SubSystem => SlotCounters { subsystem: (self.subsystem + 1) as i32, ..self },
        }
    }

    pub open spec fn below_max(self) -> bool {
        &&& self.high < i32::MAX
        &&& self.medium < i32::MAX
        &&& self.low < i32::MAX
        &&& self.rig < i32::MAX
        &&& self.subsystem < i32::MAX
    }

    pub fn new() -> (r: SlotCounters)
        ensures
            r == (SlotCounters { high: 0, medium: 0, low: 0, rig: 0, subsystem: 0 }),
    {
        SlotCounters { high: 0, medium: 0, low: 0, rig: 0, subsystem: 0 }
    }

    pub fn has_room(&self) -> (r: bool)
        ensures
            r == self.below_max(),
    {
        self.high < i32::MAX && self.medium < i32::MAX && self.low < i32::MAX && self.rig
            < i32::MAX && self.subsystem < i32::MAX
    }

    /// Takes the next slot of class `t` and returns its index.
    pub fn take(&mut self, t: EsfSlotType) -> (r: i32)
        requires
            old(self).below_max(),
        ensures
            r == old(self).spec_get(t),
            *final(self) == old(self).spec_bump(t),
    {
        match t {
            EsfSlotType::High => {
                self.high = self.high + 1;
                self.high - 1
            },
            EsfSlotType::Medium => {
                self.medium = self.medium + 1;
                self.medium - 1
            },
            EsfSlotType::Low => {
                self.low = self.low + 1;
                self.low - 1
            },
            EsfSlotType::Rig => {
                self.rig = self.rig + 1;
                self.rig - 1
            },
            EsfSlotType::SubSystem => {
                self.subsystem = self.subsystem + 1;
                self.subsystem - 1
            },
        }
    }
}

/// The slot class that an effect puts a module in: low (11), high (12),
/// medium (13), rig (2663) or subsystem (3772).
pub open spec fn slot_for_effect(effect_id: i32) -> Option<EsfSlotType> {
    if effect_id == 11 {
        Some(EsfSlotType::Low)
    } else if effect_id == 12 {
        Some(EsfSlotType::High)
    } else if effect_id == 13 {
        Some(EsfSlotType::Medium)
    } else if effect_id == 2663 {
        Some(EsfSlotType::Rig)
    } else if effect_id == 3772 {
        Some(EsfSlotType::SubSystem)
    } else {
        None
    }
}

/// Slot class given by the first slot-placing effect of a type.
pub open spec fn slot_of(effects: Seq<TypeDogmaEffect>) -> Option<EsfSlotType>
    decreases effects.len(),
{
    if effects.len() == 0 {
        None
    } else {
        match slot_of(effects.drop_last()) {
            Some(t) => Some(t),
            None => slot_for_effect(effects.last().effectID),
        }
    }
}

proof fn lemma_slot_of_prefix(effects: Seq<TypeDogmaEffect>, k: int)
    requires
        0 <= k <= effects.len(),
        slot_of(effects.take(k)) is Some,
    ensures
        slot_of(effects) == slot_of(effects.take(k)),
    decreases effects.len(),
{
    if k < effects.len() {
        assert(effects.drop_last().take(k) =~= effects.take(k));
        lemma_slot_of_prefix(effects.drop_last(), k);
    } else {
        assert(effects.take(k) =~= effects);
    }
}

fn effect_slot(effect_id: i32) -> (r: Option<EsfSlotType>)
    ensures
        r == slot_for_effect(effect_id),
{
    match effect_id {
        11 => Some(EsfSlotType::Low),
        12 => Some(EsfSlotType::High),
        13 => Some(EsfSlotType::Medium),
        2663 => Some(EsfSlotType::Rig),
        3772 => Some(EsfSlotType::SubSystem),
        _ => None,
    }
}

/// Places a module whose type carries `effects`: the slot class of its first
/// slot-placing effect, and the next free index there. Without such an effect
/// the module fits nowhere and the counters stay as they are.
pub fn find_slot_type_index(effects: &Vec<TypeDogmaEffect>, module_slots: &mut SlotCounters) -> (r:
    Option<(EsfSlotType, i32)>)
    requires
        old(module_slots).below_max(),
    ensures
        slot_of(effects@) is None ==> r is None && *final(module_slots) == *old(module_slots),
        slot_of(effects@) matches Some(t) ==> r == Some((t, old(module_slots).spec_get(t)))
            && *final(module_slots) == old(module_slots).spec_bump(t),
{
    let mut i: usize = 0;
    while i < effects.len()
        invariant
            0 <= i <= effects@.len(),
            slot_of(effects@.take(i as int)) is None,
            *module_slots == *old(module_slots),
            module_slots.below_max(),
        decreases effects@.len() - i,
    {
        proof {
            assert(effects@.take(i + 1).drop_last() =~= effects@.take(i as int));
        }
        match effect_slot(effects[i].effectID) {
            Some(t) => {
                proof {
                    lemma_slot_of_prefix(effects@, i + 1);
                }
                let index = module_slots.take(t);
                return Some((t, index));
            },
            None => {},
        }
        i = i + 1;
    }
    proof {
        assert(effects@.take(effects@.len() as int) =~= effects@);
    }
    None
}

/// Drones for quantity lines: `quantity` copies of each type (none for a
/// non-positive quantity), all active.
pub open spec fn drones_of(items: Seq<(i32, i32)>) -> Seq<EsfDrone>
    decreases items.len(),
{
    if items.len() == 0 {
        Seq::empty()
    } else {
        let (type_id, quantity) = items.last();
        drones_of(items.drop_last()) + Seq::new(
            if quantity > 0 {
                quantity as nat
            } else {
                0
            },
            |k: int| EsfDrone { type_id, state: EsfState::Active },
        )
    }
}

pub open spec fn cargo_of(items: Seq<(i32, i32)>) -> Seq<EftCargo> {
    items.map_values(|it: (i32, i32)| EftCargo { type_id: it.0, quantity: it.1 })
}

/// Stores the `(type, quantity)` pairs of a quantity section: as drones when
/// every type in it is a drone, else as cargo.
pub fn place_items(
    items: &Vec<(i32, i32)>,
    are_drones: bool,
    drones: &mut Vec<EsfDrone>,
    cargo: &mut Vec<EftCargo>,
)
    ensures
        are_drones ==> final(drones)@ == old(drones)@ + drones_of(items@) && final(cargo)@ == old(
            cargo,
        )@,
        !are_drones ==> final(cargo)@ == old(cargo)@ + cargo_of(items@) && final(drones)@ == old(
            drones,
        )@,
{
    let ghost d0 = drones@;
    let ghost c0 = cargo@;
    let mut i: usize = 0;
    while i < items.len()
        invariant
            0 <= i <= items@.len(),
            are_drones ==> drones@ == d0 + drones_of(items@.take(i as int)) && cargo@ == c0,
            !are_drones ==> cargo@ == c0 + cargo_of(items@.take(i as int)) && drones@ == d0,
        decreases items@.len() - i,
    {
        let (type_id, quantity) = items[i];
        proof {
            assert(items@.take(i + 1).drop_last() =~= items@.take(i as int));
        }
        if are_drones {
            let ghost before = drones@;
            let mut k: i32 = 0;
            while k < quantity
                invariant
                    0 <= k,
                    k <= quantity || quantity <= 0,
                    quantity <= 0 ==> k == 0,
                    drones@ == before + Seq::new(
                        k as nat,
                        |j: int| EsfDrone { type_id, state: EsfState::Active },
                    ),
                decreases quantity - k,
            {
                drones.push(EsfDrone { type_id, state: EsfState::Active });
                k = k + 1;
                proof {
                    assert(drones@ =~= before + Seq::new(
                        k as nat,
                        |j: int| EsfDrone { type_id, state: EsfState::Active },
                    ));
                }
            }
            proof {
                let n: nat = if quantity > 0 {
                    quantity as nat
                } else {
                    0
                };
                assert(Seq::new(k as nat, |j: int| EsfDrone { type_id, state: EsfState::Active })
                    =~= Seq::new(n, |j: int| EsfDrone { type_id, state: EsfState::Active }));
                assert(drones@ =~= d0 + drones_of(items@.take(i + 1)));
            }
        } else {
            let ghost before = cargo@;
            cargo.push(EftCargo { type_id, quantity });
            proof {
                assert(cargo@ =~= c0 + cargo_of(items@.take(i + 1)));
            }
        }
        i = i + 1;
    }
    proof {
        assert(items@.take(items@.len() as int) =~= items@);
    }
}


/// Header of an EFT text: that of its first line.
pub open spec fn eft_header(eft: Seq<char>) -> Option<(Seq<char>, Seq<char>)> {
    let lines = spec_lines(eft);
    if lines.len() == 0 {
        None
    } else {
        spec_header(lines[0])
    }
}

/// What the catalogue says about the types named on one line.
///
/// On a module line: the module's type id, the charge's type id and the
/// module type's effects. On a quantity line: the type id and its category.
#[derive(Debug, Clone)]
pub struct LineLookup {
    pub type_id: i32,
    pub charge_type_id: Option<i32>,
    pub effects: Vec<TypeDogmaEffect>,
    pub category_id: i32,
}

pub open spec fn no_slots_taken() -> SlotCounters {
    SlotCounters { high: 0, medium: 0, low: 0, rig: 0, subsystem: 0 }
}

pub open spec fn charge_of(charge_type_id: Option<i32>) -> Option<EsfCharge> {
    match charge_type_id {
        Some(id) => Some(EsfCharge { type_id: id }),
        None => None,
    }
}

/// One line of a module section, read with the slots taken so far and the
/// modules read so far.
pub open spec fn module_step(
    l: Seq<char>,
    look: LineLookup,
    taken: SlotCounters,
    modules: Seq<EsfModule>,
) -> Result<(SlotCounters, Seq<EsfModule>), Seq<char>> {
    if !taken.below_max() {
        Err("Too many modules in one section"@)
    } else if spec_starts_with(l, "[Empty"@) {
        match spec_empty_slot(l) {
            Some(t) => Ok((taken.spec_bump(t), modules)),
            None => Err("Invalid slot type"@),
        }
    } else {
        match slot_of(look.effects@) {
            None => Err("Module "@ + spec_module_line(l).0 + " does not fit in any slot"@),
            Some(t) => Ok(
                (
                    taken.spec_bump(t),
                    modules.push(
                        EsfModule {
                            type_id: look.type_id,
                            slot: EsfSlot { slot_type: t, index: taken.spec_get(t) },
                            state: EsfState::Active,
                            charge: charge_of(look.charge_type_id),
                        },
                    ),
                ),
            ),
        }
    }
}

/// The first `n` lines of a module section, read in order; the first error stops the reading.
pub open spec fn module_fold(lines: Seq<Seq<char>>, looks: Seq<LineLookup>, n: nat) -> Result<
    (SlotCounters, Seq<EsfModule>),
    Seq<char>,
>
    decreases n,
{
    if n == 0 {
        Ok((no_slots_taken(), Seq::empty()))
    } else {
        match module_fold(lines, looks, (n - 1) as nat) {
            Err(e) => Err(e),
            Ok(state) => module_step(lines[n - 1], looks[n - 1], state.0, state.1),
        }
    }
}

/// The modules of a module section, or the error that stops its reading.
pub open spec fn module_section(lines: Seq<Seq<char>>, looks: Seq<LineLookup>) -> Result<
    Seq<EsfModule>,
    Seq<char>,
> {
    match module_fold(lines, looks, lines.len()) {
        Ok(state) => Ok(state.1),
        Err(e) => Err(e),
    }
}

proof fn lemma_module_fold_err(lines: Seq<Seq<char>>, looks: Seq<LineLookup>, n: nat, m: nat)
    requires
        n <= m,
        module_fold(lines, looks, n) is Err,
    ensures
        module_fold(lines, looks, m) == module_fold(lines, looks, n),
    decreases m - n,
{
    if n < m {
        lemma_module_fold_err(lines, looks, n, (m - 1) as nat);
    }
}

/// `(type id, quantity)` of each line of a quantity section.
pub open spec fn quantity_items(lines: Seq<Seq<char>>, looks: Seq<LineLookup>) -> Seq<(i32, i32)> {
    Seq::new(lines.len(), |i: int| (looks[i].type_id, spec_quantity_line(lines[i]).unwrap().1))
}

pub open spec fn quantities_ok(lines: Seq<Seq<char>>) -> bool {
    forall|i: int| 0 <= i < lines.len() ==> (#[trigger] spec_quantity_line(lines[i])) is Some
}

/// Every type of the section is a drone (category 18).
pub open spec fn all_drones(looks: Seq<LineLookup>, n: int) -> bool {
    forall|i: int| 0 <= i < n ==> (#[trigger] looks[i]).category_id == 18
}

/// What a fit holds so far: modules, drones and cargo.
pub type FitParts = (Seq<EsfModule>, Seq<EsfDrone>, Seq<EftCargo>);

/// One section added to `parts`.
pub open spec fn section_step(section: Seq<Seq<char>>, looks: Seq<LineLookup>, parts: FitParts) -> Result<
    FitParts,
    Seq<char>,
> {
    if spec_is_module_section(section) {
        match module_section(section, looks) {
            Ok(added) => Ok((parts.0 + added, parts.1, parts.2)),
            Err(e) => Err(e),
        }
    } else if !quantities_ok(section) {
        Err("Invalid quantity"@)
    } else if all_drones(looks, section.len() as int) {
        Ok((parts.0, parts.1 + drones_of(quantity_items(section, looks)), parts.2))
    } else {
        Ok((parts.0, parts.1, parts.2 + cargo_of(quantity_items(section, looks))))
    }
}

/// The first `n` sections, read in order; the first error stops the reading.
pub open spec fn sections_fold(
    sections: Seq<Seq<Seq<char>>>,
    looks: Seq<Seq<LineLookup>>,
    n: nat,
) -> Result<FitParts, Seq<char>>
    decreases n,
{
    if n == 0 {
        Ok((Seq::empty(), Seq::empty(), Seq::empty()))
    } else {
        match sections_fold(sections, looks, (n - 1) as nat) {
            Err(e) => Err(e),
            Ok(parts) => section_step(sections[n - 1], looks[n - 1], parts),
        }
    }
}

proof fn lemma_sections_fold_err(
    sections: Seq<Seq<Seq<char>>>,
    looks: Seq<Seq<LineLookup>>,
    n: nat,
    m: nat,
)
    requires
        n <= m,
        sections_fold(sections, looks, n) is Err,
    ensures
        sections_fold(sections, looks, m) == sections_fold(sections, looks, n),
    decreases m - n,
{
    if n < m {
        lemma_sections_fold_err(sections, looks, n, (m - 1) as nat);
    }
}

/// Lookups with one entry per line of each section.
pub open spec fn lookups_fit(sections: Seq<Seq<Seq<char>>>, looks: Seq<Seq<LineLookup>>) -> bool {
    &&& looks.len() == sections.len()
    &&& forall|j: int| 0 <= j < sections.len() ==> (#[trigger] looks[j]).len() == sections[j].len()
}

/// The fit an EFT text gives, when its ship type has id `ship_type_id` and
/// the catalogue answers `looks` for its lines.
pub open spec fn eft_result(eft: Seq<char>, ship_type_id: i32, looks: Seq<Seq<LineLookup>>) -> Result<
    (Seq<char>, EsfFitView),
    Seq<char>,
> {
    match eft_header(eft) {
        None => Err("Invalid EFT header"@),
        Some(h) => {
            let sections = spec_sections(spec_lines(eft));
            match sections_fold(sections, looks, sections.len()) {
                Err(e) => Err(e),
                Ok(parts) => Ok((h.1, (ship_type_id, parts))),
            }
        },
    }
}

/// A fit seen as its ship type id and its parts.
pub type EsfFitView = (i32, FitParts);

pub open spec fn fit_view(f: EftFit) -> (Seq<char>, EsfFitView) {
    (f.name@, (f.esf_fit.ship_type_id, (f.esf_fit.modules@, f.esf_fit.drones@, f.cargo@)))
}

/// `r` is what reading `eft` gives when the ship type has id `ship_type_id`
/// and the catalogue answers `looks` for the lines of its sections.
pub open spec fn loaded_as(
    eft: Seq<char>,
    r: Result<EftFit, String>,
    ship_type_id: i32,
    looks: Seq<Seq<LineLookup>>,
) -> bool {
    &&& lookups_fit(spec_sections(spec_lines(eft)), looks)
    &&& match eft_result(eft, ship_type_id, looks) {
        Ok(v) => r matches Ok(f) && fit_view(f) == v,
        Err(e) => r matches Err(m) && m@ == e,
    }
}

fn invalid_header() -> (r: String)
    ensures
        r@ == "Invalid EFT header"@,
{
    String::from_str("Invalid EFT header")
}

/// Reads a module section, given what the catalogue says about each of its
/// lines: empty-slot markers take a slot index, every other line becomes an
/// active module in the slot its type's effects give it.
pub fn assemble_module_section(section: &Vec<String>, looks: &Vec<LineLookup>) -> (r: Result<
    Vec<EsfModule>,
    String,
>)
    requires
        looks@.len() == section@.len(),
    ensures
        r matches Ok(ms) ==> module_section(views(section@), looks@) == Ok::<Seq<EsfModule>, Seq<char>>(ms@),
        r matches Err(e) ==> module_section(views(section@), looks@) == Err::<Seq<EsfModule>, Seq<char>>(e@),
{
    let ghost lines = views(section@);
    let mut module_slots = SlotCounters::new();
    let mut modules: Vec<EsfModule> = Vec::new();
    let mut i: usize = 0;
    while i < section.len()
        invariant
            0 <= i <= section@.len(),
            lines == views(section@),
            looks@.len() == section@.len(),
            module_fold(lines, looks@, i as nat) == Ok::<(SlotCounters, Seq<EsfModule>), Seq<char>>((module_slots, modules@)),
        decreases section@.len() - i,
    {
        let line = section[i].as_str();
        assert(lines[i as int] == line@);
        let ghost before = modules@;
        let ghost taken = module_slots;
        let step: Result<(), String> = if !module_slots.has_room() {
            Err(String::from_str("Too many modules in one section"))
        } else if starts_with(line, "[Empty") {
            match empty_slot_type(line) {
                Some(slot_type) => {
                    module_slots.take(slot_type);
                    Ok(())
                },
                None => Err(String::from_str("Invalid slot type")),
            }
        } else {
            let (module_name, _) = split_module_line(line);
            match find_slot_type_index(&looks[i].effects, &mut module_slots) {
                Some((slot_type, index)) => {
                    let charge = match looks[i].charge_type_id {
                        Some(id) => Some(EsfCharge { type_id: id }),
                        None => None,
                    };
                    modules.push(
                        EsfModule {
                            type_id: looks[i].type_id,
                            slot: EsfSlot { slot_type, index },
                            state: EsfState::Active,
                            charge,
                        },
                    );
                    Ok(())
                },
                None => Err(
                    String::from_str("Module ").concat(module_name.as_str()).concat(
                        " does not fit in any slot",
                    ),
                ),
            }
        };
        match step {
            Ok(()) => {
                assert(module_fold(lines, looks@, (i + 1) as nat) == Ok::<(SlotCounters, Seq<EsfModule>), Seq<char>>((module_slots, modules@)));
            },
            Err(e) => {
                assert(module_fold(lines, looks@, (i + 1) as nat) == Err::<(SlotCounters, Seq<EsfModule>), Seq<char>>(e@));
                proof {
                    lemma_module_fold_err(lines, looks@, (i + 1) as nat, lines.len());
                }
                return Err(e);
            },
        }
        i = i + 1;
    }
    Ok(modules)
}

/// Reads a quantity section, given what the catalogue says about each line's
/// type: as drones when every type is a drone, else as cargo.
pub fn assemble_quantity_section(
    section: &Vec<String>,
    looks: &Vec<LineLookup>,
    drones: &mut Vec<EsfDrone>,
    cargo: &mut Vec<EftCargo>,
) -> (r: Result<(), String>)
    requires
        looks@.len() == section@.len(),
    ensures
        r is Ok <==> quantities_ok(views(section@)),
        r matches Err(e) ==> e@ == "Invalid quantity"@,
        r is Ok && all_drones(looks@, section@.len() as int) ==> final(drones)@ == old(drones)@
            + drones_of(quantity_items(views(section@), looks@)) && final(cargo)@ == old(cargo)@,
        r is Ok && !all_drones(looks@, section@.len() as int) ==> final(cargo)@ == old(cargo)@
            + cargo_of(quantity_items(views(section@), looks@)) && final(drones)@ == old(drones)@,
        r is Err ==> final(drones)@ == old(drones)@ && final(cargo)@ == old(cargo)@,
{
    let ghost lines = views(section@);
    let mut items: Vec<(i32, i32)> = Vec::new();
    let mut are_drones = true;
    let mut i: usize = 0;
    while i < section.len()
        invariant
            0 <= i <= section@.len(),
            lines == views(section@),
            looks@.len() == section@.len(),
            items@ == quantity_items(lines, looks@).take(i as int),
            forall|k: int| 0 <= k < i ==> (#[trigger] spec_quantity_line(lines[k])) is Some,
            are_drones == all_drones(looks@, i as int),
        decreases section@.len() - i,
    {
        assert(lines[i as int] == section@[i as int]@);
        match split_quantity_line(section[i].as_str()) {
            Some((_, quantity)) => {
                are_drones = are_drones && looks[i].category_id == 18;
                items.push((looks[i].type_id, quantity));
                assert(items@ =~= quantity_items(lines, looks@).take(i + 1));
            },
            None => {
                return Err(String::from_str("Invalid quantity"));
            },
        }
        i = i + 1;
    }
    assert(items@ =~= quantity_items(lines, looks@));
    place_items(&items, are_drones, drones, cargo);
    Ok(())
}

/// Asks the catalogue about the types named on each line of a section.
fn lookup_section<I: InfoName>(info: &I, section: &Vec<String>, modules: bool) -> (r: Vec<
    LineLookup,
>)
    ensures
        r@.len() == section@.len(),
{
    let mut looks: Vec<LineLookup> = Vec::new();
    let mut i: usize = 0;
    while i < section.len()
        invariant
            0 <= i <= section@.len(),
            looks@.len() == i,
        decreases section@.len() - i,
    {
        let line = section[i].as_str();
        let mut look = LineLookup {
            type_id: 0,
            charge_type_id: None,
            effects: Vec::new(),
            category_id: 0,
        };
        if modules {
            if !starts_with(line, "[Empty") {
                let (module_name, charge_name) = split_module_line(line);
                look.type_id = info.type_name_to_id(module_name.as_str());
                look.charge_type_id = match charge_name {
                    Some(c) => Some(info.type_name_to_id(c.as_str())),
                    None => None,
                };
                look.effects = info.get_dogma_effects(look.type_id);
            }
        } else {
            match split_quantity_line(line) {
                Some((item_name, _)) => {
                    look.type_id = info.type_name_to_id(item_name.as_str());
                    look.category_id = info.get_type(look.type_id).categoryID;
                },
                None => {},
            }
        }
        looks.push(look);
        i = i + 1;
    }
    looks
}

/// Loads a fit from EFT text.
///
/// The first line is the header `[<ship type>,<name>]`; the blocks of lines
/// after it are module sections (one module per line, optionally with a
/// charge after a comma, or an empty-slot marker) or quantity sections
/// (`<type> x<quantity>` per line). Types are resolved by name through `info`:
/// the result is the one `eft_result` gives for the ship type id and the
/// per-line answers the catalogue gave.
pub fn load_eft<I: InfoName>(info: &I, eft: &String) -> (r: Result<EftFit, String>)
    ensures
        exists|ship_type_id: i32, looks: Seq<Seq<LineLookup>>|
            #[trigger] loaded_as(eft@, r, ship_type_id, looks),
{
    let eft_lines = text_lines(eft.as_str());
    let ghost all_lines = views(eft_lines@);
    let ghost sections_view = spec_sections(all_lines);
    if eft_lines.len() == 0 {
        let r = Err(invalid_header());
        proof {
            let looks = Seq::new(sections_view.len(), |j: int| Seq::new(sections_view[j].len(), |k: int| vstd::pervasive::arbitrary::<LineLookup>()));
            assert(lookups_fit(sections_view, looks));
            assert(eft_result(eft@, 0, looks) == Err::<(Seq<char>, EsfFitView), Seq<char>>("Invalid EFT header"@));
            assert(loaded_as(eft@, r, 0, looks));
        }
        return r;
    }
    let header = parse_header(eft_lines[0].as_str());
    assert(views(eft_lines@)[0] == eft_lines@[0]@);
    let (ship_type_name, name) = match header {
        Some(h) => h,
        None => {
            let r = Err(invalid_header());
            proof {
                let looks = Seq::new(sections_view.len(), |j: int| Seq::new(sections_view[j].len(), |k: int| vstd::pervasive::arbitrary::<LineLookup>()));
                assert(lookups_fit(sections_view, looks));
                assert(eft_result(eft@, 0, looks) == Err::<(Seq<char>, EsfFitView), Seq<char>>("Invalid EFT header"@));
                assert(loaded_as(eft@, r, 0, looks));
            }
            return r;
        },
    };
    let ship_type_id = info.type_name_to_id(ship_type_name.as_str());
    let mut modules: Vec<EsfModule> = Vec::new();
    let mut drones: Vec<EsfDrone> = Vec::new();
    let mut cargo: Vec<EftCargo> = Vec::new();
    let sections = section_iter(eft_lines);
    let ghost mut looks: Seq<Seq<LineLookup>> = Seq::empty();
    let mut i: usize = 0;
    while i < sections.len()
        invariant
            0 <= i <= sections@.len(),
            eft_header(eft@) == Some((ship_type_name@, name@)),
            all_lines == spec_lines(eft@),
            sections_view == spec_sections(all_lines),
            section_views(sections@) == sections_view,
            looks.len() == i,
            forall|j: int| 0 <= j < i ==> (#[trigger] looks[j]).len() == sections_view[j].len(),
            sections_fold(sections_view, looks, i as nat) == Ok::<FitParts, Seq<char>>((modules@, drones@, cargo@)),
        decreases sections@.len() - i,
    {
        let section = &sections[i];
        assert(sections_view[i as int] == views(section@));
        let is_modules = is_module_section(section);
        let section_looks = lookup_section(info, section, is_modules);
        proof {
            let old_looks = looks;
            looks = looks.push(section_looks@);
            assert(looks.take(i as int) =~= old_looks);
            lemma_sections_fold_prefix(sections_view, looks, i as nat);
            lemma_sections_fold_prefix(sections_view, old_looks, i as nat);
            assert(old_looks.take(i as int) =~= old_looks);
        }
        let step: Result<(), String> = if is_modules {
            match assemble_module_section(section, &section_looks) {
                Ok(added) => {
                    let ghost before = modules@;
                    let mut k: usize = 0;
                    while k < added.len()
                        invariant
                            0 <= k <= added@.len(),
                            modules@ == before + added@.take(k as int),
                        decreases added@.len() - k,
                    {
                        modules.push(added[k]);
                        assert(modules@ =~= before + added@.take(k + 1));
                        k = k + 1;
                    }
                    assert(added@.take(added@.len() as int) =~= added@);
                    Ok(())
                },
                Err(e) => Err(e),
            }
        } else {
            assemble_quantity_section(section, &section_looks, &mut drones, &mut cargo)
        };
        match step {
            Ok(()) => {
                assert(sections_fold(sections_view, looks, (i + 1) as nat) == Ok::<FitParts, Seq<char>>((modules@, drones@, cargo@)));
            },
            Err(e) => {
                let ghost full = looks + Seq::new((sections_view.len() - i - 1) as nat, |j: int| Seq::new(sections_view[i + 1 + j].len(), |k: int| vstd::pervasive::arbitrary::<LineLookup>()));
                proof {
                    assert(sections_fold(sections_view, looks, (i + 1) as nat) == Err::<FitParts, Seq<char>>(e@));
                    lemma_sections_fold_prefix(sections_view, full, (i + 1) as nat);
                    assert(full.take(i + 1) =~= looks);
                    lemma_sections_fold_prefix(sections_view, looks, (i + 1) as nat);
                    assert(looks.take(i + 1) =~= looks);
                    assert(sections_fold(sections_view, full, (i + 1) as nat) == Err::<FitParts, Seq<char>>(e@));
                    lemma_sections_fold_err(sections_view, full, (i + 1) as nat, sections_view.len());
                    assert(lookups_fit(sections_view, full));
                    assert(eft_result(eft@, ship_type_id, full) == Err::<(Seq<char>, EsfFitView), Seq<char>>(e@));
                }
                let r = Err(e);
                assert(loaded_as(eft@, r, ship_type_id, full));
                return r;
            },
        }
        i = i + 1;
    }
    let fit = EftFit { name, esf_fit: EsfFit { ship_type_id, modules, drones }, cargo };
    let r = Ok(fit);
    proof {
        assert(lookups_fit(sections_view, looks));
        assert(loaded_as(eft@, r, ship_type_id, looks));
    }
    r
}

/// The fold over the first `n` sections reads only the first `n` entries of `looks`.
proof fn lemma_sections_fold_prefix(sections: Seq<Seq<Seq<char>>>, looks: Seq<Seq<LineLookup>>, n: nat)
    requires
        n <= looks.len(),
    ensures
        sections_fold(sections, looks.take(n as int), n) == sections_fold(sections, looks, n),
    decreases n,
{
    if n > 0 {
        lemma_sections_fold_prefix(sections, looks, (n - 1) as nat);
        lemma_sections_fold_prefix(sections, looks.take(n as int), (n - 1) as nat);
        assert(looks.take(n as int).take(n - 1) =~= looks.take(n - 1));
    }
}

} // verus!
