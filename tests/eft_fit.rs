use esf_dogma_engine::data_types::{EsfSlotType, EsfState, Type, TypeDogmaEffect};
use esf_dogma_engine::eft::{
    assemble_module_section, assemble_quantity_section, find_slot_type_index, is_module_section,
    load_eft, parse_header, section_iter, split_module_line, split_quantity_line, LineLookup,
    SlotCounters,
};
use esf_dogma_engine::info::InfoName;
use esf_dogma_engine::text::{parse_digits, text_lines, trim};

struct Catalogue {
    entries: Vec<(&'static str, i32, i32, Vec<i32>)>,
}

impl InfoName for Catalogue {
    fn get_dogma_effects(&self, type_id: i32) -> Vec<TypeDogmaEffect> {
        for (_, id, _, effects) in &self.entries {
            if *id == type_id {
                return effects
                    .iter()
                    .map(|e| TypeDogmaEffect { effectID: *e, isDefault: false })
                    .collect();
            }
        }
        vec![]
    }

    fn get_type(&self, type_id: i32) -> Type {
        for (_, id, category, _) in &self.entries {
            if *id == type_id {
                return Type { groupID: 0, categoryID: *category };
            }
        }
        Type { groupID: 0, categoryID: 0 }
    }

    fn type_name_to_id(&self, name: &str) -> i32 {
        for (n, id, _, _) in &self.entries {
            if *n == name {
                return *id;
            }
        }
        0
    }
}

fn catalogue() -> Catalogue {
    Catalogue {
        entries: vec![
            ("Rifter", 587, 6, vec![]),
            ("200mm AutoCannon II", 2881, 7, vec![16, 12, 42]),
            ("EMP S", 185, 8, vec![]),
            ("Damage Control II", 2048, 7, vec![11]),
            ("1MN Afterburner II", 438, 7, vec![13]),
            ("Small Core Defense Field Extender I", 31788, 7, vec![2663]),
            ("Warrior II", 2488, 18, vec![]),
            ("Nanite Repair Paste", 28668, 17, vec![]),
        ],
    }
}

#[test]
fn text_lines_follow_str_lines() {
    let lines = text_lines("a\r\nb\n\nc\n");
    assert_eq!(lines, vec!["a".to_string(), "b".to_string(), "".to_string(), "c".to_string()]);
    assert!(text_lines("").is_empty());
    assert_eq!(text_lines("x\ry"), vec!["x\ry".to_string()]);
    assert_eq!(text_lines("\n"), vec!["".to_string()]);
}

#[test]
fn trim_removes_unicode_white_space() {
    assert_eq!(trim("  EMP S \t"), "EMP S");
    assert_eq!(trim("\u{3000}a b\u{A0}"), "a b");
    assert_eq!(trim("   "), "");
}

#[test]
fn digits_parse_as_i32() {
    assert_eq!(parse_digits("5"), Some(5));
    assert_eq!(parse_digits("2147483647"), Some(i32::MAX));
    assert_eq!(parse_digits("2147483648"), None);
    assert_eq!(parse_digits(""), None);
    assert_eq!(parse_digits("1a"), None);
}

#[test]
fn header_gives_ship_and_fit_name() {
    assert_eq!(
        parse_header("[Rifter, My fit]"),
        Some(("Rifter".to_string(), " My fit".to_string()))
    );
    assert_eq!(parse_header("[[Rifter,a,b]]"), Some(("Rifter".to_string(), "a".to_string())));
    assert_eq!(parse_header("[Rifter]"), None);
    assert_eq!(parse_header("Rifter, x]"), None);
    assert_eq!(parse_header(""), None);
}

#[test]
fn sections_split_at_empty_lines() {
    let lines: Vec<String> = ["[h,n]", "a", "b", "", "", "c", ""]
        .iter()
        .map(|s| s.to_string())
        .collect();
    let sections = section_iter(lines);
    assert_eq!(
        sections,
        vec![vec!["a".to_string(), "b".to_string()], vec!["c".to_string()]]
    );
    assert!(section_iter(vec![]).is_empty());
}

#[test]
fn module_and_quantity_lines() {
    assert_eq!(
        split_module_line("200mm AutoCannon II, EMP S"),
        ("200mm AutoCannon II".to_string(), Some("EMP S".to_string()))
    );
    assert_eq!(split_module_line(" Damage Control II "), ("Damage Control II".to_string(), None));
    assert_eq!(split_quantity_line("Warrior II x5"), Some(("Warrior II".to_string(), 5)));
    assert_eq!(split_quantity_line("Warrior II x"), None);
    assert!(is_module_section(&vec!["Damage Control II".to_string()]));
    assert!(!is_module_section(&vec!["Warrior II x5".to_string(), "EMP S x100".to_string()]));
    assert!(is_module_section(&vec!["Warrior II x5".to_string(), "Vexor".to_string()]));
}

#[test]
fn slot_index_counts_per_class() {
    let mut counters = SlotCounters::new();
    let high = vec![TypeDogmaEffect { effectID: 16, isDefault: false }, TypeDogmaEffect {
        effectID: 12,
        isDefault: true,
    }];
    assert_eq!(find_slot_type_index(&high, &mut counters), Some((EsfSlotType::High, 0)));
    assert_eq!(find_slot_type_index(&high, &mut counters), Some((EsfSlotType::High, 1)));
    let low = vec![TypeDogmaEffect { effectID: 11, isDefault: true }];
    assert_eq!(find_slot_type_index(&low, &mut counters), Some((EsfSlotType::Low, 0)));
    let none = vec![TypeDogmaEffect { effectID: 6306, isDefault: true }];
    assert_eq!(find_slot_type_index(&none, &mut counters), None);
    assert_eq!(counters.high, 2);
    assert_eq!(counters.low, 1);
}

#[test]
fn load_eft_reads_a_fit() {
    let text = "[Rifter, Brawler]\n\
        Damage Control II\n\
        [Empty Low Slots]\n\
        Damage Control II\n\
        \n\
        1MN Afterburner II\n\
        \n\
        200mm AutoCannon II, EMP S\n\
        200mm AutoCannon II\n\
        \n\
        Small Core Defense Field Extender I\n\
        \n\
        \n\
        Warrior II x2\n\
        \n\
        Nanite Repair Paste x10\n"
        .to_string();
    let fit = load_eft(&catalogue(), &text).unwrap();
    assert_eq!(fit.name, " Brawler");
    assert_eq!(fit.esf_fit.ship_type_id, 587);
    let modules: Vec<(i32, EsfSlotType, i32, Option<i32>)> = fit
        .esf_fit
        .modules
        .iter()
        .map(|m| (m.type_id, m.slot.slot_type, m.slot.index, m.charge.map(|c| c.type_id)))
        .collect();
    assert_eq!(
        modules,
        vec![
            (2048, EsfSlotType::Low, 0, None),
            (2048, EsfSlotType::Low, 2, None),
            (438, EsfSlotType::Medium, 0, None),
            (2881, EsfSlotType::High, 0, Some(185)),
            (2881, EsfSlotType::High, 1, None),
            (31788, EsfSlotType::Rig, 0, None),
        ]
    );
    assert!(fit.esf_fit.modules.iter().all(|m| m.state == EsfState::Active));
    assert_eq!(fit.esf_fit.drones.len(), 2);
    assert!(fit.esf_fit.drones.iter().all(|d| d.type_id == 2488 && d.state == EsfState::Active));
    assert_eq!(fit.cargo.len(), 1);
    assert_eq!((fit.cargo[0].type_id, fit.cargo[0].quantity), (28668, 10));
}

#[test]
fn load_eft_errors() {
    let info = catalogue();
    assert_eq!(load_eft(&info, &"".to_string()).err(), Some("Invalid EFT header".to_string()));
    assert_eq!(
        load_eft(&info, &"Rifter, x\n".to_string()).err(),
        Some("Invalid EFT header".to_string())
    );
    assert_eq!(
        load_eft(&info, &"[Rifter, x]\n[Empty Drone Slots]\n".to_string()).err(),
        Some("Invalid slot type".to_string())
    );
    assert_eq!(
        load_eft(&info, &"[Rifter, x]\nEMP S\n".to_string()).err(),
        Some("Module EMP S does not fit in any slot".to_string())
    );
    assert_eq!(
        load_eft(&info, &"[Rifter, x]\nWarrior II x99999999999\n".to_string()).err(),
        Some("Invalid quantity".to_string())
    );
}

#[test]
fn non_ascii_numerals_mark_a_quantity_line_but_are_no_quantity() {
    // U+0663 (ARABIC-INDIC DIGIT THREE) is numeric, yet not a decimal digit for `parse`.
    let line = "Warrior II x\u{663}".to_string();
    assert!(!is_module_section(&vec![line.clone()]));
    assert_eq!(split_quantity_line(&line), None);
    let text = format!("[Rifter, x]\n{}\n", line);
    assert_eq!(load_eft(&catalogue(), &text).err(), Some("Invalid quantity".to_string()));
    // A letter after the `x` makes the line a module line.
    assert!(is_module_section(&vec!["Warrior II xa".to_string()]));
}

fn lookup(type_id: i32, charge_type_id: Option<i32>, effects: Vec<i32>, category_id: i32) -> LineLookup {
    LineLookup {
        type_id,
        charge_type_id,
        effects: effects
            .into_iter()
            .map(|e| TypeDogmaEffect { effectID: e, isDefault: false })
            .collect(),
        category_id,
    }
}

fn lines(v: &[&str]) -> Vec<String> {
    v.iter().map(|s| s.to_string()).collect()
}

#[test]
fn module_section_from_lookups() {
    let section = lines(&["Gun, Ammo", "[Empty High Slots]", "Gun", "Plate"]);
    let looks = vec![
        lookup(10, Some(20), vec![12], 0),
        lookup(0, None, vec![], 0),
        lookup(10, None, vec![12], 0),
        lookup(30, None, vec![16, 11], 0),
    ];
    let modules = assemble_module_section(&section, &looks).unwrap();
    let got: Vec<(i32, EsfSlotType, i32, Option<i32>, EsfState)> = modules
        .iter()
        .map(|m| (m.type_id, m.slot.slot_type, m.slot.index, m.charge.map(|c| c.type_id), m.state))
        .collect();
    assert_eq!(
        got,
        vec![
            (10, EsfSlotType::High, 0, Some(20), EsfState::Active),
            (10, EsfSlotType::High, 2, None, EsfState::Active),
            (30, EsfSlotType::Low, 0, None, EsfState::Active),
        ]
    );

    let misfit = lines(&["Gun", "Paste"]);
    let looks = vec![lookup(10, None, vec![12], 0), lookup(40, None, vec![16], 0)];
    assert_eq!(
        assemble_module_section(&misfit, &looks),
        Err("Module Paste does not fit in any slot".to_string())
    );
    let marker = lines(&["[Empty Drone Slots]"]);
    assert_eq!(
        assemble_module_section(&marker, &vec![lookup(0, None, vec![], 0)]),
        Err("Invalid slot type".to_string())
    );
}

#[test]
fn quantity_section_from_lookups() {
    let section = lines(&["Hobgoblin I x3", "Warrior II x0"]);
    let drones_looks = vec![lookup(2454, None, vec![], 18), lookup(2488, None, vec![], 18)];
    let (mut drones, mut cargo) = (Vec::new(), Vec::new());
    assert_eq!(assemble_quantity_section(&section, &drones_looks, &mut drones, &mut cargo), Ok(()));
    assert_eq!(drones.len(), 3);
    assert!(drones.iter().all(|d| d.type_id == 2454 && d.state == EsfState::Active));
    assert!(cargo.is_empty());

    let mixed_looks = vec![lookup(2454, None, vec![], 18), lookup(28668, None, vec![], 17)];
    let (mut drones, mut cargo) = (Vec::new(), Vec::new());
    assert_eq!(assemble_quantity_section(&section, &mixed_looks, &mut drones, &mut cargo), Ok(()));
    assert!(drones.is_empty());
    let got: Vec<(i32, i32)> = cargo.iter().map(|c| (c.type_id, c.quantity)).collect();
    assert_eq!(got, vec![(2454, 3), (28668, 0)]);

    let bad = lines(&["Hobgoblin I x"]);
    let (mut drones, mut cargo) = (Vec::new(), Vec::new());
    assert_eq!(
        assemble_quantity_section(&bad, &vec![lookup(1, None, vec![], 18)], &mut drones, &mut cargo),
        Err("Invalid quantity".to_string())
    );
}

#[test]
fn load_eft_without_module_sections() {
    let fit = load_eft(&catalogue(), &"[Rifter,Empty]\n\nWarrior II x1\n".to_string()).unwrap();
    assert_eq!(fit.name, "Empty");
    assert_eq!(fit.esf_fit.ship_type_id, 587);
    assert!(fit.esf_fit.modules.is_empty());
    assert_eq!(fit.esf_fit.drones.len(), 1);
}
