use input_player::button_map::StrMap;
use input_player::controller::{encode_report, BUTTON_A};
use input_player::mapping::{physical_button, resolve_buttons};
use input_player::types::{ButtonMapping, ControllerType, InputFrame, UserButton};

fn buttons(pairs: &[(&str, u8)]) -> StrMap<u8> {
    let mut map = StrMap::new();
    for (name, value) in pairs {
        map.insert(name.to_string(), *value);
    }
    map
}

fn table(pairs: &[(&str, &str)]) -> StrMap<String> {
    let mut map = StrMap::new();
    for (logical, physical) in pairs {
        map.insert(logical.to_string(), physical.to_string());
    }
    map
}

fn line(user: &str, physical: &[&str], use_in_sequence: bool) -> UserButton {
    UserButton {
        user_button: user.to_string(),
        controller_button: physical.iter().map(|p| p.to_string()).collect(),
        use_in_sequence,
    }
}

#[test]
fn or_combination_one_pressed_presses_the_physical_button() {
    let t = table(&[("LP", "button1"), ("Macro", "button1")]);
    let mapped = resolve_buttons(&buttons(&[("LP", 1), ("Macro", 0)]), &t);
    assert_eq!(mapped.get("button1"), Some(&1));
    assert_eq!(mapped.len(), 1);
    let mapped = resolve_buttons(&buttons(&[("LP", 0), ("Macro", 1)]), &t);
    assert_eq!(mapped.get("button1"), Some(&1));
    let mapped = resolve_buttons(&buttons(&[("Macro", 1), ("LP", 0)]), &t);
    assert_eq!(mapped.get("button1"), Some(&1));
    let report = encode_report(&InputFrame::new(1, 5, mapped), false);
    assert!(report.is_set(BUTTON_A));
}

#[test]
fn or_combination_both_released_releases_the_physical_button() {
    let t = table(&[("LP", "button1"), ("Macro", "button1")]);
    let mapped = resolve_buttons(&buttons(&[("LP", 0), ("Macro", 0)]), &t);
    assert_eq!(mapped.get("button1"), Some(&0));
    let report = encode_report(&InputFrame::new(1, 5, mapped), false);
    assert!(!report.is_set(BUTTON_A));
    assert_eq!(report.buttons, 0);
}

#[test]
fn resolve_drops_buttons_without_an_entry() {
    let t = table(&[("LP", "button1")]);
    let mapped = resolve_buttons(&buttons(&[("LP", 0), ("Taunt", 1), ("button2", 1)]), &t);
    assert_eq!(mapped.len(), 1);
    assert_eq!(mapped.get("button1"), Some(&0));
    assert_eq!(mapped.get("Taunt"), None);
    assert_eq!(mapped.get("button2"), None);
    let mapped = resolve_buttons(&buttons(&[("LP", 1)]), &table(&[]));
    assert_eq!(mapped.len(), 0);
}

#[test]
fn resolve_counts_only_the_value_one_as_pressed() {
    let t = table(&[("LP", "button1"), ("HP", "button4")]);
    let mapped = resolve_buttons(&buttons(&[("LP", 2), ("HP", 255)]), &t);
    assert_eq!(mapped.get("button1"), Some(&0));
    assert_eq!(mapped.get("button4"), Some(&0));
}

#[test]
fn resolve_is_the_same_in_any_order() {
    let t = table(&[("a", "button1"), ("b", "button1"), ("c", "button2"), ("d", "button3")]);
    let orders: [[(&str, u8); 4]; 3] = [
        [("a", 0), ("b", 1), ("c", 0), ("d", 1)],
        [("d", 1), ("c", 0), ("b", 1), ("a", 0)],
        [("b", 1), ("d", 1), ("a", 0), ("c", 0)],
    ];
    for order in orders {
        let mapped = resolve_buttons(&buttons(&order), &t);
        assert_eq!(mapped.len(), 3);
        assert_eq!(mapped.get("button1"), Some(&1));
        assert_eq!(mapped.get("button2"), Some(&0));
        assert_eq!(mapped.get("button3"), Some(&1));
    }
}

#[test]
fn mapping_table_takes_the_first_physical_button() {
    let mapping = ButtonMapping {
        controller_type: ControllerType::Xbox,
        mapping: vec![
            line("LP", &["button1", "button9"], true),
            line("None", &[], true),
            line("HP", &["button4"], false),
            line("LP", &["button2"], true),
        ],
    };
    let t = mapping.table();
    assert_eq!(t.len(), 2);
    assert_eq!(t.get("LP"), Some(&"button2".to_string()));
    assert_eq!(t.get("HP"), Some(&"button4".to_string()));
    assert_eq!(t.get("None"), None);
}

#[test]
fn sequence_order_keeps_document_order() {
    let mapping = ButtonMapping {
        controller_type: ControllerType::Xbox,
        mapping: vec![
            line("Start", &["button10"], true),
            line("None", &[], true),
            line("HP", &["button4"], false),
            line("LP", &["button1"], true),
        ],
    };
    assert_eq!(mapping.sequence_order(), vec!["Start", "LP"]);
    let empty = ButtonMapping { controller_type: ControllerType::DualShock4, mapping: Vec::new() };
    assert_eq!(empty.sequence_order().len(), 0);
    assert_eq!(empty.table().len(), 0);
}

#[test]
fn physical_buttons_are_button1_to_button12() {
    for n in 1..=12 {
        assert!(physical_button(&format!("button{}", n)));
    }
    assert!(!physical_button("button0"));
    assert!(!physical_button("button13"));
    assert!(!physical_button("Button1"));
    assert!(!physical_button("button"));
    assert!(!physical_button(""));
}

#[test]
fn inspect_reports_unknown_and_repeated_buttons() {
    let mapping = ButtonMapping {
        controller_type: ControllerType::Xbox,
        mapping: vec![
            line("LP", &["button1"], true),
            line("HP", &["buton4"], true),
            line("None", &[], true),
            line("LP", &["button2", "nonsense"], false),
            line("HP", &["button4"], true),
        ],
    };
    let report = mapping.inspect();
    assert_eq!(report.unknown, vec![false, true, false, false, false]);
    assert_eq!(report.repeated, vec![false, false, false, true, true]);
    let empty = ButtonMapping { controller_type: ControllerType::Xbox, mapping: Vec::new() };
    assert_eq!(empty.inspect().unknown.len(), 0);
    assert_eq!(empty.inspect().repeated.len(), 0);
}
