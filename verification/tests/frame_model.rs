use input_player::analyzer::{update_input_state, InputRecorder, InputState};
use input_player::csv_loader::encode_csv;
use input_player::button_map::{same_name, StrMap};
use input_player::order::{column_order, name_precedes, sort_names};
use input_player::types::{ControllerType, InputFrame, SequenceState};

fn names(items: &[&str]) -> Vec<String> {
    items.iter().map(|s| s.to_string()).collect()
}

#[test]
fn str_map_keeps_one_value_per_name_in_insertion_order() {
    let mut map: StrMap<u8> = StrMap::new();
    assert_eq!(map.len(), 0);
    assert_eq!(map.get("A"), None);
    assert!(!map.contains_key("A"));
    map.insert("B".to_string(), 1);
    map.insert("A".to_string(), 0);
    map.insert("B".to_string(), 7);
    assert_eq!(map.len(), 2);
    assert_eq!(map.get("B"), Some(&7));
    assert_eq!(map.get("A"), Some(&0));
    assert!(map.contains_key("A"));
    assert_eq!(map.keys(), names(&["B", "A"]));
    assert_eq!(map.entry(0), Some((&"B".to_string(), &7)));
    assert_eq!(map.entry(1), Some((&"A".to_string(), &0)));
    assert_eq!(map.entry(2), None);
    let copy = map.clone();
    assert_eq!(copy.keys(), map.keys());
    assert_eq!(copy.get("B"), Some(&7));
}

#[test]
fn same_name_compares_text() {
    assert!(same_name("", ""));
    assert!(same_name("button1", "button1"));
    assert!(!same_name("button1", "button10"));
    assert!(!same_name("button1", "Button1"));
    assert!(same_name("\u{30dc}\u{30bf}\u{30f3}", "\u{30dc}\u{30bf}\u{30f3}"));
    assert!(!same_name("\u{30dc}\u{30bf}\u{30f3}", "\u{30dc}\u{30bf}"));
}

#[test]
fn neutral_frame_holds_nothing() {
    let frame = InputFrame::neutral();
    assert_eq!(frame.duration, 1);
    assert_eq!(frame.direction, 5);
    assert_eq!(frame.buttons.len(), 0);
    assert_eq!(frame.thumb_lx, 0);
    assert_eq!(frame.left_trigger, 0);
    let copy = frame.clone();
    assert_eq!(copy.duration, 1);
    assert_eq!(copy.direction, 5);
}

#[test]
fn controller_type_names() {
    assert_eq!(ControllerType::Xbox.to_string(), "Xbox");
    assert_eq!(ControllerType::DualShock4.to_string(), "DualShock4");
    assert_eq!(ControllerType::from_name("xbox"), Some(ControllerType::Xbox));
    assert_eq!(ControllerType::from_name("dualshock4"), Some(ControllerType::DualShock4));
    assert_eq!(ControllerType::from_name("Xbox"), None);
    assert_eq!(ControllerType::from_name(""), None);
    assert_eq!(SequenceState::NoSequence.as_str(), "no_sequence");
}

#[test]
fn input_state_starts_neutral() {
    let state = InputState::new();
    assert_eq!(state.direction, 5);
    assert_eq!(state.buttons.len(), 0);
    assert_eq!(state.to_csv_line(1, &Vec::new()), "1,5");
}

#[test]
fn input_state_takes_classes() {
    let mut state = InputState::new();
    update_input_state(&mut state, "dir_6");
    assert_eq!(state.direction, 6);
    update_input_state(&mut state, "dir_0");
    update_input_state(&mut state, "dir_");
    update_input_state(&mut state, "dir_10");
    assert_eq!(state.direction, 6);
    assert_eq!(state.buttons.len(), 0);
    update_input_state(&mut state, "empty");
    update_input_state(&mut state, "others");
    assert_eq!(state.buttons.len(), 0);
    update_input_state(&mut state, "LP");
    update_input_state(&mut state, "di");
    update_input_state(&mut state, "LP");
    assert_eq!(state.buttons.len(), 2);
    assert_eq!(state.buttons.get("LP"), Some(&1));
    assert_eq!(state.buttons.get("di"), Some(&1));
    update_input_state(&mut state, "dir_5");
    assert_eq!(state.direction, 5);
    for n in 1u8..=9 {
        update_input_state(&mut state, &format!("dir_{}", n));
        assert_eq!(state.direction, n);
    }
}

#[test]
fn input_state_writes_a_table_line() {
    let mut state = InputState::new();
    update_input_state(&mut state, "dir_2");
    update_input_state(&mut state, "HP");
    let line = state.to_csv_line(12, &names(&["LP", "HP", "LK"]));
    assert_eq!(line, "12,2,0,1,0");
}

#[test]
fn names_are_ordered_by_bytes() {
    assert!(name_precedes("", ""));
    assert!(name_precedes("", "a"));
    assert!(!name_precedes("a", ""));
    assert!(name_precedes("a", "a"));
    assert!(name_precedes("a", "b"));
    assert!(!name_precedes("b", "a"));
    assert!(name_precedes("B", "a"));
    assert!(name_precedes("button1", "button10"));
    assert!(name_precedes("button10", "button2"));
    assert!(name_precedes("z", "\u{00e9}"));
    for (a, b) in [("a", "b"), ("x", "x"), ("ab", "a"), ("", "q"), ("\u{3042}", "z")] {
        assert_eq!(name_precedes(a, b), a <= b);
        assert_eq!(name_precedes(b, a), b <= a);
    }
}

#[test]
fn sort_names_orders_and_keeps_every_name() {
    let sorted = sort_names(names(&["LP", "button2", "HP", "button10", "LP", ""]));
    assert_eq!(sorted, names(&["", "HP", "LP", "LP", "button10", "button2"]));
    let mut expected = names(&["d", "a", "c", "b"]);
    expected.sort();
    assert_eq!(sort_names(names(&["d", "a", "c", "b"])), expected);
    assert_eq!(sort_names(Vec::new()).len(), 0);
}

#[test]
fn column_order_prefers_the_mapping_order() {
    let mut buttons = StrMap::new();
    buttons.insert("LP".to_string(), 1);
    buttons.insert("HP".to_string(), 0);
    buttons.insert("Aux".to_string(), 0);
    let frames = vec![InputFrame::new(1, 5, buttons)];
    assert_eq!(column_order(&names(&["HP", "LP"]), &frames), names(&["HP", "LP"]));
    assert_eq!(column_order(&Vec::new(), &frames), names(&["Aux", "HP", "LP"]));
    assert_eq!(column_order(&Vec::new(), &Vec::new()).len(), 0);
    assert_eq!(column_order(&names(&["X"]), &Vec::new()), names(&["X"]));
}

fn state(direction: u8, pressed: &[&str]) -> InputState {
    let mut state = InputState::new();
    state.direction = direction;
    for name in pressed {
        state.buttons.insert(name.to_string(), 1);
    }
    state
}

#[test]
fn states_are_the_same_whatever_the_button_order() {
    assert!(state(5, &[]).same_as(&InputState::new()));
    assert!(state(6, &["LP", "HP"]).same_as(&state(6, &["HP", "LP"])));
    assert!(!state(6, &["LP"]).same_as(&state(4, &["LP"])));
    assert!(!state(6, &["LP"]).same_as(&state(6, &["LP", "HP"])));
    assert!(!state(6, &["LP", "HP"]).same_as(&state(6, &["LP"])));
    assert!(!state(6, &["LP"]).same_as(&state(6, &["HP"])));
    let mut released = state(6, &[]);
    released.buttons.insert("LP".to_string(), 0);
    assert!(!released.same_as(&state(6, &["LP"])));
    assert!(!released.same_as(&state(6, &[])));
}

#[test]
fn recorder_groups_equal_states_in_a_row() {
    let mut recorder = InputRecorder::new();
    for _ in 0..3 {
        recorder.record(state(5, &[]));
    }
    recorder.record(state(6, &["LP"]));
    recorder.record(state(6, &["LP"]));
    recorder.record(state(6, &["LP", "HP"]));
    recorder.record(state(5, &[]));
    let frames = recorder.finish();
    assert_eq!(frames.len(), 4);
    let durations: Vec<u32> = frames.iter().map(|f| f.duration).collect();
    let directions: Vec<u8> = frames.iter().map(|f| f.direction).collect();
    assert_eq!(durations, vec![3, 2, 1, 1]);
    assert_eq!(directions, vec![5, 6, 6, 5]);
    assert_eq!(frames[1].buttons.get("LP"), Some(&1));
    assert_eq!(frames[1].buttons.get("HP"), None);
    assert_eq!(frames[2].buttons.get("HP"), Some(&1));
    let order = names(&["LP", "HP"]);
    assert_eq!(
        encode_csv(&frames, &order),
        "duration,direction,LP,HP\n3,5,0,0\n2,6,1,0\n1,6,1,1\n1,5,0,0\n"
    );
}

#[test]
fn recorder_without_input_gives_no_frame() {
    assert_eq!(InputRecorder::new().finish().len(), 0);
    let mut recorder = InputRecorder::new();
    recorder.record(InputState::new());
    let frames = recorder.finish();
    assert_eq!(frames.len(), 1);
    assert_eq!(frames[0].duration, 1);
    assert_eq!(frames[0].direction, 5);
}
