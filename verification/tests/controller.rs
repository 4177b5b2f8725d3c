use input_player::button_map::StrMap;
use input_player::controller::{
    encode_report, parse_direction, ConnectStep, ConnectionState, Controller, ControllerError,
    DriverOutcome, PhysicalReport, BUTTON_A, BUTTON_B, BUTTON_BACK, BUTTON_LEFT_SHOULDER,
    BUTTON_LEFT_THUMB, BUTTON_RIGHT_SHOULDER, BUTTON_RIGHT_THUMB, BUTTON_START, BUTTON_X, BUTTON_Y,
    DPAD_DOWN, DPAD_LEFT, DPAD_RIGHT, DPAD_UP,
};
use input_player::types::{ControllerType, InputFrame};

fn frame(direction: u8, buttons: &[(&str, u8)]) -> InputFrame {
    let mut map = StrMap::new();
    for (name, value) in buttons {
        map.insert(name.to_string(), *value);
    }
    InputFrame::new(1, direction, map)
}

fn connected() -> Controller {
    let mut controller = Controller::new();
    assert_eq!(controller.connect(ControllerType::Xbox), Ok(ConnectStep::OpenDevice));
    assert_eq!(controller.finish_connect(DriverOutcome::Ready), Ok(()));
    controller
}

#[test]
fn parse_direction_follows_the_numpad() {
    assert_eq!(parse_direction(8, false), (true, false, false, false));
    assert_eq!(parse_direction(2, false), (false, true, false, false));
    assert_eq!(parse_direction(4, false), (false, false, true, false));
    assert_eq!(parse_direction(6, false), (false, false, false, true));
    assert_eq!(parse_direction(7, false), (true, false, true, false));
    assert_eq!(parse_direction(9, false), (true, false, false, true));
    assert_eq!(parse_direction(1, false), (false, true, true, false));
    assert_eq!(parse_direction(3, false), (false, true, false, true));
    assert_eq!(parse_direction(5, false), (false, false, false, false));
    assert_eq!(parse_direction(0, false), (false, false, false, false));
    assert_eq!(parse_direction(10, false), (false, false, false, false));
    assert_eq!(parse_direction(255, true), (false, false, false, false));
}

#[test]
fn parse_direction_inverted_swaps_left_and_right() {
    assert_eq!(parse_direction(4, true), (false, false, false, true));
    assert_eq!(parse_direction(6, true), (false, false, true, false));
    assert_eq!(parse_direction(7, true), (true, false, false, true));
    assert_eq!(parse_direction(3, true), (false, true, true, false));
    assert_eq!(parse_direction(8, true), (true, false, false, false));
    assert_eq!(parse_direction(2, true), (false, true, false, false));
}

#[test]
fn encode_report_sets_one_bit_per_button() {
    let cases: [(&str, u16); 10] = [
        ("button1", 0x1000),
        ("button2", 0x2000),
        ("button3", 0x4000),
        ("button4", 0x8000),
        ("button5", 0x0100),
        ("button6", 0x0200),
        ("button9", 0x0020),
        ("button10", 0x0010),
        ("button11", 0x0040),
        ("button12", 0x0080),
    ];
    for (name, mask) in cases {
        let report = encode_report(&frame(5, &[(name, 1)]), false);
        assert_eq!(report.buttons, mask);
        assert!(report.is_set(mask));
        assert_eq!(report.left_trigger, 0);
        assert_eq!(report.right_trigger, 0);
    }
    assert_eq!(BUTTON_A, 0x1000);
    assert_eq!(BUTTON_B, 0x2000);
    assert_eq!(BUTTON_X, 0x4000);
    assert_eq!(BUTTON_Y, 0x8000);
    assert_eq!(BUTTON_LEFT_SHOULDER, 0x0100);
    assert_eq!(BUTTON_RIGHT_SHOULDER, 0x0200);
    assert_eq!(BUTTON_BACK, 0x0020);
    assert_eq!(BUTTON_START, 0x0010);
    assert_eq!(BUTTON_LEFT_THUMB, 0x0040);
    assert_eq!(BUTTON_RIGHT_THUMB, 0x0080);
}

#[test]
fn encode_report_combines_direction_and_buttons() {
    let report = encode_report(&frame(9, &[("button5", 1), ("button1", 1), ("button3", 1)]), false);
    assert_eq!(report.buttons, 0x5109);
    assert_eq!(report.buttons, DPAD_UP | DPAD_RIGHT | BUTTON_LEFT_SHOULDER | BUTTON_A | BUTTON_X);
    let report = encode_report(&frame(9, &[("button1", 1)]), true);
    assert_eq!(report.buttons, DPAD_UP | DPAD_LEFT | BUTTON_A);
    let report = encode_report(&frame(2, &[]), false);
    assert_eq!(report.buttons, DPAD_DOWN);
}

#[test]
fn encode_report_ignores_released_and_unknown_buttons() {
    let report = encode_report(
        &frame(5, &[("button1", 0), ("button2", 2), ("button13", 1), ("A", 1), ("", 1)]),
        false,
    );
    assert_eq!(report, PhysicalReport::default());
    assert!(!report.is_set(BUTTON_A));
}

#[test]
fn encode_report_triggers_go_to_maximum() {
    let report = encode_report(&frame(5, &[("button7", 1)]), false);
    assert_eq!(report.buttons, 0);
    assert_eq!(report.left_trigger, 255);
    assert_eq!(report.right_trigger, 0);
    let report = encode_report(&frame(5, &[("button8", 1), ("button7", 0)]), false);
    assert_eq!(report.left_trigger, 0);
    assert_eq!(report.right_trigger, 255);
}

#[test]
fn encode_report_leaves_the_axes_at_rest() {
    let mut with_axes = frame(6, &[("button1", 1)]);
    with_axes.thumb_lx = 1200;
    with_axes.thumb_ry = -700;
    with_axes.left_trigger = 9;
    let report = encode_report(&with_axes, false);
    assert_eq!(report.thumb_lx, 0);
    assert_eq!(report.thumb_ly, 0);
    assert_eq!(report.thumb_rx, 0);
    assert_eq!(report.thumb_ry, 0);
    assert_eq!(report.left_trigger, 0);
    assert_eq!(report.buttons, DPAD_RIGHT | BUTTON_A);
}

#[test]
fn new_controller_is_disconnected() {
    let controller = Controller::new();
    assert!(!controller.is_connected());
    assert_eq!(controller.connection_state(), ConnectionState::Disconnected);
    assert_eq!(controller.controller_type(), None);
    assert_eq!(controller.last_report(), PhysicalReport::default());
}

#[test]
fn connect_goes_through_connecting() {
    let mut controller = Controller::new();
    assert_eq!(controller.connect(ControllerType::Xbox), Ok(ConnectStep::OpenDevice));
    assert_eq!(controller.connection_state(), ConnectionState::Connecting(ControllerType::Xbox));
    assert!(!controller.is_connected());
    assert_eq!(controller.finish_connect(DriverOutcome::Ready), Ok(()));
    assert!(controller.is_connected());
    assert_eq!(controller.controller_type(), Some(ControllerType::Xbox));
}

#[test]
fn connect_when_connected_changes_nothing() {
    let mut controller = connected();
    assert_eq!(controller.connect(ControllerType::Xbox), Ok(ConnectStep::AlreadyConnected));
    assert_eq!(controller.connect(ControllerType::DualShock4), Ok(ConnectStep::AlreadyConnected));
    assert_eq!(controller.connection_state(), ConnectionState::Connected(ControllerType::Xbox));
}

#[test]
fn connect_refuses_unsupported_kind() {
    let mut controller = Controller::new();
    assert_eq!(
        controller.connect(ControllerType::DualShock4),
        Err(ControllerError::UnsupportedDeviceKind)
    );
    assert_eq!(controller.connection_state(), ConnectionState::Disconnected);
}

#[test]
fn failed_connect_leaves_disconnected_and_can_be_retried() {
    let outcomes = [
        (DriverOutcome::DriverUnavailable, ControllerError::DriverUnavailable),
        (DriverOutcome::PluginFailed, ControllerError::PluginFailed),
        (DriverOutcome::NotReady, ControllerError::NotReady),
    ];
    for (outcome, error) in outcomes {
        let mut controller = Controller::new();
        assert_eq!(controller.connect(ControllerType::Xbox), Ok(ConnectStep::OpenDevice));
        assert_eq!(controller.finish_connect(outcome), Err(error));
        assert_eq!(controller.connection_state(), ConnectionState::Disconnected);
        assert_eq!(controller.connect(ControllerType::Xbox), Ok(ConnectStep::OpenDevice));
        assert_eq!(controller.finish_connect(DriverOutcome::Ready), Ok(()));
        assert!(controller.is_connected());
    }
}

#[test]
fn finish_connect_without_pending_connect() {
    let mut controller = Controller::new();
    assert_eq!(controller.finish_connect(DriverOutcome::Ready), Err(ControllerError::NotConnected));
    assert!(!controller.is_connected());
    let mut controller = connected();
    assert_eq!(controller.finish_connect(DriverOutcome::PluginFailed), Ok(()));
    assert!(controller.is_connected());
}

#[test]
fn update_input_needs_a_live_device() {
    let mut controller = Controller::new();
    assert_eq!(
        controller.update_input(&frame(8, &[("button1", 1)]), false),
        Err(ControllerError::NotConnected)
    );
    assert_eq!(controller.last_report(), PhysicalReport::default());
    assert_eq!(controller.connect(ControllerType::Xbox), Ok(ConnectStep::OpenDevice));
    assert_eq!(
        controller.update_input(&frame(8, &[("button1", 1)]), false),
        Err(ControllerError::NotConnected)
    );
}

#[test]
fn update_input_hands_out_and_remembers_the_report() {
    let mut controller = connected();
    let report = controller.update_input(&frame(8, &[("button1", 1)]), false).unwrap();
    assert_eq!(report.buttons, DPAD_UP | BUTTON_A);
    assert_eq!(controller.last_report(), report);
    let report = controller.update_input(&InputFrame::neutral(), false).unwrap();
    assert_eq!(report, PhysicalReport::default());
    assert_eq!(controller.last_report(), PhysicalReport::default());
}

#[test]
fn disconnect_twice_is_disconnect_once() {
    let mut once = connected();
    assert!(once.disconnect());
    let mut twice = connected();
    assert!(twice.disconnect());
    assert!(!twice.disconnect());
    assert_eq!(once.connection_state(), twice.connection_state());
    assert_eq!(once.controller_type(), twice.controller_type());
    assert_eq!(once.last_report(), twice.last_report());
    assert_eq!(twice.connection_state(), ConnectionState::Disconnected);
    let mut never = Controller::new();
    assert!(!never.disconnect());
    assert_eq!(never.connection_state(), ConnectionState::Disconnected);
}

#[test]
fn controller_error_messages() {
    assert_eq!(ControllerError::NotConnected.message(), "Controller not connected");
    assert_eq!(ControllerError::UnsupportedDeviceKind.message(), "DualShock4 is not yet supported");
    assert_eq!(ControllerError::DriverUnavailable.message(), "Failed to connect to ViGEm");
    assert_eq!(ControllerError::PluginFailed.message(), "Failed to plugin Xbox controller");
    assert_eq!(ControllerError::NotReady.message(), "Failed to wait ready");
}
