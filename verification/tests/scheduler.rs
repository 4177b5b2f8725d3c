use input_player::button_map::StrMap;
use input_player::controller::{
    ConnectStep, Controller, ControllerError, DriverOutcome, PhysicalReport, BUTTON_A, DPAD_UP,
};
use input_player::player::{ConfigError, Player, Tick};
use input_player::scheduler::{
    interval_for, stop_playback, update_manual_input, Scheduler, SchedulerStep,
};
use input_player::types::{ControllerType, InputFrame, SequenceState};

fn frame(duration: u32, direction: u8, buttons: &[(&str, u8)]) -> InputFrame {
    let mut map = StrMap::new();
    for (name, value) in buttons {
        map.insert(name.to_string(), *value);
    }
    InputFrame::new(duration, direction, map)
}

fn buttons(pairs: &[(&str, u8)]) -> StrMap<u8> {
    let mut map = StrMap::new();
    for (name, value) in pairs {
        map.insert(name.to_string(), *value);
    }
    map
}

fn connected() -> Controller {
    let mut controller = Controller::new();
    assert_eq!(controller.connect(ControllerType::Xbox), Ok(ConnectStep::OpenDevice));
    assert_eq!(controller.finish_connect(DriverOutcome::Ready), Ok(()));
    controller
}

fn loaded() -> Player {
    let mut player = Player::new();
    assert_eq!(player.load_frames(vec![frame(3, 5, &[]), frame(2, 8, &[])]), Ok(()));
    player
}

#[test]
fn interval_is_a_thousand_over_the_rate() {
    assert_eq!(interval_for(60), Ok(16));
    assert_eq!(interval_for(30), Ok(33));
    assert_eq!(interval_for(1), Ok(1000));
    assert_eq!(interval_for(240), Ok(4));
    assert_eq!(interval_for(0), Err(ConfigError::InvalidRate));
    assert_eq!(interval_for(241), Err(ConfigError::InvalidRate));
}

#[test]
fn scheduler_is_built_for_a_valid_rate() {
    assert_eq!(Scheduler::new(60).unwrap().interval_ms(), 16);
    assert_eq!(Scheduler::new(0).err(), Some(ConfigError::InvalidRate));
    assert_eq!(Scheduler::new(1000).err(), Some(ConfigError::InvalidRate));
}

#[test]
fn rate_change_retimes_and_skips_the_tick() {
    let mut scheduler = Scheduler::new(60).unwrap();
    let mut player = loaded();
    let mut controller = connected();
    player.start_at(0);
    let step = scheduler.on_tick_at(30, &mut player, &mut controller, 0);
    assert_eq!(step, SchedulerStep::Retime { interval_ms: 33 });
    assert_eq!(scheduler.interval_ms(), 33);
    assert_eq!(player.get_current_step(), 0);
    let step = scheduler.on_tick_at(30, &mut player, &mut controller, 0);
    assert_eq!(
        step,
        SchedulerStep::Ran {
            tick: Tick { report: Some(PhysicalReport::default()), state_changed: false },
            notify: None,
        }
    );
    assert_eq!(player.get_current_step(), 1);
}

#[test]
fn invalid_configured_rate_is_not_taken() {
    let mut scheduler = Scheduler::new(60).unwrap();
    let mut player = loaded();
    let mut controller = connected();
    assert_eq!(scheduler.on_tick_at(0, &mut player, &mut controller, 0), SchedulerStep::Idle);
    assert_eq!(scheduler.on_tick_at(500, &mut player, &mut controller, 0), SchedulerStep::Idle);
    assert_eq!(scheduler.interval_ms(), 16);
}

#[test]
fn tick_without_a_live_device_does_nothing() {
    let mut scheduler = Scheduler::new(60).unwrap();
    let mut player = loaded();
    let mut controller = Controller::new();
    player.start_at(0);
    assert_eq!(scheduler.on_tick_at(60, &mut player, &mut controller, 100), SchedulerStep::Idle);
    assert_eq!(player.get_state(), SequenceState::Playing);
    assert_eq!(player.get_current_step(), 0);
}

#[test]
fn tick_at_rest_does_nothing() {
    let mut scheduler = Scheduler::new(60).unwrap();
    let mut player = loaded();
    let mut controller = connected();
    assert_eq!(scheduler.on_tick_at(60, &mut player, &mut controller, 100), SchedulerStep::Idle);
    assert_eq!(scheduler.on_tick(60, &mut player, &mut controller), SchedulerStep::Idle);
    let mut empty = Player::new();
    assert_eq!(scheduler.on_tick_at(60, &mut empty, &mut controller, 100), SchedulerStep::Idle);
}

#[test]
fn state_is_published_once_per_transition() {
    let mut scheduler = Scheduler::new(60).unwrap();
    let mut player = loaded();
    let mut controller = connected();
    player.start_at(0);
    let mut published = Vec::new();
    let mut writes = 0;
    for now in (0u128..400).step_by(16) {
        match scheduler.on_tick_at(60, &mut player, &mut controller, now) {
            SchedulerStep::Ran { tick, notify } => {
                if tick.report.is_some() {
                    writes += 1;
                }
                if let Some(state) = notify {
                    published.push(state);
                }
            }
            SchedulerStep::Idle => {}
            SchedulerStep::Retime { .. } => panic!("rate did not change"),
        }
    }
    assert_eq!(published, vec![SequenceState::Stopped]);
    assert_eq!(writes, 3);
    assert_eq!(SequenceState::Stopped.as_str(), "stopped");
    assert_eq!(SequenceState::Playing.as_str(), "playing");
    assert_eq!(SequenceState::NoSequence.as_str(), "no_sequence");
}

#[test]
fn loop_restart_publishes_playing() {
    let mut scheduler = Scheduler::new(60).unwrap();
    let mut player = loaded();
    player.set_loop_playback(true);
    let mut controller = connected();
    player.start_at(0);
    scheduler.on_tick_at(60, &mut player, &mut controller, 0);
    scheduler.on_tick_at(60, &mut player, &mut controller, 50);
    let step = scheduler.on_tick_at(60, &mut player, &mut controller, 90);
    assert_eq!(
        step,
        SchedulerStep::Ran {
            tick: Tick { report: None, state_changed: true },
            notify: Some(SequenceState::Playing),
        }
    );
}

#[test]
fn stop_playback_sends_the_neutral_report() {
    let mut player = loaded();
    let mut controller = connected();
    player.start_at(0);
    let report = player.update_at(0, &mut controller).report;
    assert!(report.is_some());
    controller.update_input(&frame(1, 8, &[("button1", 1)]), false).unwrap();
    assert_eq!(controller.last_report().buttons, DPAD_UP | BUTTON_A);
    assert_eq!(stop_playback(&mut player, &mut controller), Some(PhysicalReport::default()));
    assert_eq!(player.get_state(), SequenceState::Stopped);
    assert_eq!(controller.last_report(), PhysicalReport::default());
    assert_eq!(stop_playback(&mut player, &mut controller), Some(PhysicalReport::default()));
    assert_eq!(player.get_state(), SequenceState::Stopped);
    let mut offline = Controller::new();
    assert_eq!(stop_playback(&mut player, &mut offline), None);
}

#[test]
fn manual_input_is_applied_at_once() {
    let player = loaded();
    let mut controller = connected();
    let mut manual = InputFrame::neutral();
    let report =
        update_manual_input(&player, &mut controller, &mut manual, 8, buttons(&[("button1", 1)]))
            .unwrap()
            .unwrap();
    assert_eq!(report.buttons, DPAD_UP | BUTTON_A);
    assert_eq!(manual.direction, 8);
    assert_eq!(manual.buttons.get("button1"), Some(&1));
    assert_eq!(manual.duration, 1);
    assert_eq!(controller.last_report(), report);
}

#[test]
fn manual_input_is_dropped_while_playing() {
    let mut player = loaded();
    let mut controller = connected();
    let mut manual = InputFrame::neutral();
    player.start_at(0);
    let r = update_manual_input(&player, &mut controller, &mut manual, 8, buttons(&[("button1", 1)]));
    assert_eq!(r, Ok(None));
    assert_eq!(manual.direction, 5);
    assert_eq!(manual.buttons.len(), 0);
    assert_eq!(controller.last_report(), PhysicalReport::default());
}

#[test]
fn manual_input_needs_a_live_device() {
    let player = Player::new();
    let mut controller = Controller::new();
    let mut manual = InputFrame::neutral();
    let r = update_manual_input(&player, &mut controller, &mut manual, 8, buttons(&[]));
    assert_eq!(r, Err(ControllerError::NotConnected));
    assert_eq!(manual.direction, 5);
}
