//! The virtual device adapter: the wire-level report, how a frame is encoded
//! into one, and the connection state machine.
//!
//! The adapter decides; the host performs. Opening, unplugging and writing to
//! the device are done by the caller, who is told what to do by the value each
//! method returns and reports back how opening went.

use crate::types::{is_pressed, ButtonMap, ControllerType, FrameView, InputFrame};
use vstd::prelude::*;

verus! {

pub const DPAD_UP: u16 = 0x0001;

pub const DPAD_DOWN: u16 = 0x0002;

pub const DPAD_LEFT: u16 = 0x0004;

pub const DPAD_RIGHT: u16 = 0x0008;

pub const BUTTON_START: u16 = 0x0010;

pub const BUTTON_BACK: u16 = 0x0020;

pub const BUTTON_LEFT_THUMB: u16 = 0x0040;

pub const BUTTON_RIGHT_THUMB: u16 = 0x0080;

pub const BUTTON_LEFT_SHOULDER: u16 = 0x0100;

pub const BUTTON_RIGHT_SHOULDER: u16 = 0x0200;

pub const BUTTON_A: u16 = 0x1000;

pub const BUTTON_B: u16 = 0x2000;

pub const BUTTON_X: u16 = 0x4000;

pub const BUTTON_Y: u16 = 0x8000;

/// The magnitude of a fully pulled trigger.
pub const TRIGGER_MAX: u8 = 255;

/// The snapshot of the controller that is written to the device.
#[derive(Debug, Clone, Copy, PartialEq, Eq, Structural)]
pub struct PhysicalReport {
    /// The direction pad and the discrete buttons, one bit each.
    pub buttons: u16,
    pub left_trigger: u8,
    pub right_trigger: u8,
    pub thumb_lx: i16,
    pub thumb_ly: i16,
    pub thumb_rx: i16,
    pub thumb_ry: i16,
}

impl PhysicalReport {
    /// Whether every bit of `mask` is set among the buttons.
    pub open spec fn has(self, mask: u16) -> bool {
        self.buttons & mask == mask
    }

    /// The report with nothing pressed.
    pub open spec fn released() -> PhysicalReport {
        PhysicalReport {
            buttons: 0,
            left_trigger: 0,
            right_trigger: 0,
            thumb_lx: 0,
            thumb_ly: 0,
            thumb_rx: 0,
            thumb_ry: 0,
        }
    }

    /// Whether every bit of `mask` is set among the buttons.
    pub fn is_set(&self, mask: u16) -> (r: bool)
        ensures
            r == self.has(mask),
    {
        self.buttons & mask == mask
    }
}

impl Default for PhysicalReport {
    fn default() -> (r: PhysicalReport)
        ensures
            r == PhysicalReport::released(),
    {
        PhysicalReport {
            buttons: 0,
            left_trigger: 0,
            right_trigger: 0,
            thumb_lx: 0,
            thumb_ly: 0,
            thumb_rx: 0,
            thumb_ry: 0,
        }
    }
}

/// The four half-axis flags `(up, down, left, right)` of a numpad-style
/// direction, with left and right exchanged when `invert_horizontal` is set.
pub open spec fn direction_flags(direction: u8, invert_horizontal: bool) -> (bool, bool, bool, bool) {
    let up = direction == 7 || direction == 8 || direction == 9;
    let down = direction == 1 || direction == 2 || direction == 3;
    let left = direction == 1 || direction == 4 || direction == 7;
    let right = direction == 3 || direction == 6 || direction == 9;
    if invert_horizontal {
        (up, down, right, left)
    } else {
        (up, down, left, right)
    }
}

/// `mask` when `on`, no bit otherwise.
pub open spec fn bit_if(on: bool, mask: u16) -> u16 {
    if on {
        mask
    } else {
        0
    }
}

/// The direction pad bits of a direction.
pub open spec fn dpad_bits(direction: u8, invert_horizontal: bool) -> u16 {
    let flags = direction_flags(direction, invert_horizontal);
    bit_if(flags.0, DPAD_UP) | bit_if(flags.1, DPAD_DOWN) | bit_if(flags.2, DPAD_LEFT) | bit_if(
        flags.3,
        DPAD_RIGHT,
    )
}

/// The discrete button bits of a set of physical button states. The physical
/// buttons are named `button1` to `button12`; `button7` and `button8` are the
/// triggers and have no bit.
pub open spec fn button_bits(buttons: Map<Seq<char>, u8>) -> u16 {
    bit_if(is_pressed(buttons, "button1"@), BUTTON_A) | bit_if(
        is_pressed(buttons, "button2"@),
        BUTTON_B,
    ) | bit_if(is_pressed(buttons, "button3"@), BUTTON_X) | bit_if(
        is_pressed(buttons, "button4"@),
        BUTTON_Y,
    ) | bit_if(is_pressed(buttons, "button5"@), BUTTON_LEFT_SHOULDER) | bit_if(
        is_pressed(buttons, "button6"@),
        BUTTON_RIGHT_SHOULDER,
    ) | bit_if(is_pressed(buttons, "button9"@), BUTTON_BACK) | bit_if(
        is_pressed(buttons, "button10"@),
        BUTTON_START,
    ) | bit_if(is_pressed(buttons, "button11"@), BUTTON_LEFT_THUMB) | bit_if(
        is_pressed(buttons, "button12"@),
        BUTTON_RIGHT_THUMB,
    )
}

/// The magnitude of a trigger: fully pulled when its button is pressed.
pub open spec fn trigger_level(buttons: Map<Seq<char>, u8>, name: Seq<char>) -> u8 {
    if is_pressed(buttons, name) {
        TRIGGER_MAX
    } else {
        0
    }
}

/// The report that stands for a frame of physical button states: direction
/// pad bits from the direction, one bit per pressed discrete button, a trigger
/// at its maximum when pressed, and the analog axes at rest.
pub open spec fn report_of(frame: FrameView, invert_horizontal: bool) -> PhysicalReport {
    PhysicalReport {
        buttons: dpad_bits(frame.direction, invert_horizontal) | button_bits(frame.buttons),
        left_trigger: trigger_level(frame.buttons, "button7"@),
        right_trigger: trigger_level(frame.buttons, "button8"@),
        thumb_lx: 0,
        thumb_ly: 0,
        thumb_rx: 0,
        thumb_ry: 0,
    }
}

/// Turns a direction into its half-axis flags `(up, down, left, right)`.
pub fn parse_direction(direction: u8, invert_horizontal: bool) -> (r: (bool, bool, bool, bool))
    ensures
        r == direction_flags(direction, invert_horizontal),
{
    let mut up = false;
    let mut down = false;
    let mut left = false;
    let mut right = false;
    match direction {
        8 => {
            up = true;
        },
        2 => {
            down = true;
        },
        4 => {
            left = true;
        },
        6 => {
            right = true;
        },
        7 => {
            up = true;
            left = true;
        },
        9 => {
            up = true;
            right = true;
        },
        1 => {
            down = true;
            left = true;
        },
        3 => {
            down = true;
            right = true;
        },
        _ => {},
    }
    if invert_horizontal {
        (up, down, right, left)
    } else {
        (up, down, left, right)
    }
}

fn flag(on: bool, mask: u16) -> (r: u16)
    ensures
        r == bit_if(on, mask),
{
    if on {
        mask
    } else {
        0
    }
}

fn is_down(buttons: &ButtonMap, name: &str) -> (r: bool)
    ensures
        r == is_pressed(buttons@, name@),
{
    match buttons.get(name) {
        Some(v) => *v == 1,
        None => false,
    }
}

/// Encodes a frame of physical button states as a device report.
pub fn encode_report(frame: &InputFrame, invert_horizontal: bool) -> (r: PhysicalReport)
    ensures
        r == report_of(frame@, invert_horizontal),
{
    let (up, down, left, right) = parse_direction(frame.direction, invert_horizontal);
    let dpad = flag(up, DPAD_UP) | flag(down, DPAD_DOWN) | flag(left, DPAD_LEFT) | flag(
        right,
        DPAD_RIGHT,
    );
    let b = &frame.buttons;
    let pad = flag(is_down(b, "button1"), BUTTON_A) | flag(is_down(b, "button2"), BUTTON_B) | flag(
        is_down(b, "button3"),
        BUTTON_X,
    ) | flag(is_down(b, "button4"), BUTTON_Y) | flag(is_down(b, "button5"), BUTTON_LEFT_SHOULDER)
        | flag(is_down(b, "button6"), BUTTON_RIGHT_SHOULDER) | flag(
        is_down(b, "button9"),
        BUTTON_BACK,
    ) | flag(is_down(b, "button10"), BUTTON_START) | flag(
        is_down(b, "button11"),
        BUTTON_LEFT_THUMB,
    ) | flag(is_down(b, "button12"), BUTTON_RIGHT_THUMB);
    let left_trigger = if is_down(b, "button7") {
        TRIGGER_MAX
    } else {
        0
    };
    let right_trigger = if is_down(b, "button8") {
        TRIGGER_MAX
    } else {
        0
    };
    PhysicalReport {
        buttons: dpad | pad,
        left_trigger,
        right_trigger,
        thumb_lx: 0,
        thumb_ly: 0,
        thumb_rx: 0,
        thumb_ry: 0,
    }
}

/// In the report of a frame, each direction pad bit is set exactly when its
/// half-axis flag is on, and each discrete button bit exactly when its
/// physical button is pressed.
pub proof fn lemma_report_bits(frame: FrameView, invert_horizontal: bool)
    ensures
        ({
            let r = report_of(frame, invert_horizontal);
            let f = direction_flags(frame.direction, invert_horizontal);
            &&& r.has(DPAD_UP) == f.0
            &&& r.has(DPAD_DOWN) == f.1
            &&& r.has(DPAD_LEFT) == f.2
            &&& r.has(DPAD_RIGHT) == f.3
            &&& r.has(BUTTON_A) == frame.pressed("button1"@)
            &&& r.has(BUTTON_B) == frame.pressed("button2"@)
            &&& r.has(BUTTON_X) == frame.pressed("button3"@)
            &&& r.has(BUTTON_Y) == frame.pressed("button4"@)
            &&& r.has(BUTTON_LEFT_SHOULDER) == frame.pressed("button5"@)
            &&& r.has(BUTTON_RIGHT_SHOULDER) == frame.pressed("button6"@)
            &&& r.has(BUTTON_BACK) == frame.pressed("button9"@)
            &&& r.has(BUTTON_START) == frame.pressed("button10"@)
            &&& r.has(BUTTON_LEFT_THUMB) == frame.pressed("button11"@)
            &&& r.has(BUTTON_RIGHT_THUMB) == frame.pressed("button12"@)
        }),
{
    let f = direction_flags(frame.direction, invert_horizontal);
    let held = frame.buttons;
    let bit_up = bit_if(f.0, DPAD_UP);
    let bit_down = bit_if(f.1, DPAD_DOWN);
    let bit_left = bit_if(f.2, DPAD_LEFT);
    let bit_right = bit_if(f.3, DPAD_RIGHT);
    let bit_a = bit_if(is_pressed(held, "button1"@), BUTTON_A);
    let bit_b = bit_if(is_pressed(held, "button2"@), BUTTON_B);
    let bit_x = bit_if(is_pressed(held, "button3"@), BUTTON_X);
    let bit_y = bit_if(is_pressed(held, "button4"@), BUTTON_Y);
    let bit_lb = bit_if(is_pressed(held, "button5"@), BUTTON_LEFT_SHOULDER);
    let bit_rb = bit_if(is_pressed(held, "button6"@), BUTTON_RIGHT_SHOULDER);
    let bit_back = bit_if(is_pressed(held, "button9"@), BUTTON_BACK);
    let bit_start = bit_if(is_pressed(held, "button10"@), BUTTON_START);
    let bit_lthumb = bit_if(is_pressed(held, "button11"@), BUTTON_LEFT_THUMB);
    let bit_rthumb = bit_if(is_pressed(held, "button12"@), BUTTON_RIGHT_THUMB);
    let all = (bit_up | bit_down | bit_left | bit_right) | (bit_a | bit_b | bit_x | bit_y | bit_lb
        | bit_rb | bit_back | bit_start | bit_lthumb | bit_rthumb);
    assert(report_of(frame, invert_horizontal).buttons == all);
    assert({
        &&& (all & 0x0001 == 0x0001) == (bit_up == 0x0001)
        &&& (all & 0x0002 == 0x0002) == (bit_down == 0x0002)
        &&& (all & 0x0004 == 0x0004) == (bit_left == 0x0004)
        &&& (all & 0x0008 == 0x0008) == (bit_right == 0x0008)
        &&& (all & 0x1000 == 0x1000) == (bit_a == 0x1000)
        &&& (all & 0x2000 == 0x2000) == (bit_b == 0x2000)
        &&& (all & 0x4000 == 0x4000) == (bit_x == 0x4000)
        &&& (all & 0x8000 == 0x8000) == (bit_y == 0x8000)
        &&& (all & 0x0100 == 0x0100) == (bit_lb == 0x0100)
        &&& (all & 0x0200 == 0x0200) == (bit_rb == 0x0200)
        &&& (all & 0x0020 == 0x0020) == (bit_back == 0x0020)
        &&& (all & 0x0010 == 0x0010) == (bit_start == 0x0010)
        &&& (all & 0x0040 == 0x0040) == (bit_lthumb == 0x0040)
        &&& (all & 0x0080 == 0x0080) == (bit_rthumb == 0x0080)
    }) by (bit_vector)
        requires
            all == (bit_up | bit_down | bit_left | bit_right) | (bit_a | bit_b | bit_x | bit_y
                | bit_lb | bit_rb | bit_back | bit_start | bit_lthumb | bit_rthumb),
            bit_up == 0 || bit_up == 0x0001,
            bit_down == 0 || bit_down == 0x0002,
            bit_left == 0 || bit_left == 0x0004,
            bit_right == 0 || bit_right == 0x0008,
            bit_a == 0 || bit_a == 0x1000,
            bit_b == 0 || bit_b == 0x2000,
            bit_x == 0 || bit_x == 0x4000,
            bit_y == 0 || bit_y == 0x8000,
            bit_lb == 0 || bit_lb == 0x0100,
            bit_rb == 0 || bit_rb == 0x0200,
            bit_back == 0 || bit_back == 0x0020,
            bit_start == 0 || bit_start == 0x0010,
            bit_lthumb == 0 || bit_lthumb == 0x0040,
            bit_rthumb == 0 || bit_rthumb == 0x0080,
    ;
}

/// The report of the neutral frame has nothing pressed.
pub proof fn lemma_neutral_report(invert_horizontal: bool)
    ensures
        report_of(FrameView::neutral(), invert_horizontal) == PhysicalReport::released(),
{
    assert(0u16 | 0u16 == 0u16) by (bit_vector);
}

/// Where the adapter's connection stands, with the kind of device it is for.
#[derive(Debug, Clone, Copy, PartialEq, Eq, Structural)]
pub enum ConnectionState {
    Disconnected,
    /// The host has been told to open the device and has not reported back.
    Connecting(ControllerType),
    Connected(ControllerType),
}

/// Why an adapter operation was refused.
#[derive(Debug, Clone, Copy, PartialEq, Eq, Structural)]
pub enum ControllerError {
    /// The operation needs a live device.
    NotConnected,
    /// The device kind is not implemented.
    UnsupportedDeviceKind,
    /// The host driver could not be reached.
    DriverUnavailable,
    /// The virtual device could not be plugged in.
    PluginFailed,
    /// The virtual device did not become ready.
    NotReady,
}

impl ControllerError {
    /// The error's message.
    pub fn message(&self) -> (r: &'static str)
        ensures
            r@ == match *self {
                ControllerError::NotConnected => "Controller not connected"@,
                ControllerError::UnsupportedDeviceKind => "DualShock4 is not yet supported"@,
                ControllerError::DriverUnavailable => "Failed to connect to ViGEm"@,
                ControllerError::PluginFailed => "Failed to plugin Xbox controller"@,
                ControllerError::NotReady => "Failed to wait ready"@,
            },
    {
        match self {
            ControllerError::NotConnected => "Controller not connected",
            ControllerError::UnsupportedDeviceKind => "DualShock4 is not yet supported",
            ControllerError::DriverUnavailable => "Failed to connect to ViGEm",
            ControllerError::PluginFailed => "Failed to plugin Xbox controller",
            ControllerError::NotReady => "Failed to wait ready",
        }
    }
}

/// What the host has to do after `connect` accepted the request.
#[derive(Debug, Clone, Copy, PartialEq, Eq, Structural)]
pub enum ConnectStep {
    /// Nothing: the device is live already.
    AlreadyConnected,
    /// Open the driver, plug the device in, wait until it is ready, and report
    /// the outcome to `finish_connect`.
    OpenDevice,
}

/// How the host's attempt to open the device ended.
#[derive(Debug, Clone, Copy, PartialEq, Eq, Structural)]
pub enum DriverOutcome {
    Ready,
    DriverUnavailable,
    PluginFailed,
    NotReady,
}

/// The error that a failed attempt to open the device stands for.
pub open spec fn outcome_error(outcome: DriverOutcome) -> Option<ControllerError> {
    match outcome {
        DriverOutcome::Ready => None,
        DriverOutcome::DriverUnavailable => Some(ControllerError::DriverUnavailable),
        DriverOutcome::PluginFailed => Some(ControllerError::PluginFailed),
        DriverOutcome::NotReady => Some(ControllerError::NotReady),
    }
}

/// What the adapter holds, as plain values.
pub struct ControllerView {
    pub state: ConnectionState,
    /// The report written last.
    pub gamepad: PhysicalReport,
}

impl ControllerView {
    /// Whether the device is live.
    pub open spec fn connected(self) -> bool {
        self.state is Connected
    }

    /// The kind of the device that is live or being opened.
    pub open spec fn controller_type(self) -> Option<ControllerType> {
        match self.state {
            ConnectionState::Disconnected => None,
            ConnectionState::Connecting(kind) => Some(kind),
            ConnectionState::Connected(kind) => Some(kind),
        }
    }

    /// The adapter after `connect`.
    pub open spec fn connect_asked(self, kind: ControllerType) -> ControllerView {
        if self.connected() || kind != ControllerType::Xbox {
            self
        } else {
            ControllerView { state: ConnectionState::Connecting(kind), ..self }
        }
    }

    /// The adapter after the host reported `outcome` for a pending connect.
    pub open spec fn connect_finished(self, outcome: DriverOutcome) -> ControllerView {
        match self.state {
            ConnectionState::Connecting(kind) => if outcome == DriverOutcome::Ready {
                ControllerView { state: ConnectionState::Connected(kind), ..self }
            } else {
                self.disconnected()
            },
            _ => self,
        }
    }

    /// The adapter after `disconnect`.
    pub open spec fn disconnected(self) -> ControllerView {
        ControllerView { state: ConnectionState::Disconnected, ..self }
    }

    /// What `update_input` hands to the device: the frame's report when the
    /// device is live.
    pub open spec fn write(self, frame: FrameView, invert_horizontal: bool) -> Option<
        PhysicalReport,
    > {
        if self.connected() {
            Some(report_of(frame, invert_horizontal))
        } else {
            None
        }
    }

    /// The adapter after `update_input`: it remembers what was written.
    pub open spec fn written(self, frame: FrameView, invert_horizontal: bool) -> ControllerView {
        if self.connected() {
            ControllerView { gamepad: report_of(frame, invert_horizontal), ..self }
        } else {
            self
        }
    }
}

/// The adapter of one virtual device.
#[derive(Debug)]
pub struct Controller {
    state: ConnectionState,
    gamepad: PhysicalReport,
}

impl View for Controller {
    type V = ControllerView;

    closed spec fn view(&self) -> ControllerView {
        ControllerView { state: self.state, gamepad: self.gamepad }
    }
}

impl Controller {
    /// A disconnected adapter that has written nothing.
    pub fn new() -> (r: Controller)
        ensures
            r@ == (ControllerView {
                state: ConnectionState::Disconnected,
                gamepad: PhysicalReport::released(),
            }),
    {
        Controller { state: ConnectionState::Disconnected, gamepad: PhysicalReport::default() }
    }

    /// Whether the device is live.
    pub fn is_connected(&self) -> (r: bool)
        ensures
            r == self@.connected(),
    {
        match self.state {
            ConnectionState::Connected(_) => true,
            _ => false,
        }
    }

    /// The connection state.
    pub fn connection_state(&self) -> (r: ConnectionState)
        ensures
            r == self@.state,
    {
        self.state
    }

    /// The kind of the device that is live or being opened.
    pub fn controller_type(&self) -> (r: Option<ControllerType>)
        ensures
            r == self@.controller_type(),
    {
        match self.state {
            ConnectionState::Disconnected => None,
            ConnectionState::Connecting(kind) => Some(kind),
            ConnectionState::Connected(kind) => Some(kind),
        }
    }

    /// The report written last.
    pub fn last_report(&self) -> (r: PhysicalReport)
        ensures
            r == self@.gamepad,
    {
        self.gamepad
    }

    /// Asks for a connection to a device of the given kind.
    ///
    /// With a live device nothing changes. A kind other than `Xbox` is refused
    /// and nothing changes. Otherwise the adapter is `Connecting` and the host
    /// has to open the device.
    pub fn connect(&mut self, controller_type: ControllerType) -> (r: Result<
        ConnectStep,
        ControllerError,
    >)
        ensures
            final(self)@ == old(self)@.connect_asked(controller_type),
            r == if old(self)@.connected() {
                Ok::<ConnectStep, ControllerError>(ConnectStep::AlreadyConnected)
            } else if controller_type != ControllerType::Xbox {
                Err::<ConnectStep, ControllerError>(ControllerError::UnsupportedDeviceKind)
            } else {
                Ok::<ConnectStep, ControllerError>(ConnectStep::OpenDevice)
            },
    {
        if self.is_connected() {
            return Ok(ConnectStep::AlreadyConnected);
        }
        if controller_type != ControllerType::Xbox {
            return Err(ControllerError::UnsupportedDeviceKind);
        }
        self.state = ConnectionState::Connecting(controller_type);
        Ok(ConnectStep::OpenDevice)
    }

    /// Takes the host's report on a pending connect. `Ready` makes the adapter
    /// connected; a failure makes it disconnected and is returned as its error.
    /// Without a pending connect nothing changes, and the answer says whether
    /// a device is live.
    pub fn finish_connect(&mut self, outcome: DriverOutcome) -> (r: Result<(), ControllerError>)
        ensures
            final(self)@ == old(self)@.connect_finished(outcome),
            r == match old(self)@.state {
                ConnectionState::Connecting(_) => match outcome_error(outcome) {
                    Some(e) => Err::<(), ControllerError>(e),
                    None => Ok::<(), ControllerError>(()),
                },
                ConnectionState::Connected(_) => Ok::<(), ControllerError>(()),
                ConnectionState::Disconnected => Err::<(), ControllerError>(
                    ControllerError::NotConnected,
                ),
            },
    {
        match self.state {
            ConnectionState::Connected(_) => Ok(()),
            ConnectionState::Disconnected => Err(ControllerError::NotConnected),
            ConnectionState::Connecting(kind) => {
                match outcome {
                    DriverOutcome::Ready => {
                        self.state = ConnectionState::Connected(kind);
                        Ok(())
                    },
                    DriverOutcome::DriverUnavailable => {
                        self.state = ConnectionState::Disconnected;
                        Err(ControllerError::DriverUnavailable)
                    },
                    DriverOutcome::PluginFailed => {
                        self.state = ConnectionState::Disconnected;
                        Err(ControllerError::PluginFailed)
                    },
                    DriverOutcome::NotReady => {
                        self.state = ConnectionState::Disconnected;
                        Err(ControllerError::NotReady)
                    },
                }
            },
        }
    }

    /// Gives the device up. Returns whether the host has a live device to
    /// unplug. On a disconnected adapter nothing changes and nothing is to be
    /// unplugged.
    pub fn disconnect(&mut self) -> (unplug: bool)
        ensures
            final(self)@ == old(self)@.disconnected(),
            unplug == old(self)@.connected(),
    {
        let unplug = self.is_connected();
        self.state = ConnectionState::Disconnected;
        unplug
    }

    /// Encodes `frame` for the device. With a live device the report is
    /// remembered and returned for the host to write; otherwise the call fails
    /// with `NotConnected` and nothing changes.
    pub fn update_input(&mut self, frame: &InputFrame, invert_horizontal: bool) -> (r: Result<
        PhysicalReport,
        ControllerError,
    >)
        ensures
            final(self)@ == old(self)@.written(frame@, invert_horizontal),
            r == match old(self)@.write(frame@, invert_horizontal) {
                Some(report) => Ok::<PhysicalReport, ControllerError>(report),
                None => Err::<PhysicalReport, ControllerError>(ControllerError::NotConnected),
            },
    {
        if !self.is_connected() {
            return Err(ControllerError::NotConnected);
        }
        let report = encode_report(frame, invert_horizontal);
        self.gamepad = report;
        Ok(report)
    }
}

/// Disconnecting a disconnected adapter changes nothing, so disconnecting
/// twice in a row is the same as disconnecting once, and the second call
/// finds nothing to unplug.
pub proof fn lemma_disconnect_idempotent(c: ControllerView)
    ensures
        c.disconnected().disconnected() == c.disconnected(),
        !c.disconnected().connected(),
        c.state is Disconnected ==> c.disconnected() == c,
{
}

} // verus!
