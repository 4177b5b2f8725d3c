//! The frame model: one controller state held for a number of ticks, the
//! button mapping document, and the playback states.

use crate::button_map::{same_name, StrMap};
use vstd::prelude::*;
use vstd::string::StringExecFns;

verus! {

/// Button states by button name: `1` is pressed, anything else is released.
pub type ButtonMap = StrMap<u8>;

/// The direction value of a centred stick.
pub const NEUTRAL_DIRECTION: u8 = 5;

/// One run-length row: a controller state held for `duration` ticks.
///
/// `direction` is numpad style (8 is up, 2 is down, 4 is left, 6 is right, the
/// corners are diagonals); 5 and every value outside 1 to 9 are neutral.
#[derive(Debug)]
pub struct InputFrame {
    pub duration: u32,
    pub direction: u8,
    pub buttons: ButtonMap,
    pub thumb_lx: i16,
    pub thumb_ly: i16,
    pub thumb_rx: i16,
    pub thumb_ry: i16,
    pub left_trigger: u8,
    pub right_trigger: u8,
}

/// What a frame holds, as mathematical values.
pub struct FrameView {
    pub duration: u32,
    pub direction: u8,
    pub buttons: Map<Seq<char>, u8>,
    pub thumb_lx: i16,
    pub thumb_ly: i16,
    pub thumb_rx: i16,
    pub thumb_ry: i16,
    pub left_trigger: u8,
    pub right_trigger: u8,
}

impl View for InputFrame {
    type V = FrameView;

    open spec fn view(&self) -> FrameView {
        FrameView {
            duration: self.duration,
            direction: self.direction,
            buttons: self.buttons@,
            thumb_lx: self.thumb_lx,
            thumb_ly: self.thumb_ly,
            thumb_rx: self.thumb_rx,
            thumb_ry: self.thumb_ry,
            left_trigger: self.left_trigger,
            right_trigger: self.right_trigger,
        }
    }
}

impl FrameView {
    /// A frame as a table row gives it: the analog fields at rest.
    pub open spec fn digital(duration: u32, direction: u8, buttons: Map<Seq<char>, u8>) -> FrameView {
        FrameView {
            duration,
            direction,
            buttons,
            thumb_lx: 0,
            thumb_ly: 0,
            thumb_rx: 0,
            thumb_ry: 0,
            left_trigger: 0,
            right_trigger: 0,
        }
    }

    /// The frame that releases everything: one tick, stick centred, no button.
    pub open spec fn neutral() -> FrameView {
        FrameView::digital(1, NEUTRAL_DIRECTION, Map::empty())
    }

    /// Whether `name` is held down in this frame.
    pub open spec fn pressed(self, name: Seq<char>) -> bool {
        is_pressed(self.buttons, name)
    }
}

/// Whether `buttons` holds `name` with the value 1.
pub open spec fn is_pressed(buttons: Map<Seq<char>, u8>, name: Seq<char>) -> bool {
    buttons.contains_key(name) && buttons[name] == 1
}

/// The views of a list of frames.
pub open spec fn frame_views(frames: Seq<InputFrame>) -> Seq<FrameView> {
    Seq::new(frames.len(), |i: int| frames[i]@)
}

/// The texts of a list of strings.
pub open spec fn texts(items: Seq<String>) -> Seq<Seq<char>> {
    Seq::new(items.len(), |i: int| items[i]@)
}

impl InputFrame {
    /// A frame with the analog fields at rest.
    pub fn new(duration: u32, direction: u8, buttons: ButtonMap) -> (r: InputFrame)
        ensures
            r@ == FrameView::digital(duration, direction, buttons@),
            r.buttons == buttons,
    {
        InputFrame {
            duration,
            direction,
            buttons,
            thumb_lx: 0,
            thumb_ly: 0,
            thumb_rx: 0,
            thumb_ry: 0,
            left_trigger: 0,
            right_trigger: 0,
        }
    }

    /// The frame that releases everything.
    pub fn neutral() -> (r: InputFrame)
        ensures
            r@ == FrameView::neutral(),
    {
        InputFrame::new(1, NEUTRAL_DIRECTION, StrMap::new())
    }
}

impl Clone for InputFrame {
    /// A copy that holds the same values.
    fn clone(&self) -> (r: InputFrame)
        ensures
            r@ == self@,
    {
        InputFrame {
            duration: self.duration,
            direction: self.direction,
            buttons: self.buttons.clone(),
            thumb_lx: self.thumb_lx,
            thumb_ly: self.thumb_ly,
            thumb_rx: self.thumb_rx,
            thumb_ry: self.thumb_ry,
            left_trigger: self.left_trigger,
            right_trigger: self.right_trigger,
        }
    }
}

/// The kinds of virtual device.
#[derive(Debug, Clone, Copy, PartialEq, Eq, Structural)]
pub enum ControllerType {
    Xbox,
    DualShock4,
}

impl ControllerType {
    /// The kind's display name.
    pub fn to_string(&self) -> (r: String)
        ensures
            r@ == match *self {
                ControllerType::Xbox => "Xbox"@,
                ControllerType::DualShock4 => "DualShock4"@,
            },
    {
        match self {
            ControllerType::Xbox => String::from_str("Xbox"),
            ControllerType::DualShock4 => String::from_str("DualShock4"),
        }
    }

    /// The kind that a lower-case identifier names: `xbox` or `dualshock4`.
    pub fn from_name(name: &str) -> (r: Option<ControllerType>)
        ensures
            r == if name@ == "xbox"@ {
                Some(ControllerType::Xbox)
            } else if name@ == "dualshock4"@ {
                Some(ControllerType::DualShock4)
            } else {
                None
            },
    {
        if same_name(name, "xbox") {
            Some(ControllerType::Xbox)
        } else if same_name(name, "dualshock4") {
            Some(ControllerType::DualShock4)
        } else {
            None
        }
    }
}

/// Where playback stands.
#[derive(Debug, Clone, Copy, PartialEq, Eq, Structural)]
pub enum SequenceState {
    /// No sequence is loaded.
    NoSequence,
    /// A sequence is loaded and playback is at rest at its start.
    Stopped,
    /// The sequence is being played.
    Playing,
}

impl SequenceState {
    /// The state's name in change notifications.
    pub fn as_str(&self) -> (r: &'static str)
        ensures
            r@ == match *self {
                SequenceState::NoSequence => "no_sequence"@,
                SequenceState::Stopped => "stopped"@,
                SequenceState::Playing => "playing"@,
            },
    {
        match self {
            SequenceState::NoSequence => "no_sequence",
            SequenceState::Stopped => "stopped",
            SequenceState::Playing => "playing",
        }
    }
}

/// A snapshot of playback progress.
#[derive(Debug, Clone, Copy, PartialEq, Eq, Structural)]
pub struct SequenceEvent {
    pub state: SequenceState,
    pub current_step: usize,
    pub total_steps: usize,
}

/// One line of a button mapping document: a logical button, the physical
/// buttons it stands for (only the first is used), and whether it has a column
/// in sequence tables.
#[derive(Debug)]
pub struct UserButton {
    pub user_button: String,
    pub controller_button: Vec<String>,
    pub use_in_sequence: bool,
}

/// What a mapping line holds, as mathematical values.
pub struct UserButtonView {
    pub user_button: Seq<char>,
    pub controller_button: Seq<Seq<char>>,
    pub use_in_sequence: bool,
}

impl View for UserButton {
    type V = UserButtonView;

    open spec fn view(&self) -> UserButtonView {
        UserButtonView {
            user_button: self.user_button@,
            controller_button: texts(self.controller_button@),
            use_in_sequence: self.use_in_sequence,
        }
    }
}

/// A button mapping document.
#[derive(Debug)]
pub struct ButtonMapping {
    pub controller_type: ControllerType,
    pub mapping: Vec<UserButton>,
}

/// The views of a list of mapping lines.
pub open spec fn user_button_views(lines: Seq<UserButton>) -> Seq<UserButtonView> {
    Seq::new(lines.len(), |i: int| lines[i]@)
}

} // verus!
