//! The input state that an analysis of recorded play builds up, the table row
//! it is written as, and the recorder that turns states into frames.

use crate::button_map::{same_name, StrMap};
use crate::csv_loader::{encode_row, join_cells};
use crate::decimal::format_u32;
use crate::types::{frame_views, texts, ButtonMap, FrameView, InputFrame, NEUTRAL_DIRECTION};
use vstd::prelude::*;
use vstd::string::{StrSliceExecFns, StringExecFns};

verus! {

/// A controller state without a duration: a direction and button states.
#[derive(Debug)]
pub struct InputState {
    pub direction: u8,
    pub buttons: ButtonMap,
}

/// What an input state holds, as mathematical values.
pub struct InputStateView {
    pub direction: u8,
    pub buttons: Map<Seq<char>, u8>,
}

impl View for InputState {
    type V = InputStateView;

    open spec fn view(&self) -> InputStateView {
        InputStateView { direction: self.direction, buttons: self.buttons@ }
    }
}

impl InputStateView {
    /// The state held for `duration` ticks.
    pub open spec fn frame(self, duration: u32) -> FrameView {
        FrameView::digital(duration, self.direction, self.buttons)
    }
}

/// Whether a class name is that of a direction: it begins with `dir_`.
pub open spec fn is_direction_class(name: Seq<char>) -> bool {
    name.len() >= 4 && name[0] == 'd' && name[1] == 'i' && name[2] == 'r' && name[3] == '_'
}

/// The direction that a class name stands for: `dir_1` to `dir_9`.
pub open spec fn class_direction(name: Seq<char>) -> Option<u8> {
    if name == "dir_1"@ {
        Some(1u8)
    } else if name == "dir_2"@ {
        Some(2u8)
    } else if name == "dir_3"@ {
        Some(3u8)
    } else if name == "dir_4"@ {
        Some(4u8)
    } else if name == "dir_5"@ {
        Some(5u8)
    } else if name == "dir_6"@ {
        Some(6u8)
    } else if name == "dir_7"@ {
        Some(7u8)
    } else if name == "dir_8"@ {
        Some(8u8)
    } else if name == "dir_9"@ {
        Some(9u8)
    } else {
        None
    }
}

/// The state after a class was recognised. A direction class sets the
/// direction, an unknown one of them is ignored; `empty` and `others` stand
/// for nothing; every other class is a button, which is pressed.
pub open spec fn with_class(state: InputStateView, name: Seq<char>) -> InputStateView {
    match class_direction(name) {
        Some(direction) => InputStateView { direction, ..state },
        None => if is_direction_class(name) || name == "empty"@ || name == "others"@ {
            state
        } else {
            InputStateView { buttons: state.buttons.insert(name, 1), ..state }
        },
    }
}

impl InputState {
    /// The state at rest: stick centred, no button.
    pub fn new() -> (r: InputState)
        ensures
            r@ == (InputStateView { direction: NEUTRAL_DIRECTION, buttons: Map::empty() }),
    {
        InputState { direction: NEUTRAL_DIRECTION, buttons: StrMap::new() }
    }

    /// The table line of this state held for `duration` ticks, with one
    /// column for each of `button_labels`.
    pub fn to_csv_line(&self, duration: u32, button_labels: &Vec<String>) -> (r: String)
        ensures
            r@ == join_cells(encode_row(self@.frame(duration), texts(button_labels@))),
    {
        proof {
            reveal_strlit(",");
        }
        let ghost names = texts(button_labels@);
        let ghost row = encode_row(self@.frame(duration), names);
        let mut line = format_u32(duration);
        line.append(",");
        let direction = format_u32(self.direction as u32);
        line.append(direction.as_str());
        assert(row.subrange(0, 2).drop_last() =~= row.subrange(0, 1));
        assert(join_cells(row.subrange(0, 1)) == row[0]);
        assert(row.subrange(0, 2).last() == row[1]);
        assert(line@ =~= join_cells(row.subrange(0, 2)));
        let n = button_labels.len();
        let mut i: usize = 0;
        while i < n
            invariant
                i <= n,
                n == button_labels@.len(),
                names == texts(button_labels@),
                row == encode_row(self@.frame(duration), names),
                line@ == join_cells(row.subrange(0, i + 2)),
                ","@ == seq![','],
            decreases n - i,
        {
            let state: u8 = match self.buttons.get(button_labels[i].as_str()) {
                Some(v) => *v,
                None => 0,
            };
            let cell = format_u32(state as u32);
            assert(row.subrange(0, i + 3).drop_last() =~= row.subrange(0, i + 2));
            assert(row.subrange(0, i + 3).last() == cell@);
            line.append(",");
            line.append(cell.as_str());
            assert(line@ =~= join_cells(row.subrange(0, i + 3)));
            i = i + 1;
        }
        assert(row.subrange(0, n + 2) =~= row);
        line
    }
}

fn starts_with_dir(name: &str) -> (r: bool)
    ensures
        r == is_direction_class(name@),
{
    name.unicode_len() >= 4 && name.get_char(0) == 'd' && name.get_char(1) == 'i' && name.get_char(
        2,
    ) == 'r' && name.get_char(3) == '_'
}

fn direction_of(name: &str) -> (r: Option<u8>)
    ensures
        r == class_direction(name@),
{
    if same_name(name, "dir_1") {
        Some(1)
    } else if same_name(name, "dir_2") {
        Some(2)
    } else if same_name(name, "dir_3") {
        Some(3)
    } else if same_name(name, "dir_4") {
        Some(4)
    } else if same_name(name, "dir_5") {
        Some(5)
    } else if same_name(name, "dir_6") {
        Some(6)
    } else if same_name(name, "dir_7") {
        Some(7)
    } else if same_name(name, "dir_8") {
        Some(8)
    } else if same_name(name, "dir_9") {
        Some(9)
    } else {
        None
    }
}

/// Takes a recognised class into the state.
pub fn update_input_state(state: &mut InputState, class_name: &str)
    ensures
        final(state)@ == with_class(old(state)@, class_name@),
{
    match direction_of(class_name) {
        Some(direction) => {
            state.direction = direction;
        },
        None => {
            if !starts_with_dir(class_name) && !same_name(class_name, "empty") && !same_name(
                class_name,
                "others",
            ) {
                state.buttons.insert(String::from_str(class_name), 1);
            }
        },
    }
}

impl InputState {
    /// Whether two states are the same: the same direction and the same
    /// button states.
    pub fn same_as(&self, other: &InputState) -> (r: bool)
        ensures
            r == (self@ == other@),
    {
        self.direction == other.direction && self.buttons.same_entries(&other.buttons)
    }
}

/// The state that a frame holds.
pub open spec fn state_of(frame: FrameView) -> InputStateView {
    InputStateView { direction: frame.direction, buttons: frame.buttons }
}

/// The states that frames stand for, tick by tick: each frame's state as
/// often as its duration says.
pub open spec fn expand(frames: Seq<FrameView>) -> Seq<InputStateView>
    decreases frames.len(),
{
    if frames.len() == 0 {
        Seq::empty()
    } else {
        expand(frames.drop_last()) + Seq::new(
            frames.last().duration as nat,
            |i: int| state_of(frames.last()),
        )
    }
}

/// Whether frames are a run-length encoding: every frame lasts at least one
/// tick and has its analog fields at rest, and a frame is followed by one of
/// the same state only when its duration is the largest there is.
pub open spec fn run_length_encoded(frames: Seq<FrameView>) -> bool {
    &&& forall|i: int|
        0 <= i < frames.len() ==> (#[trigger] frames[i]).duration >= 1 && frames[i]
            == state_of(frames[i]).frame(frames[i].duration)
    &&& forall|i: int|
        0 <= i < frames.len() - 1 ==> state_of(#[trigger] frames[i]) != state_of(frames[i + 1])
            || frames[i].duration == u32::MAX
}

/// Turns states observed tick by tick into frames: equal states in a row
/// become one frame that lasts as long as the row.
pub struct InputRecorder {
    frames: Vec<InputFrame>,
}

impl InputRecorder {
    #[verifier::type_invariant]
    spec fn is_encoded(self) -> bool {
        run_length_encoded(frame_views(self.frames@))
    }

    /// The states recorded so far, tick by tick.
    pub closed spec fn history(&self) -> Seq<InputStateView> {
        expand(frame_views(self.frames@))
    }

    /// A recorder that has seen nothing.
    pub fn new() -> (r: InputRecorder)
        ensures
            r.history() == Seq::<InputStateView>::empty(),
    {
        let frames: Vec<InputFrame> = Vec::new();
        assert(frame_views(frames@) =~= Seq::<FrameView>::empty());
        InputRecorder { frames }
    }

    /// Takes the state of one more tick.
    pub fn record(&mut self, state: InputState)
        ensures
            final(self).history() == old(self).history().push(state@),
    {
        proof {
            use_type_invariant(&*self);
        }
        let mut frames: Vec<InputFrame> = Vec::new();
        assert(frame_views(frames@) =~= Seq::<FrameView>::empty());
        core::mem::swap(&mut self.frames, &mut frames);
        let ghost before = frame_views(frames@);
        let n = frames.len();
        let extends = n > 0 && frames[n - 1].duration < u32::MAX && state.direction
            == frames[n - 1].direction && state.buttons.same_entries(&frames[n - 1].buttons);
        if extends {
            let last = frames.pop().unwrap();
            let ghost head = frame_views(frames@);
            let longer = InputFrame::new(last.duration + 1, last.direction, last.buttons);
            frames.push(longer);
            proof {
                let after = frame_views(frames@);
                assert(head =~= before.drop_last());
                assert(after.drop_last() =~= head);
                assert(after.last() == state@.frame((before.last().duration + 1) as u32));
                assert(before.last() == state@.frame(before.last().duration));
                assert(expand(after) =~= expand(before).push(state@));
                assert forall|i: int| 0 <= i < after.len() implies (#[trigger] after[i]).duration
                    >= 1 && after[i] == state_of(after[i]).frame(after[i].duration) by {
                    if i < after.len() - 1 {
                        assert(after[i] == before[i]);
                    }
                }
                assert forall|i: int| 0 <= i < after.len() - 1 implies state_of(
                    #[trigger] after[i],
                ) != state_of(after[i + 1]) || after[i].duration == u32::MAX by {
                    assert(after[i] == before[i]);
                    assert(state_of(after[i + 1]) == state_of(before[i + 1]));
                }
            }
        } else {
            frames.push(InputFrame::new(1, state.direction, state.buttons));
            proof {
                let after = frame_views(frames@);
                assert(after.drop_last() =~= before);
                assert(after.last() == state@.frame(1));
                assert(expand(after) =~= expand(before).push(state@));
                assert forall|i: int| 0 <= i < after.len() implies (#[trigger] after[i]).duration
                    >= 1 && after[i] == state_of(after[i]).frame(after[i].duration) by {
                    if i < after.len() - 1 {
                        assert(after[i] == before[i]);
                    }
                }
                assert forall|i: int| 0 <= i < after.len() - 1 implies state_of(
                    #[trigger] after[i],
                ) != state_of(after[i + 1]) || after[i].duration == u32::MAX by {
                    assert(after[i] == before[i]);
                    if i + 1 < after.len() - 1 {
                        assert(after[i + 1] == before[i + 1]);
                    }
                }
            }
        }
        self.frames = frames;
    }

    /// The frames of what was recorded: a run-length encoding of the history.
    pub fn finish(self) -> (r: Vec<InputFrame>)
        ensures
            expand(frame_views(r@)) == self.history(),
            run_length_encoded(frame_views(r@)),
    {
        proof {
            use_type_invariant(&self);
        }
        self.frames
    }
}

} // verus!
