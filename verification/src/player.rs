//! The playback state machine.
//!
//! A player owns a sequence and steps through it by the clock. Each step's
//! deadline is computed from the start of the cycle and the cumulative
//! duration of the steps before it, never from the previous deadline, so that
//! late ticks do not add up.

use crate::button_map::StrMap;
use crate::controller::{report_of, Controller, ControllerView, PhysicalReport};
use crate::csv_loader::LoadError;
use crate::mapping::{resolve, resolve_buttons};
use crate::types::{frame_views, FrameView, InputFrame, SequenceEvent, SequenceState};
use std::time::Instant;
use vstd::prelude::*;

verus! {

/// The lowest tick rate that can be configured, in ticks per second.
pub const MIN_RATE: u32 = 1;

/// The highest tick rate that can be configured, in ticks per second.
pub const MAX_RATE: u32 = 240;

/// The tick rate of a new player.
pub const DEFAULT_RATE: u32 = 60;

/// Why a setting was rejected.
#[derive(Debug, Clone, Copy, PartialEq, Eq, Structural)]
pub enum ConfigError {
    /// The tick rate is outside `MIN_RATE` to `MAX_RATE`.
    InvalidRate,
}

/// Whether `fps` is a tick rate that can be configured.
pub open spec fn valid_rate(fps: u32) -> bool {
    MIN_RATE <= fps <= MAX_RATE
}

/// The timing of a playback cycle in progress. Times are in milliseconds.
#[derive(Debug, Clone, Copy, PartialEq, Eq, Structural)]
pub struct Run {
    /// The time at which the cycle started.
    pub start_time: u128,
    /// The index of the step that is applied next; the number of steps when
    /// all have been applied.
    pub current_step: usize,
    /// How long after `start_time` the next step is due.
    pub next_step_time: u128,
}

/// What a tick asks of the host and tells it.
#[derive(Debug, Clone, Copy, PartialEq, Eq, Structural)]
pub struct Tick {
    /// The report to write to the device, if any.
    pub report: Option<PhysicalReport>,
    /// Whether a playback cycle ended: playback stopped, or started over.
    pub state_changed: bool,
}

/// The sum of the durations of the first `k` frames.
pub open spec fn cumulative(frames: Seq<FrameView>, k: int) -> nat
    decreases k,
{
    if k <= 0 {
        0
    } else {
        cumulative(frames, k - 1) + frames[k - 1].duration as nat
    }
}

/// How long after the start of a cycle the step with index `steps` is due, in
/// milliseconds at `fps` ticks per second: the cumulative duration of the
/// steps before it, converted and rounded down.
pub open spec fn deadline_ms(frames: Seq<FrameView>, steps: int, fps: u32) -> nat {
    cumulative(frames, steps) * 1000 / (fps as nat)
}

/// A frame as it is written to the device: the logical buttons replaced by
/// the physical buttons they stand for.
pub open spec fn mapped_frame(frame: FrameView, table: Map<Seq<char>, Seq<char>>) -> FrameView {
    FrameView { buttons: resolve(frame.buttons, table), ..frame }
}

/// What a player holds, as mathematical values.
pub struct PlayerView {
    pub frames: Seq<FrameView>,
    /// The cycle in progress while playing.
    pub run: Option<Run>,
    pub invert_horizontal: bool,
    pub button_mapping: Map<Seq<char>, Seq<char>>,
    pub loop_playback: bool,
    pub current_path: Option<Seq<char>>,
    pub fps: u32,
}

impl PlayerView {
    /// What every player satisfies: a tick rate in range, no frame of
    /// duration zero, and a cycle only over a sequence that has frames,
    /// positioned within it.
    pub open spec fn valid(self) -> bool {
        &&& valid_rate(self.fps)
        &&& self.frames.len() <= usize::MAX
        &&& playable(self.frames)
        &&& self.run matches Some(run) ==> self.frames.len() > 0 && run.current_step
            <= self.frames.len()
    }

    pub open spec fn state(self) -> SequenceState {
        if self.frames.len() == 0 {
            SequenceState::NoSequence
        } else if self.run is Some {
            SequenceState::Playing
        } else {
            SequenceState::Stopped
        }
    }

    /// The index of the step that is applied next; 0 when not playing.
    pub open spec fn current_step(self) -> usize {
        match self.run {
            Some(run) => run.current_step,
            None => 0,
        }
    }

    /// The player after a sequence was loaded.
    pub open spec fn loaded(self, frames: Seq<FrameView>) -> PlayerView {
        PlayerView { frames, run: None, ..self }
    }

    /// The player after `start` at the time `now`.
    pub open spec fn started(self, now: u128) -> PlayerView {
        if self.run is None && self.frames.len() > 0 {
            PlayerView {
                run: Some(Run { start_time: now, current_step: 0, next_step_time: 0 }),
                ..self
            }
        } else {
            self
        }
    }

    /// The player after `stop`.
    pub open spec fn stopped(self) -> PlayerView {
        PlayerView { run: None, ..self }
    }

    /// The time since the cycle started; nothing when the clock reads earlier
    /// than the start.
    pub open spec fn elapsed(self, now: u128) -> nat {
        match self.run {
            Some(run) => if now >= run.start_time {
                (now - run.start_time) as nat
            } else {
                0
            },
            None => 0,
        }
    }

    /// Whether a tick at `now` acts: playback is on and the next step's
    /// deadline has passed.
    pub open spec fn due(self, now: u128) -> bool {
        self.run matches Some(run) && self.elapsed(now) >= run.next_step_time
    }

    /// Whether a tick at `now` applies a step of the sequence.
    pub open spec fn applies_step(self, now: u128) -> bool {
        self.due(now) && self.current_step() < self.frames.len()
    }

    /// Whether a tick at `now` ends a cycle: all steps are applied and the
    /// last one has been held for its duration.
    pub open spec fn ends_cycle(self, now: u128) -> bool {
        self.due(now) && self.current_step() >= self.frames.len()
    }

    /// The player after a tick at `now`.
    pub open spec fn ticked(self, now: u128) -> PlayerView {
        if self.applies_step(now) {
            let run = self.run->0;
            PlayerView {
                run: Some(
                    Run {
                        start_time: run.start_time,
                        current_step: (run.current_step + 1) as usize,
                        next_step_time: deadline_ms(
                            self.frames,
                            run.current_step + 1,
                            self.fps,
                        ) as u128,
                    },
                ),
                ..self
            }
        } else if self.ends_cycle(now) {
            if self.loop_playback {
                PlayerView {
                    run: Some(Run { start_time: now, current_step: 0, next_step_time: 0 }),
                    ..self
                }
            } else {
                self.stopped()
            }
        } else {
            self
        }
    }

    /// The report that a tick at `now` has for a live device: the current
    /// step, mapped, when a step is applied; the neutral report when playback
    /// ends without looping; nothing otherwise.
    pub open spec fn tick_report(self, now: u128) -> Option<PhysicalReport> {
        if self.applies_step(now) {
            Some(
                report_of(
                    mapped_frame(self.frames[self.current_step() as int], self.button_mapping),
                    self.invert_horizontal,
                ),
            )
        } else if self.ends_cycle(now) && !self.loop_playback {
            Some(report_of(FrameView::neutral(), false))
        } else {
            None
        }
    }
}

/// The adapter after a tick that had `report` for it.
pub open spec fn controller_after(before: ControllerView, report: Option<PhysicalReport>) -> ControllerView {
    match report {
        Some(r) => if before.connected() {
            ControllerView { gamepad: r, ..before }
        } else {
            before
        },
        None => before,
    }
}

/// What a tick hands to the host when it had `report` for the device.
pub open spec fn tick_outcome(
    player: PlayerView,
    controller: ControllerView,
    now: u128,
) -> Tick {
    Tick {
        report: if controller.connected() {
            player.tick_report(now)
        } else {
            None
        },
        state_changed: player.ends_cycle(now),
    }
}

/// Whether a tick at `now` takes the player and the adapter from `player`
/// and `controller` to `player_after` and `controller_after` and hands out
/// `tick`.
pub open spec fn tick_at(
    player: PlayerView,
    controller: ControllerView,
    now: u128,
    player_after: PlayerView,
    controller_after: ControllerView,
    tick: Tick,
) -> bool {
    &&& player_after == player.ticked(now)
    &&& controller_after == self::controller_after(controller, player.tick_report(now))
    &&& tick == tick_outcome(player, controller, now)
}

/// The cumulative duration of `k` frames is at most `k` times the largest
/// duration.
pub proof fn lemma_cumulative_bound(frames: Seq<FrameView>, k: int)
    requires
        0 <= k <= frames.len(),
    ensures
        cumulative(frames, k) <= k * u32::MAX,
    decreases k,
{
    if k > 0 {
        lemma_cumulative_bound(frames, k - 1);
    }
}

/// Whether a sequence can be played: no frame has duration zero.
pub open spec fn playable(frames: Seq<FrameView>) -> bool {
    forall|i: int| 0 <= i < frames.len() ==> (#[trigger] frames[i]).duration >= 1
}

/// Whether no frame has duration zero.
pub fn all_durations_positive(frames: &Vec<InputFrame>) -> (r: bool)
    ensures
        r == playable(frame_views(frames@)),
{
    let n = frames.len();
    let mut i: usize = 0;
    while i < n
        invariant
            i <= n,
            n == frames@.len(),
            forall|j: int| 0 <= j < i ==> (#[trigger] frame_views(frames@)[j]).duration >= 1,
        decreases n - i,
    {
        if frames[i].duration == 0 {
            assert(frame_views(frames@)[i as int].duration == 0);
            return false;
        }
        i = i + 1;
    }
    true
}

/// The total duration of a sequence, in ticks.
pub fn total_duration(frames: &Vec<InputFrame>) -> (r: u128)
    ensures
        r == cumulative(frame_views(frames@), frames@.len() as int),
{
    let ghost views = frame_views(frames@);
    let n = frames.len();
    let mut total: u128 = 0;
    let mut i: usize = 0;
    while i < n
        invariant
            i <= n,
            n == frames@.len(),
            views == frame_views(frames@),
            total == cumulative(views, i as int),
            total <= i * u32::MAX,
        decreases n - i,
    {
        assert(i * u32::MAX + u32::MAX <= 0xffff_ffff_ffff_ffff * 0x1_0000_0000) by (nonlinear_arith)
            requires
                i < 0xffff_ffff_ffff_ffff,
        ;
        assert(views[i as int].duration == frames@[i as int].duration);
        total = total + frames[i].duration as u128;
        i = i + 1;
    }
    total
}

/// `std::time::Instant`, a reading of the monotonic clock. It is carried as
/// it is; nothing is known of what it holds.
#[verifier::external_type_specification]
#[verifier::external_body]
pub struct ExInstant(Instant);

/// `Instant::now` reads the monotonic clock. Nothing is claimed of the value.
pub assume_specification[ Instant::now ]() -> Instant;

/// `Instant::elapsed` measures the time since the instant. Nothing is claimed
/// of the value.
pub assume_specification[ Instant::elapsed ](instant: &Instant) -> core::time::Duration;

/// `Duration::as_millis` gives a duration in whole milliseconds. Nothing is
/// claimed of the value.
pub assume_specification[ core::time::Duration::as_millis ](
    duration: &core::time::Duration,
) -> u128;

/// Plays a sequence of frames by the clock.
pub struct Player {
    frames: Vec<InputFrame>,
    run: Option<Run>,
    invert_horizontal: bool,
    button_mapping: StrMap<String>,
    loop_playback: bool,
    current_path: Option<String>,
    fps: u32,
    /// The instant from which this player counts its milliseconds.
    clock: Instant,
}

impl View for Player {
    type V = PlayerView;

    closed spec fn view(&self) -> PlayerView {
        PlayerView {
            frames: frame_views(self.frames@),
            run: self.run,
            invert_horizontal: self.invert_horizontal,
            button_mapping: self.button_mapping.text(),
            loop_playback: self.loop_playback,
            current_path: match self.current_path {
                Some(path) => Some(path@),
                None => None,
            },
            fps: self.fps,
        }
    }
}

impl Player {
    #[verifier::type_invariant]
    spec fn is_valid(self) -> bool {
        self@.valid()
    }

    /// A player without a sequence: default rate, no mapping, no looping.
    pub fn new() -> (r: Player)
        ensures
            r@.valid(),
            r@ == (PlayerView {
                frames: Seq::empty(),
                run: None,
                invert_horizontal: false,
                button_mapping: Map::empty(),
                loop_playback: false,
                current_path: None,
                fps: DEFAULT_RATE,
            }),
    {
        let frames: Vec<InputFrame> = Vec::new();
        let button_mapping: StrMap<String> = StrMap::new();
        assert(frame_views(frames@) =~= Seq::<FrameView>::empty());
        assert(button_mapping.text() =~= Map::<Seq<char>, Seq<char>>::empty());
        Player {
            frames,
            run: None,
            invert_horizontal: false,
            button_mapping,
            loop_playback: false,
            current_path: None,
            fps: DEFAULT_RATE,
            clock: Instant::now(),
        }
    }

    /// The milliseconds that the player's clock reads now.
    pub(crate) fn now(&self) -> u128 {
        self.clock.elapsed().as_millis()
    }

    /// Loads a sequence and puts playback at rest at its start. A sequence
    /// with a frame of duration zero is rejected, and the player is left as it
    /// was.
    pub fn load_frames(&mut self, frames: Vec<InputFrame>) -> (r: Result<(), LoadError>)
        ensures
            final(self)@.valid(),
            match r {
                Ok(_) => {
                    &&& playable(frame_views(frames@))
                    &&& final(self)@ == old(self)@.loaded(frame_views(frames@))
                },
                Err(e) => {
                    &&& e == LoadError::ZeroDuration
                    &&& !playable(frame_views(frames@))
                    &&& final(self)@ == old(self)@
                },
            },
    {
        proof {
            use_type_invariant(&*self);
        }
        if !all_durations_positive(&frames) {
            return Err(LoadError::ZeroDuration);
        }
        let total = frames.len();
        assert(frame_views(frames@).len() == total);
        self.run = None;
        self.frames = frames;
        Ok(())
    }

    /// Starts playback at the time `now`: from rest, with a sequence loaded,
    /// the first step becomes due at once. Otherwise nothing changes.
    pub fn start_at(&mut self, now: u128)
        ensures
            final(self)@.valid(),
            final(self)@ == old(self)@.started(now),
    {
        proof {
            use_type_invariant(&*self);
        }
        if self.run.is_none() && self.frames.len() > 0 {
            self.run = Some(Run { start_time: now, current_step: 0, next_step_time: 0 });
        }
    }

    /// Starts playback at the time that the player's clock reads.
    pub fn start(&mut self)
        ensures
            final(self)@.valid(),
            exists|now: u128| final(self)@ == #[trigger] old(self)@.started(now),
    {
        let now = self.now();
        self.start_at(now);
    }

    /// Stops playback and puts it at rest at the start of the sequence. When
    /// playback is at rest already, nothing changes.
    pub fn stop(&mut self)
        ensures
            final(self)@.valid(),
            final(self)@ == old(self)@.stopped(),
            old(self)@.run is None ==> final(self)@ == old(self)@,
    {
        proof {
            use_type_invariant(&*self);
        }
        self.run = None;
    }

    /// The same as `stop`: the position is not kept.
    pub fn pause(&mut self)
        ensures
            final(self)@.valid(),
            final(self)@ == old(self)@.stopped(),
    {
        self.stop();
    }

    /// The same as `start`: playback begins at the first step.
    pub fn resume(&mut self)
        ensures
            final(self)@.valid(),
            exists|now: u128| final(self)@ == #[trigger] old(self)@.started(now),
    {
        self.start();
    }

    pub fn set_invert_horizontal(&mut self, invert: bool)
        ensures
            final(self)@.valid(),
            final(self)@ == (PlayerView { invert_horizontal: invert, ..old(self)@ }),
    {
        proof {
            use_type_invariant(&*self);
        }
        self.invert_horizontal = invert;
    }

    /// Replaces the table from logical to physical button names.
    pub fn set_button_mapping(&mut self, mapping: StrMap<String>)
        ensures
            final(self)@.valid(),
            final(self)@ == (PlayerView { button_mapping: mapping.text(), ..old(self)@ }),
    {
        proof {
            use_type_invariant(&*self);
        }
        self.button_mapping = mapping;
    }

    pub fn set_loop_playback(&mut self, loop_enabled: bool)
        ensures
            final(self)@.valid(),
            final(self)@ == (PlayerView { loop_playback: loop_enabled, ..old(self)@ }),
    {
        proof {
            use_type_invariant(&*self);
        }
        self.loop_playback = loop_enabled;
    }

    /// Sets the tick rate. A rate outside `MIN_RATE` to `MAX_RATE` is
    /// rejected and the rate is left as it was. Playback in progress keeps
    /// its position and its pending deadline; deadlines computed from now on
    /// use the new rate.
    pub fn set_fps(&mut self, fps: u32) -> (r: Result<(), ConfigError>)
        ensures
            final(self)@.valid(),
            valid_rate(fps) ==> r is Ok && final(self)@ == (PlayerView { fps, ..old(self)@ }),
            !valid_rate(fps) ==> r == Err::<(), ConfigError>(ConfigError::InvalidRate)
                && final(self)@ == old(self)@,
    {
        proof {
            use_type_invariant(&*self);
        }
        if fps < MIN_RATE || fps > MAX_RATE {
            return Err(ConfigError::InvalidRate);
        }
        self.fps = fps;
        Ok(())
    }

    pub fn is_playing(&self) -> (r: bool)
        ensures
            self@.valid(),
            r == (self@.state() == SequenceState::Playing),
    {
        proof {
            use_type_invariant(self);
        }
        self.run.is_some()
    }

    pub fn get_state(&self) -> (r: SequenceState)
        ensures
            self@.valid(),
            r == self@.state(),
    {
        proof {
            use_type_invariant(self);
        }
        if self.frames.len() == 0 {
            SequenceState::NoSequence
        } else if self.run.is_some() {
            SequenceState::Playing
        } else {
            SequenceState::Stopped
        }
    }

    /// A snapshot of the state and the progress.
    pub fn get_event(&self) -> (r: SequenceEvent)
        ensures
            self@.valid(),
            r == (SequenceEvent {
                state: self@.state(),
                current_step: self@.current_step(),
                total_steps: self@.frames.len() as usize,
            }),
    {
        SequenceEvent {
            state: self.get_state(),
            current_step: self.get_current_step(),
            total_steps: self.frames.len(),
        }
    }

    /// The index of the next step and the number of steps.
    pub fn get_progress(&self) -> (r: (usize, usize))
        ensures
            self@.valid(),
            r == (self@.current_step(), self@.frames.len() as usize),
    {
        (self.get_current_step(), self.frames.len())
    }

    /// The index of the step that is applied next; 0 when not playing.
    pub fn get_current_step(&self) -> (r: usize)
        ensures
            self@.valid(),
            r == self@.current_step(),
    {
        proof {
            use_type_invariant(self);
        }
        match self.run {
            Some(run) => run.current_step,
            None => 0,
        }
    }

    pub fn set_current_path(&mut self, path: String)
        ensures
            final(self)@.valid(),
            final(self)@ == (PlayerView { current_path: Some(path@), ..old(self)@ }),
    {
        proof {
            use_type_invariant(&*self);
        }
        self.current_path = Some(path);
    }

    pub fn get_current_path(&self) -> (r: Option<String>)
        ensures
            match r {
                Some(path) => self@.current_path == Some(path@),
                None => self@.current_path is None,
            },
    {
        match &self.current_path {
            Some(path) => Some(path.clone()),
            None => None,
        }
    }

    /// How long after the start of a cycle the step with index `steps` is
    /// due, at the current rate.
    fn deadline(&self, steps: usize) -> (r: u128)
        requires
            steps <= self@.frames.len(),
        ensures
            r == deadline_ms(self@.frames, steps as int, self@.fps),
    {
        proof {
            use_type_invariant(self);
        }
        let ghost views = frame_views(self.frames@);
        let mut total: u128 = 0;
        let mut i: usize = 0;
        while i < steps
            invariant
                i <= steps <= self.frames@.len(),
                views == frame_views(self.frames@),
                total == cumulative(views, i as int),
                total <= i * u32::MAX,
            decreases steps - i,
        {
            assert(i * u32::MAX + u32::MAX <= 0xffff_ffff_ffff_ffff * 0x1_0000_0000) by (nonlinear_arith)
                requires
                    i < 0xffff_ffff_ffff_ffff,
            ;
            assert(views[i as int].duration == self.frames@[i as int].duration);
            total = total + self.frames[i].duration as u128;
            i = i + 1;
        }
        assert(total * 1000 <= 0xffff_ffff_ffff_ffff * 0x1_0000_0000 * 1000) by (nonlinear_arith)
            requires
                total <= i * u32::MAX,
                i <= 0xffff_ffff_ffff_ffff,
        ;
        total * 1000 / (self.fps as u128)
    }

    /// One tick at the time `now`.
    ///
    /// Nothing happens unless playback is on and the next step is due. A step
    /// that is due is applied: with a live device its mapped report is handed
    /// out, the deadline of the step after it is computed from the cumulative
    /// duration at the current rate, and the position moves on. A device that
    /// is not live gets no report, and playback moves on all the same. When
    /// all steps are applied and the last one has been held, playback starts
    /// over at `now` if looping is on; otherwise it stops and the neutral
    /// report is handed out.
    pub fn update_at(&mut self, now: u128, controller: &mut Controller) -> (tick: Tick)
        ensures
            final(self)@.valid(),
            final(self)@ == old(self)@.ticked(now),
            tick == tick_outcome(old(self)@, old(controller)@, now),
            final(controller)@ == controller_after(old(controller)@, old(self)@.tick_report(now)),
    {
        proof {
            use_type_invariant(&*self);
        }
        let run = match self.run {
            Some(run) => run,
            None => {
                return Tick { report: None, state_changed: false };
            },
        };
        let elapsed: u128 = if now >= run.start_time {
            now - run.start_time
        } else {
            0
        };
        if elapsed < run.next_step_time {
            return Tick { report: None, state_changed: false };
        }
        if run.current_step < self.frames.len() {
            let frame = &self.frames[run.current_step];
            let mapped = InputFrame {
                duration: frame.duration,
                direction: frame.direction,
                buttons: resolve_buttons(&frame.buttons, &self.button_mapping),
                thumb_lx: frame.thumb_lx,
                thumb_ly: frame.thumb_ly,
                thumb_rx: frame.thumb_rx,
                thumb_ry: frame.thumb_ry,
                left_trigger: frame.left_trigger,
                right_trigger: frame.right_trigger,
            };
            assert(mapped@ == mapped_frame(
                self@.frames[run.current_step as int],
                self@.button_mapping,
            ));
            let report = match controller.update_input(&mapped, self.invert_horizontal) {
                Ok(report) => Some(report),
                Err(_) => None,
            };
            let next_step_time = self.deadline(run.current_step + 1);
            self.run = Some(
                Run {
                    start_time: run.start_time,
                    current_step: run.current_step + 1,
                    next_step_time,
                },
            );
            Tick { report, state_changed: false }
        } else if self.loop_playback {
            self.run = Some(Run { start_time: now, current_step: 0, next_step_time: 0 });
            Tick { report: None, state_changed: true }
        } else {
            let neutral = InputFrame::neutral();
            let report = match controller.update_input(&neutral, false) {
                Ok(report) => Some(report),
                Err(_) => None,
            };
            self.run = None;
            Tick { report, state_changed: true }
        }
    }

    /// One tick at the time that the player's clock reads.
    pub fn update(&mut self, controller: &mut Controller) -> (tick: Tick)
        ensures
            final(self)@.valid(),
            exists|now: u128| #[trigger]
                tick_at(
                    old(self)@,
                    old(controller)@,
                    now,
                    final(self)@,
                    final(controller)@,
                    tick,
                ),
    {
        let now = self.now();
        let tick = self.update_at(now, controller);
        assert(tick_at(old(self)@, old(controller)@, now, self@, controller@, tick));
        tick
    }

    /// The tick rate.
    pub fn get_fps(&self) -> (r: u32)
        ensures
            self@.valid(),
            r == self@.fps,
    {
        proof {
            use_type_invariant(self);
        }
        self.fps
    }

    /// The loaded sequence.
    pub fn frames(&self) -> (r: &Vec<InputFrame>)
        ensures
            self@.valid(),
            frame_views(r@) == self@.frames,
    {
        proof {
            use_type_invariant(self);
        }
        &self.frames
    }
}

} // verus!
