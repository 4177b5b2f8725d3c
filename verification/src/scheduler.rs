//! The decisions of the scheduler and of the commands around playback.
//!
//! The host runs the timer, holds the locks and talks to the device. At each
//! tick, and at each command, it asks here what to do.

use crate::controller::{Controller, ControllerError, ControllerView, PhysicalReport};
use crate::player::{
    controller_after, tick_outcome, valid_rate, ConfigError, Player, PlayerView, Tick, MAX_RATE,
    MIN_RATE,
};
use crate::timing::tick_interval_ms;
use crate::types::{ButtonMap, FrameView, InputFrame, SequenceState};
use vstd::prelude::*;

verus! {

/// What the host has to do after a tick of its timer.
#[derive(Debug, Clone, Copy, PartialEq, Eq, Structural)]
pub enum SchedulerStep {
    /// The configured rate has changed: rebuild the timer with this interval,
    /// in milliseconds. Nothing else was done at this tick.
    Retime { interval_ms: u64 },
    /// Nothing to do: no live device, or playback is not on.
    Idle,
    /// The player was ticked. Write the report, if there is one, and publish
    /// the state, if there is one.
    Ran { tick: Tick, notify: Option<SequenceState> },
}

/// The time between two ticks at `fps` ticks per second, in whole
/// milliseconds, or `InvalidRate` for a rate that cannot be configured.
pub fn interval_for(fps: u32) -> (r: Result<u64, ConfigError>)
    ensures
        r == if valid_rate(fps) {
            Ok::<u64, ConfigError>(tick_interval_ms(fps) as u64)
        } else {
            Err::<u64, ConfigError>(ConfigError::InvalidRate)
        },
{
    if fps < MIN_RATE || fps > MAX_RATE {
        return Err(ConfigError::InvalidRate);
    }
    Ok(1000 / (fps as u64))
}

/// The scheduler's memory: the rate that its timer was built for.
#[derive(Debug)]
pub struct Scheduler {
    rate: u32,
}

impl Scheduler {
    #[verifier::type_invariant]
    spec fn rate_is_valid(self) -> bool {
        valid_rate(self.rate)
    }

    /// The rate that the timer was built for.
    pub closed spec fn rate(&self) -> u32 {
        self.rate
    }

    /// Whether a tick finds the configured rate changed. A configured rate
    /// that is out of range is not taken: the rate stays as it was.
    pub open spec fn retimes(&self, configured_rate: u32) -> bool {
        valid_rate(configured_rate) && configured_rate != self.rate()
    }

    /// A scheduler for a timer built for `rate`.
    pub fn new(rate: u32) -> (r: Result<Scheduler, ConfigError>)
        ensures
            match r {
                Ok(scheduler) => valid_rate(rate) && scheduler.rate() == rate,
                Err(e) => !valid_rate(rate) && e == ConfigError::InvalidRate,
            },
    {
        if rate < MIN_RATE || rate > MAX_RATE {
            return Err(ConfigError::InvalidRate);
        }
        Ok(Scheduler { rate })
    }

    /// The interval of the timer, in milliseconds.
    pub fn interval_ms(&self) -> (r: u64)
        ensures
            valid_rate(self.rate()),
            r == tick_interval_ms(self.rate()),
    {
        proof {
            use_type_invariant(self);
        }
        1000 / (self.rate as u64)
    }

    /// One tick of the timer at the time `now`.
    ///
    /// If the configured rate has changed, the new rate is taken and the host
    /// is told to rebuild its timer; nothing else happens at this tick.
    /// Otherwise, with a live device and playback on, the player is ticked;
    /// the state is to be published when the tick ended a cycle. Without a
    /// live device, or with playback at rest, nothing happens.
    pub fn on_tick_at(
        &mut self,
        configured_rate: u32,
        player: &mut Player,
        controller: &mut Controller,
        now: u128,
    ) -> (step: SchedulerStep)
        ensures
            valid_rate(final(self).rate()),
            final(self).rate() == if old(self).retimes(configured_rate) {
                configured_rate
            } else {
                old(self).rate()
            },
            scheduled(
                old(self).retimes(configured_rate),
                configured_rate,
                old(player)@,
                old(controller)@,
                now,
                final(player)@,
                final(controller)@,
                step,
            ),
    {
        proof {
            use_type_invariant(&*self);
        }
        if configured_rate != self.rate {
            match interval_for(configured_rate) {
                Ok(interval_ms) => {
                    self.rate = configured_rate;
                    return SchedulerStep::Retime { interval_ms };
                },
                Err(_) => {},
            }
        }
        if !controller.is_connected() {
            return SchedulerStep::Idle;
        }
        if player.get_state() != SequenceState::Playing {
            return SchedulerStep::Idle;
        }
        let tick = player.update_at(now, controller);
        let notify = if tick.state_changed {
            Some(player.get_state())
        } else {
            None
        };
        SchedulerStep::Ran { tick, notify }
    }
}

impl Scheduler {
    /// One tick of the timer at the time that the player's clock reads.
    pub fn on_tick(
        &mut self,
        configured_rate: u32,
        player: &mut Player,
        controller: &mut Controller,
    ) -> (step: SchedulerStep)
        ensures
            valid_rate(final(self).rate()),
            final(self).rate() == if old(self).retimes(configured_rate) {
                configured_rate
            } else {
                old(self).rate()
            },
            exists|now: u128| #[trigger]
                scheduled(
                    old(self).retimes(configured_rate),
                    configured_rate,
                    old(player)@,
                    old(controller)@,
                    now,
                    final(player)@,
                    final(controller)@,
                    step,
                ),
    {
        let now = player.now();
        let step = self.on_tick_at(configured_rate, player, controller, now);
        assert(scheduled(
            old(self).retimes(configured_rate),
            configured_rate,
            old(player)@,
            old(controller)@,
            now,
            player@,
            controller@,
            step,
        ));
        step
    }
}

/// The command that stops playback: the player is put at rest, and the
/// neutral report is handed out for a live device so that no input stays
/// latched.
pub fn stop_playback(player: &mut Player, controller: &mut Controller) -> (report: Option<
    PhysicalReport,
>)
    ensures
        final(player)@ == old(player)@.stopped(),
        report == old(controller)@.write(FrameView::neutral(), false),
        final(controller)@ == old(controller)@.written(FrameView::neutral(), false),
{
    player.stop();
    let neutral = InputFrame::neutral();
    match controller.update_input(&neutral, false) {
        Ok(report) => Some(report),
        Err(_) => None,
    }
}

/// The frame of manual input after an event: the direction and the buttons of
/// the event, everything else as it was.
pub open spec fn manual_frame(manual: FrameView, direction: u8, buttons: Map<Seq<char>, u8>) -> FrameView {
    FrameView { direction, buttons, ..manual }
}

/// A manual input event. While playback is on, the event is dropped: the
/// sequence has the device to itself. Without a live device the event is
/// refused with `NotConnected`. Otherwise the manual frame takes the event's
/// direction and buttons and its report is handed out at once; the buttons
/// are physical names and are not mapped.
pub fn update_manual_input(
    player: &Player,
    controller: &mut Controller,
    manual: &mut InputFrame,
    direction: u8,
    buttons: ButtonMap,
) -> (r: Result<Option<PhysicalReport>, ControllerError>)
    ensures
        player@.state() == SequenceState::Playing ==> {
            &&& r == Ok::<Option<PhysicalReport>, ControllerError>(None)
            &&& final(controller)@ == old(controller)@
            &&& final(manual)@ == old(manual)@
        },
        player@.state() != SequenceState::Playing && !old(controller)@.connected() ==> {
            &&& r == Err::<Option<PhysicalReport>, ControllerError>(ControllerError::NotConnected)
            &&& final(controller)@ == old(controller)@
            &&& final(manual)@ == old(manual)@
        },
        player@.state() != SequenceState::Playing && old(controller)@.connected() ==> {
            let frame = manual_frame(old(manual)@, direction, buttons@);
            &&& final(manual)@ == frame
            &&& final(controller)@ == old(controller)@.written(frame, false)
            &&& r == Ok::<Option<PhysicalReport>, ControllerError>(
                old(controller)@.write(frame, false),
            )
        },
{
    if player.get_state() == SequenceState::Playing {
        return Ok(None);
    }
    if !controller.is_connected() {
        return Err(ControllerError::NotConnected);
    }
    manual.direction = direction;
    manual.buttons = buttons;
    match controller.update_input(manual, false) {
        Ok(report) => Ok(Some(report)),
        Err(e) => Err(e),
    }
}

/// What a tick of the timer at `now` does: `retime` says whether it found the
/// configured rate changed.
pub open spec fn scheduled(
    retime: bool,
    configured_rate: u32,
    player: PlayerView,
    controller: ControllerView,
    now: u128,
    player_after: PlayerView,
    controller_after: ControllerView,
    step: SchedulerStep,
) -> bool {
    if retime {
        &&& step == (SchedulerStep::Retime { interval_ms: tick_interval_ms(configured_rate) as u64 })
        &&& player_after == player
        &&& controller_after == controller
    } else if !controller.connected() || player.state() != SequenceState::Playing {
        &&& step == SchedulerStep::Idle
        &&& player_after == player
        &&& controller_after == controller
    } else {
        &&& player_after == player.ticked(now)
        &&& controller_after == self::controller_after(controller, player.tick_report(now))
        &&& step == (SchedulerStep::Ran {
            tick: tick_outcome(player, controller, now),
            notify: if player.ends_cycle(now) {
                Some(player.ticked(now).state())
            } else {
                None
            },
        })
    }
}

} // verus!
