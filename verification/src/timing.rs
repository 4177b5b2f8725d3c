//! Laws of playback timing: what holds of a player over a run of ticks.

use crate::player::{
    cumulative, deadline_ms, lemma_cumulative_bound, PlayerView, Run, MAX_RATE, MIN_RATE,
};
use crate::types::FrameView;
use vstd::prelude::*;

verus! {

/// The time between two ticks of the scheduler at `fps` ticks per second, in
/// whole milliseconds.
pub open spec fn tick_interval_ms(fps: u32) -> nat {
    1000nat / (fps as nat)
}

/// The player after a tick at each of `ticks`, in order.
pub open spec fn run_ticks(player: PlayerView, ticks: Seq<u128>) -> PlayerView
    decreases ticks.len(),
{
    if ticks.len() == 0 {
        player
    } else {
        run_ticks(player, ticks.drop_last()).ticked(ticks.last())
    }
}

/// The time of the tick before the `j`-th, or `from` for the first.
pub open spec fn previous_tick(from: u128, ticks: Seq<u128>, j: int) -> u128 {
    if j == 0 {
        from
    } else {
        ticks[j - 1]
    }
}

/// Whether `ticks` never go back in time and never come later than
/// `interval` after the tick before, the first of them counted from `from`.
/// How the ticks fall within that is free.
pub open spec fn steady(from: u128, ticks: Seq<u128>, interval: nat) -> bool {
    forall|j: int|
        0 <= j < ticks.len() ==> previous_tick(from, ticks, j) <= #[trigger] ticks[j]
            <= previous_tick(from, ticks, j) + interval
}

/// Whether playback is on schedule at the time `last` of the latest tick: the
/// pending deadline is the one that the cumulative duration gives at the
/// player's rate, and the clock has not passed it.
pub open spec fn on_schedule(player: PlayerView, last: u128) -> bool {
    player.run matches Some(run) ==> {
        &&& run.next_step_time == deadline_ms(player.frames, run.current_step as int, player.fps)
        &&& run.start_time <= last
        &&& last - run.start_time <= run.next_step_time
    }
}

/// Every deadline of a sequence that a player can hold fits the clock's type.
pub proof fn lemma_deadline_fits(player: PlayerView, steps: int)
    requires
        player.valid(),
        0 <= steps <= player.frames.len(),
    ensures
        deadline_ms(player.frames, steps, player.fps) <= u128::MAX,
        deadline_ms(player.frames, steps, player.fps) <= cumulative(player.frames, steps) * 1000,
{
    lemma_cumulative_bound(player.frames, steps);
    let c = cumulative(player.frames, steps);
    let f = player.fps as nat;
    assert(c * 1000 <= 0xffff_ffff_ffff_ffff * 0x1_0000_0000 * 1000) by (nonlinear_arith)
        requires
            c <= steps * u32::MAX,
            0 <= steps <= 0xffff_ffff_ffff_ffff,
    ;
    assert((c * 1000) / f <= c * 1000) by (nonlinear_arith)
        requires
            f >= 1,
    ;
}

/// From one step to the next the deadline grows by at least one tick
/// interval, because a step lasts at least one tick.
pub proof fn lemma_deadline_spacing(player: PlayerView, step: int)
    requires
        player.valid(),
        0 <= step < player.frames.len(),
    ensures
        deadline_ms(player.frames, step + 1, player.fps) >= deadline_ms(
            player.frames,
            step,
            player.fps,
        ) + tick_interval_ms(player.fps),
{
    let c = cumulative(player.frames, step);
    let d = player.frames[step].duration as nat;
    let f = player.fps as nat;
    assert(cumulative(player.frames, step + 1) == c + d);
    assert(d >= 1);
    assert(((c + d) * 1000) / f >= (c * 1000) / f + 1000nat / f) by (nonlinear_arith)
        requires
            d >= 1,
            f >= 1,
    ;
}

/// The cumulative duration of `k` frames that all last `d` ticks is `k * d`.
pub proof fn lemma_uniform_cumulative(frames: Seq<FrameView>, d: u32, k: int)
    requires
        0 <= k <= frames.len(),
        forall|i: int| 0 <= i < frames.len() ==> (#[trigger] frames[i]).duration == d,
    ensures
        cumulative(frames, k) == k * d,
    decreases k,
{
    if k > 0 {
        lemma_uniform_cumulative(frames, d, k - 1);
        assert(frames[k - 1].duration == d);
        assert((k - 1) * d + d == k * d) by (nonlinear_arith);
    } else {
        assert(k * d == 0) by (nonlinear_arith)
            requires
                k == 0,
        ;
    }
}

/// One tick keeps a player valid and on schedule when it comes no later than
/// one tick interval after the latest, and a step that it applies is applied
/// no earlier than its deadline and no later than one tick interval after it.
pub proof fn lemma_tick_on_schedule(player: PlayerView, last: u128, now: u128)
    requires
        player.valid(),
        on_schedule(player, last),
        last <= now <= last + tick_interval_ms(player.fps),
    ensures
        player.ticked(now).valid(),
        on_schedule(player.ticked(now), now),
        player.applies_step(now) ==> {
            let due_at = deadline_ms(player.frames, player.current_step() as int, player.fps);
            due_at <= now - player.run->0.start_time <= due_at + tick_interval_ms(player.fps)
        },
{
    if player.applies_step(now) {
        let run = player.run->0;
        let step = run.current_step as int;
        lemma_deadline_fits(player, step + 1);
        lemma_deadline_spacing(player, step);
    }
}

/// A run of steady ticks keeps a player valid and on schedule.
pub proof fn lemma_run_on_schedule(player: PlayerView, from: u128, ticks: Seq<u128>)
    requires
        player.valid(),
        on_schedule(player, from),
        steady(from, ticks, tick_interval_ms(player.fps)),
    ensures
        run_ticks(player, ticks).valid(),
        run_ticks(player, ticks).fps == player.fps,
        run_ticks(player, ticks).frames == player.frames,
        on_schedule(run_ticks(player, ticks), previous_tick(from, ticks, ticks.len() as int)),
    decreases ticks.len(),
{
    if ticks.len() > 0 {
        let head = ticks.drop_last();
        let n = ticks.len() as int;
        assert forall|j: int| 0 <= j < head.len() implies previous_tick(from, head, j)
            <= #[trigger] head[j] <= previous_tick(from, head, j) + tick_interval_ms(
            player.fps,
        ) by {
            assert(head[j] == ticks[j]);
            assert(previous_tick(from, head, j) == previous_tick(from, ticks, j));
        }
        lemma_run_on_schedule(player, from, head);
        let before = run_ticks(player, head);
        let last = previous_tick(from, head, head.len() as int);
        assert(last == previous_tick(from, ticks, n - 1));
        assert(last <= ticks[n - 1] <= last + tick_interval_ms(player.fps));
        lemma_tick_on_schedule(before, last, ticks.last());
    }
}

/// Drift bound. Playback is started at `start` and ticked at `ticks`, which
/// are steady but otherwise jittered at will. Whenever one of those ticks
/// applies a step, it does so no earlier than the step's deadline, counted
/// from the start of the cycle, and no later than one tick interval after it.
/// The deadline is the cumulative duration of the steps before, converted at
/// the player's rate: lateness of earlier ticks does not add up.
pub proof fn lemma_drift_bound(player: PlayerView, start: u128, ticks: Seq<u128>, i: int)
    requires
        player.valid(),
        player.run is None,
        steady(start, ticks, tick_interval_ms(player.fps)),
        0 <= i < ticks.len(),
        run_ticks(player.started(start), ticks.subrange(0, i)).applies_step(ticks[i]),
    ensures
        ({
            let before = run_ticks(player.started(start), ticks.subrange(0, i));
            let due_at = deadline_ms(player.frames, before.current_step() as int, player.fps);
            due_at <= ticks[i] - before.run->0.start_time <= due_at + tick_interval_ms(player.fps)
        }),
{
    let head = ticks.subrange(0, i);
    let playing = player.started(start);
    assert forall|j: int| 0 <= j < head.len() implies previous_tick(start, head, j)
        <= #[trigger] head[j] <= previous_tick(start, head, j) + tick_interval_ms(player.fps) by {
        assert(head[j] == ticks[j]);
        assert(previous_tick(start, head, j) == previous_tick(start, ticks, j));
    }
    lemma_run_on_schedule(playing, start, head);
    let before = run_ticks(playing, head);
    let last = previous_tick(start, head, i);
    assert(last == previous_tick(start, ticks, i));
    lemma_tick_on_schedule(before, last, ticks[i]);
}

/// Drift bound for steps of one length. With every frame lasting `d` ticks,
/// step `k` of the first cycle is applied at `k * d * 1000 / fps` milliseconds
/// after the start, within one tick interval, however the ticks before it were
/// jittered.
pub proof fn lemma_uniform_drift_bound(
    player: PlayerView,
    d: u32,
    start: u128,
    ticks: Seq<u128>,
    i: int,
)
    requires
        player.valid(),
        player.run is None,
        !player.loop_playback,
        forall|j: int| 0 <= j < player.frames.len() ==> (#[trigger] player.frames[j]).duration == d,
        steady(start, ticks, tick_interval_ms(player.fps)),
        0 <= i < ticks.len(),
        run_ticks(player.started(start), ticks.subrange(0, i)).applies_step(ticks[i]),
    ensures
        ({
            let k = run_ticks(player.started(start), ticks.subrange(0, i)).current_step() as int;
            let due_at = (k * d * 1000) / (player.fps as int);
            due_at <= ticks[i] - start <= due_at + tick_interval_ms(player.fps)
        }),
{
    let head = ticks.subrange(0, i);
    let before = run_ticks(player.started(start), head);
    lemma_drift_bound(player, start, ticks, i);
    lemma_first_cycle(player, start, head);
    lemma_uniform_cumulative(player.frames, d, before.current_step() as int);
}

/// Without looping, playback that was started at `start` is, while it lasts,
/// in the cycle that began at `start`.
pub proof fn lemma_first_cycle(player: PlayerView, start: u128, ticks: Seq<u128>)
    requires
        player.valid(),
        player.run is None,
        !player.loop_playback,
    ensures
        run_ticks(player.started(start), ticks).frames == player.frames,
        run_ticks(player.started(start), ticks).fps == player.fps,
        !run_ticks(player.started(start), ticks).loop_playback,
        run_ticks(player.started(start), ticks).run matches Some(run) ==> run.start_time == start
            && run.current_step <= player.frames.len(),
    decreases ticks.len(),
{
    if ticks.len() > 0 {
        lemma_first_cycle(player, start, ticks.drop_last());
    }
}

/// Stopping playback that is at rest changes nothing, so stopping twice in a
/// row is the same as stopping once.
pub proof fn lemma_stop_idempotent(player: PlayerView)
    ensures
        player.stopped().stopped() == player.stopped(),
        player.run is None ==> player.stopped() == player,
{
}

/// Loop correctness. With looping on, the tick that finds all steps applied
/// and the last one held starts a new cycle at its own time: the position is
/// 0 and the first step is due at once. The new cycle holds nothing of the
/// old one, neither its start nor the time that it took.
pub proof fn lemma_loop_restart(player: PlayerView, now: u128)
    requires
        player.valid(),
        player.loop_playback,
        player.ends_cycle(now),
    ensures
        player.ticked(now).valid(),
        player.ticked(now).run == Some(Run { start_time: now, current_step: 0, next_step_time: 0 }),
        player.ticked(now) == player.stopped().started(now),
        on_schedule(player.ticked(now), now),
        forall|later: u128| later >= now ==> #[trigger] player.ticked(now).applies_step(later),
{
    assert forall|later: u128| later >= now implies #[trigger] player.ticked(now).applies_step(
        later,
    ) by {
        assert(player.ticked(now).elapsed(later) >= 0);
    }
}

/// A change of rate in the middle of playback leaves the position and the
/// pending deadline as they are; the step that is applied next gets its
/// deadline from the cumulative duration at the new rate.
pub proof fn lemma_rate_change(player: PlayerView, fps: u32, now: u128)
    requires
        player.valid(),
        MIN_RATE <= fps <= MAX_RATE,
        (PlayerView { fps, ..player }).applies_step(now),
    ensures
        ({
            let changed = PlayerView { fps, ..player };
            &&& changed.run == player.run
            &&& changed.ticked(now).run->0.next_step_time == deadline_ms(
                player.frames,
                player.current_step() + 1,
                fps,
            )
        }),
{
    let changed = PlayerView { fps, ..player };
    lemma_deadline_fits(changed, player.current_step() + 1);
}

} // verus!
