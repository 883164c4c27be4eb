//! The render loop of the countdown: a three-state machine (running,
//! cancelled early, completed) driven once per pass by the poll of the
//! cancellation mailbox, the clock and the terminal width. Redraws are
//! rate-limited: a pass earlier than the minimum redraw interval only asks
//! to sleep for the deficit to the next tick, so the redraw rate is bounded
//! and does not drift.

use vstd::prelude::*;

use vstd::arithmetic::div_mod::{
    lemma_div_is_ordered,
    lemma_div_multiples_vanish,
    lemma_div_pos_is_pos,
    lemma_fundamental_div_mod_converse,
    lemma_hoist_over_denominator,
    lemma_mod_division_less_than_divisor,
};
use vstd::arithmetic::mul::{
    lemma_mul_inequality,
    lemma_mul_is_associative,
    lemma_mul_is_commutative,
    lemma_mul_is_distributive_add_other_way,
    lemma_mul_nonnegative,
    lemma_mul_upper_bound,
};

verus! {

/// Milliseconds that must pass between two redraws (about 62.5 per second).
pub const MIN_REDRAW_INTERVAL_MS: u64 = 16;

/// The widest the progress bar gets, in cells.
pub const MAX_BAR_WIDTH: u16 = 30;

/// The columns a redraw reserves beside the bar for the percentage readout.
pub const BAR_MARGIN_COLS: u16 = 15;

/// The states of the render loop. `CancelledEarly` and `Completed` are
/// terminal.
#[derive(Clone, Copy, Debug, PartialEq, Eq, Structural)]
pub enum LoopState {
    Running,
    CancelledEarly,
    Completed,
}

/// The loop-local timer state: the instant the countdown started, its total
/// length, and the instant of the last redraw, all in milliseconds of a
/// monotonic clock.
#[derive(Clone, Copy, Debug, PartialEq, Eq, Structural)]
pub struct Countdown {
    pub state: LoopState,
    pub start_ms: u64,
    pub total_ms: u64,
    pub last_update_ms: u64,
}

impl Countdown {
    /// The deadline: start plus total length.
    pub open spec fn end_ms(self) -> int {
        self.start_ms + self.total_ms
    }

    /// Well-formed: the deadline fits the clock's range, and the last redraw
    /// lies between start and deadline.
    pub open spec fn wf(self) -> bool {
        &&& self.start_ms + self.total_ms <= u64::MAX
        &&& self.start_ms <= self.last_update_ms
        &&& self.last_update_ms <= self.end_ms()
    }

    /// Enter the loop at instant `now_ms` for a countdown of `total_ms`
    /// milliseconds: the deadline is `now_ms + total_ms`, and the redraw
    /// rate limiter starts from `now_ms`.
    pub fn new(now_ms: u64, total_ms: u64) -> (c: Countdown)
        requires
            now_ms + total_ms <= u64::MAX,
        ensures
            c.state is Running,
            c.start_ms == now_ms,
            c.total_ms == total_ms,
            c.last_update_ms == now_ms,
            c.wf(),
    {
        Countdown { state: LoopState::Running, start_ms: now_ms, total_ms, last_update_ms: now_ms }
    }

    /// Enter the loop for a countdown of `total_secs` whole seconds, or
    /// report that such a deadline does not fit the clock's range.
    pub fn from_seconds(now_ms: u64, total_secs: u64) -> (c: Option<Countdown>)
        ensures
            c matches Some(c) ==> {
                &&& now_ms + total_secs * 1000 <= u64::MAX
                &&& c.state is Running
                &&& c.start_ms == now_ms
                &&& c.total_ms == total_secs * 1000
                &&& c.last_update_ms == now_ms
                &&& c.wf()
            },
            c is None ==> now_ms + total_secs * 1000 > u64::MAX,
    {
        match total_secs.checked_mul(1000) {
            None => None,
            Some(total_ms) => {
                if now_ms <= u64::MAX - total_ms {
                    Some(Countdown::new(now_ms, total_ms))
                } else {
                    None
                }
            },
        }
    }
}

/// One rate-limited redraw's numbers: the bar geometry, the percentage, and
/// the remaining time split for display.
#[derive(Clone, Copy, Debug, PartialEq, Eq, Structural)]
pub struct Frame {
    /// Cells the bar spans; the terminal width minus the readout margin,
    /// never more than `MAX_BAR_WIDTH` and never negative.
    pub bar_width: u16,
    /// Cells of the bar that are filled.
    pub progress_width: u16,
    /// Elapsed share of the countdown, rounded to whole percent.
    pub percent: u8,
    /// Whole hours left.
    pub rem_hours: u64,
    /// Whole minutes left beside the hours.
    pub rem_minutes: u8,
    /// Whole seconds left beside the minutes.
    pub rem_seconds: u8,
}

impl Frame {
    /// The invariant every rendered tick obeys: the filled part never
    /// leaves the bar, the bar never exceeds its maximum width, and the
    /// displayed numbers are in range.
    pub open spec fn wf(self) -> bool {
        &&& self.bar_width <= MAX_BAR_WIDTH
        &&& self.progress_width <= self.bar_width
        &&& self.percent <= 100
        &&& self.rem_minutes < 60
        &&& self.rem_seconds < 60
    }
}

/// The bar width a terminal of `width` columns gives: the width minus the
/// readout margin, clamped to `[0, MAX_BAR_WIDTH]`.
pub open spec fn bar_width_spec(width: int) -> int {
    if width >= BAR_MARGIN_COLS + MAX_BAR_WIDTH {
        MAX_BAR_WIDTH as int
    } else if width >= BAR_MARGIN_COLS {
        width - BAR_MARGIN_COLS
    } else {
        0
    }
}

/// `x / t`, rounded to the nearest whole number, halves away from zero.
pub open spec fn round_share(x: int, t: int) -> int {
    (2 * x + t) / (2 * t)
}

/// The rounded quotient stays within `[0, w]` as long as `x` itself does
/// not exceed `t * w`.
pub proof fn lemma_round_share_bounds(x: int, t: int, w: int)
    requires
        t > 0,
        w >= 0,
        0 <= x <= t * w,
    ensures
        0 <= round_share(x, t) <= w,
{
    lemma_div_pos_is_pos(2 * x + t, 2 * t);
    assert(2 * x + t <= 2 * (t * w) + t);
    lemma_div_is_ordered(2 * x + t, 2 * (t * w) + t, 2 * t);
    assert(2 * (t * w) + t == w * (2 * t) + t) by {
        lemma_mul_is_associative(2, t, w);
        lemma_mul_is_commutative(2 * t, w);
    }
    lemma_fundamental_div_mod_converse(2 * (t * w) + t, 2 * t, w, t);
}

/// The numbers of one redraw at instant `now` on a terminal `width` columns
/// wide. The elapsed share of the countdown gives the filled cells and the
/// percentage; the time to the deadline splits into hours, minutes and
/// seconds.
pub open spec fn frame_spec(c: Countdown, now: int, width: int) -> Frame {
    let elapsed = now - c.start_ms;
    let remaining = c.end_ms() - now;
    let bw = bar_width_spec(width);
    Frame {
        bar_width: bw as u16,
        progress_width: round_share(elapsed * bw, c.total_ms as int) as u16,
        percent: round_share(elapsed * 100, c.total_ms as int) as u8,
        rem_hours: (remaining / 3600000) as u64,
        rem_minutes: ((remaining % 3600000) / 60000) as u8,
        rem_seconds: ((remaining % 60000) / 1000) as u8,
    }
}

/// Compute one redraw's numbers.
pub fn make_frame(c: &Countdown, now_ms: u64, width: u16) -> (f: Frame)
    requires
        c.wf(),
        c.total_ms > 0,
        c.start_ms <= now_ms,
        now_ms <= c.end_ms(),
    ensures
        f == frame_spec(*c, now_ms as int, width as int),
        f.wf(),
{
    let elapsed: u64 = now_ms - c.start_ms;
    let remaining: u64 = (c.start_ms + c.total_ms) - now_ms;
    let bw: u16 = if width >= BAR_MARGIN_COLS + MAX_BAR_WIDTH {
        MAX_BAR_WIDTH
    } else if width >= BAR_MARGIN_COLS {
        width - BAR_MARGIN_COLS
    } else {
        0
    };
    proof {
        lemma_mul_inequality(elapsed as int, c.total_ms as int, bw as int);
        lemma_mul_nonnegative(elapsed as int, bw as int);
        lemma_mul_upper_bound(elapsed as int, u64::MAX as int, bw as int, u16::MAX as int);
        lemma_round_share_bounds(elapsed as int * bw as int, c.total_ms as int, bw as int);
        lemma_mul_inequality(elapsed as int, c.total_ms as int, 100);
        lemma_mul_nonnegative(elapsed as int, 100);
        lemma_round_share_bounds(elapsed as int * 100, c.total_ms as int, 100);
    }
    let total128: u128 = c.total_ms as u128;
    let filled: u128 = elapsed as u128 * bw as u128;
    let pw: u16 = ((2 * filled + total128) / (2 * total128)) as u16;
    let hundredths: u128 = elapsed as u128 * 100;
    let pct: u8 = ((2 * hundredths + total128) / (2 * total128)) as u8;
    let rem_hours: u64 = remaining / 3600000;
    let rem_minutes: u64 = (remaining % 3600000) / 60000;
    let rem_seconds: u64 = (remaining % 60000) / 1000;
    proof {
        lemma_mod_division_less_than_divisor(remaining as int, 3600000);
        lemma_div_is_ordered((remaining as int) % 3600000, 3599999, 60000);
        lemma_mod_division_less_than_divisor(remaining as int, 60000);
        lemma_div_is_ordered((remaining as int) % 60000, 59999, 1000);
    }
    Frame {
        bar_width: bw,
        progress_width: pw,
        percent: pct,
        rem_hours,
        rem_minutes: rem_minutes as u8,
        rem_seconds: rem_seconds as u8,
    }
}

/// What one pass through the loop body asks the caller to do.
#[derive(Clone, Copy, Debug, PartialEq, Eq, Structural)]
pub enum StepAction {
    /// The cancellation mailbox was signaled: restore the terminal and stop.
    CancelEarly,
    /// The deadline has passed: run the completion sequence and stop.
    Finish,
    /// Too soon since the last redraw: sleep exactly this deficit, redraw
    /// nothing, and poll again.
    Pause { ms: u64 },
    /// Draw one tick with these numbers.
    Redraw { frame: Frame },
}

/// One pass through the loop body, as a function of the state and of what
/// the pass observes: the mailbox poll, the clock, the terminal width.
/// The checks come in priority order: cancellation, deadline, rate limit,
/// redraw.
pub open spec fn step_spec(c: Countdown, cancelled: bool, now: int, width: int) -> (Countdown,
    StepAction) {
    if cancelled {
        (Countdown { state: LoopState::CancelledEarly, ..c }, StepAction::CancelEarly)
    } else if now > c.end_ms() {
        (Countdown { state: LoopState::Completed, ..c }, StepAction::Finish)
    } else if now - c.last_update_ms < MIN_REDRAW_INTERVAL_MS {
        (c, StepAction::Pause { ms: (MIN_REDRAW_INTERVAL_MS - (now - c.last_update_ms)) as u64 })
    } else {
        (
            Countdown { last_update_ms: now as u64, ..c },
            StepAction::Redraw { frame: frame_spec(c, now, width) },
        )
    }
}

impl Countdown {
    /// One pass through the loop body. In priority order: a signaled
    /// cancellation ends the loop early; a clock past the deadline
    /// completes it; a pass within the minimum redraw interval of the last
    /// redraw asks only to sleep the deficit; otherwise the pass redraws
    /// and the rate limiter restarts at `now_ms`.
    pub fn step(&mut self, cancelled: bool, now_ms: u64, width: u16) -> (a: StepAction)
        requires
            old(self).wf(),
            old(self).state is Running,
            old(self).last_update_ms <= now_ms,
        ensures
            (*final(self), a) == step_spec(*old(self), cancelled, now_ms as int, width as int),
            final(self).wf(),
            cancelled ==> a is CancelEarly && final(self).state is CancelledEarly,
            !cancelled && now_ms > old(self).end_ms() ==> a is Finish && final(self).state
                is Completed,
            !cancelled && now_ms <= old(self).end_ms() ==> final(self).state is Running,
            a matches StepAction::Pause { ms } ==> *final(self) == *old(self) && 0 < ms
                <= MIN_REDRAW_INTERVAL_MS,
            a matches StepAction::Redraw { frame } ==> {
                &&& frame.wf()
                &&& now_ms >= old(self).last_update_ms + MIN_REDRAW_INTERVAL_MS
                &&& *final(self) == Countdown { last_update_ms: now_ms, ..*old(self) }
            },
    {
        if cancelled {
            self.state = LoopState::CancelledEarly;
            return StepAction::CancelEarly;
        }
        let end = self.start_ms + self.total_ms;
        if now_ms > end {
            self.state = LoopState::Completed;
            return StepAction::Finish;
        }
        let since_update = now_ms - self.last_update_ms;
        if since_update < MIN_REDRAW_INTERVAL_MS {
            return StepAction::Pause { ms: MIN_REDRAW_INTERVAL_MS - since_update };
        }
        let frame = make_frame(self, now_ms, width);
        self.last_update_ms = now_ms;
        StepAction::Redraw { frame }
    }
}

/// What one pass through the loop observes: the poll of the cancellation
/// mailbox, the monotonic clock, and the terminal width.
pub struct StepInput {
    pub cancelled: bool,
    pub now_ms: u64,
    pub width: u16,
}

/// How many of the passes described by `inputs` redraw, starting from `c`.
/// A terminal state ends the run: nothing after it redraws.
pub open spec fn run_redraws(c: Countdown, inputs: Seq<StepInput>) -> nat
    decreases inputs.len(),
{
    if inputs.len() == 0 || !(c.state is Running) {
        0
    } else {
        let next = step_spec(c, inputs[0].cancelled, inputs[0].now_ms as int, inputs[0].width as int);
        (if next.1 is Redraw {
            1nat
        } else {
            0nat
        }) + run_redraws(next.0, inputs.drop_first())
    }
}

/// A plausible observation sequence: the clock never runs backwards, never
/// starts before the last redraw recorded in `c`, and stays within `t_end`.
pub open spec fn inputs_ok(c: Countdown, inputs: Seq<StepInput>, t_end: int) -> bool {
    &&& forall|k: int| 0 <= k < inputs.len() ==> #[trigger] inputs[k].now_ms <= t_end
    &&& inputs.len() > 0 ==> c.last_update_ms <= inputs[0].now_ms
    &&& forall|k: int, j: int|
        0 <= k < j < inputs.len() ==> #[trigger] inputs[k].now_ms <= #[trigger] inputs[j].now_ms
}

/// The rate limiter at work: along any plausible run that ends by `t_end`,
/// every redraw moves the last-redraw mark forward by at least the minimum
/// redraw interval, so the redraws number at most one more than the elapsed
/// time divided by that interval.
pub proof fn lemma_rate_limit(c: Countdown, inputs: Seq<StepInput>, t_end: int)
    requires
        c.wf(),
        c.last_update_ms <= t_end,
        inputs_ok(c, inputs, t_end),
    ensures
        run_redraws(c, inputs) * (MIN_REDRAW_INTERVAL_MS as int) <= t_end - c.last_update_ms
            + MIN_REDRAW_INTERVAL_MS,
    decreases inputs.len(),
{
    if inputs.len() == 0 || !(c.state is Running) {
        return ;
    }
    let first = inputs[0];
    let next = step_spec(c, first.cancelled, first.now_ms as int, first.width as int);
    let rest = inputs.drop_first();
    assert(forall|k: int| 0 <= k < rest.len() ==> rest[k] == inputs[k + 1]);
    if first.cancelled || first.now_ms > c.end_ms() {
        assert(run_redraws(next.0, rest) == 0);
    } else if first.now_ms - c.last_update_ms < MIN_REDRAW_INTERVAL_MS {
        assert(next.0 == c);
        lemma_rate_limit(c, rest, t_end);
    } else {
        assert(next.0.last_update_ms == first.now_ms);
        assert(next.0.wf());
        lemma_rate_limit(next.0, rest, t_end);
        assert(run_redraws(c, inputs) == 1 + run_redraws(next.0, rest));
        assert((1 + run_redraws(next.0, rest)) * (MIN_REDRAW_INTERVAL_MS as int) == (
        MIN_REDRAW_INTERVAL_MS as int) + run_redraws(next.0, rest) * (MIN_REDRAW_INTERVAL_MS
            as int)) by {
            lemma_mul_is_distributive_add_other_way(
                MIN_REDRAW_INTERVAL_MS as int,
                1,
                run_redraws(next.0, rest) as int,
            );
        }
    }
}

/// Across a run of `n` seconds from loop entry, the redraws are bounded by
/// `n * 1000 / 16` plus one for the boundary tick: the loop never draws
/// faster than the minimum redraw interval allows.
pub proof fn lemma_redraw_count_bound(c: Countdown, inputs: Seq<StepInput>, n: u64)
    requires
        c.wf(),
        inputs_ok(c, inputs, c.last_update_ms + n * 1000),
    ensures
        run_redraws(c, inputs) <= (n * 1000) / (MIN_REDRAW_INTERVAL_MS as int) + 1,
{
    let t_end = c.last_update_ms + n * 1000;
    let count = run_redraws(c, inputs) as int;
    lemma_rate_limit(c, inputs, t_end);
    assert(count * 16 <= n * 1000 + 16);
    lemma_div_is_ordered(count * 16, n * 1000 + 16, 16);
    lemma_div_multiples_vanish(count, 16);
    lemma_hoist_over_denominator(n as int * 1000, 1, 16nat);
}

/// Cancellation wins over everything: a pass that finds the mailbox
/// signaled moves a running loop to `CancelledEarly` — never to
/// `Completed`, however the clock stands relative to the deadline.
pub proof fn lemma_cancellation_wins(c: Countdown, now: int, width: int)
    requires
        c.state is Running,
    ensures
        step_spec(c, true, now, width).1 is CancelEarly,
        step_spec(c, true, now, width).0.state is CancelledEarly,
        !(step_spec(c, true, now, width).0.state is Completed),
{
}

/// Once the mailbox is signaled, nothing further is drawn: the first pass
/// that sees the signal ends the run, whatever observations follow.
pub proof fn lemma_cancelled_run_draws_nothing(c: Countdown, inputs: Seq<StepInput>)
    requires
        inputs.len() > 0,
        inputs[0].cancelled,
    ensures
        run_redraws(c, inputs) == 0,
{
    reveal_with_fuel(run_redraws, 2);
    if c.state is Running {
        let next = step_spec(c, true, inputs[0].now_ms as int, inputs[0].width as int);
        assert(next.0.state is CancelledEarly);
        assert(run_redraws(next.0, inputs.drop_first()) == 0);
    }
}

/// A countdown of length zero never draws a tick: the pass either finds the
/// clock past the deadline and completes, or asks to sleep. The first pass
/// whose clock reading lies past the deadline reaches `Completed` (unless
/// cancelled first).
pub proof fn lemma_zero_length_completes(c: Countdown, cancelled: bool, now: int, width: int)
    requires
        c.wf(),
        c.total_ms == 0,
        c.last_update_ms <= now,
    ensures
        !(step_spec(c, cancelled, now, width).1 is Redraw),
        !cancelled && now > c.end_ms() ==> step_spec(c, cancelled, now, width).1 is Finish
            && step_spec(c, cancelled, now, width).0.state is Completed,
{
}

} // verus!
