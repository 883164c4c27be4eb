use timr::render::{Countdown, Frame, LoopState, StepAction};

#[test]
fn countdown_from_seconds_scales_to_milliseconds() {
    let c = Countdown::from_seconds(1000, 90).unwrap();
    assert_eq!(c.state, LoopState::Running);
    assert_eq!(c.start_ms, 1000);
    assert_eq!(c.total_ms, 90_000);
    assert_eq!(c.last_update_ms, 1000);
}

#[test]
fn countdown_from_seconds_rejects_a_deadline_past_the_clock() {
    assert!(Countdown::from_seconds(0, u64::MAX).is_none());
    assert!(Countdown::from_seconds(u64::MAX, 1).is_none());
    assert!(Countdown::from_seconds(0, u64::MAX / 1000).is_some());
}

#[test]
fn cancellation_wins_over_everything() {
    // Signaled before the deadline: the next poll cancels, never completes.
    let mut c = Countdown::new(0, 10_000);
    let a = c.step(true, 5, 80);
    assert_eq!(a, StepAction::CancelEarly);
    assert_eq!(c.state, LoopState::CancelledEarly);

    // Even a poll past the deadline cancels when the mailbox is signaled.
    let mut c2 = Countdown::new(0, 10);
    let a2 = c2.step(true, 50_000, 80);
    assert_eq!(a2, StepAction::CancelEarly);
    assert_eq!(c2.state, LoopState::CancelledEarly);
}

#[test]
fn deadline_completes_the_loop() {
    let mut c = Countdown::new(0, 1000);
    let a = c.step(false, 1001, 80);
    assert_eq!(a, StepAction::Finish);
    assert_eq!(c.state, LoopState::Completed);
}

#[test]
fn zero_length_countdown_never_redraws() {
    let mut c = Countdown::new(5, 0);
    // At the entry instant the rate limiter asks for a full interval's sleep.
    let a = c.step(false, 5, 80);
    assert_eq!(a, StepAction::Pause { ms: 16 });
    assert_eq!(c.state, LoopState::Running);
    // The first reading past the deadline completes without a redraw.
    let b = c.step(false, 6, 80);
    assert_eq!(b, StepAction::Finish);
    assert_eq!(c.state, LoopState::Completed);
}

#[test]
fn early_pass_sleeps_exactly_the_deficit() {
    let mut c = Countdown::new(0, 10_000);
    let a = c.step(false, 10, 80);
    assert_eq!(a, StepAction::Pause { ms: 6 });
    // A pause leaves the rate limiter untouched.
    assert_eq!(c.last_update_ms, 0);
}

#[test]
fn redraw_frame_numbers_are_exact() {
    let mut c = Countdown::new(0, 10_000);
    let a = c.step(false, 5_000, 80);
    let expected = Frame {
        bar_width: 30,
        progress_width: 15,
        percent: 50,
        rem_hours: 0,
        rem_minutes: 0,
        rem_seconds: 5,
    };
    assert_eq!(a, StepAction::Redraw { frame: expected });
    assert_eq!(c.last_update_ms, 5_000);
}

#[test]
fn redraws_are_at_least_one_interval_apart() {
    let mut c = Countdown::new(0, 10_000);
    assert!(matches!(c.step(false, 16, 80), StepAction::Redraw { .. }));
    assert_eq!(c.step(false, 30, 80), StepAction::Pause { ms: 2 });
    assert!(matches!(c.step(false, 32, 80), StepAction::Redraw { .. }));
    assert_eq!(c.last_update_ms, 32);
}

#[test]
fn bar_width_follows_the_terminal() {
    // Wide terminal: the bar caps at 30 cells.
    let mut wide = Countdown::new(0, 1000);
    let StepAction::Redraw { frame } = wide.step(false, 500, 200) else {
        panic!("expected a redraw");
    };
    assert_eq!(frame.bar_width, 30);

    // 20 columns leave 5 cells beside the margin.
    let mut narrow = Countdown::new(0, 1000);
    let StepAction::Redraw { frame } = narrow.step(false, 500, 20) else {
        panic!("expected a redraw");
    };
    assert_eq!(frame.bar_width, 5);
    assert!(frame.progress_width <= frame.bar_width);

    // Narrower than the margin itself: no bar at all, never a negative width.
    let mut tiny = Countdown::new(0, 1000);
    let StepAction::Redraw { frame } = tiny.step(false, 500, 10) else {
        panic!("expected a redraw");
    };
    assert_eq!(frame.bar_width, 0);
    assert_eq!(frame.progress_width, 0);
}

#[test]
fn remaining_time_splits_into_hours_minutes_seconds() {
    let mut c = Countdown::new(0, 2 * 3_600_000 + 3 * 60_000 + 4_000);
    let StepAction::Redraw { frame } = c.step(false, 1_000, 80) else {
        panic!("expected a redraw");
    };
    // 2h03m03s and change remain after one second.
    assert_eq!(frame.rem_hours, 2);
    assert_eq!(frame.rem_minutes, 3);
    assert_eq!(frame.rem_seconds, 3);
}

#[test]
fn progress_rounds_to_the_nearest_cell_and_percent() {
    // 1/3 of the way across a 30-cell bar: exactly 10 cells, 33 percent.
    let mut c = Countdown::new(0, 30_000);
    let StepAction::Redraw { frame } = c.step(false, 10_000, 80) else {
        panic!("expected a redraw");
    };
    assert_eq!(frame.progress_width, 10);
    assert_eq!(frame.percent, 33);

    // The full countdown fills the bar exactly.
    let mut done = Countdown::new(0, 30_000);
    let StepAction::Redraw { frame } = done.step(false, 30_000, 80) else {
        panic!("expected a redraw");
    };
    assert_eq!(frame.progress_width, 30);
    assert_eq!(frame.percent, 100);
}
