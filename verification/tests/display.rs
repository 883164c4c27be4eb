use timr::digits::u64_string;
use timr::display::{bar_line, clock_text, current_clock_text, lerp, remaining_text, status_line};
use timr::render::Frame;
use timr::terminal::{
    ansi_rgb, clear_line, effective_width, hide_progress, previous_line, progress,
    set_cursor_visible,
};

#[test]
fn decimal_rendering_is_exact() {
    assert_eq!(u64_string(0), "0");
    assert_eq!(u64_string(7), "7");
    assert_eq!(u64_string(1234), "1234");
    assert_eq!(u64_string(u64::MAX), "18446744073709551615");
}

#[test]
fn ansi_rgb_writes_the_full_color_code() {
    assert_eq!(ansi_rgb(90, 105, 237), "\u{1b}[38;2;90;105;237m");
    assert_eq!(ansi_rgb(0, 0, 0), "\u{1b}[38;2;0;0;0m");
}

#[test]
fn cursor_and_line_sequences_are_exact() {
    assert_eq!(previous_line(), "\u{1b}[F");
    assert_eq!(set_cursor_visible(true), "\u{1b}[?25h");
    assert_eq!(set_cursor_visible(false), "\u{1b}[?25l");
    assert_eq!(clear_line(3), "\r   \r");
    assert_eq!(clear_line(0), "\r\r");
}

#[test]
fn host_progress_sequences_are_exact() {
    assert_eq!(progress(42), "\u{1b}]9;4;1;42\u{7}");
    assert_eq!(progress(0), "\u{1b}]9;4;1;0\u{7}");
    assert_eq!(hide_progress(), "\u{1b}]9;4;0;100\u{7}");
}

#[test]
fn width_falls_back_to_eighty_columns() {
    assert_eq!(effective_width(None), 80);
    assert_eq!(effective_width(Some(132)), 132);
}

#[test]
fn lerp_interpolates_and_rounds() {
    assert_eq!(lerp(90, 123, 0, 30), 90);
    assert_eq!(lerp(90, 123, 30, 30), 123);
    assert_eq!(lerp(90, 123, 15, 30), 107); // 106.5 rounds up
    assert_eq!(lerp(105, 90, 15, 30), 98); // 97.5 rounds up
    assert_eq!(lerp(100, 100, 7, 9), 100);
}

#[test]
fn remaining_text_hides_zero_hours_and_minutes() {
    assert_eq!(remaining_text(0, 0, 5), "5s");
    assert_eq!(remaining_text(0, 0, 0), "0s");
    assert_eq!(remaining_text(0, 2, 30), "2m30s");
    assert_eq!(remaining_text(1, 0, 30), "1h30s");
    assert_eq!(remaining_text(2, 5, 0), "2h5m0s");
}

#[test]
fn clock_text_renders_a_twelve_hour_clock() {
    assert_eq!(clock_text(0, 5), "12:05am");
    assert_eq!(clock_text(9, 41), "9:41am");
    assert_eq!(clock_text(12, 0), "12:00pm");
    assert_eq!(clock_text(13, 30), "1:30pm");
    assert_eq!(clock_text(23, 59), "11:59pm");
}

#[test]
fn current_clock_text_is_a_well_formed_reading() {
    // The wall clock reading varies; its shape does not.
    let text = current_clock_text();
    let (time, suffix) = text.split_at(text.len() - 2);
    assert!(suffix == "am" || suffix == "pm");
    let (h, m) = time.split_once(':').expect("a colon between hour and minute");
    let h: u32 = h.parse().expect("a numeric hour");
    let m: u32 = m.parse().expect("a numeric minute");
    assert!((1..=12).contains(&h));
    assert!(m < 60);
}

#[test]
fn status_line_joins_clock_and_remaining_time() {
    let f = Frame {
        bar_width: 30,
        progress_width: 15,
        percent: 50,
        rem_hours: 0,
        rem_minutes: 1,
        rem_seconds: 30,
    };
    assert_eq!(status_line("3:05pm", &f), "3:05pm - 1m30s");
}

#[test]
fn bar_line_renders_cells_and_percentage() {
    let f = Frame {
        bar_width: 2,
        progress_width: 1,
        percent: 50,
        rem_hours: 0,
        rem_minutes: 0,
        rem_seconds: 1,
    };
    // One filled cell at the gradient's start, one gray empty cell, the
    // foreground reset, and the percentage readout.
    assert_eq!(
        bar_line(&f),
        "\u{1b}[38;2;90;105;237m█\u{1b}[38;2;100;100;100m▒\u{1b}[39m  50%"
    );
}

#[test]
fn bar_line_with_no_bar_still_reports_percent() {
    let f = Frame {
        bar_width: 0,
        progress_width: 0,
        percent: 7,
        rem_hours: 0,
        rem_minutes: 0,
        rem_seconds: 3,
    };
    assert_eq!(bar_line(&f), "\u{1b}[38;2;100;100;100m\u{1b}[39m  7%");
}

#[test]
fn full_bar_ends_on_the_gradient_target() {
    let f = Frame {
        bar_width: 2,
        progress_width: 2,
        percent: 100,
        rem_hours: 0,
        rem_minutes: 0,
        rem_seconds: 0,
    };
    // Cell 0 starts the gradient; cell 1 is halfway: 90+33/2 rounds to 107
    // on the red channel and 105-15/2 rounds to 98 on the green.
    assert_eq!(
        bar_line(&f),
        "\u{1b}[38;2;90;105;237m█\u{1b}[38;2;107;98;237m█\u{1b}[38;2;100;100;100m\u{1b}[39m  100%"
    );
}
