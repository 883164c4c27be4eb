//! The text of one redraw: the clock and remaining-time line, and the
//! progress bar with its color gradient and percentage readout. Everything
//! here is a plain string with an exact contract; only the wall-clock
//! reading comes from outside.

use vstd::prelude::*;

use vstd::arithmetic::mul::{
    lemma_mul_inequality,
    lemma_mul_is_distributive_sub,
    lemma_mul_nonnegative,
    lemma_mul_upper_bound,
};

use crate::digits::{dec_rep, u64_string};
use crate::render::{round_share, lemma_round_share_bounds, Frame};
use crate::terminal::{ansi_rgb, ansi_rgb_spec};

verus! {

/// The color `i` of `n` steps along the way from `a` to `b`, rounded to the
/// nearest whole value.
pub open spec fn lerp_spec(a: int, b: int, i: int, n: int) -> int {
    round_share(a * (n - i) + b * i, n)
}

/// Linear interpolation between the channel values `a` and `b`, `i` of `n`
/// steps along.
pub fn lerp(a: u8, b: u8, i: u16, n: u16) -> (r: u8)
    requires
        0 < n,
        i <= n,
    ensures
        r == lerp_spec(a as int, b as int, i as int, n as int),
{
    proof {
        lemma_mul_nonnegative(a as int, n - i);
        lemma_mul_nonnegative(b as int, i as int);
        lemma_mul_upper_bound(a as int, 255, n - i, u16::MAX as int);
        lemma_mul_upper_bound(b as int, 255, i as int, u16::MAX as int);
        lemma_mul_inequality(a as int, 255, n - i);
        lemma_mul_inequality(b as int, 255, i as int);
        assert(255 * (n - i) + 255 * (i as int) == 255 * (n as int)) by {
            lemma_mul_is_distributive_sub(255, n as int, i as int);
        }
        lemma_round_share_bounds(
            a as int * (n - i) + b as int * (i as int),
            n as int,
            255,
        );
    }
    let x: u64 = a as u64 * (n - i) as u64 + b as u64 * i as u64;
    ((2 * x + n as u64) / (2 * n as u64)) as u8
}

/// The filled cells of the bar, left to right: cell `k` is a full block
/// colored by interpolating the gradient's ends `k` of `bar_width` steps
/// along.
pub open spec fn filled_cells_spec(count: int, bar_width: int) -> Seq<char>
    decreases count,
{
    if count <= 0 {
        Seq::empty()
    } else {
        filled_cells_spec(count - 1, bar_width) + ansi_rgb_spec(
            lerp_spec(90, 123, count - 1, bar_width) as nat,
            lerp_spec(105, 90, count - 1, bar_width) as nat,
            237,
        ) + seq!['█']
    }
}

/// The whole bar line: the filled cells, then the unfilled cells in flat
/// gray, a return to the default foreground, and the percentage readout.
pub open spec fn bar_line_spec(f: Frame) -> Seq<char> {
    filled_cells_spec(f.progress_width as int, f.bar_width as int) + ansi_rgb_spec(100, 100, 100)
        + Seq::new((f.bar_width - f.progress_width) as nat, |k: int| '▒') + seq![
        '\u{1b}',
        '[',
        '3',
        '9',
        'm',
        ' ',
        ' ',
    ] + dec_rep(f.percent as nat) + seq!['%']
}

/// Render the progress bar line of one frame.
pub fn bar_line(f: &Frame) -> (r: String)
    requires
        f.wf(),
    ensures
        r@ =~= bar_line_spec(*f),
{
    let mut out = String::new();
    let mut k: u16 = 0;
    while k < f.progress_width
        invariant
            0 <= k <= f.progress_width,
            f.wf(),
            out@ =~= filled_cells_spec(k as int, f.bar_width as int),
        decreases f.progress_width - k,
    {
        proof {
            reveal_strlit("█");
        }
        let red = lerp(90, 123, k, f.bar_width);
        let green = lerp(105, 90, k, f.bar_width);
        let code = ansi_rgb(red, green, 237);
        out.append(code.as_str());
        out.append("█");
        k = k + 1;
        assert(out@ =~= filled_cells_spec(k as int, f.bar_width as int));
    }
    let gray = ansi_rgb(100, 100, 100);
    out.append(gray.as_str());
    let empty_cells = f.bar_width - f.progress_width;
    let mut j: u16 = 0;
    while j < empty_cells
        invariant
            0 <= j <= empty_cells,
            out@ =~= filled_cells_spec(f.progress_width as int, f.bar_width as int)
                + ansi_rgb_spec(100, 100, 100) + Seq::new(j as nat, |k: int| '▒'),
        decreases empty_cells - j,
    {
        proof {
            reveal_strlit("▒");
        }
        out.append("▒");
        j = j + 1;
        assert(out@ =~= filled_cells_spec(f.progress_width as int, f.bar_width as int)
            + ansi_rgb_spec(100, 100, 100) + Seq::new(j as nat, |k: int| '▒'));
    }
    proof {
        reveal_strlit("\u{1b}[39m  ");
        reveal_strlit("%");
    }
    out.append("\u{1b}[39m  ");
    let pct = u64_string(f.percent as u64);
    out.append(pct.as_str());
    out.append("%");
    out
}

/// The remaining time as `{h}h{m}m{s}s`: hours and minutes appear only when
/// they are nonzero, seconds always.
pub open spec fn remaining_text_spec(h: nat, m: nat, s: nat) -> Seq<char> {
    (if h > 0 {
        dec_rep(h) + seq!['h']
    } else {
        Seq::empty()
    }) + (if m > 0 {
        dec_rep(m) + seq!['m']
    } else {
        Seq::empty()
    }) + dec_rep(s) + seq!['s']
}

/// Render the remaining time of one frame.
pub fn remaining_text(hours: u64, minutes: u8, seconds: u8) -> (r: String)
    ensures
        r@ =~= remaining_text_spec(hours as nat, minutes as nat, seconds as nat),
{
    proof {
        reveal_strlit("h");
        reveal_strlit("m");
        reveal_strlit("s");
    }
    let mut out = String::new();
    if hours > 0 {
        let hd = u64_string(hours);
        out.append(hd.as_str());
        out.append("h");
    }
    if minutes > 0 {
        let md = u64_string(minutes as u64);
        out.append(md.as_str());
        out.append("m");
    }
    let sd = u64_string(seconds as u64);
    out.append(sd.as_str());
    out.append("s");
    out
}

/// A 12-hour wall clock reading, minutes zero-padded to two digits and an
/// `am`/`pm` suffix: hour 0 shows as 12am, hour 12 as 12pm.
pub open spec fn clock_text_spec(hour: int, minute: int) -> Seq<char> {
    (if hour % 12 == 0 {
        dec_rep(12)
    } else {
        dec_rep((hour % 12) as nat)
    }) + seq![':'] + (if minute < 10 {
        seq!['0']
    } else {
        Seq::empty()
    }) + dec_rep(minute as nat) + (if hour < 12 {
        seq!['a', 'm']
    } else {
        seq!['p', 'm']
    })
}

/// Render a wall clock reading, given the hour of the day and the minute.
pub fn clock_text(hour: u32, minute: u32) -> (r: String)
    requires
        hour < 24,
        minute < 60,
    ensures
        r@ =~= clock_text_spec(hour as int, minute as int),
{
    proof {
        reveal_strlit(":");
        reveal_strlit("0");
        reveal_strlit("am");
        reveal_strlit("pm");
    }
    let h12: u32 = hour % 12;
    let mut out = if h12 == 0 {
        u64_string(12)
    } else {
        u64_string(h12 as u64)
    };
    out.append(":");
    if minute < 10 {
        out.append("0");
    }
    let md = u64_string(minute as u64);
    out.append(md.as_str());
    if hour < 12 {
        out.append("am");
    } else {
        out.append("pm");
    }
    out
}

/// The clock and remaining-time line of one redraw: the wall clock reading,
/// a separator, and the remaining time.
pub open spec fn status_line_spec(clock: Seq<char>, f: Frame) -> Seq<char> {
    clock + seq![' ', '-', ' '] + remaining_text_spec(
        f.rem_hours as nat,
        f.rem_minutes as nat,
        f.rem_seconds as nat,
    )
}

/// Render the clock and remaining-time line of one frame.
pub fn status_line(clock: &str, f: &Frame) -> (r: String)
    ensures
        r@ =~= status_line_spec(clock@, *f),
{
    proof {
        reveal_strlit(" - ");
    }
    let mut out = clock.to_owned();
    out.append(" - ");
    let rem = remaining_text(f.rem_hours, f.rem_minutes, f.rem_seconds);
    out.append(rem.as_str());
    out
}

/// Relies on chrono's `Local::now` and the `Timelike` accessors: the local
/// wall clock's hour, 0 to 23, and minute, 0 to 59. The reading depends on
/// the moment and the configured time zone, so only those ranges hold.
#[verifier::external_body]
fn local_hour_minute() -> (r: (u32, u32))
    ensures
        r.0 < 24,
        r.1 < 60,
{
    let now = chrono::Local::now();
    (chrono::Timelike::hour(&now), chrono::Timelike::minute(&now))
}

/// The current wall clock reading as display text: some in-range hour and
/// minute, rendered exactly as `clock_text` renders them.
pub fn current_clock_text() -> (r: String)
    ensures
        exists|h: int, m: int|
            0 <= h < 24 && 0 <= m < 60 && r@ == clock_text_spec(h, m),
{
    let (hour, minute) = local_hour_minute();
    let r = clock_text(hour, minute);
    proof {
        assert(r@ == clock_text_spec(hour as int, minute as int));
    }
    r
}

} // verus!
