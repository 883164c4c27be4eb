//! Terminal control sequences, computed as plain strings with exact
//! contracts. Writing them to the terminal, which is I/O, is the caller's
//! business; querying the terminal's width goes through `termsize`.

use vstd::prelude::*;

use crate::digits::{dec_rep, u64_string};

verus! {

/// The sequence that moves the cursor to the start of the previous line.
pub open spec fn previous_line_spec() -> Seq<char> {
    seq!['\u{1b}', '[', 'F']
}

/// Control sequence: cursor to the start of the previous line.
pub fn previous_line() -> (r: String)
    ensures
        r@ =~= previous_line_spec(),
{
    proof {
        reveal_strlit("\u{1b}[F");
    }
    "\u{1b}[F".to_owned()
}

/// The text that blanks the current line on a terminal `width` columns wide:
/// carriage return, one space per column, carriage return.
pub open spec fn clear_line_spec(width: nat) -> Seq<char> {
    seq!['\r'] + Seq::new(width, |i: int| ' ') + seq!['\r']
}

/// The text that clears the current line of a terminal `width` columns wide.
pub fn clear_line(width: u16) -> (r: String)
    ensures
        r@ =~= clear_line_spec(width as nat),
{
    proof {
        reveal_strlit("\r");
        reveal_strlit(" ");
    }
    let mut out = "\r".to_owned();
    let mut i: u16 = 0;
    while i < width
        invariant
            0 <= i <= width,
            out@ =~= seq!['\r'] + Seq::new(i as nat, |k: int| ' '),
        decreases width - i,
    {
        proof {
            reveal_strlit(" ");
        }
        out.append(" ");
        i = i + 1;
        assert(out@ =~= seq!['\r'] + Seq::new(i as nat, |k: int| ' '));
    }
    out.append("\r");
    out
}

/// The sequence that shows or hides the cursor.
pub open spec fn set_cursor_visible_spec(visible: bool) -> Seq<char> {
    if visible {
        seq!['\u{1b}', '[', '?', '2', '5', 'h']
    } else {
        seq!['\u{1b}', '[', '?', '2', '5', 'l']
    }
}

/// Control sequence: show (`true`) or hide (`false`) the cursor.
pub fn set_cursor_visible(visible: bool) -> (r: String)
    ensures
        r@ =~= set_cursor_visible_spec(visible),
{
    proof {
        reveal_strlit("\u{1b}[?25h");
        reveal_strlit("\u{1b}[?25l");
    }
    if visible {
        "\u{1b}[?25h".to_owned()
    } else {
        "\u{1b}[?25l".to_owned()
    }
}

/// The sequence that reports countdown progress to terminals with a
/// host-integrated progress indicator.
pub open spec fn progress_spec(percent: nat) -> Seq<char> {
    seq!['\u{1b}', ']', '9', ';', '4', ';', '1', ';'] + dec_rep(percent) + seq!['\u{7}']
}

/// Control sequence: set the host progress indicator to `percent`.
pub fn progress(percent: u32) -> (r: String)
    ensures
        r@ =~= progress_spec(percent as nat),
{
    proof {
        reveal_strlit("\u{1b}]9;4;1;");
        reveal_strlit("\u{7}");
    }
    let mut out = "\u{1b}]9;4;1;".to_owned();
    let digits = u64_string(percent as u64);
    out.append(digits.as_str());
    out.append("\u{7}");
    out
}

/// The sequence that clears the host progress indicator.
pub open spec fn hide_progress_spec() -> Seq<char> {
    seq!['\u{1b}', ']', '9', ';', '4', ';', '0', ';', '1', '0', '0', '\u{7}']
}

/// Control sequence: clear the host progress indicator.
pub fn hide_progress() -> (r: String)
    ensures
        r@ =~= hide_progress_spec(),
{
    proof {
        reveal_strlit("\u{1b}]9;4;0;100\u{7}");
    }
    "\u{1b}]9;4;0;100\u{7}".to_owned()
}

/// The sequence that colors following text with the given foreground,
/// in a terminal that understands 24-bit color.
pub open spec fn ansi_rgb_spec(red: nat, green: nat, blue: nat) -> Seq<char> {
    seq!['\u{1b}', '[', '3', '8', ';', '2', ';'] + dec_rep(red) + seq![';'] + dec_rep(green)
        + seq![';'] + dec_rep(blue) + seq!['m']
}

/// The ANSI code to color the foreground in `red`, `green`, `blue`.
pub fn ansi_rgb(red: u8, green: u8, blue: u8) -> (r: String)
    ensures
        r@ =~= ansi_rgb_spec(red as nat, green as nat, blue as nat),
{
    proof {
        reveal_strlit("\u{1b}[38;2;");
        reveal_strlit(";");
        reveal_strlit("m");
    }
    let mut out = "\u{1b}[38;2;".to_owned();
    let rd = u64_string(red as u64);
    out.append(rd.as_str());
    out.append(";");
    let gd = u64_string(green as u64);
    out.append(gd.as_str());
    out.append(";");
    let bd = u64_string(blue as u64);
    out.append(bd.as_str());
    out.append("m");
    out
}

/// Relies on `termsize::get`: the terminal's row and column count, or
/// `None` when standard output is not a terminal. The columns are handed
/// on as a plain value; nothing is assumed of them.
#[verifier::external_body]
fn query_terminal_cols() -> Option<u16> {
    termsize::get().map(|size| size.cols)
}

/// The column count to lay text out for, given what the terminal query
/// reported: the reported width, or 80 where none was available.
pub fn effective_width(reported: Option<u16>) -> (w: u16)
    ensures
        w == match reported {
            Some(c) => c,
            None => 80u16,
        },
{
    match reported {
        Some(c) => c,
        None => 80,
    }
}

/// The terminal's column count, with the 80-column fallback. The value
/// depends on the terminal the process runs under, so nothing more is
/// promised of it.
pub fn get_width() -> u16 {
    effective_width(query_terminal_cols())
}

} // verus!
