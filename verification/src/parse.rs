//! The duration parser: a left-to-right scan of a compact duration string
//! (`1h30m15s`, `90s`, `45`) into a total count of seconds.
//!
//! Digits accumulate into a pending number; a unit letter (`s`, `m`, `h`)
//! folds the pending number into the running total at 1, 60 or 3600 seconds
//! per unit; trailing digits without a unit count as seconds. A unit with no
//! digits before it, any other character, and any total or pending value that
//! does not fit in 64 bits are errors.

use vstd::prelude::*;

use crate::digits::{is_digit_char, digit_val, scan_seq, dec_rep};

verus! {

/// Why a duration string was rejected.
#[derive(Clone, Copy, Debug, PartialEq, Eq, Structural)]
pub enum ParseError {
    /// A unit letter appeared with no digits before it.
    NoNumberBeforeUnit,
    /// A character that is neither a decimal digit nor `s`, `m` or `h`.
    InvalidCharacter,
    /// The total, or a pending number, exceeds what 64 bits can hold.
    Overflow,
}

pub open spec fn is_unit_char(c: char) -> bool {
    c == 's' || c == 'm' || c == 'h'
}

/// Seconds per unit letter.
pub open spec fn unit_factor(c: char) -> nat {
    if c == 's' {
        1
    } else if c == 'm' {
        60
    } else {
        3600
    }
}

/// The scan from position `i` on, with `total` seconds already accumulated
/// and a pending number of value `pending` (`has_pending` records whether any
/// digit of it has been seen). Errors are found left to right; a value too
/// large for 64 bits is detected where a unit, or the end of the input,
/// forces the pending number to be folded in.
pub open spec fn parse_from(
    s: Seq<char>,
    i: int,
    total: nat,
    pending: nat,
    has_pending: bool,
) -> Result<nat, ParseError>
    decreases s.len() - i,
{
    if i < 0 || i >= s.len() {
        if total + pending > u64::MAX {
            Err(ParseError::Overflow)
        } else {
            Ok(total + pending)
        }
    } else if is_digit_char(s[i]) {
        parse_from(s, i + 1, total, pending * 10 + digit_val(s[i]), true)
    } else if is_unit_char(s[i]) {
        if !has_pending {
            Err(ParseError::NoNumberBeforeUnit)
        } else if total + pending * unit_factor(s[i]) > u64::MAX {
            Err(ParseError::Overflow)
        } else {
            parse_from(s, i + 1, (total + pending * unit_factor(s[i])) as nat, 0, false)
        }
    } else {
        Err(ParseError::InvalidCharacter)
    }
}

/// What `parse_duration` returns: the exact total of seconds, or the first
/// error the scan meets.
pub open spec fn parse_spec(s: Seq<char>) -> Result<nat, ParseError> {
    parse_from(s, 0, 0, 0, false)
}

/// Parse a compact duration string into whole seconds.
///
/// The input must not be empty: an empty duration is a violation of the
/// caller's obligation, not a recoverable error.
pub fn parse_duration(s: &str) -> (r: Result<u64, ParseError>)
    requires
        s@.len() > 0,
    ensures
        r matches Ok(v) ==> parse_spec(s@) == Ok::<nat, ParseError>(v as nat),
        r matches Err(e) ==> parse_spec(s@) == Err::<nat, ParseError>(e),
{
    let n = s.unicode_len();
    let mut i: usize = 0;
    let mut total: u64 = 0;
    let mut pending: u64 = 0;
    // True iff the pending number's exact value no longer fits in a u64;
    // its exact value lives on in the ghost `gpending`.
    let mut too_large = false;
    let ghost mut gpending: nat = 0nat;
    let mut has_pending = false;

    while i < n
        invariant
            0 <= i <= n,
            n == s@.len(),
            parse_spec(s@) == parse_from(s@, i as int, total as nat, gpending, has_pending),
            !too_large ==> gpending == pending as nat,
            too_large ==> gpending > u64::MAX,
            !has_pending ==> gpending == 0 && !too_large,
        decreases n - i,
    {
        let c = s.get_char(i);
        let d: u64 = match c {
            '0' => 0,
            '1' => 1,
            '2' => 2,
            '3' => 3,
            '4' => 4,
            '5' => 5,
            '6' => 6,
            '7' => 7,
            '8' => 8,
            '9' => 9,
            's' | 'm' | 'h' => {
                let factor: u64 = if c == 's' {
                    1
                } else if c == 'm' {
                    60
                } else {
                    3600
                };
                if !has_pending {
                    return Err(ParseError::NoNumberBeforeUnit);
                }
                if too_large {
                    proof {
                        // The exact pending value alone exceeds u64::MAX, so
                        // folding it in at any unit factor does too.
                        assert(gpending * unit_factor(s@[i as int]) >= gpending * 1) by (nonlinear_arith)
                            requires
                                unit_factor(s@[i as int]) >= 1,
                                gpending >= 0,
                        ;
                    }
                    return Err(ParseError::Overflow);
                }
                match pending.checked_mul(factor) {
                    None => {
                        return Err(ParseError::Overflow);
                    },
                    Some(scaled) => {
                        match total.checked_add(scaled) {
                            None => {
                                return Err(ParseError::Overflow);
                            },
                            Some(t) => {
                                total = t;
                                pending = 0;
                                has_pending = false;
                                proof {
                                    gpending = 0nat;
                                }
                            },
                        }
                    },
                }
                i = i + 1;
                continue ;
            },
            _ => {
                return Err(ParseError::InvalidCharacter);
            },
        };
        // c is the digit with value d
        if too_large {
            proof {
                gpending = gpending * 10 + d as nat;
            }
        } else {
            match pending.checked_mul(10) {
                None => {
                    too_large = true;
                    proof {
                        gpending = gpending * 10 + d as nat;
                    }
                },
                Some(shifted) => {
                    match shifted.checked_add(d) {
                        None => {
                            too_large = true;
                            proof {
                                gpending = gpending * 10 + d as nat;
                            }
                        },
                        Some(p) => {
                            pending = p;
                            proof {
                                gpending = gpending * 10 + d as nat;
                            }
                        },
                    }
                },
            }
        }
        has_pending = true;
        i = i + 1;
    }
    if too_large {
        return Err(ParseError::Overflow);
    }
    match total.checked_add(pending) {
        None => Err(ParseError::Overflow),
        Some(t) => Ok(t),
    }
}

/// A run of digits moves the scan forward without folding anything into the
/// total: positions `i` to `j` only extend the pending number.
proof fn lemma_parse_through_digits(
    s: Seq<char>,
    i: int,
    j: int,
    total: nat,
    pending: nat,
    has_pending: bool,
)
    requires
        0 <= i <= j <= s.len(),
        forall|k: int| i <= k < j ==> is_digit_char(#[trigger] s[k]),
    ensures
        parse_from(s, i, total, pending, has_pending) == parse_from(
            s,
            j,
            total,
            scan_seq(s.subrange(i, j), pending),
            if i < j {
                true
            } else {
                has_pending
            },
        ),
    decreases j - i,
{
    if i < j {
        lemma_parse_through_digits(s, i + 1, j, total, pending * 10 + digit_val(s[i]), true);
        assert(s.subrange(i, j).drop_first() =~= s.subrange(i + 1, j));
        assert(s.subrange(i, j).first() == s[i]);
    } else {
        assert(s.subrange(i, j).len() == 0);
    }
}

/// All-digit inputs parse to exactly the number they write in decimal
/// (or report overflow where that number does not fit in 64 bits).
pub proof fn lemma_parse_all_digits(s: Seq<char>)
    requires
        s.len() > 0,
        forall|k: int| 0 <= k < s.len() ==> is_digit_char(#[trigger] s[k]),
    ensures
        scan_seq(s, 0) <= u64::MAX ==> parse_spec(s) == Ok::<nat, ParseError>(scan_seq(s, 0)),
        scan_seq(s, 0) > u64::MAX ==> parse_spec(s) == Err::<nat, ParseError>(
            ParseError::Overflow,
        ),
{
    lemma_parse_through_digits(s, 0, s.len() as int, 0, 0, false);
    assert(s.subrange(0, s.len() as int) =~= s);
}

/// The decimal representation of any value up to 64 bits parses back to
/// that value.
pub proof fn lemma_parse_dec_rep(n: u64)
    ensures
        parse_spec(dec_rep(n as nat)) == Ok::<nat, ParseError>(n as nat),
{
    crate::digits::lemma_dec_rep_digits(n as nat);
    crate::digits::lemma_scan_dec_rep(n as nat);
    lemma_parse_all_digits(dec_rep(n as nat));
}

/// The canonical serialization of a total split into hours, minutes and
/// seconds: `"{h}h{m}m{s}s"`.
pub open spec fn hms_text(h: nat, m: nat, s: nat) -> Seq<char> {
    dec_rep(h) + seq!['h'] + dec_rep(m) + seq!['m'] + dec_rep(s) + seq!['s']
}

/// Re-parsing a serialized hours/minutes/seconds split always folds back to
/// the one total it stands for, whatever the split: accumulation is purely
/// additive per unit, so every variant of the same total (`"1h0m61s"`,
/// `"0h61m1s"`, ...) parses to that total.
pub proof fn lemma_parse_hms_round_trip(h: u64, m: u64, s: u64)
    requires
        h * 3600 + m * 60 + s <= u64::MAX,
    ensures
        parse_spec(hms_text(h as nat, m as nat, s as nat)) == Ok::<nat, ParseError>(
            (h * 3600 + m * 60 + s) as nat,
        ),
{
    reveal_with_fuel(parse_from, 2);
    let t = hms_text(h as nat, m as nat, s as nat);
    let a = dec_rep(h as nat).len() as int;
    let b = a + 1 + dec_rep(m as nat).len() as int;
    let c = b + 1 + dec_rep(s as nat).len() as int;
    crate::digits::lemma_dec_rep_digits(h as nat);
    crate::digits::lemma_dec_rep_digits(m as nat);
    crate::digits::lemma_dec_rep_digits(s as nat);
    crate::digits::lemma_scan_dec_rep(h as nat);
    crate::digits::lemma_scan_dec_rep(m as nat);
    crate::digits::lemma_scan_dec_rep(s as nat);
    assert(t.len() == c + 1);

    let th = (h * 3600) as nat;
    let thm = (h * 3600 + m * 60) as nat;
    let thms = (h * 3600 + m * 60 + s) as nat;

    assert(t.subrange(0, a) =~= dec_rep(h as nat));
    lemma_parse_through_digits(t, 0, a, 0, 0, false);
    assert(parse_spec(t) == parse_from(t, a, 0, h as nat, true));
    assert(t[a] == 'h');
    assert(parse_from(t, a, 0, h as nat, true) == parse_from(t, a + 1, th, 0, false));

    assert(t.subrange(a + 1, b) =~= dec_rep(m as nat));
    lemma_parse_through_digits(t, a + 1, b, th, 0, false);
    assert(parse_from(t, a + 1, th, 0, false) == parse_from(t, b, th, m as nat, true));
    assert(t[b] == 'm');
    assert(parse_from(t, b, th, m as nat, true) == parse_from(t, b + 1, thm, 0, false));

    assert(t.subrange(b + 1, c) =~= dec_rep(s as nat));
    lemma_parse_through_digits(t, b + 1, c, thm, 0, false);
    assert(parse_from(t, b + 1, thm, 0, false) == parse_from(t, c, thm, s as nat, true));
    assert(t[c] == 's');
    assert(parse_from(t, c, thm, s as nat, true) == parse_from(t, c + 1, thms, 0, false));

    assert(parse_from(t, c + 1, thms, 0, false) == Ok::<nat, ParseError>(thms));
}

} // verus!
