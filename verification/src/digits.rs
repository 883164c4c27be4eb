//! Decimal digit strings: the spec-level decimal representation of a number
//! and verified executable rendering, shared by the duration parser's proofs
//! and the render loop's text output.

use vstd::prelude::*;

verus! {

/// The character for one decimal digit value.
pub open spec fn digit_char(d: nat) -> char {
    if d == 0 {
        '0'
    } else if d == 1 {
        '1'
    } else if d == 2 {
        '2'
    } else if d == 3 {
        '3'
    } else if d == 4 {
        '4'
    } else if d == 5 {
        '5'
    } else if d == 6 {
        '6'
    } else if d == 7 {
        '7'
    } else if d == 8 {
        '8'
    } else {
        '9'
    }
}

/// The decimal representation of `n`, most significant digit first,
/// without leading zeros (`0` is rendered as the single digit `0`).
pub open spec fn dec_rep(n: nat) -> Seq<char>
    decreases n,
{
    if n < 10 {
        seq![digit_char(n)]
    } else {
        dec_rep(n / 10) + seq![digit_char(n % 10)]
    }
}

pub open spec fn is_digit_char(c: char) -> bool {
    c == '0' || c == '1' || c == '2' || c == '3' || c == '4' || c == '5' || c == '6' || c == '7'
        || c == '8' || c == '9'
}

/// The value of one decimal digit character.
pub open spec fn digit_val(c: char) -> nat {
    if c == '0' {
        0
    } else if c == '1' {
        1
    } else if c == '2' {
        2
    } else if c == '3' {
        3
    } else if c == '4' {
        4
    } else if c == '5' {
        5
    } else if c == '6' {
        6
    } else if c == '7' {
        7
    } else if c == '8' {
        8
    } else {
        9
    }
}

/// The value of a digit string read left to right on top of an accumulator,
/// as a scanning parser does: each digit shifts the accumulator one decimal
/// place and adds its own value.
pub open spec fn scan_seq(ds: Seq<char>, acc: nat) -> nat
    decreases ds.len(),
{
    if ds.len() == 0 {
        acc
    } else {
        scan_seq(ds.drop_first(), acc * 10 + digit_val(ds.first()))
    }
}

/// A left-to-right scan can also be peeled from the right: the last digit
/// contributes its value to a result ten times the scan of the rest.
pub proof fn lemma_scan_seq_last(ds: Seq<char>, acc: nat)
    requires
        ds.len() > 0,
    ensures
        scan_seq(ds, acc) == scan_seq(ds.drop_last(), acc) * 10 + digit_val(ds.last()),
    decreases ds.len(),
{
    reveal_with_fuel(scan_seq, 3);
    if ds.len() == 1 {
        assert(ds.drop_first().len() == 0);
        assert(ds.drop_last().len() == 0);
        assert(ds.first() == ds.last());
    } else {
        lemma_scan_seq_last(ds.drop_first(), acc * 10 + digit_val(ds.first()));
        assert(ds.drop_first().drop_last() =~= ds.drop_last().drop_first());
        assert(ds.drop_first().last() == ds.last());
        assert(ds.drop_last().first() == ds.first());
    }
}

/// Every character of a decimal representation is a digit.
pub proof fn lemma_dec_rep_digits(n: nat)
    ensures
        forall|k: int| 0 <= k < dec_rep(n).len() ==> is_digit_char(#[trigger] dec_rep(n)[k]),
    decreases n,
{
    reveal_with_fuel(dec_rep, 2);
    if n < 10 {
        assert(dec_rep(n) =~= seq![digit_char(n)]);
        assert(is_digit_char(digit_char(n)));
    } else {
        lemma_dec_rep_digits(n / 10);
        assert(forall|k: int|
            0 <= k < dec_rep(n).len() ==> #[trigger] dec_rep(n)[k] == (if k < dec_rep(n / 10).len() {
                dec_rep(n / 10)[k]
            } else {
                digit_char(n % 10)
            }));
        assert(is_digit_char(digit_char(n % 10)));
    }
}

/// Scanning the decimal representation of `n` recovers `n`.
pub proof fn lemma_scan_dec_rep(n: nat)
    ensures
        scan_seq(dec_rep(n), 0) == n,
    decreases n,
{
    reveal_with_fuel(scan_seq, 3);
    reveal_with_fuel(dec_rep, 2);
    if n < 10 {
        assert(dec_rep(n) =~= seq![digit_char(n)]);
        assert(dec_rep(n).drop_first() =~= Seq::<char>::empty());
        assert(digit_val(digit_char(n)) == n);
    } else {
        lemma_scan_dec_rep(n / 10);
        lemma_scan_seq_last(dec_rep(n), 0);
        assert(dec_rep(n).drop_last() =~= dec_rep(n / 10));
        assert(dec_rep(n).last() == digit_char(n % 10));
        assert(digit_val(digit_char(n % 10)) == n % 10);
        assert(scan_seq(dec_rep(n / 10), 0) * 10 + n % 10 == n);
    }
}

/// One decimal digit as a string slice.
fn digit_str(d: u64) -> (r: &'static str)
    requires
        d < 10,
    ensures
        r@ =~= seq![digit_char(d as nat)],
{
    proof {
        reveal_strlit("0");
        reveal_strlit("1");
        reveal_strlit("2");
        reveal_strlit("3");
        reveal_strlit("4");
        reveal_strlit("5");
        reveal_strlit("6");
        reveal_strlit("7");
        reveal_strlit("8");
        reveal_strlit("9");
    }
    match d {
        0 => "0",
        1 => "1",
        2 => "2",
        3 => "3",
        4 => "4",
        5 => "5",
        6 => "6",
        7 => "7",
        8 => "8",
        _ => "9",
    }
}

/// Render `n` in decimal.
pub fn u64_string(n: u64) -> (r: String)
    ensures
        r@ =~= dec_rep(n as nat),
    decreases n,
{
    if n < 10 {
        digit_str(n).to_owned()
    } else {
        let mut s = u64_string(n / 10);
        s.append(digit_str(n % 10));
        s
    }
}

} // verus!
