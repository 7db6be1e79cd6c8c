//! The clock field: a twelve-hour wall-clock string, formatted from plain
//! hour, minute and second values.

use vstd::prelude::*;

use crate::ansi::esc;
use crate::ansi::no_esc;
use crate::chars::chars_to_string;
use crate::color::digit;
use crate::color::digit_char;

verus! {

/// Two decimal digits, zero-padded.
pub open spec fn two_digits(n: nat) -> Seq<char> {
    seq![digit_char(n / 10), digit_char(n % 10)]
}

/// The twelve-hour form of an hour: 0 and 12 both read 12, afternoon
/// hours drop twelve.
pub open spec fn hour12(h: nat) -> nat {
    if h == 0 {
        12
    } else if h > 12 {
        (h - 12) as nat
    } else {
        h
    }
}

/// The clock string: `HH:MM:SS` with the twelve-hour hour, a space, and
/// `AM` before noon, `PM` at and after it.
pub open spec fn clock_seq(h: nat, m: nat, s: nat) -> Seq<char> {
    two_digits(hour12(h)) + seq![':'] + two_digits(m) + seq![':'] + two_digits(s) + seq![' ']
        + (if h < 12 {
        seq!['A']
    } else {
        seq!['P']
    }) + seq!['M']
}

/// The clock string is eleven scalars long and free of escapes.
pub proof fn lemma_clock_seq(h: nat, m: nat, s: nat)
    ensures
        clock_seq(h, m, s).len() == 11,
        no_esc(clock_seq(h, m, s)),
{
    assert(forall|i: int|
        0 <= i < clock_seq(h, m, s).len() ==> clock_seq(h, m, s)[i] != esc());
}

/// Formats the clock string for the given wall-clock reading.
pub fn clock_text(h: u8, m: u8, s: u8) -> (r: String)
    requires
        h < 24,
        m < 60,
        s < 60,
    ensures
        r@ == clock_seq(h as nat, m as nat, s as nat),
{
    let h12: u8 = if h == 0 {
        12
    } else if h > 12 {
        h - 12
    } else {
        h
    };
    let mut v: Vec<char> = Vec::new();
    v.push(digit(h12 / 10));
    v.push(digit(h12 % 10));
    v.push(':');
    v.push(digit(m / 10));
    v.push(digit(m % 10));
    v.push(':');
    v.push(digit(s / 10));
    v.push(digit(s % 10));
    v.push(' ');
    v.push(if h < 12 {
        'A'
    } else {
        'P'
    });
    v.push('M');
    proof {
        assert(v@ =~= clock_seq(h as nat, m as nat, s as nat));
    }
    chars_to_string(&v)
}

/// Relies on chrono's `Local::now` and the `Timelike` accessors: the hour
/// runs 0 to 23, the minute and the second 0 to 59. Which reading comes
/// back depends on the wall clock, so nothing more is promised.
#[verifier::external_body]
pub(crate) fn now_hms() -> (r: (u8, u8, u8))
    ensures
        r.0 < 24,
        r.1 < 60,
        r.2 < 60,
{
    let local: chrono::DateTime<chrono::Local> = chrono::Local::now();
    let h = chrono::Timelike::hour(&local);
    let m = chrono::Timelike::minute(&local);
    let s = chrono::Timelike::second(&local);
    (h as u8, m as u8, s as u8)
}

/// The formatted local time, eleven scalars, as the clock field shows it.
pub fn time() -> (r: String)
    ensures
        r@.len() == 11,
        no_esc(r@),
{
    let (h, m, s) = now_hms();
    let r = clock_text(h, m, s);
    proof {
        lemma_clock_seq(h as nat, m as nat, s as nat);
    }
    r
}

} // verus!
