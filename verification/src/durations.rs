//! Durations as short texts.
//!
//! A duration is whole seconds and nanoseconds. Its texts are those of the double
//! that is nearest to it, which matters only where it lies half-way between two
//! texts. One that is too long for a double to tell its nanoseconds apart has the
//! text of its exact length.
use crate::text;
use crate::text::{concat, concat3};
use vstd::prelude::*;

verus! {

/// Nanoseconds of a second.
pub const SECOND: u32 = 1_000_000_000;

/// For each number of tenths below ten seconds a digit: one where the double nearest
/// to that many tenths and a half lies above the half, or on it with the number odd.
pub const HALVES: &'static str =
    "1000111100100101011000011001110001100111010010110101001011010100101101010010110111000111001100011100";

/// Whether `t` tenths and a half are rounded up.
pub open spec fn half_rounds_up(t: int) -> bool {
    0 <= t < HALVES@.len() && HALVES@[t] == '1'
}

fn is_half_rounded_up(t: u64) -> (res: bool)
    ensures
        res == half_rounds_up(t as int),
{
    let digits = text::to_chars(HALVES);
    t < digits.len() as u64 && digits[t as usize] == '1'
}

/// A duration below ten seconds in tenths of a second, to the nearest.
pub open spec fn tenths(secs: int, nanos: int) -> int {
    let t = 10 * secs + nanos / 100_000_000;
    let rest = nanos % 100_000_000;
    if rest > 50_000_000 || (rest == 50_000_000 && half_rounds_up(t)) {
        t + 1
    } else {
        t
    }
}

/// A duration in whole seconds, to the nearest; a half goes to the even one.
pub open spec fn whole_seconds(secs: int, nanos: int) -> int {
    if nanos > 500_000_000 || (nanos == 500_000_000 && secs % 2 == 1) {
        secs + 1
    } else {
        secs
    }
}

/// A duration in whole seconds, to the nearest; a half goes to the even one.
pub fn rounded_seconds(secs: u64, nanos: u32) -> (res: u64)
    requires
        secs < u64::MAX,
    ensures
        res == whole_seconds(secs as int, nanos as int),
{
    if nanos > 500_000_000 || (nanos == 500_000_000 && secs % 2 == 1) {
        secs + 1
    } else {
        secs
    }
}

/// The text of a duration below a minute: a decimal below ten seconds, none from
/// there on.
pub open spec fn seconds_text(secs: int, nanos: int) -> Seq<char> {
    if secs < 10 {
        let t = tenths(secs, nanos);
        text::digits((t / 10) as nat) + "."@ + text::digits((t % 10) as nat) + "s"@
    } else {
        text::digits(whole_seconds(secs, nanos) as nat) + "s"@
    }
}

/// The text of a duration below a minute.
pub fn format_seconds(secs: u64, nanos: u32) -> (res: String)
    requires
        secs < 60,
        nanos < SECOND,
    ensures
        res@ == seconds_text(secs as int, nanos as int),
{
    if secs < 10 {
        let t: u64 = 10 * secs + (nanos / 100_000_000) as u64;
        let rest: u32 = nanos % 100_000_000;
        let rounded: u64 = if rest > 50_000_000 || (rest == 50_000_000 && is_half_rounded_up(t)) {
            t + 1
        } else {
            t
        };
        let whole = text::decimal(rounded / 10);
        let tenth = text::decimal(rounded % 10);
        let number = concat3(whole.as_str(), ".", tenth.as_str());
        concat(number.as_str(), "s")
    } else {
        let n = text::decimal(rounded_seconds(secs, nanos));
        concat(n.as_str(), "s")
    }
}

/// Minutes and seconds, the seconds in two digits.
pub open spec fn minutes_text(mins: nat, secs: nat) -> Seq<char> {
    text::digits(mins) + "m"@ + text::padded_left(text::digits(secs), '0', 2) + "s"@
}

/// Minutes and seconds, the seconds in two digits.
pub fn format_minutes(mins: u64, secs: u64) -> (res: String)
    ensures
        res@ == minutes_text(mins as nat, secs as nat),
{
    let m = text::decimal(mins);
    let s = text::decimal(secs);
    let padded = text::pad_left(s.as_str(), '0', 2);
    let head = concat3(m.as_str(), "m", padded.as_str());
    concat(head.as_str(), "s")
}

/// Tenths of a second are the nearest to a duration.
pub proof fn law_tenths_are_the_nearest(secs: int, nanos: int)
    requires
        0 <= secs,
        0 <= nanos < 1_000_000_000,
    ensures
        ({
            let exact = 1_000_000_000 * secs + nanos;
            let near = 100_000_000 * tenths(secs, nanos);
            -50_000_000 <= near - exact <= 50_000_000
        }),
{
}

/// Whole seconds are the nearest to a duration, and even where two are as near.
pub proof fn law_whole_seconds_are_the_nearest(secs: int, nanos: int)
    requires
        0 <= secs,
        0 <= nanos < 1_000_000_000,
    ensures
        ({
            let exact = 1_000_000_000 * secs + nanos;
            let near = 1_000_000_000 * whole_seconds(secs, nanos);
            &&& -500_000_000 <= near - exact <= 500_000_000
            &&& near - exact == 500_000_000 || near - exact == -500_000_000 ==> whole_seconds(
                secs,
                nanos,
            ) % 2 == 0
        }),
{
}

/// A duration below ten seconds is written in tenths, a longer one in whole seconds;
/// minutes are followed by two digits of seconds.
pub proof fn law_durations_are_written_in_their_units(secs: int, nanos: int, mins: nat, rest: nat)
    requires
        0 <= secs,
        0 <= nanos < 1_000_000_000,
        rest < 60,
    ensures
        secs < 10 ==> exists|t: int|
            t == tenths(secs, nanos) && seconds_text(secs, nanos) == #[trigger] text::digits(
                (t / 10) as nat,
            ) + "."@ + text::digits((t % 10) as nat) + "s"@,
        secs >= 10 ==> seconds_text(secs, nanos) == text::digits(whole_seconds(secs, nanos) as nat)
            + "s"@,
        rest < 10 ==> minutes_text(mins, rest) == text::digits(mins) + "m"@ + (seq!['0']
            + text::digits(rest)) + "s"@,
        rest >= 10 ==> minutes_text(mins, rest) == text::digits(mins) + "m"@ + text::digits(rest)
            + "s"@,
{
    let t = tenths(secs, nanos);
    assert(seconds_text(secs, nanos) == seconds_text(secs, nanos) && text::digits((t / 10) as nat)
        == text::digits((t / 10) as nat));
    reveal_with_fuel(text::digits, 3);
    let d = text::digits(rest);
    text::law_padding_keeps_the_text(d, '0', 2);
    let p = text::padded_left(d, '0', 2);
    if rest < 10 {
        assert(d.len() == 1);
        assert(p =~= seq!['0'] + d) by {
            assert(p.skip(1)[0] == p[1]);
        }
    } else {
        assert(d.len() == 2);
    }
}

} // verus!
