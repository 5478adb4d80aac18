//! Times as whole microseconds, and how the subtitle script writes them.

use crate::text::{decimal, push_char, push_decimal, push_two_digits, two_digits};
use vstd::prelude::*;

verus! {

/// A time of `t` microseconds as a subtitle script writes it: hours, two
/// digits of minutes, two of seconds and two of hundredths, as in
/// `0:01:02.50`. What lies below a hundredth of a second is cut off.
pub open spec fn ass_time_spec(t: nat) -> Seq<char> {
    let cs = t / 10_000;
    decimal(cs / 360_000) + seq![':'] + two_digits(cs / 6_000 % 60) + seq![':'] + two_digits(
        cs / 100 % 60,
    ) + seq!['.'] + two_digits(cs % 100)
}

/// Appends the time of `t` microseconds in the form of a subtitle script.
pub fn push_ass_time(out: &mut String, t: u64)
    ensures
        final(out)@ == old(out)@ + ass_time_spec(t as nat),
{
    let cs = t / 10_000;
    push_decimal(out, cs / 360_000);
    push_char(out, ':');
    push_two_digits(out, cs / 6_000 % 60);
    push_char(out, ':');
    push_two_digits(out, cs / 100 % 60);
    push_char(out, '.');
    push_two_digits(out, cs % 100);
    assert(out@ =~= old(out)@ + ass_time_spec(t as nat));
}

/// The time of `t` microseconds in the form of a subtitle script.
pub fn ass_time(t: u64) -> (s: String)
    ensures
        s@ == ass_time_spec(t as nat),
{
    let mut s = String::new();
    push_ass_time(&mut s, t);
    assert(s@ =~= ass_time_spec(t as nat));
    s
}

} // verus!
