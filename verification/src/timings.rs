//! The text form of a list of recorded timestamps: decimal seconds, each
//! followed by one space.
//!
//! A timestamp is a whole number of microseconds. Its text is the number of
//! seconds, then, unless the rest is zero, a point and up to six digits
//! without trailing zeros. Reading accepts more: a `+` in front, no digits
//! before the point or none behind it, and more than six digits behind it,
//! of which those beyond the sixth are ignored. A sign `-`, an exponent and
//! the words for infinity and not-a-number are refused: a timestamp is a
//! finite time that is not negative.

use crate::text::{chars_of, decimal, digit_char, push_char, push_decimal, push_digit};
use vstd::prelude::*;

verus! {

/// Whether `c` is a decimal digit.
pub open spec fn is_digit(c: char) -> bool {
    '0' <= c && c <= '9'
}

/// The value of the decimal digit `c`.
pub open spec fn digit_value(c: char) -> nat
    recommends
        is_digit(c),
{
    (c as u32 - '0' as u32) as nat
}

/// The position of the first character at or after `from` that is no digit,
/// or the length of `s` when only digits follow.
pub open spec fn digits_end(s: Seq<char>, from: int) -> int
    decreases s.len() - from,
{
    if from < 0 || from >= s.len() {
        s.len() as int
    } else if is_digit(s[from]) {
        digits_end(s, from + 1)
    } else {
        from
    }
}

/// The number that the digits of `s` write.
pub open spec fn digits_value(s: Seq<char>) -> nat
    decreases s.len(),
{
    if s.len() == 0 {
        0
    } else {
        digits_value(s.drop_last()) * 10 + digit_value(s.last())
    }
}

/// Ten to the power of `n`.
pub open spec fn pow10(n: nat) -> nat
    decreases n,
{
    if n == 0 {
        1
    } else {
        10 * pow10((n - 1) as nat)
    }
}

/// The value of the digits of `s` from `from` on as a fraction of `width`
/// places: the first digit counts `10^(width-1)`, and digits beyond `width`
/// do not count.
pub open spec fn frac_value(s: Seq<char>, from: int, width: nat) -> nat
    decreases width,
{
    if width == 0 || from < 0 || from >= s.len() {
        0
    } else {
        digit_value(s[from]) * pow10((width - 1) as nat) + frac_value(
            s,
            from + 1,
            (width - 1) as nat,
        )
    }
}

/// Where the digits of a token begin: behind a leading `+`, if it has one.
pub open spec fn digits_start(tok: Seq<char>) -> int {
    if tok.len() > 0 && tok[0] == '+' {
        1
    } else {
        0
    }
}

/// The timestamp that a token writes, in microseconds; `None` for a token
/// that is no decimal number. A number is a run of digits, or a run of
/// digits, a point and another run of digits, where one of the two runs may
/// be empty but not both; a `+` may stand in front.
pub open spec fn parse_seconds_spec(tok: Seq<char>) -> Option<nat> {
    let start = digits_start(tok);
    let i = digits_end(tok, start);
    if i == tok.len() {
        if i > start {
            Some(digits_value(tok.subrange(start, i)) * 1_000_000)
        } else {
            None
        }
    } else if tok[i] == '.' && digits_end(tok, i + 1) == tok.len() && (i > start || i + 1
        < tok.len()) {
        Some(digits_value(tok.subrange(start, i)) * 1_000_000 + frac_value(tok, i + 1, 6))
    } else {
        None
    }
}

/// The timestamp that a token writes, if it is a decimal number whose
/// microseconds fit 64 bits.
pub open spec fn token_value(tok: Seq<char>) -> Option<u64> {
    match parse_seconds_spec(tok) {
        Some(v) => if v <= u64::MAX {
            Some(v as u64)
        } else {
            None
        },
        None => None,
    }
}

/// The pieces of `s` between the occurrences of `sep`: one more than there
/// are occurrences.
pub open spec fn split_on(s: Seq<char>, sep: char) -> Seq<Seq<char>>
    decreases s.len(),
{
    if s.len() == 0 {
        seq![Seq::empty()]
    } else {
        let before = split_on(s.drop_last(), sep);
        if s.last() == sep {
            before.push(Seq::empty())
        } else {
            before.update(before.len() - 1, before.last().push(s.last()))
        }
    }
}

/// The position of the first token at or after `from` that is empty or
/// writes no timestamp, or the number of tokens.
pub open spec fn first_stop(toks: Seq<Seq<char>>, from: int) -> int
    decreases toks.len() - from,
{
    if from < 0 || from >= toks.len() {
        toks.len() as int
    } else if toks[from].len() == 0 || token_value(toks[from]) is None {
        from
    } else {
        first_stop(toks, from + 1)
    }
}

/// What reading a timestamp text gives.
pub ghost struct TimingScan {
    /// The timestamps read, in order.
    pub stamps: Seq<u64>,
    /// The position of the token that is no timestamp, if reading ended on
    /// one.
    pub bad_token: Option<nat>,
}

/// Reading a timestamp text: it is split at each space, and the tokens are
/// read in order up to the first empty one. A token that writes no
/// timestamp ends the reading as a failure; the timestamps before it stay.
pub open spec fn parse_timings_spec(text: Seq<char>) -> TimingScan {
    let toks = split_on(text, ' ');
    let k = first_stop(toks, 0);
    TimingScan {
        stamps: Seq::new(k as nat, |i: int| token_value(toks[i])->0),
        bad_token: if k < toks.len() && toks[k].len() > 0 {
            Some(k as nat)
        } else {
            None
        },
    }
}

/// The digits of `f` as a fraction of `width` places, without trailing
/// zeros.
pub open spec fn frac_text(f: nat, width: nat) -> Seq<char>
    decreases width,
{
    if f == 0 || width == 0 {
        Seq::empty()
    } else {
        let unit = pow10((width - 1) as nat);
        seq![digit_char(f / unit % 10)] + frac_text(f % unit, (width - 1) as nat)
    }
}

/// The text of a timestamp of `t` microseconds.
pub open spec fn render_seconds(t: nat) -> Seq<char> {
    let f = t % 1_000_000;
    decimal(t / 1_000_000) + if f == 0 {
        Seq::empty()
    } else {
        seq!['.'] + frac_text(f, 6)
    }
}

/// The text of a list of timestamps: each one followed by a space.
pub open spec fn render_timings(ts: Seq<u64>) -> Seq<char>
    decreases ts.len(),
{
    if ts.len() == 0 {
        Seq::empty()
    } else {
        render_timings(ts.drop_last()) + render_seconds(ts.last() as nat) + seq![' ']
    }
}

/// Splits `text` at each space.
pub fn split_spaces(text: &str) -> (toks: Vec<String>)
    ensures
        toks.deep_view() == split_on(text@, ' '),
{
    let mut toks: Vec<String> = Vec::new();
    toks.push(String::new());
    assert(toks.deep_view() =~= seq![Seq::<char>::empty()]);
    for c in it: text.chars()
        invariant
            it.seq() == text@,
            toks.len() > 0,
            toks.deep_view() == split_on(it.seq().take(it.index() as int), ' '),
    {
        let ghost seen = it.seq().take(it.index() as int);
        let ghost next = it.seq().take(it.index() + 1);
        let ghost before = toks.deep_view();
        assert(next.drop_last() =~= seen);
        assert(next.last() == c);
        if c == ' ' {
            toks.push(String::new());
            assert(toks.deep_view() =~= before.push(Seq::<char>::empty()));
        } else {
            let last = toks.len() - 1;
            push_char(&mut toks[last], c);
            assert(toks.deep_view() =~= before.update(
                before.len() - 1,
                before.last().push(c),
            ));
        }
    }
    assert(text@.take(text@.len() as int) =~= text@);
    toks
}

/// The largest number of whole seconds whose microseconds fit 64 bits.
pub const MAX_SECONDS: u64 = 18_446_744_073_709;

/// Where a run of digits ends: behind digits only, and before a character
/// that is no digit, if any is left.
pub proof fn lemma_digits_end(s: Seq<char>, from: int)
    requires
        0 <= from <= s.len(),
    ensures
        from <= digits_end(s, from) <= s.len(),
        forall|j: int| from <= j < digits_end(s, from) ==> is_digit(#[trigger] s[j]),
        digits_end(s, from) < s.len() ==> !is_digit(s[digits_end(s, from)]),
    decreases s.len() - from,
{
    if from < s.len() && is_digit(s[from]) {
        lemma_digits_end(s, from + 1);
    }
}

/// A longer run of digits writes no smaller number.
pub proof fn lemma_digits_value_grows(s: Seq<char>, i: int, j: int)
    requires
        0 <= i <= j <= s.len(),
    ensures
        digits_value(s.subrange(0, i)) <= digits_value(s.subrange(0, j)),
    decreases j - i,
{
    if i < j {
        lemma_digits_value_grows(s, i, j - 1);
        assert(s.subrange(0, j).drop_last() =~= s.subrange(0, j - 1));
    }
}

/// A longer run of digits writes no smaller number, wherever the run begins.
proof fn lemma_digits_value_grows_from(s: Seq<char>, start: int, i: int, j: int)
    requires
        0 <= start <= i <= j <= s.len(),
    ensures
        digits_value(s.subrange(start, i)) <= digits_value(s.subrange(start, j)),
    decreases j - i,
{
    if i < j {
        lemma_digits_value_grows_from(s, start, i, j - 1);
        assert(s.subrange(start, j).drop_last() =~= s.subrange(start, j - 1));
    }
}

proof fn lemma_pow10_values()
    ensures
        pow10(0) == 1,
        pow10(1) == 10,
        pow10(2) == 100,
        pow10(3) == 1_000,
        pow10(4) == 10_000,
        pow10(5) == 100_000,
        pow10(6) == 1_000_000,
{
    reveal_with_fuel(pow10, 7);
}

/// Reads one token as a timestamp in microseconds.
pub fn parse_seconds(tok: &str) -> (r: Option<u64>)
    ensures
        r == token_value(tok@),
{
    let cs = chars_of(tok);
    let n = cs.len();
    let start: usize = if n > 0 && cs[0] == '+' {
        1
    } else {
        0
    };
    let mut i: usize = start;
    let mut whole: u64 = 0;
    proof {
        lemma_digits_end(cs@, start as int);
        assert(cs@.subrange(start as int, start as int) =~= Seq::<char>::empty());
    }
    while i < n && '0' <= cs[i] && cs[i] <= '9'
        invariant
            start <= i <= n,
            n == cs@.len(),
            cs@ == tok@,
            start == digits_start(cs@),
            digits_end(cs@, start as int) == digits_end(cs@, i as int),
            whole == digits_value(cs@.subrange(start as int, i as int)),
            whole <= MAX_SECONDS,
        decreases n - i,
    {
        let d: u64 = (cs[i] as u32 - '0' as u32) as u64;
        proof {
            assert(cs@.subrange(start as int, i + 1).drop_last() =~= cs@.subrange(
                start as int,
                i as int,
            ));
            lemma_digits_end(cs@, i + 1);
        }
        if whole > (MAX_SECONDS - d) / 10 {
            proof {
                let e = digits_end(cs@, start as int);
                lemma_digits_value_grows_from(cs@, start as int, i + 1, e);
            }
            return None;
        }
        whole = whole * 10 + d;
        i += 1;
    }
    proof {
        lemma_digits_end(cs@, i as int);
    }
    if i == n {
        if i == start {
            return None;
        }
        return Some(whole * 1_000_000);
    }
    if cs[i] != '.' {
        return None;
    }
    let mut j: usize = i + 1;
    let mut frac: u64 = 0;
    let mut scale: u64 = 1_000_000;
    let ghost mut width: nat = 6;
    proof {
        lemma_pow10_values();
        lemma_digits_end(cs@, i + 1);
    }
    while j < n && '0' <= cs[j] && cs[j] <= '9'
        invariant
            i < j <= n,
            n == cs@.len(),
            digits_end(cs@, i + 1) == digits_end(cs@, j as int),
            width <= 6,
            scale == pow10(width),
            1 <= scale,
            frac + scale <= 1_000_000,
            frac_value(cs@, i + 1, 6) == frac + frac_value(cs@, j as int, width),
        decreases n - j,
    {
        proof {
            lemma_digits_end(cs@, j + 1);
        }
        if scale > 1 {
            let d: u64 = (cs[j] as u32 - '0' as u32) as u64;
            let ghost old_scale = scale;
            proof {
                assert(width > 0);
                assert(pow10(width) == 10 * pow10((width - 1) as nat));
            }
            scale = scale / 10;
            assert(d * scale <= 9 * scale) by (nonlinear_arith)
                requires
                    d <= 9,
                    scale >= 0,
            ;
            frac = frac + d * scale;
            proof {
                width = (width - 1) as nat;
            }
        } else {
            proof {
                assert(width == 0) by {
                    if width > 0 {
                        assert(pow10(width) == 10 * pow10((width - 1) as nat));
                        lemma_pow10_positive((width - 1) as nat);
                    }
                }
            }
        }
        j += 1;
    }
    proof {
        lemma_digits_end(cs@, j as int);
    }
    if j < n {
        return None;
    }
    if i == start && j == i + 1 {
        return None;
    }
    if whole == MAX_SECONDS && frac > u64::MAX - MAX_SECONDS * 1_000_000 {
        return None;
    }
    Some(whole * 1_000_000 + frac)
}

proof fn lemma_pow10_positive(n: nat)
    ensures
        pow10(n) >= 1,
    decreases n,
{
    if n > 0 {
        lemma_pow10_positive((n - 1) as nat);
    }
}

/// Appends the text of a timestamp of `t` microseconds.
pub fn push_seconds(out: &mut String, t: u64)
    ensures
        final(out)@ == old(out)@ + render_seconds(t as nat),
{
    push_decimal(out, t / 1_000_000);
    let mut f: u64 = t % 1_000_000;
    if f != 0 {
        push_char(out, '.');
        let ghost start = out@;
        let ghost f0 = f;
        let mut scale: u64 = 1_000_000;
        let ghost mut width: nat = 6;
        proof {
            lemma_pow10_values();
        }
        while f != 0
            invariant
                width <= 6,
                scale == pow10(width),
                f < scale,
                out@ + frac_text(f as nat, width) == start + frac_text(f0 as nat, 6),
            decreases width,
        {
            proof {
                assert(width > 0) by {
                    if width == 0 {
                        assert(pow10(0) == 1);
                    }
                }
                assert(pow10(width) == 10 * pow10((width - 1) as nat));
            }
            let ghost before = out@;
            let ghost f_before = f;
            scale = scale / 10;
            push_digit(out, (f / scale % 10) as u8);
            f = f % scale;
            proof {
                assert(frac_text(f_before as nat, width) =~= seq![
                    digit_char((f_before / scale % 10) as nat),
                ] + frac_text(f as nat, (width - 1) as nat));
                assert(out@ + frac_text(f as nat, (width - 1) as nat) =~= before + frac_text(
                    f_before as nat,
                    width,
                ));
                width = (width - 1) as nat;
            }
        }
        assert(out@ =~= old(out)@ + render_seconds(t as nat));
    } else {
        assert(out@ =~= old(out)@ + render_seconds(t as nat));
    }
}

/// The text of a list of timestamps: each one followed by a space.
pub fn timings_text(stamps: &Vec<u64>) -> (text: String)
    ensures
        text@ == render_timings(stamps@),
{
    let mut text = String::new();
    let mut i: usize = 0;
    while i < stamps.len()
        invariant
            i <= stamps.len(),
            text@ == render_timings(stamps@.take(i as int)),
        decreases stamps.len() - i,
    {
        proof {
            assert(stamps@.take(i + 1).drop_last() =~= stamps@.take(i as int));
        }
        push_seconds(&mut text, stamps[i]);
        push_char(&mut text, ' ');
        i += 1;
        assert(text@ =~= render_timings(stamps@.take(i as int)));
    }
    assert(stamps@.take(stamps@.len() as int) =~= stamps@);
    text
}

/// What reading a timestamp text gave.
pub struct ParsedTimings {
    /// The timestamps read, in order.
    pub stamps: Vec<u64>,
    /// The position of the token that is no timestamp, if reading ended on
    /// one.
    pub bad_token: Option<usize>,
}

impl View for ParsedTimings {
    type V = TimingScan;

    open spec fn view(&self) -> TimingScan {
        TimingScan {
            stamps: self.stamps@,
            bad_token: match self.bad_token {
                Some(k) => Some(k as nat),
                None => None,
            },
        }
    }
}

/// Reads a timestamp text.
pub fn parse_timings(text: &str) -> (r: ParsedTimings)
    ensures
        r@ == parse_timings_spec(text@),
{
    let toks = split_spaces(text);
    let ghost tv = toks.deep_view();
    let mut stamps: Vec<u64> = Vec::new();
    let mut k: usize = 0;
    while k < toks.len()
        invariant
            k <= toks.len(),
            tv == toks.deep_view(),
            tv == split_on(text@, ' '),
            first_stop(tv, 0) == first_stop(tv, k as int),
            stamps@.len() == k,
            forall|i: int| 0 <= i < k ==> token_value(tv[i]) == Some(#[trigger] stamps@[i]),
        decreases toks.len() - k,
    {
        if toks[k].as_str().unicode_len() == 0 {
            assert(stamps@ =~= parse_timings_spec(text@).stamps);
            return ParsedTimings { stamps, bad_token: None };
        }
        match parse_seconds(toks[k].as_str()) {
            Some(t) => {
                stamps.push(t);
            },
            None => {
                assert(stamps@ =~= parse_timings_spec(text@).stamps);
                return ParsedTimings { stamps, bad_token: Some(k) };
            },
        }
        k += 1;
    }
    assert(stamps@ =~= parse_timings_spec(text@).stamps);
    ParsedTimings { stamps, bad_token: None }
}

proof fn lemma_digits_until(s: Seq<char>, from: int, k: int)
    requires
        0 <= from <= k <= s.len(),
        forall|j: int| from <= j < k ==> is_digit(#[trigger] s[j]),
        k < s.len() ==> !is_digit(s[k]),
    ensures
        digits_end(s, from) == k,
    decreases k - from,
{
    if from < k {
        lemma_digits_until(s, from + 1, k);
    }
}

proof fn lemma_decimal(n: nat)
    ensures
        decimal(n).len() >= 1,
        forall|j: int| 0 <= j < decimal(n).len() ==> is_digit(#[trigger] decimal(n)[j]),
        digits_value(decimal(n)) == n,
    decreases n,
{
    if n < 10 {
        assert(decimal(n).drop_last() =~= Seq::<char>::empty());
        assert(digits_value(decimal(n).drop_last()) == 0);
    } else {
        lemma_decimal(n / 10);
        assert(decimal(n).drop_last() =~= decimal(n / 10));
    }
}

proof fn lemma_frac_text(prefix: Seq<char>, f: nat, width: nat)
    requires
        f < pow10(width),
    ensures
        frac_text(f, width).len() <= width,
        f > 0 ==> frac_text(f, width).len() > 0,
        forall|j: int|
            0 <= j < frac_text(f, width).len() ==> is_digit(#[trigger] frac_text(f, width)[j]),
        frac_value(prefix + frac_text(f, width), prefix.len() as int, width) == f,
    decreases width,
{
    if f == 0 || width == 0 {
        assert(prefix + frac_text(f, width) =~= prefix);
    } else {
        let unit = pow10((width - 1) as nat);
        lemma_pow10_positive((width - 1) as nat);
        let d = f / unit;
        let rest = f % unit;
        assert(d < 10 && f == d * unit + rest && rest < unit) by (nonlinear_arith)
            requires
                f < 10 * unit,
                unit >= 1,
                d == f / unit,
                rest == f % unit,
        ;
        let longer = prefix.push(digit_char(d));
        lemma_frac_text(longer, rest, (width - 1) as nat);
        let s = prefix + frac_text(f, width);
        assert(s =~= longer + frac_text(rest, (width - 1) as nat));
        assert(s[prefix.len() as int] == digit_char(d));
        assert(digit_value(digit_char(d)) == d);
    }
}

/// The text of a timestamp is a token that writes the timestamp, and it
/// holds no space.
pub proof fn lemma_seconds_round_trip(t: u64)
    ensures
        token_value(render_seconds(t as nat)) == Some(t),
        render_seconds(t as nat).len() > 0,
        forall|j: int|
            0 <= j < render_seconds(t as nat).len() ==> #[trigger] render_seconds(t as nat)[j]
                != ' ',
{
    let whole = (t as nat) / 1_000_000;
    let f = (t as nat) % 1_000_000;
    let d = decimal(whole);
    let tok = render_seconds(t as nat);
    lemma_decimal(whole);
    lemma_pow10_values();
    assert(is_digit(d[0]));
    if f == 0 {
        assert(tok =~= d);
        assert(digits_start(tok) == 0);
        lemma_digits_until(tok, 0, tok.len() as int);
        assert(tok.subrange(0, tok.len() as int) =~= tok);
    } else {
        let point = d.push('.');
        lemma_frac_text(point, f, 6);
        let ft = frac_text(f, 6);
        assert(tok =~= point + ft);
        assert forall|j: int| 0 <= j < d.len() implies is_digit(#[trigger] tok[j]) by {
            assert(tok[j] == d[j]);
        }
        assert(tok[d.len() as int] == '.');
        assert(tok[0] == d[0]);
        assert(digits_start(tok) == 0);
        lemma_digits_until(tok, 0, d.len() as int);
        assert forall|j: int| d.len() + 1 <= j < tok.len() implies is_digit(#[trigger] tok[j]) by {
            assert(tok[j] == ft[j - d.len() - 1]);
        }
        lemma_digits_until(tok, d.len() as int + 1, tok.len() as int);
        assert(tok.subrange(0, d.len() as int) =~= d);
        assert forall|j: int| 0 <= j < tok.len() implies #[trigger] tok[j] != ' ' by {
            if j < d.len() {
                assert(is_digit(tok[j]));
            } else if j > d.len() {
                assert(is_digit(tok[j]));
            }
        }
    }
}

proof fn lemma_split_grows(s: Seq<char>, tok: Seq<char>, n: nat)
    requires
        n <= tok.len(),
        forall|j: int| 0 <= j < tok.len() ==> #[trigger] tok[j] != ' ',
    ensures
        split_on(s + tok.take(n as int), ' ').len() == split_on(s, ' ').len(),
        split_on(s, ' ').len() > 0,
        split_on(s + tok.take(n as int), ' ') == split_on(s, ' ').update(
            split_on(s, ' ').len() - 1,
            split_on(s, ' ').last() + tok.take(n as int),
        ),
    decreases n,
{
    lemma_split_nonempty(s);
    let base = split_on(s, ' ');
    if n == 0 {
        assert(s + tok.take(0) =~= s);
        assert(base.last() + tok.take(0) =~= base.last());
        assert(base.update(base.len() - 1, base.last()) =~= base);
    } else {
        lemma_split_grows(s, tok, (n - 1) as nat);
        let shorter = s + tok.take(n - 1);
        let longer = s + tok.take(n as int);
        assert(longer.drop_last() =~= shorter);
        assert(longer.last() == tok[n - 1]);
        assert(tok.take(n - 1).push(tok[n - 1]) =~= tok.take(n as int));
        assert(split_on(longer, ' ') =~= base.update(
            base.len() - 1,
            base.last() + tok.take(n as int),
        ));
    }
}

proof fn lemma_split_nonempty(s: Seq<char>)
    ensures
        split_on(s, ' ').len() > 0,
    decreases s.len(),
{
    if s.len() > 0 {
        lemma_split_nonempty(s.drop_last());
    }
}

/// The texts of the timestamps, and an empty token behind them.
pub open spec fn rendered_tokens(ts: Seq<u64>) -> Seq<Seq<char>> {
    Seq::new(ts.len() + 1, |i: int| if i < ts.len() {
        render_seconds(ts[i] as nat)
    } else {
        Seq::empty()
    })
}

proof fn lemma_split_rendered(ts: Seq<u64>)
    ensures
        split_on(render_timings(ts), ' ') == rendered_tokens(ts),
    decreases ts.len(),
{
    if ts.len() == 0 {
        assert(split_on(render_timings(ts), ' ') =~= rendered_tokens(ts));
    } else {
        let init = ts.drop_last();
        let tok = render_seconds(ts.last() as nat);
        lemma_split_rendered(init);
        lemma_seconds_round_trip(ts.last());
        let before = render_timings(init);
        lemma_split_grows(before, tok, tok.len());
        assert(tok.take(tok.len() as int) =~= tok);
        let text = render_timings(ts);
        assert(text.drop_last() =~= before + tok);
        assert(text.last() == ' ');
        assert(Seq::<char>::empty() + tok =~= tok);
        assert(split_on(text, ' ') =~= rendered_tokens(ts));
    }
}

proof fn lemma_first_stop_rendered(ts: Seq<u64>, from: int)
    requires
        0 <= from <= ts.len(),
    ensures
        first_stop(rendered_tokens(ts), from) == ts.len(),
    decreases ts.len() - from,
{
    if from < ts.len() {
        lemma_seconds_round_trip(ts[from]);
        lemma_first_stop_rendered(ts, from + 1);
    }
}

/// Reading the text of a list of timestamps gives the list back, whole and
/// without a failure.
pub proof fn lemma_timings_round_trip(ts: Seq<u64>)
    ensures
        parse_timings_spec(render_timings(ts)) == (TimingScan { stamps: ts, bad_token: None }),
{
    lemma_split_rendered(ts);
    lemma_first_stop_rendered(ts, 0);
    let toks = rendered_tokens(ts);
    assert forall|i: int| 0 <= i < ts.len() implies token_value(#[trigger] toks[i]) == Some(
        ts[i],
    ) by {
        lemma_seconds_round_trip(ts[i]);
    }
    assert(parse_timings_spec(render_timings(ts)).stamps =~= ts);
}

} // verus!
