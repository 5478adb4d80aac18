//! Command lines for ffmpeg, written with substitutions: `{i}` for the input
//! file, `{r.name}` for a rectangle, `{t.name}` for a span of time,
//! `{x.index}` for a text and `{v.name}` for an output preset.

use crate::coords::{Src, VideoRect};
use crate::markers::{NamedPreset, SourceMarkers, Text, TimeSpan, TimespanMarker, RectMarker, VideoOutPreset};
use crate::shell::{shell_split, split_words};
use crate::text::{chars_of, decimal, push_char, push_decimal, str_eq};
use crate::timings::{
    digits_end, digits_value, lemma_digits_end, lemma_digits_value_grows, push_seconds,
    render_seconds,
};
use vstd::prelude::*;

verus! {

/// Why a word is no sequence of tokens.
pub enum ParseError {
    /// After `{` stood none of the letters `i`, `r`, `t`, `x`, `v`.
    UnexpectedToken,
    /// The word ended inside a substitution.
    UnexpectedEnd,
    /// The index of a text substitution is no number that fits `usize`.
    InvalidIndex { text: String },
}

/// View of a [`ParseError`].
pub ghost enum ParseErrorView {
    UnexpectedToken,
    UnexpectedEnd,
    InvalidIndex { text: Seq<char> },
}

impl DeepView for ParseError {
    type V = ParseErrorView;

    open spec fn deep_view(&self) -> ParseErrorView {
        match self {
            ParseError::UnexpectedToken => ParseErrorView::UnexpectedToken,
            ParseError::UnexpectedEnd => ParseErrorView::UnexpectedEnd,
            ParseError::InvalidIndex { text } => ParseErrorView::InvalidIndex { text: text@ },
        }
    }
}

/// One piece of a word.
pub enum Token {
    /// Text that stands for itself.
    Raw(String),
    SubsRect(String),
    SubsTimespan(String),
    SubsText { idx: usize },
    SubsInput,
    SubsVoPreset(String),
}

/// View of a [`Token`].
pub ghost enum TokenView {
    Raw(Seq<char>),
    SubsRect(Seq<char>),
    SubsTimespan(Seq<char>),
    SubsText { idx: nat },
    SubsInput,
    SubsVoPreset(Seq<char>),
}

impl DeepView for Token {
    type V = TokenView;

    open spec fn deep_view(&self) -> TokenView {
        match self {
            Token::Raw(s) => TokenView::Raw(s@),
            Token::SubsRect(s) => TokenView::SubsRect(s@),
            Token::SubsTimespan(s) => TokenView::SubsTimespan(s@),
            Token::SubsText { idx } => TokenView::SubsText { idx: *idx as nat },
            Token::SubsInput => TokenView::SubsInput,
            Token::SubsVoPreset(s) => TokenView::SubsVoPreset(s@),
        }
    }
}

/// Where the tokenizer stands in a word.
#[derive(Clone, Copy, PartialEq, Eq, Structural)]
pub enum Status {
    /// Outside a substitution.
    Init,
    /// Behind `{`.
    SubsBegin,
    /// Behind the letter of a substitution, before its point.
    SubsCategAccess,
    /// In the name of a substitution.
    SubsMeat,
}

/// The kind of a substitution.
#[derive(Clone, Copy, PartialEq, Eq, Structural)]
pub enum SubsType {
    Rect,
    TimeSpan,
    Text,
    Input,
    VoPreset,
}

/// The state of the tokenizer.
pub ghost struct Scan {
    pub status: Status,
    pub subs_type: SubsType,
    /// Where the piece that is being read begins.
    pub token_begin: int,
    pub tokens: Seq<TokenView>,
    /// The error that ended the reading, if any.
    pub failed: Option<ParseErrorView>,
}

/// The number that an index writes: decimal digits, which a `+` may
/// precede; `None` where it is no such numeral or does not fit `usize`.
pub open spec fn parse_index(text: Seq<char>) -> Option<nat> {
    let digits = if text.len() > 0 && text[0] == '+' {
        text.subrange(1, text.len() as int)
    } else {
        text
    };
    if digits.len() > 0 && digits_end(digits, 0) == digits.len()
        && digits_value(digits) <= usize::MAX {
        Some(digits_value(digits))
    } else {
        None
    }
}

/// The token of a substitution of kind `subs_type` whose name is `raw`.
pub open spec fn subs_token(subs_type: SubsType, raw: Seq<char>) -> Result<
    TokenView,
    ParseErrorView,
> {
    match subs_type {
        SubsType::Rect => Ok(TokenView::SubsRect(raw)),
        SubsType::TimeSpan => Ok(TokenView::SubsTimespan(raw)),
        SubsType::Text => match parse_index(raw) {
            Some(idx) => Ok(TokenView::SubsText { idx }),
            None => Err(ParseErrorView::InvalidIndex { text: raw }),
        },
        SubsType::Input => Ok(TokenView::SubsInput),
        SubsType::VoPreset => Ok(TokenView::SubsVoPreset(raw)),
    }
}

/// The state before the first character.
pub open spec fn scan_start() -> Scan {
    Scan {
        status: Status::Init,
        subs_type: SubsType::Rect,
        token_begin: 0,
        tokens: Seq::empty(),
        failed: None,
    }
}

/// The state after the character at `i` is read in state `s`.
///
/// Outside a substitution, `{` ends the raw piece, which becomes a token
/// unless it is empty. Behind `{`, `i` starts the name of the input
/// substitution, and `r`, `t`, `x`, `v` choose the kind of one whose name
/// starts behind the next point; any other character is an error. In a
/// name, `}` ends the substitution and gives its token.
pub open spec fn scan_step(s: Scan, word: Seq<char>, i: int) -> Scan {
    let c = word[i];
    if s.failed is Some {
        s
    } else {
        match s.status {
            Status::Init => if c == '{' {
                let raw = word.subrange(s.token_begin, i);
                Scan {
                    status: Status::SubsBegin,
                    tokens: if raw.len() > 0 {
                        s.tokens.push(TokenView::Raw(raw))
                    } else {
                        s.tokens
                    },
                    ..s
                }
            } else {
                s
            },
            Status::SubsBegin => if c == 'i' {
                Scan {
                    status: Status::SubsMeat,
                    subs_type: SubsType::Input,
                    token_begin: i + 1,
                    ..s
                }
            } else if c == 'r' {
                Scan { status: Status::SubsCategAccess, subs_type: SubsType::Rect, ..s }
            } else if c == 't' {
                Scan { status: Status::SubsCategAccess, subs_type: SubsType::TimeSpan, ..s }
            } else if c == 'x' {
                Scan { status: Status::SubsCategAccess, subs_type: SubsType::Text, ..s }
            } else if c == 'v' {
                Scan { status: Status::SubsCategAccess, subs_type: SubsType::VoPreset, ..s }
            } else {
                Scan { failed: Some(ParseErrorView::UnexpectedToken), ..s }
            },
            Status::SubsCategAccess => if c == '.' {
                Scan { status: Status::SubsMeat, token_begin: i + 1, ..s }
            } else {
                s
            },
            Status::SubsMeat => if c == '}' {
                match subs_token(s.subs_type, word.subrange(s.token_begin, i)) {
                    Ok(tok) => Scan {
                        status: Status::Init,
                        token_begin: i + 1,
                        tokens: s.tokens.push(tok),
                        ..s
                    },
                    Err(e) => Scan { failed: Some(e), ..s },
                }
            } else {
                s
            },
        }
    }
}

/// The state after the first `n` characters of `word`.
pub open spec fn scan(word: Seq<char>, n: nat) -> Scan
    decreases n,
{
    if n == 0 {
        scan_start()
    } else {
        scan_step(scan(word, (n - 1) as nat), word, n - 1)
    }
}

/// The tokens of a word. At its end, what is left outside a substitution
/// becomes a raw token unless it is empty; a word that ends inside a
/// substitution is an error.
pub open spec fn tokenize_spec(word: Seq<char>) -> Result<Seq<TokenView>, ParseErrorView> {
    let s = scan(word, word.len());
    match s.failed {
        Some(e) => Err(e),
        None => match s.status {
            Status::Init => {
                let rest = word.subrange(s.token_begin, word.len() as int);
                Ok(
                    if rest.len() > 0 {
                        s.tokens.push(TokenView::Raw(rest))
                    } else {
                        s.tokens
                    },
                )
            },
            _ => Err(ParseErrorView::UnexpectedEnd),
        },
    }
}

/// The characters of `cs` from `from` up to `to`, as a string.
pub fn string_of(cs: &Vec<char>, from: usize, to: usize) -> (s: String)
    requires
        from <= to <= cs@.len(),
    ensures
        s@ == cs@.subrange(from as int, to as int),
{
    let mut s = String::new();
    let mut i: usize = from;
    while i < to
        invariant
            from <= i <= to,
            to <= cs@.len(),
            s@ == cs@.subrange(from as int, i as int),
        decreases to - i,
    {
        push_char(&mut s, cs[i]);
        i += 1;
        assert(s@ =~= cs@.subrange(from as int, i as int));
    }
    s
}

/// Reads an index.
#[verifier::loop_isolation(false)]
pub fn parse_index_text(text: &str) -> (idx: Option<usize>)
    ensures
        match idx {
            Some(i) => parse_index(text@) == Some(i as nat),
            None => parse_index(text@) is None,
        },
{
    let all = chars_of(text);
    let start: usize = if all.len() > 0 && all[0] == '+' {
        1
    } else {
        0
    };
    let ghost digits = all@.subrange(start as int, all@.len() as int);
    proof {
        if start == 0 {
            assert(digits =~= text@);
        }
    }
    let n = all.len() - start;
    if n == 0 {
        return None;
    }
    let mut i: usize = 0;
    let mut value: usize = 0;
    proof {
        assert(digits.subrange(0, 0) =~= Seq::<char>::empty());
    }
    while i < n
        invariant
            i <= n,
            n == digits.len(),
            start + n == all@.len(),
            digits == all@.subrange(start as int, all@.len() as int),
            digits_end(digits, 0) == digits_end(digits, i as int),
            value == digits_value(digits.subrange(0, i as int)),
        decreases n - i,
    {
        let c = all[start + i];
        assert(c == digits[i as int]);
        if !('0' <= c && c <= '9') {
            return None;
        }
        let d: usize = (c as u32 - '0' as u32) as usize;
        proof {
            assert(digits.subrange(0, i + 1).drop_last() =~= digits.subrange(0, i as int));
            lemma_digits_end(digits, i + 1);
        }
        if value > (usize::MAX - d) / 10 {
            proof {
                lemma_digits_value_grows(digits, i + 1, digits.len() as int);
                assert(digits.subrange(0, digits.len() as int) =~= digits);
            }
            return None;
        }
        value = value * 10 + d;
        i += 1;
    }
    proof {
        assert(digits.subrange(0, digits.len() as int) =~= digits);
    }
    Some(value)
}

/// Splits a word into its tokens.
pub fn tokenize_word(word: &str) -> (r: Result<Vec<Token>, ParseError>)
    ensures
        match r {
            Ok(tokens) => tokenize_spec(word@) == Ok::<Seq<TokenView>, ParseErrorView>(
                tokens.deep_view(),
            ),
            Err(e) => tokenize_spec(word@) == Err::<Seq<TokenView>, ParseErrorView>(
                e.deep_view(),
            ),
        },
{
    let cs = chars_of(word);
    let n = cs.len();
    let mut status = Status::Init;
    let mut subs_type = SubsType::Rect;
    let mut token_begin: usize = 0;
    let mut tokens: Vec<Token> = Vec::new();
    assert(tokens.deep_view() =~= Seq::<TokenView>::empty());
    let mut i: usize = 0;
    while i < n
        invariant
            i <= n,
            n == cs@.len(),
            cs@ == word@,
            token_begin <= i,
            scan(word@, i as nat) == (Scan {
                status,
                subs_type,
                token_begin: token_begin as int,
                tokens: tokens.deep_view(),
                failed: None,
            }),
        decreases n - i,
    {
        let c = cs[i];
        let ghost before = tokens.deep_view();
        let ghost s = scan(word@, i as nat);
        match status {
            Status::Init => {
                if c == '{' {
                    if token_begin < i {
                        let raw = string_of(&cs, token_begin, i);
                        tokens.push(Token::Raw(raw));
                        assert(tokens.deep_view() =~= before.push(TokenView::Raw(raw@)));
                    }
                    status = Status::SubsBegin;
                }
            },
            Status::SubsBegin => {
                if c == 'i' {
                    status = Status::SubsMeat;
                    subs_type = SubsType::Input;
                    token_begin = i + 1;
                } else if c == 'r' {
                    status = Status::SubsCategAccess;
                    subs_type = SubsType::Rect;
                } else if c == 't' {
                    status = Status::SubsCategAccess;
                    subs_type = SubsType::TimeSpan;
                } else if c == 'x' {
                    status = Status::SubsCategAccess;
                    subs_type = SubsType::Text;
                } else if c == 'v' {
                    status = Status::SubsCategAccess;
                    subs_type = SubsType::VoPreset;
                } else {
                    proof {
                        lemma_failed_stays(word@, (i + 1) as nat, n as nat);
                    }
                    return Err(ParseError::UnexpectedToken);
                }
            },
            Status::SubsCategAccess => {
                if c == '.' {
                    token_begin = i + 1;
                    status = Status::SubsMeat;
                }
            },
            Status::SubsMeat => {
                if c == '}' {
                    let raw = string_of(&cs, token_begin, i);
                    let tok = match subs_type {
                        SubsType::Rect => Token::SubsRect(raw),
                        SubsType::TimeSpan => Token::SubsTimespan(raw),
                        SubsType::Text => match parse_index_text(raw.as_str()) {
                            Some(idx) => Token::SubsText { idx },
                            None => {
                                proof {
                                    lemma_failed_stays(word@, (i + 1) as nat, n as nat);
                                }
                                return Err(ParseError::InvalidIndex { text: raw });
                            },
                        },
                        SubsType::Input => Token::SubsInput,
                        SubsType::VoPreset => Token::SubsVoPreset(raw),
                    };
                    assert(subs_token(subs_type, raw@) == Ok::<TokenView, ParseErrorView>(
                        tok.deep_view(),
                    ));
                    tokens.push(tok);
                    assert(tokens.deep_view() =~= before.push(tok.deep_view()));
                    token_begin = i + 1;
                    status = Status::Init;
                }
            },
        }
        i += 1;
    }
    match status {
        Status::Init => {
            if token_begin < n {
                let ghost before = tokens.deep_view();
                let rest = string_of(&cs, token_begin, n);
                tokens.push(Token::Raw(rest));
                assert(tokens.deep_view() =~= before.push(TokenView::Raw(rest@)));
            }
            Ok(tokens)
        },
        _ => Err(ParseError::UnexpectedEnd),
    }
}

/// An error ends the reading: no later character changes the state.
proof fn lemma_failed_stays(word: Seq<char>, k: nat, n: nat)
    requires
        k <= n,
        scan(word, k).failed is Some,
    ensures
        scan(word, n) == scan(word, k),
    decreases n,
{
    if n > k {
        lemma_failed_stays(word, k, (n - 1) as nat);
    }
}

/// Why a command line cannot be resolved.
pub enum ResolveError {
    /// A word is no sequence of tokens.
    Parse(ParseError),
    /// The command line is no sequence of shell words: a quote is not closed.
    ShellParseError,
    /// A substitution names what does not exist.
    MissingItem { name: String },
}

/// View of a [`ResolveError`].
pub ghost enum ResolveErrorView {
    Parse(ParseErrorView),
    ShellParseError,
    MissingItem { name: Seq<char> },
}

impl DeepView for ResolveError {
    type V = ResolveErrorView;

    open spec fn deep_view(&self) -> ResolveErrorView {
        match self {
            ResolveError::Parse(e) => ResolveErrorView::Parse(e.deep_view()),
            ResolveError::ShellParseError => ResolveErrorView::ShellParseError,
            ResolveError::MissingItem { name } => ResolveErrorView::MissingItem { name: name@ },
        }
    }
}

pub const SEEK_START: &'static str = "-ss";

pub const SEEK_LENGTH: &'static str = "-t";

pub const PIX_FMT: &'static str = "-pix_fmt";

pub const VIDEO_CODEC: &'static str = "-c:v";

pub const DRAW_TEXT: &'static str = "drawtext=text=";

pub const DRAW_X: &'static str = ": x=";

pub const DRAW_Y: &'static str = ": y=";

pub const DRAW_ENABLE: &'static str = ": fontcolor=white: enable='between(t,";

pub const DRAW_FONT: &'static str = ")': fontfile=";

pub const DRAW_SIZE: &'static str = ": fontsize=";

pub const DRAW_BORDER: &'static str = ": borderw=";

pub const DRAW_END: &'static str = ": ";

/// The position of the first rectangle at or after `from` with the name, or
/// the number of rectangles.
pub open spec fn find_rect_spec(rects: Seq<RectMarker>, name: Seq<char>, from: int) -> int
    decreases rects.len() - from,
{
    if from < 0 || from >= rects.len() {
        rects.len() as int
    } else if rects[from].name@ == name {
        from
    } else {
        find_rect_spec(rects, name, from + 1)
    }
}

/// The position of the first span at or after `from` with the name, or the
/// number of spans.
pub open spec fn find_timespan_spec(spans: Seq<TimespanMarker>, name: Seq<char>, from: int) -> int
    decreases spans.len() - from,
{
    if from < 0 || from >= spans.len() {
        spans.len() as int
    } else if spans[from].name@ == name {
        from
    } else {
        find_timespan_spec(spans, name, from + 1)
    }
}

/// The position of the first preset at or after `from` with the name, or
/// the number of presets.
pub open spec fn find_preset_spec(presets: Seq<NamedPreset>, name: Seq<char>, from: int) -> int
    decreases presets.len() - from,
{
    if from < 0 || from >= presets.len() {
        presets.len() as int
    } else if presets[from].name@ == name {
        from
    } else {
        find_preset_spec(presets, name, from + 1)
    }
}

/// A rectangle as a crop filter takes it: width, height, x and y, with
/// colons between.
pub open spec fn rect_text(r: VideoRect<Src>) -> Seq<char> {
    decimal(r.dim.x as nat) + seq![':'] + decimal(r.dim.y as nat) + seq![':'] + decimal(
        r.pos.x as nat,
    ) + seq![':'] + decimal(r.pos.y as nat)
}

/// The length of a span in seconds; a span that ends before it begins has a
/// negative length.
pub open spec fn duration_text(ts: TimeSpan) -> Seq<char> {
    if ts.end >= ts.begin {
        render_seconds((ts.end - ts.begin) as nat)
    } else {
        seq!['-'] + render_seconds((ts.begin - ts.end) as nat)
    }
}

/// The filter that draws a text.
pub open spec fn drawtext(t: Text) -> Seq<char> {
    DRAW_TEXT@ + t.string@ + DRAW_X@ + decimal(t.pos.x as nat) + DRAW_Y@ + decimal(t.pos.y as nat)
        + DRAW_ENABLE@ + render_seconds(t.timespan.begin as nat) + seq![','] + render_seconds(
        t.timespan.end as nat,
    ) + DRAW_FONT@ + t.font_path@ + DRAW_SIZE@ + decimal(t.size as nat) + DRAW_BORDER@ + decimal(
        t.borderw as nat,
    ) + DRAW_END@
}

/// The arguments that a preset stands for: the pixel format, if it has one,
/// then the codec, if it has one.
pub open spec fn preset_args(p: VideoOutPreset) -> Seq<Seq<char>> {
    (match p.pix_fmt {
        Some(f) => seq![PIX_FMT@, f@],
        None => Seq::empty(),
    }) + (match p.codec {
        Some(c) => seq![VIDEO_CODEC@, c@],
        None => Seq::empty(),
    })
}

/// A word while it is resolved: the arguments that are complete, and the
/// text of the argument that is being put together.
pub ghost struct Resolving {
    pub resolved: Seq<Seq<char>>,
    pub current: Seq<char>,
}

/// What one token adds. Raw text, a rectangle, a text filter and the input
/// file extend the argument that is being put together. A span of time and
/// a preset add whole arguments of their own.
pub open spec fn resolve_token(
    st: Resolving,
    tok: TokenView,
    markers: SourceMarkers,
    texts: Seq<Text>,
    src_path: Seq<char>,
    presets: Seq<NamedPreset>,
) -> Result<Resolving, ResolveErrorView> {
    match tok {
        TokenView::Raw(raw) => Ok(Resolving { current: st.current + raw, ..st }),
        TokenView::SubsRect(name) => {
            let k = find_rect_spec(markers.rects@, name, 0);
            if k < markers.rects@.len() {
                Ok(Resolving { current: st.current + rect_text(markers.rects@[k].rect), ..st })
            } else {
                Err(ResolveErrorView::MissingItem { name })
            }
        },
        TokenView::SubsTimespan(name) => {
            let k = find_timespan_spec(markers.timespans@, name, 0);
            if k < markers.timespans@.len() {
                let ts = markers.timespans@[k].timespan;
                Ok(
                    Resolving {
                        resolved: st.resolved + seq![
                            SEEK_START@,
                            render_seconds(ts.begin as nat),
                            SEEK_LENGTH@,
                            duration_text(ts),
                        ],
                        ..st
                    },
                )
            } else {
                Err(ResolveErrorView::MissingItem { name })
            }
        },
        TokenView::SubsText { idx } => if idx < texts.len() {
            Ok(Resolving { current: st.current + drawtext(texts[idx as int]), ..st })
        } else {
            Err(ResolveErrorView::MissingItem { name: decimal(idx) })
        },
        TokenView::SubsInput => Ok(Resolving { current: st.current + src_path, ..st }),
        TokenView::SubsVoPreset(name) => {
            let k = find_preset_spec(presets, name, 0);
            if k < presets.len() {
                Ok(Resolving { resolved: st.resolved + preset_args(presets[k].preset), ..st })
            } else {
                Err(ResolveErrorView::MissingItem { name })
            }
        },
    }
}

/// The state after the first `n` tokens; the first error ends the work.
pub open spec fn resolve_tokens(
    tokens: Seq<TokenView>,
    markers: SourceMarkers,
    texts: Seq<Text>,
    src_path: Seq<char>,
    presets: Seq<NamedPreset>,
    n: nat,
) -> Result<Resolving, ResolveErrorView>
    decreases n,
{
    if n == 0 {
        Ok(Resolving { resolved: Seq::empty(), current: Seq::empty() })
    } else {
        match resolve_tokens(tokens, markers, texts, src_path, presets, (n - 1) as nat) {
            Ok(st) => resolve_token(st, tokens[n - 1], markers, texts, src_path, presets),
            Err(e) => Err(e),
        }
    }
}

/// The arguments that the tokens of one word stand for: those that spans
/// and presets add, then the argument put together from the rest, unless it
/// is empty.
pub open spec fn resolve_word_spec(
    tokens: Seq<TokenView>,
    markers: SourceMarkers,
    texts: Seq<Text>,
    src_path: Seq<char>,
    presets: Seq<NamedPreset>,
) -> Result<Seq<Seq<char>>, ResolveErrorView> {
    match resolve_tokens(tokens, markers, texts, src_path, presets, tokens.len()) {
        Ok(st) => Ok(
            if st.current.len() > 0 {
                st.resolved.push(st.current)
            } else {
                st.resolved
            },
        ),
        Err(e) => Err(e),
    }
}

/// The arguments that one word stands for.
#[verifier::opaque]
pub open spec fn resolve_one(
    word: Seq<char>,
    markers: SourceMarkers,
    texts: Seq<Text>,
    src_path: Seq<char>,
    presets: Seq<NamedPreset>,
) -> Result<Seq<Seq<char>>, ResolveErrorView> {
    match tokenize_spec(word) {
        Ok(tokens) => resolve_word_spec(tokens, markers, texts, src_path, presets),
        Err(e) => Err(ResolveErrorView::Parse(e)),
    }
}

/// The arguments that the first `n` words stand for, in order; the first
/// error ends the work.
pub open spec fn resolve_words_spec(
    words: Seq<Seq<char>>,
    markers: SourceMarkers,
    texts: Seq<Text>,
    src_path: Seq<char>,
    presets: Seq<NamedPreset>,
    n: nat,
) -> Result<Seq<Seq<char>>, ResolveErrorView>
    decreases n,
{
    if n == 0 {
        Ok(Seq::empty())
    } else {
        match resolve_words_spec(words, markers, texts, src_path, presets, (n - 1) as nat) {
            Ok(before) => match resolve_one(words[n - 1], markers, texts, src_path, presets) {
                Ok(more) => Ok(before + more),
                Err(e) => Err(e),
            },
            Err(e) => Err(e),
        }
    }
}

/// The position of the first rectangle with the name, or the number of
/// rectangles.
fn find_rect(rects: &Vec<RectMarker>, name: &str) -> (k: usize)
    ensures
        k == find_rect_spec(rects@, name@, 0),
        k <= rects@.len(),
{
    let mut k: usize = 0;
    while k < rects.len()
        invariant
            k <= rects.len(),
            find_rect_spec(rects@, name@, 0) == find_rect_spec(rects@, name@, k as int),
        decreases rects.len() - k,
    {
        if str_eq(rects[k].name.as_str(), name) {
            return k;
        }
        k += 1;
    }
    k
}

/// The position of the first span with the name, or the number of spans.
fn find_timespan(spans: &Vec<TimespanMarker>, name: &str) -> (k: usize)
    ensures
        k == find_timespan_spec(spans@, name@, 0),
        k <= spans@.len(),
{
    let mut k: usize = 0;
    while k < spans.len()
        invariant
            k <= spans.len(),
            find_timespan_spec(spans@, name@, 0) == find_timespan_spec(spans@, name@, k as int),
        decreases spans.len() - k,
    {
        if str_eq(spans[k].name.as_str(), name) {
            return k;
        }
        k += 1;
    }
    k
}

/// The position of the first preset with the name, or the number of
/// presets.
fn find_preset(presets: &Vec<NamedPreset>, name: &str) -> (k: usize)
    ensures
        k == find_preset_spec(presets@, name@, 0),
        k <= presets@.len(),
{
    let mut k: usize = 0;
    while k < presets.len()
        invariant
            k <= presets.len(),
            find_preset_spec(presets@, name@, 0) == find_preset_spec(presets@, name@, k as int),
        decreases presets.len() - k,
    {
        if str_eq(presets[k].name.as_str(), name) {
            return k;
        }
        k += 1;
    }
    k
}

/// Appends a rectangle as a crop filter takes it.
fn push_rect_text(out: &mut String, r: &VideoRect<Src>)
    ensures
        final(out)@ == old(out)@ + rect_text(*r),
{
    push_decimal(out, r.dim.x as u64);
    push_char(out, ':');
    push_decimal(out, r.dim.y as u64);
    push_char(out, ':');
    push_decimal(out, r.pos.x as u64);
    push_char(out, ':');
    push_decimal(out, r.pos.y as u64);
    assert(out@ =~= old(out)@ + rect_text(*r));
}

/// The length of a span in seconds.
fn duration_string(ts: &TimeSpan) -> (s: String)
    ensures
        s@ == duration_text(*ts),
{
    let mut s = String::new();
    if ts.end >= ts.begin {
        push_seconds(&mut s, ts.end - ts.begin);
    } else {
        push_char(&mut s, '-');
        push_seconds(&mut s, ts.begin - ts.end);
    }
    assert(s@ =~= duration_text(*ts));
    s
}

/// Appends the filter that draws a text.
fn push_drawtext(out: &mut String, t: &Text)
    ensures
        final(out)@ == old(out)@ + drawtext(*t),
{
    out.append(DRAW_TEXT);
    out.append(t.string.as_str());
    out.append(DRAW_X);
    push_decimal(out, t.pos.x as u64);
    out.append(DRAW_Y);
    push_decimal(out, t.pos.y as u64);
    out.append(DRAW_ENABLE);
    push_seconds(out, t.timespan.begin);
    push_char(out, ',');
    push_seconds(out, t.timespan.end);
    out.append(DRAW_FONT);
    out.append(t.font_path.as_str());
    out.append(DRAW_SIZE);
    push_decimal(out, t.size as u64);
    out.append(DRAW_BORDER);
    push_decimal(out, t.borderw as u64);
    out.append(DRAW_END);
    assert(out@ =~= old(out)@ + drawtext(*t));
}

/// A string with the text of `s`.
fn owned(s: &str) -> (r: String)
    ensures
        r@ == s@,
{
    let mut r = String::new();
    r.append(s);
    assert(r@ =~= s@);
    r
}

/// Appends the arguments that a preset stands for.
fn push_preset_args(resolved: &mut Vec<String>, p: &VideoOutPreset)
    ensures
        final(resolved).deep_view() == old(resolved).deep_view() + preset_args(*p),
{
    let ghost before = resolved.deep_view();
    if let Some(pix_fmt) = &p.pix_fmt {
        resolved.push(owned(PIX_FMT));
        resolved.push(pix_fmt.clone());
    }
    let ghost mid = resolved.deep_view();
    assert(mid =~= before + (match p.pix_fmt {
        Some(f) => seq![PIX_FMT@, f@],
        None => Seq::<Seq<char>>::empty(),
    }));
    if let Some(codec) = &p.codec {
        resolved.push(owned(VIDEO_CODEC));
        resolved.push(codec.clone());
    }
    assert(resolved.deep_view() =~= mid + (match p.codec {
        Some(c) => seq![VIDEO_CODEC@, c@],
        None => Seq::<Seq<char>>::empty(),
    }));
    assert(resolved.deep_view() =~= before + preset_args(*p));
}

/// An error ends the work on a word.
proof fn lemma_resolve_error_stays(
    tokens: Seq<TokenView>,
    markers: SourceMarkers,
    texts: Seq<Text>,
    src_path: Seq<char>,
    presets: Seq<NamedPreset>,
    k: nat,
    n: nat,
)
    requires
        k <= n,
        resolve_tokens(tokens, markers, texts, src_path, presets, k) is Err,
    ensures
        resolve_tokens(tokens, markers, texts, src_path, presets, n) == resolve_tokens(
            tokens,
            markers,
            texts,
            src_path,
            presets,
            k,
        ),
    decreases n,
{
    if n > k {
        lemma_resolve_error_stays(tokens, markers, texts, src_path, presets, k, (n - 1) as nat);
    }
}

/// Turns the tokens of one word into one or more arguments: a rectangle
/// becomes part of an argument, a span of time becomes four arguments.
#[verifier::loop_isolation(false)]
pub fn resolve_word_tokens(
    tokens: &Vec<Token>,
    markers: &SourceMarkers,
    texts: &Vec<Text>,
    src_path: &str,
    presets: &Vec<NamedPreset>,
) -> (r: Result<Vec<String>, ResolveError>)
    ensures
        match r {
            Ok(args) => resolve_word_spec(tokens.deep_view(), *markers, texts@, src_path@, presets@)
                == Ok::<Seq<Seq<char>>, ResolveErrorView>(args.deep_view()),
            Err(e) => resolve_word_spec(tokens.deep_view(), *markers, texts@, src_path@, presets@)
                == Err::<Seq<Seq<char>>, ResolveErrorView>(e.deep_view()),
        },
{
    let ghost tv = tokens.deep_view();
    let mut resolved: Vec<String> = Vec::new();
    let mut current = String::new();
    assert(resolved.deep_view() =~= Seq::<Seq<char>>::empty());
    let mut i: usize = 0;
    while i < tokens.len()
        invariant
            i <= tokens.len(),
            resolve_tokens(tv, *markers, texts@, src_path@, presets@, i as nat) == Ok::<
                Resolving,
                ResolveErrorView,
            >(Resolving { resolved: resolved.deep_view(), current: current@ }),
        decreases tokens.len() - i,
    {
        let ghost before = resolved.deep_view();
        assert(tv[i as int] == tokens[i as int].deep_view());
        match &tokens[i] {
            Token::Raw(raw) => {
                current.append(raw.as_str());
            },
            Token::SubsRect(name) => {
                let k = find_rect(&markers.rects, name.as_str());
                if k < markers.rects.len() {
                    push_rect_text(&mut current, &markers.rects[k].rect);
                } else {
                    proof {
                        lemma_resolve_error_stays(
                            tv,
                            *markers,
                            texts@,
                            src_path@,
                            presets@,
                            (i + 1) as nat,
                            tv.len(),
                        );
                    }
                    return Err(ResolveError::MissingItem { name: name.clone() });
                }
            },
            Token::SubsTimespan(name) => {
                let k = find_timespan(&markers.timespans, name.as_str());
                if k < markers.timespans.len() {
                    let ts = &markers.timespans[k].timespan;
                    let mut begin = String::new();
                    push_seconds(&mut begin, ts.begin);
                    assert(begin@ =~= render_seconds(ts.begin as nat));
                    resolved.push(owned(SEEK_START));
                    resolved.push(begin);
                    resolved.push(owned(SEEK_LENGTH));
                    resolved.push(duration_string(ts));
                    assert(resolved.deep_view() =~= before + seq![
                        SEEK_START@,
                        render_seconds(ts.begin as nat),
                        SEEK_LENGTH@,
                        duration_text(*ts),
                    ]);
                } else {
                    proof {
                        lemma_resolve_error_stays(
                            tv,
                            *markers,
                            texts@,
                            src_path@,
                            presets@,
                            (i + 1) as nat,
                            tv.len(),
                        );
                    }
                    return Err(ResolveError::MissingItem { name: name.clone() });
                }
            },
            Token::SubsText { idx } => {
                if *idx < texts.len() {
                    push_drawtext(&mut current, &texts[*idx]);
                } else {
                    let mut name = String::new();
                    push_decimal(&mut name, *idx as u64);
                    assert(name@ =~= decimal(*idx as nat));
                    proof {
                        lemma_resolve_error_stays(
                            tv,
                            *markers,
                            texts@,
                            src_path@,
                            presets@,
                            (i + 1) as nat,
                            tv.len(),
                        );
                    }
                    return Err(ResolveError::MissingItem { name });
                }
            },
            Token::SubsInput => {
                current.append(src_path);
            },
            Token::SubsVoPreset(name) => {
                let k = find_preset(presets, name.as_str());
                if k < presets.len() {
                    push_preset_args(&mut resolved, &presets[k].preset);
                } else {
                    proof {
                        lemma_resolve_error_stays(
                            tv,
                            *markers,
                            texts@,
                            src_path@,
                            presets@,
                            (i + 1) as nat,
                            tv.len(),
                        );
                    }
                    return Err(ResolveError::MissingItem { name: name.clone() });
                }
            },
        }
        i += 1;
    }
    if current.as_str().unicode_len() > 0 {
        let ghost before = resolved.deep_view();
        resolved.push(current);
        assert(resolved.deep_view() =~= before.push(current@));
    }
    Ok(resolved)
}

/// An error ends the work on a command line.
proof fn lemma_words_error_stays(
    words: Seq<Seq<char>>,
    markers: SourceMarkers,
    texts: Seq<Text>,
    src_path: Seq<char>,
    presets: Seq<NamedPreset>,
    k: nat,
    n: nat,
)
    requires
        k <= n,
        resolve_words_spec(words, markers, texts, src_path, presets, k) is Err,
    ensures
        resolve_words_spec(words, markers, texts, src_path, presets, n) == resolve_words_spec(
            words,
            markers,
            texts,
            src_path,
            presets,
            k,
        ),
    decreases n,
{
    if n > k {
        lemma_words_error_stays(words, markers, texts, src_path, presets, k, (n - 1) as nat);
    }
}

/// Resolves one word into arguments.
pub fn resolve_word(
    word: &str,
    markers: &SourceMarkers,
    texts: &Vec<Text>,
    src_path: &str,
    presets: &Vec<NamedPreset>,
) -> (r: Result<Vec<String>, ResolveError>)
    ensures
        match r {
            Ok(args) => resolve_one(word@, *markers, texts@, src_path@, presets@) == Ok::<
                Seq<Seq<char>>,
                ResolveErrorView,
            >(args.deep_view()),
            Err(e) => resolve_one(word@, *markers, texts@, src_path@, presets@) == Err::<
                Seq<Seq<char>>,
                ResolveErrorView,
            >(e.deep_view()),
        },
{
    reveal(resolve_one);
    match tokenize_word(word) {
        Ok(tokens) => resolve_word_tokens(&tokens, markers, texts, src_path, presets),
        Err(e) => Err(ResolveError::Parse(e)),
    }
}

/// Appends copies of the strings of `more`.
fn append_all(out: &mut Vec<String>, more: &Vec<String>)
    ensures
        final(out).deep_view() == old(out).deep_view() + more.deep_view(),
{
    let ghost before = out.deep_view();
    let mut j: usize = 0;
    while j < more.len()
        invariant
            j <= more.len(),
            out.deep_view() == before + more.deep_view().take(j as int),
        decreases more.len() - j,
    {
        let ghost so_far = out.deep_view();
        let copy = more[j].clone();
        out.push(copy);
        assert(out.deep_view() =~= so_far.push(copy@));
        assert(more.deep_view()[j as int] == copy@);
        j += 1;
        assert(out.deep_view() =~= before + more.deep_view().take(j as int));
    }
    assert(more.deep_view().take(more.len() as int) =~= more.deep_view());
}

/// Resolves the words of a command line into the arguments for ffmpeg.
pub fn resolve_words(
    words: &Vec<String>,
    markers: &SourceMarkers,
    texts: &Vec<Text>,
    src_path: &str,
    presets: &Vec<NamedPreset>,
) -> (r: Result<Vec<String>, ResolveError>)
    ensures
        match r {
            Ok(args) => resolve_words_spec(
                words.deep_view(),
                *markers,
                texts@,
                src_path@,
                presets@,
                words.deep_view().len(),
            ) == Ok::<Seq<Seq<char>>, ResolveErrorView>(args.deep_view()),
            Err(e) => resolve_words_spec(
                words.deep_view(),
                *markers,
                texts@,
                src_path@,
                presets@,
                words.deep_view().len(),
            ) == Err::<Seq<Seq<char>>, ResolveErrorView>(e.deep_view()),
        },
{
    let ghost wv = words.deep_view();
    let mut out: Vec<String> = Vec::new();
    assert(out.deep_view() =~= Seq::<Seq<char>>::empty());
    let mut i: usize = 0;
    while i < words.len()
        invariant
            i <= words.len(),
            wv == words.deep_view(),
            resolve_words_spec(wv, *markers, texts@, src_path@, presets@, i as nat) == Ok::<
                Seq<Seq<char>>,
                ResolveErrorView,
            >(out.deep_view()),
        decreases words.len() - i,
    {
        assert(wv[i as int] == words[i as int]@);
        match resolve_word(words[i].as_str(), markers, texts, src_path, presets) {
            Ok(more) => {
                append_all(&mut out, &more);
            },
            Err(e) => {
                proof {
                    lemma_words_error_stays(
                        wv,
                        *markers,
                        texts@,
                        src_path@,
                        presets@,
                        (i + 1) as nat,
                        wv.len(),
                    );
                }
                return Err(e);
            },
        }
        i += 1;
    }
    Ok(out)
}

/// What a command line resolves to: its shell words, each resolved, one
/// after the other.
pub open spec fn resolve_arguments_spec(
    input: Seq<char>,
    markers: SourceMarkers,
    texts: Seq<Text>,
    src_path: Seq<char>,
    presets: Seq<NamedPreset>,
) -> Result<Seq<Seq<char>>, ResolveErrorView> {
    match shell_split(input) {
        Some(words) => resolve_words_spec(words, markers, texts, src_path, presets, words.len()),
        None => Err(ResolveErrorView::ShellParseError),
    }
}

/// Resolves a command line with substitutions into the arguments for
/// ffmpeg.
pub fn resolve_arguments(
    input: &str,
    markers: &SourceMarkers,
    texts: &Vec<Text>,
    src_path: &str,
    presets: &Vec<NamedPreset>,
) -> (r: Result<Vec<String>, ResolveError>)
    ensures
        match r {
            Ok(args) => resolve_arguments_spec(input@, *markers, texts@, src_path@, presets@)
                == Ok::<Seq<Seq<char>>, ResolveErrorView>(args.deep_view()),
            Err(e) => resolve_arguments_spec(input@, *markers, texts@, src_path@, presets@)
                == Err::<Seq<Seq<char>>, ResolveErrorView>(e.deep_view()),
        },
{
    match split_words(input) {
        Some(words) => resolve_words(&words, markers, texts, src_path, presets),
        None => Err(ResolveError::ShellParseError),
    }
}

} // verus!
