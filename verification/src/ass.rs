//! The subtitle script: its header and styles, and the dialogue lines that
//! show a tracking state over one interval of time.

use crate::document::{Line, LineView, TrackView};
use crate::furigana::{FuriEntryView, FuriMap};
use crate::text::{
    decimal, push_char, push_decimal, push_repeated, push_signed_decimal, repeated,
    signed_decimal, spec_write_at,
};
use crate::time_fmt::{ass_time_spec, push_ass_time};
use crate::tracking::{advance, replay, TrackingState, TrackingView};
use vstd::prelude::*;

verus! {

/// The wide space that pads an annotation line.
pub const FW_SP: char = '\u{3000}';

pub const HEAD_RES_X: &'static str =
    "[Script Info]\nScriptType: v4.00+\nScaledBorderAndShadow: yes\nYCbCr Matrix: None\nPlayResX: ";

pub const HEAD_RES_Y: &'static str = "\nPlayResY: ";

pub const HEAD_LAYOUT_X: &'static str = "\nLayoutResX: ";

pub const HEAD_LAYOUT_Y: &'static str = "\nLayoutResY: ";

pub const HEAD_STYLES: &'static str =
    "\n\n[V4+ Styles]\nFormat: Name, Fontname, Fontsize,PrimaryColour, SecondaryColour, OutlineColour, BackColour,Bold, Italic, Underline, StrikeOut,ScaleX, ScaleY, Spacing, Angle, BorderStyle, Outline, Shadow, Alignment, MarginL, MarginR, MarginV, Encoding\n";

pub const STYLE_STATIC: &'static str = "Style: Static";

pub const STYLE_STATIC_BODY: &'static str =
    ",DejaVu Sans,44,&H00AAAAAA,&H00000000,&H00000000,&H00000000,0,0,0,0,100.0,100.0,0.0,0.0,1,1.0,1.0,2,0,0,0,0\n";

pub const STYLE_ACCUM: &'static str = "Style: Accum";

pub const STYLE_ACCUM_BODY: &'static str =
    ",DejaVu Sans,44,&H00FFFFFF, &H00000000, &H00000000, &H00000000,0,0,0,0,100.0,100.0,0.0,0.0,1,1.0,1.0,2,0,0,0,1\n";

pub const STYLES_FURI: &'static str =
    "Style: StaticFuri,DejaVu Sans,22.2,&H00AAAAAA, &H00000000, &H00000000, &H00000000,0,0,0,0,100.0,100.0,0.0,0.0,1,1.0,1.0,2,0,0,0,1\nStyle: AccumFuri,DejaVu Sans,22.2,&H00FFFFFF, &H00000000, &H00000000, &H00000000,0,0,0,0,100.0,100.0,0.0,0.0,1,1.0,1.0,2,0,0,0,1\n";

pub const EVENTS_HEAD: &'static str =
    "\n[Events]\nFormat: Layer, Start, End, Style, Name, MarginL, MarginR, MarginV, Effect, Text\n";

pub const DIALOGUE_STATIC: &'static str = "Dialogue: 0,";

pub const DIALOGUE_ACCUM: &'static str = "Dialogue: 1,";

pub const NAME_STATIC: &'static str = ",Static";

pub const NAME_ACCUM: &'static str = ",Accum";

pub const NAME_STATIC_FURI: &'static str = ",StaticFuri";

pub const NAME_ACCUM_FURI: &'static str = ",AccumFuri";

pub const DIALOGUE_FIELDS: &'static str = ",,0,0,0,,";

/// The override tag that hides what follows it.
pub const HIDE_REST: &'static str = "{\\alpha&HFF&}";

/// The header of a script for a video of the given size.
pub open spec fn script_header(video_w: int, video_h: int) -> Seq<char> {
    HEAD_RES_X@ + signed_decimal(video_w) + HEAD_RES_Y@ + signed_decimal(video_h)
        + HEAD_LAYOUT_X@ + signed_decimal(video_w) + HEAD_LAYOUT_Y@ + signed_decimal(video_h)
        + HEAD_STYLES@
}

/// Whether one of the first `n` tracks has the id.
pub open spec fn tracks_use_id(tracks: Seq<TrackView>, id: u8, n: nat) -> bool
    decreases n,
{
    n > 0 && (tracks[n - 1].id == id || tracks_use_id(tracks, id, (n - 1) as nat))
}

/// Whether a track of one of the first `n` lines has the id.
pub open spec fn lines_use_id(lines: Seq<LineView>, id: u8, n: nat) -> bool
    decreases n,
{
    n > 0 && (tracks_use_id(lines[n - 1].tracks, id, lines[n - 1].tracks.len()) || lines_use_id(
        lines,
        id,
        (n - 1) as nat,
    ))
}

/// Whether some track of the document has the id.
pub open spec fn has_track_id(lines: Seq<LineView>, id: u8) -> bool {
    exists|l: int, t: int|
        0 <= l < lines.len() && 0 <= t < lines[l].tracks.len() && (#[trigger] lines[l].tracks[t]).id
            == id
}

/// The two styles of the track id: the dim one of the whole line and the
/// bright one of what is revealed.
pub open spec fn style_pair(id: u8) -> Seq<char> {
    STYLE_STATIC@ + decimal(id as nat) + STYLE_STATIC_BODY@ + STYLE_ACCUM@ + decimal(id as nat)
        + STYLE_ACCUM_BODY@
}

/// The style pairs of the ids below `upto` that the document uses, by
/// rising id.
pub open spec fn track_styles(lines: Seq<LineView>, upto: nat) -> Seq<char>
    decreases upto,
{
    if upto == 0 {
        Seq::empty()
    } else {
        let id = (upto - 1) as u8;
        track_styles(lines, (upto - 1) as nat) + if has_track_id(lines, id) {
            style_pair(id)
        } else {
            Seq::empty()
        }
    }
}

/// All that a script holds before its dialogue lines: the header, one style
/// pair for each track id of the document, the two annotation styles, and
/// the head of the events section.
pub open spec fn preamble(lines: Seq<LineView>, video_w: int, video_h: int) -> Seq<char> {
    script_header(video_w, video_h) + track_styles(lines, 256) + STYLES_FURI@ + EVENTS_HEAD@
}

/// `line` with `text` written over it from position `at` on. What reaches
/// beyond the end of the line, or starts there or later, is appended.
pub open spec fn overwrite_at(line: Seq<char>, at: int, text: Seq<char>) -> Seq<char> {
    if at >= line.len() {
        line + text
    } else {
        line.subrange(0, at) + text + if at + text.len() < line.len() {
            line.subrange(at + text.len(), line.len() as int)
        } else {
            Seq::empty()
        }
    }
}

/// The first `n` fragments, one after the other.
pub open spec fn joined(parts: Seq<Seq<char>>, n: nat) -> Seq<char>
    decreases n,
{
    if n == 0 {
        Seq::empty()
    } else {
        joined(parts, (n - 1) as nat) + parts[n - 1]
    }
}

/// The annotation line of a text of `base_len` characters, after the first
/// `n` entries of the map are applied: two wide spaces for each character,
/// and over them, for each entry of track `track_id` in order, its fragments
/// from twice its character position on.
pub open spec fn furi_line(base_len: nat, furi: Seq<FuriEntryView>, track_id: u8, n: nat) -> Seq<
    char,
>
    decreases n,
{
    if n == 0 {
        repeated(FW_SP, 2 * base_len)
    } else {
        let before = furi_line(base_len, furi, track_id, (n - 1) as nat);
        let e = furi[n - 1];
        if e.track_id == track_id {
            overwrite_at(before, (2 * e.char_idx) as int, joined(e.parts, e.parts.len()))
        } else {
            before
        }
    }
}

/// One dialogue line up to its text: layer, start, end, style and the
/// empty fields.
pub open spec fn dialogue_head(layer: Seq<char>, begin: nat, end: nat, style: Seq<char>) -> Seq<
    char,
> {
    layer + ass_time_spec(begin) + seq![','] + ass_time_spec(end) + style + DIALOGUE_FIELDS@
}

/// The two dialogue lines of one whole-line buffer: its text, and its
/// annotation line.
pub open spec fn static_pair(
    t: TrackingView,
    begin: nat,
    end: nat,
    slot: (u8, Seq<char>),
) -> Seq<char> {
    dialogue_head(DIALOGUE_STATIC@, begin, end, NAME_STATIC@ + decimal(slot.0 as nat)) + slot.1
        + seq!['\n'] + dialogue_head(DIALOGUE_STATIC@, begin, end, NAME_STATIC_FURI@) + furi_line(
        slot.1.len(),
        t.static_furigana_indices,
        slot.0,
        t.static_furigana_indices.len(),
    ) + seq!['\n']
}

/// The text that shows `shown` as the revealed part of `whole`: the whole
/// text with the hiding tag behind as many characters as `shown` has. An
/// empty `whole` gives `shown` itself.
pub open spec fn revealed_text(shown: Seq<char>, whole: Seq<char>) -> Seq<char> {
    if whole.len() == 0 {
        shown
    } else {
        let k = if shown.len() < whole.len() {
            shown.len()
        } else {
            whole.len()
        };
        whole.subrange(0, k as int) + HIDE_REST@ + whole.subrange(k as int, whole.len() as int)
    }
}

/// The two dialogue lines of one accumulator, paired with the whole-line
/// buffer at its position: the revealed text, and the annotation line of
/// the revealed text, spaced for the whole text.
pub open spec fn accum_pair(
    t: TrackingView,
    begin: nat,
    end: nat,
    slot: (u8, Seq<char>),
    whole: Seq<char>,
) -> Seq<char> {
    dialogue_head(DIALOGUE_ACCUM@, begin, end, NAME_ACCUM@ + decimal(slot.0 as nat))
        + revealed_text(slot.1, whole) + seq!['\n'] + dialogue_head(
        DIALOGUE_ACCUM@,
        begin,
        end,
        NAME_ACCUM_FURI@,
    ) + furi_line(whole.len(), t.timed_furigana_indices, slot.0, t.timed_furigana_indices.len())
        + seq!['\n']
}

/// The dialogue lines of the first `n` whole-line buffers.
pub open spec fn static_lines(t: TrackingView, begin: nat, end: nat, n: nat) -> Seq<char>
    decreases n,
{
    if n == 0 {
        Seq::empty()
    } else {
        static_lines(t, begin, end, (n - 1) as nat) + static_pair(
            t,
            begin,
            end,
            t.static_line_tracks[n - 1],
        )
    }
}

/// The dialogue lines of the first `n` accumulators.
pub open spec fn accum_lines(t: TrackingView, begin: nat, end: nat, n: nat) -> Seq<char>
    decreases n,
{
    if n == 0 {
        Seq::empty()
    } else {
        accum_lines(t, begin, end, (n - 1) as nat) + accum_pair(
            t,
            begin,
            end,
            t.accumulators[n - 1],
            t.static_line_tracks[n - 1].1,
        )
    }
}

/// The number of accumulators that have a whole-line buffer at their
/// position.
pub open spec fn paired_buffers(t: TrackingView) -> nat {
    if t.accumulators.len() < t.static_line_tracks.len() {
        t.accumulators.len()
    } else {
        t.static_line_tracks.len()
    }
}

/// The dialogue lines that show the state `t` from `begin` to `end`: those
/// of every whole-line buffer, then those of every accumulator that has a
/// whole-line buffer at its position.
pub open spec fn interval_lines(t: TrackingView, begin: nat, end: nat) -> Seq<char> {
    static_lines(t, begin, end, t.static_line_tracks.len()) + accum_lines(
        t,
        begin,
        end,
        paired_buffers(t),
    )
}

/// The number of intervals between `n` timestamps.
pub open spec fn interval_count(n: nat) -> nat {
    if n < 2 {
        0
    } else {
        (n - 1) as nat
    }
}

/// The dialogue lines of the first `n` intervals of `stamps`: interval `i`
/// runs from timestamp `i` to timestamp `i + 1` and shows the state that
/// `i + 1` steps from `t0` lead to.
pub open spec fn events(lines: Seq<LineView>, t0: TrackingView, stamps: Seq<u64>, n: nat) -> Seq<
    char,
>
    decreases n,
{
    if n == 0 {
        Seq::empty()
    } else {
        events(lines, t0, stamps, (n - 1) as nat) + interval_lines(
            replay(t0, lines, n),
            stamps[n - 1] as nat,
            stamps[n as int] as nat,
        )
    }
}

/// The whole script of a document replayed from the state `t0` over the
/// recorded timestamps.
pub open spec fn ass_script(
    lines: Seq<LineView>,
    t0: TrackingView,
    stamps: Seq<u64>,
    video_w: int,
    video_h: int,
) -> Seq<char> {
    preamble(lines, video_w, video_h) + events(lines, t0, stamps, interval_count(stamps.len()))
}

/// `line` after the first `n` characters of `text` are written into it one
/// by one, character `i` at position `at + i`.
pub open spec fn written_charwise(line: Seq<char>, at: int, text: Seq<char>, n: nat) -> Seq<char>
    decreases n,
{
    if n == 0 {
        line
    } else {
        spec_write_at(written_charwise(line, at, text, (n - 1) as nat), at + n - 1, text[n - 1])
    }
}

/// Writing a text over a line is writing its characters one by one.
pub proof fn lemma_overwrite_is_charwise(line: Seq<char>, at: int, text: Seq<char>, n: nat)
    requires
        0 <= at,
        n <= text.len(),
    ensures
        written_charwise(line, at, text, n) == overwrite_at(line, at, text.take(n as int)),
    decreases n,
{
    if n == 0 {
        assert(overwrite_at(line, at, text.take(0)) =~= line);
    } else {
        lemma_overwrite_is_charwise(line, at, text, (n - 1) as nat);
        let before = overwrite_at(line, at, text.take(n - 1));
        assert(spec_write_at(before, at + n - 1, text[n - 1]) =~= overwrite_at(
            line,
            at,
            text.take(n as int),
        ));
    }
}

proof fn lemma_tracks_use_id(tracks: Seq<TrackView>, id: u8, n: nat)
    requires
        n <= tracks.len(),
    ensures
        tracks_use_id(tracks, id, n) <==> exists|t: int|
            0 <= t < n && (#[trigger] tracks[t]).id == id,
    decreases n,
{
    if n > 0 {
        lemma_tracks_use_id(tracks, id, (n - 1) as nat);
        if tracks[n - 1].id == id {
        }
    }
}

proof fn lemma_lines_use_id(lines: Seq<LineView>, id: u8, n: nat)
    requires
        n <= lines.len(),
    ensures
        lines_use_id(lines, id, n) <==> exists|l: int, t: int|
            0 <= l < n && 0 <= t < lines[l].tracks.len() && (#[trigger] lines[l].tracks[t]).id
                == id,
    decreases n,
{
    if n > 0 {
        lemma_lines_use_id(lines, id, (n - 1) as nat);
        let last = lines[n - 1].tracks;
        lemma_tracks_use_id(last, id, last.len());
        if tracks_use_id(last, id, last.len()) {
            let t = choose|t: int| 0 <= t < last.len() && (#[trigger] last[t]).id == id;
            assert(lines[n - 1].tracks[t].id == id);
        }
    }
}

/// Whether some track of the document has the id.
pub fn uses_track_id(lines: &Vec<Line>, id: u8) -> (used: bool)
    ensures
        used == has_track_id(lines.deep_view(), id),
{
    let ghost lv = lines.deep_view();
    let mut l: usize = 0;
    while l < lines.len()
        invariant
            l <= lines.len(),
            lv == lines.deep_view(),
            !lines_use_id(lv, id, l as nat),
        decreases lines.len() - l,
    {
        let tracks = &lines[l].tracks;
        let ghost tv = lv[l as int].tracks;
        let mut t: usize = 0;
        while t < tracks.len()
            invariant
                t <= tracks.len(),
                l < lines.len(),
                lv == lines.deep_view(),
                tv == lv[l as int].tracks,
                tv == tracks.deep_view(),
                !tracks_use_id(tv, id, t as nat),
            decreases tracks.len() - t,
        {
            if tracks[t].id == id {
                proof {
                    assert(tv[t as int].id == id);
                    assert(lv[l as int].tracks[t as int].id == id);
                }
                return true;
            }
            t += 1;
        }
        l += 1;
    }
    proof {
        lemma_lines_use_id(lv, id, lv.len());
    }
    false
}

/// Appends all that a script holds before its dialogue lines.
pub fn push_preamble(out: &mut String, lines: &Vec<Line>, video_w: i64, video_h: i64)
    ensures
        final(out)@ == old(out)@ + preamble(lines.deep_view(), video_w as int, video_h as int),
{
    out.append(HEAD_RES_X);
    push_signed_decimal(out, video_w);
    out.append(HEAD_RES_Y);
    push_signed_decimal(out, video_h);
    out.append(HEAD_LAYOUT_X);
    push_signed_decimal(out, video_w);
    out.append(HEAD_LAYOUT_Y);
    push_signed_decimal(out, video_h);
    out.append(HEAD_STYLES);
    assert(out@ =~= old(out)@ + script_header(video_w as int, video_h as int));
    let ghost headed = out@;
    let mut next: u16 = 0;
    while next < 256
        invariant
            next <= 256,
            out@ == headed + track_styles(lines.deep_view(), next as nat),
        decreases 256 - next,
    {
        let id = next as u8;
        let ghost before = out@;
        if uses_track_id(lines, id) {
            out.append(STYLE_STATIC);
            push_decimal(out, id as u64);
            out.append(STYLE_STATIC_BODY);
            out.append(STYLE_ACCUM);
            push_decimal(out, id as u64);
            out.append(STYLE_ACCUM_BODY);
            assert(out@ =~= before + style_pair(id));
        }
        next += 1;
        assert(out@ =~= headed + track_styles(lines.deep_view(), next as nat));
    }
    out.append(STYLES_FURI);
    out.append(EVENTS_HEAD);
    assert(out@ =~= old(out)@ + preamble(lines.deep_view(), video_w as int, video_h as int));
}

/// `line` with the fragments written over it from twice `char_idx` on.
pub fn annotate(line: &str, char_idx: usize, parts: &Vec<String>) -> (out: String)
    ensures
        out@ == overwrite_at(
            line@,
            2 * char_idx,
            joined(parts.deep_view(), parts.deep_view().len()),
        ),
{
    let len = line.unicode_len();
    let ghost pv = parts.deep_view();
    let mut out = String::new();
    if char_idx > usize::MAX / 2 || 2 * char_idx >= len {
        out.append(line);
        let mut i: usize = 0;
        while i < parts.len()
            invariant
                i <= parts.len(),
                pv == parts.deep_view(),
                out@ == line@ + joined(pv, i as nat),
            decreases parts.len() - i,
        {
            out.append(parts[i].as_str());
            i += 1;
            assert(out@ =~= line@ + joined(pv, i as nat));
        }
        return out;
    }
    let at = 2 * char_idx;
    out.append(line.substring_char(0, at));
    let ghost head = out@;
    // Where the fragments end in the line; `None` once that is at its end or beyond.
    let mut end: Option<usize> = Some(at);
    let mut i: usize = 0;
    while i < parts.len()
        invariant
            i <= parts.len(),
            pv == parts.deep_view(),
            at < len,
            len == line@.len(),
            out@ == head + joined(pv, i as nat),
            match end {
                Some(e) => e == at + joined(pv, i as nat).len() && e < len,
                None => at + joined(pv, i as nat).len() >= len,
            },
        decreases parts.len() - i,
    {
        let part_len = parts[i].as_str().unicode_len();
        out.append(parts[i].as_str());
        end = match end {
            Some(e) => if part_len < len - e {
                Some(e + part_len)
            } else {
                None
            },
            None => None,
        };
        i += 1;
        assert(out@ =~= head + joined(pv, i as nat));
    }
    if let Some(e) = end {
        out.append(line.substring_char(e, len));
    }
    assert(out@ =~= overwrite_at(line@, 2 * char_idx, joined(pv, pv.len())));
    out
}

/// Appends the annotation line of track `track_id` for a text of
/// `base_len` characters.
pub fn push_furi_line(out: &mut String, base_len: usize, furi: &FuriMap, track_id: u8)
    ensures
        final(out)@ == old(out)@ + furi_line(base_len as nat, furi@, track_id, furi@.len()),
{
    let mut line = String::new();
    push_repeated(&mut line, FW_SP, base_len);
    push_repeated(&mut line, FW_SP, base_len);
    assert(line@ =~= repeated(FW_SP, 2 * (base_len as nat)));
    let entries = furi.entries();
    let mut i: usize = 0;
    while i < entries.len()
        invariant
            i <= entries.len(),
            entries.deep_view() == furi@,
            line@ == furi_line(base_len as nat, furi@, track_id, i as nat),
        decreases entries.len() - i,
    {
        if entries[i].track_id == track_id {
            line = annotate(line.as_str(), entries[i].char_idx, &entries[i].parts);
        }
        i += 1;
    }
    out.append(line.as_str());
}

/// Appends the head of a dialogue line.
fn push_dialogue_head(out: &mut String, layer: &str, begin: u64, end: u64, style: &str, id: Option<
    u8,
>)
    ensures
        final(out)@ == old(out)@ + dialogue_head(
            layer@,
            begin as nat,
            end as nat,
            match id {
                Some(id) => style@ + decimal(id as nat),
                None => style@,
            },
        ),
{
    out.append(layer);
    push_ass_time(out, begin);
    push_char(out, ',');
    push_ass_time(out, end);
    out.append(style);
    if let Some(id) = id {
        push_decimal(out, id as u64);
    }
    out.append(DIALOGUE_FIELDS);
    assert(out@ =~= old(out)@ + dialogue_head(
        layer@,
        begin as nat,
        end as nat,
        match id {
            Some(id) => style@ + decimal(id as nat),
            None => style@,
        },
    ));
}

/// Appends the text that shows `shown` as the revealed part of `whole`.
pub fn push_revealed(out: &mut String, shown: &str, whole: &str)
    ensures
        final(out)@ == old(out)@ + revealed_text(shown@, whole@),
{
    let whole_len = whole.unicode_len();
    if whole_len == 0 {
        out.append(shown);
    } else {
        let shown_len = shown.unicode_len();
        let k = if shown_len < whole_len {
            shown_len
        } else {
            whole_len
        };
        out.append(whole.substring_char(0, k));
        out.append(HIDE_REST);
        out.append(whole.substring_char(k, whole_len));
        assert(out@ =~= old(out)@ + revealed_text(shown@, whole@));
    }
}

/// Appends the two dialogue lines of the whole-line buffer at position `i`.
fn push_static_pair(out: &mut String, tracking: &TrackingState, begin: u64, end: u64, i: usize)
    requires
        i < tracking@.static_line_tracks.len(),
    ensures
        final(out)@ == old(out)@ + static_pair(
            tracking@,
            begin as nat,
            end as nat,
            tracking@.static_line_tracks[i as int],
        ),
{
    let statics = tracking.static_line_tracks();
    let tid = statics[i].0;
    let text = statics[i].1.as_str();
    assert(tracking@.static_line_tracks[i as int] == (tid, text@));
    push_dialogue_head(out, DIALOGUE_STATIC, begin, end, NAME_STATIC, Some(tid));
    out.append(text);
    push_char(out, '\n');
    push_dialogue_head(out, DIALOGUE_STATIC, begin, end, NAME_STATIC_FURI, None);
    push_furi_line(out, text.unicode_len(), tracking.static_furigana_indices(), tid);
    push_char(out, '\n');
    assert(out@ =~= old(out)@ + static_pair(tracking@, begin as nat, end as nat, (tid, text@)));
}

/// Appends the two dialogue lines of the accumulator at position `k`.
fn push_accum_pair(out: &mut String, tracking: &TrackingState, begin: u64, end: u64, k: usize)
    requires
        k < tracking@.static_line_tracks.len(),
        k < tracking@.accumulators.len(),
    ensures
        final(out)@ == old(out)@ + accum_pair(
            tracking@,
            begin as nat,
            end as nat,
            tracking@.accumulators[k as int],
            tracking@.static_line_tracks[k as int].1,
        ),
{
    let statics = tracking.static_line_tracks();
    let accums = tracking.accumulators();
    let tid = accums[k].0;
    let shown = accums[k].1.as_str();
    let whole = statics[k].1.as_str();
    assert(tracking@.accumulators[k as int] == (tid, shown@));
    assert(tracking@.static_line_tracks[k as int].1 == whole@);
    push_dialogue_head(out, DIALOGUE_ACCUM, begin, end, NAME_ACCUM, Some(tid));
    push_revealed(out, shown, whole);
    push_char(out, '\n');
    push_dialogue_head(out, DIALOGUE_ACCUM, begin, end, NAME_ACCUM_FURI, None);
    push_furi_line(out, whole.unicode_len(), tracking.timed_furigana_indices(), tid);
    push_char(out, '\n');
    assert(out@ =~= old(out)@ + accum_pair(
        tracking@,
        begin as nat,
        end as nat,
        (tid, shown@),
        whole@,
    ));
}

/// Appends the dialogue lines that show `tracking` from `begin` to `end`.
pub fn push_interval(out: &mut String, tracking: &TrackingState, begin: u64, end: u64)
    ensures
        final(out)@ == old(out)@ + interval_lines(tracking@, begin as nat, end as nat),
{
    let ghost t = tracking@;
    let statics = tracking.static_line_tracks().len();
    let accums = tracking.accumulators().len();
    let mut i: usize = 0;
    while i < statics
        invariant
            i <= statics,
            t == tracking@,
            statics == t.static_line_tracks.len(),
            out@ == old(out)@ + static_lines(t, begin as nat, end as nat, i as nat),
        decreases statics - i,
    {
        push_static_pair(out, tracking, begin, end, i);
        i += 1;
        assert(out@ =~= old(out)@ + static_lines(t, begin as nat, end as nat, i as nat));
    }
    let ghost mid = out@;
    let n = if accums < statics {
        accums
    } else {
        statics
    };
    let mut k: usize = 0;
    while k < n
        invariant
            k <= n,
            n <= t.accumulators.len(),
            n <= t.static_line_tracks.len(),
            t == tracking@,
            out@ == mid + accum_lines(t, begin as nat, end as nat, k as nat),
        decreases n - k,
    {
        push_accum_pair(out, tracking, begin, end, k);
        k += 1;
        assert(out@ =~= mid + accum_lines(t, begin as nat, end as nat, k as nat));
    }
    assert(out@ =~= old(out)@ + interval_lines(t, begin as nat, end as nat));
}

/// Renders the whole script: `tracking` takes one step for each pair of
/// neighbouring timestamps, and what the step leads to is shown from the
/// first timestamp of the pair to the second.
pub fn render_script(
    tracking: &mut TrackingState,
    lines: &Vec<Line>,
    stamps: &Vec<u64>,
    video_w: i64,
    video_h: i64,
) -> (script: String)
    ensures
        script@ == ass_script(
            lines.deep_view(),
            old(tracking)@,
            stamps@,
            video_w as int,
            video_h as int,
        ),
        final(tracking)@ == replay(
            old(tracking)@,
            lines.deep_view(),
            interval_count(stamps@.len()),
        ),
{
    let ghost t0 = tracking@;
    let ghost lv = lines.deep_view();
    let mut script = String::new();
    push_preamble(&mut script, lines, video_w, video_h);
    let ghost head = script@;
    assert(head =~= preamble(lv, video_w as int, video_h as int));
    assert(script@ =~= head + events(lv, t0, stamps@, 0));
    let n = stamps.len();
    let mut i: usize = 1;
    while i < n
        invariant
            1 <= i,
            n == stamps@.len(),
            n >= 2 ==> i <= n,
            n < 2 ==> i == 1,
            lv == lines.deep_view(),
            tracking@ == replay(t0, lv, (i - 1) as nat),
            script@ == head + events(lv, t0, stamps@, (i - 1) as nat),
        decreases n - i,
    {
        let ghost before = script@;
        advance(tracking, lines);
        assert(tracking@ == replay(t0, lv, i as nat));
        push_interval(&mut script, tracking, stamps[i - 1], stamps[i]);
        assert(script@ =~= head + events(lv, t0, stamps@, i as nat));
        i += 1;
    }
    script
}

/// With fewer than two timestamps there is no interval: the script is its
/// preamble, which ends with the head of the events section, and no
/// dialogue line follows.
pub proof fn lemma_no_interval_no_dialogue(
    lines: Seq<LineView>,
    t0: TrackingView,
    stamps: Seq<u64>,
    video_w: int,
    video_h: int,
)
    requires
        stamps.len() < 2,
    ensures
        ass_script(lines, t0, stamps, video_w, video_h) == script_header(video_w, video_h)
            + track_styles(lines, 256) + STYLES_FURI@ + EVENTS_HEAD@,
{
    assert(ass_script(lines, t0, stamps, video_w, video_h) =~= preamble(lines, video_w, video_h));
}

} // verus!
