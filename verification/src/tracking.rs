//! The tracking state: the cursor into the document and what is revealed of
//! the current line, and the step that moves it forward.

use crate::document::{
    only_raw_tracks, Line, LineView, TimedSegOrFill, Track, TrackData, TrackDataView, TrackView,
};
use crate::furigana::{
    furi_keys_unique, lemma_write_seg_keeps_keys_unique, lemma_write_segs_keep_keys_unique,
    no_debt, write_seg, write_seg_spec, write_segs_spec, Channel, FuriDebt, FuriDebtView,
    FuriEntryView, FuriMap,
};
use vstd::prelude::*;

verus! {

/// Where playback stands in the document, and the text shown for it.
pub struct TrackingState {
    line_idx: usize,
    seg_idx: usize,
    /// For each track of the current line, the text revealed so far.
    pub accumulators: Vec<(u8, String)>,
    /// For each track of the current line, its whole text.
    pub static_line_tracks: Vec<(u8, String)>,
    /// The annotations of the whole-line texts.
    pub static_furigana_indices: FuriMap,
    /// The annotations of the revealed texts.
    pub timed_furigana_indices: FuriMap,
    clear_next: bool,
    /// The number of recorded timestamps that playback has passed. The owner
    /// of the state keeps it; the step never reads or writes it.
    pub timestamp_tracker: usize,
    wait_next_line: bool,
    static_furi_debt: FuriDebt,
    timed_furi_debt: FuriDebt,
}

/// View of a [`TrackingState`].
pub ghost struct TrackingView {
    pub line_idx: nat,
    pub seg_idx: nat,
    pub accumulators: Seq<(u8, Seq<char>)>,
    pub static_line_tracks: Seq<(u8, Seq<char>)>,
    pub static_furigana_indices: Seq<FuriEntryView>,
    pub timed_furigana_indices: Seq<FuriEntryView>,
    pub clear_next: bool,
    pub timestamp_tracker: nat,
    pub wait_next_line: bool,
    pub static_furi_debt: FuriDebtView,
    pub timed_furi_debt: FuriDebtView,
}

impl View for TrackingState {
    type V = TrackingView;

    closed spec fn view(&self) -> TrackingView {
        TrackingView {
            line_idx: self.line_idx as nat,
            seg_idx: self.seg_idx as nat,
            accumulators: self.accumulators.deep_view(),
            static_line_tracks: self.static_line_tracks.deep_view(),
            static_furigana_indices: self.static_furigana_indices@,
            timed_furigana_indices: self.timed_furigana_indices@,
            clear_next: self.clear_next,
            timestamp_tracker: self.timestamp_tracker as nat,
            wait_next_line: self.wait_next_line,
            static_furi_debt: self.static_furi_debt@,
            timed_furi_debt: self.timed_furi_debt@,
        }
    }
}

impl DeepView for TrackingState {
    type V = TrackingView;

    open spec fn deep_view(&self) -> TrackingView {
        self@
    }
}

/// The state before the first step: at the first segment of the first line,
/// with nothing shown and nothing owed.
pub open spec fn initial_tracking() -> TrackingView {
    TrackingView {
        line_idx: 0,
        seg_idx: 0,
        accumulators: Seq::empty(),
        static_line_tracks: Seq::empty(),
        static_furigana_indices: Seq::empty(),
        timed_furigana_indices: Seq::empty(),
        clear_next: false,
        timestamp_tracker: 0,
        wait_next_line: false,
        static_furi_debt: no_debt(),
        timed_furi_debt: no_debt(),
    }
}

/// One empty buffer for each track, under the track's id, in track order.
pub open spec fn blank_buffers(tracks: Seq<TrackView>) -> Seq<(u8, Seq<char>)> {
    Seq::new(tracks.len(), |i: int| (tracks[i].id, Seq::<char>::empty()))
}

/// The blank step between two lines: every buffer and annotation map is
/// emptied and the wait is over. Cursor, debts and `clear_next` stay.
pub open spec fn blank_tick(t: TrackingView) -> TrackingView {
    TrackingView {
        wait_next_line: false,
        accumulators: Seq::empty(),
        static_line_tracks: Seq::empty(),
        static_furigana_indices: Seq::empty(),
        timed_furigana_indices: Seq::empty(),
        ..t
    }
}

/// The state with a pending `clear_next` carried out: the accumulators are
/// emptied and the flag is taken back.
pub open spec fn cleared(t: TrackingView) -> TrackingView {
    if t.clear_next {
        TrackingView { accumulators: Seq::empty(), clear_next: false, ..t }
    } else {
        t
    }
}

/// The state with buffers that fit `tracks`: where there are fewer
/// accumulators than tracks, accumulators and whole-line buffers are both
/// replaced by blank ones.
pub open spec fn fitted(t: TrackingView, tracks: Seq<TrackView>) -> TrackingView {
    if t.accumulators.len() < tracks.len() {
        TrackingView {
            accumulators: blank_buffers(tracks),
            static_line_tracks: blank_buffers(tracks),
            ..t
        }
    } else {
        t
    }
}

/// The number of tracks that a step visits: tracks are paired with
/// accumulators and whole-line buffers by position, as far as all three go.
pub open spec fn paired_len(t: TrackingView, tracks: Seq<TrackView>) -> nat {
    let a = if t.accumulators.len() < tracks.len() {
        t.accumulators.len()
    } else {
        tracks.len()
    };
    if t.static_line_tracks.len() < a {
        t.static_line_tracks.len()
    } else {
        a
    }
}

/// What a step does for the track at position `k`, and whether the step goes
/// on after it.
///
/// A raw track puts its whole text into accumulator `k`. A timing track
/// first rebuilds whole-line buffer `k` by writing all of its segments from
/// an empty buffer, then writes the segment at `seg_idx` into accumulator
/// `k`. Each buffer is written under the id stored with it. A timing track
/// without a segment at `seg_idx` stops the step after the rebuild.
pub open spec fn track_step(t: TrackingView, track: TrackView, k: int) -> (TrackingView, bool) {
    match track.data {
        TrackDataView::Raw(text) => (
            TrackingView {
                accumulators: t.accumulators.update(k, (t.accumulators[k].0, text)),
                ..t
            },
            true,
        ),
        TrackDataView::Timing { segments } => {
            let sid = t.static_line_tracks[k].0;
            let s = write_segs_spec(
                Channel {
                    text: Seq::empty(),
                    furi: t.static_furigana_indices,
                    debt: t.static_furi_debt,
                },
                segments,
                sid,
                segments.len(),
            );
            let rebuilt = TrackingView {
                static_line_tracks: t.static_line_tracks.update(k, (sid, s.text)),
                static_furigana_indices: s.furi,
                static_furi_debt: s.debt,
                ..t
            };
            if t.seg_idx < segments.len() {
                let aid = t.accumulators[k].0;
                let a = write_seg_spec(
                    Channel {
                        text: t.accumulators[k].1,
                        furi: t.timed_furigana_indices,
                        debt: t.timed_furi_debt,
                    },
                    segments[t.seg_idx as int],
                    aid,
                );
                (
                    TrackingView {
                        accumulators: t.accumulators.update(k, (aid, a.text)),
                        timed_furigana_indices: a.furi,
                        timed_furi_debt: a.debt,
                        ..rebuilt
                    },
                    true,
                )
            } else {
                (rebuilt, false)
            }
        },
    }
}

/// The state after the first `n` tracks are visited in order, and whether
/// the step still goes on. Once a track has stopped the step, no further
/// track is visited.
pub open spec fn tracks_step(t: TrackingView, tracks: Seq<TrackView>, n: nat) -> (
    TrackingView,
    bool,
)
    decreases n,
{
    if n == 0 {
        (t, true)
    } else {
        let before = tracks_step(t, tracks, (n - 1) as nat);
        if before.1 {
            track_step(before.0, tracks[n - 1], n - 1)
        } else {
            before
        }
    }
}

/// The cursor moved on by one segment. From the last segment of a line it
/// moves to the start of the next line, and asks for a blank step and for
/// the accumulators to be emptied.
pub open spec fn cursor_moved(t: TrackingView, segment_count: nat) -> TrackingView {
    if t.seg_idx + 1 >= segment_count {
        TrackingView {
            clear_next: true,
            seg_idx: 0,
            line_idx: t.line_idx + 1,
            wait_next_line: true,
            ..t
        }
    } else {
        TrackingView { seg_idx: t.seg_idx + 1, ..t }
    }
}

/// One step of the tracking state over `lines`.
///
/// A state that waits for the next line takes the blank step and nothing
/// else. Otherwise a pending `clear_next` is carried out; then, if the
/// cursor's line exists, the buffers are fitted to its tracks, the tracks
/// are visited, and the cursor moves on unless a track stopped the step.
/// With the cursor past the last line nothing more happens.
#[verifier::opaque]
pub open spec fn advance_spec(t: TrackingView, lines: Seq<LineView>) -> TrackingView {
    if t.wait_next_line {
        blank_tick(t)
    } else {
        let t1 = cleared(t);
        if t1.line_idx < lines.len() {
            let line = lines[t1.line_idx as int];
            let t2 = fitted(t1, line.tracks);
            let visited = tracks_step(t2, line.tracks, paired_len(t2, line.tracks));
            if visited.1 {
                cursor_moved(visited.0, line.segment_count)
            } else {
                visited.0
            }
        } else {
            t1
        }
    }
}

/// The state after `n` steps over `lines`.
pub open spec fn replay(t: TrackingView, lines: Seq<LineView>, n: nat) -> TrackingView
    decreases n,
{
    if n == 0 {
        t
    } else {
        advance_spec(replay(t, lines, (n - 1) as nat), lines)
    }
}

/// A copy of a list of buffers.
pub fn clone_buffers(v: &Vec<(u8, String)>) -> (r: Vec<(u8, String)>)
    ensures
        r.deep_view() == v.deep_view(),
{
    let mut r: Vec<(u8, String)> = Vec::new();
    let mut i: usize = 0;
    while i < v.len()
        invariant
            i <= v.len(),
            r.len() == i,
            forall|j: int| 0 <= j < i ==> r[j].0 == v[j].0 && r[j].1@ == v[j].1@,
        decreases v.len() - i,
    {
        r.push((v[i].0, v[i].1.clone()));
        i += 1;
    }
    assert(r.deep_view() =~= v.deep_view());
    r
}

impl Clone for TrackingState {
    fn clone(&self) -> (t: TrackingState)
        ensures
            t@ == self@,
    {
        TrackingState {
            line_idx: self.line_idx,
            seg_idx: self.seg_idx,
            accumulators: clone_buffers(&self.accumulators),
            static_line_tracks: clone_buffers(&self.static_line_tracks),
            static_furigana_indices: self.static_furigana_indices.clone(),
            timed_furigana_indices: self.timed_furigana_indices.clone(),
            clear_next: self.clear_next,
            timestamp_tracker: self.timestamp_tracker,
            wait_next_line: self.wait_next_line,
            static_furi_debt: self.static_furi_debt.clone(),
            timed_furi_debt: self.timed_furi_debt.clone(),
        }
    }
}

impl Default for TrackingState {
    fn default() -> (t: TrackingState)
        ensures
            t@ == initial_tracking(),
    {
        let t = TrackingState {
            line_idx: 0,
            seg_idx: 0,
            accumulators: Vec::new(),
            static_line_tracks: Vec::new(),
            static_furigana_indices: FuriMap::new(),
            timed_furigana_indices: FuriMap::new(),
            clear_next: false,
            timestamp_tracker: 0,
            wait_next_line: false,
            static_furi_debt: FuriDebt::new(),
            timed_furi_debt: FuriDebt::new(),
        };
        assert(t@.accumulators =~= Seq::empty());
        assert(t@.static_line_tracks =~= Seq::empty());
        t
    }
}

impl TrackingState {
    /// The revealed texts, as the view shows them.
    pub fn accumulators(&self) -> (v: &Vec<(u8, String)>)
        ensures
            v.deep_view() == self@.accumulators,
    {
        &self.accumulators
    }

    /// The whole-line texts, as the view shows them.
    pub fn static_line_tracks(&self) -> (v: &Vec<(u8, String)>)
        ensures
            v.deep_view() == self@.static_line_tracks,
    {
        &self.static_line_tracks
    }

    /// The annotations of the whole-line texts, as the view shows them.
    pub fn static_furigana_indices(&self) -> (m: &FuriMap)
        ensures
            m@ == self@.static_furigana_indices,
    {
        &self.static_furigana_indices
    }

    /// The annotations of the revealed texts, as the view shows them.
    pub fn timed_furigana_indices(&self) -> (m: &FuriMap)
        ensures
            m@ == self@.timed_furigana_indices,
    {
        &self.timed_furigana_indices
    }

    /// The index of the line that the next step reveals.
    pub fn line_idx(&self) -> (i: usize)
        ensures
            i == self@.line_idx,
    {
        self.line_idx
    }

    /// The index of the segment that the next step reveals.
    pub fn seg_idx(&self) -> (i: usize)
        ensures
            i == self@.seg_idx,
    {
        self.seg_idx
    }

    /// The number of recorded timestamps that playback has passed.
    pub fn timestamp_tracker(&self) -> (i: usize)
        ensures
            i == self@.timestamp_tracker,
    {
        self.timestamp_tracker
    }

    /// Counts one more recorded timestamp as passed.
    pub fn pass_timestamp(&mut self)
        requires
            old(self)@.timestamp_tracker < usize::MAX,
        ensures
            final(self)@ == (TrackingView {
                timestamp_tracker: old(self)@.timestamp_tracker + 1,
                ..old(self)@
            }),
    {
        self.timestamp_tracker = self.timestamp_tracker + 1;
    }

    /// Whether the next step is the blank step between two lines.
    pub fn waits_for_next_line(&self) -> (b: bool)
        ensures
            b == self@.wait_next_line,
    {
        self.wait_next_line
    }
}

/// The whole text of a timing track, written from an empty buffer under the
/// id `track_id`.
fn write_track(
    segments: &Vec<TimedSegOrFill>,
    track_id: u8,
    furi: &mut FuriMap,
    furi_debt: &mut FuriDebt,
) -> (text: String)
    ensures
        (Channel { text: text@, furi: final(furi)@, debt: final(furi_debt)@ }) == write_segs_spec(
            (Channel { text: Seq::empty(), furi: old(furi)@, debt: old(furi_debt)@ }),
            segments.deep_view(),
            track_id,
            segments.len() as nat,
        ),
{
    let mut text = String::new();
    let mut j: usize = 0;
    while j < segments.len()
        invariant
            j <= segments.len(),
            (Channel { text: text@, furi: furi@, debt: furi_debt@ }) == write_segs_spec(
                (Channel { text: Seq::empty(), furi: old(furi)@, debt: old(furi_debt)@ }),
                segments.deep_view(),
                track_id,
                j as nat,
            ),
        decreases segments.len() - j,
    {
        write_seg(&mut text, &segments[j], track_id, furi, furi_debt);
        j += 1;
    }
    text
}

/// Visits the track at position `k`; the result says whether the step goes
/// on.
fn step_track(tracking: &mut TrackingState, track: &Track, k: usize) -> (goes_on: bool)
    requires
        k < old(tracking)@.accumulators.len(),
        k < old(tracking)@.static_line_tracks.len(),
    ensures
        (final(tracking)@, goes_on) == track_step(old(tracking)@, track.deep_view(), k as int),
        final(tracking)@.accumulators.len() == old(tracking)@.accumulators.len(),
        final(tracking)@.static_line_tracks.len() == old(tracking)@.static_line_tracks.len(),
{
    match &track.data {
        TrackData::Raw(text) => {
            tracking.accumulators[k].1 = text.clone();
            assert(tracking@.accumulators =~= old(tracking)@.accumulators.update(
                k as int,
                (old(tracking)@.accumulators[k as int].0, text@),
            ));
            true
        },
        TrackData::Timing { segments } => {
            let sid = tracking.static_line_tracks[k].0;
            let whole = write_track(
                segments,
                sid,
                &mut tracking.static_furigana_indices,
                &mut tracking.static_furi_debt,
            );
            tracking.static_line_tracks[k].1 = whole;
            assert(tracking@.static_line_tracks =~= old(tracking)@.static_line_tracks.update(
                k as int,
                (sid, whole@),
            ));
            if tracking.seg_idx < segments.len() {
                let aid = tracking.accumulators[k].0;
                write_seg(
                    &mut tracking.accumulators[k].1,
                    &segments[tracking.seg_idx],
                    aid,
                    &mut tracking.timed_furigana_indices,
                    &mut tracking.timed_furi_debt,
                );
                assert(tracking@.accumulators =~= old(tracking)@.accumulators.update(
                    k as int,
                    (aid, tracking@.accumulators[k as int].1),
                ));
                true
            } else {
                false
            }
        },
    }
}

/// A track that stops the step stops it for good.
proof fn lemma_stopped_stays(t: TrackingView, tracks: Seq<TrackView>, k: nat, n: nat)
    requires
        k <= n,
        !tracks_step(t, tracks, k).1,
    ensures
        tracks_step(t, tracks, n) == tracks_step(t, tracks, k),
    decreases n,
{
    if n > k {
        lemma_stopped_stays(t, tracks, k, (n - 1) as nat);
    }
}

/// Moves the tracking state one step forward over `lines`: one call for
/// each recorded timestamp that playback passes.
#[verifier::loop_isolation(false)]
pub fn advance(tracking: &mut TrackingState, lines: &Vec<Line>)
    ensures
        final(tracking)@ == advance_spec(old(tracking)@, lines.deep_view()),
{
    reveal(advance_spec);
    if tracking.wait_next_line {
        tracking.wait_next_line = false;
        tracking.accumulators.clear();
        tracking.static_line_tracks.clear();
        tracking.static_furigana_indices.clear();
        tracking.timed_furigana_indices.clear();
        assert(tracking@.accumulators =~= Seq::empty());
        assert(tracking@.static_line_tracks =~= Seq::empty());
        return ;
    }
    if tracking.clear_next {
        tracking.accumulators.clear();
        tracking.clear_next = false;
        assert(tracking@.accumulators =~= Seq::empty());
    }
    assert(tracking@ == cleared(old(tracking)@));
    if tracking.line_idx < lines.len() {
        let line = &lines[tracking.line_idx];
        let ghost tracks = line.deep_view().tracks;
        if tracking.accumulators.len() < line.tracks.len() {
            tracking.accumulators = Vec::new();
            tracking.static_line_tracks = Vec::new();
            let mut i: usize = 0;
            while i < line.tracks.len()
                invariant
                    i <= line.tracks.len(),
                    tracking.accumulators.len() == i,
                    tracking.static_line_tracks.len() == i,
                    forall|j: int|
                        0 <= j < i ==> (#[trigger] tracking.accumulators[j]).0 == line.tracks[j].id
                            && tracking.accumulators[j].1@ == Seq::<char>::empty(),
                    forall|j: int|
                        0 <= j < i ==> (#[trigger] tracking.static_line_tracks[j]).0
                            == line.tracks[j].id && tracking.static_line_tracks[j].1@ == Seq::<
                            char,
                        >::empty(),
                    tracking.line_idx == old(tracking).line_idx,
                    tracking.seg_idx == old(tracking).seg_idx,
                    tracking.static_furigana_indices == old(tracking).static_furigana_indices,
                    tracking.timed_furigana_indices == old(tracking).timed_furigana_indices,
                    !tracking.clear_next,
                    !tracking.wait_next_line,
                    tracking.timestamp_tracker == old(tracking).timestamp_tracker,
                    tracking.static_furi_debt == old(tracking).static_furi_debt,
                    tracking.timed_furi_debt == old(tracking).timed_furi_debt,
                decreases line.tracks.len() - i,
            {
                tracking.accumulators.push((line.tracks[i].id, String::new()));
                tracking.static_line_tracks.push((line.tracks[i].id, String::new()));
                i += 1;
            }
            assert(tracking@.accumulators =~= blank_buffers(tracks));
            assert(tracking@.static_line_tracks =~= blank_buffers(tracks));
        }
        let ghost fit = tracking@;
        assert(fit == fitted(cleared(old(tracking)@), tracks));
        let n = if tracking.static_line_tracks.len() < line.tracks.len() {
            tracking.static_line_tracks.len()
        } else {
            line.tracks.len()
        };
        assert(n == paired_len(fit, tracks));
        let mut k: usize = 0;
        while k < n
            invariant
                k <= n,
                n <= line.tracks.len(),
                n <= tracking@.accumulators.len(),
                n <= tracking@.static_line_tracks.len(),
                tracks == line.deep_view().tracks,
                (tracking@, true) == tracks_step(fit, tracks, k as nat),
                tracking@.line_idx == fit.line_idx,
                fit.line_idx < lines.len(),
            decreases n - k,
        {
            let goes_on = step_track(tracking, &line.tracks[k], k);
            assert(line.tracks[k as int].deep_view() == tracks[k as int]);
            assert(tracks_step(fit, tracks, (k + 1) as nat) == (tracking@, goes_on));
            if !goes_on {
                proof {
                    lemma_stopped_stays(fit, tracks, (k + 1) as nat, n as nat);
                }
                return ;
            }
            k += 1;
        }
        if line.segment_count == 0 || tracking.seg_idx >= line.segment_count - 1 {
            tracking.clear_next = true;
            tracking.seg_idx = 0;
            tracking.line_idx = tracking.line_idx + 1;
            tracking.wait_next_line = true;
        } else {
            tracking.seg_idx = tracking.seg_idx + 1;
        }
    }
}

/// Whether every buffer of the list holds an empty text.
pub open spec fn all_blank(buffers: Seq<(u8, Seq<char>)>) -> bool {
    forall|i: int| 0 <= i < buffers.len() ==> (#[trigger] buffers[i]).1.len() == 0
}

/// Visiting raw tracks never stops the step, and leaves the whole-line
/// buffers, the annotation maps, the debts, the cursor and the flags as
/// they are.
proof fn lemma_raw_tracks_step(t: TrackingView, tracks: Seq<TrackView>, n: nat)
    requires
        n <= tracks.len(),
        forall|i: int| 0 <= i < tracks.len() ==> (#[trigger] tracks[i]).data is Raw,
    ensures
        tracks_step(t, tracks, n).1,
        tracks_step(t, tracks, n).0 == (TrackingView {
            accumulators: tracks_step(t, tracks, n).0.accumulators,
            ..t
        }),
    decreases n,
{
    if n > 0 {
        lemma_raw_tracks_step(t, tracks, (n - 1) as nat);
        assert(tracks[n - 1].data is Raw);
    }
}

/// Over a document with only raw tracks, a step that is not the blank step
/// between two lines leaves both annotation maps and both debts as they
/// are, and writes no whole-line text: if every whole-line buffer was empty
/// before the step, every one is empty after it. (The blank step empties
/// the maps, whatever the document.)
pub proof fn lemma_raw_only_step(t: TrackingView, lines: Seq<LineView>)
    requires
        only_raw_tracks(lines),
        !t.wait_next_line,
    ensures
        advance_spec(t, lines).static_furigana_indices == t.static_furigana_indices,
        advance_spec(t, lines).timed_furigana_indices == t.timed_furigana_indices,
        advance_spec(t, lines).static_furi_debt == t.static_furi_debt,
        advance_spec(t, lines).timed_furi_debt == t.timed_furi_debt,
        all_blank(t.static_line_tracks) ==> all_blank(advance_spec(t, lines).static_line_tracks),
{
    reveal(advance_spec);
    let t1 = cleared(t);
    if t1.line_idx < lines.len() {
        let line = lines[t1.line_idx as int];
        assert forall|i: int| 0 <= i < line.tracks.len() implies (#[trigger] line.tracks[i]).data is Raw by {
            assert(lines[t1.line_idx as int].tracks[i].data is Raw);
        }
        let t2 = fitted(t1, line.tracks);
        lemma_raw_tracks_step(t2, line.tracks, paired_len(t2, line.tracks));
    }
}

/// Over a document with only raw tracks, a run from the initial state never
/// has an annotation, a debt or a whole-line text: after any number of
/// steps both annotation maps are empty, nothing is owed, and every
/// whole-line buffer is empty.
pub proof fn lemma_raw_only_replay(lines: Seq<LineView>, n: nat)
    requires
        only_raw_tracks(lines),
    ensures
        replay(initial_tracking(), lines, n).static_furigana_indices.len() == 0,
        replay(initial_tracking(), lines, n).timed_furigana_indices.len() == 0,
        replay(initial_tracking(), lines, n).static_furi_debt == no_debt(),
        replay(initial_tracking(), lines, n).timed_furi_debt == no_debt(),
        all_blank(replay(initial_tracking(), lines, n).static_line_tracks),
    decreases n,
{
    if n > 0 {
        lemma_raw_only_replay(lines, (n - 1) as nat);
        let t = replay(initial_tracking(), lines, (n - 1) as nat);
        if t.wait_next_line {
            reveal(advance_spec);
        } else {
            lemma_raw_only_step(t, lines);
        }
    }
}

/// A step leaves the count of passed timestamps as it is.
pub proof fn lemma_step_keeps_tracker(t: TrackingView, lines: Seq<LineView>)
    ensures
        advance_spec(t, lines).timestamp_tracker == t.timestamp_tracker,
{
    reveal(advance_spec);
    let t1 = cleared(t);
    if !t.wait_next_line && t1.line_idx < lines.len() {
        let line = lines[t1.line_idx as int];
        let t2 = fitted(t1, line.tracks);
        lemma_tracks_step_keeps_tracker(t2, line.tracks, paired_len(t2, line.tracks));
    }
}

proof fn lemma_tracks_step_keeps_tracker(t: TrackingView, tracks: Seq<TrackView>, n: nat)
    ensures
        tracks_step(t, tracks, n).0.timestamp_tracker == t.timestamp_tracker,
    decreases n,
{
    if n > 0 {
        lemma_tracks_step_keeps_tracker(t, tracks, (n - 1) as nat);
    }
}

/// Whether no key has two entries in either annotation map.
pub open spec fn maps_are_maps(t: TrackingView) -> bool {
    furi_keys_unique(t.static_furigana_indices) && furi_keys_unique(t.timed_furigana_indices)
}

proof fn lemma_tracks_step_keeps_maps(t: TrackingView, tracks: Seq<TrackView>, n: nat)
    requires
        maps_are_maps(t),
    ensures
        maps_are_maps(tracks_step(t, tracks, n).0),
    decreases n,
{
    if n > 0 {
        lemma_tracks_step_keeps_maps(t, tracks, (n - 1) as nat);
        let before = tracks_step(t, tracks, (n - 1) as nat);
        if before.1 {
            let p = before.0;
            match tracks[n - 1].data {
                TrackDataView::Raw(text) => {},
                TrackDataView::Timing { segments } => {
                    lemma_write_segs_keep_keys_unique(
                        Channel {
                            text: Seq::empty(),
                            furi: p.static_furigana_indices,
                            debt: p.static_furi_debt,
                        },
                        segments,
                        p.static_line_tracks[n - 1].0,
                        segments.len(),
                    );
                    if p.seg_idx < segments.len() {
                        lemma_write_seg_keeps_keys_unique(
                            Channel {
                                text: p.accumulators[n - 1].1,
                                furi: p.timed_furigana_indices,
                                debt: p.timed_furi_debt,
                            },
                            segments[p.seg_idx as int],
                            p.accumulators[n - 1].0,
                        );
                    }
                },
            }
        }
    }
}

/// The annotation maps stay maps: if no key has two entries before a step,
/// none has after it. In a run from the initial state this holds throughout.
pub proof fn lemma_step_keeps_maps(t: TrackingView, lines: Seq<LineView>)
    requires
        maps_are_maps(t),
    ensures
        maps_are_maps(advance_spec(t, lines)),
{
    reveal(advance_spec);
    let t1 = cleared(t);
    if !t.wait_next_line && t1.line_idx < lines.len() {
        let line = lines[t1.line_idx as int];
        let t2 = fitted(t1, line.tracks);
        lemma_tracks_step_keeps_maps(t2, line.tracks, paired_len(t2, line.tracks));
    }
}

} // verus!
