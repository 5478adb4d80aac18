//! The subtitle session: a lyric document, the tracking state over it, the
//! recorded timestamps, and one checkpoint of both.

use crate::ass::{ass_script, interval_count, preamble, render_script};
use crate::document::{Line, LineView};
use crate::timings::{parse_timings, parse_timings_spec, render_timings, timings_text};
use crate::tracking::{
    advance, advance_spec, initial_tracking, lemma_step_keeps_tracker, replay, TrackingState,
    TrackingView,
};
use vstd::prelude::*;

verus! {

/// The name of the timestamp file of a session that has read none.
pub const DEFAULT_TIMINGS_PATH: &'static str = "sub-timing.txt";

/// A checkpoint: the tracking state and the timestamps at the moment it was
/// taken, and the playback position in microseconds handed in with them.
pub struct Save {
    tracking: TrackingState,
    time_stamps: Vec<u64>,
    pub mpv_position: u64,
}

/// View of a [`Save`].
pub ghost struct SaveView {
    pub tracking: TrackingView,
    pub time_stamps: Seq<u64>,
    pub mpv_position: u64,
}

impl View for Save {
    type V = SaveView;

    closed spec fn view(&self) -> SaveView {
        SaveView {
            tracking: self.tracking@,
            time_stamps: self.time_stamps@,
            mpv_position: self.mpv_position,
        }
    }
}

/// The checkpoint of a fresh session: the initial state, no timestamps,
/// position 0.
pub open spec fn empty_save() -> SaveView {
    SaveView { tracking: initial_tracking(), time_stamps: Seq::empty(), mpv_position: 0 }
}

impl Default for Save {
    fn default() -> (s: Save)
        ensures
            s@ == empty_save(),
    {
        Save { tracking: TrackingState::default(), time_stamps: Vec::new(), mpv_position: 0 }
    }
}

/// A subtitle session. Timestamps are whole microseconds.
pub struct SubsState {
    lines: Vec<Line>,
    pub tracking: TrackingState,
    pub saved: Save,
    timings_path: Option<String>,
    pub time_stamps: Vec<u64>,
    path: String,
}

/// View of a [`SubsState`].
pub ghost struct SubsView {
    pub lines: Seq<LineView>,
    pub tracking: TrackingView,
    pub saved: SaveView,
    pub timings_path: Option<Seq<char>>,
    pub time_stamps: Seq<u64>,
    pub path: Seq<char>,
}

impl View for SubsState {
    type V = SubsView;

    closed spec fn view(&self) -> SubsView {
        SubsView {
            lines: self.lines.deep_view(),
            tracking: self.tracking@,
            saved: self.saved@,
            timings_path: match self.timings_path {
                Some(p) => Some(p@),
                None => None,
            },
            time_stamps: self.time_stamps@,
            path: self.path@,
        }
    }
}

/// The session with a checkpoint of its present state.
pub open spec fn with_save(s: SubsView, mpv_position: u64) -> SubsView {
    SubsView {
        saved: SaveView { tracking: s.tracking, time_stamps: s.time_stamps, mpv_position },
        ..s
    }
}

/// The session taken back to its checkpoint. The tracking state is that of
/// the checkpoint. The timestamps are those of the checkpoint if it has
/// any; a checkpoint without timestamps leaves the session's own.
pub open spec fn reloaded(s: SubsView) -> SubsView {
    SubsView {
        tracking: s.saved.tracking,
        time_stamps: if s.saved.time_stamps.len() > 0 {
            s.saved.time_stamps
        } else {
            s.time_stamps
        },
        ..s
    }
}

/// The session with its tracking state back at the start.
pub open spec fn rewound(s: SubsView) -> SubsView {
    SubsView { tracking: initial_tracking(), ..s }
}

/// The session without timestamps and with its tracking state back at the
/// start.
pub open spec fn emptied(s: SubsView) -> SubsView {
    SubsView { time_stamps: Seq::empty(), ..rewound(s) }
}

/// The session after the timestamp text `contents` of the file `path` is
/// read into it. The timestamps are replaced by those read. The file is
/// remembered only if every token up to the first empty one was a
/// timestamp.
pub open spec fn with_timings(s: SubsView, contents: Seq<char>, path: Seq<char>) -> SubsView {
    let scan = parse_timings_spec(contents);
    SubsView {
        time_stamps: scan.stamps,
        timings_path: if scan.bad_token is None {
            Some(path)
        } else {
            s.timings_path
        },
        ..s
    }
}

/// Whether playback at `position` has reached the next recorded timestamp
/// that it has not passed yet.
pub open spec fn reaches_next(s: SubsView, position: u64) -> bool {
    s.tracking.timestamp_tracker < s.time_stamps.len() && position
        >= s.time_stamps[s.tracking.timestamp_tracker as int]
}

/// The session after playback is seen at `position`: if it has reached the
/// next recorded timestamp, the tracking state takes one step and counts
/// that timestamp as passed; else nothing changes.
pub open spec fn followed(s: SubsView, position: u64) -> SubsView {
    if reaches_next(s, position) {
        SubsView {
            tracking: TrackingView {
                timestamp_tracker: s.tracking.timestamp_tracker + 1,
                ..advance_spec(s.tracking, s.lines)
            },
            ..s
        }
    } else {
        s
    }
}

/// The file that the timestamps go to: the one last read, or else the
/// default one.
pub open spec fn timings_target(s: SubsView) -> Seq<char> {
    match s.timings_path {
        Some(p) => p,
        None => DEFAULT_TIMINGS_PATH@,
    }
}

/// A token of a timestamp text that is no timestamp.
pub struct TimingParseError {
    /// The position of the token among those split off at spaces.
    pub token: usize,
}

/// A file to be written: where, and what.
pub struct TimingsFile {
    pub path: String,
    pub contents: String,
}

/// The name of a timestamp file as a session remembers it. Only a session
/// hands one out, so whoever holds one holds a name that was remembered.
pub struct RememberedPath {
    path: String,
}

impl View for RememberedPath {
    type V = Seq<char>;

    closed spec fn view(&self) -> Seq<char> {
        self.path@
    }
}

impl RememberedPath {
    /// The name of the file.
    pub fn as_string(&self) -> (path: &String)
        ensures
            path@ == self@,
    {
        &self.path
    }
}

/// The right to read the remembered timestamp file again, once. It holds the
/// session for as long as it lives, so no one else can change the session
/// under it, and it carries the name of the file as the session remembered
/// it when the sentry was made.
pub struct TimingsReloadSentry<'a> {
    pub subs: &'a mut SubsState,
    pub path: RememberedPath,
}

/// A copy of a list of timestamps.
fn clone_stamps(v: &Vec<u64>) -> (r: Vec<u64>)
    ensures
        r@ == v@,
{
    let mut r: Vec<u64> = Vec::new();
    let mut i: usize = 0;
    while i < v.len()
        invariant
            i <= v.len(),
            r@ == v@.take(i as int),
        decreases v.len() - i,
    {
        r.push(v[i]);
        i += 1;
        assert(r@ =~= v@.take(i as int));
    }
    assert(v@.take(v@.len() as int) =~= v@);
    r
}

impl SubsState {
    /// A session over the document `lines`, which was read from `path`.
    pub fn new(lines: Vec<Line>, path: String) -> (s: SubsState)
        ensures
            s@ == (SubsView {
                lines: lines.deep_view(),
                tracking: initial_tracking(),
                saved: empty_save(),
                timings_path: None,
                time_stamps: Seq::empty(),
                path: path@,
            }),
    {
        SubsState {
            lines,
            tracking: TrackingState::default(),
            saved: Save::default(),
            time_stamps: Vec::new(),
            timings_path: None,
            path,
        }
    }

    /// The document.
    pub fn lines(&self) -> (lines: &Vec<Line>)
        ensures
            lines.deep_view() == self@.lines,
    {
        &self.lines
    }

    /// The file that the document was read from.
    pub fn path(&self) -> (path: &String)
        ensures
            path@ == self@.path,
    {
        &self.path
    }

    /// The tracking state, as the view shows it.
    pub fn tracking(&self) -> (t: &TrackingState)
        ensures
            t@ == self@.tracking,
    {
        &self.tracking
    }

    /// The recorded timestamps, as the view shows them.
    pub fn time_stamps(&self) -> (ts: &Vec<u64>)
        ensures
            ts@ == self@.time_stamps,
    {
        &self.time_stamps
    }

    /// Moves the tracking state one step forward.
    pub fn advance(&mut self)
        ensures
            final(self)@ == (SubsView {
                tracking: advance_spec(old(self)@.tracking, old(self)@.lines),
                ..old(self)@
            }),
    {
        advance(&mut self.tracking, &self.lines);
    }

    /// Records `t`, a playback position in microseconds, as the next
    /// timestamp.
    pub fn record(&mut self, t: u64)
        ensures
            final(self)@ == (SubsView {
                time_stamps: old(self)@.time_stamps.push(t),
                ..old(self)@
            }),
    {
        self.time_stamps.push(t);
    }

    /// Follows playback: `position` is where it stands, in microseconds. The
    /// result says whether a step was taken.
    pub fn follow(&mut self, position: u64) -> (stepped: bool)
        ensures
            final(self)@ == followed(old(self)@, position),
            stepped == reaches_next(old(self)@, position),
    {
        let tracker = self.tracking.timestamp_tracker();
        if tracker < self.time_stamps.len() && position >= self.time_stamps[tracker] {
            proof {
                lemma_step_keeps_tracker(self@.tracking, self@.lines);
            }
            advance(&mut self.tracking, &self.lines);
            self.tracking.pass_timestamp();
            true
        } else {
            false
        }
    }

    /// Takes a checkpoint of the tracking state and the timestamps.
    pub fn save_state(&mut self, mpv_pos: u64)
        ensures
            final(self)@ == with_save(old(self)@, mpv_pos),
    {
        self.saved = Save {
            tracking: self.tracking.clone(),
            time_stamps: clone_stamps(&self.time_stamps),
            mpv_position: mpv_pos,
        };
    }

    /// Goes back to the checkpoint.
    pub fn reload_state(&mut self)
        ensures
            final(self)@ == reloaded(old(self)@),
    {
        self.tracking = self.saved.tracking.clone();
        if self.saved.time_stamps.len() > 0 {
            self.time_stamps = clone_stamps(&self.saved.time_stamps);
        }
    }

    /// Replaces the timestamps by those that `contents`, the text of the
    /// file `path`, holds. Fails on the first token that is no timestamp;
    /// the timestamps before it are kept, and the file is not remembered.
    pub fn load_timings(&mut self, contents: &str, path: String) -> (r: Result<
        (),
        TimingParseError,
    >)
        ensures
            final(self)@ == with_timings(old(self)@, contents@, path@),
            match r {
                Ok(_) => parse_timings_spec(contents@).bad_token is None,
                Err(e) => parse_timings_spec(contents@).bad_token == Some(e.token as nat),
            },
    {
        let parsed = parse_timings(contents);
        self.time_stamps = parsed.stamps;
        match parsed.bad_token {
            Some(token) => Err(TimingParseError { token }),
            None => {
                self.timings_path = Some(path);
                Ok(())
            },
        }
    }

    /// The timestamp file as it is to be written: the text of the
    /// timestamps, for the file last read or else the default one.
    pub fn save_timings(&self) -> (file: TimingsFile)
        ensures
            file.path@ == timings_target(self@),
            file.contents@ == render_timings(self@.time_stamps),
    {
        let path = match &self.timings_path {
            Some(p) => p.clone(),
            None => {
                let mut p = String::new();
                p.append(DEFAULT_TIMINGS_PATH);
                assert(p@ =~= DEFAULT_TIMINGS_PATH@);
                p
            },
        };
        TimingsFile { path, contents: timings_text(&self.time_stamps) }
    }

    /// Puts the tracking state back at the start. The timestamps stay.
    pub fn rewind(&mut self)
        ensures
            final(self)@ == rewound(old(self)@),
    {
        self.tracking = TrackingState::default();
    }

    /// Drops the timestamps and puts the tracking state back at the start.
    pub fn clear(&mut self)
        ensures
            final(self)@ == emptied(old(self)@),
    {
        self.time_stamps.clear();
        self.rewind();
    }

    /// The right to read the timestamp file again, if one is remembered.
    pub fn timings_reload_sentry(&mut self) -> (sentry: Option<TimingsReloadSentry<'_>>)
        ensures
            sentry is Some <==> old(self)@.timings_path is Some,
            sentry matches Some(s) ==> Some(s.path@) == old(self)@.timings_path && s.subs@ == old(
                self,
            )@ && final(s.subs)@ == final(self)@,
            sentry is None ==> final(self)@ == old(self)@,
    {
        match &self.timings_path {
            Some(p) => {
                let path = RememberedPath { path: p.clone() };
                Some(TimingsReloadSentry { subs: self, path })
            },
            None => None,
        }
    }

    /// Replaces the document. The tracking state is left as it is.
    pub fn reload(&mut self, lines: Vec<Line>)
        ensures
            final(self)@ == (SubsView { lines: lines.deep_view(), ..old(self)@ }),
    {
        self.lines = lines;
    }

    /// Renders the subtitle script for a video of the given size: from the
    /// present tracking state, one step is taken for each pair of
    /// neighbouring timestamps, and what the step leads to is shown from the
    /// first timestamp of the pair to the second.
    pub fn gen_ass(&mut self, video_w: i64, video_h: i64) -> (script: String)
        ensures
            script@ == ass_script(
                old(self)@.lines,
                old(self)@.tracking,
                old(self)@.time_stamps,
                video_w as int,
                video_h as int,
            ),
            final(self)@ == (SubsView {
                tracking: replay(
                    old(self)@.tracking,
                    old(self)@.lines,
                    interval_count(old(self)@.time_stamps.len()),
                ),
                ..old(self)@
            }),
            old(self)@.time_stamps.len() < 2 ==> script@ == preamble(
                old(self)@.lines,
                video_w as int,
                video_h as int,
            ) && final(self)@ == old(self)@,
    {
        render_script(&mut self.tracking, &self.lines, &self.time_stamps, video_w, video_h)
    }
}

impl<'a> TimingsReloadSentry<'a> {
    /// The file that is to be read again.
    pub fn path(&self) -> (path: &String)
        ensures
            path@ == self.path@,
    {
        self.path.as_string()
    }

    /// Reads `contents`, the present text of the remembered file, into the
    /// session, as [`SubsState::load_timings`] does.
    pub fn reload(self, contents: &str) -> (r: Result<(), TimingParseError>)
        ensures
            final(self.subs)@ == with_timings(old(self.subs)@, contents@, self.path@),
            match r {
                Ok(_) => parse_timings_spec(contents@).bad_token is None,
                Err(e) => parse_timings_spec(contents@).bad_token == Some(e.token as nat),
            },
    {
        self.subs.load_timings(contents, self.path.path)
    }
}

/// Going back to the checkpoint twice in a row gives what going back once
/// gives: the same tracking state, and the same timestamps.
pub proof fn lemma_reload_state_idempotent(s: SubsView)
    ensures
        reloaded(reloaded(s)) == reloaded(s),
{
}

/// Taking a checkpoint and going back to it at once changes neither the
/// tracking state, annotation maps included, nor the timestamps.
pub proof fn lemma_save_then_reload(s: SubsView, mpv_position: u64)
    ensures
        reloaded(with_save(s, mpv_position)).tracking == s.tracking,
        reloaded(with_save(s, mpv_position)).time_stamps == s.time_stamps,
{
    assert(reloaded(with_save(s, mpv_position)).time_stamps =~= s.time_stamps);
}

/// A checkpoint outlives the loss of the timestamps: after a checkpoint is
/// taken and the session is then emptied, going back restores the tracking
/// state and the timestamps of the moment of the checkpoint.
pub proof fn lemma_reload_after_clear(s: SubsView, mpv_position: u64)
    ensures
        reloaded(emptied(with_save(s, mpv_position))).tracking == s.tracking,
        reloaded(emptied(with_save(s, mpv_position))).time_stamps == s.time_stamps,
{
    assert(reloaded(emptied(with_save(s, mpv_position))).time_stamps =~= s.time_stamps);
}

/// Going back to a checkpoint that has timestamps replaces the session's
/// timestamps by them; going back to one that has none keeps the session's.
pub proof fn lemma_reload_timestamps(s: SubsView)
    ensures
        s.saved.time_stamps.len() > 0 ==> reloaded(s).time_stamps == s.saved.time_stamps,
        s.saved.time_stamps.len() == 0 ==> reloaded(s).time_stamps == s.time_stamps,
{
}

} // verus!
