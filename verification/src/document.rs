//! The lyric document: an ordered list of lines, each with parallel tracks.
//!
//! A document is parsed once and then only read. Every type here has a
//! mathematical view (`deep_view`) in which strings are sequences of
//! characters and vectors are sequences.

use vstd::prelude::*;

verus! {

/// One step of a timing track.
pub enum TimedSegOrFill {
    /// A piece of text, with the ruby fragments that annotate it. The first
    /// fragment is placed when the segment is written, each further one by a
    /// later `Fill`.
    Seg { text: String, furigana: Vec<String> },
    /// A step that reveals no text but may place one pending ruby fragment.
    Fill,
}

/// What a track holds.
pub enum TrackData {
    /// Text revealed step by step.
    Timing { segments: Vec<TimedSegOrFill> },
    /// Text shown whole.
    Raw(String),
}

/// One voice of a line. The `id` names its buffers in the tracking state.
pub struct Track {
    pub id: u8,
    pub data: TrackData,
}

/// One line of the document. `segment_count` is the number of steps that
/// reveal it completely.
pub struct Line {
    pub tracks: Vec<Track>,
    pub segment_count: usize,
}

/// View of a [`TimedSegOrFill`].
pub ghost enum SegView {
    Seg { text: Seq<char>, furigana: Seq<Seq<char>> },
    Fill,
}

/// View of a [`TrackData`].
pub ghost enum TrackDataView {
    Timing { segments: Seq<SegView> },
    Raw(Seq<char>),
}

/// View of a [`Track`].
pub ghost struct TrackView {
    pub id: u8,
    pub data: TrackDataView,
}

/// View of a [`Line`].
pub ghost struct LineView {
    pub tracks: Seq<TrackView>,
    pub segment_count: nat,
}

impl DeepView for TimedSegOrFill {
    type V = SegView;

    open spec fn deep_view(&self) -> SegView {
        match self {
            TimedSegOrFill::Seg { text, furigana } => SegView::Seg {
                text: text@,
                furigana: furigana.deep_view(),
            },
            TimedSegOrFill::Fill => SegView::Fill,
        }
    }
}

impl DeepView for TrackData {
    type V = TrackDataView;

    open spec fn deep_view(&self) -> TrackDataView {
        match self {
            TrackData::Timing { segments } => TrackDataView::Timing {
                segments: segments.deep_view(),
            },
            TrackData::Raw(text) => TrackDataView::Raw(text@),
        }
    }
}

impl DeepView for Track {
    type V = TrackView;

    open spec fn deep_view(&self) -> TrackView {
        TrackView { id: self.id, data: self.data.deep_view() }
    }
}

impl DeepView for Line {
    type V = LineView;

    open spec fn deep_view(&self) -> LineView {
        LineView { tracks: self.tracks.deep_view(), segment_count: self.segment_count as nat }
    }
}

/// The text of a segment: what writing it appends to a buffer.
pub open spec fn seg_text(seg: SegView) -> Seq<char> {
    match seg {
        SegView::Seg { text, .. } => text,
        SegView::Fill => Seq::empty(),
    }
}

/// The texts of the first `n` segments, one after the other.
pub open spec fn segs_text(segs: Seq<SegView>, n: nat) -> Seq<char>
    decreases n,
{
    if n == 0 {
        Seq::empty()
    } else {
        segs_text(segs, (n - 1) as nat) + seg_text(segs[n - 1])
    }
}

/// Whether every track of every line is a raw track.
pub open spec fn only_raw_tracks(lines: Seq<LineView>) -> bool {
    forall|l: int, t: int|
        0 <= l < lines.len() && 0 <= t < lines[l].tracks.len() ==> (#[trigger] lines[l].tracks[t]).data is Raw
}

} // verus!
