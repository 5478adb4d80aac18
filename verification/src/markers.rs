//! What the user marks in a video: rectangles, spans of time, texts, and
//! named presets for the video output.

use crate::coords::{Src, VideoDim, VideoMag, VideoPos, VideoRect, VideoVector};
use vstd::prelude::*;

verus! {

/// A span of time, in whole microseconds.
#[derive(Clone, Copy, Debug, PartialEq, Eq, Structural)]
pub struct TimeSpan {
    pub begin: u64,
    pub end: u64,
}

impl TimeSpan {
    /// Whether `pos` lies in the span: at or after its begin, before its end.
    pub fn contains(&self, pos: u64) -> (inside: bool)
        ensures
            inside == (self.begin <= pos < self.end),
    {
        self.begin <= pos && pos < self.end
    }
}

/// A named rectangle of the source video.
pub struct RectMarker {
    pub rect: VideoRect<Src>,
    pub name: String,
}

/// A named span of time.
pub struct TimespanMarker {
    pub timespan: TimeSpan,
    pub name: String,
}

/// All markers of a source.
pub struct SourceMarkers {
    pub rects: Vec<RectMarker>,
    pub timespans: Vec<TimespanMarker>,
}

/// A text drawn over the video for a span of time.
pub struct Text {
    pub string: String,
    pub pos: VideoPos<Src>,
    pub timespan: TimeSpan,
    pub size: u32,
    pub borderw: u16,
    pub font_path: String,
}

/// How the video is encoded: pixel format and codec, each optional.
pub struct VideoOutPreset {
    pub desc: String,
    pub codec: Option<String>,
    pub pix_fmt: Option<String>,
}

/// A preset under its name.
pub struct NamedPreset {
    pub name: String,
    pub preset: VideoOutPreset,
}

/// A rectangle drag that is under way.
#[derive(Clone, Copy, Debug, PartialEq, Eq, Structural)]
pub enum RectDragStatus {
    Init,
    ClickedTopLeft,
}

/// The drag of the rectangle at `idx`.
pub struct RectDrag {
    pub idx: usize,
    pub status: RectDragStatus,
}

impl RectDrag {
    /// A drag of the rectangle at `idx` that has not begun.
    pub fn new(idx: usize) -> (d: RectDrag)
        ensures
            d.idx == idx,
            d.status == RectDragStatus::Init,
    {
        RectDrag { idx, status: RectDragStatus::Init }
    }
}

impl Default for SourceMarkers {
    fn default() -> (m: SourceMarkers)
        ensures
            m.rects@.len() == 0,
            m.timespans@.len() == 0,
    {
        SourceMarkers { rects: Vec::new(), timespans: Vec::new() }
    }
}

pub const SAMPLE_TEXT: &'static str = "Sample text";

impl Default for Text {
    /// A sample text at the top left, shown for the first hundred seconds.
    fn default() -> (t: Text)
        ensures
            t.string@ == SAMPLE_TEXT@,
            t.pos.x == 0 && t.pos.y == 0,
            t.timespan == (TimeSpan { begin: 0, end: 100_000_000 }),
            t.size == 16,
            t.borderw == 0,
            t.font_path@ == Seq::<char>::empty(),
    {
        let mut string = String::new();
        string.append(SAMPLE_TEXT);
        assert(string@ =~= SAMPLE_TEXT@);
        Text {
            string,
            pos: VideoVector::new(0, 0),
            timespan: TimeSpan { begin: 0, end: 100_000_000 },
            size: 16,
            borderw: 0,
            font_path: String::new(),
        }
    }
}

/// What the mouse is doing to the picture: dragging out a rectangle, or
/// panning.
pub struct InteractState {
    pub rect_drag: Option<RectDrag>,
    pub pan_cursor_origin: Option<VideoPos<Src>>,
    pub pan_image_original_pos: Option<VideoPos<Src>>,
    pub pan_pos: VideoPos<Src>,
}

impl Default for InteractState {
    fn default() -> (s: InteractState)
        ensures
            s.rect_drag is None,
            s.pan_cursor_origin is None,
            s.pan_image_original_pos is None,
            s.pan_pos.x == 0 && s.pan_pos.y == 0,
    {
        InteractState {
            rect_drag: None,
            pan_cursor_origin: None,
            pan_image_original_pos: None,
            pan_pos: VideoVector::new(0, 0),
        }
    }
}

/// The size of a rectangle dragged from `origin` to `pos`.
pub fn drag_extent(origin: VideoPos<Src>, pos: VideoPos<Src>) -> (dim: VideoDim<Src>)
    requires
        origin.x <= pos.x,
        origin.y <= pos.y,
    ensures
        dim.x == pos.x - origin.x,
        dim.y == pos.y - origin.y,
{
    VideoVector::new(pos.x - origin.x, pos.y - origin.y)
}

/// The smaller of two magnitudes.
pub open spec fn min_mag(a: VideoMag, b: VideoMag) -> VideoMag {
    if a < b {
        a
    } else {
        b
    }
}

/// The size of a rectangle dragged from `origin` to `pos` in a source of
/// size `src`: it ends where the drag ends, or at the edge of the source
/// where the drag went beyond it.
pub fn release_extent(origin: VideoPos<Src>, pos: VideoPos<Src>, src: VideoDim<Src>) -> (dim:
    VideoDim<Src>)
    requires
        origin.x <= pos.x,
        origin.y <= pos.y,
        origin.x <= src.x,
        origin.y <= src.y,
    ensures
        dim.x == min_mag(pos.x, src.x) - origin.x,
        dim.y == min_mag(pos.y, src.y) - origin.y,
{
    let w = if pos.x > src.x {
        src.x - origin.x
    } else {
        pos.x - origin.x
    };
    let h = if pos.y > src.y {
        src.y - origin.y
    } else {
        pos.y - origin.y
    };
    VideoVector::new(w, h)
}

/// Where the picture stands while it is panned: as far up and left of
/// where it stood as the cursor is of where it took hold.
pub fn panned(image_origin: VideoPos<Src>, cursor_origin: VideoPos<Src>, cursor: VideoPos<Src>) -> (pos:
    VideoPos<Src>)
    requires
        cursor.x <= cursor_origin.x,
        cursor.y <= cursor_origin.y,
        cursor_origin.x - cursor.x <= image_origin.x,
        cursor_origin.y - cursor.y <= image_origin.y,
    ensures
        pos.x == image_origin.x - (cursor_origin.x - cursor.x),
        pos.y == image_origin.y - (cursor_origin.y - cursor.y),
{
    VideoVector::new(
        image_origin.x - (cursor_origin.x - cursor.x),
        image_origin.y - (cursor_origin.y - cursor.y),
    )
}

} // verus!
