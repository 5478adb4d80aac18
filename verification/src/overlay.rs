//! Where the timeline lies in the window.

use crate::coords::{Present, VideoDim, VideoMag, VideoRect};
use vstd::prelude::*;

verus! {

/// The space left free at each side of the timeline.
pub const TIMELINE_MARGIN: VideoMag = 20;

/// The height of the timeline.
pub const TIMELINE_H: VideoMag = 12;

/// The rectangle of the timeline in a video area of the given size: one
/// margin from the left, the right and the bottom.
pub fn timeline_rect(video_area_max_dim: VideoDim<Present>) -> (r: VideoRect<Present>)
    requires
        video_area_max_dim.x >= 2 * TIMELINE_MARGIN,
        video_area_max_dim.y >= TIMELINE_MARGIN,
    ensures
        r.pos.x == TIMELINE_MARGIN,
        r.pos.y == video_area_max_dim.y - TIMELINE_MARGIN,
        r.dim.x == video_area_max_dim.x - 2 * TIMELINE_MARGIN,
        r.dim.y == TIMELINE_H,
{
    VideoRect::new(
        TIMELINE_MARGIN,
        video_area_max_dim.y - TIMELINE_MARGIN,
        video_area_max_dim.x - TIMELINE_MARGIN * 2,
        TIMELINE_H,
    )
}

/// Whether the point lies in the rectangle: at or after its left and top
/// edge, before its right and bottom edge.
pub open spec fn rect_contains(r: VideoRect<Present>, x: VideoMag, y: VideoMag) -> bool {
    r.pos.x <= x < r.pos.x + r.dim.x && r.pos.y <= y < r.pos.y + r.dim.y
}

/// Whether the point lies in the rectangle.
pub fn contains(r: &VideoRect<Present>, x: VideoMag, y: VideoMag) -> (inside: bool)
    ensures
        inside == rect_contains(*r, x, y),
{
    let right: u32 = r.pos.x as u32 + r.dim.x as u32;
    let bottom: u32 = r.pos.y as u32 + r.dim.y as u32;
    r.pos.x <= x && (x as u32) < right && r.pos.y <= y && (y as u32) < bottom
}

/// How far into the timeline a click at `x` is, from its left edge.
pub fn timeline_offset(r: &VideoRect<Present>, x: VideoMag) -> (offset: VideoMag)
    requires
        r.pos.x <= x,
    ensures
        offset == x - r.pos.x,
{
    x - r.pos.x
}

} // verus!
