//! Sizes and positions in a video, tagged with what they measure and in
//! which coordinate space.

use std::marker::PhantomData;
use vstd::prelude::*;

verus! {

/// Video size magnitude.
pub type VideoMag = u16;

/// A pair of magnitudes. `Kind` says whether it is a dimension or a
/// position, `Space` in which coordinate space it lies.
pub struct VideoVector<Kind, Space> {
    pub x: VideoMag,
    pub y: VideoMag,
    pub kind: PhantomData<Kind>,
    pub space: PhantomData<Space>,
}

impl<Kind, Space> Clone for VideoVector<Kind, Space> {
    fn clone(&self) -> (v: Self)
        ensures
            v == *self,
    {
        VideoVector { x: self.x, y: self.y, kind: PhantomData, space: PhantomData }
    }
}

impl<Kind, Space> Copy for VideoVector<Kind, Space> {

}

/// Dimension (w, h). A tag: it is only ever named as a type.
pub enum Dim {
    Tag,
}

pub type VideoDim<Space> = VideoVector<Dim, Space>;

/// Position (x, y). A tag: it is only ever named as a type.
pub enum Pos {
    Tag,
}

pub type VideoPos<Space> = VideoVector<Pos, Space>;

/// Source coordinate space. A tag: it is only ever named as a type.
pub enum Src {
    Tag,
}

/// Present coordinate space. A tag: it is only ever named as a type.
pub enum Present {
    Tag,
}

impl<Kind, Space> VideoVector<Kind, Space> {
    /// The vector with the given magnitudes.
    pub fn new(x: VideoMag, y: VideoMag) -> (v: Self)
        ensures
            v.x == x,
            v.y == y,
    {
        VideoVector { x, y, kind: PhantomData, space: PhantomData }
    }
}

impl<Kind> VideoVector<Kind, Src> {
    /// The same magnitudes, read in the present space.
    pub fn as_present(self) -> (v: VideoVector<Kind, Present>)
        ensures
            v.x == self.x,
            v.y == self.y,
    {
        VideoVector { x: self.x, y: self.y, kind: PhantomData, space: PhantomData }
    }
}

/// A rectangle: where it starts, and how far it reaches.
pub struct VideoRect<Space> {
    pub pos: VideoPos<Space>,
    pub dim: VideoDim<Space>,
}

impl<Space> VideoRect<Space> {
    /// The rectangle at `(x, y)` of width `w` and height `h`.
    pub fn new(x: VideoMag, y: VideoMag, w: VideoMag, h: VideoMag) -> (r: Self)
        ensures
            r.pos.x == x,
            r.pos.y == y,
            r.dim.x == w,
            r.dim.y == h,
    {
        VideoRect { pos: VideoVector::new(x, y), dim: VideoVector::new(w, h) }
    }
}

/// The number of bytes of an RGBA image of `w` by `h` pixels.
pub open spec fn rgba_len(w: int, h: int) -> int {
    w * h * 4
}

impl<Space> VideoVector<Dim, Space> {
    /// The length of an RGBA buffer that can hold the data of a video of
    /// this dimension.
    pub fn rgba_bytes_len(&self) -> (n: usize)
        requires
            rgba_len(self.x as int, self.y as int) <= usize::MAX,
        ensures
            n == rgba_len(self.x as int, self.y as int),
    {
        let w = self.x as usize;
        let h = self.y as usize;
        assert(w * h <= w * h * 4) by (nonlinear_arith)
            requires
                w >= 0,
                h >= 0,
        ;
        w * h * 4
    }
}

} // verus!
