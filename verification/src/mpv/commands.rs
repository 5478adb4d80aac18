//! Commands of the player: their names and the texts of their arguments.

use crate::text::{decimal, push_decimal};
use vstd::prelude::*;

verus! {

/// Load a media file.
pub struct LoadFile<'a> {
    pub path: &'a str,
}

/// Step one frame forward.
pub struct FrameStep;

/// Step one frame back.
pub struct FrameBackStep;

/// Say which entry of the playlist plays.
pub enum PlaylistPlay {
    Index(u32),
    Current,
    NoEntry,
}

pub const LOAD_FILE: &'static str = "loadfile";

pub const FRAME_STEP: &'static str = "frame-step";

pub const FRAME_BACK_STEP: &'static str = "frame-back-step";

pub const PLAYLIST_PLAY_INDEX: &'static str = "playlist-play-index";

pub const CURRENT: &'static str = "current";

pub const NONE: &'static str = "none";

/// The text of the argument of a playlist command.
pub open spec fn playlist_arg(p: PlaylistPlay) -> Seq<char> {
    match p {
        PlaylistPlay::Index(idx) => decimal(idx as nat),
        PlaylistPlay::Current => CURRENT@,
        PlaylistPlay::NoEntry => NONE@,
    }
}

impl<'a> LoadFile<'a> {
    /// The name of the command.
    pub fn name(&self) -> (n: &'static str)
        ensures
            n@ == LOAD_FILE@,
    {
        LOAD_FILE
    }

    /// The arguments: the path.
    pub fn args(&self) -> (a: Vec<String>)
        ensures
            a.deep_view() == seq![self.path@],
    {
        let mut path = String::new();
        path.append(self.path);
        let mut a: Vec<String> = Vec::new();
        a.push(path);
        assert(a.deep_view() =~= seq![self.path@]);
        a
    }
}

impl FrameStep {
    /// The name of the command.
    pub fn name(&self) -> (n: &'static str)
        ensures
            n@ == FRAME_STEP@,
    {
        FRAME_STEP
    }

    /// The arguments: none.
    pub fn args(&self) -> (a: Vec<String>)
        ensures
            a.deep_view() == Seq::<Seq<char>>::empty(),
    {
        let a: Vec<String> = Vec::new();
        assert(a.deep_view() =~= Seq::<Seq<char>>::empty());
        a
    }
}

impl FrameBackStep {
    /// The name of the command.
    pub fn name(&self) -> (n: &'static str)
        ensures
            n@ == FRAME_BACK_STEP@,
    {
        FRAME_BACK_STEP
    }

    /// The arguments: none.
    pub fn args(&self) -> (a: Vec<String>)
        ensures
            a.deep_view() == Seq::<Seq<char>>::empty(),
    {
        let a: Vec<String> = Vec::new();
        assert(a.deep_view() =~= Seq::<Seq<char>>::empty());
        a
    }
}

impl PlaylistPlay {
    /// The name of the command.
    pub fn name(&self) -> (n: &'static str)
        ensures
            n@ == PLAYLIST_PLAY_INDEX@,
    {
        PLAYLIST_PLAY_INDEX
    }

    /// The arguments: the index in decimal, or `current`, or `none`.
    pub fn args(&self) -> (a: Vec<String>)
        ensures
            a.deep_view() == seq![playlist_arg(*self)],
    {
        let mut s = String::new();
        match self {
            PlaylistPlay::Index(idx) => {
                push_decimal(&mut s, *idx as u64);
            },
            PlaylistPlay::Current => {
                s.append(CURRENT);
            },
            PlaylistPlay::NoEntry => {
                s.append(NONE);
            },
        }
        assert(s@ =~= playlist_arg(*self));
        let mut a: Vec<String> = Vec::new();
        a.push(s);
        assert(a.deep_view() =~= seq![playlist_arg(*self)]);
        a
    }
}

} // verus!
