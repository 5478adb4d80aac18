//! What the player is told and what it reports, as plain values.

pub mod commands;
pub mod property;

use vstd::prelude::*;

verus! {

/// An event that the player reports.
#[derive(Clone, Copy, Debug, PartialEq, Eq, Structural)]
pub enum MpvEvent {
    VideoReconfig,
    Idle,
    PlaybackRestart,
    FileLoaded,
    Seek,
}

/// Whether the player is idle after `event`, given whether it was before:
/// it becomes idle when it reports so, and stops being idle when playback
/// restarts.
pub open spec fn idle_after(idle: bool, event: MpvEvent) -> bool {
    match event {
        MpvEvent::Idle => true,
        MpvEvent::PlaybackRestart => false,
        _ => idle,
    }
}

/// Whether the player is idle after `event`.
pub fn track_idle(idle: bool, event: MpvEvent) -> (now: bool)
    ensures
        now == idle_after(idle, event),
{
    match event {
        MpvEvent::Idle => true,
        MpvEvent::PlaybackRestart => false,
        _ => idle,
    }
}

} // verus!
