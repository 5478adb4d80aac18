//! What a key press asks for.

use vstd::prelude::*;

verus! {

/// The keys that mean something, and all others as one.
#[derive(Clone, Copy, Debug, PartialEq, Eq, Structural)]
pub enum Key {
    Escape,
    Tab,
    Space,
    Period,
    Comma,
    A,
    P,
    S,
    O,
    R,
    Left,
    Right,
    Up,
    Down,
    F2,
    F4,
    Other,
}

/// What is to be done on a key press.
#[derive(Clone, Copy, Debug, PartialEq, Eq, Structural)]
pub enum KeyAction {
    /// Nothing.
    Ignore,
    /// Close the window.
    Close,
    /// Show the overlay if it is hidden, hide it if it is shown.
    ToggleOverlay,
    /// Pause playback, or let it go on.
    SetPause(bool),
    FrameStep,
    FrameBackStep,
    /// Record the playback position as a timestamp.
    RecordTimestamp,
    /// Play the current entry of the playlist.
    PlayCurrent,
    /// Play no entry of the playlist.
    PlayNothing,
    /// Let the user pick a file.
    PickFile,
    /// Play the first entry of the playlist and rewind the subtitles.
    Restart,
    /// Seek by so many seconds, back if negative.
    Seek(i32),
    /// Take a checkpoint of the subtitles.
    SaveState,
    /// Go back to the checkpoint of the subtitles.
    ReloadState,
}

/// What the press of `key` asks for. `ctrl` says whether the control key is
/// held, `paused` whether playback is paused, and `ui_busy` whether the
/// interface takes the keyboard for itself, in which case nothing is done.
pub open spec fn key_action_spec(key: Key, ctrl: bool, paused: bool, ui_busy: bool) -> KeyAction {
    if ui_busy {
        KeyAction::Ignore
    } else {
        match key {
            Key::Escape => KeyAction::Close,
            Key::Tab => KeyAction::ToggleOverlay,
            Key::Space => KeyAction::SetPause(!paused),
            Key::Period => KeyAction::FrameStep,
            Key::Comma => KeyAction::FrameBackStep,
            Key::A => KeyAction::RecordTimestamp,
            Key::P => KeyAction::PlayCurrent,
            Key::S => KeyAction::PlayNothing,
            Key::O => if ctrl {
                KeyAction::PickFile
            } else {
                KeyAction::Ignore
            },
            Key::R => KeyAction::Restart,
            Key::Left => KeyAction::Seek(-10i32),
            Key::Right => KeyAction::Seek(10),
            Key::Up => KeyAction::Seek(-30i32),
            Key::Down => KeyAction::Seek(30),
            Key::F2 => KeyAction::SaveState,
            Key::F4 => KeyAction::ReloadState,
            Key::Other => KeyAction::Ignore,
        }
    }
}

/// What the press of `key` asks for.
pub fn key_action(key: Key, ctrl: bool, paused: bool, ui_busy: bool) -> (action: KeyAction)
    ensures
        action == key_action_spec(key, ctrl, paused, ui_busy),
{
    if ui_busy {
        return KeyAction::Ignore;
    }
    match key {
        Key::Escape => KeyAction::Close,
        Key::Tab => KeyAction::ToggleOverlay,
        Key::Space => KeyAction::SetPause(!paused),
        Key::Period => KeyAction::FrameStep,
        Key::Comma => KeyAction::FrameBackStep,
        Key::A => KeyAction::RecordTimestamp,
        Key::P => KeyAction::PlayCurrent,
        Key::S => KeyAction::PlayNothing,
        Key::O => {
            if ctrl {
                KeyAction::PickFile
            } else {
                KeyAction::Ignore
            }
        },
        Key::R => KeyAction::Restart,
        Key::Left => KeyAction::Seek(-10),
        Key::Right => KeyAction::Seek(10),
        Key::Up => KeyAction::Seek(-30),
        Key::Down => KeyAction::Seek(30),
        Key::F2 => KeyAction::SaveState,
        Key::F4 => KeyAction::ReloadState,
        Key::Other => KeyAction::Ignore,
    }
}

} // verus!
