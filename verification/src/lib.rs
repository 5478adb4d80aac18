//! Karaoke-style subtitle synchronisation: a lyric document is revealed
//! segment by segment in step with recorded timestamps, and the whole
//! timeline can be rendered as an ASS subtitle script. Around it stand the
//! plain values of a video review tool: coordinates, player commands and
//! interface state.

pub mod ass;
pub mod coords;
pub mod document;
pub mod ffmpeg;
pub mod furigana;
pub mod keys;
pub mod markers;
pub mod mpv;
pub mod overlay;
pub mod shell;
pub mod subs;
pub mod text;
pub mod time_fmt;
pub mod timings;
pub mod tracking;
pub mod ui;
