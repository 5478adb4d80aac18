//! The state of the user interface that does not depend on how it is drawn.

pub mod ffmpeg_cli;
pub mod right_panel;

use vstd::prelude::*;

verus! {

/// What a modal popup shows.
pub enum ModalPayload {
    Error { msg: String },
}

/// A popup that is shown over everything else until it is closed.
pub struct ModalPopup {
    pub payload: Option<ModalPayload>,
}

impl Default for ModalPopup {
    fn default() -> (m: ModalPopup)
        ensures
            m.payload is None,
    {
        ModalPopup { payload: None }
    }
}

impl ModalPopup {
    /// Shows the error message `msg`, in place of what was shown.
    pub fn err(&mut self, msg: String)
        ensures
            final(self).payload == Some(ModalPayload::Error { msg }),
    {
        self.payload = Some(ModalPayload::Error { msg });
    }

    /// Closes the popup.
    pub fn close(&mut self)
        ensures
            final(self).payload is None,
    {
        self.payload = None;
    }
}

/// What the file that the dialog picks is for.
#[derive(Clone, Copy, Debug, PartialEq, Eq, Structural)]
pub enum FileOp {
    MediaFile,
    Kashimark,
    SubTimings,
}

/// The tabs of the side panel.
#[derive(Clone, Copy, Debug, PartialEq, Eq, Structural)]
pub enum Tab {
    Rects,
    TimeSpans,
}

pub const TAB_RECTS: &'static str = "Rects";

pub const TAB_TIME_SPANS: &'static str = "Time spans";

impl Tab {
    /// The label of the tab.
    pub fn name(&self) -> (n: &'static str)
        ensures
            n@ == match self {
                Tab::Rects => TAB_RECTS@,
                Tab::TimeSpans => TAB_TIME_SPANS@,
            },
    {
        match self {
            Tab::Rects => TAB_RECTS,
            Tab::TimeSpans => TAB_TIME_SPANS,
        }
    }
}

} // verus!
