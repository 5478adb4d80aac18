//! The side panel: which tab is open and what is selected in it.

use vstd::prelude::*;

verus! {

/// The tabs of the panel.
#[derive(Clone, Copy, Debug, PartialEq, Eq, Structural)]
pub enum Tab {
    Rects,
    TimeSpans,
    Texts,
}

pub const TAB_RECTS: &'static str = "Rects";

pub const TAB_TIME_SPANS: &'static str = "Time spans";

pub const TAB_TEXTS: &'static str = "Texts";

impl Tab {
    /// The label of the tab.
    pub fn name(&self) -> (n: &'static str)
        ensures
            n@ == match self {
                Tab::Rects => TAB_RECTS@,
                Tab::TimeSpans => TAB_TIME_SPANS@,
                Tab::Texts => TAB_TEXTS@,
            },
    {
        match self {
            Tab::Rects => TAB_RECTS,
            Tab::TimeSpans => TAB_TIME_SPANS,
            Tab::Texts => TAB_TEXTS,
        }
    }
}

/// What the panel remembers between frames.
pub struct State {
    pub tab: Tab,
    pub selected_timespan: Option<usize>,
    pub selected_rect: Option<usize>,
    pub selected_text: Option<usize>,
    pub rename_index: Option<usize>,
}

impl Default for State {
    fn default() -> (s: State)
        ensures
            s.tab == Tab::Rects,
            s.selected_timespan is None,
            s.selected_rect is None,
            s.selected_text is None,
            s.rename_index is None,
    {
        State {
            tab: Tab::Rects,
            selected_timespan: None,
            selected_rect: None,
            selected_text: None,
            rename_index: None,
        }
    }
}

/// The selection after the item at `removed` leaves a list: a selection of
/// that item is dropped, any other stays as it is.
pub open spec fn selection_after_removal(selected: Option<usize>, removed: usize) -> Option<usize> {
    if selected == Some(removed) {
        None
    } else {
        selected
    }
}

/// The selection after the item at `removed` leaves a list.
pub fn deselect_removed(selected: Option<usize>, removed: usize) -> (s: Option<usize>)
    ensures
        s == selection_after_removal(selected, removed),
{
    match selected {
        Some(i) => if i == removed {
            None
        } else {
            selected
        },
        None => None,
    }
}

} // verus!
