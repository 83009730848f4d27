//! The dock's tab viewer: what happens when the user closes an editor tab.

use vstd::prelude::*;

verus! {

/// The dock's tab viewer for editor tools.
#[derive(Clone, Copy, Debug)]
pub struct EditorToolTabViewer;

impl EditorToolTabViewer {
    /// Whether a tab the user asked to close closes: a tab with unsaved
    /// changes stays open (the caller tells it the close was blocked); any
    /// other tab closes (the caller tells it it was closed).
    pub fn on_close(&self, has_unsaved_changes: bool) -> (close: bool)
        ensures
            close == !has_unsaved_changes,
    {
        !has_unsaved_changes
    }

    /// Tabs show no scroll bars of the dock's own, horizontal or vertical.
    pub fn scroll_bars(&self) -> (bars: [bool; 2])
        ensures
            bars@ == seq![false, false],
    {
        let bars = [false, false];
        assert(bars@ =~= seq![false, false]);
        bars
    }
}

} // verus!
