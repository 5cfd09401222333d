//! The immutable configuration supplied once at process start: a cyclic,
//! non-empty palette of background colors, a highlight color for the focused
//! workspace's label, and an optional minimum number of workspaces to show.

use vstd::prelude::*;

verus! {

/// Configuration loaded once at startup and treated as read-only afterwards.
pub struct Config {
    /// Cyclic palette of background colors; must be non-empty.
    pub background_colors: Vec<String>,
    /// Color of the label text of the focused workspace.
    pub focused_foreground_color: String,
    /// Placeholder workspaces are synthesized up to this ordinal; `0` means
    /// no padding.
    pub minimum_workspace_count: usize,
    /// Carried through from the configuration document; not used by the
    /// rendering logic.
    pub version: String,
}

impl Config {
    /// A configuration is usable by the renderer exactly when the palette is
    /// non-empty.
    pub open spec fn wf(&self) -> bool {
        self.background_colors@.len() > 0
    }
}

/// The minimum workspace count used when the configuration document does not
/// set one: no padding at all.
pub fn default_minimum_workspace_count() -> (count: usize)
    ensures
        count == 0,
{
    0
}

} // verus!
