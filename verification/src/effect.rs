//! What the host has to do after an operation of the core.

use crate::geometry::WebViewBounds;
use crate::id::{Id, TabMarker, WorkspaceMarker};
use vstd::prelude::*;

verus! {

/// One piece of work for the host: a call into the rendering engine, on the
/// UI thread, or a task for the background that reads or writes the disk.
/// The host carries the effects of an operation out in the order given.
#[derive(Clone, Copy, Debug, PartialEq, Eq)]
pub enum Effect {
    /// Create the native view of the tab, hidden, at the tab's location.
    CreateView { tab: Id<TabMarker>, bounds: WebViewBounds },
    /// Hide or show the native view of the tab.
    SetHidden { tab: Id<TabMarker>, hidden: bool },
    /// Point the native view of the tab at the tab's location.
    Navigate { tab: Id<TabMarker> },
    /// Give the native view of the tab new bounds.
    Resize { tab: Id<TabMarker>, bounds: WebViewBounds },
    /// Close the native view of the tab and let go of it.
    CloseView { tab: Id<TabMarker> },
    /// Write the tab's new location to disk, without waiting for it.
    SaveTab { tab: Id<TabMarker> },
    /// Write the descriptor of the workspace to disk, without waiting for it.
    SaveWorkspace { workspace: Id<WorkspaceMarker> },
    /// Create the directory and the first descriptor of the workspace.
    CreateWorkspace { workspace: Id<WorkspaceMarker> },
    /// Read the descriptor and the file tree of the workspace, then report
    /// what came of it.
    LoadWorkspace { workspace: Id<WorkspaceMarker> },
    /// Remove the directory of the workspace from the disk.
    DeleteWorkspace { workspace: Id<WorkspaceMarker> },
}

} // verus!
