//! The dock/workspace assembler: the last step of restoration, combining
//! the reconstructed center tree, the dock states, and the window geometry
//! into the snapshot a window is opened from.

use crate::model::DockStructure;
use crate::model::WindowBounds;
use crate::rebuild::LivePane;
use crate::rebuild::Member;
use vstd::prelude::*;

verus! {

/// A restored workspace, ready to display: the live center tree — absent
/// when no pane survived, leaving an empty center area — the pane to
/// focus, the dock states, and the window geometry.
#[derive(Debug)]
pub struct RestoredWorkspace {
    pub center: Option<Member>,
    pub active_pane: Option<LivePane>,
    pub docks: DockStructure,
    pub bounds: Option<WindowBounds>,
    pub fullscreen: bool,
    pub display: Option<u128>,
}

/// Assemble the restorable workspace. A missing center tree still yields a
/// workspace — an empty center area with its dock structure intact is a
/// valid terminal state, never an error — and every given part is carried
/// over unchanged.
pub fn assemble_workspace(
    center: Option<Member>,
    active_pane: Option<LivePane>,
    docks: DockStructure,
    bounds: Option<WindowBounds>,
    fullscreen: bool,
    display: Option<u128>,
) -> (r: RestoredWorkspace)
    ensures
        r.center == center,
        r.active_pane == active_pane,
        r.docks == docks,
        r.bounds == bounds,
        r.fullscreen == fullscreen,
        r.display == display,
{
    RestoredWorkspace { center, active_pane, docks, bounds, fullscreen, display }
}

} // verus!
