//! Plain data shared by the bar, its renderer and its items.
use vstd::prelude::*;

verus! {

/// A color: red, green, blue, alpha.
pub type RGBA = (u8, u8, u8, u8);

/// Where a section of items sits on the bar.
#[derive(Debug, Copy, Clone, PartialEq, Eq, Structural)]
pub enum Alignment {
    Left,
    Center,
    Right,
}

/// Shape of the separators between sections.
#[derive(Debug, Clone, Copy, PartialEq, Eq, Structural)]
pub enum PowerlineStyle {
    Powerline,
    Octagon,
    Circle,
    /// Rectangular blocks with a thin gap between them (no shaped separator).
    Block,
    /// Horizontal gradient fade between two section backgrounds.
    Fade,
}

/// Whether a separator is filled or only outlined.
#[derive(Debug, Clone, Copy, PartialEq, Eq, Structural)]
pub enum PowerlineFill {
    Full,
    No,
}

/// Direction a separator points to.
#[derive(Debug, Clone, Copy, PartialEq, Eq, Structural)]
pub enum PowerlineDirection {
    Left,
    Right,
}

/// Pre-scaled RGBA pixel data for an icon.
#[derive(Clone, PartialEq)]
pub struct IconData {
    pub width: u32,
    pub height: u32,
    /// Row-major RGBA, 4 bytes per pixel.
    pub pixels: Vec<u8>,
}

/// Requests from the items to the main loop.
#[derive(Debug, Clone, Copy, PartialEq, Eq, Structural)]
pub enum MainAction {
    Terminate,
    Redraw,
    Reinit,
}

/// Requests from the main loop to the items.
#[derive(Debug, Clone, Copy, PartialEq, Eq, Structural)]
pub enum ItemAction {
    Update,
    Terminate,
}

/// A workspace as a compositor module reports it.
#[derive(Debug, Clone)]
pub struct WorkspaceInfo {
    pub index: u32,
    pub name: Option<String>,
    pub is_active: bool,
    pub is_focused: bool,
    pub output: String,
    pub windows: Vec<WindowInfo>,
}

/// A window as a compositor module reports it.
#[derive(Debug, Clone)]
pub struct WindowInfo {
    pub id: u64,
    pub title: String,
    pub app_id: String,
    pub is_focused: bool,
}

/// Changes that a compositor module announces.
#[derive(Debug, Clone, Copy, PartialEq, Eq, Structural)]
pub enum CompositorEvent {
    WorkspaceChanged,
    WindowChanged,
    OutputChanged,
}

/// Events of the bar's Wayland surfaces.
#[derive(Debug, Clone, Copy, PartialEq, Eq, Structural)]
pub enum BarEvent {
    Configure { surface_index: usize },
    Closed { surface_index: usize },
    OutputAdded,
    OutputRemoved,
}

} // verus!
