//! Plain value types shared by the window store, the tiling engine and the
//! window manager.

use vstd::prelude::*;

verus! {

/// Identifier of a window, chosen by the host.
pub type Window = u64;

/// A rectangle on the screen.
#[derive(Debug, Clone, Copy, PartialEq, Eq, Hash, Structural)]
pub struct Geometry {
    /// Horizontal position of the top-left corner.
    pub x: i32,
    /// Vertical position of the top-left corner.
    pub y: i32,
    /// Width in pixels.
    pub width: u32,
    /// Height in pixels.
    pub height: u32,
}

/// The size of the screen.
#[derive(Debug, Clone, Copy, PartialEq, Eq, Hash, Structural)]
pub struct Screen {
    /// Width in pixels.
    pub width: u32,
    /// Height in pixels.
    pub height: u32,
}

impl Screen {
    /// The rectangle that covers the whole screen.
    pub open spec fn rect(self) -> Geometry {
        Geometry { x: 0, y: 0, width: self.width, height: self.height }
    }

    /// The rectangle that covers the whole screen.
    pub fn to_geometry(&self) -> (g: Geometry)
        ensures
            g == self.rect(),
    {
        Geometry { x: 0, y: 0, width: self.width, height: self.height }
    }
}

/// Whether a window takes part in the automatic layout or keeps the
/// geometry that its owner gave it.
#[derive(Debug, Clone, Copy, PartialEq, Eq, Hash, Structural)]
pub enum FloatOrTile {
    /// The window keeps its own geometry.
    Float,
    /// The window is laid out by the tiling engine.
    Tile,
}

impl FloatOrTile {
    /// The other placement mode.
    pub open spec fn flipped(self) -> FloatOrTile {
        match self {
            FloatOrTile::Float => FloatOrTile::Tile,
            FloatOrTile::Tile => FloatOrTile::Float,
        }
    }

    /// The other placement mode.
    pub fn toggled(&self) -> (m: FloatOrTile)
        ensures
            m == self.flipped(),
    {
        match self {
            FloatOrTile::Float => FloatOrTile::Tile,
            FloatOrTile::Tile => FloatOrTile::Float,
        }
    }
}

/// A direction in which to walk through the windows.
#[derive(Debug, Clone, Copy, PartialEq, Eq, Hash, Structural)]
pub enum PrevOrNext {
    /// Towards the front of the store.
    Prev,
    /// Towards the back of the store.
    Next,
}

/// What the host tells the manager about a window, and what the manager
/// reports back about one.
#[derive(Debug, Clone, Copy, PartialEq, Eq, Hash, Structural)]
pub struct WindowWithInfo {
    /// The window.
    pub window: Window,
    /// The geometry of the window.
    pub geometry: Geometry,
    /// Whether the window floats or is tiled.
    pub float_or_tile: FloatOrTile,
    /// Whether the window covers the whole screen.
    pub fullscreen: bool,
}

impl WindowWithInfo {
    /// A description with every field given.
    pub fn new(window: Window, geometry: Geometry, float_or_tile: FloatOrTile, fullscreen: bool) -> (info: WindowWithInfo)
        ensures
            info == (WindowWithInfo { window, geometry, float_or_tile, fullscreen }),
    {
        WindowWithInfo { window, geometry, float_or_tile, fullscreen }
    }

    /// A tiled window that is not fullscreen.
    pub fn new_tiled(window: Window, geometry: Geometry) -> (info: WindowWithInfo)
        ensures
            info == (WindowWithInfo {
                window,
                geometry,
                float_or_tile: FloatOrTile::Tile,
                fullscreen: false,
            }),
    {
        WindowWithInfo { window, geometry, float_or_tile: FloatOrTile::Tile, fullscreen: false }
    }

    /// A floating window that is not fullscreen.
    pub fn new_float(window: Window, geometry: Geometry) -> (info: WindowWithInfo)
        ensures
            info == (WindowWithInfo {
                window,
                geometry,
                float_or_tile: FloatOrTile::Float,
                fullscreen: false,
            }),
    {
        WindowWithInfo { window, geometry, float_or_tile: FloatOrTile::Float, fullscreen: false }
    }

    /// A tiled window that starts out fullscreen.
    pub fn new_fullscreen(window: Window, geometry: Geometry) -> (info: WindowWithInfo)
        ensures
            info == (WindowWithInfo {
                window,
                geometry,
                float_or_tile: FloatOrTile::Tile,
                fullscreen: true,
            }),
    {
        WindowWithInfo { window, geometry, float_or_tile: FloatOrTile::Tile, fullscreen: true }
    }
}

/// What is to be drawn: the visible windows with their geometries, back to
/// front, and the window that has the focus.
#[derive(Debug, Clone, PartialEq, Eq)]
pub struct WindowLayout {
    /// The focused window, if any.
    pub focused_window: Option<Window>,
    /// The visible windows and where each is drawn.
    pub windows: Vec<(Window, Geometry)>,
}

impl WindowLayout {
    /// The layout that shows nothing.
    pub fn new() -> (layout: WindowLayout)
        ensures
            layout.focused_window.is_none(),
            layout.windows@ == Seq::<(Window, Geometry)>::empty(),
    {
        WindowLayout { focused_window: None, windows: Vec::new() }
    }
}

} // verus!
