//! Plain state types shared between the editor core and its UI shell.

use vstd::prelude::*;

verus! {

/// An edge or corner of the window, for borderless resizing.
#[derive(Debug, Clone, Copy, PartialEq, Eq, Structural)]
pub enum ResizeEdge {
    North,
    South,
    East,
    West,
    NorthEast,
    NorthWest,
    SouthEast,
    SouthWest,
}

/// What part of the UI a point falls on.
#[derive(Debug, Clone, Copy, PartialEq, Eq, Structural)]
pub enum UiNode {
    Outside,
    Tab(usize),
    NewTabButton,
    Scrollbar,
    TextArea,
    TabBar,
    WindowMinimize,
    WindowMaximize,
    WindowClose,
    WindowResizeEdge(ResizeEdge),
}

/// Which parts of the UI the pointer is hovering.
#[derive(Debug, Clone, Copy)]
pub struct UiHover {
    pub tab_index: Option<usize>,
    pub plus: bool,
    pub scrollbar: bool,
    pub window_minimize: bool,
    pub window_maximize: bool,
    pub window_close: bool,
    pub resize_edge: Option<ResizeEdge>,
}

impl UiHover {
    /// A hover state with nothing hovered.
    pub fn empty() -> (r: Self)
        ensures
            r.tab_index is None,
            !r.plus,
            !r.scrollbar,
            !r.window_minimize,
            !r.window_maximize,
            !r.window_close,
            r.resize_edge is None,
    {
        UiHover {
            tab_index: None,
            plus: false,
            scrollbar: false,
            window_minimize: false,
            window_maximize: false,
            window_close: false,
            resize_edge: None,
        }
    }
}

impl Default for UiHover {
    fn default() -> (r: Self)
        ensures
            r.tab_index is None,
            !r.plus,
            !r.scrollbar,
            !r.window_minimize,
            !r.window_maximize,
            !r.window_close,
            r.resize_edge is None,
    {
        UiHover::empty()
    }
}

/// Saved window placement.
#[derive(Debug, Clone, Copy, PartialEq, Eq, Structural)]
pub struct WindowState {
    pub x: i32,
    pub y: i32,
    pub width: u32,
    pub height: u32,
}

/// One entry of the notes picker: a note on disk and whether a tab has it
/// open.
#[derive(Debug, Clone)]
pub struct NoteEntry {
    pub path: String,
    pub title: String,
    pub is_open: bool,
}

} // verus!
