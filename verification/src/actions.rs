//! The editor's action vocabulary.
//!
//! Every user-triggerable operation is one variant; keyboard resolution and
//! UI dispatch both speak in these terms.

use vstd::prelude::*;

verus! {

/// All actions that can be triggered by keyboard shortcuts or the UI.
#[derive(Debug, Clone, Copy, PartialEq, Eq, Structural)]
pub enum Action {
    NewTab,
    CloseTab,
    NextTab,
    PreviousTab,
    GoToTab(usize),
    Save,
    OpenFile,
    RenameTab,
    OpenNotesPicker,
    ConfirmNotesPicker,
    CancelNotesPicker,
    Undo,
    Redo,
    Copy,
    Cut,
    Paste,
    SelectAll,
    DeleteWordLeft,
    DeleteWordRight,
    Delete,
    Backspace,
    CursorLeft { selecting: bool },
    CursorRight { selecting: bool },
    CursorUp { selecting: bool },
    CursorDown { selecting: bool },
    CursorWordLeft { selecting: bool },
    CursorWordRight { selecting: bool },
    CursorLineStart { selecting: bool },
    CursorLineEnd { selecting: bool },
    CursorDocStart { selecting: bool },
    CursorDocEnd { selecting: bool },
    PageUp { selecting: bool },
    PageDown { selecting: bool },
    MoveLinesUp,
    MoveLinesDown,
    ToggleWordWrap,
    Cancel,
    Confirm,
    InsertChar(char),
}

} // verus!
