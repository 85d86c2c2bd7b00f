//! Keyboard shortcut resolution.
//!
//! A key event (key plus modifier state) resolves to at most one editor
//! action. The mapping is a fixed decision table; [`resolve_spec`] states it,
//! and [`resolve`] computes it.

use vstd::prelude::*;

use crate::actions::Action;

verus! {

/// Modifier key state.
#[derive(Debug, Clone, Copy, PartialEq, Eq, Structural)]
pub struct Modifiers {
    pub ctrl: bool,
    pub shift: bool,
    pub alt: bool,
}

impl Modifiers {
    pub fn none() -> (r: Self)
        ensures
            r == (Modifiers { ctrl: false, shift: false, alt: false }),
    {
        Modifiers { ctrl: false, shift: false, alt: false }
    }

    pub fn ctrl() -> (r: Self)
        ensures
            r == (Modifiers { ctrl: true, shift: false, alt: false }),
    {
        Modifiers { ctrl: true, shift: false, alt: false }
    }

    pub fn shift() -> (r: Self)
        ensures
            r == (Modifiers { ctrl: false, shift: true, alt: false }),
    {
        Modifiers { ctrl: false, shift: true, alt: false }
    }

    pub fn alt() -> (r: Self)
        ensures
            r == (Modifiers { ctrl: false, shift: false, alt: true }),
    {
        Modifiers { ctrl: false, shift: false, alt: true }
    }

    pub fn ctrl_shift() -> (r: Self)
        ensures
            r == (Modifiers { ctrl: true, shift: true, alt: false }),
    {
        Modifiers { ctrl: true, shift: true, alt: false }
    }
}

/// A key that can be pressed.
#[derive(Debug, Clone, Copy, PartialEq, Eq, Structural)]
pub enum Key {
    Char(char),
    Escape,
    Enter,
    Tab,
    Backspace,
    Delete,
    ArrowLeft,
    ArrowRight,
    ArrowUp,
    ArrowDown,
    Home,
    End,
    PageUp,
    PageDown,
    Space,
}

/// A keyboard input event: a key together with the modifier state.
#[derive(Debug, Clone, Copy, PartialEq, Eq, Structural)]
pub struct KeyEvent {
    pub key: Key,
    pub modifiers: Modifiers,
}

impl KeyEvent {
    pub fn new(key: Key, modifiers: Modifiers) -> (r: Self)
        ensures
            r == (KeyEvent { key, modifiers }),
    {
        KeyEvent { key, modifiers }
    }
}

/// Whether `c` is `l` or its ASCII uppercase; shortcut letters match both
/// cases.
pub open spec fn is_letter(c: char, lower: char, upper: char) -> bool {
    c == lower || c == upper
}

/// The shortcut table for character keys, stated as a function.
pub open spec fn resolve_char_spec(c: char, ctrl: bool, shift: bool, alt: bool) -> Option<Action> {
    if is_letter(c, 'n', 'N') && ctrl {
        Some(Action::NewTab)
    } else if is_letter(c, 'w', 'W') && ctrl {
        Some(Action::CloseTab)
    } else if is_letter(c, 's', 'S') && ctrl {
        Some(Action::Save)
    } else if is_letter(c, 'o', 'O') && ctrl {
        Some(Action::OpenFile)
    } else if is_letter(c, 'p', 'P') && ctrl {
        Some(Action::OpenNotesPicker)
    } else if is_letter(c, 'r', 'R') && ctrl {
        Some(Action::RenameTab)
    } else if is_letter(c, 'a', 'A') && ctrl {
        Some(Action::SelectAll)
    } else if is_letter(c, 'c', 'C') && ctrl {
        Some(Action::Copy)
    } else if is_letter(c, 'x', 'X') && ctrl {
        Some(Action::Cut)
    } else if is_letter(c, 'v', 'V') && ctrl {
        Some(Action::Paste)
    } else if is_letter(c, 'z', 'Z') && ctrl && shift {
        Some(Action::Redo)
    } else if is_letter(c, 'z', 'Z') && ctrl {
        Some(Action::Undo)
    } else if is_letter(c, 'y', 'Y') && ctrl {
        Some(Action::Redo)
    } else if is_letter(c, 'z', 'Z') && alt {
        Some(Action::ToggleWordWrap)
    } else if '1' <= c <= '9' && ctrl {
        Some(Action::GoToTab(((c as u32) - ('1' as u32)) as usize))
    } else if !ctrl && !alt {
        Some(Action::InsertChar(c))
    } else {
        None
    }
}

/// The whole shortcut table, stated as a function.
pub open spec fn resolve_spec(event: KeyEvent) -> Option<Action> {
    let ctrl = event.modifiers.ctrl;
    let shift = event.modifiers.shift;
    let alt = event.modifiers.alt;
    match event.key {
        Key::Escape => Some(Action::Cancel),
        Key::Enter => Some(Action::Confirm),
        Key::Tab => if ctrl && shift {
            Some(Action::PreviousTab)
        } else if ctrl {
            Some(Action::NextTab)
        } else if !alt {
            Some(Action::InsertChar('\t'))
        } else {
            None
        },
        Key::Backspace => if ctrl {
            Some(Action::DeleteWordLeft)
        } else {
            Some(Action::Backspace)
        },
        Key::Delete => if ctrl {
            Some(Action::DeleteWordRight)
        } else {
            Some(Action::Delete)
        },
        Key::ArrowLeft => if ctrl {
            Some(Action::CursorWordLeft { selecting: shift })
        } else {
            Some(Action::CursorLeft { selecting: shift })
        },
        Key::ArrowRight => if ctrl {
            Some(Action::CursorWordRight { selecting: shift })
        } else {
            Some(Action::CursorRight { selecting: shift })
        },
        Key::ArrowUp => if alt {
            Some(Action::MoveLinesUp)
        } else {
            Some(Action::CursorUp { selecting: shift })
        },
        Key::ArrowDown => if alt {
            Some(Action::MoveLinesDown)
        } else {
            Some(Action::CursorDown { selecting: shift })
        },
        Key::Home => if ctrl {
            Some(Action::CursorDocStart { selecting: shift })
        } else {
            Some(Action::CursorLineStart { selecting: shift })
        },
        Key::End => if ctrl {
            Some(Action::CursorDocEnd { selecting: shift })
        } else {
            Some(Action::CursorLineEnd { selecting: shift })
        },
        Key::PageUp => Some(Action::PageUp { selecting: shift }),
        Key::PageDown => Some(Action::PageDown { selecting: shift }),
        Key::Space => if !ctrl && !alt {
            Some(Action::InsertChar(' '))
        } else {
            None
        },
        Key::Char(c) => resolve_char_spec(c, ctrl, shift, alt),
    }
}

/// Resolve a character key under the given modifiers; uppercase letters match
/// their lowercase shortcuts.
pub fn resolve_char(c: char, ctrl: bool, shift: bool, alt: bool) -> (r: Option<Action>)
    ensures
        r == resolve_char_spec(c, ctrl, shift, alt),
{
    if (c == 'n' || c == 'N') && ctrl {
        Some(Action::NewTab)
    } else if (c == 'w' || c == 'W') && ctrl {
        Some(Action::CloseTab)
    } else if (c == 's' || c == 'S') && ctrl {
        Some(Action::Save)
    } else if (c == 'o' || c == 'O') && ctrl {
        Some(Action::OpenFile)
    } else if (c == 'p' || c == 'P') && ctrl {
        Some(Action::OpenNotesPicker)
    } else if (c == 'r' || c == 'R') && ctrl {
        Some(Action::RenameTab)
    } else if (c == 'a' || c == 'A') && ctrl {
        Some(Action::SelectAll)
    } else if (c == 'c' || c == 'C') && ctrl {
        Some(Action::Copy)
    } else if (c == 'x' || c == 'X') && ctrl {
        Some(Action::Cut)
    } else if (c == 'v' || c == 'V') && ctrl {
        Some(Action::Paste)
    } else if (c == 'z' || c == 'Z') && ctrl && shift {
        Some(Action::Redo)
    } else if (c == 'z' || c == 'Z') && ctrl {
        Some(Action::Undo)
    } else if (c == 'y' || c == 'Y') && ctrl {
        Some(Action::Redo)
    } else if (c == 'z' || c == 'Z') && alt {
        Some(Action::ToggleWordWrap)
    } else if '1' <= c && c <= '9' && ctrl {
        let index = ((c as u32) - ('1' as u32)) as usize;
        Some(Action::GoToTab(index))
    } else if !ctrl && !alt {
        Some(Action::InsertChar(c))
    } else {
        None
    }
}

/// Resolve a key event to an action; the single source of truth for the
/// keyboard shortcuts. `None` means the event is not bound.
pub fn resolve(event: &KeyEvent) -> (r: Option<Action>)
    ensures
        r == resolve_spec(*event),
{
    let ctrl = event.modifiers.ctrl;
    let shift = event.modifiers.shift;
    let alt = event.modifiers.alt;
    match event.key {
        Key::Escape => Some(Action::Cancel),
        Key::Enter => Some(Action::Confirm),
        Key::Tab => {
            if ctrl && shift {
                Some(Action::PreviousTab)
            } else if ctrl {
                Some(Action::NextTab)
            } else if !alt {
                Some(Action::InsertChar('\t'))
            } else {
                None
            }
        },
        Key::Backspace => {
            if ctrl {
                Some(Action::DeleteWordLeft)
            } else {
                Some(Action::Backspace)
            }
        },
        Key::Delete => {
            if ctrl {
                Some(Action::DeleteWordRight)
            } else {
                Some(Action::Delete)
            }
        },
        Key::ArrowLeft => {
            if ctrl {
                Some(Action::CursorWordLeft { selecting: shift })
            } else {
                Some(Action::CursorLeft { selecting: shift })
            }
        },
        Key::ArrowRight => {
            if ctrl {
                Some(Action::CursorWordRight { selecting: shift })
            } else {
                Some(Action::CursorRight { selecting: shift })
            }
        },
        Key::ArrowUp => {
            if alt {
                Some(Action::MoveLinesUp)
            } else {
                Some(Action::CursorUp { selecting: shift })
            }
        },
        Key::ArrowDown => {
            if alt {
                Some(Action::MoveLinesDown)
            } else {
                Some(Action::CursorDown { selecting: shift })
            }
        },
        Key::Home => {
            if ctrl {
                Some(Action::CursorDocStart { selecting: shift })
            } else {
                Some(Action::CursorLineStart { selecting: shift })
            }
        },
        Key::End => {
            if ctrl {
                Some(Action::CursorDocEnd { selecting: shift })
            } else {
                Some(Action::CursorLineEnd { selecting: shift })
            }
        },
        Key::PageUp => Some(Action::PageUp { selecting: shift }),
        Key::PageDown => Some(Action::PageDown { selecting: shift }),
        Key::Space => {
            if !ctrl && !alt {
                Some(Action::InsertChar(' '))
            } else {
                None
            }
        },
        Key::Char(c) => resolve_char(c, ctrl, shift, alt),
    }
}

} // verus!
