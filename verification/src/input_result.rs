//! Input routing results and the focusable-widget interface.
//!
//! A focused widget reports for each event whether it handled it and whether
//! a redraw is owed; unhandled events propagate to the next handler.

use vstd::prelude::*;

verus! {

/// Result of handling an input event.
#[derive(Debug, Clone, Copy, PartialEq, Eq, Structural)]
pub enum InputResult {
    /// Input was handled; a redraw is needed.
    Handled,
    /// Input was handled; no redraw is needed.
    Ignored,
    /// Input was not handled and should propagate to the next handler.
    NotHandled,
}

impl InputResult {
    /// Whether handling this input calls for a redraw.
    pub fn needs_redraw(&self) -> (r: bool)
        ensures
            r == (*self == InputResult::Handled),
    {
        match self {
            InputResult::Handled => true,
            _ => false,
        }
    }

    /// Whether the input was consumed, with or without a redraw.
    pub fn was_handled(&self) -> (r: bool)
        ensures
            r == (*self != InputResult::NotHandled),
    {
        match self {
            InputResult::NotHandled => false,
            _ => true,
        }
    }
}

/// Result of an application-level action that may ask the window system for
/// something.
#[derive(Debug, Clone, Copy, PartialEq, Eq, Structural)]
pub enum AppResult {
    /// No action needed.
    Idle,
    /// The UI needs to be redrawn.
    Redraw,
    /// Minimize the window.
    WindowMinimize,
    /// Maximize or restore the window.
    WindowMaximize,
    /// Close the window.
    WindowClose,
    /// Start a window drag.
    WindowDrag,
    /// Start a window resize from an edge.
    WindowResize(crate::ui_types::ResizeEdge),
}

impl AppResult {
    /// Whether this result calls for a redraw.
    pub fn needs_redraw(&self) -> (r: bool)
        ensures
            r == (*self == AppResult::Redraw),
    {
        match self {
            AppResult::Redraw => true,
            _ => false,
        }
    }
}

/// Turn a widget's input result into the application-level result.
pub fn input_to_app_result(result: InputResult) -> (r: AppResult)
    ensures
        r == (if result == InputResult::Handled {
            AppResult::Redraw
        } else {
            AppResult::Idle
        }),
{
    match result {
        InputResult::Handled => AppResult::Redraw,
        InputResult::Ignored => AppResult::Idle,
        InputResult::NotHandled => AppResult::Idle,
    }
}

/// Interface of a component that can receive keyboard input when focused.
/// Events a widget does not care about fall through to the defaults.
pub trait InputHandler {
    /// Handle character input.
    fn handle_char(&mut self, ch: char) -> InputResult;

    /// Handle backspace.
    fn handle_backspace(&mut self) -> InputResult;

    /// Handle the delete key.
    fn handle_delete(&mut self) -> InputResult;

    /// Handle word-leftward deletion.
    fn handle_delete_word_left(&mut self) -> InputResult {
        InputResult::Ignored
    }

    /// Handle word-rightward deletion.
    fn handle_delete_word_right(&mut self) -> InputResult {
        InputResult::Ignored
    }

    /// Handle select-all.
    fn handle_select_all(&mut self) -> InputResult {
        InputResult::Ignored
    }

    /// Move the cursor left.
    fn move_left(&mut self, selecting: bool) -> InputResult {
        InputResult::Ignored
    }

    /// Move the cursor right.
    fn move_right(&mut self, selecting: bool) -> InputResult {
        InputResult::Ignored
    }

    /// Move the cursor up.
    fn move_up(&mut self, selecting: bool) -> InputResult {
        InputResult::Ignored
    }

    /// Move the cursor down.
    fn move_down(&mut self, selecting: bool) -> InputResult {
        InputResult::Ignored
    }

    /// Move the cursor one word left.
    fn move_word_left(&mut self, selecting: bool) -> InputResult {
        InputResult::Ignored
    }

    /// Move the cursor one word right.
    fn move_word_right(&mut self, selecting: bool) -> InputResult {
        InputResult::Ignored
    }

    /// Move to the start of the line.
    fn move_to_line_start(&mut self, selecting: bool) -> InputResult {
        InputResult::Ignored
    }

    /// Move to the end of the line.
    fn move_to_line_end(&mut self, selecting: bool) -> InputResult {
        InputResult::Ignored
    }

    /// Move to the start of the document.
    fn move_to_start(&mut self, selecting: bool) -> InputResult {
        InputResult::Ignored
    }

    /// Move to the end of the document.
    fn move_to_end(&mut self, selecting: bool) -> InputResult {
        InputResult::Ignored
    }

    /// Handle the enter key.
    fn handle_enter(&mut self) -> InputResult {
        InputResult::NotHandled
    }

    /// Handle the escape key.
    fn handle_escape(&mut self) -> InputResult {
        InputResult::NotHandled
    }

    /// Copy the selection; the text, if any is selected.
    fn copy(&self) -> Option<String> {
        None
    }

    /// Cut the selection; the text, if any was selected.
    fn cut(&mut self) -> Option<String> {
        None
    }

    /// Paste text from the clipboard.
    fn paste(&mut self, text: &str) -> InputResult {
        InputResult::Ignored
    }

    /// Undo the newest edit.
    fn undo(&mut self) -> InputResult {
        InputResult::Ignored
    }

    /// Redo the newest undone edit.
    fn redo(&mut self) -> InputResult {
        InputResult::Ignored
    }
}

} // verus!
