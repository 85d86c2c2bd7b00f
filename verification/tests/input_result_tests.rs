use fire_notes_core::input_result::{input_to_app_result, AppResult, InputHandler, InputResult};

#[test]
fn test_input_result_flags() {
    assert!(InputResult::Handled.needs_redraw());
    assert!(!InputResult::Ignored.needs_redraw());
    assert!(!InputResult::NotHandled.needs_redraw());
    assert!(InputResult::Handled.was_handled());
    assert!(InputResult::Ignored.was_handled());
    assert!(!InputResult::NotHandled.was_handled());
}

#[test]
fn test_app_result_conversion() {
    assert_eq!(input_to_app_result(InputResult::Handled), AppResult::Redraw);
    assert_eq!(input_to_app_result(InputResult::Ignored), AppResult::Idle);
    assert_eq!(input_to_app_result(InputResult::NotHandled), AppResult::Idle);
    assert!(AppResult::Redraw.needs_redraw());
    assert!(!AppResult::Idle.needs_redraw());
}

/// A minimal widget: counts characters, answers nothing else.
struct Counter {
    count: usize,
}

impl InputHandler for Counter {
    fn handle_char(&mut self, _ch: char) -> InputResult {
        self.count += 1;
        InputResult::Handled
    }

    fn handle_backspace(&mut self) -> InputResult {
        if self.count > 0 {
            self.count -= 1;
            InputResult::Handled
        } else {
            InputResult::Ignored
        }
    }

    fn handle_delete(&mut self) -> InputResult {
        InputResult::NotHandled
    }
}

#[test]
fn test_input_handler_defaults() {
    let mut w = Counter { count: 0 };
    assert_eq!(w.handle_char('x'), InputResult::Handled);
    assert_eq!(w.count, 1);
    assert_eq!(w.handle_backspace(), InputResult::Handled);
    assert_eq!(w.handle_backspace(), InputResult::Ignored);
    // the defaults answer for everything the widget does not care about
    assert_eq!(w.handle_enter(), InputResult::NotHandled);
    assert_eq!(w.move_left(false), InputResult::Ignored);
    assert_eq!(w.undo(), InputResult::Ignored);
    assert_eq!(w.copy(), None);
    assert_eq!(w.cut(), None);
    assert_eq!(w.paste("x"), InputResult::Ignored);
}
