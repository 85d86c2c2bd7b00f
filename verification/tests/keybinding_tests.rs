use fire_notes_core::actions::Action;
use fire_notes_core::keybindings::{resolve, Key, KeyEvent, Modifiers};

#[test]
fn test_ctrl_n_new_tab() {
    let event = KeyEvent::new(Key::Char('n'), Modifiers::ctrl());
    assert_eq!(resolve(&event), Some(Action::NewTab));
}

#[test]
fn test_regular_char() {
    let event = KeyEvent::new(Key::Char('a'), Modifiers::none());
    assert_eq!(resolve(&event), Some(Action::InsertChar('a')));
}

#[test]
fn test_shift_arrow() {
    let event = KeyEvent::new(Key::ArrowLeft, Modifiers::shift());
    assert_eq!(resolve(&event), Some(Action::CursorLeft { selecting: true }));
}

#[test]
fn test_uppercase_shortcut_matches() {
    let event = KeyEvent::new(Key::Char('Z'), Modifiers::ctrl());
    assert_eq!(resolve(&event), Some(Action::Undo));
    let event = KeyEvent::new(Key::Char('Z'), Modifiers::ctrl_shift());
    assert_eq!(resolve(&event), Some(Action::Redo));
}

#[test]
fn test_digit_goes_to_tab() {
    let event = KeyEvent::new(Key::Char('3'), Modifiers::ctrl());
    assert_eq!(resolve(&event), Some(Action::GoToTab(2)));
}

#[test]
fn test_alt_arrow_moves_lines() {
    let event = KeyEvent::new(Key::ArrowUp, Modifiers::alt());
    assert_eq!(resolve(&event), Some(Action::MoveLinesUp));
    let event = KeyEvent::new(Key::ArrowDown, Modifiers::alt());
    assert_eq!(resolve(&event), Some(Action::MoveLinesDown));
}

#[test]
fn test_unbound_combination() {
    let event = KeyEvent::new(Key::Char('q'), Modifiers::ctrl());
    assert_eq!(resolve(&event), None);
    let event = KeyEvent::new(Key::Space, Modifiers::alt());
    assert_eq!(resolve(&event), None);
}

#[test]
fn test_escape_and_enter() {
    assert_eq!(
        resolve(&KeyEvent::new(Key::Escape, Modifiers::none())),
        Some(Action::Cancel)
    );
    assert_eq!(
        resolve(&KeyEvent::new(Key::Enter, Modifiers::none())),
        Some(Action::Confirm)
    );
}

#[test]
fn test_tab_key_bindings() {
    assert_eq!(
        resolve(&KeyEvent::new(Key::Tab, Modifiers::ctrl())),
        Some(Action::NextTab)
    );
    assert_eq!(
        resolve(&KeyEvent::new(Key::Tab, Modifiers::ctrl_shift())),
        Some(Action::PreviousTab)
    );
    assert_eq!(
        resolve(&KeyEvent::new(Key::Tab, Modifiers::none())),
        Some(Action::InsertChar('\t'))
    );
}

#[test]
fn test_ctrl_backspace_deletes_word() {
    assert_eq!(
        resolve(&KeyEvent::new(Key::Backspace, Modifiers::ctrl())),
        Some(Action::DeleteWordLeft)
    );
    assert_eq!(
        resolve(&KeyEvent::new(Key::Backspace, Modifiers::none())),
        Some(Action::Backspace)
    );
}
