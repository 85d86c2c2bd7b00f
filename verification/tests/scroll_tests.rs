use fire_notes_core::scroll::{ScrollConfig, ScrollDirection, ScrollState};

#[test]
fn test_first_notch_is_swallowed() {
    let mut state = ScrollState::new();

    // First scroll of a session is swallowed
    let result = state.process_scroll_amount(ScrollDirection::Up, 1, 0);
    assert_eq!(result, None);

    // Second scroll counts
    let result = state.process_scroll_amount(ScrollDirection::Up, 1, 10);
    assert_eq!(result, Some((ScrollDirection::Up, 1)));

    // Reset starts a fresh session
    state.reset();
    let result = state.process_scroll_amount(ScrollDirection::Down, 1, 20);
    assert_eq!(result, None);
}

#[test]
fn test_scroll_without_first_notch_ignore() {
    let config = ScrollConfig {
        ignore_first_notch: false,
        ..ScrollConfig::standard()
    };
    let mut state = ScrollState::with_config(config);

    // First scroll counts immediately
    let result = state.process_scroll_amount(ScrollDirection::Up, 1, 0);
    assert_eq!(result, Some((ScrollDirection::Up, 1)));
}

#[test]
fn test_timeout_restarts_session() {
    let mut state = ScrollState::new();
    assert_eq!(state.process_scroll_amount(ScrollDirection::Up, 1, 0), None);
    assert_eq!(
        state.process_scroll_amount(ScrollDirection::Up, 1, 100),
        Some((ScrollDirection::Up, 1))
    );
    // more than the 1000 ms timeout of quiet: the next notch is swallowed
    assert_eq!(
        state.process_scroll_amount(ScrollDirection::Down, 2, 2000),
        None
    );
    assert_eq!(
        state.process_scroll_amount(ScrollDirection::Down, 2, 2100),
        Some((ScrollDirection::Down, 2))
    );
}

#[test]
fn test_lines_per_tick_multiplies() {
    let config = ScrollConfig {
        lines_per_tick: 3,
        ignore_first_notch: false,
        reset_timeout_ms: 1000,
    };
    let mut state = ScrollState::with_config(config);
    assert_eq!(
        state.process_scroll_amount(ScrollDirection::Down, 4, 0),
        Some((ScrollDirection::Down, 12))
    );
    assert_eq!(state.config().lines_per_tick, 3);
}

#[test]
fn test_set_config_keeps_session() {
    let mut state = ScrollState::new();
    let _ = state.process_scroll_amount(ScrollDirection::Up, 1, 0);
    state.set_config(ScrollConfig {
        lines_per_tick: 2,
        ignore_first_notch: true,
        reset_timeout_ms: 1000,
    });
    assert_eq!(
        state.process_scroll_amount(ScrollDirection::Up, 1, 10),
        Some((ScrollDirection::Up, 2))
    );
}
