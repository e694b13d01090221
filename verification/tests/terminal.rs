use frankensearch::terminal::{TerminalEvent, TerminalMode, TerminalState};

#[test]
fn terminal_mode_default() {
    assert_eq!(TerminalMode::default(), TerminalMode::AltScreen);
}

#[test]
fn terminal_mode_alt_screen() {
    assert!(TerminalMode::AltScreen.uses_alt_screen());
    assert!(!TerminalMode::Inline.uses_alt_screen());
}

#[test]
fn terminal_mode_labels() {
    assert_eq!(TerminalMode::AltScreen.label(), "Alt Screen");
    assert_eq!(TerminalMode::Inline.label(), "Inline");
}

#[test]
fn terminal_mode_display() {
    assert_eq!(TerminalMode::AltScreen.to_display_string(), "Alt Screen");
    assert_eq!(TerminalMode::Inline.to_display_string(), "Inline");
}

#[test]
fn terminal_state_defaults() {
    let state = TerminalState::new(TerminalMode::AltScreen);
    assert_eq!(state.mode, TerminalMode::AltScreen);
    assert_eq!(state.width, 80);
    assert_eq!(state.height, 24);
    assert!(state.focused);
    assert!(state.connected);
    assert!(state.needs_full_redraw()); // First render.
}

#[test]
fn terminal_state_resize() {
    let mut state = TerminalState::new(TerminalMode::AltScreen);
    state.acknowledge_redraw();
    assert!(!state.needs_full_redraw());

    let changed = state.handle_event(&TerminalEvent::Resized {
        width: 120,
        height: 40,
    });
    assert!(changed);
    assert_eq!(state.width, 120);
    assert_eq!(state.height, 40);
    assert!(state.needs_full_redraw());
    assert_eq!(state.pending_resizes(), 1);
}

#[test]
fn terminal_state_same_size_no_change() {
    let mut state = TerminalState::new(TerminalMode::AltScreen);
    state.acknowledge_redraw();

    let changed = state.handle_event(&TerminalEvent::Resized {
        width: 80,
        height: 24,
    });
    assert!(!changed);
}

#[test]
fn terminal_state_reconnect() {
    let mut state = TerminalState::new(TerminalMode::AltScreen);
    state.acknowledge_redraw();
    state.mark_disconnected();
    assert!(!state.is_connected());

    let changed = state.handle_event(&TerminalEvent::Reconnected);
    assert!(changed);
    assert!(state.is_connected());
    assert!(state.needs_full_redraw());
}

#[test]
fn terminal_state_focus_gain_loss() {
    let mut state = TerminalState::new(TerminalMode::AltScreen);

    // Losing focus.
    let changed = state.handle_event(&TerminalEvent::FocusLost);
    assert!(changed);
    assert!(!state.focused);

    // Gaining focus.
    let changed = state.handle_event(&TerminalEvent::FocusGained);
    assert!(changed);
    assert!(state.focused);

    // Gaining focus again (no change).
    let changed = state.handle_event(&TerminalEvent::FocusGained);
    assert!(!changed);
}

#[test]
fn terminal_state_mode_change() {
    let mut state = TerminalState::new(TerminalMode::AltScreen);
    state.acknowledge_redraw();

    let changed = state.handle_event(&TerminalEvent::ModeChange(TerminalMode::Inline));
    assert!(changed);
    assert_eq!(state.mode, TerminalMode::Inline);
    assert!(state.needs_full_redraw());

    // Same mode (no change).
    state.acknowledge_redraw();
    let changed = state.handle_event(&TerminalEvent::ModeChange(TerminalMode::Inline));
    assert!(!changed);
}

#[test]
fn terminal_state_resize_burst() {
    let mut state = TerminalState::new(TerminalMode::AltScreen);
    state.acknowledge_redraw();

    let changed = state.handle_event(&TerminalEvent::ResizeBurst {
        final_width: 200,
        final_height: 50,
        burst_count: 5,
    });
    assert!(changed);
    assert_eq!(state.width, 200);
    assert_eq!(state.height, 50);
    assert_eq!(state.pending_resizes(), 5);
    assert!(state.needs_full_redraw());
}

#[test]
fn terminal_state_acknowledge_redraw() {
    let mut state = TerminalState::new(TerminalMode::AltScreen);
    assert!(state.needs_full_redraw());

    state.acknowledge_redraw();
    assert!(!state.needs_full_redraw());
    assert_eq!(state.pending_resizes(), 0);
}

#[test]
fn terminal_event_resize_equality() {
    let a = TerminalEvent::Resized {
        width: 80,
        height: 24,
    };
    let b = TerminalEvent::Resized {
        width: 80,
        height: 24,
    };
    assert_eq!(a, b);
}

#[test]
fn terminal_event_reconnected() {
    assert_eq!(TerminalEvent::Reconnected, TerminalEvent::Reconnected);
}

#[test]
fn terminal_state_default_impl() {
    let state = TerminalState::default();
    assert_eq!(state.mode, TerminalMode::AltScreen);
}

#[test]
fn terminal_state_multiple_events() {
    let mut state = TerminalState::new(TerminalMode::AltScreen);
    state.acknowledge_redraw();

    // Resize, then focus loss, then reconnect.
    state.handle_event(&TerminalEvent::Resized {
        width: 100,
        height: 30,
    });
    state.handle_event(&TerminalEvent::FocusLost);
    state.handle_event(&TerminalEvent::Reconnected);

    assert_eq!(state.width, 100);
    assert_eq!(state.height, 30);
    assert!(!state.focused);
    assert!(state.connected);
    assert!(state.needs_full_redraw());
}
