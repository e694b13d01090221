//! Terminal mode detection and inline/alt-screen resilience.
//!
//! Tracks the terminal's rendering mode, size, focus and connection so that
//! the shell can decide when a full re-render is needed after lifecycle
//! events, and can debounce SIGWINCH bursts.

use vstd::prelude::*;

verus! {

/// Terminal rendering mode.
#[derive(Debug, Clone, Copy, PartialEq, Eq, Structural)]
pub enum TerminalMode {
    /// Alt-screen mode: full terminal takeover, no scrollback.
    AltScreen,
    /// Inline mode: renders within existing scrollback.
    Inline,
}

impl Default for TerminalMode {
    fn default() -> (m: Self)
        ensures
            m == TerminalMode::AltScreen,
    {
        TerminalMode::AltScreen
    }
}

impl TerminalMode {
    /// Whether this mode uses the alternate screen buffer.
    pub fn uses_alt_screen(self) -> (b: bool)
        ensures
            b <==> self == TerminalMode::AltScreen,
    {
        matches!(self, TerminalMode::AltScreen)
    }

    /// Human-readable label.
    pub fn label(self) -> (s: &'static str)
        ensures
            self == TerminalMode::AltScreen ==> s@ == "Alt Screen"@,
            self == TerminalMode::Inline ==> s@ == "Inline"@,
    {
        match self {
            TerminalMode::AltScreen => "Alt Screen",
            TerminalMode::Inline => "Inline",
        }
    }

    /// The display text of the mode: its label as an owned string.
    pub fn to_display_string(self) -> (s: String)
        ensures
            self == TerminalMode::AltScreen ==> s@ == "Alt Screen"@,
            self == TerminalMode::Inline ==> s@ == "Inline"@,
    {
        self.label().to_owned()
    }
}

/// Terminal lifecycle events that the shell must handle for resilience.
#[derive(Debug, Clone, PartialEq, Eq, Structural)]
pub enum TerminalEvent {
    /// Terminal was resized. The shell should re-layout.
    Resized { width: u16, height: u16 },
    /// Terminal was reconnected after a disconnect.
    Reconnected,
    /// Terminal focus was gained.
    FocusGained,
    /// Terminal focus was lost.
    FocusLost,
    /// Mode transition requested.
    ModeChange(TerminalMode),
    /// SIGWINCH burst detected: only the final size matters.
    ResizeBurst { final_width: u16, final_height: u16, burst_count: u32 },
}

/// Tracks the current terminal state for resilience logic.
#[derive(Debug, Clone)]
pub struct TerminalState {
    /// Current rendering mode.
    pub mode: TerminalMode,
    /// Current terminal width.
    pub width: u16,
    /// Current terminal height.
    pub height: u16,
    /// Whether the terminal currently has focus.
    pub focused: bool,
    /// Whether the terminal is connected.
    pub connected: bool,
    /// Count of resize events since last render.
    pending_resizes: u32,
    /// Whether a full re-render is needed.
    needs_full_redraw: bool,
}

/// How many resize events an event adds to the pending count.
pub open spec fn resize_weight(event: TerminalEvent) -> nat {
    match event {
        TerminalEvent::Resized { .. } => 1,
        TerminalEvent::ResizeBurst { burst_count, .. } => burst_count as nat,
        _ => 0,
    }
}

/// Whether `event` changes what is visible in a terminal of the given mode,
/// size and focus: size, focus, mode, or, for a reconnect, always.
pub open spec fn event_changes_view(
    mode: TerminalMode,
    width: u16,
    height: u16,
    focused: bool,
    event: TerminalEvent,
) -> bool {
    match event {
        TerminalEvent::Resized { width: w, height: h } => width != w || height != h,
        TerminalEvent::Reconnected => true,
        TerminalEvent::FocusGained => !focused,
        TerminalEvent::FocusLost => focused,
        TerminalEvent::ModeChange(m) => mode != m,
        TerminalEvent::ResizeBurst { final_width, final_height, .. } => width != final_width
            || height != final_height,
    }
}

/// Abstract state of a terminal: every field, the private ones included.
pub struct TerminalStateView {
    pub mode: TerminalMode,
    pub width: u16,
    pub height: u16,
    pub focused: bool,
    pub connected: bool,
    pub pending_resizes: u32,
    pub needs_full_redraw: bool,
}

impl View for TerminalState {
    type V = TerminalStateView;

    closed spec fn view(&self) -> TerminalStateView {
        TerminalStateView {
            mode: self.mode,
            width: self.width,
            height: self.height,
            focused: self.focused,
            connected: self.connected,
            pending_resizes: self.pending_resizes,
            needs_full_redraw: self.needs_full_redraw,
        }
    }
}

impl TerminalState {

    /// Create a new terminal state with default dimensions (80x24, focused,
    /// connected, first render full).
    pub fn new(mode: TerminalMode) -> (s: Self)
        ensures
            s@.mode == mode,
            s@.width == 80,
            s@.height == 24,
            s@.focused,
            s@.connected,
            s@.pending_resizes == 0,
            s@.needs_full_redraw,
    {
        TerminalState {
            mode,
            width: 80,
            height: 24,
            focused: true,
            connected: true,
            pending_resizes: 0,
            needs_full_redraw: true,
        }
    }

    /// Process a terminal event and update state.
    ///
    /// Returns `true` if the event requires a re-render.
    pub fn handle_event(&mut self, event: &TerminalEvent) -> (changed: bool)
        requires
            old(self)@.pending_resizes + resize_weight(*event) <= u32::MAX,
        ensures
            changed == event_changes_view(
                old(self)@.mode,
                old(self)@.width,
                old(self)@.height,
                old(self)@.focused,
                *event,
            ),
            final(self)@.pending_resizes == old(self)@.pending_resizes
                + resize_weight(*event),
            final(self)@.needs_full_redraw == (old(self)@.needs_full_redraw
                || (changed && !(*event is FocusGained) && !(*event is FocusLost))),
            final(self)@.width == (match *event {
                TerminalEvent::Resized { width, .. } => width,
                TerminalEvent::ResizeBurst { final_width, .. } => final_width,
                _ => old(self)@.width,
            }),
            final(self)@.height == (match *event {
                TerminalEvent::Resized { height, .. } => height,
                TerminalEvent::ResizeBurst { final_height, .. } => final_height,
                _ => old(self)@.height,
            }),
            final(self)@.focused == (match *event {
                TerminalEvent::FocusGained => true,
                TerminalEvent::FocusLost => false,
                _ => old(self)@.focused,
            }),
            final(self)@.connected == (*event is Reconnected || old(self)@.connected),
            final(self)@.mode == (match *event {
                TerminalEvent::ModeChange(m) => m,
                _ => old(self)@.mode,
            }),
    {
        match event {
            TerminalEvent::Resized { width, height } => {
                let changed = self.width != *width || self.height != *height;
                self.width = *width;
                self.height = *height;
                self.pending_resizes = self.pending_resizes + 1;
                if changed {
                    self.needs_full_redraw = true;
                }
                changed
            },
            TerminalEvent::Reconnected => {
                self.connected = true;
                self.needs_full_redraw = true;
                true
            },
            TerminalEvent::FocusGained => {
                let changed = !self.focused;
                self.focused = true;
                changed
            },
            TerminalEvent::FocusLost => {
                let changed = self.focused;
                self.focused = false;
                changed
            },
            TerminalEvent::ModeChange(new_mode) => {
                let changed = self.mode != *new_mode;
                self.mode = *new_mode;
                if changed {
                    self.needs_full_redraw = true;
                }
                changed
            },
            TerminalEvent::ResizeBurst { final_width, final_height, burst_count } => {
                let changed = self.width != *final_width || self.height != *final_height;
                self.width = *final_width;
                self.height = *final_height;
                self.pending_resizes = self.pending_resizes + *burst_count;
                if changed {
                    self.needs_full_redraw = true;
                }
                changed
            },
        }
    }

    /// Whether a full redraw is needed.
    pub fn needs_full_redraw(&self) -> (b: bool)
        ensures
            b == self@.needs_full_redraw,
    {
        self.needs_full_redraw
    }

    /// Acknowledge the full redraw (call after rendering).
    pub fn acknowledge_redraw(&mut self)
        ensures
            !final(self)@.needs_full_redraw,
            final(self)@.pending_resizes == 0,
            final(self)@.mode == old(self)@.mode,
            final(self)@.width == old(self)@.width,
            final(self)@.height == old(self)@.height,
            final(self)@.focused == old(self)@.focused,
            final(self)@.connected == old(self)@.connected,
    {
        self.needs_full_redraw = false;
        self.pending_resizes = 0;
    }

    /// Mark the terminal as disconnected.
    pub fn mark_disconnected(&mut self)
        ensures
            !final(self)@.connected,
            final(self)@.mode == old(self)@.mode,
            final(self)@.width == old(self)@.width,
            final(self)@.height == old(self)@.height,
            final(self)@.focused == old(self)@.focused,
            final(self)@.pending_resizes == old(self)@.pending_resizes,
            final(self)@.needs_full_redraw == old(self)@.needs_full_redraw,
    {
        self.connected = false;
    }

    /// Number of pending resize events since last render.
    pub fn pending_resizes(&self) -> (n: u32)
        ensures
            n == self@.pending_resizes,
    {
        self.pending_resizes
    }

    /// Whether the terminal is currently connected.
    pub fn is_connected(&self) -> (b: bool)
        ensures
            b == self@.connected,
    {
        self.connected
    }
}

impl Default for TerminalState {
    fn default() -> (s: Self)
        ensures
            s@.mode == TerminalMode::AltScreen,
            s@.width == 80,
            s@.height == 24,
            s@.focused,
            s@.connected,
            s@.pending_resizes == 0,
            s@.needs_full_redraw,
    {
        TerminalState::new(TerminalMode::AltScreen)
    }
}


/// A resize, single or a burst, reports a change (and so marks a full
/// redraw) exactly when the new width or the new height differs from the
/// current one; a new size in either dimension alone is a change.
pub proof fn law_resize_changes_iff_size_differs(
    mode: TerminalMode,
    width: u16,
    height: u16,
    focused: bool,
    new_width: u16,
    new_height: u16,
    burst_count: u32,
)
    ensures
        event_changes_view(mode, width, height, focused, TerminalEvent::Resized { width: new_width, height: new_height })
            <==> (new_width != width || new_height != height),
        event_changes_view(
            mode,
            width,
            height,
            focused,
            TerminalEvent::ResizeBurst { final_width: new_width, final_height: new_height, burst_count },
        ) <==> (new_width != width || new_height != height),
        new_width != width ==> event_changes_view(
            mode,
            width,
            height,
            focused,
            TerminalEvent::Resized { width: new_width, height },
        ),
        new_height != height ==> event_changes_view(
            mode,
            width,
            height,
            focused,
            TerminalEvent::Resized { width, height: new_height },
        ),
{
}

} // verus!
