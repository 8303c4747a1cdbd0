//! Keyboard and mouse events as the library sees them, and the decisions
//! that the main loop takes on raw input (paste shortcuts, paste bursts).

use vstd::prelude::*;

verus! {

/// A key.
#[derive(Clone, Copy, PartialEq, Eq, Debug, Structural)]
pub enum KeyCode {
    Char(char),
    /// Function key `F(n)`.
    F(u8),
    Enter,
    Backspace,
    Tab,
    BackTab,
    Esc,
    Up,
    Down,
    Left,
    Right,
    Home,
    End,
    PageUp,
    PageDown,
    Insert,
    Delete,
    /// Any other key.
    Other,
}

/// Modifier keys held with a key.
#[derive(Clone, Copy, PartialEq, Eq, Debug, Structural)]
pub struct Modifiers {
    pub shift: bool,
    pub ctrl: bool,
    pub alt: bool,
}

/// Press, auto-repeat or release.
#[derive(Clone, Copy, PartialEq, Eq, Debug, Structural)]
pub enum KeyKind {
    Press,
    Repeat,
    Release,
}

/// A key event.
#[derive(Clone, Copy, PartialEq, Eq, Debug, Structural)]
pub struct KeyEvent {
    pub code: KeyCode,
    pub modifiers: Modifiers,
    pub kind: KeyKind,
}

/// A mouse button.
#[derive(Clone, Copy, PartialEq, Eq, Debug, Structural)]
pub enum MouseButton {
    Left,
    Right,
    Middle,
}

/// What the mouse did.
#[derive(Clone, Copy, PartialEq, Eq, Debug, Structural)]
pub enum MouseKind {
    Down(MouseButton),
    Up(MouseButton),
    Drag(MouseButton),
    Moved,
    ScrollDown,
    ScrollUp,
    /// Any other mouse event.
    Other,
}

/// A mouse event at a cell.
#[derive(Clone, Copy, PartialEq, Eq, Debug, Structural)]
pub struct MouseEvent {
    pub kind: MouseKind,
    pub column: u16,
    pub row: u16,
}

/// An input event.
#[derive(Clone, Debug)]
pub enum Event {
    Key(KeyEvent),
    Mouse(MouseEvent),
    /// Bracketed paste.
    Paste(String),
    Resize(u16, u16),
    /// Focus changes and the like.
    Other,
}

/// In terminal mode, is this the paste-from-clipboard shortcut? Shift+Insert
/// (without Ctrl) or Ctrl+Shift+V. Plain Ctrl+V goes to the shell.
pub open spec fn is_paste_key_spec(k: KeyEvent) -> bool {
    match k.code {
        KeyCode::Insert => k.modifiers.shift && !k.modifiers.ctrl,
        KeyCode::Char(c) => (c == 'V' || c == 'v') && k.modifiers.ctrl && k.modifiers.shift,
        _ => false,
    }
}

/// Whether the key is the terminal's paste shortcut.
pub fn is_paste_key(k: &KeyEvent) -> (b: bool)
    ensures
        b == is_paste_key_spec(*k),
{
    let shift = k.modifiers.shift;
    let ctrl = k.modifiers.ctrl;
    match k.code {
        KeyCode::Insert => shift && !ctrl,
        KeyCode::Char(c) => (c == 'V' || c == 'v') && ctrl && shift,
        _ => false,
    }
}

/// The character a "typeable" key contributes to a paste burst: characters,
/// Enter as `\r` and Tab as `\t`, all without Ctrl or Alt.
pub open spec fn burst_char_spec(k: KeyEvent) -> Option<char> {
    if k.modifiers.ctrl || k.modifiers.alt {
        None
    } else {
        match k.code {
            KeyCode::Char(c) => Some(c),
            KeyCode::Enter => Some('\r'),
            KeyCode::Tab => Some('\t'),
            _ => None,
        }
    }
}

/// The character a key contributes to a paste burst, if any.
pub fn burst_char(k: &KeyEvent) -> (r: Option<char>)
    ensures
        r == burst_char_spec(*k),
{
    if k.modifiers.ctrl || k.modifiers.alt {
        return None;
    }
    match k.code {
        KeyCode::Char(c) => Some(c),
        KeyCode::Enter => Some('\r'),
        KeyCode::Tab => Some('\t'),
        _ => None,
    }
}

/// Largest burst collected at once, in bytes: a huge paste is taken in
/// several rounds so the screen does not look frozen.
pub const BURST_MAX_BYTES: usize = 65536;

/// What to do with the next pending event while collecting a burst.
#[derive(Clone, Copy, PartialEq, Eq, Debug, Structural)]
pub enum BurstStep {
    /// Consume it and add the character.
    Take(char),
    /// Consume it silently (a key release must not split a burst).
    Skip,
    /// Leave it in the stream and end the burst.
    Stop,
}

/// The decision for the next pending event (`None`: the stream ended or
/// failed, or nothing else is pending).
pub open spec fn burst_step_spec(next: Option<Event>) -> BurstStep {
    match next {
        Some(Event::Key(k)) => if k.kind == KeyKind::Press {
            match burst_char_spec(k) {
                Some(c) => BurstStep::Take(c),
                None => BurstStep::Stop,
            }
        } else {
            BurstStep::Skip
        },
        _ => BurstStep::Stop,
    }
}

/// Decides what a paste burst does with the next pending event.
pub fn burst_step(next: Option<&Event>) -> (s: BurstStep)
    ensures
        s == burst_step_spec(
            match next {
                Some(e) => Some(*e),
                None => None,
            },
        ),
{
    match next {
        Some(Event::Key(k)) => {
            if k.kind == KeyKind::Press {
                match burst_char(k) {
                    Some(c) => BurstStep::Take(c),
                    None => BurstStep::Stop,
                }
            } else {
                BurstStep::Skip
            }
        },
        _ => BurstStep::Stop,
    }
}

/// The terminal area below the top bar: (rows, cols), each at least 1.
pub fn term_area(width: u16, height: u16) -> (r: (u16, u16))
    ensures
        r.0 == (if height <= 1 {
            1
        } else {
            height - 1
        }),
        r.1 == (if width == 0 {
            1
        } else {
            width
        }),
{
    let rows = if height <= 1 {
        1
    } else {
        height - 1
    };
    let cols = if width == 0 {
        1
    } else {
        width
    };
    (rows, cols)
}

} // verus!
