//! Keyboard keys, the queries a keyboard state answers, and the input
//! events a terminal reports.
use vstd::prelude::*;

pub use crate::noop_input::NoopInputState;
pub use crate::terminal_input::CrosstermInputState;
pub use crate::window_input::PixelsInputState;

verus! {

/// A key on the keyboard, independent of any backend.
#[derive(Debug, Clone, Copy, PartialEq, Eq, Hash, Structural)]
pub enum KeyboardKey {
    /// Key: '
    Apostrophe,
    /// Key: ,
    Comma,
    /// Key: -
    Minus,
    /// Key: .
    Period,
    /// Key: /
    Slash,
    /// Key: 0
    Zero,
    /// Key: 1
    One,
    /// Key: 2
    Two,
    /// Key: 3
    Three,
    /// Key: 4
    Four,
    /// Key: 5
    Five,
    /// Key: 6
    Six,
    /// Key: 7
    Seven,
    /// Key: 8
    Eight,
    /// Key: 9
    Nine,
    /// Key: ;
    Semicolon,
    /// Key: =
    Equal,
    /// Key: A | a
    A,
    /// Key: B | b
    B,
    /// Key: C | c
    C,
    /// Key: D | d
    D,
    /// Key: E | e
    E,
    /// Key: F | f
    F,
    /// Key: G | g
    G,
    /// Key: H | h
    H,
    /// Key: I | i
    I,
    /// Key: J | j
    J,
    /// Key: K | k
    K,
    /// Key: L | l
    L,
    /// Key: M | m
    M,
    /// Key: N | n
    N,
    /// Key: O | o
    O,
    /// Key: P | p
    P,
    /// Key: Q | q
    Q,
    /// Key: R | r
    R,
    /// Key: S | s
    S,
    /// Key: T | t
    T,
    /// Key: U | u
    U,
    /// Key: V | v
    V,
    /// Key: W | w
    W,
    /// Key: X | x
    X,
    /// Key: Y | y
    Y,
    /// Key: Z | z
    Z,
    /// Key: [
    LeftBracket,
    /// Key: '\'
    Backslash,
    /// Key: ]
    RightBracket,
    /// Key: `
    Grave,
    /// Key: Space
    Space,
    /// Key: Esc
    Escape,
    /// Key: Enter
    Enter,
    /// Key: Tab
    Tab,
    /// Key: Backspace
    Backspace,
    /// Key: Ins
    Insert,
    /// Key: Del
    Delete,
    /// Key: Cursor right
    Right,
    /// Key: Cursor left
    Left,
    /// Key: Cursor down
    Down,
    /// Key: Cursor up
    Up,
    /// Key: Page up
    PageUp,
    /// Key: Page down
    PageDown,
    /// Key: Home
    Home,
    /// Key: End
    End,
    /// Key: Caps lock
    CapsLock,
    /// Key: Scroll down
    ScrollLock,
    /// Key: Num lock
    NumLock,
    /// Key: Print screen
    PrintScreen,
    /// Key: Pause
    Pause,
    /// Key: F1
    F1,
    /// Key: F2
    F2,
    /// Key: F3
    F3,
    /// Key: F4
    F4,
    /// Key: F5
    F5,
    /// Key: F6
    F6,
    /// Key: F7
    F7,
    /// Key: F8
    F8,
    /// Key: F9
    F9,
    /// Key: F10
    F10,
    /// Key: F11
    F11,
    /// Key: F12
    F12,
    /// Key: Shift left
    LeftShift,
    /// Key: Control left
    LeftControl,
    /// Key: Alt left
    LeftAlt,
    /// Key: Super left
    LeftSuper,
    /// Key: Shift right
    RightShift,
    /// Key: Control right
    RightControl,
    /// Key: Alt right
    RightAlt,
    /// Key: Super right
    RightSuper,
    /// Key: KB menu
    KbMenu,
    /// Key: Keypad 0
    Kp0,
    /// Key: Keypad 1
    Kp1,
    /// Key: Keypad 2
    Kp2,
    /// Key: Keypad 3
    Kp3,
    /// Key: Keypad 4
    Kp4,
    /// Key: Keypad 5
    Kp5,
    /// Key: Keypad 6
    Kp6,
    /// Key: Keypad 7
    Kp7,
    /// Key: Keypad 8
    Kp8,
    /// Key: Keypad 9
    Kp9,
    /// Key: Keypad .
    KpDecimal,
    /// Key: Keypad /
    KpDivide,
    /// Key: Keypad *
    KpMultiply,
    /// Key: Keypad -
    KpSubtract,
    /// Key: Keypad +
    KpAdd,
    /// Key: Keypad Enter
    KpEnter,
    /// Key: Keypad =
    KpEqual,
}

/// The number of keys in [`KeyboardKey`].
pub const KEY_COUNT: usize = 105;

/// The slot of `k` in a table indexed by key.
pub open spec fn key_index(k: KeyboardKey) -> int {
    match k {
        KeyboardKey::Apostrophe => 0,
        KeyboardKey::Comma => 1,
        KeyboardKey::Minus => 2,
        KeyboardKey::Period => 3,
        KeyboardKey::Slash => 4,
        KeyboardKey::Zero => 5,
        KeyboardKey::One => 6,
        KeyboardKey::Two => 7,
        KeyboardKey::Three => 8,
        KeyboardKey::Four => 9,
        KeyboardKey::Five => 10,
        KeyboardKey::Six => 11,
        KeyboardKey::Seven => 12,
        KeyboardKey::Eight => 13,
        KeyboardKey::Nine => 14,
        KeyboardKey::Semicolon => 15,
        KeyboardKey::Equal => 16,
        KeyboardKey::A => 17,
        KeyboardKey::B => 18,
        KeyboardKey::C => 19,
        KeyboardKey::D => 20,
        KeyboardKey::E => 21,
        KeyboardKey::F => 22,
        KeyboardKey::G => 23,
        KeyboardKey::H => 24,
        KeyboardKey::I => 25,
        KeyboardKey::J => 26,
        KeyboardKey::K => 27,
        KeyboardKey::L => 28,
        KeyboardKey::M => 29,
        KeyboardKey::N => 30,
        KeyboardKey::O => 31,
        KeyboardKey::P => 32,
        KeyboardKey::Q => 33,
        KeyboardKey::R => 34,
        KeyboardKey::S => 35,
        KeyboardKey::T => 36,
        KeyboardKey::U => 37,
        KeyboardKey::V => 38,
        KeyboardKey::W => 39,
        KeyboardKey::X => 40,
        KeyboardKey::Y => 41,
        KeyboardKey::Z => 42,
        KeyboardKey::LeftBracket => 43,
        KeyboardKey::Backslash => 44,
        KeyboardKey::RightBracket => 45,
        KeyboardKey::Grave => 46,
        KeyboardKey::Space => 47,
        KeyboardKey::Escape => 48,
        KeyboardKey::Enter => 49,
        KeyboardKey::Tab => 50,
        KeyboardKey::Backspace => 51,
        KeyboardKey::Insert => 52,
        KeyboardKey::Delete => 53,
        KeyboardKey::Right => 54,
        KeyboardKey::Left => 55,
        KeyboardKey::Down => 56,
        KeyboardKey::Up => 57,
        KeyboardKey::PageUp => 58,
        KeyboardKey::PageDown => 59,
        KeyboardKey::Home => 60,
        KeyboardKey::End => 61,
        KeyboardKey::CapsLock => 62,
        KeyboardKey::ScrollLock => 63,
        KeyboardKey::NumLock => 64,
        KeyboardKey::PrintScreen => 65,
        KeyboardKey::Pause => 66,
        KeyboardKey::F1 => 67,
        KeyboardKey::F2 => 68,
        KeyboardKey::F3 => 69,
        KeyboardKey::F4 => 70,
        KeyboardKey::F5 => 71,
        KeyboardKey::F6 => 72,
        KeyboardKey::F7 => 73,
        KeyboardKey::F8 => 74,
        KeyboardKey::F9 => 75,
        KeyboardKey::F10 => 76,
        KeyboardKey::F11 => 77,
        KeyboardKey::F12 => 78,
        KeyboardKey::LeftShift => 79,
        KeyboardKey::LeftControl => 80,
        KeyboardKey::LeftAlt => 81,
        KeyboardKey::LeftSuper => 82,
        KeyboardKey::RightShift => 83,
        KeyboardKey::RightControl => 84,
        KeyboardKey::RightAlt => 85,
        KeyboardKey::RightSuper => 86,
        KeyboardKey::KbMenu => 87,
        KeyboardKey::Kp0 => 88,
        KeyboardKey::Kp1 => 89,
        KeyboardKey::Kp2 => 90,
        KeyboardKey::Kp3 => 91,
        KeyboardKey::Kp4 => 92,
        KeyboardKey::Kp5 => 93,
        KeyboardKey::Kp6 => 94,
        KeyboardKey::Kp7 => 95,
        KeyboardKey::Kp8 => 96,
        KeyboardKey::Kp9 => 97,
        KeyboardKey::KpDecimal => 98,
        KeyboardKey::KpDivide => 99,
        KeyboardKey::KpMultiply => 100,
        KeyboardKey::KpSubtract => 101,
        KeyboardKey::KpAdd => 102,
        KeyboardKey::KpEnter => 103,
        KeyboardKey::KpEqual => 104,
    }
}

/// The slot of `key` in a table indexed by key.
pub fn key_slot(key: KeyboardKey) -> (r: usize)
    ensures
        r == key_index(key),
        r < KEY_COUNT,
{
    match key {
        KeyboardKey::Apostrophe => 0,
        KeyboardKey::Comma => 1,
        KeyboardKey::Minus => 2,
        KeyboardKey::Period => 3,
        KeyboardKey::Slash => 4,
        KeyboardKey::Zero => 5,
        KeyboardKey::One => 6,
        KeyboardKey::Two => 7,
        KeyboardKey::Three => 8,
        KeyboardKey::Four => 9,
        KeyboardKey::Five => 10,
        KeyboardKey::Six => 11,
        KeyboardKey::Seven => 12,
        KeyboardKey::Eight => 13,
        KeyboardKey::Nine => 14,
        KeyboardKey::Semicolon => 15,
        KeyboardKey::Equal => 16,
        KeyboardKey::A => 17,
        KeyboardKey::B => 18,
        KeyboardKey::C => 19,
        KeyboardKey::D => 20,
        KeyboardKey::E => 21,
        KeyboardKey::F => 22,
        KeyboardKey::G => 23,
        KeyboardKey::H => 24,
        KeyboardKey::I => 25,
        KeyboardKey::J => 26,
        KeyboardKey::K => 27,
        KeyboardKey::L => 28,
        KeyboardKey::M => 29,
        KeyboardKey::N => 30,
        KeyboardKey::O => 31,
        KeyboardKey::P => 32,
        KeyboardKey::Q => 33,
        KeyboardKey::R => 34,
        KeyboardKey::S => 35,
        KeyboardKey::T => 36,
        KeyboardKey::U => 37,
        KeyboardKey::V => 38,
        KeyboardKey::W => 39,
        KeyboardKey::X => 40,
        KeyboardKey::Y => 41,
        KeyboardKey::Z => 42,
        KeyboardKey::LeftBracket => 43,
        KeyboardKey::Backslash => 44,
        KeyboardKey::RightBracket => 45,
        KeyboardKey::Grave => 46,
        KeyboardKey::Space => 47,
        KeyboardKey::Escape => 48,
        KeyboardKey::Enter => 49,
        KeyboardKey::Tab => 50,
        KeyboardKey::Backspace => 51,
        KeyboardKey::Insert => 52,
        KeyboardKey::Delete => 53,
        KeyboardKey::Right => 54,
        KeyboardKey::Left => 55,
        KeyboardKey::Down => 56,
        KeyboardKey::Up => 57,
        KeyboardKey::PageUp => 58,
        KeyboardKey::PageDown => 59,
        KeyboardKey::Home => 60,
        KeyboardKey::End => 61,
        KeyboardKey::CapsLock => 62,
        KeyboardKey::ScrollLock => 63,
        KeyboardKey::NumLock => 64,
        KeyboardKey::PrintScreen => 65,
        KeyboardKey::Pause => 66,
        KeyboardKey::F1 => 67,
        KeyboardKey::F2 => 68,
        KeyboardKey::F3 => 69,
        KeyboardKey::F4 => 70,
        KeyboardKey::F5 => 71,
        KeyboardKey::F6 => 72,
        KeyboardKey::F7 => 73,
        KeyboardKey::F8 => 74,
        KeyboardKey::F9 => 75,
        KeyboardKey::F10 => 76,
        KeyboardKey::F11 => 77,
        KeyboardKey::F12 => 78,
        KeyboardKey::LeftShift => 79,
        KeyboardKey::LeftControl => 80,
        KeyboardKey::LeftAlt => 81,
        KeyboardKey::LeftSuper => 82,
        KeyboardKey::RightShift => 83,
        KeyboardKey::RightControl => 84,
        KeyboardKey::RightAlt => 85,
        KeyboardKey::RightSuper => 86,
        KeyboardKey::KbMenu => 87,
        KeyboardKey::Kp0 => 88,
        KeyboardKey::Kp1 => 89,
        KeyboardKey::Kp2 => 90,
        KeyboardKey::Kp3 => 91,
        KeyboardKey::Kp4 => 92,
        KeyboardKey::Kp5 => 93,
        KeyboardKey::Kp6 => 94,
        KeyboardKey::Kp7 => 95,
        KeyboardKey::Kp8 => 96,
        KeyboardKey::Kp9 => 97,
        KeyboardKey::KpDecimal => 98,
        KeyboardKey::KpDivide => 99,
        KeyboardKey::KpMultiply => 100,
        KeyboardKey::KpSubtract => 101,
        KeyboardKey::KpAdd => 102,
        KeyboardKey::KpEnter => 103,
        KeyboardKey::KpEqual => 104,
    }
}

/// A key as a terminal reports it.
#[derive(Debug, Clone, Copy, PartialEq, Eq, Structural)]
pub enum TerminalKeyCode {
    Backspace,
    Enter,
    Left,
    Right,
    Up,
    Down,
    Home,
    End,
    PageUp,
    PageDown,
    Tab,
    BackTab,
    Delete,
    Insert,
    /// A function key, by number.
    F(u8),
    /// A key that types a character.
    Char(char),
    Null,
    Esc,
    CapsLock,
    ScrollLock,
    NumLock,
    PrintScreen,
    Pause,
    Menu,
    KeypadBegin,
    /// A media key.
    Media,
    /// A modifier key reported on its own.
    Modifier,
}

/// The keyboard key that a terminal key code stands for, if any.
pub open spec fn key_for_code(code: TerminalKeyCode) -> Option<KeyboardKey> {
    match code {
        TerminalKeyCode::Backspace => Some(KeyboardKey::Backspace),
        TerminalKeyCode::Enter => Some(KeyboardKey::Enter),
        TerminalKeyCode::Left => Some(KeyboardKey::Left),
        TerminalKeyCode::Right => Some(KeyboardKey::Right),
        TerminalKeyCode::Up => Some(KeyboardKey::Up),
        TerminalKeyCode::Down => Some(KeyboardKey::Down),
        TerminalKeyCode::Home => Some(KeyboardKey::Home),
        TerminalKeyCode::End => Some(KeyboardKey::End),
        TerminalKeyCode::PageUp => Some(KeyboardKey::PageUp),
        TerminalKeyCode::PageDown => Some(KeyboardKey::PageDown),
        TerminalKeyCode::Tab => Some(KeyboardKey::Tab),
        TerminalKeyCode::BackTab => None,
        TerminalKeyCode::Delete => Some(KeyboardKey::Delete),
        TerminalKeyCode::Insert => Some(KeyboardKey::Insert),
        TerminalKeyCode::F(fkey) => match fkey {
            1 => Some(KeyboardKey::F1),
            2 => Some(KeyboardKey::F2),
            3 => Some(KeyboardKey::F3),
            4 => Some(KeyboardKey::F4),
            5 => Some(KeyboardKey::F5),
            6 => Some(KeyboardKey::F6),
            7 => Some(KeyboardKey::F7),
            8 => Some(KeyboardKey::F8),
            9 => Some(KeyboardKey::F9),
            10 => Some(KeyboardKey::F10),
            11 => Some(KeyboardKey::F11),
            12 => Some(KeyboardKey::F12),
            _ => None,
        },
        TerminalKeyCode::Char(character) => match character {
            '1' => Some(KeyboardKey::One),
            '2' => Some(KeyboardKey::Two),
            '3' => Some(KeyboardKey::Three),
            '4' => Some(KeyboardKey::Four),
            '5' => Some(KeyboardKey::Five),
            '6' => Some(KeyboardKey::Six),
            '7' => Some(KeyboardKey::Seven),
            '8' => Some(KeyboardKey::Eight),
            '9' => Some(KeyboardKey::Nine),
            '0' => Some(KeyboardKey::Zero),
            'a' | 'A' => Some(KeyboardKey::A),
            'b' | 'B' => Some(KeyboardKey::B),
            'c' | 'C' => Some(KeyboardKey::C),
            'd' | 'D' => Some(KeyboardKey::D),
            'e' | 'E' => Some(KeyboardKey::E),
            'f' | 'F' => Some(KeyboardKey::F),
            'g' | 'G' => Some(KeyboardKey::G),
            'h' | 'H' => Some(KeyboardKey::H),
            'i' | 'I' => Some(KeyboardKey::I),
            'j' | 'J' => Some(KeyboardKey::J),
            'k' | 'K' => Some(KeyboardKey::K),
            'l' | 'L' => Some(KeyboardKey::L),
            'm' | 'M' => Some(KeyboardKey::M),
            'n' | 'N' => Some(KeyboardKey::N),
            'o' | 'O' => Some(KeyboardKey::O),
            'p' | 'P' => Some(KeyboardKey::P),
            'q' | 'Q' => Some(KeyboardKey::Q),
            'r' | 'R' => Some(KeyboardKey::R),
            's' | 'S' => Some(KeyboardKey::S),
            't' | 'T' => Some(KeyboardKey::T),
            'u' | 'U' => Some(KeyboardKey::U),
            'v' | 'V' => Some(KeyboardKey::V),
            'w' | 'W' => Some(KeyboardKey::W),
            'x' | 'X' => Some(KeyboardKey::X),
            'y' | 'Y' => Some(KeyboardKey::Y),
            'z' | 'Z' => Some(KeyboardKey::Z),
            '\'' => Some(KeyboardKey::Apostrophe),
            ',' => Some(KeyboardKey::Comma),
            '-' => Some(KeyboardKey::Minus),
            '.' => Some(KeyboardKey::Period),
            '/' => Some(KeyboardKey::Slash),
            ';' => Some(KeyboardKey::Semicolon),
            '=' => Some(KeyboardKey::Equal),
            '[' => Some(KeyboardKey::LeftBracket),
            '\\' => Some(KeyboardKey::Backslash),
            ']' => Some(KeyboardKey::RightBracket),
            '`' => Some(KeyboardKey::Grave),
            ' ' => Some(KeyboardKey::Space),
            _ => None,
        },
        TerminalKeyCode::Null => None,
        TerminalKeyCode::Esc => Some(KeyboardKey::Escape),
        TerminalKeyCode::CapsLock => Some(KeyboardKey::CapsLock),
        TerminalKeyCode::ScrollLock => Some(KeyboardKey::ScrollLock),
        TerminalKeyCode::NumLock => Some(KeyboardKey::NumLock),
        TerminalKeyCode::PrintScreen => Some(KeyboardKey::PrintScreen),
        TerminalKeyCode::Pause => Some(KeyboardKey::Pause),
        TerminalKeyCode::Menu => Some(KeyboardKey::KbMenu),
        TerminalKeyCode::KeypadBegin => None,
        TerminalKeyCode::Media => None,
        TerminalKeyCode::Modifier => None,
    }
}

/// Maps a terminal key code to a keyboard key; codes without a key map to `None`.
pub fn map_terminal_keycode(keycode: &TerminalKeyCode) -> (r: Option<KeyboardKey>)
    ensures
        r == key_for_code(*keycode),
{
    match *keycode {
        TerminalKeyCode::Backspace => Some(KeyboardKey::Backspace),
        TerminalKeyCode::Enter => Some(KeyboardKey::Enter),
        TerminalKeyCode::Left => Some(KeyboardKey::Left),
        TerminalKeyCode::Right => Some(KeyboardKey::Right),
        TerminalKeyCode::Up => Some(KeyboardKey::Up),
        TerminalKeyCode::Down => Some(KeyboardKey::Down),
        TerminalKeyCode::Home => Some(KeyboardKey::Home),
        TerminalKeyCode::End => Some(KeyboardKey::End),
        TerminalKeyCode::PageUp => Some(KeyboardKey::PageUp),
        TerminalKeyCode::PageDown => Some(KeyboardKey::PageDown),
        TerminalKeyCode::Tab => Some(KeyboardKey::Tab),
        TerminalKeyCode::BackTab => None,
        TerminalKeyCode::Delete => Some(KeyboardKey::Delete),
        TerminalKeyCode::Insert => Some(KeyboardKey::Insert),
        TerminalKeyCode::F(fkey) => match fkey {
            1 => Some(KeyboardKey::F1),
            2 => Some(KeyboardKey::F2),
            3 => Some(KeyboardKey::F3),
            4 => Some(KeyboardKey::F4),
            5 => Some(KeyboardKey::F5),
            6 => Some(KeyboardKey::F6),
            7 => Some(KeyboardKey::F7),
            8 => Some(KeyboardKey::F8),
            9 => Some(KeyboardKey::F9),
            10 => Some(KeyboardKey::F10),
            11 => Some(KeyboardKey::F11),
            12 => Some(KeyboardKey::F12),
            _ => None,
        },
        TerminalKeyCode::Char(character) => match character {
            '1' => Some(KeyboardKey::One),
            '2' => Some(KeyboardKey::Two),
            '3' => Some(KeyboardKey::Three),
            '4' => Some(KeyboardKey::Four),
            '5' => Some(KeyboardKey::Five),
            '6' => Some(KeyboardKey::Six),
            '7' => Some(KeyboardKey::Seven),
            '8' => Some(KeyboardKey::Eight),
            '9' => Some(KeyboardKey::Nine),
            '0' => Some(KeyboardKey::Zero),
            'a' | 'A' => Some(KeyboardKey::A),
            'b' | 'B' => Some(KeyboardKey::B),
            'c' | 'C' => Some(KeyboardKey::C),
            'd' | 'D' => Some(KeyboardKey::D),
            'e' | 'E' => Some(KeyboardKey::E),
            'f' | 'F' => Some(KeyboardKey::F),
            'g' | 'G' => Some(KeyboardKey::G),
            'h' | 'H' => Some(KeyboardKey::H),
            'i' | 'I' => Some(KeyboardKey::I),
            'j' | 'J' => Some(KeyboardKey::J),
            'k' | 'K' => Some(KeyboardKey::K),
            'l' | 'L' => Some(KeyboardKey::L),
            'm' | 'M' => Some(KeyboardKey::M),
            'n' | 'N' => Some(KeyboardKey::N),
            'o' | 'O' => Some(KeyboardKey::O),
            'p' | 'P' => Some(KeyboardKey::P),
            'q' | 'Q' => Some(KeyboardKey::Q),
            'r' | 'R' => Some(KeyboardKey::R),
            's' | 'S' => Some(KeyboardKey::S),
            't' | 'T' => Some(KeyboardKey::T),
            'u' | 'U' => Some(KeyboardKey::U),
            'v' | 'V' => Some(KeyboardKey::V),
            'w' | 'W' => Some(KeyboardKey::W),
            'x' | 'X' => Some(KeyboardKey::X),
            'y' | 'Y' => Some(KeyboardKey::Y),
            'z' | 'Z' => Some(KeyboardKey::Z),
            '\'' => Some(KeyboardKey::Apostrophe),
            ',' => Some(KeyboardKey::Comma),
            '-' => Some(KeyboardKey::Minus),
            '.' => Some(KeyboardKey::Period),
            '/' => Some(KeyboardKey::Slash),
            ';' => Some(KeyboardKey::Semicolon),
            '=' => Some(KeyboardKey::Equal),
            '[' => Some(KeyboardKey::LeftBracket),
            '\\' => Some(KeyboardKey::Backslash),
            ']' => Some(KeyboardKey::RightBracket),
            '`' => Some(KeyboardKey::Grave),
            ' ' => Some(KeyboardKey::Space),
            _ => None,
        },
        TerminalKeyCode::Null => None,
        TerminalKeyCode::Esc => Some(KeyboardKey::Escape),
        TerminalKeyCode::CapsLock => Some(KeyboardKey::CapsLock),
        TerminalKeyCode::ScrollLock => Some(KeyboardKey::ScrollLock),
        TerminalKeyCode::NumLock => Some(KeyboardKey::NumLock),
        TerminalKeyCode::PrintScreen => Some(KeyboardKey::PrintScreen),
        TerminalKeyCode::Pause => Some(KeyboardKey::Pause),
        TerminalKeyCode::Menu => Some(KeyboardKey::KbMenu),
        TerminalKeyCode::KeypadBegin => None,
        TerminalKeyCode::Media => None,
        TerminalKeyCode::Modifier => None,
    }
}

/// The kind of a key event.
#[derive(Debug, Clone, Copy, PartialEq, Eq, Structural)]
pub enum KeyEventKind {
    Press,
    Repeat,
    Release,
}

/// The modifier bit of the shift keys.
pub const MODIFIER_SHIFT: u8 = 1;

/// The modifier bit of the control keys.
pub const MODIFIER_CONTROL: u8 = 2;

/// The modifier bit of the alt keys.
pub const MODIFIER_ALT: u8 = 4;

/// A key event as a terminal reports it.
#[derive(Debug, Clone, Copy, PartialEq, Eq, Structural)]
pub struct TerminalKeyEvent {
    pub code: TerminalKeyCode,
    pub kind: KeyEventKind,
    /// The modifiers held, one bit each (`MODIFIER_SHIFT`, `MODIFIER_CONTROL`, ...).
    pub modifiers: u8,
}

/// Whether `e` is the reserved interrupt: a press of 'c' or 'C' with control
/// as the only modifier.
pub open spec fn is_interrupt(e: TerminalKeyEvent) -> bool {
    &&& e.kind == KeyEventKind::Press
    &&& (e.code == TerminalKeyCode::Char('c') || e.code == TerminalKeyCode::Char('C'))
    &&& e.modifiers == MODIFIER_CONTROL
}

/// What the loop does after a refresh of the input state.
#[derive(Debug, Clone, Copy, PartialEq, Eq, Structural)]
pub enum NextLoopState {
    /// Go on with the next update.
    Continue,
    /// Shut down cleanly and exit the process with this code.
    Exit(i32),
}

/// The exit code requested by the reserved interrupt, as for SIGINT.
pub const INTERRUPT_EXIT_CODE: i32 = 130;

/// The state of the keyboard as of the current update.
pub trait KeyboardState {
    /// Whether `key` went down during this update.
    spec fn key_pressed(&self, key: KeyboardKey) -> bool;

    /// Whether `key` is held down.
    spec fn key_down(&self, key: KeyboardKey) -> bool;

    /// Whether `key` went up during this update.
    spec fn key_released(&self, key: KeyboardKey) -> bool;

    /// Whether `key` was pressed during this update.
    fn is_key_pressed(&self, key: KeyboardKey) -> (r: bool)
        ensures
            r == self.key_pressed(key),
    ;

    /// Whether `key` is being held down.
    fn is_key_down(&self, key: KeyboardKey) -> (r: bool)
        ensures
            r == self.key_down(key),
    ;

    /// Whether `key` was released during this update.
    fn is_key_released(&self, key: KeyboardKey) -> (r: bool)
        ensures
            r == self.key_released(key),
    ;

    /// Whether `key` is up (not held down).
    fn is_key_up(&self, key: KeyboardKey) -> (r: bool)
        ensures
            r == !self.key_down(key),
    ;
}

/// Input handling hooked into the loop: `begin` once before the first
/// update, `next_loop` before each update, `finish` once at the end.
pub trait InputState: KeyboardState {
    /// The backend's invariant.
    spec fn ready(&self) -> bool;

    /// Starts input handling; `distinct_release_events` tells whether the
    /// backend reports key releases (and repeats) as events of their own.
    fn begin(&mut self, distinct_release_events: bool)
        requires
            old(self).ready(),
        ensures
            final(self).ready(),
    ;

    /// Refreshes the keyboard state for the next update.
    fn next_loop(&mut self) -> (r: NextLoopState)
        requires
            old(self).ready(),
        ensures
            final(self).ready(),
    ;

    /// Ends input handling.
    fn finish(&mut self)
        requires
            old(self).ready(),
        ensures
            final(self).ready(),
    ;
}

} // verus!
