use pixel_loop::input::{
    map_terminal_keycode, InputState, KeyEventKind, KeyboardKey, KeyboardState, NextLoopState,
    TerminalKeyCode, TerminalKeyEvent, MODIFIER_CONTROL, MODIFIER_SHIFT,
};
use pixel_loop::noop_input::NoopInputState;
use pixel_loop::terminal_input::CrosstermInputState;
use pixel_loop::window_input::{PixelsInputState, WindowEvent};

fn key(code: TerminalKeyCode, kind: KeyEventKind) -> TerminalKeyEvent {
    TerminalKeyEvent { code, kind, modifiers: 0 }
}

fn press_a() -> TerminalKeyEvent {
    key(TerminalKeyCode::Char('a'), KeyEventKind::Press)
}

#[test]
fn fallback_press_is_held_for_two_refreshes() {
    let mut input = CrosstermInputState::new().with_event_cycles_before_released(2);
    input.handle_new_event(press_a());

    assert_eq!(input.next_loop(), NextLoopState::Continue);
    assert!(input.is_key_down(KeyboardKey::A));
    assert!(input.is_key_pressed(KeyboardKey::A));
    assert!(!input.is_key_released(KeyboardKey::A));

    assert_eq!(input.next_loop(), NextLoopState::Continue);
    assert!(input.is_key_down(KeyboardKey::A));
    assert!(!input.is_key_pressed(KeyboardKey::A));
    assert!(!input.is_key_released(KeyboardKey::A));

    assert_eq!(input.next_loop(), NextLoopState::Continue);
    assert!(!input.is_key_down(KeyboardKey::A));
    assert!(input.is_key_up(KeyboardKey::A));
    assert!(input.is_key_released(KeyboardKey::A));

    assert_eq!(input.next_loop(), NextLoopState::Continue);
    assert!(!input.is_key_released(KeyboardKey::A));
}

#[test]
fn fallback_round_trip_with_three_cycles() {
    let mut input = CrosstermInputState::new().with_event_cycles_before_released(3);
    input.handle_new_event(press_a());
    let mut pressed = vec![];
    let mut released = vec![];
    let mut down = vec![];
    for _ in 0..4 {
        input.next_loop();
        pressed.push(input.is_key_pressed(KeyboardKey::A));
        released.push(input.is_key_released(KeyboardKey::A));
        down.push(input.is_key_down(KeyboardKey::A));
    }
    assert_eq!(pressed, vec![true, false, false, false]);
    assert_eq!(released, vec![false, false, false, true]);
    assert_eq!(down, vec![true, true, true, false]);
}

#[test]
fn fallback_repeated_press_keeps_key_down() {
    let mut input = CrosstermInputState::new().with_event_cycles_before_released(3);
    input.handle_new_event(press_a());
    input.next_loop();
    input.next_loop();
    input.handle_new_event(press_a());
    input.next_loop();
    assert!(input.is_key_down(KeyboardKey::A));
    assert!(!input.is_key_pressed(KeyboardKey::A));
    assert!(!input.is_key_released(KeyboardKey::A));
    input.next_loop();
    input.next_loop();
    assert!(input.is_key_down(KeyboardKey::A));
    input.next_loop();
    assert!(input.is_key_released(KeyboardKey::A));
}

#[test]
fn fallback_press_in_the_refresh_that_ends_the_countdown_counts_as_a_new_press() {
    let mut input = CrosstermInputState::new();
    input.handle_new_event(press_a());
    input.next_loop();
    input.next_loop();
    input.handle_new_event(press_a());
    input.next_loop();
    assert!(input.is_key_down(KeyboardKey::A));
    assert!(input.is_key_pressed(KeyboardKey::A));
    assert!(!input.is_key_released(KeyboardKey::A));
}

#[test]
fn enhanced_press_and_release() {
    let mut input = CrosstermInputState::new();
    input.begin(true);
    assert!(input.enhanced_keyboard());
    input.handle_new_event(key(TerminalKeyCode::Left, KeyEventKind::Press));
    input.next_loop();
    assert!(input.is_key_pressed(KeyboardKey::Left));
    assert!(input.is_key_down(KeyboardKey::Left));
    input.next_loop();
    input.next_loop();
    input.next_loop();
    assert!(input.is_key_down(KeyboardKey::Left));
    assert!(!input.is_key_pressed(KeyboardKey::Left));
    input.handle_new_event(key(TerminalKeyCode::Left, KeyEventKind::Repeat));
    input.handle_new_event(key(TerminalKeyCode::Left, KeyEventKind::Release));
    input.next_loop();
    assert!(input.is_key_released(KeyboardKey::Left));
    assert!(input.is_key_up(KeyboardKey::Left));
    input.finish();
    assert!(!input.enhanced_keyboard());
}

#[test]
fn control_c_requests_exit_130() {
    let mut input = CrosstermInputState::new();
    input.handle_new_event(press_a());
    input.handle_new_event(TerminalKeyEvent {
        code: TerminalKeyCode::Char('C'),
        kind: KeyEventKind::Press,
        modifiers: MODIFIER_CONTROL,
    });
    assert_eq!(input.next_loop(), NextLoopState::Exit(130));
    assert!(!input.is_key_down(KeyboardKey::A));
    assert_eq!(input.next_loop(), NextLoopState::Continue);
}

#[test]
fn shifted_c_is_no_interrupt() {
    let mut input = CrosstermInputState::new();
    input.handle_new_event(TerminalKeyEvent {
        code: TerminalKeyCode::Char('c'),
        kind: KeyEventKind::Press,
        modifiers: MODIFIER_CONTROL | MODIFIER_SHIFT,
    });
    assert_eq!(input.next_loop(), NextLoopState::Continue);
    assert!(input.is_key_pressed(KeyboardKey::C));
}

#[test]
fn unmapped_keys_are_ignored() {
    let mut input = CrosstermInputState::new();
    input.handle_new_event(key(TerminalKeyCode::Null, KeyEventKind::Press));
    input.handle_new_event(key(TerminalKeyCode::F(13), KeyEventKind::Press));
    assert_eq!(input.next_loop(), NextLoopState::Continue);
    assert!(input.is_key_up(KeyboardKey::F12));
}

#[test]
fn key_code_mapping() {
    assert_eq!(map_terminal_keycode(&TerminalKeyCode::Char('a')), Some(KeyboardKey::A));
    assert_eq!(map_terminal_keycode(&TerminalKeyCode::Char('Z')), Some(KeyboardKey::Z));
    assert_eq!(map_terminal_keycode(&TerminalKeyCode::Char(' ')), Some(KeyboardKey::Space));
    assert_eq!(map_terminal_keycode(&TerminalKeyCode::Char('0')), Some(KeyboardKey::Zero));
    assert_eq!(map_terminal_keycode(&TerminalKeyCode::F(12)), Some(KeyboardKey::F12));
    assert_eq!(map_terminal_keycode(&TerminalKeyCode::F(13)), None);
    assert_eq!(map_terminal_keycode(&TerminalKeyCode::Esc), Some(KeyboardKey::Escape));
    assert_eq!(map_terminal_keycode(&TerminalKeyCode::Menu), Some(KeyboardKey::KbMenu));
    assert_eq!(map_terminal_keycode(&TerminalKeyCode::BackTab), None);
    assert_eq!(map_terminal_keycode(&TerminalKeyCode::Char('!')), None);
}

#[test]
fn noop_input_never_holds_a_key() {
    let mut input = NoopInputState::new();
    input.begin(false);
    assert_eq!(input.next_loop(), NextLoopState::Continue);
    assert!(!input.is_key_pressed(KeyboardKey::A));
    assert!(!input.is_key_down(KeyboardKey::A));
    assert!(input.is_key_released(KeyboardKey::A));
    assert!(input.is_key_up(KeyboardKey::A));
    input.finish();
}

#[test]
fn window_input_press_and_release() {
    let mut input = PixelsInputState::new();
    input.handle_new_event(&WindowEvent::Key { key: Some(KeyboardKey::Q), pressed: true });
    assert!(input.is_key_pressed(KeyboardKey::Q));
    assert!(input.is_key_down(KeyboardKey::Q));
    input.next_loop();
    input.handle_new_event(&WindowEvent::Other);
    assert!(!input.is_key_pressed(KeyboardKey::Q));
    assert!(input.is_key_down(KeyboardKey::Q));
    input.next_loop();
    input.handle_new_event(&WindowEvent::Key { key: Some(KeyboardKey::Q), pressed: false });
    assert!(input.is_key_released(KeyboardKey::Q));
    assert!(input.is_key_up(KeyboardKey::Q));
    input.handle_new_event(&WindowEvent::Key { key: None, pressed: true });
    assert!(input.is_key_released(KeyboardKey::Q));
}
