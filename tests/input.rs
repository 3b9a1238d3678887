use flask::input::{Button, Input, Key, State};

#[test]
fn fresh_input_is_idle() {
    let i = Input::new();
    assert_eq!(i.get_key_state(Key::A), State::Up);
    assert_eq!(i.get_last_button_state(Button::Left), State::Up);
    assert!(!i.key_pressed(Key::Space));
    assert_eq!(i.get_cursor_position(), (0, 0));
}

#[test]
fn key_press_is_an_edge() {
    let mut i = Input::new();
    i.set_key_state(Key::Space, State::Down);
    assert!(i.key_pressed(Key::Space));
    assert!(!i.key_pressed(Key::A));
    i.update_last_states();
    assert_eq!(i.get_last_key_state(Key::Space), State::Down);
    assert!(!i.key_pressed(Key::Space));
    i.set_key_state(Key::Space, State::Up);
    i.update_last_states();
    i.set_key_state(Key::Space, State::Down);
    assert!(i.key_pressed(Key::Space));
}

#[test]
fn button_press_is_an_edge() {
    let mut i = Input::new();
    i.set_button_state(Button::Right, State::Down);
    assert!(i.button_pressed(Button::Right));
    assert_eq!(i.get_button_state(Button::Left), State::Up);
    i.update_last_states();
    assert!(!i.button_pressed(Button::Right));
}

#[test]
fn cursor_is_clamped_to_half_the_buffer() {
    let mut i = Input::new();
    i.set_cursor_bounds(64, 48);
    i.move_cursor(10, 5);
    assert_eq!(i.get_cursor_position(), (10, -5));
    i.move_cursor(100, -100);
    assert_eq!(i.get_cursor_position_x(), 32);
    assert_eq!(i.get_cursor_position_y(), 24);
    i.move_cursor(i64::MIN, i64::MIN);
    assert_eq!(i.get_cursor_position(), (-32, 24));
    i.set_cursor_bounds(10, 10);
    assert_eq!(i.get_cursor_position(), (-5, 5));
}

#[test]
fn codes_round_trip() {
    assert_eq!(Key::from_code(65), Some(Key::A));
    assert_eq!(Key::from_code(222), Some(Key::SingleQuote));
    assert_eq!(Key::from_code(1), None);
    assert_eq!(Key::Escape.code(), 27);
    assert_eq!(Button::from_code(2), Some(Button::Right));
    assert_eq!(Button::from_code(7), None);
}
