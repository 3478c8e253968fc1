use lumina::events::{Key, KeyboardEvent, MouseButton};
use lumina::input_state::{same_key, Input};

fn key(name: &str, pressed: bool) -> KeyboardEvent {
    KeyboardEvent { key: name.to_string(), pressed, repeat: false }
}

#[test]
fn keys_go_down_and_up() {
    let mut input = Input::new();
    input.handle_keyboard_event(&key("W", true));
    assert!(input.is_key_pressed(&Key::W));
    assert!(input.is_key_just_pressed(&Key::W));
    input.handle_keyboard_event(&key("w", true));
    input.update();
    assert!(input.is_key_pressed(&Key::W));
    assert!(!input.is_key_just_pressed(&Key::W));
    input.handle_keyboard_event(&key("w", false));
    assert!(!input.is_key_pressed(&Key::W));
    assert!(input.is_key_just_released(&Key::W));
    input.handle_keyboard_event(&key("Hyper", true));
    assert!(input.is_key_pressed(&Key::Unknown("Hyper".to_string())));
    assert!(!input.is_key_pressed(&Key::Unknown("hyper".to_string())));
}

#[test]
fn releasing_an_unheld_key_still_counts_as_released() {
    let mut input = Input::default();
    input.handle_keyboard_event(&key("Space", false));
    assert!(!input.is_key_pressed(&Key::Space));
    assert!(input.is_key_just_released(&Key::Space));
}

#[test]
fn mouse_buttons_go_down_and_up() {
    let mut input = Input::new();
    input.handle_mouse_button(MouseButton::Left, true);
    input.handle_mouse_button(MouseButton::Other(4), true);
    assert!(input.is_mouse_button_pressed(MouseButton::Left));
    assert!(input.is_mouse_button_just_pressed(MouseButton::Other(4)));
    input.update();
    input.handle_mouse_button(MouseButton::Left, false);
    assert!(!input.is_mouse_button_pressed(MouseButton::Left));
    assert!(input.is_mouse_button_just_released(MouseButton::Left));
    assert!(!input.is_mouse_button_just_pressed(MouseButton::Other(4)));
    assert!(input.is_mouse_button_pressed(MouseButton::Other(4)));
}

#[test]
fn keys_compare_by_name() {
    assert!(same_key(&Key::F5, &Key::F5));
    assert!(!same_key(&Key::F5, &Key::F6));
    assert!(same_key(&Key::Unknown("x".to_string()), &Key::Unknown("x".to_string())));
    assert!(!same_key(&Key::Unknown("x".to_string()), &Key::X));
}
