use lumina::button::{ButtonInput, MouseButton};

#[test]
fn test_button_press_and_release() {
    let mut input = ButtonInput::new();

    assert!(!input.pressed(MouseButton::Left));
    assert!(!input.just_pressed(MouseButton::Left));
    assert!(!input.just_released(MouseButton::Left));

    input.press(MouseButton::Left);
    assert!(input.pressed(MouseButton::Left));
    assert!(input.just_pressed(MouseButton::Left));
    assert!(!input.just_released(MouseButton::Left));

    input.clear_just_pressed();
    assert!(input.pressed(MouseButton::Left));
    assert!(!input.just_pressed(MouseButton::Left));
    assert!(!input.just_released(MouseButton::Left));

    input.release(MouseButton::Left);
    assert!(!input.pressed(MouseButton::Left));
    assert!(!input.just_pressed(MouseButton::Left));
    assert!(input.just_released(MouseButton::Left));
}

#[test]
fn test_multiple_buttons() {
    let mut input = ButtonInput::new();

    input.press(MouseButton::Left);
    input.press(MouseButton::Right);

    assert_eq!(input.len(), 2);
    assert!(input.pressed(MouseButton::Left));
    assert!(input.pressed(MouseButton::Right));

    input.release(MouseButton::Left);

    assert_eq!(input.len(), 1);
    assert!(!input.pressed(MouseButton::Left));
    assert!(input.pressed(MouseButton::Right));
}

#[test]
fn test_repeated_press() {
    let mut input = ButtonInput::new();

    input.press(MouseButton::Left);
    assert!(input.just_pressed(MouseButton::Left));
    assert!(input.pressed(MouseButton::Left));

    input.clear_just_pressed();
    assert!(!input.just_pressed(MouseButton::Left));
    assert!(input.pressed(MouseButton::Left));

    input.press(MouseButton::Left);
    assert!(!input.just_pressed(MouseButton::Left));
    assert!(input.pressed(MouseButton::Left));
}

#[test]
fn release_of_unheld_button_is_not_just_released() {
    let mut input: ButtonInput<u32> = ButtonInput::new();
    input.release(7);
    assert!(!input.just_released(7));
    assert!(input.is_empty());
    input.press(7);
    input.press(7);
    assert_eq!(input.len(), 1);
    assert_eq!(input.get_pressed(), vec![7]);
    assert_eq!(input.get_just_pressed(), vec![7]);
    input.release(7);
    assert_eq!(input.get_just_released(), vec![7]);
    input.reset();
    assert!(input.is_empty());
    assert!(input.get_just_pressed().is_empty());
    assert!(input.get_just_released().is_empty());
}

#[test]
fn other_buttons_are_distinct() {
    let mut input = ButtonInput::new();
    input.press(MouseButton::Other(3));
    assert!(input.pressed(MouseButton::Other(3)));
    assert!(!input.pressed(MouseButton::Other(4)));
    assert!(!input.pressed(MouseButton::Back));
}

#[test]
fn test_update_button_input() {
    let clicks = vec![(MouseButton::Left, true)];
    let mut mouse_input = ButtonInput::new();

    lumina::button::update_button_input(&clicks, &mut mouse_input);

    assert!(mouse_input.just_pressed(MouseButton::Left));
    assert!(mouse_input.pressed(MouseButton::Left));
}

#[test]
fn clicks_are_applied_in_order() {
    let clicks = vec![(MouseButton::Left, true), (MouseButton::Right, true), (MouseButton::Left, false)];
    let mut mouse_input = ButtonInput::default();
    lumina::button::update_button_input(&clicks, &mut mouse_input);
    assert!(!mouse_input.pressed(MouseButton::Left));
    assert!(mouse_input.just_pressed(MouseButton::Left));
    assert!(mouse_input.just_released(MouseButton::Left));
    assert!(mouse_input.pressed(MouseButton::Right));
    mouse_input.clear_just_pressed();
    assert!(!mouse_input.just_pressed(MouseButton::Right));
    assert!(mouse_input.pressed(MouseButton::Right));
}
