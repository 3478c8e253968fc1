use lumina::components_2d::Tilemap;
use lumina::events::{Key, KeyboardEvent, MouseButton, WindowCloseEvent, WindowResizeEvent};
use lumina::web_input::WebInputSystem;

#[test]
fn tilemaps_read_from_text() {
    let t = Tilemap::from_string("base", "\n  ..#\r\n#=x.\n.\n\n", (16, 16));
    assert_eq!(t.grid, vec![vec![0, 0, 1], vec![1, 2, 0], vec![0, 0, 0]]);
    assert_eq!(t.tileset, "base");
    assert_eq!(t.tile_size, (16, 16));
    let empty = Tilemap::from_string("base", "   \n ", (8, 8));
    assert!(empty.grid.is_empty());
    let lines = Tilemap::from_string("t", "##\n\n=", (1, 1));
    assert_eq!(lines.grid, vec![vec![1, 1], vec![0, 0], vec![2, 0]]);
}

#[test]
fn key_names_ignore_case() {
    assert_eq!(Key::from("W"), Key::W);
    assert_eq!(Key::from("escape"), Key::Escape);
    assert_eq!(Key::from("ArrowLeft"), Key::ArrowLeft);
    assert_eq!(Key::from("F12"), Key::F12);
    assert_eq!(Key::from("7"), Key::Key7);
    assert_eq!(Key::from("Hyper"), Key::Unknown("Hyper".to_string()));
    assert_eq!(Key::from_name("META"), Key::Meta);
}

#[test]
fn engine_events_hold_their_data() {
    let e = KeyboardEvent { key: "a".to_string(), pressed: true, repeat: false };
    assert!(e.pressed && !e.repeat);
    assert_eq!(WindowResizeEvent { width: 3, height: 4 }, WindowResizeEvent { width: 3, height: 4 });
    assert_eq!(WindowCloseEvent, WindowCloseEvent);
    assert_ne!(MouseButton::Other(1), MouseButton::Left);
}

#[test]
fn browser_keys_are_tracked() {
    let mut input = WebInputSystem::new();
    assert_eq!(input.get_debug_info(), "No keys pressed");
    assert!(input.handle_keydown("KeyA"));
    assert!(!input.handle_keydown("KeyQ"));
    assert!(input.handle_keydown("KeyA"));
    assert_eq!(input.get_debug_info(), "Pressed: KeyA, KeyQ");
    assert!(input.handle_keyup("KeyA"));
    assert_eq!(input.get_debug_info(), "Pressed: KeyQ");
    assert!(!input.handle_keyup("Enter"));
    assert!(input.handle_keydown("Space"));
    assert!(input.handle_keyup("ArrowDown"));
    assert!(!input.handle_keyup("KeyQ"));
    assert_eq!(input.get_debug_info(), "Pressed: Space");
}
