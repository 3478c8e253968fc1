use lumina::components_2d::{BodyType, InputMap, ScriptTag, Tilemap, Trigger};

#[test]
fn key_bindings() {
    let m = InputMap::wasd();
    assert_eq!(m.move_left, vec!["KeyA", "ArrowLeft"]);
    assert_eq!(m.move_right, vec!["KeyD", "ArrowRight"]);
    assert_eq!(m.jump, vec!["KeyW", "Space", "ArrowUp"]);
    assert!(m.enabled);
    let a = InputMap::arrows();
    assert_eq!(a.move_left, vec!["ArrowLeft"]);
    assert_eq!(a.jump, vec!["ArrowUp", "Space"]);
    assert_eq!(InputMap::default().move_left, m.move_left);
}

#[test]
fn tilemap_grid_access() {
    let mut t = Tilemap::new("tiles", 3, 2, (16, 16));
    assert_eq!(t.grid, vec![vec![0, 0, 0], vec![0, 0, 0]]);
    t.set_tile(2, 1, 5);
    assert_eq!(t.get_tile(2, 1), 5);
    t.set_tile(3, 1, 9);
    t.set_tile(0, 2, 9);
    assert_eq!(t.get_tile(3, 1), 0);
    assert_eq!(t.get_tile(0, 2), 0);
    assert_eq!(t.grid, vec![vec![0, 0, 0], vec![0, 0, 5]]);
    assert_eq!(t.tileset, "tiles");
    assert_eq!(t.tile_size, (16, 16));
}

#[test]
fn triggers_and_tags() {
    let t = Trigger::new("win_level");
    assert_eq!(t.on_enter.as_deref(), Some("win_level"));
    assert!(t.on_exit.is_none());
    let tags = ScriptTag::new(vec!["player", "dynamic"]);
    assert!(tags.has_tag("player"));
    assert!(!tags.has_tag("enemy"));
    assert_ne!(BodyType::Dynamic, BodyType::Static);
}
