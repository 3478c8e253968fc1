use lumina::ai_types::{DataAugmentation, ModelSpecialization, PreviewConfig};
use lumina::engine::{BasicApp, EditorRunner, EngineConfig, ExampleEcsApp, SimpleTextTest};
use lumina::panels;
use lumina::scene_objects::ObjectType;

#[test]
fn engine_defaults() {
    let c = EngineConfig::default();
    assert_eq!(c.window_title, "Lumina Engine Game");
    assert_eq!((c.window_width, c.window_height), (1280, 720));
    assert!(c.vsync && c.enable_audio && c.enable_physics && c.enable_scripting);
    assert_eq!(c.max_fps, None);
    let _ = BasicApp::new();
    let _ = BasicApp::default();
    let _ = SimpleTextTest::new();
    assert!(EditorRunner::new().is_ok());
    assert_eq!(ExampleEcsApp::new("Demo".to_string()).title, "Demo");
}

#[test]
fn tooling_defaults() {
    let p = PreviewConfig::default();
    assert!(p.auto_preview && p.debug_overlay);
    assert_eq!((p.target_fps, p.max_entities, p.window_size), (60, 1000, (1280, 720)));
    let a = DataAugmentation::default();
    assert_eq!(a.variation_multiplier, 3);
    assert!(!a.add_noise && a.synthetic_examples);
    let s = ModelSpecialization::default();
    assert_eq!(s.target_genres, vec!["platformer", "shooter", "puzzle", "rpg", "racing"]);
    assert_eq!(s.preferred_components, vec!["Transform", "Sprite", "Player", "Collider", "RigidBody"]);
}

#[test]
fn object_names() {
    assert_eq!(ObjectType::Trigger.display_name(), "Trigger");
    assert_eq!(ObjectType::Custom("Door".to_string()).display_name(), "Door");
    assert_eq!(panels::ObjectType::Collectible.display_name(), "Collectible");
    assert_eq!(panels::ObjectType::Custom("Lamp".to_string()).display_name(), "Lamp");
}
