use lumina::live_preview::validate_scene;
use lumina::scene_description::{
    validate, Assets, AtlasConfig, EntityOutline, SceneOutline, SpriteAsset, TilesetAsset, Tilemap,
};

fn strings(v: &[&str]) -> Vec<String> {
    v.iter().map(|s| s.to_string()).collect()
}

fn template_assets() -> Assets {
    Assets {
        tilesets: vec![TilesetAsset { id: "base_ts".to_string(), src: "tiles/base.png".to_string(), tile_w: 16, tile_h: 16 }],
        sprites: vec![SpriteAsset {
            id: "hero".to_string(),
            src: "sprites/hero.png".to_string(),
            atlas: Some(AtlasConfig { frame_w: 16, frame_h: 16 }),
        }],
        sounds: vec![],
    }
}

fn template_scenes() -> Vec<SceneOutline> {
    vec![SceneOutline {
        tilemaps: vec![Tilemap {
            tileset: "base_ts".to_string(),
            grid: strings(&["................", "....####........", "################"]),
        }],
        entities: vec![
            EntityOutline {
                name: "Player".to_string(),
                tags: strings(&["player", "dynamic"]),
                component_names: strings(&["Transform2D", "Sprite", "RigidBody2D", "Collider2D", "CharacterController2D"]),
                sprite_atlas_id: Some("hero".to_string()),
            },
            EntityOutline {
                name: "Goal".to_string(),
                tags: strings(&["goal"]),
                component_names: strings(&["Transform2D", "Collider2D", "Trigger"]),
                sprite_atlas_id: None,
            },
        ],
    }]
}

#[test]
fn template_outline_has_no_reference_errors() {
    let errors = validate(&template_assets(), &template_scenes());
    assert!(errors.is_empty(), "Template should be valid: {:?}", errors);
}

#[test]
fn test_validation_missing_tileset() {
    let mut scenes = template_scenes();
    scenes[0].tilemaps[0].tileset = "nonexistent".to_string();
    let errors = validate(&template_assets(), &scenes);
    assert!(!errors.is_empty());
    assert!(errors[0].contains("unknown tileset"));
}

#[test]
fn every_problem_is_reported_in_order() {
    let mut scenes = template_scenes();
    scenes[0].entities[0].sprite_atlas_id = Some("villain".to_string());
    scenes[0].entities[0].component_names = strings(&["Sprite"]);
    scenes[0].entities[1].tags.push("player".to_string());
    scenes.push(SceneOutline {
        tilemaps: vec![Tilemap { tileset: "other".to_string(), grid: vec![] }],
        entities: vec![],
    });
    let errors = validate(&template_assets(), &scenes);
    assert_eq!(
        errors,
        strings(&[
            "Entity 'Player' references unknown sprite: villain",
            "Tilemap references unknown tileset: other",
            "Player entity 'Player' missing Transform2D component",
            "Player entity 'Player' missing CharacterController2D component",
            "Player entity 'Goal' missing CharacterController2D component",
        ])
    );
    assert!(validate(&Assets::default(), &vec![]).is_empty());
}

fn outline(name: &str, tags: &[&str], components: &[&str]) -> EntityOutline {
    EntityOutline {
        name: name.to_string(),
        tags: strings(tags),
        component_names: strings(components),
        sprite_atlas_id: None,
    }
}

#[test]
fn preview_check_counts_transforms_and_player() {
    let entities = vec![
        outline("Hero", &[], &["Transform", "Player"]),
        outline("Rock", &["solid"], &["Sprite"]),
    ];
    let r = validate_scene(&entities, 1000);
    assert!(r.is_valid);
    assert!(r.errors.is_empty());
    assert_eq!(r.warnings, strings(&["Entity 'Rock' missing Transform component"]));

    let r = validate_scene(&entities, 1);
    assert!(!r.is_valid);
    assert_eq!(r.errors, strings(&["Too many entities: 2 (max: 1)"]));

    let tagged = vec![outline("P1", &["player"], &["Transform"])];
    assert!(validate_scene(&tagged, 10).warnings.is_empty());

    let r = validate_scene(&vec![outline("Tree", &[], &[])], 10);
    assert!(r.is_valid);
    assert_eq!(
        r.warnings,
        strings(&["Entity 'Tree' missing Transform component", "No player entity found in scene"])
    );
    assert_eq!(validate_scene(&vec![], 0).warnings, strings(&["No player entity found in scene"]));
}
