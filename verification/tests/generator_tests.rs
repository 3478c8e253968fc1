use lumina::ai_types::AssetType;
use lumina::game_generator::{plan_scene_assets, validate_scene, AssetRequest, EntityMedia, MediaRef};
use lumina::scene_description::EntityOutline;

fn strings(v: &[&str]) -> Vec<String> {
    v.iter().map(|s| s.to_string()).collect()
}

fn outline(name: &str, tags: &[&str], components: &[&str]) -> EntityOutline {
    EntityOutline {
        name: name.to_string(),
        tags: strings(tags),
        component_names: strings(components),
        sprite_atlas_id: None,
    }
}

fn kind(t: &AssetType) -> &'static str {
    match t {
        AssetType::Sprite => "sprite",
        AssetType::Background => "background",
        AssetType::UiElement => "ui",
        AssetType::SoundEffect => "sfx",
        AssetType::Music => "music",
        AssetType::Model3D => "model",
    }
}

#[test]
fn complete_scene_has_no_warnings() {
    let entities = vec![
        outline("Hero", &[], &["Transform", "Sprite", "Player"]),
        outline("Manager", &["system"], &["Transform"]),
        outline("Label", &[], &["Transform", "Text"]),
    ];
    let mut warnings = vec!["earlier".to_string()];
    validate_scene(&entities, &strings(&["WinCheck"]), &mut warnings);
    assert_eq!(warnings, strings(&["earlier"]));
}

#[test]
fn generated_scene_warnings_come_in_order() {
    let entities = vec![outline("Rock", &[], &[]), outline("Tree", &[], &["Transform"])];
    let mut warnings = Vec::new();
    validate_scene(&entities, &strings(&["movement", "camera"]), &mut warnings);
    assert_eq!(
        warnings,
        strings(&[
            "Entity 'Rock' missing Transform component",
            "Entity 'Rock' has no visual representation",
            "Entity 'Tree' has no visual representation",
            "No player entity found in scene",
            "No clear win condition or objectives defined",
        ])
    );

    let mut warnings = Vec::new();
    validate_scene(&vec![], &strings(&["HighSCORE"]), &mut warnings);
    assert_eq!(
        warnings,
        strings(&["Generated scene has no entities", "No player entity found in scene"])
    );
}

fn view(r: &AssetRequest) -> (&'static str, String, Option<String>, Option<String>, Option<(u32, u32)>) {
    (kind(&r.asset_type), r.description.clone(), r.style.clone(), r.game_context.clone(), r.dimensions)
}

#[test]
fn assets_are_planned_per_reference() {
    let entities = vec![
        EntityMedia {
            name: "Hero".to_string(),
            refs: vec![
                MediaRef::Sprite("hero".to_string()),
                MediaRef::Sprite("generated:hero2".to_string()),
                MediaRef::Audio("jump".to_string()),
            ],
        },
        EntityMedia {
            name: "World".to_string(),
            refs: vec![MediaRef::Audio("level_bgm".to_string()), MediaRef::Sprite(String::new())],
        },
    ];
    let plan = plan_scene_assets(&entities, &"Jumper".to_string(), &"a hill".to_string(), true);
    let ctx = Some("Jumper - a hill".to_string());
    let seen: Vec<_> = plan.iter().map(view).collect();
    assert_eq!(
        seen,
        vec![
            ("sprite", "hero sprite for Hero".to_string(), Some("pixel art".to_string()), ctx.clone(), None),
            ("sfx", "jump audio for Hero".to_string(), Some("8-bit chiptune".to_string()), ctx.clone(), None),
            ("music", "level_bgm audio for World".to_string(), Some("8-bit chiptune".to_string()), ctx.clone(), None),
            ("background", "Background for a hill".to_string(), None, ctx.clone(), Some((1280, 720))),
        ]
    );
}

#[test]
fn at_most_ten_assets_are_planned() {
    let refs: Vec<MediaRef> = (0..12).map(|k| MediaRef::Sprite(format!("s{}", k))).collect();
    let entities = vec![EntityMedia { name: "Crowd".to_string(), refs }];
    let plan = plan_scene_assets(&entities, &"G".to_string(), &"d".to_string(), true);
    assert_eq!(plan.len(), 10);
    assert_eq!(plan[9].description, "s9 sprite for Crowd");
    assert!(plan_scene_assets(&vec![], &"G".to_string(), &"d".to_string(), false).is_empty());
}
