use std::collections::HashMap;

use lumina::asset_db::{AssetBrowser, AssetDatabase, AssetMetadata, GameAsset};
use lumina::assets::AssetType;

fn asset(id: u128, name: &str, kind: AssetType, size: u64, tags: &[&str]) -> GameAsset {
    GameAsset {
        id,
        name: name.to_string(),
        path: format!("assets/{name}"),
        asset_type: kind,
        size,
        metadata: AssetMetadata {
            imported_at: 1,
            modified_at: 2,
            import_settings: HashMap::new(),
            dimensions: Some((16, 16)),
            duration_bits: None,
            properties: HashMap::new(),
        },
        tags: tags.iter().map(|t| t.to_string()).collect(),
    }
}

fn ids(v: &[&GameAsset]) -> Vec<u128> {
    v.iter().map(|a| a.id).collect()
}

#[test]
fn assets_are_indexed_by_kind_and_tag() {
    let mut db = AssetDatabase::new();
    assert_eq!(db.add_asset(asset(1, "Hero", AssetType::Image, 2048, &["player"])), 1);
    db.add_asset(asset(2, "jump", AssetType::Audio, 100, &["player", "sfx"]));
    db.add_asset(asset(3, "Tiles", AssetType::Image, 4096, &[]));
    assert_eq!(ids(&db.get_assets_by_type(&AssetType::Image)), vec![1, 3]);
    assert_eq!(ids(&db.get_assets_by_type(&AssetType::Font)), Vec::<u128>::new());
    assert_eq!(ids(&db.get_assets_by_tag("player")), vec![1, 2]);
    assert_eq!(ids(&db.get_assets_by_tag("sfx")), vec![2]);
    assert_eq!(db.get_asset(2).map(|a| a.name.clone()), Some("jump".to_string()));
    assert_eq!(ids(&db.get_all_assets()), vec![1, 2, 3]);
}

#[test]
fn removing_an_asset_clears_its_entries() {
    let mut db = AssetDatabase::default();
    db.add_asset(asset(1, "Hero", AssetType::Image, 10, &["player"]));
    db.add_asset(asset(2, "hero_run", AssetType::Image, 10, &["player"]));
    let removed = db.remove_asset(1).unwrap();
    assert_eq!(removed.name, "Hero");
    assert!(db.get_asset(1).is_none());
    assert!(db.remove_asset(1).is_none());
    assert_eq!(ids(&db.get_assets_by_type(&AssetType::Image)), vec![2]);
    assert_eq!(ids(&db.get_assets_by_tag("player")), vec![2]);
    assert_eq!(ids(&db.search_assets("hero")), vec![2]);
}

#[test]
fn search_finds_exact_terms_first_then_partial_ones() {
    let mut db = AssetDatabase::new();
    db.add_asset(asset(1, "Hero_Run", AssetType::Image, 1, &[]));
    db.add_asset(asset(2, "hero", AssetType::Audio, 1, &[]));
    db.add_asset(asset(3, "Level", AssetType::Scene, 1, &[]));
    assert_eq!(ids(&db.search_assets("HERO")), vec![2, 1]);
    assert_eq!(ids(&db.search_assets("image")), vec![1]);
    assert_eq!(ids(&db.search_assets("e")), vec![1, 2, 3]);
    assert!(db.search_assets("zzz").is_empty());
}

#[test]
fn statistics_sum_per_kind() {
    let mut db = AssetDatabase::new();
    db.add_asset(asset(1, "a", AssetType::Image, 1000, &[]));
    db.add_asset(asset(2, "b", AssetType::Audio, 24, &[]));
    db.add_asset(asset(3, "c", AssetType::Image, 1048, &[]));
    let stats = db.get_stats();
    assert_eq!(stats.total_assets, 3);
    assert_eq!(stats.total_size, 2072);
    assert_eq!(stats.total_size_string(), "2.0 KB");
    assert_eq!(stats.by_type.len(), 2);
    let image = stats.by_type.iter().find(|(t, _)| *t == AssetType::Image).unwrap();
    assert_eq!((image.1.count, image.1.size), (2, 2048));
    let audio = stats.by_type.iter().find(|(t, _)| *t == AssetType::Audio).unwrap();
    assert_eq!((audio.1.count, audio.1.size), (1, 24));
}

#[test]
fn tags_and_sizes_of_an_asset() {
    let mut a = asset(1, "Hero", AssetType::Image, 1536, &["player"]);
    a.add_tag("player".to_string());
    a.add_tag("hero".to_string());
    assert_eq!(a.tags, vec!["player", "hero"]);
    assert!(a.has_tag("hero"));
    a.remove_tag("player");
    assert_eq!(a.tags, vec!["hero"]);
    assert!(!a.has_tag("player"));
    assert_eq!(a.size_string(), "1.5 KB");
    assert_eq!(asset(2, "x", AssetType::Data, 512, &[]).size_string(), "512 B");
    for size in [0u64, 1023, 1024, 1536, 1_048_575, 1_048_576, 3_500_000, 1 << 30, 5_000_000_000] {
        let f = size as f64;
        let expected = if f < 1024.0 {
            format!("{} B", f)
        } else if f < 1024.0 * 1024.0 {
            format!("{:.1} KB", f / 1024.0)
        } else if f < 1024.0 * 1024.0 * 1024.0 {
            format!("{:.1} MB", f / (1024.0 * 1024.0))
        } else {
            format!("{:.1} GB", f / (1024.0 * 1024.0 * 1024.0))
        };
        assert_eq!(asset(9, "s", AssetType::Data, size, &[]).size_string(), expected, "size {size}");
    }
}

#[test]
fn browser_filters_by_query_kind_and_tag() {
    let mut browser = AssetBrowser::new();
    browser.database.add_asset(asset(1, "hero", AssetType::Image, 1, &["player"]));
    browser.database.add_asset(asset(2, "hero_jump", AssetType::Audio, 1, &["player"]));
    browser.database.add_asset(asset(3, "wall", AssetType::Image, 1, &[]));
    assert_eq!(ids(&browser.get_filtered_assets()), vec![1, 2, 3]);
    browser.set_search_query("hero".to_string());
    assert_eq!(ids(&browser.get_filtered_assets()), vec![1, 2]);
    browser.set_type_filter(Some(AssetType::Audio));
    assert_eq!(ids(&browser.get_filtered_assets()), vec![2]);
    browser.set_type_filter(None);
    browser.set_search_query(String::new());
    browser.set_tag_filter(Some("player".to_string()));
    assert_eq!(ids(&browser.get_filtered_assets()), vec![1, 2]);
    browser.select_asset(Some(3));
    assert_eq!(browser.get_selected_asset().map(|a| a.id), Some(3));
    browser.select_asset(Some(42));
    assert!(browser.get_selected_asset().is_none());
    browser.select_asset(None);
    assert!(browser.get_selected_asset().is_none());
}

#[test]
fn removing_a_fresh_asset_restores_the_database() {
    let mut db = AssetDatabase::new();
    db.add_asset(asset(1, "a", AssetType::Image, 1, &[]));
    db.add_asset(asset(2, "b", AssetType::Image, 1, &[]));
    db.remove_asset(2);
    assert_eq!(ids(&db.get_all_assets()), vec![1]);
    assert_eq!(ids(&db.get_assets_by_type(&AssetType::Image)), vec![1]);
    let again = db.add_asset(asset(1, "a2", AssetType::Image, 5, &[]));
    assert_eq!(again, 1);
    assert_eq!(db.get_asset(1).map(|a| a.name.clone()), Some("a2".to_string()));
    assert_eq!(ids(&db.get_all_assets()), vec![1]);
}

#[test]
fn extensions_map_back_to_their_kind_in_any_case() {
    let kinds = [
        AssetType::Image,
        AssetType::Audio,
        AssetType::Font,
        AssetType::Script,
        AssetType::Scene,
        AssetType::Data,
        AssetType::Model,
    ];
    for kind in kinds {
        for ext in kind.extensions() {
            assert_eq!(AssetType::from_extension(ext), kind);
            assert_eq!(AssetType::from_extension(&ext.to_uppercase()), kind);
        }
    }
    assert!(AssetType::Unknown.extensions().is_empty());
    assert_eq!(AssetType::from_extension("PNG"), AssetType::Image);
    assert_eq!(AssetType::from_extension("WoFf2"), AssetType::Font);
    assert_eq!(AssetType::from_extension("exe"), AssetType::Unknown);
    assert_eq!(AssetType::from_extension(""), AssetType::Unknown);
}
