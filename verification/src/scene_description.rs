//! Assets of a scene description and the checks of its references: every
//! tilemap names a known tileset, every sprite names a known sprite asset,
//! and every player entity has a transform and a character controller.
//!
//! The checks read only names, tags, component names and the sprite atlas
//! an entity asks for; those are what `EntityOutline` and `SceneOutline`
//! hold.

use vstd::prelude::*;
use crate::text::{owned, equals_str};

verus! {

broadcast use vstd::string::group_string_axioms;

/// The assets a scene description defines.
#[derive(Debug, Clone)]
pub struct Assets {
    pub tilesets: Vec<TilesetAsset>,
    pub sprites: Vec<SpriteAsset>,
    pub sounds: Vec<SoundAsset>,
}

impl Default for Assets {
    /// No assets.
    fn default() -> (r: Self)
        ensures
            r.tilesets@.len() == 0,
            r.sprites@.len() == 0,
            r.sounds@.len() == 0,
    {
        Assets { tilesets: Vec::new(), sprites: Vec::new(), sounds: Vec::new() }
    }
}

/// An image cut into tiles.
#[derive(Debug, Clone)]
pub struct TilesetAsset {
    pub id: String,
    pub src: String,
    pub tile_w: u32,
    pub tile_h: u32,
}

/// A sprite image, possibly a sheet of frames.
#[derive(Debug, Clone)]
pub struct SpriteAsset {
    pub id: String,
    pub src: String,
    pub atlas: Option<AtlasConfig>,
}

/// Frame size of a sprite sheet.
#[derive(Debug, Clone, Copy, PartialEq, Eq, Structural)]
pub struct AtlasConfig {
    pub frame_w: u32,
    pub frame_h: u32,
}

/// A sound file.
#[derive(Debug, Clone)]
pub struct SoundAsset {
    pub id: String,
    pub src: String,
}

/// A tile grid of a scene, as rows of characters over a tileset.
#[derive(Debug, Clone)]
pub struct Tilemap {
    pub tileset: String,
    pub grid: Vec<String>,
}

/// What the checks read of an entity: its name, its tags, the names of
/// its components, and the atlas its `Sprite` component names (when it
/// has one that names it as a string).
#[derive(Debug, Clone)]
pub struct EntityOutline {
    pub name: String,
    pub tags: Vec<String>,
    pub component_names: Vec<String>,
    pub sprite_atlas_id: Option<String>,
}

/// What the checks read of a scene: its tilemaps and entities.
#[derive(Debug, Clone)]
pub struct SceneOutline {
    pub tilemaps: Vec<Tilemap>,
    pub entities: Vec<EntityOutline>,
}

/// Whether some tileset has identifier `id`.
pub open spec fn has_tileset(assets: Assets, id: Seq<char>) -> bool {
    exists|i: int| 0 <= i < assets.tilesets@.len() && (#[trigger] assets.tilesets@[i]).id@ == id
}

/// Whether some sprite asset has identifier `id`.
pub open spec fn has_sprite(assets: Assets, id: Seq<char>) -> bool {
    exists|i: int| 0 <= i < assets.sprites@.len() && (#[trigger] assets.sprites@[i]).id@ == id
}

/// Whether a list of strings holds `x`.
pub open spec fn lists(v: Seq<String>, x: Seq<char>) -> bool {
    exists|i: int| 0 <= i < v.len() && (#[trigger] v[i])@ == x
}

/// The message for a tilemap over an unknown tileset.
pub open spec fn unknown_tileset_message(tileset: Seq<char>) -> Seq<char> {
    "Tilemap references unknown tileset: "@ + tileset
}

/// The message for an entity whose sprite is unknown.
pub open spec fn unknown_sprite_message(name: Seq<char>, atlas: Seq<char>) -> Seq<char> {
    "Entity '"@ + name + "' references unknown sprite: "@ + atlas
}

/// The message for a player entity without a component.
pub open spec fn missing_component_message(name: Seq<char>, component: Seq<char>) -> Seq<char> {
    "Player entity '"@ + name + "' missing "@ + component + " component"@
}

/// Messages for the tilemaps over unknown tilesets, in order.
pub open spec fn tilemap_errors(assets: Assets, maps: Seq<Tilemap>) -> Seq<Seq<char>>
    decreases maps.len(),
{
    if maps.len() == 0 {
        Seq::empty()
    } else {
        let t = maps.last();
        tilemap_errors(assets, maps.drop_last()) + if has_tileset(assets, t.tileset@) {
            Seq::empty()
        } else {
            seq![unknown_tileset_message(t.tileset@)]
        }
    }
}

/// Messages for the entities whose sprite atlas is unknown, in order.
pub open spec fn sprite_errors(assets: Assets, entities: Seq<EntityOutline>) -> Seq<Seq<char>>
    decreases entities.len(),
{
    if entities.len() == 0 {
        Seq::empty()
    } else {
        let e = entities.last();
        sprite_errors(assets, entities.drop_last()) + match e.sprite_atlas_id {
            Some(a) => if has_sprite(assets, a@) {
                Seq::empty()
            } else {
                seq![unknown_sprite_message(e.name@, a@)]
            },
            None => Seq::empty(),
        }
    }
}

/// Reference messages of each scene in turn: its tilemaps, then its entities.
pub open spec fn reference_errors(assets: Assets, scenes: Seq<SceneOutline>) -> Seq<Seq<char>>
    decreases scenes.len(),
{
    if scenes.len() == 0 {
        Seq::empty()
    } else {
        let s = scenes.last();
        reference_errors(assets, scenes.drop_last()) + tilemap_errors(assets, s.tilemaps@)
            + sprite_errors(assets, s.entities@)
    }
}

/// Messages for one entity tagged `player` that lacks a transform or a
/// character controller.
pub open spec fn player_entity_errors(e: EntityOutline) -> Seq<Seq<char>> {
    if lists(e.tags@, "player"@) {
        (if lists(e.component_names@, "Transform2D"@) {
            Seq::empty()
        } else {
            seq![missing_component_message(e.name@, "Transform2D"@)]
        }) + (if lists(e.component_names@, "CharacterController2D"@) {
            Seq::empty()
        } else {
            seq![missing_component_message(e.name@, "CharacterController2D"@)]
        })
    } else {
        Seq::empty()
    }
}

/// Player messages for a list of entities, in order.
pub open spec fn player_errors_of(entities: Seq<EntityOutline>) -> Seq<Seq<char>>
    decreases entities.len(),
{
    if entities.len() == 0 {
        Seq::empty()
    } else {
        player_errors_of(entities.drop_last()) + player_entity_errors(entities.last())
    }
}

/// Player messages of each scene in turn.
pub open spec fn player_errors(scenes: Seq<SceneOutline>) -> Seq<Seq<char>>
    decreases scenes.len(),
{
    if scenes.len() == 0 {
        Seq::empty()
    } else {
        player_errors(scenes.drop_last()) + player_errors_of(scenes.last().entities@)
    }
}

/// Every message of a scene description: all reference problems, then all
/// player problems.
pub open spec fn validation_errors(assets: Assets, scenes: Seq<SceneOutline>) -> Seq<Seq<char>> {
    reference_errors(assets, scenes) + player_errors(scenes)
}

/// The views of a list of strings.
pub open spec fn messages(v: Seq<String>) -> Seq<Seq<char>> {
    v.map_values(|s: String| s@)
}

fn knows_tileset(assets: &Assets, id: &String) -> (r: bool)
    ensures
        r == has_tileset(*assets, id@),
{
    let mut i: usize = 0;
    while i < assets.tilesets.len()
        invariant
            i <= assets.tilesets@.len(),
            forall|j: int| 0 <= j < i ==> (#[trigger] assets.tilesets@[j]).id@ != id@,
        decreases assets.tilesets@.len() - i,
    {
        if assets.tilesets[i].id == *id {
            return true;
        }
        i = i + 1;
    }
    false
}

fn knows_sprite(assets: &Assets, id: &String) -> (r: bool)
    ensures
        r == has_sprite(*assets, id@),
{
    let mut i: usize = 0;
    while i < assets.sprites.len()
        invariant
            i <= assets.sprites@.len(),
            forall|j: int| 0 <= j < i ==> (#[trigger] assets.sprites@[j]).id@ != id@,
        decreases assets.sprites@.len() - i,
    {
        if assets.sprites[i].id == *id {
            return true;
        }
        i = i + 1;
    }
    false
}

pub(crate) fn contains_text(v: &Vec<String>, x: &str) -> (r: bool)
    ensures
        r == lists(v@, x@),
{
    let mut i: usize = 0;
    while i < v.len()
        invariant
            i <= v@.len(),
            forall|j: int| 0 <= j < i ==> (#[trigger] v@[j])@ != x@,
        decreases v@.len() - i,
    {
        if equals_str(&v[i], x) {
            return true;
        }
        i = i + 1;
    }
    false
}

pub(crate) fn push_message(out: &mut Vec<String>, m: String)
    ensures
        messages(final(out)@) == messages(old(out)@).push(m@),
{
    out.push(m);
    assert(messages(final(out)@) =~= messages(old(out)@).push(m@));
}

fn missing_component(name: &String, component: &str) -> (r: String)
    ensures
        r@ == missing_component_message(name@, component@),
{
    let mut m = owned("Player entity '");
    m.append(name.as_str());
    m.append("' missing ");
    m.append(component);
    m.append(" component");
    m
}

fn check_tilemaps(assets: &Assets, maps: &Vec<Tilemap>, out: &mut Vec<String>)
    ensures
        messages(final(out)@) == messages(old(out)@) + tilemap_errors(*assets, maps@),
{
    let mut i: usize = 0;
    while i < maps.len()
        invariant
            i <= maps@.len(),
            messages(out@) == messages(old(out)@) + tilemap_errors(*assets, maps@.subrange(0, i as int)),
        decreases maps@.len() - i,
    {
        let ghost before = messages(out@);
        let t = &maps[i];
        if !knows_tileset(assets, &t.tileset) {
            let mut m = owned("Tilemap references unknown tileset: ");
            m.append(t.tileset.as_str());
            push_message(out, m);
        }
        proof {
            assert(maps@.subrange(0, i + 1).drop_last() == maps@.subrange(0, i as int));
            assert(messages(old(out)@) + tilemap_errors(*assets, maps@.subrange(0, i + 1))
                =~= messages(out@));
        }
        i = i + 1;
    }
    assert(maps@.subrange(0, i as int) == maps@);
}

fn check_sprites(assets: &Assets, entities: &Vec<EntityOutline>, out: &mut Vec<String>)
    ensures
        messages(final(out)@) == messages(old(out)@) + sprite_errors(*assets, entities@),
{
    let mut i: usize = 0;
    while i < entities.len()
        invariant
            i <= entities@.len(),
            messages(out@) == messages(old(out)@) + sprite_errors(
                *assets,
                entities@.subrange(0, i as int),
            ),
        decreases entities@.len() - i,
    {
        let e = &entities[i];
        match &e.sprite_atlas_id {
            Some(a) => {
                if !knows_sprite(assets, a) {
                    let mut m = owned("Entity '");
                    m.append(e.name.as_str());
                    m.append("' references unknown sprite: ");
                    m.append(a.as_str());
                    push_message(out, m);
                }
            },
            None => {},
        }
        proof {
            assert(entities@.subrange(0, i + 1).drop_last() == entities@.subrange(0, i as int));
            assert(messages(old(out)@) + sprite_errors(*assets, entities@.subrange(0, i + 1))
                =~= messages(out@));
        }
        i = i + 1;
    }
    assert(entities@.subrange(0, i as int) == entities@);
}

fn check_players(entities: &Vec<EntityOutline>, out: &mut Vec<String>)
    ensures
        messages(final(out)@) == messages(old(out)@) + player_errors_of(entities@),
{
    let mut i: usize = 0;
    while i < entities.len()
        invariant
            i <= entities@.len(),
            messages(out@) == messages(old(out)@) + player_errors_of(entities@.subrange(0, i as int)),
        decreases entities@.len() - i,
    {
        let e = &entities[i];
        let ghost before = messages(out@);
        if contains_text(&e.tags, "player") {
            if !contains_text(&e.component_names, "Transform2D") {
                push_message(out, missing_component(&e.name, "Transform2D"));
            }
            if !contains_text(&e.component_names, "CharacterController2D") {
                push_message(out, missing_component(&e.name, "CharacterController2D"));
            }
        }
        proof {
            assert(messages(out@) =~= before + player_entity_errors(*e));
            assert(entities@.subrange(0, i + 1).drop_last() == entities@.subrange(0, i as int));
            assert(messages(old(out)@) + player_errors_of(entities@.subrange(0, i + 1))
                =~= messages(out@));
        }
        i = i + 1;
    }
    assert(entities@.subrange(0, i as int) == entities@);
}

/// Checks the references of a scene description's scenes against its
/// assets; an empty list means it is consistent.
pub fn validate(assets: &Assets, scenes: &Vec<SceneOutline>) -> (r: Vec<String>)
    ensures
        messages(r@) == validation_errors(*assets, scenes@),
{
    let mut out: Vec<String> = Vec::new();
    assert(messages(out@) =~= Seq::<Seq<char>>::empty());
    let mut i: usize = 0;
    while i < scenes.len()
        invariant
            i <= scenes@.len(),
            messages(out@) == reference_errors(*assets, scenes@.subrange(0, i as int)),
        decreases scenes@.len() - i,
    {
        let ghost before = messages(out@);
        check_tilemaps(assets, &scenes[i].tilemaps, &mut out);
        check_sprites(assets, &scenes[i].entities, &mut out);
        proof {
            assert(scenes@.subrange(0, i + 1).drop_last() == scenes@.subrange(0, i as int));
        }
        i = i + 1;
    }
    assert(scenes@.subrange(0, i as int) == scenes@);
    let ghost refs = messages(out@);
    let mut k: usize = 0;
    while k < scenes.len()
        invariant
            k <= scenes@.len(),
            refs == reference_errors(*assets, scenes@),
            messages(out@) == refs + player_errors(scenes@.subrange(0, k as int)),
        decreases scenes@.len() - k,
    {
        check_players(&scenes[k].entities, &mut out);
        proof {
            assert(scenes@.subrange(0, k + 1).drop_last() == scenes@.subrange(0, k as int));
            assert(refs + player_errors(scenes@.subrange(0, k + 1)) =~= messages(out@));
        }
        k = k + 1;
    }
    assert(scenes@.subrange(0, k as int) == scenes@);
    out
}

} // verus!
