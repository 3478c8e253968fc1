//! Checks run on a scene that the game generator produced: it should have
//! entities, each with a `Transform` and something to show, a player, and
//! a script that names an objective; and the choice of the assets to
//! generate for such a scene.

use vstd::prelude::*;
use crate::scene_description::{EntityOutline, lists, messages, contains_text, push_message};
use crate::live_preview::{has_player, any_player, missing_transform, missing_transform_message};
use crate::asset_db::{contains_text as text_has, text_contains};
use crate::text::{owned, to_lowercase, lowercase_of};
use crate::lines::chars_of;
use crate::ai_types::AssetType;

verus! {

broadcast use vstd::string::group_string_axioms;

/// The warning for an entity with nothing to show.
pub open spec fn no_visual_message(name: Seq<char>) -> Seq<char> {
    "Entity '"@ + name + "' has no visual representation"@
}

/// Whether the entity shows something: a `Sprite` or `Text` component, or
/// the `system` tag, which marks entities that need none.
pub open spec fn shows_or_is_system(e: EntityOutline) -> bool {
    lists(e.component_names@, "Sprite"@) || lists(e.component_names@, "Text"@) || lists(
        e.tags@,
        "system"@,
    )
}

/// The warnings for one entity: a missing `Transform`, then nothing to
/// show.
pub open spec fn entity_warnings(e: EntityOutline) -> Seq<Seq<char>> {
    let t: Seq<Seq<char>> = if lists(e.component_names@, "Transform"@) {
        seq![]
    } else {
        seq![missing_transform_message(e.name@)]
    };
    let v: Seq<Seq<char>> = if shows_or_is_system(e) {
        seq![]
    } else {
        seq![no_visual_message(e.name@)]
    };
    t + v
}

/// The warnings for all entities, entity by entity.
pub open spec fn all_entity_warnings(entities: Seq<EntityOutline>) -> Seq<Seq<char>>
    decreases entities.len(),
{
    if entities.len() == 0 {
        seq![]
    } else {
        all_entity_warnings(entities.drop_last()) + entity_warnings(entities.last())
    }
}

/// Whether a script's name, lowercased, mentions a goal, a win or a score.
pub open spec fn is_objective(name: Seq<char>) -> bool {
    let l = lowercase_of(name);
    text_has(l, "goal"@) || text_has(l, "win"@) || text_has(l, "score"@)
}

/// Whether some script names an objective.
pub open spec fn has_objective(script_names: Seq<String>) -> bool {
    exists|i: int| 0 <= i < script_names.len() && is_objective(#[trigger] script_names[i]@)
}

/// The warnings for a generated scene, in order: no entities, the
/// entities' own warnings, no player, no objective.
pub open spec fn generated_scene_warnings(
    entities: Seq<EntityOutline>,
    script_names: Seq<String>,
) -> Seq<Seq<char>> {
    let empty: Seq<Seq<char>> = if entities.len() == 0 {
        seq!["Generated scene has no entities"@]
    } else {
        seq![]
    };
    let player: Seq<Seq<char>> = if has_player(entities) {
        seq![]
    } else {
        seq!["No player entity found in scene"@]
    };
    let objective: Seq<Seq<char>> = if has_objective(script_names) {
        seq![]
    } else {
        seq!["No clear win condition or objectives defined"@]
    };
    empty + all_entity_warnings(entities) + player + objective
}

/// Whether the script name mentions an objective.
fn names_objective(name: &String) -> (r: bool)
    ensures
        r == is_objective(name@),
{
    let l = to_lowercase(name.as_str());
    text_contains(&l, &owned("goal")) || text_contains(&l, &owned("win")) || text_contains(
        &l,
        &owned("score"),
    )
}

/// Whether some script names an objective.
fn any_objective(script_names: &Vec<String>) -> (r: bool)
    ensures
        r == has_objective(script_names@),
{
    let mut i: usize = 0;
    while i < script_names.len()
        invariant
            i <= script_names@.len(),
            forall|k: int| 0 <= k < i ==> !is_objective(#[trigger] script_names@[k]@),
        decreases script_names@.len() - i,
    {
        if names_objective(&script_names[i]) {
            return true;
        }
        i = i + 1;
    }
    false
}

/// Checks a generated scene, given its entities and the names of its
/// scripts, and appends the warnings to `warnings`.
pub fn validate_scene(
    entities: &Vec<EntityOutline>,
    script_names: &Vec<String>,
    warnings: &mut Vec<String>,
)
    ensures
        messages(final(warnings)@) == messages(old(warnings)@) + generated_scene_warnings(
            entities@,
            script_names@,
        ),
{
    let ghost start = messages(warnings@);
    if entities.len() == 0 {
        push_message(warnings, owned("Generated scene has no entities"));
    }
    let ghost after_empty = messages(warnings@);
    let mut i: usize = 0;
    while i < entities.len()
        invariant
            i <= entities@.len(),
            messages(warnings@) == after_empty + all_entity_warnings(entities@.take(i as int)),
        decreases entities@.len() - i,
    {
        let e = &entities[i];
        proof {
            assert(entities@.take(i + 1).drop_last() =~= entities@.take(i as int));
            assert(entities@.take(i + 1).last() == entities@[i as int]);
        }
        let ghost before = messages(warnings@);
        if !contains_text(&e.component_names, "Transform") {
            push_message(warnings, missing_transform(&e.name));
        }
        let shows = contains_text(&e.component_names, "Sprite") || contains_text(
            &e.component_names,
            "Text",
        );
        if !shows && !contains_text(&e.tags, "system") {
            let mut m = owned("Entity '");
            m.append(e.name.as_str());
            m.append("' has no visual representation");
            push_message(warnings, m);
        }
        proof {
            assert(messages(warnings@) =~= before + entity_warnings(entities@[i as int]));
            assert(after_empty + all_entity_warnings(entities@.take(i + 1)) =~= after_empty
                + all_entity_warnings(entities@.take(i as int)) + entity_warnings(
                entities@[i as int],
            ));
        }
        i = i + 1;
    }
    proof {
        assert(entities@.take(i as int) =~= entities@);
    }
    if !any_player(entities) {
        push_message(warnings, owned("No player entity found in scene"));
    }
    if !any_objective(script_names) {
        push_message(warnings, owned("No clear win condition or objectives defined"));
    }
    proof {
        assert(messages(warnings@) =~= start + generated_scene_warnings(entities@, script_names@));
    }
}


/// Most assets generated for one scene.
pub const MAX_SCENE_ASSETS: usize = 10;

/// A media file that a component of an entity refers to.
pub enum MediaRef {
    /// The texture of a sprite.
    Sprite(String),
    /// The clip of an audio source.
    Audio(String),
}

/// An entity's name and the media its components refer to, in component
/// order.
pub struct EntityMedia {
    pub name: String,
    pub refs: Vec<MediaRef>,
}

/// A request to generate one asset.
pub struct AssetRequest {
    pub asset_type: AssetType,
    pub description: String,
    pub style: Option<String>,
    pub game_context: Option<String>,
    pub dimensions: Option<(u32, u32)>,
}

/// A request as plain values: kind, description, style, game context,
/// dimensions.
pub type RequestView = (AssetType, Seq<char>, Option<Seq<char>>, Option<Seq<char>>, Option<(u32, u32)>);

/// The plain values of a request.
pub open spec fn request_view(r: AssetRequest) -> RequestView {
    (
        r.asset_type,
        r.description@,
        match r.style {
            Some(s) => Some(s@),
            None => None,
        },
        match r.game_context {
            Some(c) => Some(c@),
            None => None,
        },
        r.dimensions,
    )
}

/// The plain values of a list of requests.
pub open spec fn request_views(v: Seq<AssetRequest>) -> Seq<RequestView> {
    v.map_values(|r: AssetRequest| request_view(r))
}

/// Whether `s` begins with `p`.
pub open spec fn begins_with(s: Seq<char>, p: Seq<char>) -> bool {
    p.len() <= s.len() && s.subrange(0, p.len() as int) == p
}

/// Whether a media file still has to be made: it is named, and not one
/// made before (`generated:` names those).
pub open spec fn needs_asset(src: Seq<char>) -> bool {
    src.len() > 0 && !begins_with(src, "generated:"@)
}

/// Whether an audio clip is music: its name mentions `music` or `bgm`.
pub open spec fn is_music(clip: Seq<char>) -> bool {
    text_has(clip, "music"@) || text_has(clip, "bgm"@)
}

/// The request for one media reference of the entity `name`, if it needs
/// one.
pub open spec fn ref_requests(name: Seq<char>, r: MediaRef, context: Seq<char>) -> Seq<RequestView> {
    match r {
        MediaRef::Sprite(t) => if needs_asset(t@) {
            seq![(AssetType::Sprite, t@ + " sprite for "@ + name, Some("pixel art"@), Some(context), None)]
        } else {
            seq![]
        },
        MediaRef::Audio(c) => if needs_asset(c@) {
            seq![
                (
                    if is_music(c@) { AssetType::Music } else { AssetType::SoundEffect },
                    c@ + " audio for "@ + name,
                    Some("8-bit chiptune"@),
                    Some(context),
                    None,
                ),
            ]
        } else {
            seq![]
        },
    }
}

/// The requests for the media references of the entity `name`, in order.
pub open spec fn refs_requests(name: Seq<char>, refs: Seq<MediaRef>, context: Seq<char>) -> Seq<RequestView>
    decreases refs.len(),
{
    if refs.len() == 0 {
        seq![]
    } else {
        refs_requests(name, refs.drop_last(), context) + ref_requests(name, refs.last(), context)
    }
}

/// The requests for all entities, entity by entity.
pub open spec fn entities_requests(entities: Seq<EntityMedia>, context: Seq<char>) -> Seq<RequestView>
    decreases entities.len(),
{
    if entities.len() == 0 {
        seq![]
    } else {
        entities_requests(entities.drop_last(), context) + refs_requests(
            entities.last().name@,
            entities.last().refs@,
            context,
        )
    }
}

/// The game context handed to every request: the game's name and
/// description.
pub open spec fn game_context(name: Seq<char>, description: Seq<char>) -> Seq<char> {
    name + " - "@ + description
}

/// The assets to generate for a scene: the entities' requests, then a
/// background where the scene keeps the default background colour, at most
/// `MAX_SCENE_ASSETS` of them in all.
pub open spec fn planned_requests(
    entities: Seq<EntityMedia>,
    game_name: Seq<char>,
    game_description: Seq<char>,
    default_background: bool,
) -> Seq<RequestView> {
    let context = game_context(game_name, game_description);
    let background: Seq<RequestView> = if default_background {
        seq![
            (
                AssetType::Background,
                "Background for "@ + game_description,
                None,
                Some(context),
                Some((1280u32, 720u32)),
            ),
        ]
    } else {
        seq![]
    };
    let all = entities_requests(entities, context) + background;
    if all.len() > MAX_SCENE_ASSETS {
        all.take(MAX_SCENE_ASSETS as int)
    } else {
        all
    }
}

/// Whether `s` begins with `p`.
fn starts_with_text(s: &String, p: &str) -> (r: bool)
    ensures
        r == begins_with(s@, p@),
{
    let sc = chars_of(s.as_str());
    let pc = chars_of(p);
    if pc.len() > sc.len() {
        return false;
    }
    let mut i: usize = 0;
    while i < pc.len()
        invariant
            sc@ == s@,
            pc@ == p@,
            pc@.len() <= sc@.len(),
            i <= pc@.len(),
            forall|k: int| 0 <= k < i ==> sc@[k] == pc@[k],
        decreases pc@.len() - i,
    {
        if sc[i] != pc[i] {
            assert(sc@.subrange(0, pc@.len() as int)[i as int] != pc@[i as int]);
            return false;
        }
        i = i + 1;
    }
    assert(sc@.subrange(0, pc@.len() as int) =~= pc@);
    true
}

/// Whether the media file `src` still has to be made.
fn needs_generation(src: &String) -> (r: bool)
    ensures
        r == needs_asset(src@),
{
    !src.as_str().is_empty() && !starts_with_text(src, "generated:")
}

/// `a`, then `b`, then `c`.
fn joined(a: &String, b: &str, c: &String) -> (r: String)
    ensures
        r@ == a@ + b@ + c@,
{
    let mut r = owned(a.as_str());
    r.append(b);
    r.append(c.as_str());
    r
}

/// Appends to `out` the request for one media reference, if it needs one.
fn push_ref_request(name: &String, r: &MediaRef, context: &String, out: &mut Vec<AssetRequest>)
    ensures
        request_views(final(out)@) == request_views(old(out)@) + ref_requests(name@, *r, context@),
{
    match r {
        MediaRef::Sprite(t) => {
            if needs_generation(t) {
                out.push(
                    AssetRequest {
                        asset_type: AssetType::Sprite,
                        description: joined(t, " sprite for ", name),
                        style: Some(owned("pixel art")),
                        game_context: Some(owned(context.as_str())),
                        dimensions: None,
                    },
                );
            }
        },
        MediaRef::Audio(c) => {
            if needs_generation(c) {
                let music = text_contains(c, &owned("music")) || text_contains(c, &owned("bgm"));
                out.push(
                    AssetRequest {
                        asset_type: if music {
                            AssetType::Music
                        } else {
                            AssetType::SoundEffect
                        },
                        description: joined(c, " audio for ", name),
                        style: Some(owned("8-bit chiptune")),
                        game_context: Some(owned(context.as_str())),
                        dimensions: None,
                    },
                );
            }
        },
    }
    assert(request_views(final(out)@) =~= request_views(old(out)@) + ref_requests(
        name@,
        *r,
        context@,
    ));
}

/// Chooses the assets to generate for a scene: one per sprite texture and
/// audio clip that still has to be made, entity by entity, then a
/// background where the scene keeps the default background colour; at most
/// `MAX_SCENE_ASSETS` in all.
pub fn plan_scene_assets(
    entities: &Vec<EntityMedia>,
    game_name: &String,
    game_description: &String,
    default_background: bool,
) -> (r: Vec<AssetRequest>)
    ensures
        request_views(r@) == planned_requests(
            entities@,
            game_name@,
            game_description@,
            default_background,
        ),
        r@.len() <= MAX_SCENE_ASSETS,
{
    let context = joined(game_name, " - ", game_description);
    let mut out: Vec<AssetRequest> = Vec::new();
    let mut i: usize = 0;
    while i < entities.len()
        invariant
            i <= entities@.len(),
            context@ == game_context(game_name@, game_description@),
            request_views(out@) == entities_requests(entities@.take(i as int), context@),
        decreases entities@.len() - i,
    {
        let e = &entities[i];
        proof {
            assert(entities@.take(i + 1).drop_last() =~= entities@.take(i as int));
            assert(entities@.take(i + 1).last() == entities@[i as int]);
        }
        let ghost before = request_views(out@);
        let mut j: usize = 0;
        while j < e.refs.len()
            invariant
                j <= e.refs@.len(),
                request_views(out@) == before + refs_requests(e.name@, e.refs@.take(j as int), context@),
            decreases e.refs@.len() - j,
        {
            proof {
                assert(e.refs@.take(j + 1).drop_last() =~= e.refs@.take(j as int));
                assert(e.refs@.take(j + 1).last() == e.refs@[j as int]);
            }
            push_ref_request(&e.name, &e.refs[j], &context, &mut out);
            proof {
                assert(before + refs_requests(e.name@, e.refs@.take(j + 1), context@) =~= before
                    + refs_requests(e.name@, e.refs@.take(j as int), context@) + ref_requests(
                    e.name@,
                    e.refs@[j as int],
                    context@,
                ));
            }
            j = j + 1;
        }
        proof {
            assert(e.refs@.take(j as int) =~= e.refs@);
            assert(entities_requests(entities@.take(i + 1), context@) =~= before + refs_requests(
                e.name@,
                e.refs@,
                context@,
            ));
        }
        i = i + 1;
    }
    proof {
        assert(entities@.take(i as int) =~= entities@);
    }
    let ghost gathered = request_views(out@);
    if default_background {
        let mut description = owned("Background for ");
        description.append(game_description.as_str());
        out.push(
            AssetRequest {
                asset_type: AssetType::Background,
                description,
                style: None,
                game_context: Some(context),
                dimensions: Some((1280, 720)),
            },
        );
    }
    let ghost all = request_views(out@);
    proof {
        let background: Seq<RequestView> = if default_background {
            seq![
                (
                    AssetType::Background,
                    "Background for "@ + game_description@,
                    None,
                    Some(context@),
                    Some((1280u32, 720u32)),
                ),
            ]
        } else {
            seq![]
        };
        assert(all =~= gathered + background);
    }
    out.truncate(MAX_SCENE_ASSETS);
    proof {
        assert(request_views(out@) =~= if all.len() > MAX_SCENE_ASSETS {
            all.take(MAX_SCENE_ASSETS as int)
        } else {
            all
        });
    }
    out
}

} // verus!
