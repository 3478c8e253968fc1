//! Checks run on a scene before the live preview loads it: the entity
//! count against the preview's limit, and warnings for entities without a
//! `Transform` and for a scene without a player.

use vstd::prelude::*;
use crate::scene_description::{EntityOutline, lists, messages, contains_text, push_message};
use crate::text::{append_decimal, decimal, owned};

verus! {

broadcast use vstd::string::group_string_axioms;

/// The error for a scene with more entities than the preview holds.
pub open spec fn too_many_entities_message(count: nat, max: nat) -> Seq<char> {
    "Too many entities: "@ + decimal(count) + " (max: "@ + decimal(max) + ")"@
}

/// The warning for an entity without a `Transform` component.
pub open spec fn missing_transform_message(name: Seq<char>) -> Seq<char> {
    "Entity '"@ + name + "' missing Transform component"@
}

/// Whether the entity is a player: it has a `Player` component or the
/// `player` tag.
pub open spec fn is_player(e: EntityOutline) -> bool {
    lists(e.component_names@, "Player"@) || lists(e.tags@, "player"@)
}

/// The warnings for entities without a `Transform`, in entity order.
pub open spec fn transform_warnings(entities: Seq<EntityOutline>) -> Seq<Seq<char>>
    decreases entities.len(),
{
    if entities.len() == 0 {
        seq![]
    } else {
        let rest = transform_warnings(entities.drop_last());
        let e = entities.last();
        if lists(e.component_names@, "Transform"@) {
            rest
        } else {
            rest.push(missing_transform_message(e.name@))
        }
    }
}

/// Whether some entity is a player.
pub open spec fn has_player(entities: Seq<EntityOutline>) -> bool {
    exists|i: int| 0 <= i < entities.len() && is_player(#[trigger] entities[i])
}

/// The errors of the preview check: one when the entities are over the
/// limit.
pub open spec fn preview_errors(entities: Seq<EntityOutline>, max_entities: nat) -> Seq<Seq<char>> {
    if entities.len() > max_entities {
        seq![too_many_entities_message(entities.len(), max_entities)]
    } else {
        seq![]
    }
}

/// The warnings of the preview check: missing transforms, then a missing
/// player.
pub open spec fn preview_warnings(entities: Seq<EntityOutline>) -> Seq<Seq<char>> {
    if has_player(entities) {
        transform_warnings(entities)
    } else {
        transform_warnings(entities).push("No player entity found in scene"@)
    }
}

/// The warning for the entity `name` without a `Transform` component.
pub(crate) fn missing_transform(name: &String) -> (r: String)
    ensures
        r@ == missing_transform_message(name@),
{
    let mut m = owned("Entity '");
    m.append(name.as_str());
    m.append("' missing Transform component");
    m
}

/// Whether some entity is a player.
pub(crate) fn any_player(entities: &Vec<EntityOutline>) -> (r: bool)
    ensures
        r == has_player(entities@),
{
    let mut i: usize = 0;
    while i < entities.len()
        invariant
            i <= entities@.len(),
            forall|k: int| 0 <= k < i ==> !is_player(#[trigger] entities@[k]),
        decreases entities@.len() - i,
    {
        let e = &entities[i];
        if contains_text(&e.component_names, "Player") || contains_text(&e.tags, "player") {
            assert(is_player(entities@[i as int]));
            return true;
        }
        i = i + 1;
    }
    false
}

/// What the preview check reports.
pub struct ValidationResult {
    pub is_valid: bool,
    pub errors: Vec<String>,
    pub warnings: Vec<String>,
}

/// Checks the entities of a scene before a preview that holds at most
/// `max_entities` of them. Only the entity count makes a scene invalid.
pub fn validate_scene(entities: &Vec<EntityOutline>, max_entities: usize) -> (r: ValidationResult)
    ensures
        r.is_valid == (entities@.len() <= max_entities),
        messages(r.errors@) == preview_errors(entities@, max_entities as nat),
        messages(r.warnings@) == preview_warnings(entities@),
{
    let mut errors: Vec<String> = Vec::new();
    let mut is_valid = true;
    if entities.len() > max_entities {
        let mut m = owned("Too many entities: ");
        append_decimal(&mut m, entities.len() as u128);
        m.append(" (max: ");
        append_decimal(&mut m, max_entities as u128);
        m.append(")");
        push_message(&mut errors, m);
        is_valid = false;
    }
    let mut warnings: Vec<String> = Vec::new();
    let mut i: usize = 0;
    while i < entities.len()
        invariant
            i <= entities@.len(),
            messages(warnings@) == transform_warnings(entities@.take(i as int)),
        decreases entities@.len() - i,
    {
        let e = &entities[i];
        proof {
            assert(entities@.take(i + 1).drop_last() =~= entities@.take(i as int));
            assert(entities@.take(i + 1).last() == entities@[i as int]);
        }
        if !contains_text(&e.component_names, "Transform") {
            push_message(&mut warnings, missing_transform(&e.name));
        }
        i = i + 1;
    }
    proof {
        assert(entities@.take(i as int) =~= entities@);
    }
    if !any_player(entities) {
        push_message(&mut warnings, owned("No player entity found in scene"));
    }
    ValidationResult { is_valid, errors, warnings }
}

} // verus!
