//! Kinds of objects an editor scene holds, and project metadata.

use vstd::prelude::*;

verus! {

broadcast use vstd::string::group_string_axioms;

/// Kinds of objects placed in a scene.
#[derive(Debug, Clone)]
pub enum ObjectType {
    /// The player character.
    Player,
    /// An enemy character.
    Enemy,
    /// A platform or the ground.
    Platform,
    /// An item to collect.
    Collectible,
    /// Background scenery.
    Background,
    /// An area that raises events.
    Trigger,
    /// A kind named by the user.
    Custom(String),
}

/// The name shown for a kind of object.
pub open spec fn object_type_name(t: ObjectType) -> Seq<char> {
    match t {
        ObjectType::Player => "Player"@,
        ObjectType::Enemy => "Enemy"@,
        ObjectType::Platform => "Platform"@,
        ObjectType::Collectible => "Collectible"@,
        ObjectType::Background => "Background"@,
        ObjectType::Trigger => "Trigger"@,
        ObjectType::Custom(name) => name@,
    }
}

impl ObjectType {
    /// The name shown for this kind; a custom kind shows its own name.
    pub fn display_name(&self) -> (r: &str)
        ensures
            r@ == object_type_name(*self),
    {
        match self {
            ObjectType::Player => "Player",
            ObjectType::Enemy => "Enemy",
            ObjectType::Platform => "Platform",
            ObjectType::Collectible => "Collectible",
            ObjectType::Background => "Background",
            ObjectType::Trigger => "Trigger",
            ObjectType::Custom(name) => name.as_str(),
        }
    }
}

/// Descriptive data of an editor project.
#[derive(Debug, Clone)]
pub struct ProjectMetadata {
    pub description: String,
    pub author: String,
    pub created_at: u64,
    pub modified_at: u64,
    pub engine_version: String,
}

} // verus!
