//! Kinds of objects the scene panel lists.

use vstd::prelude::*;

verus! {

broadcast use vstd::string::group_string_axioms;

/// Kinds of objects in the scene panel.
#[derive(Debug, Clone)]
pub enum ObjectType {
    Player,
    Enemy,
    Platform,
    Collectible,
    Background,
    Custom(String),
}

/// The name shown for a kind of object.
pub open spec fn panel_object_name(t: ObjectType) -> Seq<char> {
    match t {
        ObjectType::Player => "Player"@,
        ObjectType::Enemy => "Enemy"@,
        ObjectType::Platform => "Platform"@,
        ObjectType::Collectible => "Collectible"@,
        ObjectType::Background => "Background"@,
        ObjectType::Custom(name) => name@,
    }
}

impl ObjectType {
    /// The name shown for this kind; a custom kind shows its own name.
    pub fn display_name(&self) -> (r: &str)
        ensures
            r@ == panel_object_name(*self),
    {
        match self {
            ObjectType::Player => "Player",
            ObjectType::Enemy => "Enemy",
            ObjectType::Platform => "Platform",
            ObjectType::Collectible => "Collectible",
            ObjectType::Background => "Background",
            ObjectType::Custom(name) => name.as_str(),
        }
    }
}

} // verus!
