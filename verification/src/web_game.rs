//! What the browser build's renderer needs to know of an entity.

use vstd::prelude::*;

verus! {

/// Kinds of entities the browser renderer draws.
#[derive(Debug, Clone, Copy, PartialEq, Eq, Structural)]
pub enum EntityType {
    Player,
    Platform,
    Coin,
    Dynamic,
}

} // verus!
