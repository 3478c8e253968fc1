//! Storage of the components of one type, keyed by the entity that owns
//! each.

use vstd::prelude::*;
use std::collections::HashMap;
use crate::components_2d::Component;
use crate::entity::Entity;

verus! {

broadcast use vstd::std_specs::hash::group_hash_axioms;

/// What a component storage can do whatever type it holds.
pub trait ComponentStorage {
    /// The entities that have a component here.
    spec fn holders(&self) -> Set<u32>;

    /// Removes the component of `entity`; returns whether it had one.
    fn remove(&mut self, entity: Entity) -> (r: bool)
        ensures
            r == old(self).holders().contains(entity.spec_index()),
            final(self).holders() == old(self).holders().remove(entity.spec_index()),
    ;

    /// Removes every component.
    fn clear(&mut self)
        ensures
            final(self).holders() == Set::<u32>::empty(),
    ;
}

/// The components of type `T`, at most one per entity.
pub struct TypedComponentStorage<T: Component> {
    components: HashMap<u32, T>,
}

impl<T: Component> View for TypedComponentStorage<T> {
    /// Each holder's entity index and its component.
    type V = Map<u32, T>;

    closed spec fn view(&self) -> Map<u32, T> {
        self.components@
    }
}

impl<T: Component> TypedComponentStorage<T> {
    /// An empty storage.
    pub fn new() -> (r: Self)
        ensures
            r@ == Map::<u32, T>::empty(),
    {
        TypedComponentStorage { components: HashMap::new() }
    }

    /// Gives `entity` the component `component`, replacing the one it had.
    pub fn insert(&mut self, entity: Entity, component: T)
        ensures
            final(self)@ == old(self)@.insert(entity.spec_index(), component),
    {
        self.components.insert(entity.index(), component);
    }

    /// The component of `entity`, if it has one.
    pub fn get(&self, entity: Entity) -> (r: Option<&T>)
        ensures
            match r {
                Some(c) => self@.contains_key(entity.spec_index()) && *c == self@[entity.spec_index()],
                None => !self@.contains_key(entity.spec_index()),
            },
    {
        let k = entity.index();
        self.components.get(&k)
    }

    /// Takes the component of `entity` out, if it has one.
    pub fn remove(&mut self, entity: Entity) -> (r: Option<T>)
        ensures
            final(self)@ == old(self)@.remove(entity.spec_index()),
            match r {
                Some(c) => old(self)@.contains_key(entity.spec_index()) && c == old(
                    self,
                )@[entity.spec_index()],
                None => !old(self)@.contains_key(entity.spec_index()),
            },
    {
        let k = entity.index();
        self.components.remove(&k)
    }

    /// Whether `entity` has a component here.
    pub fn contains(&self, entity: Entity) -> (r: bool)
        ensures
            r == self@.contains_key(entity.spec_index()),
    {
        let k = entity.index();
        self.components.contains_key(&k)
    }

    /// How many entities have a component here.
    pub fn len(&self) -> (r: usize)
        ensures
            r == self@.len(),
    {
        self.components.len()
    }

    /// Whether no entity has a component here.
    pub fn is_empty(&self) -> (r: bool)
        ensures
            r == (self@.len() == 0),
            r == (self@ == Map::<u32, T>::empty()),
    {
        let r = self.components.is_empty();
        proof {
            if self@.len() == 0 {
                assert(self@.dom() =~= Set::<u32>::empty());
                assert(self@ =~= Map::<u32, T>::empty());
            }
        }
        r
    }
}

impl<T: Component> Default for TypedComponentStorage<T> {
    /// An empty storage.
    fn default() -> (r: Self)
        ensures
            r@ == Map::<u32, T>::empty(),
    {
        Self::new()
    }
}

impl<T: Component> ComponentStorage for TypedComponentStorage<T> {
    open spec fn holders(&self) -> Set<u32> {
        self@.dom()
    }

    fn remove(&mut self, entity: Entity) -> (r: bool) {
        let k = entity.index();
        let r = self.components.remove(&k).is_some();
        assert(self@.dom() =~= old(self)@.dom().remove(k));
        r
    }

    fn clear(&mut self) {
        self.components.clear();
        assert(self@.dom() =~= Set::<u32>::empty());
    }
}

/// A component put in for an entity is what a lookup then finds, and other
/// entities keep theirs.
pub proof fn law_insert_then_get<T>(stored: Map<u32, T>, entity: Entity, component: T, other: u32)
    requires
        other != entity.spec_index(),
    ensures
        stored.insert(entity.spec_index(), component).contains_key(entity.spec_index()),
        stored.insert(entity.spec_index(), component)[entity.spec_index()] == component,
        stored.insert(entity.spec_index(), component).contains_key(other) == stored.contains_key(
            other,
        ),
        stored.insert(entity.spec_index(), component)[other] == stored[other],
{
}

/// Removing a component right after putting it in leaves the storage as it
/// was, when the entity had none before.
pub proof fn law_remove_undoes_insert<T>(stored: Map<u32, T>, entity: Entity, component: T)
    requires
        !stored.contains_key(entity.spec_index()),
    ensures
        stored.insert(entity.spec_index(), component).remove(entity.spec_index()) == stored,
{
    assert(stored.insert(entity.spec_index(), component).remove(entity.spec_index()) =~= stored);
}

} // verus!
