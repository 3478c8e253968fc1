//! Queries over the components of entities. The component lookups are not
//! wired to any storage yet: every query finds nothing.

use vstd::prelude::*;
use std::marker::PhantomData;
use crate::components_2d::Component;
use crate::entity::Entity;

verus! {

/// A way of looking up data of an entity.
pub trait Query: Sized {
    /// What a lookup hands back.
    type Item;

    /// What `get` finds for `entity`.
    spec fn found(&self, entity: Entity) -> Option<Self::Item>;

    /// A fresh query.
    fn query() -> Self;

    /// Looks up `entity`.
    fn get(&self, entity: Entity) -> (r: Option<Self::Item>)
        ensures
            r == self.found(entity),
    ;
}

/// Read access to the `T` component of entities.
pub struct With<T: Component> {
    _phantom: PhantomData<T>,
}

impl<T: Component> Query for With<T> {
    type Item = &'static T;

    /// Finds nothing, for every entity.
    open spec fn found(&self, entity: Entity) -> Option<&'static T> {
        None
    }

    fn query() -> Self {
        With { _phantom: PhantomData }
    }

    fn get(&self, entity: Entity) -> (r: Option<&'static T>) {
        None
    }
}

/// Write access to the `T` component of entities.
pub struct WithMut<T: Component> {
    _phantom: PhantomData<T>,
}

impl<T: Component> Query for WithMut<T> {
    type Item = &'static mut T;

    /// Finds nothing, for every entity.
    open spec fn found(&self, entity: Entity) -> Option<&'static mut T> {
        None
    }

    fn query() -> Self {
        WithMut { _phantom: PhantomData }
    }

    fn get(&self, entity: Entity) -> (r: Option<&'static mut T>) {
        None
    }
}

/// A query ready to be run on entities.
pub struct QueryBuilder<Q> {
    query: Q,
}

impl<Q: Query> QueryBuilder<Q> {
    /// The query that this builder runs.
    pub closed spec fn spec_query(&self) -> Q {
        self.query
    }

    /// A builder around a fresh query.
    pub fn new() -> (r: Self)
        ensures
            call_ensures(Q::query, (), r.spec_query()),
    {
        QueryBuilder { query: Q::query() }
    }

    /// Runs the query on `entity`.
    pub fn get(&self, entity: Entity) -> (r: Option<Q::Item>)
        ensures
            r == self.spec_query().found(entity),
    {
        self.query.get(entity)
    }
}

} // verus!
