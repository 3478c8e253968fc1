//! Entity handles and their allocation: a free list of destroyed entities
//! that are handed out again, and a bit set of the live ones.

use vstd::prelude::*;
use crate::utils::{BitSet, set_indices, lemma_set_indices, resized_bits, words_for};
use smallvec::SmallVec;

verus! {

/// A free list of entity indices held in a `smallvec::SmallVec`, which
/// keeps its first 16 items inline. Verus refuses a declaration of
/// `SmallVec` itself (its `Array` bound), so the vector sits in this opaque
/// struct and is reached only through the wrappers below.
#[verifier::external_body]
pub struct FreeList {
    items: SmallVec<[u32; 16]>,
}

/// The items of a free list of entity indices, first pushed first.
pub uninterp spec fn free_items(v: FreeList) -> Seq<u32>;

/// `SmallVec::new`: an empty vector.
#[verifier::external_body]
fn free_list_new() -> (r: FreeList)
    ensures
        free_items(r) == Seq::<u32>::empty(),
{
    FreeList { items: SmallVec::new() }
}

/// `SmallVec::push`: appends `x` at the end.
#[verifier::external_body]
fn free_list_push(v: &mut FreeList, x: u32)
    requires
        free_items(*old(v)).len() < usize::MAX,
    ensures
        free_items(*final(v)) == free_items(*old(v)).push(x),
{
    v.items.push(x)
}

/// `SmallVec::pop`: takes the last item off, or gives `None` when empty.
#[verifier::external_body]
fn free_list_pop(v: &mut FreeList) -> (r: Option<u32>)
    ensures
        free_items(*old(v)).len() == 0 ==> r is None && free_items(*final(v)) == free_items(*old(v)),
        free_items(*old(v)).len() > 0 ==> r == Some(free_items(*old(v)).last()) && free_items(
            *final(v),
        ) == free_items(*old(v)).drop_last(),
{
    v.items.pop()
}

/// `SmallVec::clear`: removes every item.
#[verifier::external_body]
fn free_list_clear(v: &mut FreeList)
    ensures
        free_items(*final(v)) == Seq::<u32>::empty(),
{
    v.items.clear()
}

/// A handle to an entity: its index.
#[derive(Debug, Clone, Copy, PartialEq, Eq, Hash, Structural)]
pub struct Entity(u32);

impl Entity {
    /// The index this handle holds.
    pub closed spec fn spec_index(self) -> u32 {
        self.0
    }

    /// The handle holding `index`.
    pub closed spec fn with_index(index: u32) -> Entity {
        Entity(index)
    }

    /// The handle of index `index`.
    pub fn new(index: u32) -> (r: Self)
        ensures
            r.spec_index() == index,
            r == Entity::with_index(index),
    {
        Entity(index)
    }

    /// The index this handle holds.
    pub fn index(&self) -> (r: u32)
        ensures
            r == self.spec_index(),
    {
        self.0
    }

    /// The handle holding an index reads that index back.
    pub proof fn lemma_with_index(index: u32)
        ensures
            Entity::with_index(index).spec_index() == index,
    {
    }

    /// Handles are equal exactly when their indices are.
    pub proof fn lemma_index_injective(a: Entity, b: Entity)
        ensures
            a.spec_index() == b.spec_index() <==> a == b,
    {
    }
}

/// What an entity manager holds, abstractly: the next fresh index, the
/// destroyed handles waiting to be reused, and the live handles.
pub struct EntityModel {
    pub next_id: u32,
    pub free: Seq<Entity>,
    pub alive: Set<Entity>,
}

impl EntityModel {
    /// The handle the next creation gives out: the most recently destroyed
    /// one, else the next fresh index.
    pub open spec fn next_entity(self) -> Entity {
        if self.free.len() > 0 {
            self.free.last()
        } else {
            Entity::with_index(self.next_id)
        }
    }

    /// The state after a creation.
    pub open spec fn after_create(self) -> EntityModel {
        if self.free.len() > 0 {
            EntityModel {
                next_id: self.next_id,
                free: self.free.drop_last(),
                alive: self.alive.insert(self.next_entity()),
            }
        } else {
            EntityModel {
                next_id: (self.next_id + 1) as u32,
                free: self.free,
                alive: self.alive.insert(self.next_entity()),
            }
        }
    }

    /// The state after destroying `e` (nothing changes unless it is alive).
    pub open spec fn after_destroy(self, e: Entity) -> EntityModel {
        if self.alive.contains(e) {
            EntityModel { next_id: self.next_id, free: self.free.push(e), alive: self.alive.remove(e) }
        } else {
            self
        }
    }
}

/// The next creation after destroying a live entity gives that entity
/// back, and leaves the manager as it was before the destruction.
pub proof fn law_destroyed_entity_is_reused(m: EntityModel, e: Entity)
    requires
        m.alive.contains(e),
    ensures
        m.after_destroy(e).next_entity() == e,
        m.after_destroy(e).after_create() == m,
{
    assert(m.free.push(e).drop_last() =~= m.free);
    assert(m.alive.remove(e).insert(e) =~= m.alive);
}

/// Destroying an entity that is not alive changes nothing.
pub proof fn law_destroying_dead_entity(m: EntityModel, e: Entity)
    requires
        !m.alive.contains(e),
    ensures
        m.after_destroy(e) == m,
{
}

/// A free list of a well-formed manager is shorter than the next index,
/// which is below `usize::MAX`: its handles are distinct and below it.
proof fn lemma_free_list_short(m: EntityManager)
    requires
        m.wf(),
    ensures
        m.free_list().len() <= m.spec_next_id(),
        m.free_list().len() < usize::MAX,
{
    let s = m.free_list();
    let n = m.spec_next_id() as int;
    let t = s.map_values(|e: Entity| e.0 as int);
    assert(t.no_duplicates()) by {
        assert forall|a: int, b: int| 0 <= a < t.len() && 0 <= b < t.len() && a != b implies t[a]
            != t[b] by {
            assert(s[a] != s[b]);
        }
    }
    t.unique_seq_to_set();
    vstd::set_lib::lemma_int_range(0, n);
    assert(t.to_set().subset_of(vstd::set_lib::set_int_range(0, n))) by {
        assert forall|x: int| t.to_set().contains(x) implies vstd::set_lib::set_int_range(
            0,
            n,
        ).contains(x) by {
            let k = choose|k: int| 0 <= k < t.len() && t[k] == x;
            assert(s[k].0 < m.spec_next_id());
        }
    }
    vstd::set_lib::lemma_len_subset(t.to_set(), vstd::set_lib::set_int_range(0, n));
}

/// Hands out entity handles, reusing destroyed ones before minting new
/// indices, and tracks which handles are alive.
pub struct EntityManager {
    next_id: u32,
    free_entities: FreeList,
    alive_entities: BitSet,
}

impl EntityManager {
    /// The next index that has never been handed out.
    pub closed spec fn spec_next_id(&self) -> u32 {
        self.next_id
    }

    /// The manager's state as an `EntityModel`.
    pub open spec fn model(&self) -> EntityModel {
        EntityModel {
            next_id: self.spec_next_id(),
            free: self.free_list(),
            alive: Set::new(|e: Entity| self.alive(e)),
        }
    }

    /// Destroyed handles waiting to be reused; the last one goes out first.
    pub closed spec fn free_list(&self) -> Seq<Entity> {
        free_items(self.free_entities).map_values(|i: u32| Entity(i))
    }

    /// Whether `e` is alive.
    pub closed spec fn alive(&self, e: Entity) -> bool {
        self.alive_entities.contains(e.0 as int)
    }

    /// The indices of the live entities, in increasing order.
    pub closed spec fn alive_indices(&self) -> Seq<usize> {
        set_indices(self.alive_entities.bits(), self.alive_entities.spec_len())
    }

    /// Internal consistency: no bit at or above the next index is set,
    /// free handles are below the next index, free handles are distinct and not alive, and no bit is stored
    /// beyond the length of the live set.
    pub closed spec fn wf(&self) -> bool {
        &&& self.alive_entities.wf()
        &&& self.alive_entities.spec_len() <= self.alive_entities.bits().len()
        &&& forall|j: int|
            self.alive_entities.spec_len() <= j < self.alive_entities.bits().len()
                ==> !self.alive_entities.bits()[j]
        &&& forall|j: int|
            self.next_id <= j < self.alive_entities.spec_len() ==> !self.alive_entities.bits()[j]
        &&& self.free_list().no_duplicates()
        &&& forall|k: int|
            0 <= k < self.free_list().len() ==> {
                let e = #[trigger] self.free_list()[k];
                e.0 < self.next_id && !self.alive(e)
            }
        &&& self.next_id as int + 64 <= usize::MAX
    }

    /// There is a handle to give out: a free one, or a fresh index below
    /// the `u32` range (and far enough below the `usize` range to index
    /// the live set).
    pub open spec fn can_create(&self) -> bool {
        self.free_list().len() > 0 || (self.spec_next_id() < u32::MAX
            && self.spec_next_id() as int + 65 <= usize::MAX)
    }

    /// A manager with nothing alive and nothing handed out.
    pub fn new() -> (r: Self)
        ensures
            r.wf(),
            r.spec_next_id() == 0,
            r.free_list() == Seq::<Entity>::empty(),
            forall|e: Entity| !r.alive(e),
    {
        EntityManager { next_id: 0, free_entities: free_list_new(), alive_entities: BitSet::new() }
    }

    /// Hands out a handle that was not alive and makes it alive: the most
    /// recently destroyed one if any, else the next fresh index.
    pub fn create(&mut self) -> (r: Entity)
        requires
            old(self).wf(),
            old(self).can_create(),
        ensures
            final(self).wf(),
            r == old(self).model().next_entity(),
            final(self).model() == old(self).model().after_create(),
            !old(self).alive(r),
            final(self).alive(r),
            forall|e: Entity| e != r ==> final(self).alive(e) == old(self).alive(e),
            old(self).free_list().len() > 0 ==> {
                &&& r == old(self).free_list().last()
                &&& final(self).free_list() == old(self).free_list().drop_last()
                &&& final(self).spec_next_id() == old(self).spec_next_id()
            },
            old(self).free_list().len() == 0 ==> {
                &&& r.spec_index() == old(self).spec_next_id()
                &&& final(self).free_list() == old(self).free_list()
                &&& final(self).spec_next_id() == old(self).spec_next_id() + 1
            },
    {
        let entity = match free_list_pop(&mut self.free_entities) {
            Some(i) => Entity(i),
            None => {
                let e = Entity(self.next_id);
                self.next_id = self.next_id + 1;
                e
            },
        };
        proof {
            if old(self).free_list().len() > 0 {
                let k = old(self).free_list().len() - 1;
                assert(old(self).free_list()[k] == entity);
            }
            assert forall|k: int| 0 <= k < self.free_list().len() implies self.free_list()[k]
                != entity by {
                if old(self).free_list().len() > 0 {
                    let last = old(self).free_list().len() - 1;
                    assert(old(self).free_list()[k] == self.free_list()[k]);
                    assert(old(self).free_list()[last] == entity);
                }
            }
        }
        let ghost old_bits = self.alive_entities.bits();
        let ghost old_len = self.alive_entities.spec_len();
        self.alive_entities.set(entity.0 as usize);
        proof {
            let idx = entity.0 as int;
            let grown = if idx < old_len {
                old_bits
            } else {
                resized_bits(old_bits, words_for((idx + 1) as nat))
            };
            assert(self.alive_entities.bits() == grown.update(idx, true));
            assert forall|e: Entity| e != entity implies #[trigger] self.alive(e) == old(self).alive(e) by {
                let j = e.0 as int;
                assert(j != idx);
                if j < old_len {
                    assert(self.alive_entities.bits()[j] == old_bits[j]);
                } else if j < self.alive_entities.spec_len() {
                    assert(grown[j] == (j < old_bits.len() && old_bits[j]));
                }
            }
            assert forall|j: int|
                self.alive_entities.spec_len() <= j < self.alive_entities.bits().len() implies
                !self.alive_entities.bits()[j] by {
                assert(j != idx);
                if j < old_bits.len() {
                    assert(old_len <= j);
                }
            }
            assert(self.model().alive =~= old(self).model().alive.insert(entity));
            if old(self).free_list().len() > 0 {
                assert(self.free_list() == old(self).free_list().drop_last());
            }
        }
        entity
    }

    /// Makes `entity` dead and puts it on the free list; returns whether it
    /// was alive (nothing changes otherwise).
    pub fn destroy(&mut self, entity: Entity) -> (r: bool)
        requires
            old(self).wf(),
        ensures
            final(self).wf(),
            final(self).model() == old(self).model().after_destroy(entity),
            r == old(self).alive(entity),
            r ==> {
                &&& !final(self).alive(entity)
                &&& forall|e: Entity| e != entity ==> final(self).alive(e) == old(self).alive(e)
                &&& final(self).free_list() == old(self).free_list().push(entity)
                &&& final(self).spec_next_id() == old(self).spec_next_id()
            },
            !r ==> *final(self) == *old(self),
    {
        if self.alive_entities.get(entity.0 as usize) {
            let ghost old_bits = self.alive_entities.bits();
            self.alive_entities.clear(entity.0 as usize);
            proof {
                assert(self.alive_entities.bits() == old_bits.update(entity.0 as int, false));
                assert forall|e: Entity| e != entity implies #[trigger] self.alive(e) == old(self).alive(e) by {
                    assert(e.0 != entity.0);
                }
            }
            proof {
                assert forall|j: int|
                    self.next_id <= j < self.alive_entities.spec_len() implies !self.alive_entities.bits()[j] by {
                    assert(old_bits[j] == false);
                }
            }
            proof {
                assert(old(self).free_list().len() < usize::MAX) by {
                    lemma_free_list_short(*old(self));
                }
            }
            free_list_push(&mut self.free_entities, entity.0);
            proof {
                assert(self.free_list() =~= old(self).free_list().push(entity));
                let n = old(self).free_list().len();
                assert(entity.0 < self.next_id);
                assert forall|k: int| 0 <= k < n implies old(self).free_list()[k] != entity by {
                    assert(!old(self).alive(old(self).free_list()[k]));
                }
                assert forall|k: int| 0 <= k < self.free_list().len() implies {
                    let e = #[trigger] self.free_list()[k];
                    e.0 < self.next_id && !self.alive(e)
                } by {
                    if k < n {
                        let e = self.free_list()[k];
                        assert(e == old(self).free_list()[k]);
                        assert(!old(self).alive(e));
                        assert(e != entity);
                        assert(self.alive(e) == old(self).alive(e));
                    } else {
                        assert(self.free_list()[k] == entity);
                    }
                }
                assert forall|a: int, b: int|
                    0 <= a < self.free_list().len() && 0 <= b < self.free_list().len() && a
                        != b implies self.free_list()[a] != self.free_list()[b] by {
                    if a < n && b < n {
                        assert(old(self).free_list()[a] != old(self).free_list()[b]);
                    } else if a < n {
                        assert(self.free_list()[a] != entity);
                    } else if b < n {
                        assert(self.free_list()[b] != entity);
                    }
                }
                assert(self.model().alive =~= old(self).model().alive.remove(entity));
            }
            true
        } else {
            false
        }
    }

    /// Whether `entity` is alive.
    pub fn is_alive(&self, entity: Entity) -> (r: bool)
        requires
            self.wf(),
        ensures
            r == self.alive(entity),
    {
        self.alive_entities.get(entity.0 as usize)
    }

    /// Lists exactly the live entities' indices, each once.
    pub proof fn lemma_alive_indices(&self)
        requires
            self.wf(),
        ensures
            forall|k: int| 0 <= k < self.alive_indices().len() ==> #[trigger] self.alive_indices()[k] <= u32::MAX,
            forall|k: int, e: Entity|
                0 <= k < self.alive_indices().len() && e.spec_index() == #[trigger] self.alive_indices()[k]
                    ==> #[trigger] self.alive(e),
            forall|e: Entity| #[trigger] self.alive(e) ==> self.alive_indices().contains(
                e.spec_index() as usize,
            ),
            self.alive_indices().no_duplicates(),
    {
        self.alive_entities.lemma_len_bound();
        lemma_set_indices(self.alive_entities.bits(), self.alive_entities.spec_len());
        assert forall|k: int| 0 <= k < self.alive_indices().len() implies #[trigger] self.alive_indices()[k] <= u32::MAX by {
            let i = self.alive_indices()[k];
            assert(self.alive_entities.bits()[i as int]);
        }
    }

    /// The number of live entities.
    pub fn alive_count(&self) -> (r: usize)
        requires
            self.wf(),
        ensures
            r == self.alive_indices().len(),
    {
        let v = self.alive_entities.iter_set_bits();
        v.len()
    }

    /// The live entities, by increasing index.
    pub fn iter_alive(&self) -> (r: Vec<Entity>)
        requires
            self.wf(),
        ensures
            r@.len() == self.alive_indices().len(),
            forall|k: int|
                0 <= k < r@.len() ==> #[trigger] r@[k].spec_index() == self.alive_indices()[k],
    {
        let v = self.alive_entities.iter_set_bits();
        proof {
            self.lemma_alive_indices();
        }
        let mut r: Vec<Entity> = Vec::new();
        let mut k: usize = 0;
        while k < v.len()
            invariant
                self.wf(),
                v@ == self.alive_indices(),
                k <= v@.len(),
                r@.len() == k,
                forall|m: int| 0 <= m < k ==> #[trigger] r@[m].spec_index() == v@[m],
                forall|m: int| 0 <= m < v@.len() ==> #[trigger] v@[m] <= u32::MAX,
            decreases v@.len() - k,
        {
            r.push(Entity(v[k] as u32));
            k = k + 1;
        }
        r
    }

    /// Forgets every entity: nothing alive, nothing free, indices restart
    /// at zero.
    pub fn clear(&mut self)
        requires
            old(self).wf(),
        ensures
            final(self).wf(),
            final(self).spec_next_id() == 0,
            final(self).free_list() == Seq::<Entity>::empty(),
            forall|e: Entity| !final(self).alive(e),
    {
        self.next_id = 0;
        free_list_clear(&mut self.free_entities);
        self.alive_entities.clear_all();
    }
}

} // verus!
