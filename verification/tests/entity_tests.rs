use lumina::entity::{Entity, EntityManager};
use lumina::query::{Query, QueryBuilder, With, WithMut};
use lumina::component::{ComponentStorage, TypedComponentStorage};

#[test]
fn entities_are_created_destroyed_and_reused() {
    let mut m = EntityManager::new();
    let a = m.create();
    let b = m.create();
    assert_eq!(a.index(), 0);
    assert_eq!(b.index(), 1);
    assert!(m.is_alive(a));
    assert_eq!(m.alive_count(), 2);
    assert!(m.destroy(a));
    assert!(!m.is_alive(a));
    assert!(!m.destroy(a));
    assert_eq!(m.alive_count(), 1);
    let c = m.create();
    assert_eq!(c, a);
    assert_eq!(m.iter_alive(), vec![Entity::new(0), Entity::new(1)]);
    m.clear();
    assert_eq!(m.alive_count(), 0);
    assert_eq!(m.create().index(), 0);
}

#[test]
fn unknown_entities_are_not_alive() {
    let mut m = EntityManager::new();
    assert!(!m.is_alive(Entity::new(5)));
    assert!(!m.destroy(Entity::new(5)));
}

#[test]
fn queries_find_no_component_yet() {
    let read = QueryBuilder::<With<u32>>::new();
    assert!(read.get(Entity::new(0)).is_none());
    let write = QueryBuilder::<WithMut<String>>::new();
    assert!(write.get(Entity::new(3)).is_none());
    assert!(<With<u8> as Query>::query().get(Entity::new(1)).is_none());
}

#[test]
fn component_storage_keeps_one_component_per_entity() {
    let mut s: TypedComponentStorage<String> = TypedComponentStorage::new();
    assert!(s.is_empty());
    s.insert(Entity::new(1), "a".to_string());
    s.insert(Entity::new(2), "b".to_string());
    s.insert(Entity::new(1), "c".to_string());
    assert_eq!(s.len(), 2);
    assert_eq!(s.get(Entity::new(1)), Some(&"c".to_string()));
    assert!(s.get(Entity::new(3)).is_none());
    assert!(s.contains(Entity::new(2)));
    assert_eq!(TypedComponentStorage::remove(&mut s, Entity::new(2)), Some("b".to_string()));
    assert_eq!(TypedComponentStorage::remove(&mut s, Entity::new(2)), None);
    assert!(ComponentStorage::remove(&mut s, Entity::new(1)));
    assert!(!ComponentStorage::remove(&mut s, Entity::new(1)));
    s.insert(Entity::new(5), "d".to_string());
    ComponentStorage::clear(&mut s);
    assert!(s.is_empty());
}
