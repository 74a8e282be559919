use world_builder::component::{Bundle, Component};
use world_builder::entity::Entity;
use world_builder::world::{NoSuchEntity, World};

#[test]
fn a_new_world_is_empty() {
    let world = World::new();
    assert_eq!(world.entity_count(), 0);
    assert!(!world.contains(Entity::from_id(0)));
}

#[test]
fn reserved_entities_exist_and_carry_nothing() {
    let mut world = World::new();
    let e = world.reserve_entity();
    assert_eq!(e.to_id(), 0);
    assert_eq!(world.entity_count(), 1);
    assert!(world.contains(e));
    assert_eq!(world.get(e, 1), None);
}

#[test]
fn reserve_issues_increasing_identifiers() {
    let mut world = World::new();
    let a = world.reserve_entity();
    let b = world.reserve_entity();
    let c = world.reserve_entity();
    assert_eq!(a.to_id(), 0);
    assert_eq!(b.to_id(), 1);
    assert_eq!(c.to_id(), 2);
}

#[test]
fn insert_one_attaches_and_overwrites() {
    let mut world = World::new();
    let e = world.reserve_entity();
    world.insert_one(e, Component { kind: 3, value: 30 }).unwrap();
    assert_eq!(world.get(e, 3), Some(30));
    world.insert_one(e, Component { kind: 3, value: 31 }).unwrap();
    assert_eq!(world.get(e, 3), Some(31));
}

#[test]
fn insert_one_rejects_a_missing_entity() {
    let mut world = World::new();
    let r = world.insert_one(Entity::from_id(9), Component { kind: 1, value: 1 });
    assert_eq!(r, Err(NoSuchEntity));
    assert_eq!(world.entity_count(), 0);
}

#[test]
fn insert_attaches_a_bundle_in_order() {
    let mut world = World::new();
    let e = world.reserve_entity();
    let bundle = Bundle::from_components(vec![
        Component { kind: 1, value: 1 },
        Component { kind: 2, value: 2 },
        Component { kind: 1, value: 9 },
    ]);
    world.insert(e, bundle).unwrap();
    assert_eq!(world.get(e, 1), Some(9));
    assert_eq!(world.get(e, 2), Some(2));
}

#[test]
fn insert_rejects_a_missing_entity() {
    let mut world = World::new();
    let bundle = Bundle::from_components(vec![Component { kind: 1, value: 1 }]);
    let r = world.insert(Entity::from_id(0), bundle);
    assert_eq!(r, Err(NoSuchEntity));
}

#[test]
fn spawn_populates_a_fresh_entity() {
    let mut world = World::new();
    let first = world.reserve_entity();
    let e = world.spawn(Bundle::from_components(vec![Component { kind: 7, value: 70 }]));
    assert_ne!(e.to_id(), first.to_id());
    assert_eq!(world.entity_count(), 2);
    assert_eq!(world.get(e, 7), Some(70));
    assert_eq!(world.get(first, 7), None);
}

#[test]
fn spawn_with_an_empty_bundle_leaves_the_entity_bare() {
    let mut world = World::new();
    let e = world.spawn(Bundle::new());
    assert!(world.contains(e));
    assert_eq!(world.get(e, 0), None);
}

#[test]
fn spawn_batch_spawns_one_entity_per_bundle() {
    let mut world = World::new();
    world.spawn_batch(vec![
        Bundle::from_components(vec![Component { kind: 1, value: 10 }]),
        Bundle::from_components(vec![Component { kind: 1, value: 20 }]),
    ]);
    assert_eq!(world.entity_count(), 2);
    assert_eq!(world.get(Entity::from_id(0), 1), Some(10));
    assert_eq!(world.get(Entity::from_id(1), 1), Some(20));
}

#[test]
fn spawn_batch_leaves_earlier_entities_alone() {
    let mut world = World::new();
    let e = world.spawn(Bundle::from_components(vec![Component { kind: 1, value: 5 }]));
    world.spawn_batch(vec![Bundle::from_components(vec![Component { kind: 1, value: 6 }])]);
    assert_eq!(world.get(e, 1), Some(5));
}

#[test]
fn bundles_grow_by_push() {
    let mut bundle = Bundle::new();
    bundle.push(Component { kind: 1, value: 2 });
    bundle.push(Component { kind: 3, value: 4 });
    let mut world = World::new();
    let e = world.spawn(bundle);
    assert_eq!(world.get(e, 1), Some(2));
    assert_eq!(world.get(e, 3), Some(4));
}

#[test]
fn entity_handles_round_trip_their_identifier() {
    let e = Entity::from_id(42);
    assert_eq!(e.to_id(), 42);
    assert_eq!(e, Entity::from_id(42));
    assert_ne!(e, Entity::from_id(43));
}
