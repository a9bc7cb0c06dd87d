use newport::component::{
    Component, Position, Velocity, GAME_INPUT_VARIANT, POSITION_VARIANT, VARIANT_COUNT,
    VELOCITY_VARIANT,
};
use newport::schedule::{ApplyVelocitySystem, ScheduleBlock, SetVelocitySystem, SystemKind};
use newport::world::World;

#[test]
fn spawn_insert_position_sets_mask_and_storage() {
    let mut world = World::new(ScheduleBlock::new());
    let builder = world.spawn();
    let e = world.finish(builder);
    let mut ws = world.write(POSITION_VARIANT).unwrap();
    world.insert(&mut ws, e, Component::Position(Position { x: 0, y: 0 }));
    world.release_write(ws);
    assert!(world.has_component(e, POSITION_VARIANT));
    let rs = world.read(POSITION_VARIANT).unwrap();
    match world.get(&rs, e) {
        Some(Component::Position(p)) => assert_eq!(*p, Position { x: 0, y: 0 }),
        _ => panic!("position missing"),
    }
    world.release_read(rs);
}

#[test]
fn insert_twice_replaces_single_value() {
    let mut world = World::new(ScheduleBlock::new());
    let builder = world.spawn();
    let e = world.finish(builder);
    let mut ws = world.write(POSITION_VARIANT).unwrap();
    world.insert(&mut ws, e, Component::Position(Position { x: 0, y: 0 }));
    world.insert(&mut ws, e, Component::Position(Position { x: 5, y: 5 }));
    assert_eq!(ws.len(), 1);
    match ws.get(e) {
        Some(Component::Position(p)) => assert_eq!(*p, Position { x: 5, y: 5 }),
        _ => panic!("position missing"),
    }
    world.release_write(ws);
    assert!(world.has_component(e, POSITION_VARIANT));
}

#[test]
fn remove_without_component_returns_false_and_leaves_storage() {
    let mut world = World::new(ScheduleBlock::new());
    let builder = world.spawn();
    let e = world.finish(builder);
    let sing = world.singleton_entity();
    let mut ws = world.write(POSITION_VARIANT).unwrap();
    world.insert(&mut ws, sing, Component::Position(Position { x: 7, y: 7 }));
    let removed = world.remove(&mut ws, e);
    assert!(!removed);
    assert_eq!(ws.len(), 1);
    world.release_write(ws);
}

#[test]
fn remove_returns_true_exactly_when_present() {
    let mut world = World::new(ScheduleBlock::new());
    let builder = world.spawn();
    let e = world.finish(builder);
    let mut ws = world.write(VELOCITY_VARIANT).unwrap();
    world.insert(&mut ws, e, Component::Velocity(Velocity { x: 1, y: 2 }));
    assert!(world.remove(&mut ws, e));
    assert!(!world.remove(&mut ws, e));
    assert_eq!(ws.len(), 0);
    world.release_write(ws);
    assert!(!world.has_component(e, VELOCITY_VARIANT));
}

#[test]
fn builder_with_attaches_components() {
    let mut world = World::new(ScheduleBlock::new());
    let mut ws = world.write(POSITION_VARIANT).unwrap();
    let builder = world.spawn();
    let builder = builder.with(Component::Position(Position { x: 3, y: 9 }), &mut ws);
    let e = world.finish(builder);
    world.release_write(ws);
    assert!(world.has_component(e, POSITION_VARIANT));
    let rs = world.read(POSITION_VARIANT).unwrap();
    match world.get(&rs, e) {
        Some(Component::Position(p)) => assert_eq!(*p, Position { x: 3, y: 9 }),
        _ => panic!("position missing"),
    }
    world.release_read(rs);
}

#[test]
fn write_excludes_second_writer() {
    let mut world = World::new(ScheduleBlock::new());
    let ws = world.write(POSITION_VARIANT).unwrap();
    assert!(world.write(POSITION_VARIANT).is_none());
    assert!(world.read(POSITION_VARIANT).is_none());
    world.release_write(ws);
    let ws2 = world.write(POSITION_VARIANT).unwrap();
    world.release_write(ws2);
}

#[test]
fn readers_overlap_and_exclude_writer() {
    let mut world = World::new(ScheduleBlock::new());
    let r1 = world.read(POSITION_VARIANT).unwrap();
    let r2 = world.read(POSITION_VARIANT).unwrap();
    assert!(world.write(POSITION_VARIANT).is_none());
    world.release_read(r1);
    assert!(world.write(POSITION_VARIANT).is_none());
    world.release_read(r2);
    let ws = world.write(POSITION_VARIANT).unwrap();
    world.release_write(ws);
}

#[test]
fn distinct_types_do_not_contend() {
    let mut world = World::new(ScheduleBlock::new());
    let wa = world.write(POSITION_VARIANT).unwrap();
    let wb = world.write(VELOCITY_VARIANT).unwrap();
    let rc = world.read(GAME_INPUT_VARIANT).unwrap();
    world.release_write(wa);
    world.release_write(wb);
    world.release_read(rc);
}

#[test]
fn schedule_runs_systems_in_order_within_one_step() {
    let schedule = ScheduleBlock::new()
        .with_system(SystemKind::SetVelocity(SetVelocitySystem {
            velocity: Velocity { x: 3, y: 4 },
        }))
        .with_system(SystemKind::ApplyVelocity(ApplyVelocitySystem {}));
    let mut world = World::new(schedule);
    let sing = world.singleton_entity();
    world.step(16);
    let rs = world.read(POSITION_VARIANT).unwrap();
    match world.get(&rs, sing) {
        Some(Component::Position(p)) => assert_eq!(*p, Position { x: 3, y: 4 }),
        _ => panic!("position missing after step"),
    }
    world.release_read(rs);
    world.step(16);
    let rs = world.read(POSITION_VARIANT).unwrap();
    match world.get(&rs, sing) {
        Some(Component::Position(p)) => assert_eq!(*p, Position { x: 6, y: 8 }),
        _ => panic!("position missing after second step"),
    }
    world.release_read(rs);
}

#[test]
fn repeated_runs_from_same_start_agree() {
    let positions: Vec<Position> = (0..2)
        .map(|_| {
            let schedule = ScheduleBlock::new()
                .with_system(SystemKind::SetVelocity(SetVelocitySystem {
                    velocity: Velocity { x: -2, y: 5 },
                }))
                .with_system(SystemKind::ApplyVelocity(ApplyVelocitySystem {}));
            let mut world = World::new(schedule);
            for _ in 0..10 {
                world.step(16);
            }
            let sing = world.singleton_entity();
            let rs = world.read(POSITION_VARIANT).unwrap();
            let p = match world.get(&rs, sing) {
                Some(Component::Position(p)) => *p,
                _ => panic!("position missing"),
            };
            world.release_read(rs);
            p
        })
        .collect();
    assert_eq!(positions[0], positions[1]);
    assert_eq!(positions[0], Position { x: -20, y: 50 });
}

#[test]
fn thousand_spawns_yield_unique_entities() {
    let mut world = World::new(ScheduleBlock::new());
    let mut spawned = Vec::new();
    for _ in 0..1000 {
        let builder = world.spawn();
        spawned.push(world.finish(builder));
    }
    assert_eq!(world.entity_count(), 1001);
    for i in 0..spawned.len() {
        assert_ne!(spawned[i], world.singleton_entity());
        for j in 0..i {
            assert_ne!(spawned[i], spawned[j]);
        }
    }
}

#[test]
fn world_new_registers_all_variants() {
    let mut world = World::new(ScheduleBlock::new());
    assert_eq!(world.entity_count(), 1);
    assert_eq!(world.mask_of(world.singleton_entity()), 0);
    for v in 0..VARIANT_COUNT as u32 {
        let ws = world.write(v).unwrap();
        assert_eq!(ws.len(), 0);
        world.release_write(ws);
    }
}

#[test]
fn default_world_has_empty_schedule_and_steps() {
    let mut world = World::default();
    world.step(16);
    assert_eq!(world.entity_count(), 1);
}

#[test]
fn component_variants_are_stable() {
    assert_eq!(
        Component::Position(Position { x: 0, y: 0 }).variant(),
        POSITION_VARIANT
    );
    assert_eq!(
        Component::Velocity(Velocity { x: 0, y: 0 }).variant(),
        VELOCITY_VARIANT
    );
}
