use rocket_engine::physics::{apply_boundary_constraints, FIELD_WIDTH, MARGIN};
use rocket_engine::scene::{decimal_string, default_entity_name};
use rocket_engine::systems::move_position;
use rocket_engine::{
    BodyReport, EntityData, MovementQuery, MovementSystem, PhysicsBodyData, PhysicsBodyType,
    PhysicsCommand, Position, PositionQuery, QuerySystem, Scene, SceneLoader, Scheduler, Sprite,
    System, TextureSprite, Velocity, VelocityQuery, World, UNIT,
};

#[test]
fn create_entity_counts_up_without_reuse() {
    let mut world = World::new();
    let mut ids = Vec::new();
    for k in 0..10 {
        let e = world.create_entity();
        ids.push(e);
        if k % 3 == 0 {
            world.add_position(e, Position::new(1, 2));
            world.remove_entity(e);
        }
    }
    for (k, id) in ids.iter().enumerate() {
        assert_eq!(*id, k as u32);
    }
    assert_eq!(world.entity_count(), 10);
}

#[test]
fn add_and_get_components() {
    let mut world = World::new();
    let e = world.create_entity();
    assert!(world.get_position(e).is_none());
    world.add_position(e, Position::new(100 * UNIT, 50 * UNIT));
    world.add_position(e, Position::new(7, 8));
    world.add_velocity(e, Velocity::new(-3, 4));
    world.add_sprite(e, Sprite::red(16));
    world.add_texture_sprite(e, TextureSprite::with_name("player"));
    assert_eq!(*world.get_position(e).unwrap(), Position::new(7, 8));
    assert_eq!(*world.get_velocity(e).unwrap(), Velocity::new(-3, 4));
    assert_eq!(world.get_sprite(e).unwrap().color, 0xFFFF0000);
    assert_eq!(world.get_texture_sprite(e).unwrap().scale, 1000);
    assert!(world.get_position(e + 1).is_none());
}

#[test]
fn remove_entity_clears_every_table_and_body() {
    let mut world = World::new();
    let e = world.create_entity();
    let other = world.create_entity();
    world.add_position(e, Position::new(1, 1));
    world.add_velocity(e, Velocity::new(1, 1));
    world.add_sprite(e, Sprite::blue(4));
    world.add_texture_sprite(e, TextureSprite::with_name("enemy1"));
    let h = world.add_physics_body(e, Position::new(1, 1), 32 * UNIT as u32, PhysicsBodyType::Dynamic);
    world.add_position(other, Position::new(5, 5));
    world.take_physics_commands();
    world.remove_entity(e);
    assert!(world.get_position(e).is_none());
    assert!(world.get_velocity(e).is_none());
    assert!(world.get_sprite(e).is_none());
    assert!(world.get_texture_sprite(e).is_none());
    assert!(world.body_of(e).is_none());
    assert!(world.entity_of_body(h).is_none());
    assert_eq!(world.take_physics_commands(), vec![PhysicsCommand::RemoveBody { handle: h }]);
    assert!(world.get_position(other).is_some());
    world.remove_entity(e);
    assert!(world.take_physics_commands().is_empty());
}

#[test]
fn physics_body_is_seeded_from_velocity_and_replaced() {
    let mut world = World::new();
    let e = world.create_entity();
    world.add_velocity(e, Velocity::new(20, -15));
    let h1 = world.add_physics_body(e, Position::new(3, 4), 24, PhysicsBodyType::Fixed);
    let h2 = world.add_physics_body(e, Position::new(5, 6), 10, PhysicsBodyType::Dynamic);
    assert_eq!(h2, h1 + 1);
    assert_eq!(world.body_of(e), Some(h2));
    assert_eq!(world.entity_of_body(h1), None);
    assert_eq!(world.entity_of_body(h2), Some(e));
    let cmds = world.take_physics_commands();
    assert_eq!(
        cmds,
        vec![
            PhysicsCommand::CreateBody {
                handle: h1,
                body_type: PhysicsBodyType::Fixed,
                position: Position::new(3, 4),
                velocity: Velocity::new(20, -15),
                half_extent: 12,
            },
            PhysicsCommand::RemoveBody { handle: h1 },
            PhysicsCommand::CreateBody {
                handle: h2,
                body_type: PhysicsBodyType::Dynamic,
                position: Position::new(5, 6),
                velocity: Velocity::new(20, -15),
                half_extent: 5,
            },
        ]
    );
}

#[test]
fn physics_velocity_goes_to_the_solver_only_for_bodies() {
    let mut world = World::new();
    let e = world.create_entity();
    let plain = world.create_entity();
    let h = world.add_physics_body(e, Position::new(0, 0), 2, PhysicsBodyType::Dynamic);
    world.take_physics_commands();
    world.set_physics_velocity(plain, Velocity::new(1, 1));
    world.set_physics_velocity(e, Velocity::new(7, 9));
    assert_eq!(
        world.take_physics_commands(),
        vec![PhysicsCommand::SetVelocity { handle: h, velocity: Velocity::new(7, 9) }]
    );
}

#[test]
fn step_copies_the_solver_state_into_the_rows() {
    let mut world = World::new();
    let e = world.create_entity();
    world.add_position(e, Position::new(100 * UNIT, 100 * UNIT));
    world.add_velocity(e, Velocity::new(0, 0));
    let h = world.add_physics_body(e, Position::new(100 * UNIT, 100 * UNIT), 32 * UNIT as u32, PhysicsBodyType::Dynamic);
    world.take_physics_commands();
    let report = BodyReport { handle: h, position: Position::new(120 * UNIT, 90 * UNIT), velocity: Velocity::new(3000, -500) };
    world.step_physics(&vec![report]);
    assert_eq!(*world.get_position(e).unwrap(), Position::new(120 * UNIT, 90 * UNIT));
    assert_eq!(*world.get_velocity(e).unwrap(), Velocity::new(3000, -500));
    assert!(world.take_physics_commands().is_empty());
}

#[test]
fn step_bounces_a_body_off_the_left_margin() {
    let mut world = World::new();
    let e = world.create_entity();
    world.add_position(e, Position::new(0, 0));
    world.add_velocity(e, Velocity::new(0, 0));
    let h = world.add_physics_body(e, Position::new(0, 0), 32, PhysicsBodyType::Dynamic);
    world.take_physics_commands();
    let report = BodyReport { handle: h, position: Position::new(10 * UNIT, 300 * UNIT), velocity: Velocity::new(-2000, 100) };
    world.step_physics(&vec![report]);
    assert_eq!(*world.get_position(e).unwrap(), Position::new(MARGIN, 300 * UNIT));
    assert_eq!(*world.get_velocity(e).unwrap(), Velocity::new(2000, 100));
    assert_eq!(
        world.take_physics_commands(),
        vec![PhysicsCommand::SetState { handle: h, position: Position::new(16 * UNIT, 300 * UNIT), velocity: Velocity::new(2000, 100) }]
    );
}

#[test]
fn boundary_rule_on_the_right_and_bottom_edges() {
    let r = BodyReport { handle: 4, position: Position::new(799 * UNIT, 599 * UNIT), velocity: Velocity::new(50, 60) };
    let (s, moved) = apply_boundary_constraints(&r);
    assert!(moved);
    assert_eq!(s.position, Position::new(FIELD_WIDTH - MARGIN, 584 * UNIT));
    assert_eq!(s.velocity, Velocity::new(-50, -60));
    let inside = BodyReport { handle: 4, position: Position::new(400 * UNIT, 300 * UNIT), velocity: Velocity::new(-5, 5) };
    assert_eq!(apply_boundary_constraints(&inside), (inside, false));
}

#[test]
fn sync_ignores_unknown_bodies_and_missing_rows() {
    let mut world = World::new();
    let e = world.create_entity();
    world.add_position(e, Position::new(1, 1));
    let h = world.add_physics_body(e, Position::new(1, 1), 2, PhysicsBodyType::Dynamic);
    let reports = vec![
        BodyReport { handle: h + 100, position: Position::new(9, 9), velocity: Velocity::new(9, 9) },
        BodyReport { handle: h, position: Position::new(2, 3), velocity: Velocity::new(4, 5) },
    ];
    world.sync_positions_from_physics(&reports);
    assert_eq!(*world.get_position(e).unwrap(), Position::new(2, 3));
    assert!(world.get_velocity(e).is_none());
}

#[test]
fn collisions_map_bodies_to_entities() {
    let mut world = World::new();
    let a = world.create_entity();
    let b = world.create_entity();
    let c = world.create_entity();
    world.add_position(a, Position::new(0, 0));
    world.add_position(b, Position::new(0, 0));
    let ha = world.add_physics_body(a, Position::new(0, 0), 2, PhysicsBodyType::Dynamic);
    let hb = world.add_physics_body(b, Position::new(0, 0), 2, PhysicsBodyType::Dynamic);
    let hc = world.add_physics_body(c, Position::new(0, 0), 2, PhysicsBodyType::Dynamic);
    let pairs = world.check_collisions(&vec![(ha, hb), (ha, hc), (hb, 999)]);
    assert_eq!(pairs, vec![(a, b)]);
}

#[test]
fn movement_query_is_an_inner_join() {
    let mut world = World::new();
    let _zero = world.create_entity();
    let one = world.create_entity();
    let two = world.create_entity();
    let three = world.create_entity();
    world.add_position(one, Position::new(1, 1));
    world.add_velocity(one, Velocity::new(2, 2));
    world.add_position(two, Position::new(3, 3));
    world.add_velocity(three, Velocity::new(4, 4));
    let q = MovementQuery::query(&world);
    assert_eq!(q.rows, vec![(one, Position::new(1, 1), Velocity::new(2, 2))]);
    assert_eq!(PositionQuery::query(&world).count(), 2);
    assert_eq!(VelocityQuery::query(&world).count(), 2);
}

#[test]
fn movement_moves_by_velocity_times_dt() {
    assert_eq!(move_position(Position::new(1000, 2000), Velocity::new(5000, -300), 1000), Position::new(6000, 1700));
    assert_eq!(move_position(Position::new(0, 0), Velocity::new(999, -999), 1), Position::new(0, 0));
    assert_eq!(move_position(Position::new(0, 0), Velocity::new(1500, -1500), 500), Position::new(750, -750));
    assert_eq!(move_position(Position::new(i32::MAX, 0), Velocity::new(i32::MAX, 0), 1000), Position::new(i32::MAX, 0));
}

enum Stage {
    SetVelocity(u32),
    Move(MovementSystem),
}

impl System for Stage {
    fn update(&self, world: &mut World, dt: u32) {
        match self {
            Stage::SetVelocity(e) => world.add_velocity(*e, Velocity::new(5 * UNIT, 0)),
            Stage::Move(m) => m.update_with_queries(world, dt),
        }
    }

    fn name(&self) -> &'static str {
        match self {
            Stage::SetVelocity(_) => "SetVelocity",
            Stage::Move(_) => "Move",
        }
    }
}

#[test]
fn scheduler_runs_stages_in_registration_order() {
    let mut world = World::new();
    let e = world.create_entity();
    world.add_position(e, Position::new(10 * UNIT, 10 * UNIT));
    world.add_velocity(e, Velocity::new(0, 0));
    let mut scheduler = Scheduler::new();
    scheduler.add_system(Stage::SetVelocity(e));
    scheduler.add_system(Stage::Move(MovementSystem::new()));
    assert_eq!(scheduler.system_count(), 2);
    assert_eq!(scheduler.system_names(), vec!["SetVelocity", "Move"]);
    scheduler.update(&mut world, 1000);
    assert_eq!(*world.get_position(e).unwrap(), Position::new(15 * UNIT, 10 * UNIT));

    let mut reversed_world = World::new();
    let r = reversed_world.create_entity();
    reversed_world.add_position(r, Position::new(10 * UNIT, 10 * UNIT));
    reversed_world.add_velocity(r, Velocity::new(0, 0));
    let mut reversed = Scheduler::new();
    reversed.add_system(Stage::Move(MovementSystem::new()));
    reversed.add_system(Stage::SetVelocity(r));
    reversed.update(&mut reversed_world, 1000);
    assert_eq!(*reversed_world.get_position(r).unwrap(), Position::new(10 * UNIT, 10 * UNIT));
    assert_eq!(*reversed_world.get_velocity(r).unwrap(), Velocity::new(5 * UNIT, 0));
}

#[test]
fn query_stage_through_the_adapter() {
    let mut world = World::new();
    let e = world.create_entity();
    world.add_position(e, Position::new(0, 0));
    world.add_velocity(e, Velocity::new(2 * UNIT, UNIT));
    let mut scheduler = Scheduler::new();
    scheduler.add_query_system(MovementSystem::new());
    scheduler.update(&mut world, 500);
    assert_eq!(*world.get_position(e).unwrap(), Position::new(UNIT, UNIT / 2));
    assert_eq!(scheduler.system_names(), vec!["MovementSystem"]);
}

fn player_bundle() -> EntityData {
    EntityData {
        name: Some("player".to_string()),
        position: Some(Position::new(100 * UNIT, 100 * UNIT)),
        velocity: Some(Velocity::new(0, 0)),
        texture_sprite: Some(TextureSprite::with_scale("player", 2 * UNIT as u32)),
        physics_body: Some(PhysicsBodyData { size: 32 * UNIT as u32, body_type: PhysicsBodyType::Dynamic }),
    }
}

#[test]
fn spawn_scene_creates_one_entity_with_all_four_components() {
    let scene = Scene { name: "Test Scene".to_string(), description: None, entities: vec![player_bundle()] };
    let mut world = World::new();
    let names = SceneLoader::spawn_scene(&scene, &mut world);
    assert_eq!(names, vec![("player".to_string(), 0)]);
    assert_eq!(world.entity_count(), 1);
    assert_eq!(*world.get_position(0).unwrap(), Position::new(100 * UNIT, 100 * UNIT));
    assert_eq!(*world.get_velocity(0).unwrap(), Velocity::new(0, 0));
    let ts = world.get_texture_sprite(0).unwrap();
    assert_eq!(ts.atlas_name, "player");
    assert_eq!(ts.scale, 2000);
    let h = world.body_of(0).unwrap();
    assert_eq!(
        world.take_physics_commands(),
        vec![PhysicsCommand::CreateBody {
            handle: h,
            body_type: PhysicsBodyType::Dynamic,
            position: Position::new(100 * UNIT, 100 * UNIT),
            velocity: Velocity::new(0, 0),
            half_extent: 16 * UNIT,
        }]
    );
}

#[test]
fn spawn_scene_names_unnamed_bundles_by_index() {
    let unnamed = EntityData { name: None, position: None, velocity: Some(Velocity::new(1, 2)), texture_sprite: None, physics_body: Some(PhysicsBodyData { size: 10, body_type: PhysicsBodyType::Fixed }) };
    let scene = Scene { name: "s".to_string(), description: Some("d".to_string()), entities: vec![player_bundle(), unnamed] };
    let mut world = World::new();
    let names = SceneLoader::spawn_scene(&scene, &mut world);
    assert_eq!(names, vec![("player".to_string(), 0), ("entity_1".to_string(), 1)]);
    assert!(world.get_position(1).is_none());
    let cmds = world.take_physics_commands();
    assert_eq!(
        cmds[1],
        PhysicsCommand::CreateBody {
            handle: world.body_of(1).unwrap(),
            body_type: PhysicsBodyType::Fixed,
            position: Position::new(0, 0),
            velocity: Velocity::new(1, 2),
            half_extent: 5,
        }
    );
}

#[test]
fn decimal_names() {
    assert_eq!(decimal_string(0), "0");
    assert_eq!(decimal_string(907), "907");
    assert_eq!(default_entity_name(42), "entity_42");
}

#[test]
fn empty_scene_from_world() {
    let world = World::new();
    let scene = SceneLoader::create_scene_from_world(&world, "n".to_string(), None);
    assert_eq!(scene.name, "n");
    assert!(scene.entities.is_empty());
}
