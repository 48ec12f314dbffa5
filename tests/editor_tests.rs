use rocket_engine::editor::{add_component_to_entity, create_entity_at_grid, EDITOR_BODY_SIZE, GRID_SIZE};
use rocket_engine::systems::PLAYER_SPEED;
use rocket_engine::InputSystem;
use rocket_engine::{
    ComponentEditorState, ComponentType, EntityHierarchy, GameState, PhysicsBodyType,
    PhysicsCommand, Position, Velocity, World,
};

#[test]
fn play_button_cycles_states() {
    assert_eq!(GameState::default(), GameState::Stopped);
    assert_eq!(GameState::Stopped.toggled(), GameState::Playing);
    assert_eq!(GameState::Playing.toggled(), GameState::Paused);
    assert_eq!(GameState::Paused.toggled(), GameState::Playing);
}

#[test]
fn component_menu_offers_every_kind() {
    let menu = ComponentEditorState::default();
    assert!(!menu.show_add_component);
    assert_eq!(
        menu.available_components,
        vec![ComponentType::Position, ComponentType::Velocity, ComponentType::TextureSprite, ComponentType::PhysicsBody]
    );
    assert!(menu.editing_component.is_none());
}

#[test]
fn hierarchy_removes_every_occurrence() {
    let mut h = EntityHierarchy::new();
    h.add_root(1);
    h.add_root(2);
    h.add_root(1);
    h.add_root(3);
    h.remove(1);
    assert_eq!(h.root_entities, vec![2, 3]);
}

#[test]
fn editor_adds_default_components() {
    let mut world = World::new();
    let e = world.create_entity();
    add_component_to_entity(&mut world, e, ComponentType::Position);
    add_component_to_entity(&mut world, e, ComponentType::Velocity);
    add_component_to_entity(&mut world, e, ComponentType::TextureSprite);
    assert_eq!(*world.get_position(e).unwrap(), Position::new(0, 0));
    assert_eq!(*world.get_velocity(e).unwrap(), Velocity::zero());
    assert_eq!(world.get_texture_sprite(e).unwrap().atlas_name, "player");
    world.add_position(e, Position::new(4, 5));
    let h = add_component_to_entity(&mut world, e, ComponentType::PhysicsBody).unwrap();
    assert_eq!(world.body_of(e), Some(h));
    assert_eq!(
        world.take_physics_commands(),
        vec![PhysicsCommand::CreateBody {
            handle: h,
            body_type: PhysicsBodyType::Dynamic,
            position: Position::new(4, 5),
            velocity: Velocity::zero(),
            half_extent: (EDITOR_BODY_SIZE / 2) as i32,
        }]
    );
    world.remove_physics_body(e);
    assert!(world.body_of(e).is_none());
    assert!(world.entity_of_body(h).is_none());
    assert!(world.get_position(e).is_some());
    assert_eq!(world.take_physics_commands(), vec![PhysicsCommand::RemoveBody { handle: h }]);
}

#[test]
fn arrow_keys_steer_the_player() {
    let mut world = World::new();
    let p = world.create_entity();
    let idle = world.create_entity();
    world.add_velocity(p, Velocity::new(5, 5));
    let h = world.add_physics_body(p, Position::new(0, 0), 2, PhysicsBodyType::Dynamic);
    world.take_physics_commands();
    let input = InputSystem::new(p);
    input.steer(&mut world, true, true, true, false);
    assert_eq!(*world.get_velocity(p).unwrap(), Velocity::new(PLAYER_SPEED, -PLAYER_SPEED));
    assert_eq!(
        world.take_physics_commands(),
        vec![PhysicsCommand::SetVelocity { handle: h, velocity: Velocity::new(200_000, -200_000) }]
    );
    input.steer(&mut world, false, false, false, false);
    assert_eq!(*world.get_velocity(p).unwrap(), Velocity::zero());
    let other = InputSystem::new(idle);
    other.steer(&mut world, true, false, false, true);
    assert!(world.get_velocity(idle).is_none());
}

#[test]
fn grid_placement_builds_a_full_entity() {
    let mut world = World::new();
    let mut hierarchy = EntityHierarchy::new();
    world.create_entity();
    let e = create_entity_at_grid(&mut world, &mut hierarchy, 3, -2, "enemy1");
    assert_eq!(e, 1);
    assert_eq!(*world.get_position(e).unwrap(), Position::new(96_000, -64_000));
    assert_eq!(*world.get_velocity(e).unwrap(), Velocity::new(0, -10_000));
    assert_eq!(world.get_texture_sprite(e).unwrap().atlas_name, "enemy1");
    assert_eq!(hierarchy.root_entities, vec![1]);
    let h = world.body_of(e).unwrap();
    assert_eq!(
        world.take_physics_commands(),
        vec![PhysicsCommand::CreateBody {
            handle: h,
            body_type: PhysicsBodyType::Dynamic,
            position: Position::new(96_000, -64_000),
            velocity: Velocity::new(0, -10_000),
            half_extent: GRID_SIZE / 4,
        }]
    );
    let far = create_entity_at_grid(&mut world, &mut hierarchy, i32::MAX, 0, "player");
    assert_eq!(world.get_position(far).unwrap().x, i32::MAX);
}
