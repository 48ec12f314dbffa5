//! The editor's own state that is not drawing: which component kinds can be
//! added, the play state, the entity hierarchy, and the edits the editor makes
//! to the world.
use vstd::prelude::*;
use crate::components::{Entity, Position, TextureSprite, Velocity, UNIT};
use crate::physics::{BodyHandle, PhysicsBodyType, PhysicsCommand};
use crate::systems::held;
use crate::world::World;

verus! {

/// The component kinds that the editor can add to an entity.
#[derive(Debug, Clone, Copy, PartialEq, Eq, Structural)]
pub enum ComponentType {
    Position,
    Velocity,
    TextureSprite,
    PhysicsBody,
}

/// Whether the simulation runs in the editor.
#[derive(Debug, Clone, Copy, PartialEq, Eq, Structural)]
pub enum GameState {
    Stopped,
    Playing,
    Paused,
}

impl GameState {
    /// The state after the play button: a stopped or paused game plays, a
    /// playing one pauses.
    pub open spec fn spec_toggled(self) -> GameState {
        match self {
            GameState::Playing => GameState::Paused,
            _ => GameState::Playing,
        }
    }

    pub fn toggled(self) -> (r: GameState)
        ensures
            r == self.spec_toggled(),
    {
        match self {
            GameState::Stopped => GameState::Playing,
            GameState::Playing => GameState::Paused,
            GameState::Paused => GameState::Playing,
        }
    }
}

impl Default for GameState {
    fn default() -> (r: GameState)
        ensures
            r == GameState::Stopped,
    {
        GameState::Stopped
    }
}

/// The add-component menu: whether it is open, the kinds it offers, and the
/// kind being edited.
pub struct ComponentEditorState {
    pub show_add_component: bool,
    pub available_components: Vec<ComponentType>,
    pub editing_component: Option<ComponentType>,
}

impl Default for ComponentEditorState {
    /// A closed menu offering every kind, in declaration order.
    fn default() -> (r: ComponentEditorState)
        ensures
            !r.show_add_component,
            r.available_components@ == seq![
                ComponentType::Position,
                ComponentType::Velocity,
                ComponentType::TextureSprite,
                ComponentType::PhysicsBody,
            ],
            r.editing_component is None,
    {
        let mut available: Vec<ComponentType> = Vec::new();
        available.push(ComponentType::Position);
        available.push(ComponentType::Velocity);
        available.push(ComponentType::TextureSprite);
        available.push(ComponentType::PhysicsBody);
        ComponentEditorState {
            show_add_component: false,
            available_components: available,
            editing_component: None,
        }
    }
}

/// `s` without any occurrence of `x`, the rest in order.
pub open spec fn without(s: Seq<Entity>, x: Entity) -> Seq<Entity>
    decreases s.len(),
{
    if s.len() == 0 {
        s
    } else {
        let rest = without(s.drop_last(), x);
        if s.last() != x {
            rest.push(s.last())
        } else {
            rest
        }
    }
}

/// The entities at the top of the hierarchy panel, in the order in which
/// they were placed.
pub struct EntityHierarchy {
    pub root_entities: Vec<Entity>,
}

impl EntityHierarchy {
    pub fn new() -> (r: Self)
        ensures
            r.root_entities@.len() == 0,
    {
        EntityHierarchy { root_entities: Vec::new() }
    }

    /// Adds `entity` at the end of the root list.
    pub fn add_root(&mut self, entity: Entity)
        ensures
            final(self).root_entities@ == old(self).root_entities@.push(entity),
    {
        self.root_entities.push(entity);
    }

    /// Drops every occurrence of `entity` from the root list, keeping the
    /// order of the rest.
    pub fn remove(&mut self, entity: Entity)
        ensures
            final(self).root_entities@ == without(old(self).root_entities@, entity),
    {
        let mut kept: Vec<Entity> = Vec::new();
        let mut i: usize = 0;
        while i < self.root_entities.len()
            invariant
                i <= self.root_entities@.len(),
                self.root_entities@ == old(self).root_entities@,
                kept@ == without(self.root_entities@.take(i as int), entity),
            decreases self.root_entities@.len() - i,
        {
            let e = self.root_entities[i];
            proof {
                let s = self.root_entities@;
                assert(s.take(i + 1).drop_last() =~= s.take(i as int));
            }
            if e != entity {
                kept.push(e);
            }
            i = i + 1;
        }
        assert(self.root_entities@.take(i as int) =~= self.root_entities@);
        self.root_entities = kept;
    }
}

/// Side of the body that the editor gives an entity, in fixed-point steps.
pub const EDITOR_BODY_SIZE: u32 = 32000;

/// Adds a default component of kind `kind` to `entity`: the origin, zero
/// velocity, the `player` sprite, or a dynamic body at the entity's position
/// (the origin if it has none).
pub fn add_component_to_entity(world: &mut World, entity: Entity, kind: ComponentType) -> (r: Option<
    BodyHandle,
>)
    requires
        old(world).wf(),
        old(world).next_handle() < u64::MAX,
    ensures
        final(world).wf(),
        final(world).next_id() == old(world).next_id(),
        kind == ComponentType::Position ==> final(world).positions() == old(
            world,
        ).positions().insert(entity, Position { x: 0, y: 0 }) && r is None,
        kind == ComponentType::Velocity ==> final(world).velocities() == old(
            world,
        ).velocities().insert(entity, Velocity { x: 0, y: 0 }) && r is None,
        kind == ComponentType::TextureSprite ==> final(world).texture_sprites().contains_key(entity)
            && final(world).texture_sprites()[entity].atlas_name@ == "player"@
            && final(world).texture_sprites()[entity].scale == UNIT && r is None,
        kind == ComponentType::PhysicsBody ==> (r matches Some(h) && h == old(world).next_handle()
            && final(world).bodies() == old(world).bodies().insert(entity, h)),
{
    match kind {
        ComponentType::Position => {
            world.add_position(entity, Position::new(0, 0));
            None
        },
        ComponentType::Velocity => {
            world.add_velocity(entity, Velocity::zero());
            None
        },
        ComponentType::TextureSprite => {
            world.add_texture_sprite(entity, TextureSprite::with_name("player"));
            None
        },
        ComponentType::PhysicsBody => {
            let position = match world.get_position(entity) {
                Some(p) => *p,
                None => Position::new(0, 0),
            };
            Some(world.add_physics_body(entity, position, EDITOR_BODY_SIZE, PhysicsBodyType::Dynamic))
        },
    }
}

/// Side of one editor grid cell, in fixed-point steps.
pub const GRID_SIZE: i32 = 32 * UNIT;

/// Where grid cell `(grid_x, grid_y)` starts in the world, held inside `i32`.
pub open spec fn grid_origin(grid_x: i32, grid_y: i32) -> Position {
    Position { x: held(grid_x * GRID_SIZE), y: held(grid_y * GRID_SIZE) }
}

/// The small drift that the editor gives entity `e`: each axis one of a few
/// steps of ten pixels per second, picked by `e`.
pub open spec fn grid_drift(e: Entity) -> Velocity {
    Velocity {
        x: (((e % 3) as int - 1) * 10 * UNIT) as i32,
        y: (((e % 5) as int - 2) * 10 * UNIT) as i32,
    }
}

fn cell_start(g: i32) -> (r: i32)
    ensures
        r == held(g * GRID_SIZE),
{
    let v: i64 = (g as i64) * (GRID_SIZE as i64);
    if v > i32::MAX as i64 {
        i32::MAX
    } else if v < i32::MIN as i64 {
        i32::MIN
    } else {
        v as i32
    }
}

/// Places a new entity on grid cell `(grid_x, grid_y)`: a position at the
/// cell, a small drift velocity, the sprite `sprite_name`, a dynamic body of
/// half a cell, and a place at the end of the hierarchy's roots.
pub fn create_entity_at_grid(
    world: &mut World,
    hierarchy: &mut EntityHierarchy,
    grid_x: i32,
    grid_y: i32,
    sprite_name: &str,
) -> (e: Entity)
    requires
        old(world).wf(),
        old(world).next_id() < u32::MAX,
        old(world).next_handle() < u64::MAX,
    ensures
        final(world).wf(),
        e == old(world).next_id(),
        final(world).next_id() == old(world).next_id() + 1,
        final(world).positions() == old(world).positions().insert(e, grid_origin(grid_x, grid_y)),
        final(world).velocities() == old(world).velocities().insert(e, grid_drift(e)),
        final(world).texture_sprites().contains_key(e),
        final(world).texture_sprites()[e].atlas_name@ == sprite_name@,
        final(world).texture_sprites()[e].scale == UNIT,
        final(world).bodies() == old(world).bodies().insert(e, old(world).next_handle() as u64),
        final(world).commands().last() == (PhysicsCommand::CreateBody {
            handle: old(world).next_handle() as u64,
            body_type: PhysicsBodyType::Dynamic,
            position: grid_origin(grid_x, grid_y),
            velocity: grid_drift(e),
            half_extent: (GRID_SIZE / 4) as i32,
        }),
        final(hierarchy).root_entities@ == old(hierarchy).root_entities@.push(e),
{
    let e = world.create_entity();
    let position = Position::new(cell_start(grid_x), cell_start(grid_y));
    let drift = Velocity::new(((e % 3) as i32 - 1) * 10 * UNIT, ((e % 5) as i32 - 2) * 10 * UNIT);
    world.add_position(e, position);
    world.add_velocity(e, drift);
    world.add_texture_sprite(e, TextureSprite::with_name(sprite_name));
    world.add_physics_body(e, position, (GRID_SIZE / 2) as u32, PhysicsBodyType::Dynamic);
    hierarchy.add_root(e);
    e
}

} // verus!
