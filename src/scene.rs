//! Scenes: ordered bundles of optional components, and spawning them into a
//! world.
use vstd::prelude::*;
use vstd::string::StringExecFns;
use crate::components::{Entity, Position, TextureSprite, Velocity};
use crate::physics::{PhysicsBodyType, PhysicsCommand};
use crate::world::World;

verus! {

/// The body that a bundle asks for: a square of side `size` (fixed-point
/// steps) moved as `body_type` says.
#[derive(Debug, Clone, Copy, PartialEq, Eq, Structural)]
pub struct PhysicsBodyData {
    pub size: u32,
    pub body_type: PhysicsBodyType,
}

/// One entity of a scene: a name and the components it starts with.
#[derive(Debug)]
pub struct EntityData {
    pub name: Option<String>,
    pub position: Option<Position>,
    pub velocity: Option<Velocity>,
    pub texture_sprite: Option<TextureSprite>,
    pub physics_body: Option<PhysicsBodyData>,
}

/// A named, ordered list of entity bundles.
#[derive(Debug)]
pub struct Scene {
    pub name: String,
    pub description: Option<String>,
    pub entities: Vec<EntityData>,
}

/// Spawns scenes into worlds.
pub struct SceneLoader;

/// The decimal digit character of `d`, a digit.
pub open spec fn digit_char(d: nat) -> char {
    if d == 0 {
        '0'
    } else if d == 1 {
        '1'
    } else if d == 2 {
        '2'
    } else if d == 3 {
        '3'
    } else if d == 4 {
        '4'
    } else if d == 5 {
        '5'
    } else if d == 6 {
        '6'
    } else if d == 7 {
        '7'
    } else if d == 8 {
        '8'
    } else {
        '9'
    }
}

/// `n` written in decimal, without leading zeros.
pub open spec fn decimal(n: nat) -> Seq<char>
    decreases n,
{
    if n < 10 {
        seq![digit_char(n)]
    } else {
        decimal(n / 10).push(digit_char(n % 10))
    }
}

/// The name that a bundle without one gets: `entity_<index>`.
pub open spec fn default_name(index: nat) -> Seq<char> {
    "entity_"@ + decimal(index)
}

/// The name under which bundle `index` of a scene is listed.
pub open spec fn bundle_name(data: EntityData, index: nat) -> Seq<char> {
    match data.name {
        Some(n) => n@,
        None => default_name(index),
    }
}

/// The velocity that the body of a bundle starts with: the bundle's
/// velocity, else the velocity row that the entity already had, else zero.
pub open spec fn body_seed(data: EntityData, e: Entity, before: World) -> Velocity {
    match data.velocity {
        Some(v) => v,
        None => if before.velocities().contains_key(e) {
            before.velocities()[e]
        } else {
            Velocity { x: 0, y: 0 }
        },
    }
}

/// The position that the body of a bundle starts at: its position, or the
/// origin.
pub open spec fn body_start(data: EntityData) -> Position {
    match data.position {
        Some(p) => p,
        None => Position { x: 0, y: 0 },
    }
}

fn digit_str(d: usize) -> (r: &'static str)
    requires
        d < 10,
    ensures
        r@ == seq![digit_char(d as nat)],
{
    proof {
        reveal_strlit("0");
        reveal_strlit("1");
        reveal_strlit("2");
        reveal_strlit("3");
        reveal_strlit("4");
        reveal_strlit("5");
        reveal_strlit("6");
        reveal_strlit("7");
        reveal_strlit("8");
        reveal_strlit("9");
    }
    if d == 0 {
        "0"
    } else if d == 1 {
        "1"
    } else if d == 2 {
        "2"
    } else if d == 3 {
        "3"
    } else if d == 4 {
        "4"
    } else if d == 5 {
        "5"
    } else if d == 6 {
        "6"
    } else if d == 7 {
        "7"
    } else if d == 8 {
        "8"
    } else {
        "9"
    }
}

/// `n` written in decimal.
pub fn decimal_string(n: usize) -> (r: String)
    ensures
        r@ == decimal(n as nat),
    decreases n,
{
    if n < 10 {
        digit_str(n).to_owned()
    } else {
        let mut s = decimal_string(n / 10);
        s.append(digit_str(n % 10));
        s
    }
}

/// The name for a bundle without one: `entity_<index>`.
pub fn default_entity_name(index: usize) -> (r: String)
    ensures
        r@ == default_name(index as nat),
{
    let mut s = "entity_".to_owned();
    let digits = decimal_string(index);
    s.append(digits.as_str());
    s
}

fn copy_texture_sprite(t: &TextureSprite) -> (r: TextureSprite)
    ensures
        r == *t,
{
    TextureSprite { atlas_name: t.atlas_name.clone(), scale: t.scale }
}

impl SceneLoader {
    /// Spawns each bundle of `scene`, in order: a fresh entity (the next
    /// identifiers, one per bundle), the rows the bundle holds, then its
    /// body, seeded from its velocity. Lists each bundle's name with its
    /// entity; a bundle without a name is listed as `entity_<index>`.
    pub fn spawn_scene(scene: &Scene, world: &mut World) -> (names: Vec<(String, Entity)>)
        requires
            old(world).wf(),
            old(world).next_id() + scene.entities@.len() < u32::MAX,
            old(world).next_handle() + scene.entities@.len() < u64::MAX,
        ensures
            final(world).wf(),
            final(world).next_id() == old(world).next_id() + scene.entities@.len(),
            final(world).atlas() == old(world).atlas(),
            final(world).sprites() == old(world).sprites(),
            names@.len() == scene.entities@.len(),
            forall|i: int|
                #![trigger names@[i]]
                0 <= i < names@.len() ==> names@[i].0@ == bundle_name(scene.entities@[i], i as nat)
                    && names@[i].1 == old(world).next_id() + i,
            forall|i: int|
                #![trigger scene.entities@[i]]
                0 <= i < scene.entities@.len() ==> Self::spawned(
                    scene.entities@[i],
                    (old(world).next_id() + i) as Entity,
                    *old(world),
                    *final(world),
                ),
            forall|e: Entity|
                !(old(world).next_id() <= e < old(world).next_id() + scene.entities@.len())
                    ==> Self::untouched(e, *old(world), *final(world)),
    {
        let mut names: Vec<(String, Entity)> = Vec::new();
        let ghost start = *world;
        let ghost first = world.next_id();
        let ghost n = scene.entities@.len();
        let mut i: usize = 0;
        while i < scene.entities.len()
            invariant
                start.wf(),
                world.wf(),
                n == scene.entities@.len(),
                first == start.next_id(),
                first + n < u32::MAX,
                start.next_handle() + n < u64::MAX,
                i <= n,
                world.next_id() == first + i,
                world.next_handle() <= start.next_handle() + i,
                world.next_handle() >= start.next_handle(),
                world.atlas() == start.atlas(),
                world.sprites() == start.sprites(),
                start.commands().is_prefix_of(world.commands()),
                names@.len() == i,
                forall|k: int|
                    #![trigger names@[k]]
                    0 <= k < i ==> names@[k].0@ == bundle_name(scene.entities@[k], k as nat)
                        && names@[k].1 == first + k,
                forall|k: int|
                    #![trigger scene.entities@[k]]
                    0 <= k < i ==> Self::spawned(
                        scene.entities@[k],
                        (first + k) as Entity,
                        start,
                        *world,
                    ),
                forall|e: Entity|
                    !(first <= e < first + i) ==> Self::untouched(e, start, *world),
            decreases n - i,
        {
            let ghost before = *world;
            let data = &scene.entities[i];
            let entity = world.create_entity();
            match data.position {
                Some(p) => world.add_position(entity, p),
                None => {},
            }
            match data.velocity {
                Some(v) => world.add_velocity(entity, v),
                None => {},
            }
            match &data.texture_sprite {
                Some(t) => world.add_texture_sprite(entity, copy_texture_sprite(t)),
                None => {},
            }
            let ghost mid = *world;
            match data.physics_body {
                Some(b) => {
                    let start_at = match data.position {
                        Some(p) => p,
                        None => Position::new(0, 0),
                    };
                    world.add_physics_body(entity, start_at, b.size, b.body_type);
                },
                None => {},
            }
            let name = match &data.name {
                Some(s) => s.clone(),
                None => default_entity_name(i),
            };
            names.push((name, entity));
            proof {
                let d = scene.entities@[i as int];
                assert(entity == first + i);
                assert(Self::untouched(entity, start, before));
                assert(before.commands().is_prefix_of(world.commands()));
                assert(start.commands().is_prefix_of(world.commands()));
                assert forall|e: Entity| e != entity implies #[trigger] Self::untouched(e, before, *world) by {
                }
                assert forall|e: Entity| !(first <= e < first + i + 1) implies #[trigger] Self::untouched(e, start, *world) by {
                    assert(Self::untouched(e, start, before));
                    assert(Self::untouched(e, before, *world));
                }
                if d.physics_body is Some {
                    let b = d.physics_body->0;
                    let c = PhysicsCommand::CreateBody {
                        handle: world.bodies()[entity],
                        body_type: b.body_type,
                        position: body_start(d),
                        velocity: body_seed(d, entity, start),
                        half_extent: (b.size / 2) as i32,
                    };
                    assert(world.commands().last() == c);
                    assert(world.commands().contains(c));
                }
                assert(Self::spawned(d, entity, start, *world));
                assert forall|k: int|
                    #![trigger scene.entities@[k]]
                    0 <= k < i + 1 implies Self::spawned(
                        scene.entities@[k],
                        (first + k) as Entity,
                        start,
                        *world,
                    ) by {
                    if k < i {
                        assert(Self::spawned(scene.entities@[k], (first + k) as Entity, start, before));
                        Self::lemma_keep(scene.entities@[k], (first + k) as Entity, start, before, *world);
                    }
                }
                assert forall|k: int|
                    #![trigger names@[k]]
                    0 <= k < i + 1 implies names@[k].0@ == bundle_name(scene.entities@[k], k as nat)
                        && names@[k].1 == first + k by {
                }
            }
            i = i + 1;
        }
        names
    }

    /// A scene named `name` with `description`. The world is not read:
    /// the scene holds no bundles.
    pub fn create_scene_from_world(world: &World, name: String, description: Option<String>) -> (r:
        Scene)
        ensures
            r.name == name,
            r.description == description,
            r.entities@.len() == 0,
    {
        Scene { name, description, entities: Vec::new() }
    }

    /// Whether entity `e` of `after` holds exactly what bundle `data` asks
    /// for, on top of what `before` already held for it.
    pub open spec fn spawned(data: EntityData, e: Entity, before: World, after: World) -> bool {
        &&& match data.position {
            Some(p) => after.positions().contains_key(e) && after.positions()[e] == p,
            None => after.positions().contains_key(e) == before.positions().contains_key(e)
                && after.positions()[e] == before.positions()[e],
        }
        &&& match data.velocity {
            Some(v) => after.velocities().contains_key(e) && after.velocities()[e] == v,
            None => after.velocities().contains_key(e) == before.velocities().contains_key(e)
                && after.velocities()[e] == before.velocities()[e],
        }
        &&& match data.texture_sprite {
            Some(t) => after.texture_sprites().contains_key(e) && after.texture_sprites()[e] == t,
            None => after.texture_sprites().contains_key(e) == before.texture_sprites().contains_key(
                e,
            ) && after.texture_sprites()[e] == before.texture_sprites()[e],
        }
        &&& match data.physics_body {
            Some(b) => {
                &&& after.bodies().contains_key(e)
                &&& after.bodies()[e] >= before.next_handle()
                &&& after.commands().contains(
                    PhysicsCommand::CreateBody {
                        handle: after.bodies()[e],
                        body_type: b.body_type,
                        position: body_start(data),
                        velocity: body_seed(data, e, before),
                        half_extent: (b.size / 2) as i32,
                    },
                )
            },
            None => after.bodies().contains_key(e) == before.bodies().contains_key(e)
                && after.bodies()[e] == before.bodies()[e],
        }
    }

    /// Whether every row and body link of `e` is the same in both worlds.
    pub open spec fn untouched(e: Entity, before: World, after: World) -> bool {
        &&& after.positions().contains_key(e) == before.positions().contains_key(e)
        &&& after.positions()[e] == before.positions()[e]
        &&& after.velocities().contains_key(e) == before.velocities().contains_key(e)
        &&& after.velocities()[e] == before.velocities()[e]
        &&& after.texture_sprites().contains_key(e) == before.texture_sprites().contains_key(e)
        &&& after.texture_sprites()[e] == before.texture_sprites()[e]
        &&& after.bodies().contains_key(e) == before.bodies().contains_key(e)
        &&& after.bodies()[e] == before.bodies()[e]
    }

    proof fn lemma_keep(data: EntityData, e: Entity, start: World, before: World, after: World)
        requires
            Self::spawned(data, e, start, before),
            Self::untouched(e, before, after),
            before.commands().is_prefix_of(after.commands()),
        ensures
            Self::spawned(data, e, start, after),
    {
        if data.physics_body is Some {
            let c = choose|k: int| 0 <= k < before.commands().len() && before.commands()[k] == PhysicsCommand::CreateBody {
                handle: before.bodies()[e],
                body_type: data.physics_body->0.body_type,
                position: body_start(data),
                velocity: body_seed(data, e, start),
                half_extent: (data.physics_body->0.size / 2) as i32,
            };
            assert(after.commands()[c] == before.commands()[c]);
        }
    }
}

} // verus!
