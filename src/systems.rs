//! The built-in stages: movement, velocity push to the solver, the query
//! demonstration, and the input stage.
use vstd::prelude::*;
use crate::components::{Entity, Position, Velocity, UNIT};
use crate::physics::{BodyHandle, PhysicsCommand};
use crate::query::{lists_table, MovementQuery, PositionQuery, RenderableQuery, VelocityQuery};
use crate::scheduler::{QuerySystem, System};
use crate::world::World;

verus! {

/// `v * dt / UNIT` rounded toward zero: how far velocity `v` (steps per
/// second) carries in `dt` milliseconds.
pub open spec fn displacement(v: i32, dt: u32) -> int {
    let p = v * dt;
    if p >= 0 {
        p / (UNIT as int)
    } else {
        -((-p) / (UNIT as int))
    }
}

/// `v` held inside the range of `i32`.
pub open spec fn held(v: int) -> i32 {
    if v > i32::MAX {
        i32::MAX
    } else if v < i32::MIN {
        i32::MIN
    } else {
        v as i32
    }
}

/// Position `p` after moving at `v` for `dt` milliseconds.
pub open spec fn moved(p: Position, v: Velocity, dt: u32) -> Position {
    Position { x: held(p.x + displacement(v.x, dt)), y: held(p.y + displacement(v.y, dt)) }
}

/// The position table after every entity that also has a velocity has moved.
pub open spec fn moved_table(
    positions: Map<Entity, Position>,
    velocities: Map<Entity, Velocity>,
    dt: u32,
) -> Map<Entity, Position> {
    Map::new(
        |e: Entity| positions.contains_key(e),
        |e: Entity|
            if velocities.contains_key(e) {
                moved(positions[e], velocities[e], dt)
            } else {
                positions[e]
            },
    )
}

/// Whether `after` is `before` with only the position table changed.
pub open spec fn only_positions_changed(before: World, after: World) -> bool {
    &&& after.velocities() == before.velocities()
    &&& after.sprites() == before.sprites()
    &&& after.texture_sprites() == before.texture_sprites()
    &&& after.atlas() == before.atlas()
    &&& after.next_id() == before.next_id()
    &&& before.same_bodies(&after)
}

fn step_axis(p: i32, v: i32, dt: u32) -> (r: i32)
    ensures
        r == held(p + displacement(v, dt)),
{
    assert(-0x7fff_ffff_ffff_ffff <= (v as int) * (dt as int) <= 0x7fff_ffff_ffff_ffff)
        by (nonlinear_arith)
        requires
            i32::MIN <= v <= i32::MAX,
            0 <= dt <= u32::MAX,
    ;
    let prod: i64 = (v as i64) * (dt as i64);
    let d: i64 = if prod >= 0 {
        prod / (UNIT as i64)
    } else {
        -((-prod) / (UNIT as i64))
    };
    let n: i64 = (p as i64) + d;
    if n > i32::MAX as i64 {
        i32::MAX
    } else if n < i32::MIN as i64 {
        i32::MIN
    } else {
        n as i32
    }
}

/// Where `p` is after moving at `v` for `dt` milliseconds.
pub fn move_position(p: Position, v: Velocity, dt: u32) -> (r: Position)
    ensures
        r == moved(p, v, dt),
{
    Position { x: step_axis(p.x, v.x, dt), y: step_axis(p.y, v.y, dt) }
}

/// Moves every entity that has a position and a velocity by velocity times
/// `dt`: it reads the rows through a query first, then writes them back.
pub struct MovementSystem;

impl MovementSystem {
    pub fn new() -> (r: Self)
        ensures
            r == (MovementSystem {}),
    {
        MovementSystem
    }
}

impl Default for MovementSystem {
    fn default() -> (r: Self)
        ensures
            r == (MovementSystem {}),
    {
        MovementSystem
    }
}

impl QuerySystem for MovementSystem {
    open spec fn changes(&self, before: World, after: World, dt: u32) -> bool {
        &&& after.positions() == moved_table(before.positions(), before.velocities(), dt)
        &&& only_positions_changed(before, after)
    }

    fn update_with_queries(&self, world: &mut World, dt: u32) {
        let ghost start = *world;
        let q = MovementQuery::query(world);
        let ghost es = q.entities();
        let mut i: usize = 0;
        while i < q.rows.len()
            invariant
                i <= q.rows@.len(),
                world.wf(),
                start.wf(),
                es == q.entities(),
                es.no_duplicates(),
                es.to_set() == start.positions().dom().intersect(start.velocities().dom()),
                forall|k: int|
                    #![trigger q.rows@[k]]
                    0 <= k < q.rows@.len() ==> start.positions().contains_key(q.rows@[k].0)
                        && start.velocities().contains_key(q.rows@[k].0)
                        && q.rows@[k].1 == start.positions()[q.rows@[k].0]
                        && q.rows@[k].2 == start.velocities()[q.rows@[k].0],
                only_positions_changed(start, *world),
                world.positions().dom() == start.positions().dom(),
                forall|e: Entity| #[trigger]
                    world.positions().contains_key(e) ==> world.positions()[e] == if es.take(
                        i as int,
                    ).contains(e) {
                        moved(start.positions()[e], start.velocities()[e], dt)
                    } else {
                        start.positions()[e]
                    },
            decreases q.rows@.len() - i,
        {
            let (e, p, v) = q.rows[i];
            let np = move_position(p, v, dt);
            let ghost mid = *world;
            world.add_position(e, np);
            proof {
                assert forall|x: Entity| #[trigger]
                    world.positions().contains_key(x) implies world.positions()[x] == if es.take(
                        i + 1,
                    ).contains(x) {
                        moved(start.positions()[x], start.velocities()[x], dt)
                    } else {
                        start.positions()[x]
                    } by {
                    if x != e {
                        assert(mid.positions().contains_key(x));
                        assert(es.take(i + 1).contains(x) == es.take(i as int).contains(x)) by {
                            assert(es.take(i + 1) =~= es.take(i as int).push(e));
                        }
                    } else {
                        assert(es.take(i + 1)[i as int] == e);
                    }
                }
                assert(es[i as int] == e);
                assert(es.take(i + 1) =~= es.take(i as int).push(e));
                assert(!es.take(i as int).contains(e)) by {
                    if es.take(i as int).contains(e) {
                        let k = choose|k: int| 0 <= k < i && es.take(i as int)[k] == e;
                        assert(es[k] == es[i as int]);
                    }
                }
                assert(start.positions().contains_key(e));
                assert(world.positions().dom() =~= start.positions().dom());
                assert(world.bodies() == start.bodies());
                assert(world.owners() == start.owners());
            }
            i = i + 1;
        }
        proof {
            assert(es.take(i as int) =~= es);
            assert forall|e: Entity| #[trigger] world.positions().contains_key(e) implies (
            es.contains(e) <==> start.velocities().contains_key(e)) by {
                assert(es.to_set().contains(e) <==> es.contains(e));
            }
            assert(world.positions() =~= moved_table(start.positions(), start.velocities(), dt));
        }
    }

    fn name(&self) -> &'static str {
        "MovementSystem"
    }
}

/// Counts what the demonstration queries find; changes nothing.
pub struct QueryDemoSystem;

impl QueryDemoSystem {
    pub fn new() -> (r: Self)
        ensures
            r == (QueryDemoSystem {}),
    {
        QueryDemoSystem
    }
}

impl Default for QueryDemoSystem {
    fn default() -> (r: Self)
        ensures
            r == (QueryDemoSystem {}),
    {
        QueryDemoSystem
    }
}

impl QuerySystem for QueryDemoSystem {
    open spec fn changes(&self, before: World, after: World, dt: u32) -> bool {
        after == before
    }

    fn update_with_queries(&self, world: &mut World, dt: u32) {
        let positions = PositionQuery::query(world);
        let velocities = VelocityQuery::query(world);
        let moving = MovementQuery::query(world);
        let renderable = RenderableQuery::query(world);
        let _counts = (positions.count(), velocities.count(), moving.count(), renderable.count());
    }

    fn name(&self) -> &'static str {
        "QueryDemoSystem"
    }
}

/// The velocity pushes for `rows`, in order: one for each entity with a body.
pub open spec fn velocity_pushes(
    rows: Seq<(Entity, Velocity)>,
    bodies: Map<Entity, BodyHandle>,
) -> Seq<PhysicsCommand>
    decreases rows.len(),
{
    if rows.len() == 0 {
        Seq::empty()
    } else {
        let (e, v) = rows.last();
        let rest = velocity_pushes(rows.drop_last(), bodies);
        if bodies.contains_key(e) {
            rest.push(PhysicsCommand::SetVelocity { handle: bodies[e], velocity: v })
        } else {
            rest
        }
    }
}

/// Pushes the velocity row of every entity that has a body into the solver,
/// so bodies move at their rows' velocity without outside forces.
pub struct VelocitySyncSystem;

impl VelocitySyncSystem {
    pub fn new() -> (r: Self)
        ensures
            r == (VelocitySyncSystem {}),
    {
        VelocitySyncSystem
    }
}

impl Default for VelocitySyncSystem {
    fn default() -> (r: Self)
        ensures
            r == (VelocitySyncSystem {}),
    {
        VelocitySyncSystem
    }
}

impl System for VelocitySyncSystem {
    open spec fn changes(&self, before: World, after: World, dt: u32) -> bool {
        &&& exists|rows: Seq<(Entity, Velocity)>|
            #[trigger] lists_table(rows, before.velocities()) && after.commands()
                == before.commands() + velocity_pushes(rows, before.bodies())
        &&& after.bodies() == before.bodies()
        &&& after.owners() == before.owners()
        &&& after.next_handle() == before.next_handle()
        &&& after.next_id() == before.next_id()
        &&& before.same_tables(&after)
    }

    fn update(&self, world: &mut World, dt: u32) {
        let ghost start = *world;
        let q = VelocityQuery::query(world);
        let mut i: usize = 0;
        while i < q.rows.len()
            invariant
                i <= q.rows@.len(),
                world.wf(),
                lists_table(q.rows@, start.velocities()),
                world.commands() == start.commands() + velocity_pushes(
                    q.rows@.take(i as int),
                    start.bodies(),
                ),
                world.bodies() == start.bodies(),
                world.owners() == start.owners(),
                world.next_handle() == start.next_handle(),
                world.next_id() == start.next_id(),
                start.same_tables(world),
            decreases q.rows@.len() - i,
        {
            let (e, v) = q.rows[i];
            proof {
                assert(q.rows@.take(i + 1).drop_last() =~= q.rows@.take(i as int));
            }
            world.set_physics_velocity(e, v);
            proof {
                assert(world.commands() =~= start.commands() + velocity_pushes(
                    q.rows@.take(i + 1),
                    start.bodies(),
                ));
            }
            i = i + 1;
        }
        proof {
            assert(q.rows@.take(i as int) =~= q.rows@);
            assert(lists_table(q.rows@, start.velocities()) && world.commands() == start.commands()
                + velocity_pushes(q.rows@, start.bodies()));
        }
    }

    fn name(&self) -> &'static str {
        "VelocitySyncSystem"
    }
}

/// The stage that knows which entity the player steers. Input itself is
/// read by the frame loop; the stage changes nothing.
pub struct InputSystem {
    pub player_entity: Entity,
}

impl InputSystem {
    pub fn new(player_entity: Entity) -> (r: Self)
        ensures
            r.player_entity == player_entity,
    {
        InputSystem { player_entity }
    }

    pub fn get_player_entity(&self) -> (r: Entity)
        ensures
            r == self.player_entity,
    {
        self.player_entity
    }

    pub fn set_player_entity(&mut self, entity: Entity)
        ensures
            final(self).player_entity == entity,
    {
        self.player_entity = entity;
    }
}

/// The player's speed along each axis while a key is held, in steps per
/// second.
pub const PLAYER_SPEED: i32 = 200 * UNIT;

/// The velocity that the held arrow keys ask for: right wins over left and
/// down over up; no key on an axis means standing still on it.
pub open spec fn steered(left: bool, right: bool, up: bool, down: bool) -> Velocity {
    Velocity {
        x: if right {
            PLAYER_SPEED
        } else if left {
            (-PLAYER_SPEED) as i32
        } else {
            0
        },
        y: if down {
            PLAYER_SPEED
        } else if up {
            (-PLAYER_SPEED) as i32
        } else {
            0
        },
    }
}

impl InputSystem {
    /// Steers the player from the held keys: a player with a velocity row
    /// gets the steered velocity in the row and, if it has a body, in the
    /// solver too. A player without a velocity row is left alone.
    pub fn steer(&self, world: &mut World, left: bool, right: bool, up: bool, down: bool)
        requires
            old(world).wf(),
        ensures
            final(world).wf(),
            old(world).velocities().contains_key(self.player_entity) ==> {
                &&& final(world).velocities() == old(world).velocities().insert(
                    self.player_entity,
                    steered(left, right, up, down),
                )
                &&& final(world).commands() == if old(world).bodies().contains_key(
                    self.player_entity,
                ) {
                    old(world).commands().push(
                        PhysicsCommand::SetVelocity {
                            handle: old(world).bodies()[self.player_entity],
                            velocity: steered(left, right, up, down),
                        },
                    )
                } else {
                    old(world).commands()
                }
            },
            !old(world).velocities().contains_key(self.player_entity) ==> *final(world) == *old(
                world,
            ),
            final(world).positions() == old(world).positions(),
            final(world).bodies() == old(world).bodies(),
            final(world).next_id() == old(world).next_id(),
    {
        if world.get_velocity(self.player_entity).is_some() {
            let x = if right {
                PLAYER_SPEED
            } else if left {
                -PLAYER_SPEED
            } else {
                0
            };
            let y = if down {
                PLAYER_SPEED
            } else if up {
                -PLAYER_SPEED
            } else {
                0
            };
            let v = Velocity::new(x, y);
            world.add_velocity(self.player_entity, v);
            world.set_physics_velocity(self.player_entity, v);
        }
    }
}

impl System for InputSystem {
    open spec fn changes(&self, before: World, after: World, dt: u32) -> bool {
        after == before
    }

    fn update(&self, world: &mut World, dt: u32) {
    }

    fn name(&self) -> &'static str {
        "InputSystem"
    }
}

} // verus!
