//! Queries: read-only views over one or more component tables, materialised
//! as rows. A multi-table query walks the first table and keeps an entity
//! only when every other table has a row for it (inner join).
use std::collections::HashMap;
use vstd::prelude::*;
use crate::components::{Entity, Position, Sprite, Velocity};
use crate::world::World;

verus! {

broadcast use vstd::std_specs::hash::group_hash_axioms;

/// The entities of `rows`, in order.
pub open spec fn row_entities<T>(rows: Seq<(Entity, T)>) -> Seq<Entity> {
    rows.map_values(|r: (Entity, T)| r.0)
}

/// Whether `rows` lists each row of `table` exactly once.
pub open spec fn lists_table<T>(rows: Seq<(Entity, T)>, table: Map<Entity, T>) -> bool {
    &&& row_entities(rows).no_duplicates()
    &&& row_entities(rows).to_set() == table.dom()
    &&& forall|i: int|
        0 <= i < rows.len() ==> table.contains_key(rows[i].0) && #[trigger] table[rows[i].0]
            == rows[i].1
}

/// Each entity with its row of one table.
pub struct SingleQuery<T> {
    pub rows: Vec<(Entity, T)>,
}

impl<T> SingleQuery<T> {
    /// The number of rows.
    pub fn count(&self) -> (r: usize)
        ensures
            r == self.rows@.len(),
    {
        self.rows.len()
    }
}

/// The rows of one table, each entity once.
fn rows_of<T: Copy>(table: &HashMap<Entity, T>) -> (rows: Vec<(Entity, T)>)
    ensures
        lists_table(rows@, table@),
{
    let mut rows: Vec<(Entity, T)> = Vec::new();
    for k in it: table.keys()
        invariant
            rows@.len() == it.index(),
            forall|i: int| 0 <= i < rows@.len() ==> #[trigger] rows@[i].0 == *it.seq()[i],
            forall|i: int|
                0 <= i < rows@.len() ==> table@.contains_key(#[trigger] rows@[i].0) && table@[rows@[i].0]
                    == rows@[i].1,
            it.seq().unref().to_set() == table@.dom(),
            it.seq().no_duplicates(),
            it.index() <= it.seq().len(),
        ensures
            row_entities(rows@) == it.seq().unref(),
    {
        let found = table.get(k);
        proof {
            assert(it.seq().unref().to_set().contains(*k));
        }
        let v = *found.unwrap();
        proof {
            assert(table@.contains_key(*k) && table@[*k] == v);
        }
        rows.push((*k, v));
    }
    rows
}

/// The entities that have a row in both `a` and `b`.
pub open spec fn joined<A, B>(a: Map<Entity, A>, b: Map<Entity, B>) -> Set<Entity> {
    a.dom().intersect(b.dom())
}

/// Each entity that has both rows, with its position and velocity.
pub struct PositionVelocityQuery {
    pub rows: Vec<(Entity, Position, Velocity)>,
}

impl PositionVelocityQuery {
    /// The entities of the rows, in order.
    pub open spec fn entities(&self) -> Seq<Entity> {
        self.rows@.map_values(|r: (Entity, Position, Velocity)| r.0)
    }

    /// The number of rows.
    pub fn count(&self) -> (r: usize)
        ensures
            r == self.rows@.len(),
    {
        self.rows.len()
    }
}

/// Each entity that has all three rows, with its position, velocity and sprite.
pub struct RenderableMovementQuery {
    pub rows: Vec<(Entity, Position, Velocity, Sprite)>,
}

impl RenderableMovementQuery {
    /// The entities of the rows, in order.
    pub open spec fn entities(&self) -> Seq<Entity> {
        self.rows@.map_values(|r: (Entity, Position, Velocity, Sprite)| r.0)
    }

    /// The number of rows.
    pub fn count(&self) -> (r: usize)
        ensures
            r == self.rows@.len(),
    {
        self.rows.len()
    }
}

/// Query over the position table.
pub struct PositionQuery;

/// Query over the velocity table.
pub struct VelocityQuery;

/// Query over the sprite table.
pub struct SpriteQuery;

/// Query over entities with both a position and a velocity.
pub struct MovementQuery;

/// Query over entities with a position, a velocity and a sprite.
pub struct RenderableQuery;

impl PositionQuery {
    pub fn query(world: &World) -> (r: SingleQuery<Position>)
        ensures
            lists_table(r.rows@, world.positions()),
    {
        SingleQuery { rows: rows_of(world.position_table()) }
    }
}

impl VelocityQuery {
    pub fn query(world: &World) -> (r: SingleQuery<Velocity>)
        ensures
            lists_table(r.rows@, world.velocities()),
    {
        SingleQuery { rows: rows_of(world.velocity_table()) }
    }
}

impl SpriteQuery {
    pub fn query(world: &World) -> (r: SingleQuery<Sprite>)
        ensures
            lists_table(r.rows@, world.sprites()),
    {
        SingleQuery { rows: rows_of(world.sprite_table()) }
    }
}

impl MovementQuery {
    /// Every entity with both a position and a velocity, once, with its rows.
    pub fn query(world: &World) -> (r: PositionVelocityQuery)
        ensures
            r.entities().no_duplicates(),
            r.entities().to_set() == joined(world.positions(), world.velocities()),
            forall|i: int|
                #![trigger r.rows@[i]]
                0 <= i < r.rows@.len() ==> world.positions().contains_key(r.rows@[i].0)
                    && world.velocities().contains_key(r.rows@[i].0)
                    && r.rows@[i].1 == world.positions()[r.rows@[i].0]
                    && r.rows@[i].2 == world.velocities()[r.rows@[i].0],
    {
        let base = rows_of(world.position_table());
        let velocities = world.velocity_table();
        let mut rows: Vec<(Entity, Position, Velocity)> = Vec::new();
        let ghost mut src: Seq<int> = Seq::empty();
        let mut j: usize = 0;
        while j < base.len()
            invariant
                lists_table(base@, world.positions()),
                velocities@ == world.velocities(),
                j <= base@.len(),
                src.len() == rows@.len(),
                forall|i: int| 0 <= i < src.len() ==> 0 <= #[trigger] src[i] < j,
                forall|a: int, b: int| 0 <= a < b < src.len() ==> #[trigger] src[a] < #[trigger] src[b],
                forall|i: int|
                    0 <= i < rows@.len() ==> #[trigger] rows@[i].0 == base@[src[i]].0
                        && velocities@.contains_key(rows@[i].0)
                        && world.positions().contains_key(rows@[i].0)
                        && rows@[i].1 == world.positions()[rows@[i].0]
                        && rows@[i].2 == velocities@[rows@[i].0],
                forall|k: int|
                    0 <= k < j && velocities@.contains_key(#[trigger] base@[k].0) ==> exists|i: int|
                        0 <= i < src.len() && src[i] == k,
            decreases base@.len() - j,
        {
            let (e, p) = base[j];
            let ghost src0 = src;
            assert(world.positions()[base@[j as int].0] == base@[j as int].1);
            match velocities.get(&e) {
                Some(v) => {
                    proof {
                        src = src.push(j as int);
                    }
                    rows.push((e, p, *v));
                    proof {
                        assert(rows@[rows@.len() - 1].0 == base@[src[src.len() - 1]].0);
                    }
                },
                None => {},
            }
            proof {
                assert forall|k: int|
                    0 <= k < j + 1 && velocities@.contains_key(#[trigger] base@[k].0) implies exists|i: int|
                        0 <= i < src.len() && src[i] == k by {
                    if k < j {
                        let i = choose|i: int| 0 <= i < src0.len() && src0[i] == k;
                        assert(src[i] == k);
                    } else {
                        assert(src[src.len() - 1] == k);
                    }
                }
            }
            j = j + 1;
        }
        let r = PositionVelocityQuery { rows };
        proof {
            let es = r.entities();
            let bs = row_entities(base@);
            assert forall|a: int, b: int| 0 <= a < es.len() && 0 <= b < es.len() && a != b implies es[a] != es[b] by {
                assert(es[a] == bs[src[a]]);
                assert(es[b] == bs[src[b]]);
                if a < b {
                    assert(src[a] < src[b]);
                } else {
                    assert(src[b] < src[a]);
                }
            }
            assert forall|e: Entity| #[trigger] es.to_set().contains(e) == joined(world.positions(), world.velocities()).contains(e) by {
                if es.to_set().contains(e) {
                    let a = choose|a: int| 0 <= a < es.len() && es[a] == e;
                    assert(rows@[a].0 == e);
                    assert(bs[src[a]] == e);
                    assert(bs.to_set().contains(e));
                }
                if joined(world.positions(), world.velocities()).contains(e) {
                    assert(bs.to_set().contains(e));
                    let k = choose|k: int| 0 <= k < bs.len() && bs[k] == e;
                    assert(base@[k].0 == e);
                    let i = choose|i: int| 0 <= i < src.len() && src[i] == k;
                    assert(es[i] == e);
                }
            }
            assert(es.to_set() =~= joined(world.positions(), world.velocities()));
        }
        r
    }
}

impl RenderableQuery {
    /// Every entity with a position, a velocity and a sprite, once, with its rows.
    pub fn query(world: &World) -> (r: RenderableMovementQuery)
        ensures
            r.entities().no_duplicates(),
            r.entities().to_set() == joined(world.positions(), world.velocities()).intersect(
                world.sprites().dom(),
            ),
            forall|i: int|
                #![trigger r.rows@[i]]
                0 <= i < r.rows@.len() ==> world.positions().contains_key(r.rows@[i].0)
                    && world.velocities().contains_key(r.rows@[i].0)
                    && world.sprites().contains_key(r.rows@[i].0)
                    && r.rows@[i].1 == world.positions()[r.rows@[i].0]
                    && r.rows@[i].2 == world.velocities()[r.rows@[i].0]
                    && r.rows@[i].3 == world.sprites()[r.rows@[i].0],
    {
        let base = rows_of(world.position_table());
        let velocities = world.velocity_table();
        let sprites = world.sprite_table();
        let mut rows: Vec<(Entity, Position, Velocity, Sprite)> = Vec::new();
        let ghost mut src: Seq<int> = Seq::empty();
        let mut j: usize = 0;
        while j < base.len()
            invariant
                lists_table(base@, world.positions()),
                velocities@ == world.velocities(),
                sprites@ == world.sprites(),
                j <= base@.len(),
                src.len() == rows@.len(),
                forall|i: int| 0 <= i < src.len() ==> 0 <= #[trigger] src[i] < j,
                forall|a: int, b: int| 0 <= a < b < src.len() ==> #[trigger] src[a] < #[trigger] src[b],
                forall|i: int|
                    0 <= i < rows@.len() ==> #[trigger] rows@[i].0 == base@[src[i]].0
                        && velocities@.contains_key(rows@[i].0)
                        && sprites@.contains_key(rows@[i].0)
                        && world.positions().contains_key(rows@[i].0)
                        && rows@[i].1 == world.positions()[rows@[i].0]
                        && rows@[i].2 == velocities@[rows@[i].0]
                        && rows@[i].3 == sprites@[rows@[i].0],
                forall|k: int|
                    0 <= k < j && velocities@.contains_key(#[trigger] base@[k].0)
                        && sprites@.contains_key(base@[k].0) ==> exists|i: int|
                        0 <= i < src.len() && src[i] == k,
            decreases base@.len() - j,
        {
            let (e, p) = base[j];
            let ghost src0 = src;
            assert(world.positions()[base@[j as int].0] == base@[j as int].1);
            match (velocities.get(&e), sprites.get(&e)) {
                (Some(v), Some(sp)) => {
                    proof {
                        src = src.push(j as int);
                    }
                    rows.push((e, p, *v, *sp));
                    proof {
                        assert(rows@[rows@.len() - 1].0 == base@[src[src.len() - 1]].0);
                    }
                },
                _ => {},
            }
            proof {
                assert forall|k: int|
                    0 <= k < j + 1 && velocities@.contains_key(#[trigger] base@[k].0)
                        && sprites@.contains_key(base@[k].0) implies exists|i: int|
                        0 <= i < src.len() && src[i] == k by {
                    if k < j {
                        let i = choose|i: int| 0 <= i < src0.len() && src0[i] == k;
                        assert(src[i] == k);
                    } else {
                        assert(src[src.len() - 1] == k);
                    }
                }
            }
            j = j + 1;
        }
        let r = RenderableMovementQuery { rows };
        proof {
            let es = r.entities();
            let bs = row_entities(base@);
            assert forall|a: int, b: int| 0 <= a < es.len() && 0 <= b < es.len() && a != b implies es[a] != es[b] by {
                assert(es[a] == bs[src[a]]);
                assert(es[b] == bs[src[b]]);
                if a < b {
                    assert(src[a] < src[b]);
                } else {
                    assert(src[b] < src[a]);
                }
            }
            assert forall|e: Entity| #[trigger] es.to_set().contains(e) == joined(world.positions(), world.velocities()).intersect(world.sprites().dom()).contains(e) by {
                if es.to_set().contains(e) {
                    let a = choose|a: int| 0 <= a < es.len() && es[a] == e;
                    assert(rows@[a].0 == e);
                    assert(bs[src[a]] == e);
                    assert(bs.to_set().contains(e));
                }
                if joined(world.positions(), world.velocities()).intersect(world.sprites().dom()).contains(e) {
                    assert(bs.to_set().contains(e));
                    let k = choose|k: int| 0 <= k < bs.len() && bs[k] == e;
                    assert(base@[k].0 == e);
                    let i = choose|i: int| 0 <= i < src.len() && src[i] == k;
                    assert(es[i] == e);
                }
            }
            assert(es.to_set() =~= joined(world.positions(), world.velocities()).intersect(
                world.sprites().dom(),
            ));
        }
        r
    }
}

} // verus!
