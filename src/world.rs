//! The world: one table per component kind, the entity allocator, and the
//! bridge to the outside rigid-body solver (the body links and the queue of
//! commands for the solver).
use std::collections::HashMap;
use vstd::prelude::*;
use crate::components::{Entity, Position, Sprite, TextureSprite, Velocity};
use crate::physics::{
    apply_boundary_constraints, out_of_field, settled, BodyHandle, BodyReport, PhysicsBodyType,
    PhysicsCommand, FIELD_HEIGHT, FIELD_WIDTH, MARGIN,
};
use crate::texture::SpriteAtlas;

verus! {

broadcast use vstd::std_specs::hash::group_hash_axioms;

/// The last report for `handle` in `reports`, if any.
pub open spec fn last_report(reports: Seq<BodyReport>, handle: BodyHandle) -> Option<BodyReport>
    decreases reports.len(),
{
    if reports.len() == 0 {
        None
    } else if reports.last().handle == handle {
        Some(reports.last())
    } else {
        last_report(reports.drop_last(), handle)
    }
}

/// The commands that push the boundary corrections of `reports` back into
/// the solver: one `SetState` for each report, in order, of a body in
/// `owners` that the boundary rule moved.
pub open spec fn corrections(reports: Seq<BodyReport>, owners: Map<BodyHandle, Entity>) -> Seq<
    PhysicsCommand,
>
    decreases reports.len(),
{
    if reports.len() == 0 {
        Seq::empty()
    } else {
        let r = reports.last();
        let rest = corrections(reports.drop_last(), owners);
        if owners.contains_key(r.handle) && out_of_field(r) {
            let s = settled(r);
            rest.push(
                PhysicsCommand::SetState { handle: s.handle, position: s.position, velocity: s.velocity },
            )
        } else {
            rest
        }
    }
}

/// `table` with the row of each entity that has a body and a row refreshed
/// from the position in the last report for its body.
pub open spec fn refreshed_positions(
    table: Map<Entity, Position>,
    bodies: Map<Entity, BodyHandle>,
    reports: Seq<BodyReport>,
) -> Map<Entity, Position> {
    Map::new(
        |e: Entity| table.contains_key(e),
        |e: Entity|
            if bodies.contains_key(e) && last_report(reports, bodies[e]) is Some {
                (last_report(reports, bodies[e])->0).position
            } else {
                table[e]
            },
    )
}

/// `table` with the row of each entity that has a body and a row refreshed
/// from the velocity in the last report for its body.
pub open spec fn refreshed_velocities(
    table: Map<Entity, Velocity>,
    bodies: Map<Entity, BodyHandle>,
    reports: Seq<BodyReport>,
) -> Map<Entity, Velocity> {
    Map::new(
        |e: Entity| table.contains_key(e),
        |e: Entity|
            if bodies.contains_key(e) && last_report(reports, bodies[e]) is Some {
                (last_report(reports, bodies[e])->0).velocity
            } else {
                table[e]
            },
    )
}

/// Each report after the boundary rule.
pub open spec fn settled_all(reports: Seq<BodyReport>) -> Seq<BodyReport> {
    reports.map_values(|r: BodyReport| settled(r))
}

/// The pairs of entities behind `contacts`, in order: a contact counts when
/// both bodies belong to entities and both entities have a position.
pub open spec fn colliding(
    contacts: Seq<(BodyHandle, BodyHandle)>,
    owners: Map<BodyHandle, Entity>,
    positions: Map<Entity, Position>,
) -> Seq<(Entity, Entity)>
    decreases contacts.len(),
{
    if contacts.len() == 0 {
        Seq::empty()
    } else {
        let (a, b) = contacts.last();
        let rest = colliding(contacts.drop_last(), owners, positions);
        if owners.contains_key(a) && owners.contains_key(b) && positions.contains_key(owners[a])
            && positions.contains_key(owners[b]) {
            rest.push((owners[a], owners[b]))
        } else {
            rest
        }
    }
}

proof fn lemma_last_report_push(s: Seq<BodyReport>, r: BodyReport, h: BodyHandle)
    ensures
        last_report(s.push(r), h) == if r.handle == h {
            Some(r)
        } else {
            last_report(s, h)
        },
{
    assert(s.push(r).drop_last() =~= s);
}

/// Owner of every component table, the entity allocator and the physics
/// bridge.
pub struct World {
    next_entity_id: Entity,
    positions: HashMap<Entity, Position>,
    velocities: HashMap<Entity, Velocity>,
    sprites: HashMap<Entity, Sprite>,
    texture_sprites: HashMap<Entity, TextureSprite>,
    sprite_atlas: Option<SpriteAtlas>,
    entity_to_body: HashMap<Entity, BodyHandle>,
    body_to_entity: HashMap<BodyHandle, Entity>,
    next_body_handle: BodyHandle,
    commands: Vec<PhysicsCommand>,
}

impl World {
    /// The identifier that `create_entity` hands out next.
    pub closed spec fn next_id(&self) -> nat {
        self.next_entity_id as nat
    }

    pub closed spec fn positions(&self) -> Map<Entity, Position> {
        self.positions@
    }

    pub closed spec fn velocities(&self) -> Map<Entity, Velocity> {
        self.velocities@
    }

    pub closed spec fn sprites(&self) -> Map<Entity, Sprite> {
        self.sprites@
    }

    pub closed spec fn texture_sprites(&self) -> Map<Entity, TextureSprite> {
        self.texture_sprites@
    }

    pub closed spec fn atlas(&self) -> Option<SpriteAtlas> {
        self.sprite_atlas
    }

    /// Each entity's body.
    pub closed spec fn bodies(&self) -> Map<Entity, BodyHandle> {
        self.entity_to_body@
    }

    /// Each body's entity.
    pub closed spec fn owners(&self) -> Map<BodyHandle, Entity> {
        self.body_to_entity@
    }

    /// The handle that the next body gets.
    pub closed spec fn next_handle(&self) -> nat {
        self.next_body_handle as nat
    }

    /// The commands queued for the solver, oldest first.
    pub closed spec fn commands(&self) -> Seq<PhysicsCommand> {
        self.commands@
    }

    /// The body links run both ways, every handle is older than the next
    /// one, and the atlas, if any, is well formed.
    pub open spec fn wf(&self) -> bool {
        &&& forall|e: Entity| #[trigger]
            self.bodies().contains_key(e) ==> self.owners().contains_key(self.bodies()[e])
                && self.owners()[self.bodies()[e]] == e
        &&& forall|h: BodyHandle| #[trigger]
            self.owners().contains_key(h) ==> self.bodies().contains_key(self.owners()[h])
                && self.bodies()[self.owners()[h]] == h
        &&& forall|h: BodyHandle| #[trigger] self.owners().contains_key(h) ==> h < self.next_handle()
        &&& self.atlas() matches Some(a) ==> a.wf()
    }

    /// Whether `other` has the same tables and atlas as `self`.
    pub open spec fn same_tables(&self, other: &World) -> bool {
        &&& other.positions() == self.positions()
        &&& other.velocities() == self.velocities()
        &&& other.sprites() == self.sprites()
        &&& other.texture_sprites() == self.texture_sprites()
        &&& other.atlas() == self.atlas()
    }

    /// Whether `other` has the same body links, handle counter and queue.
    pub open spec fn same_bodies(&self, other: &World) -> bool {
        &&& other.bodies() == self.bodies()
        &&& other.owners() == self.owners()
        &&& other.next_handle() == self.next_handle()
        &&& other.commands() == self.commands()
    }

    /// Whether the world is fresh: no rows, no bodies, no atlas, nothing
    /// queued, both counters at 0.
    pub open spec fn is_fresh(&self) -> bool {
        &&& self.wf()
        &&& self.next_id() == 0
        &&& self.positions() == Map::<Entity, Position>::empty()
        &&& self.velocities() == Map::<Entity, Velocity>::empty()
        &&& self.sprites() == Map::<Entity, Sprite>::empty()
        &&& self.texture_sprites() == Map::<Entity, TextureSprite>::empty()
        &&& self.atlas() is None
        &&& self.bodies() == Map::<Entity, BodyHandle>::empty()
        &&& self.owners() == Map::<BodyHandle, Entity>::empty()
        &&& self.next_handle() == 0
        &&& self.commands() == Seq::<PhysicsCommand>::empty()
    }

    /// An empty world: no rows, no bodies, no atlas; identifiers start at 0.
    pub fn new() -> (w: World)
        ensures
            w.is_fresh(),
    {
        World {
            next_entity_id: 0,
            positions: HashMap::new(),
            velocities: HashMap::new(),
            sprites: HashMap::new(),
            texture_sprites: HashMap::new(),
            sprite_atlas: None,
            entity_to_body: HashMap::new(),
            body_to_entity: HashMap::new(),
            next_body_handle: 0,
            commands: Vec::new(),
        }
    }

    /// Makes `atlas` the world's one atlas.
    pub fn set_sprite_atlas(&mut self, atlas: SpriteAtlas)
        requires
            old(self).wf(),
            atlas.wf(),
        ensures
            final(self).wf(),
            final(self).atlas() == Some(atlas),
            final(self).next_id() == old(self).next_id(),
            final(self).positions() == old(self).positions(),
            final(self).velocities() == old(self).velocities(),
            final(self).sprites() == old(self).sprites(),
            final(self).texture_sprites() == old(self).texture_sprites(),
            old(self).same_bodies(final(self)),
    {
        self.sprite_atlas = Some(atlas);
        proof {
            assert(self.bodies() == old(self).bodies());
            assert(self.owners() == old(self).owners());
        }
    }

    /// The world's atlas, if one was set.
    pub fn sprite_atlas(&self) -> (r: Option<&SpriteAtlas>)
        ensures
            r == match self.atlas() {
                Some(a) => Some(&a),
                None => None::<&SpriteAtlas>,
            },
    {
        match &self.sprite_atlas {
            Some(a) => Some(a),
            None => None,
        }
    }

    /// A fresh identifier: the next one in order. It has no rows yet.
    pub fn create_entity(&mut self) -> (e: Entity)
        requires
            old(self).next_id() < u32::MAX,
        ensures
            e == old(self).next_id(),
            final(self).next_id() == old(self).next_id() + 1,
            old(self).same_tables(final(self)),
            old(self).same_bodies(final(self)),
            final(self).wf() == old(self).wf(),
    {
        let entity = self.next_entity_id;
        self.next_entity_id = self.next_entity_id + 1;
        proof {
            assert(self.bodies() == old(self).bodies());
            assert(self.owners() == old(self).owners());
        }
        entity
    }

    /// Sets the position row of `entity`.
    pub fn add_position(&mut self, entity: Entity, position: Position)
        ensures
            final(self).positions() == old(self).positions().insert(entity, position),
            final(self).next_id() == old(self).next_id(),
            final(self).velocities() == old(self).velocities(),
            final(self).sprites() == old(self).sprites(),
            final(self).texture_sprites() == old(self).texture_sprites(),
            final(self).atlas() == old(self).atlas(),
            old(self).same_bodies(final(self)),
            final(self).wf() == old(self).wf(),
    {
        self.positions.insert(entity, position);
    }

    /// Sets the velocity row of `entity`.
    pub fn add_velocity(&mut self, entity: Entity, velocity: Velocity)
        ensures
            final(self).velocities() == old(self).velocities().insert(entity, velocity),
            final(self).next_id() == old(self).next_id(),
            final(self).positions() == old(self).positions(),
            final(self).sprites() == old(self).sprites(),
            final(self).texture_sprites() == old(self).texture_sprites(),
            final(self).atlas() == old(self).atlas(),
            old(self).same_bodies(final(self)),
            final(self).wf() == old(self).wf(),
    {
        self.velocities.insert(entity, velocity);
    }

    /// Sets the sprite row of `entity`.
    pub fn add_sprite(&mut self, entity: Entity, sprite: Sprite)
        ensures
            final(self).sprites() == old(self).sprites().insert(entity, sprite),
            final(self).next_id() == old(self).next_id(),
            final(self).positions() == old(self).positions(),
            final(self).velocities() == old(self).velocities(),
            final(self).texture_sprites() == old(self).texture_sprites(),
            final(self).atlas() == old(self).atlas(),
            old(self).same_bodies(final(self)),
            final(self).wf() == old(self).wf(),
    {
        self.sprites.insert(entity, sprite);
    }

    /// Sets the texture-sprite row of `entity`.
    pub fn add_texture_sprite(&mut self, entity: Entity, texture_sprite: TextureSprite)
        ensures
            final(self).texture_sprites() == old(self).texture_sprites().insert(
                entity,
                texture_sprite,
            ),
            final(self).next_id() == old(self).next_id(),
            final(self).positions() == old(self).positions(),
            final(self).velocities() == old(self).velocities(),
            final(self).sprites() == old(self).sprites(),
            final(self).atlas() == old(self).atlas(),
            old(self).same_bodies(final(self)),
            final(self).wf() == old(self).wf(),
    {
        self.texture_sprites.insert(entity, texture_sprite);
    }

    /// The position row of `entity`, if it has one.
    pub fn get_position(&self, entity: Entity) -> (r: Option<&Position>)
        ensures
            match r {
                Some(p) => self.positions().contains_key(entity) && *p == self.positions()[entity],
                None => !self.positions().contains_key(entity),
            },
    {
        self.positions.get(&entity)
    }

    /// The velocity row of `entity`, if it has one.
    pub fn get_velocity(&self, entity: Entity) -> (r: Option<&Velocity>)
        ensures
            match r {
                Some(v) => self.velocities().contains_key(entity) && *v == self.velocities()[entity],
                None => !self.velocities().contains_key(entity),
            },
    {
        self.velocities.get(&entity)
    }

    /// The sprite row of `entity`, if it has one.
    pub fn get_sprite(&self, entity: Entity) -> (r: Option<&Sprite>)
        ensures
            match r {
                Some(s) => self.sprites().contains_key(entity) && *s == self.sprites()[entity],
                None => !self.sprites().contains_key(entity),
            },
    {
        self.sprites.get(&entity)
    }

    /// The texture-sprite row of `entity`, if it has one.
    pub fn get_texture_sprite(&self, entity: Entity) -> (r: Option<&TextureSprite>)
        ensures
            match r {
                Some(s) => self.texture_sprites().contains_key(entity) && *s
                    == self.texture_sprites()[entity],
                None => !self.texture_sprites().contains_key(entity),
            },
    {
        self.texture_sprites.get(&entity)
    }

    /// The body of `entity`, if it has one.
    pub fn body_of(&self, entity: Entity) -> (r: Option<BodyHandle>)
        ensures
            match r {
                Some(h) => self.bodies().contains_key(entity) && h == self.bodies()[entity],
                None => !self.bodies().contains_key(entity),
            },
    {
        match self.entity_to_body.get(&entity) {
            Some(h) => Some(*h),
            None => None,
        }
    }

    /// The entity that owns `handle`, if any.
    pub fn entity_of_body(&self, handle: BodyHandle) -> (r: Option<Entity>)
        ensures
            match r {
                Some(e) => self.owners().contains_key(handle) && e == self.owners()[handle],
                None => !self.owners().contains_key(handle),
            },
    {
        match self.body_to_entity.get(&handle) {
            Some(e) => Some(*e),
            None => None,
        }
    }

    /// The number of identifiers handed out so far.
    pub fn entity_count(&self) -> (r: usize)
        ensures
            r == self.next_id(),
    {
        self.next_entity_id as usize
    }

    /// The handle that the next body gets.
    pub fn next_body_handle(&self) -> (r: BodyHandle)
        ensures
            r == self.next_handle(),
    {
        self.next_body_handle
    }

    /// Hands over the queued solver commands, oldest first, and empties the
    /// queue.
    pub fn take_physics_commands(&mut self) -> (r: Vec<PhysicsCommand>)
        ensures
            r@ == old(self).commands(),
            final(self).commands() == Seq::<PhysicsCommand>::empty(),
            final(self).bodies() == old(self).bodies(),
            final(self).owners() == old(self).owners(),
            final(self).next_handle() == old(self).next_handle(),
            final(self).next_id() == old(self).next_id(),
            old(self).same_tables(final(self)),
            final(self).wf() == old(self).wf(),
    {
        let mut taken: Vec<PhysicsCommand> = Vec::new();
        std::mem::swap(&mut taken, &mut self.commands);
        proof {
            assert(self.bodies() == old(self).bodies());
            assert(self.owners() == old(self).owners());
        }
        taken
    }

    /// The position table, read-only.
    pub fn position_table(&self) -> (r: &HashMap<Entity, Position>)
        ensures
            r@ == self.positions(),
    {
        &self.positions
    }

    /// The velocity table, read-only.
    pub fn velocity_table(&self) -> (r: &HashMap<Entity, Velocity>)
        ensures
            r@ == self.velocities(),
    {
        &self.velocities
    }

    /// The sprite table, read-only.
    pub fn sprite_table(&self) -> (r: &HashMap<Entity, Sprite>)
        ensures
            r@ == self.sprites(),
    {
        &self.sprites
    }

    /// Gives `entity` a new body at `position` with a square collider of
    /// side `size`, seeded with the entity's velocity row (or zero). A body
    /// that the entity had is removed first.
    pub fn add_physics_body(
        &mut self,
        entity: Entity,
        position: Position,
        size: u32,
        body_type: PhysicsBodyType,
    ) -> (handle: BodyHandle)
        requires
            old(self).wf(),
            old(self).next_handle() < u64::MAX,
        ensures
            final(self).wf(),
            handle == old(self).next_handle(),
            final(self).next_handle() == old(self).next_handle() + 1,
            final(self).bodies() == old(self).bodies().insert(entity, handle),
            final(self).owners() == (if old(self).bodies().contains_key(entity) {
                old(self).owners().remove(old(self).bodies()[entity])
            } else {
                old(self).owners()
            }).insert(handle, entity),
            final(self).commands() == (if old(self).bodies().contains_key(entity) {
                old(self).commands().push(
                    PhysicsCommand::RemoveBody { handle: old(self).bodies()[entity] },
                )
            } else {
                old(self).commands()
            }).push(
                PhysicsCommand::CreateBody {
                    handle,
                    body_type,
                    position,
                    velocity: if old(self).velocities().contains_key(entity) {
                        old(self).velocities()[entity]
                    } else {
                        Velocity { x: 0, y: 0 }
                    },
                    half_extent: (size / 2) as i32,
                },
            ),
            final(self).next_id() == old(self).next_id(),
            old(self).same_tables(final(self)),
    {
        let handle = self.next_body_handle;
        self.next_body_handle = self.next_body_handle + 1;
        match self.entity_to_body.get(&entity) {
            Some(old_handle) => {
                let old_handle = *old_handle;
                self.body_to_entity.remove(&old_handle);
                self.commands.push(PhysicsCommand::RemoveBody { handle: old_handle });
            },
            None => {},
        }
        let velocity = match self.velocities.get(&entity) {
            Some(v) => *v,
            None => Velocity::zero(),
        };
        self.entity_to_body.insert(entity, handle);
        self.body_to_entity.insert(handle, entity);
        let half_extent = (size / 2) as i32;
        self.commands.push(
            PhysicsCommand::CreateBody { handle, body_type, position, velocity, half_extent },
        );
        proof {
            let b = self.bodies();
            let o = self.owners();
            let ob = old(self).bodies();
            let oo = old(self).owners();
            assert forall|e: Entity| #[trigger] b.contains_key(e) implies o.contains_key(b[e])
                && o[b[e]] == e by {
                if e != entity {
                    assert(ob.contains_key(e));
                    assert(oo[ob[e]] == e);
                    assert(ob[e] != handle);
                }
            }
            assert forall|h: BodyHandle| #[trigger] o.contains_key(h) implies b.contains_key(o[h])
                && b[o[h]] == h && h < self.next_handle() by {
                if h != handle {
                    assert(oo.contains_key(h));
                    assert(ob[oo[h]] == h);
                }
            }
        }
        handle
    }

    /// Takes the body of `entity` away, both links with it, and asks the
    /// solver to remove it; the entity keeps its rows. An entity without a
    /// body changes nothing.
    pub fn remove_physics_body(&mut self, entity: Entity)
        requires
            old(self).wf(),
        ensures
            final(self).wf(),
            final(self).bodies() == old(self).bodies().remove(entity),
            final(self).owners() == if old(self).bodies().contains_key(entity) {
                old(self).owners().remove(old(self).bodies()[entity])
            } else {
                old(self).owners()
            },
            final(self).commands() == if old(self).bodies().contains_key(entity) {
                old(self).commands().push(
                    PhysicsCommand::RemoveBody { handle: old(self).bodies()[entity] },
                )
            } else {
                old(self).commands()
            },
            final(self).next_handle() == old(self).next_handle(),
            final(self).next_id() == old(self).next_id(),
            old(self).same_tables(final(self)),
    {
        match self.entity_to_body.get(&entity) {
            Some(handle) => {
                let handle = *handle;
                self.commands.push(PhysicsCommand::RemoveBody { handle });
                self.body_to_entity.remove(&handle);
            },
            None => {},
        }
        self.entity_to_body.remove(&entity);
        proof {
            let b = self.bodies();
            let o = self.owners();
            let ob = old(self).bodies();
            let oo = old(self).owners();
            assert forall|e: Entity| #[trigger] b.contains_key(e) implies o.contains_key(b[e])
                && o[b[e]] == e by {
                assert(ob.contains_key(e) && oo[ob[e]] == e);
            }
            assert forall|h: BodyHandle| #[trigger] o.contains_key(h) implies b.contains_key(o[h])
                && b[o[h]] == h && h < self.next_handle() by {
                assert(oo.contains_key(h) && ob[oo[h]] == h);
            }
        }
    }

    /// Asks the solver to set the velocity of the body of `entity`; an
    /// entity without a body changes nothing.
    pub fn set_physics_velocity(&mut self, entity: Entity, velocity: Velocity)
        requires
            old(self).wf(),
        ensures
            final(self).wf(),
            final(self).commands() == if old(self).bodies().contains_key(entity) {
                old(self).commands().push(
                    PhysicsCommand::SetVelocity { handle: old(self).bodies()[entity], velocity },
                )
            } else {
                old(self).commands()
            },
            final(self).bodies() == old(self).bodies(),
            final(self).owners() == old(self).owners(),
            final(self).next_handle() == old(self).next_handle(),
            final(self).next_id() == old(self).next_id(),
            old(self).same_tables(final(self)),
    {
        match self.entity_to_body.get(&entity) {
            Some(handle) => {
                let handle = *handle;
                self.commands.push(PhysicsCommand::SetVelocity { handle, velocity });
            },
            None => {},
        }
        proof {
            assert(self.bodies() == old(self).bodies());
            assert(self.owners() == old(self).owners());
        }
    }

    /// Removes every row of `entity`, its body link both ways, and asks the
    /// solver to remove its body. An entity with nothing changes nothing.
    pub fn remove_entity(&mut self, entity: Entity)
        requires
            old(self).wf(),
        ensures
            final(self).wf(),
            final(self).positions() == old(self).positions().remove(entity),
            final(self).velocities() == old(self).velocities().remove(entity),
            final(self).sprites() == old(self).sprites().remove(entity),
            final(self).texture_sprites() == old(self).texture_sprites().remove(entity),
            final(self).bodies() == old(self).bodies().remove(entity),
            final(self).owners() == if old(self).bodies().contains_key(entity) {
                old(self).owners().remove(old(self).bodies()[entity])
            } else {
                old(self).owners()
            },
            final(self).commands() == if old(self).bodies().contains_key(entity) {
                old(self).commands().push(
                    PhysicsCommand::RemoveBody { handle: old(self).bodies()[entity] },
                )
            } else {
                old(self).commands()
            },
            final(self).atlas() == old(self).atlas(),
            final(self).next_id() == old(self).next_id(),
            final(self).next_handle() == old(self).next_handle(),
    {
        match self.entity_to_body.get(&entity) {
            Some(handle) => {
                let handle = *handle;
                self.commands.push(PhysicsCommand::RemoveBody { handle });
                self.body_to_entity.remove(&handle);
            },
            None => {},
        }
        self.entity_to_body.remove(&entity);
        self.positions.remove(&entity);
        self.velocities.remove(&entity);
        self.sprites.remove(&entity);
        self.texture_sprites.remove(&entity);
        proof {
            let b = self.bodies();
            let o = self.owners();
            let ob = old(self).bodies();
            let oo = old(self).owners();
            assert forall|e: Entity| #[trigger] b.contains_key(e) implies o.contains_key(b[e])
                && o[b[e]] == e by {
                assert(ob.contains_key(e) && oo[ob[e]] == e);
            }
            assert forall|h: BodyHandle| #[trigger] o.contains_key(h) implies b.contains_key(o[h])
                && b[o[h]] == h && h < self.next_handle() by {
                assert(oo.contains_key(h) && ob[oo[h]] == h);
            }
        }
    }

    /// Copies the position and velocity of each reported body into the
    /// rows of its entity; a later report for a body wins over an earlier
    /// one. Only rows that exist are refreshed; unknown handles are skipped.
    pub fn sync_positions_from_physics(&mut self, reports: &Vec<BodyReport>)
        requires
            old(self).wf(),
        ensures
            final(self).wf(),
            final(self).positions() == refreshed_positions(
                old(self).positions(),
                old(self).bodies(),
                reports@,
            ),
            final(self).velocities() == refreshed_velocities(
                old(self).velocities(),
                old(self).bodies(),
                reports@,
            ),
            final(self).sprites() == old(self).sprites(),
            final(self).texture_sprites() == old(self).texture_sprites(),
            final(self).atlas() == old(self).atlas(),
            final(self).next_id() == old(self).next_id(),
            old(self).same_bodies(final(self)),
    {
        let mut i: usize = 0;
        proof {
            assert(self.positions() =~= refreshed_positions(
                old(self).positions(),
                old(self).bodies(),
                reports@.take(0),
            ));
            assert(self.velocities() =~= refreshed_velocities(
                old(self).velocities(),
                old(self).bodies(),
                reports@.take(0),
            ));
        }
        while i < reports.len()
            invariant
                i <= reports@.len(),
                self.wf(),
                old(self).same_bodies(self),
                self.positions() == refreshed_positions(
                    old(self).positions(),
                    old(self).bodies(),
                    reports@.take(i as int),
                ),
                self.velocities() == refreshed_velocities(
                    old(self).velocities(),
                    old(self).bodies(),
                    reports@.take(i as int),
                ),
                self.sprites() == old(self).sprites(),
                self.texture_sprites() == old(self).texture_sprites(),
                self.atlas() == old(self).atlas(),
                self.next_id() == old(self).next_id(),
            decreases reports@.len() - i,
        {
            let r = reports[i];
            let ghost pre = reports@.take(i as int);
            proof {
                assert(reports@.take(i + 1) =~= pre.push(r));
                assert forall|h: BodyHandle|
                    last_report(#[trigger] reports@.take(i + 1), h) == (if r.handle == h {
                        Some(r)
                    } else {
                        last_report(pre, h)
                    }) by {
                    lemma_last_report_push(pre, r, h);
                }
            }
            match self.body_to_entity.get(&r.handle) {
                Some(e) => {
                    let e = *e;
                    if self.positions.contains_key(&e) {
                        self.positions.insert(e, r.position);
                    }
                    if self.velocities.contains_key(&e) {
                        self.velocities.insert(e, r.velocity);
                    }
                    proof {
                        assert(self.bodies()[e] == r.handle);
                    }
                },
                None => {
                    proof {
                        assert forall|e: Entity| #[trigger]
                            self.bodies().contains_key(e) implies self.bodies()[e] != r.handle by {
                        }
                    }
                },
            }
            i = i + 1;
            proof {
                assert(self.positions() =~= refreshed_positions(
                    old(self).positions(),
                    old(self).bodies(),
                    reports@.take(i as int),
                ));
                assert(self.velocities() =~= refreshed_velocities(
                    old(self).velocities(),
                    old(self).bodies(),
                    reports@.take(i as int),
                ));
                assert(self.bodies() == old(self).bodies());
                assert(self.owners() == old(self).owners());
            }
        }
        proof {
            assert(reports@.take(i as int) =~= reports@);
        }
    }

    /// Finishes one solver step from the solver's report of each body:
    /// applies the boundary rule to every report, refreshes the rows from
    /// the settled reports, and queues a `SetState` for each linked body
    /// that the rule moved, so that the solver agrees with the rows.
    pub fn step_physics(&mut self, reports: &Vec<BodyReport>)
        requires
            old(self).wf(),
        ensures
            final(self).wf(),
            final(self).positions() == refreshed_positions(
                old(self).positions(),
                old(self).bodies(),
                settled_all(reports@),
            ),
            final(self).velocities() == refreshed_velocities(
                old(self).velocities(),
                old(self).bodies(),
                settled_all(reports@),
            ),
            final(self).commands() == old(self).commands() + corrections(
                reports@,
                old(self).owners(),
            ),
            final(self).bodies() == old(self).bodies(),
            final(self).owners() == old(self).owners(),
            final(self).next_handle() == old(self).next_handle(),
            final(self).sprites() == old(self).sprites(),
            final(self).texture_sprites() == old(self).texture_sprites(),
            final(self).atlas() == old(self).atlas(),
            final(self).next_id() == old(self).next_id(),
    {
        let mut settled_reports: Vec<BodyReport> = Vec::new();
        let mut i: usize = 0;
        proof {
            assert(self.commands() =~= old(self).commands() + corrections(
                reports@.take(0),
                old(self).owners(),
            ));
        }
        while i < reports.len()
            invariant
                i <= reports@.len(),
                self.wf(),
                old(self).same_tables(self),
                self.next_id() == old(self).next_id(),
                self.bodies() == old(self).bodies(),
                self.owners() == old(self).owners(),
                self.next_handle() == old(self).next_handle(),
                self.commands() == old(self).commands() + corrections(
                    reports@.take(i as int),
                    old(self).owners(),
                ),
                settled_reports@ == settled_all(reports@.take(i as int)),
            decreases reports@.len() - i,
        {
            let r = reports[i];
            let (s, moved) = apply_boundary_constraints(&r);
            let ghost pre = reports@.take(i as int);
            proof {
                assert(reports@.take(i + 1) =~= pre.push(r));
                assert(reports@.take(i + 1).drop_last() =~= pre);
            }
            if moved && self.body_to_entity.contains_key(&s.handle) {
                self.commands.push(
                    PhysicsCommand::SetState {
                        handle: s.handle,
                        position: s.position,
                        velocity: s.velocity,
                    },
                );
            }
            settled_reports.push(s);
            i = i + 1;
            proof {
                assert(settled_reports@ =~= settled_all(reports@.take(i as int)));
                assert(self.commands() =~= old(self).commands() + corrections(
                    reports@.take(i as int),
                    old(self).owners(),
                ));
                assert(self.bodies() == old(self).bodies());
                assert(self.owners() == old(self).owners());
            }
        }
        proof {
            assert(reports@.take(i as int) =~= reports@);
        }
        self.sync_positions_from_physics(&settled_reports);
    }

    /// The entity pairs behind the solver's active contacts, as pairs of
    /// body handles: a contact counts when both bodies belong to entities
    /// that both have a position.
    pub fn check_collisions(&self, contacts: &Vec<(BodyHandle, BodyHandle)>) -> (r: Vec<
        (Entity, Entity),
    >)
        ensures
            r@ == colliding(contacts@, self.owners(), self.positions()),
    {
        let mut out: Vec<(Entity, Entity)> = Vec::new();
        let mut i: usize = 0;
        while i < contacts.len()
            invariant
                i <= contacts@.len(),
                out@ == colliding(contacts@.take(i as int), self.owners(), self.positions()),
            decreases contacts@.len() - i,
        {
            let (a, b) = contacts[i];
            proof {
                assert(contacts@.take(i + 1).drop_last() =~= contacts@.take(i as int));
            }
            match (self.body_to_entity.get(&a), self.body_to_entity.get(&b)) {
                (Some(ea), Some(eb)) => {
                    if self.positions.contains_key(ea) && self.positions.contains_key(eb) {
                        out.push((*ea, *eb));
                    }
                },
                _ => {},
            }
            i = i + 1;
        }
        proof {
            assert(contacts@.take(i as int) =~= contacts@);
        }
        out
    }
}

impl Default for World {
    fn default() -> (w: World)
        ensures
            w.is_fresh(),
    {
        World::new()
    }
}

/// Cache and solver agree after a step: for each entity with a body that the
/// step reported, its position and velocity rows (where it has them) equal
/// the settled report, and the solver either already holds that state or
/// has a `SetState` to it queued by the step.
pub proof fn lemma_step_matches_solver(
    before: World,
    after: World,
    reports: Seq<BodyReport>,
    e: Entity,
)
    requires
        before.wf(),
        after.positions() == refreshed_positions(
            before.positions(),
            before.bodies(),
            settled_all(reports),
        ),
        after.velocities() == refreshed_velocities(
            before.velocities(),
            before.bodies(),
            settled_all(reports),
        ),
        after.commands() == before.commands() + corrections(reports, before.owners()),
        before.bodies().contains_key(e),
        last_report(reports, before.bodies()[e]) is Some,
    ensures
        ({
            let r = last_report(reports, before.bodies()[e])->0;
            &&& after.positions().contains_key(e) ==> after.positions()[e] == settled(r).position
            &&& after.velocities().contains_key(e) ==> after.velocities()[e]
                == settled(r).velocity
            &&& out_of_field(r) ==> after.commands().contains(
                PhysicsCommand::SetState {
                    handle: r.handle,
                    position: settled(r).position,
                    velocity: settled(r).velocity,
                },
            )
            &&& !out_of_field(r) ==> settled(r) == r
        }),
{
    let h = before.bodies()[e];
    lemma_last_settled(reports, h);
    let r = last_report(reports, h)->0;
    crate::physics::lemma_boundary_bounce(r);
    if out_of_field(r) {
        lemma_correction_queued(reports, before.owners(), h);
        let c = PhysicsCommand::SetState {
            handle: r.handle,
            position: settled(r).position,
            velocity: settled(r).velocity,
        };
        let k = choose|k: int| 0 <= k < corrections(reports, before.owners()).len() && corrections(reports, before.owners())[k] == c;
        assert(after.commands()[before.commands().len() + k] == c);
    }
}

proof fn lemma_last_settled(reports: Seq<BodyReport>, h: BodyHandle)
    ensures
        last_report(settled_all(reports), h) == match last_report(reports, h) {
            Some(r) => Some(settled(r)),
            None => None,
        },
        last_report(reports, h) matches Some(r) ==> r.handle == h,
    decreases reports.len(),
{
    if reports.len() > 0 {
        assert(settled_all(reports).drop_last() =~= settled_all(reports.drop_last()));
        lemma_last_settled(reports.drop_last(), h);
    }
}

proof fn lemma_correction_queued(reports: Seq<BodyReport>, owners: Map<BodyHandle, Entity>, h: BodyHandle)
    requires
        owners.contains_key(h),
        last_report(reports, h) matches Some(r) && out_of_field(r),
    ensures
        ({
            let r = last_report(reports, h)->0;
            corrections(reports, owners).contains(
                PhysicsCommand::SetState {
                    handle: r.handle,
                    position: settled(r).position,
                    velocity: settled(r).velocity,
                },
            )
        }),
    decreases reports.len(),
{
    let r = reports.last();
    if r.handle == h {
        let c = corrections(reports, owners);
        assert(c[c.len() - 1] == PhysicsCommand::SetState {
            handle: r.handle,
            position: settled(r).position,
            velocity: settled(r).velocity,
        });
    } else {
        lemma_correction_queued(reports.drop_last(), owners, h);
        let rest = corrections(reports.drop_last(), owners);
        let c = corrections(reports, owners);
        let x = PhysicsCommand::SetState {
            handle: (last_report(reports, h)->0).handle,
            position: settled(last_report(reports, h)->0).position,
            velocity: settled(last_report(reports, h)->0).velocity,
        };
        let k = choose|k: int| 0 <= k < rest.len() && rest[k] == x;
        assert(c[k] == x);
    }
}

/// Boundary bounce through a step: an entity whose body the step reported
/// left of the left margin while moving left ends with its position on the
/// margin and its horizontal velocity negated (likewise for each edge).
pub proof fn lemma_step_bounces(before: World, after: World, reports: Seq<BodyReport>, e: Entity)
    requires
        before.wf(),
        after.positions() == refreshed_positions(
            before.positions(),
            before.bodies(),
            settled_all(reports),
        ),
        after.velocities() == refreshed_velocities(
            before.velocities(),
            before.bodies(),
            settled_all(reports),
        ),
        before.bodies().contains_key(e),
        before.positions().contains_key(e),
        before.velocities().contains_key(e),
        last_report(reports, before.bodies()[e]) is Some,
    ensures
        ({
            let r = last_report(reports, before.bodies()[e])->0;
            let p = after.positions()[e];
            let v = after.velocities()[e];
            &&& r.position.x < MARGIN && i32::MIN < r.velocity.x < 0 ==> p.x == MARGIN && v.x
                == -r.velocity.x
            &&& r.position.x > FIELD_WIDTH - MARGIN && r.velocity.x > 0 ==> p.x == FIELD_WIDTH
                - MARGIN && v.x == -r.velocity.x
            &&& r.position.y < MARGIN && i32::MIN < r.velocity.y < 0 ==> p.y == MARGIN && v.y
                == -r.velocity.y
            &&& r.position.y > FIELD_HEIGHT - MARGIN && r.velocity.y > 0 ==> p.y == FIELD_HEIGHT
                - MARGIN && v.y == -r.velocity.y
        }),
{
    lemma_last_settled(reports, before.bodies()[e]);
    crate::physics::lemma_boundary_bounce(last_report(reports, before.bodies()[e])->0);
}

/// Destruction is complete: after `remove_entity(e)` no table has a row for
/// `e`, and neither body map has an entry for it.
pub proof fn lemma_removal_complete(before: World, after: World, e: Entity)
    requires
        before.wf(),
        after.positions() == before.positions().remove(e),
        after.velocities() == before.velocities().remove(e),
        after.sprites() == before.sprites().remove(e),
        after.texture_sprites() == before.texture_sprites().remove(e),
        after.bodies() == before.bodies().remove(e),
        after.owners() == if before.bodies().contains_key(e) {
            before.owners().remove(before.bodies()[e])
        } else {
            before.owners()
        },
    ensures
        !after.positions().contains_key(e),
        !after.velocities().contains_key(e),
        !after.sprites().contains_key(e),
        !after.texture_sprites().contains_key(e),
        !after.bodies().contains_key(e),
        forall|h: BodyHandle| #[trigger] after.owners().contains_key(h) ==> after.owners()[h] != e,
{
    assert forall|h: BodyHandle| #[trigger] after.owners().contains_key(h) implies after.owners()[h] != e by {
        assert(before.owners().contains_key(h));
        let x = before.owners()[h];
        assert(before.bodies()[x] == h);
    }
}

/// Identifiers come in order, without gaps and never again: take `n`
/// `create_entity` calls, the `k`-th made on `before[k]`, returning `ids[k]`
/// and leaving `after[k]`, with only calls that keep the counter (such as
/// `remove_entity`) in between. Then the identifiers are the counter's first
/// value plus `0, 1, ..., n - 1`.
pub proof fn lemma_ids_in_order(before: Seq<World>, after: Seq<World>, ids: Seq<Entity>)
    requires
        before.len() == ids.len(),
        after.len() == ids.len(),
        forall|k: int| 0 <= k < ids.len() ==> #[trigger] ids[k] == before[k].next_id(),
        forall|k: int|
            0 <= k < ids.len() ==> #[trigger] after[k].next_id() == before[k].next_id() + 1,
        forall|k: int|
            0 <= k < ids.len() - 1 ==> #[trigger] before[k + 1].next_id() == after[k].next_id(),
    ensures
        forall|k: int| 0 <= k < ids.len() ==> #[trigger] ids[k] == ids[0] + k,
        forall|j: int, k: int| 0 <= j < k < ids.len() ==> ids[j] < ids[k],
    decreases ids.len(),
{
    if ids.len() > 1 {
        let n = ids.len() - 1;
        lemma_ids_in_order(before.take(n), after.take(n), ids.take(n));
        assert(ids.take(n)[0] == ids[0]);
        assert forall|k: int| 0 <= k < ids.len() implies #[trigger] ids[k] == ids[0] + k by {
            if k < n {
                assert(ids.take(n)[k] == ids[k]);
            } else {
                assert(ids.take(n)[n - 1] == ids[n - 1]);
                let m = n - 1;
                assert(before[m + 1].next_id() == after[m].next_id());
                assert(ids[m] == before[m].next_id());
                assert(after[m].next_id() == before[m].next_id() + 1);
            }
        }
    }
}

} // verus!
