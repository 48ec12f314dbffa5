//! The scheduler: an ordered list of stages, each run once per tick in the
//! order in which it was added.
use vstd::prelude::*;
use crate::world::World;

verus! {

/// One stage of the per-tick pipeline. `dt` is the tick's length in
/// milliseconds.
pub trait System {
    /// Whether one update of this stage may take the world from `before` to
    /// `after`. A stage that does not say promises nothing.
    open spec fn changes(&self, before: World, after: World, dt: u32) -> bool {
        true
    }

    fn update(&self, world: &mut World, dt: u32)
        requires
            old(world).wf(),
        ensures
            final(world).wf(),
            self.changes(*old(world), *final(world), dt),
    ;

    fn name(&self) -> &'static str;
}

/// A stage written against the query layer; the scheduler runs it through
/// `QuerySystemAdapter`.
pub trait QuerySystem {
    /// Whether one update of this stage may take the world from `before` to
    /// `after`. A stage that does not say promises nothing.
    open spec fn changes(&self, before: World, after: World, dt: u32) -> bool {
        true
    }

    fn update_with_queries(&self, world: &mut World, dt: u32)
        requires
            old(world).wf(),
        ensures
            final(world).wf(),
            self.changes(*old(world), *final(world), dt),
    ;

    fn name(&self) -> &'static str;
}

/// Runs a query-based stage as an ordinary stage.
pub struct QuerySystemAdapter<T: QuerySystem> {
    inner: T,
}

impl<T: QuerySystem> QuerySystemAdapter<T> {
    pub closed spec fn inner(&self) -> T {
        self.inner
    }

    pub closed spec fn new_spec(system: T) -> Self {
        QuerySystemAdapter { inner: system }
    }

    pub fn new(system: T) -> (r: Self)
        ensures
            r == Self::new_spec(system),
            r.inner() == system,
    {
        QuerySystemAdapter { inner: system }
    }
}

impl<T: QuerySystem> System for QuerySystemAdapter<T> {
    open spec fn changes(&self, before: World, after: World, dt: u32) -> bool {
        self.inner().changes(before, after, dt)
    }

    fn update(&self, world: &mut World, dt: u32) {
        self.inner.update_with_queries(world, dt);
    }

    fn name(&self) -> &'static str {
        self.inner.name()
    }
}

impl<T: QuerySystem> Scheduler<QuerySystemAdapter<T>> {
    /// Appends a query-based stage, run through `QuerySystemAdapter`.
    pub fn add_query_system(&mut self, system: T)
        ensures
            final(self).stages() == old(self).stages().push(QuerySystemAdapter::new_spec(system)),
    {
        self.add_system(QuerySystemAdapter::new(system));
    }
}

impl<S: System> Default for Scheduler<S> {
    fn default() -> (r: Self)
        ensures
            r.stages() == Seq::<S>::empty(),
    {
        Scheduler::new()
    }
}

/// Whether running `stages` in order, each once, may take the world from
/// `before` to `after`.
pub open spec fn runs<S: System>(stages: Seq<S>, before: World, after: World, dt: u32) -> bool
    decreases stages.len(),
{
    if stages.len() == 0 {
        after == before
    } else {
        exists|mid: World|
            runs(stages.drop_last(), before, mid, dt) && #[trigger] stages.last().changes(
                mid,
                after,
                dt,
            )
    }
}

/// The ordered stage list.
pub struct Scheduler<S: System> {
    systems: Vec<S>,
}

impl<S: System> Scheduler<S> {
    /// The stages, in the order in which they run.
    pub closed spec fn stages(&self) -> Seq<S> {
        self.systems@
    }

    /// A scheduler with no stages.
    pub fn new() -> (r: Self)
        ensures
            r.stages() == Seq::<S>::empty(),
    {
        Scheduler { systems: Vec::new() }
    }

    /// Appends `system`: it runs after every stage added before it.
    pub fn add_system(&mut self, system: S)
        ensures
            final(self).stages() == old(self).stages().push(system),
    {
        self.systems.push(system);
    }

    /// Runs every stage once, in order, each with the same `dt`.
    pub fn update(&self, world: &mut World, dt: u32)
        requires
            old(world).wf(),
        ensures
            final(world).wf(),
            runs(self.stages(), *old(world), *final(world), dt),
    {
        let mut i: usize = 0;
        while i < self.systems.len()
            invariant
                i <= self.stages().len(),
                world.wf(),
                runs(self.stages().take(i as int), *old(world), *world, dt),
            decreases self.stages().len() - i,
        {
            let ghost mid = *world;
            self.systems[i].update(world, dt);
            proof {
                let done = self.stages().take(i + 1);
                assert(done.drop_last() =~= self.stages().take(i as int));
                assert(done.last() == self.stages()[i as int]);
                assert(runs(done.drop_last(), *old(world), mid, dt));
            }
            i = i + 1;
        }
        assert(self.stages().take(i as int) =~= self.stages());
    }

    /// The number of stages.
    pub fn system_count(&self) -> (r: usize)
        ensures
            r == self.stages().len(),
    {
        self.systems.len()
    }

    /// The stage names, in run order.
    pub fn system_names(&self) -> (r: Vec<&'static str>)
        ensures
            r@.len() == self.stages().len(),
    {
        let mut names: Vec<&'static str> = Vec::new();
        let mut i: usize = 0;
        while i < self.systems.len()
            invariant
                i <= self.stages().len(),
                names@.len() == i,
            decreases self.stages().len() - i,
        {
            names.push(self.systems[i].name());
            i = i + 1;
        }
        names
    }
}

} // verus!
