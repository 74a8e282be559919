use vstd::prelude::*;

use crate::component::{comps_map, Bundle, Component};
use crate::entity::Entity;
use crate::world::{NoSuchEntity, World};

verus! {

/// The part of a builder's state that decides what `current_entity()`
/// returns: the store's next fresh identifier and the cursor.
pub ghost struct ChainState {
    pub next: u64,
    pub cursor: Option<Entity>,
}

/// One chained builder operation, abstracted to its effect on `ChainState`.
pub ghost enum ChainOp {
    /// `entity()`
    Reserve,
    /// `set_entity(entity)`
    Select(Entity),
    /// `with(component)`
    Attach,
    /// `with_bundle(bundle)`
    AttachBundle,
    /// `spawn(bundle)`
    SpawnOne,
    /// `spawn_batch(bundles)`, carrying how many bundles were given
    SpawnMany(nat),
    /// `for_current_entity(f)`
    Visit,
    /// `current_entity()`
    Read,
}

/// Whether the operation is one of the three that point the cursor at an
/// identifier.
pub open spec fn sets_cursor(op: ChainOp) -> bool {
    match op {
        ChainOp::Reserve => true,
        ChainOp::Select(_) => true,
        ChainOp::SpawnOne => true,
        _ => false,
    }
}

/// The effect of one chained operation on the cursor state.
pub open spec fn chain_step(s: ChainState, op: ChainOp) -> ChainState {
    match op {
        ChainOp::Reserve => ChainState {
            next: (s.next + 1) as u64,
            cursor: Some(Entity::spec_from_id(s.next)),
        },
        ChainOp::Select(e) => ChainState { next: s.next, cursor: Some(e) },
        ChainOp::SpawnOne => ChainState {
            next: (s.next + 1) as u64,
            cursor: Some(Entity::spec_from_id(s.next)),
        },
        ChainOp::SpawnMany(n) => ChainState { next: (s.next + n) as u64, cursor: s.cursor },
        _ => s,
    }
}

/// The cursor state a whole sequence of chained operations leaves behind.
pub open spec fn chain_run(s: ChainState, ops: Seq<ChainOp>) -> ChainState
    decreases ops.len(),
{
    if ops.len() == 0 {
        s
    } else {
        chain_step(chain_run(s, ops.drop_last()), ops.last())
    }
}

/// Lends a value out as a [`WorldBuilder`].
pub trait WorldBuilderSource: Sized {
    /// The store the builder will mutate.
    spec fn source_world(self) -> World;

    /// Hands the store to a fresh builder whose cursor starts unset.
    fn build(self) -> (b: WorldBuilder)
        ensures
            b.world == self.source_world(),
            b.current_entity is None,
    ;
}

impl WorldBuilderSource for World {
    open spec fn source_world(self) -> World {
        self
    }

    fn build(self) -> (b: WorldBuilder) {
        WorldBuilder { world: self, current_entity: None }
    }
}

/// Modify a [`World`] using the builder pattern.
///
/// The builder owns the store for its whole lifetime — the exclusive access
/// the chain relies on — and keeps one piece of mutable state of its own: the
/// optional "current entity" that the attaching operations target. Every
/// operation takes effect against the store immediately; nothing is buffered.
#[derive(Debug)]
pub struct WorldBuilder {
    pub world: World,
    pub current_entity: Option<Entity>,
}

impl WorldBuilder {
    /// The builder's state as the cursor rules see it.
    pub open spec fn chain_state(self) -> ChainState {
        ChainState { next: self.world@.next, cursor: self.current_entity }
    }

    /// Reserves a fresh entity, carrying no components yet, and points the
    /// cursor at it.
    pub fn entity(&mut self) -> (r: &mut Self)
        ensures
            r.current_entity == Some(Entity::spec_from_id(old(self).world@.next)),
            r.current_entity->0.id() == old(self).world@.next,
            !old(self).world@.comps.contains_key(old(self).world@.next),
            r.world@.next == old(self).world@.next + 1,
            r.world@.comps == old(self).world@.comps.insert(
                old(self).world@.next,
                Map::<u64, u64>::empty(),
            ),
            r.chain_state() == chain_step(old(self).chain_state(), ChainOp::Reserve),
            *final(self) == *final(r),
    {
        let e = self.world.reserve_entity();
        self.current_entity = Some(e);
        self
    }

    /// Points the cursor at a caller-supplied identifier, without checking
    /// that the store knows it: an unknown identifier is only reported by
    /// whatever attaching operation next dereferences the cursor.
    pub fn set_entity(&mut self, entity: Entity) -> (r: &mut Self)
        ensures
            r.world == old(self).world,
            r.current_entity == Some(entity),
            r.chain_state() == chain_step(old(self).chain_state(), ChainOp::Select(entity)),
            *final(self) == *final(r),
    {
        self.current_entity = Some(entity);
        self
    }

    /// Attaches one component to the current entity, forwarding the store's
    /// answer unchanged: the attachment fails, and the store stays as it was,
    /// exactly when the cursor's entity does not exist in the store.
    pub fn with(&mut self, component: Component) -> (r: Result<(), NoSuchEntity>)
        requires
            old(self).current_entity is Some,
        ensures
            final(self).current_entity == old(self).current_entity,
            r is Ok <==> old(self).world@.comps.contains_key(old(self).current_entity->0.id()),
            old(self).world@.comps.contains_key(old(self).current_entity->0.id())
                ==> final(self).world@.next == old(self).world@.next
                && final(self).world@.comps == old(self).world@.comps.insert(
                    old(self).current_entity->0.id(),
                    old(self).world@.comps[old(self).current_entity->0.id()].insert(
                        component.kind,
                        component.value,
                    ),
                ),
            !old(self).world@.comps.contains_key(old(self).current_entity->0.id())
                ==> final(self).world == old(self).world,
            final(self).chain_state() == chain_step(old(self).chain_state(), ChainOp::Attach),
    {
        let e = self.current_entity.unwrap();
        self.world.insert_one(e, component)
    }

    /// Atomically attaches a whole bundle to the current entity, forwarding
    /// the store's answer unchanged, as `with` does.
    pub fn with_bundle(&mut self, bundle: Bundle) -> (r: Result<(), NoSuchEntity>)
        requires
            old(self).current_entity is Some,
        ensures
            final(self).current_entity == old(self).current_entity,
            r is Ok <==> old(self).world@.comps.contains_key(old(self).current_entity->0.id()),
            old(self).world@.comps.contains_key(old(self).current_entity->0.id())
                ==> final(self).world@.next == old(self).world@.next
                && final(self).world@.comps == old(self).world@.comps.insert(
                    old(self).current_entity->0.id(),
                    old(self).world@.comps[old(self).current_entity->0.id()].union_prefer_right(
                        comps_map(bundle@),
                    ),
                ),
            !old(self).world@.comps.contains_key(old(self).current_entity->0.id())
                ==> final(self).world == old(self).world,
            final(self).chain_state() == chain_step(old(self).chain_state(), ChainOp::AttachBundle),
    {
        let e = self.current_entity.unwrap();
        self.world.insert(e, bundle)
    }

    /// Creates a brand-new entity carrying exactly the bundle's components,
    /// in one atomic step, and points the cursor at it.
    pub fn spawn(&mut self, bundle: Bundle) -> (r: &mut Self)
        ensures
            r.current_entity == Some(Entity::spec_from_id(old(self).world@.next)),
            r.current_entity->0.id() == old(self).world@.next,
            !old(self).world@.comps.contains_key(old(self).world@.next),
            r.world@.next == old(self).world@.next + 1,
            r.world@.comps == old(self).world@.comps.insert(
                old(self).world@.next,
                comps_map(bundle@),
            ),
            r.chain_state() == chain_step(old(self).chain_state(), ChainOp::SpawnOne),
            *final(self) == *final(r),
    {
        let e = self.world.spawn(bundle);
        self.current_entity = Some(e);
        self
    }

    /// Spawns one entity per bundle, in sequence order, without touching the
    /// cursor: the `k`-th bundle populates the entity whose identifier is the
    /// `k`-th one the store issues.
    pub fn spawn_batch(&mut self, bundles: Vec<Bundle>) -> (r: &mut Self)
        ensures
            r.current_entity == old(self).current_entity,
            r.world@.next == old(self).world@.next + bundles@.len(),
            forall|id: u64|
                old(self).world@.next <= id < old(self).world@.next + bundles@.len()
                    ==> #[trigger] r.world@.comps.contains_key(id),
            forall|k: int|
                0 <= k < bundles@.len() ==> r.world@.comps[(old(self).world@.next + k) as u64]
                    == #[trigger] comps_map(bundles@[k]@),
            forall|id: u64|
                #[trigger] old(self).world@.comps.contains_key(id) ==> r.world@.comps.contains_key(
                    id,
                ) && r.world@.comps[id] == old(self).world@.comps[id],
            forall|id: u64|
                #[trigger] r.world@.comps.contains_key(id) ==> old(self).world@.comps.contains_key(
                    id,
                ) || (old(self).world@.next <= id < old(self).world@.next + bundles@.len()),
            r.chain_state() == chain_step(
                old(self).chain_state(),
                ChainOp::SpawnMany(bundles@.len()),
            ),
            *final(self) == *final(r),
    {
        self.world.spawn_batch(bundles);
        self
    }

    /// Reads the cursor; a pure accessor with no side effect, callable
    /// whether or not the cursor is set.
    pub fn current_entity(&self) -> (r: Option<Entity>)
        ensures
            r == self.current_entity,
    {
        self.current_entity
    }

    /// Hands the current entity to the callback, then lets the chain
    /// continue; neither the store nor the cursor changes.
    pub fn for_current_entity<F: FnOnce(Entity)>(&mut self, f: F) -> (r: &mut Self)
        requires
            old(self).current_entity is Some,
            f.requires((old(self).current_entity->0,)),
        ensures
            *r == *old(self),
            f.ensures((old(self).current_entity->0,), ()),
            r.chain_state() == chain_step(old(self).chain_state(), ChainOp::Visit),
            *final(self) == *final(r),
    {
        let e = self.current_entity.unwrap();
        f(e);
        self
    }
}

/// After any sequence of chained operations, the cursor holds exactly what
/// the most recent of `entity`, `set_entity` and `spawn` set it to — applied
/// to the state the earlier operations had produced — and it holds its
/// initial value if the sequence contains none of those three.
pub proof fn lemma_cursor_tracks_last_setter(s: ChainState, ops: Seq<ChainOp>)
    ensures
        (forall|j: int| 0 <= j < ops.len() ==> !sets_cursor(#[trigger] ops[j])) ==> chain_run(
            s,
            ops,
        ).cursor == s.cursor,
        forall|i: int|
            0 <= i < ops.len() && sets_cursor(#[trigger] ops[i]) && (forall|j: int|
                i < j < ops.len() ==> !sets_cursor(#[trigger] ops[j])) ==> chain_run(s, ops).cursor
                == chain_step(chain_run(s, ops.take(i)), ops[i]).cursor,
    decreases ops.len(),
{
    if ops.len() == 0 {
    } else {
        let pre = ops.drop_last();
        let op = ops.last();
        lemma_cursor_tracks_last_setter(s, pre);
        assert(pre =~= ops.take(ops.len() - 1));
        if sets_cursor(op) {
            assert forall|i: int|
                0 <= i < ops.len() && sets_cursor(#[trigger] ops[i]) && (forall|j: int|
                    i < j < ops.len() ==> !sets_cursor(#[trigger] ops[j])) implies chain_run(
                s,
                ops,
            ).cursor == chain_step(chain_run(s, ops.take(i)), ops[i]).cursor by {
                assert(sets_cursor(ops[ops.len() - 1]));
                assert(i == ops.len() - 1);
            }
        } else {
            assert(chain_run(s, ops).cursor == chain_run(s, pre).cursor);
            assert forall|i: int|
                0 <= i < ops.len() && sets_cursor(#[trigger] ops[i]) && (forall|j: int|
                    i < j < ops.len() ==> !sets_cursor(#[trigger] ops[j])) implies chain_run(
                s,
                ops,
            ).cursor == chain_step(chain_run(s, ops.take(i)), ops[i]).cursor by {
                assert(i < ops.len() - 1);
                assert(sets_cursor(pre[i]));
                assert(forall|j: int| i < j < pre.len() ==> !sets_cursor(#[trigger] pre[j]));
                assert(chain_run(s, pre).cursor == chain_step(
                    chain_run(s, pre.take(i)),
                    pre[i],
                ).cursor);
                assert(pre.take(i) =~= ops.take(i));
            }
        }
    }
}

/// Reserving an entity twice in a row yields two distinct identifiers and
/// leaves the cursor pointing at the second.
pub proof fn lemma_reserve_twice_distinct(s: ChainState)
    requires
        s.next < u64::MAX,
    ensures
        chain_step(s, ChainOp::Reserve).cursor == Some(Entity::spec_from_id(s.next)),
        chain_step(chain_step(s, ChainOp::Reserve), ChainOp::Reserve).cursor == Some(
            Entity::spec_from_id((s.next + 1) as u64),
        ),
        Entity::spec_from_id(s.next) != Entity::spec_from_id((s.next + 1) as u64),
{
    Entity::lemma_spec_from_id_id(s.next);
    Entity::lemma_spec_from_id_id((s.next + 1) as u64);
    Entity::lemma_id_injective(
        Entity::spec_from_id(s.next),
        Entity::spec_from_id((s.next + 1) as u64),
    );
}

} // verus!
