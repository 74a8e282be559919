use vstd::prelude::*;

use crate::component::{comps_map, lemma_comps_map_push, lemma_comps_map_take_step, Bundle,
    Component};
use crate::entity::Entity;

verus! {

/// The failure a store operation reports when the entity it was aimed at does
/// not exist in the store.
#[derive(Clone, Copy, PartialEq, Eq, Structural, Debug)]
pub struct NoSuchEntity;

/// The abstract state of a `World`: the identifier the store will issue next,
/// and, keyed by identifier, the component set each existing entity carries.
pub ghost struct WorldModel {
    pub next: u64,
    pub comps: Map<u64, Map<u64, u64>>,
}

/// An entity-component store.
///
/// Entities are rows keyed by identifier; identifiers are issued in order,
/// starting at zero, and an entity, once created, is never destroyed. Each
/// entity carries at most one component value per kind; attaching a kind that
/// is already present overwrites its value.
#[derive(Debug)]
pub struct World {
    rows: Vec<Vec<Component>>,
}

impl View for World {
    type V = WorldModel;

    closed spec fn view(&self) -> WorldModel {
        WorldModel {
            next: self.rows@.len() as u64,
            comps: Map::new(
                |id: u64| (id as nat) < self.rows@.len(),
                |id: u64| comps_map(self.rows@[id as int]@),
            ),
        }
    }
}

impl World {
    pub fn new() -> (w: World)
        ensures
            w@.next == 0,
            w@.comps == Map::<u64, Map<u64, u64>>::empty(),
    {
        let w = World { rows: Vec::new() };
        proof {
            assert(w@.comps =~= Map::<u64, Map<u64, u64>>::empty());
        }
        w
    }

    /// The store holds an entity for exactly the identifiers below `next`.
    pub proof fn lemma_comps_dom(self)
        ensures
            forall|id: u64| #[trigger] self@.comps.contains_key(id) <==> id < self@.next,
    {
        assert(self.rows.len() == self.rows@.len());
    }

    /// Attaches one component to the entity in row `i`, overwriting the value
    /// of a kind that is already present.
    fn attach(&mut self, i: usize, c: Component)
        requires
            (i as nat) < old(self).rows@.len(),
        ensures
            final(self).rows@.len() == old(self).rows@.len(),
            final(self)@.next == old(self)@.next,
            final(self)@.comps == old(self)@.comps.insert(
                i as u64,
                old(self)@.comps[i as u64].insert(c.kind, c.value),
            ),
    {
        let row = &mut self.rows[i];
        row.push(c);
        proof {
            assert(self.rows.len() == self.rows@.len());
            lemma_comps_map_push(old(self).rows@[i as int]@, c);
            assert(self@.comps =~= old(self)@.comps.insert(
                i as u64,
                old(self)@.comps[i as u64].insert(c.kind, c.value),
            ));
        }
    }

    /// Attaches every component of the bundle to the entity in row `i`, in
    /// bundle order, a later kind overwriting an earlier equal one.
    fn attach_all(&mut self, i: usize, bundle: &Bundle)
        requires
            (i as nat) < old(self).rows@.len(),
        ensures
            final(self).rows@.len() == old(self).rows@.len(),
            final(self)@.next == old(self)@.next,
            final(self)@.comps == old(self)@.comps.insert(
                i as u64,
                old(self)@.comps[i as u64].union_prefer_right(comps_map(bundle@)),
            ),
    {
        let n = bundle.components.len();
        proof {
            assert(self.rows.len() == self.rows@.len());
            assert(bundle@.take(0) =~= Seq::<Component>::empty());
            assert(old(self)@.comps[i as u64].union_prefer_right(comps_map(bundle@.take(0))) =~= old(
                self,
            )@.comps[i as u64]);
            assert(old(self)@.comps.insert(i as u64, old(self)@.comps[i as u64]) =~= old(
                self,
            )@.comps);
        }
        let mut j: usize = 0;
        while j < n
            invariant
                j <= n,
                n == bundle@.len(),
                (i as nat) < self.rows@.len(),
                self.rows@.len() == old(self).rows@.len(),
                self@.next == old(self)@.next,
                self@.comps == old(self)@.comps.insert(
                    i as u64,
                    old(self)@.comps[i as u64].union_prefer_right(
                        comps_map(bundle@.take(j as int)),
                    ),
                ),
            decreases n - j,
        {
            let ghost pre = self@.comps;
            let c = bundle.components[j];
            self.attach(i, c);
            proof {
                lemma_comps_map_take_step(bundle@, j as int);
                assert(pre[i as u64].insert(c.kind, c.value) =~= old(self)@.comps[i as u64]
                    .union_prefer_right(comps_map(bundle@.take(j as int + 1))));
                assert(pre.insert(i as u64, pre[i as u64].insert(c.kind, c.value))
                    =~= old(self)@.comps.insert(i as u64, pre[i as u64].insert(c.kind, c.value)));
                assert(self@.comps == pre.insert(i as u64, pre[i as u64].insert(c.kind, c.value)));
            }
            j += 1;
        }
        proof {
            assert(bundle@.take(n as int) =~= bundle@);
        }
    }

    /// Issues a fresh, previously unused identifier and creates the entity
    /// behind it, carrying no components yet.
    pub fn reserve_entity(&mut self) -> (e: Entity)
        ensures
            e == Entity::spec_from_id(old(self)@.next),
            e.id() == old(self)@.next,
            !old(self)@.comps.contains_key(e.id()),
            final(self)@.next == old(self)@.next + 1,
            final(self)@.comps == old(self)@.comps.insert(e.id(), Map::<u64, u64>::empty()),
    {
        let id = self.rows.len() as u64;
        let e = Entity::from_id(id);
        self.rows.push(Vec::new());
        proof {
            assert(self.rows.len() == self.rows@.len());
            assert(self@.comps =~= old(self)@.comps.insert(e.id(), Map::<u64, u64>::empty()));
        }
        e
    }

    /// Attaches one component to the given entity, overwriting the value of
    /// that component's kind if the entity already carries it; fails, leaving
    /// the store unchanged, exactly when the entity does not exist.
    pub fn insert_one(&mut self, entity: Entity, component: Component) -> (r: Result<
        (),
        NoSuchEntity,
    >)
        ensures
            r is Ok <==> old(self)@.comps.contains_key(entity.id()),
            old(self)@.comps.contains_key(entity.id()) ==> final(self)@.next == old(self)@.next
                && final(self)@.comps == old(self)@.comps.insert(
                entity.id(),
                old(self)@.comps[entity.id()].insert(component.kind, component.value),
            ),
            !old(self)@.comps.contains_key(entity.id()) ==> *final(self) == *old(self),
    {
        let id = entity.to_id();
        if id < self.rows.len() as u64 {
            self.attach(id as usize, component);
            Ok(())
        } else {
            Err(NoSuchEntity)
        }
    }

    /// Atomically attaches a whole bundle to the given entity, in bundle
    /// order; fails, leaving the store unchanged, exactly when the entity does
    /// not exist.
    pub fn insert(&mut self, entity: Entity, bundle: Bundle) -> (r: Result<(), NoSuchEntity>)
        ensures
            r is Ok <==> old(self)@.comps.contains_key(entity.id()),
            old(self)@.comps.contains_key(entity.id()) ==> final(self)@.next == old(self)@.next
                && final(self)@.comps == old(self)@.comps.insert(
                entity.id(),
                old(self)@.comps[entity.id()].union_prefer_right(comps_map(bundle@)),
            ),
            !old(self)@.comps.contains_key(entity.id()) ==> *final(self) == *old(self),
    {
        let id = entity.to_id();
        if id < self.rows.len() as u64 {
            self.attach_all(id as usize, &bundle);
            Ok(())
        } else {
            Err(NoSuchEntity)
        }
    }

    /// Creates a brand-new entity already carrying exactly the bundle's
    /// components, and returns its fresh identifier.
    pub fn spawn(&mut self, bundle: Bundle) -> (e: Entity)
        ensures
            e == Entity::spec_from_id(old(self)@.next),
            e.id() == old(self)@.next,
            !old(self)@.comps.contains_key(e.id()),
            final(self)@.next == old(self)@.next + 1,
            final(self)@.comps == old(self)@.comps.insert(e.id(), comps_map(bundle@)),
    {
        self.spawn_ref(&bundle)
    }

    /// `spawn`, taking the bundle by reference.
    fn spawn_ref(&mut self, bundle: &Bundle) -> (e: Entity)
        ensures
            e == Entity::spec_from_id(old(self)@.next),
            e.id() == old(self)@.next,
            !old(self)@.comps.contains_key(e.id()),
            final(self)@.next == old(self)@.next + 1,
            final(self)@.comps == old(self)@.comps.insert(e.id(), comps_map(bundle@)),
    {
        let i = self.rows.len();
        let e = self.reserve_entity();
        let ghost mid = self@.comps;
        self.attach_all(i, bundle);
        proof {
            assert(mid[i as u64].union_prefer_right(comps_map(bundle@)) =~= comps_map(bundle@));
            assert(self@.comps == mid.insert(i as u64, comps_map(bundle@)));
            assert(self@.comps =~= old(self)@.comps.insert(e.id(), comps_map(bundle@)));
        }
        e
    }

    /// Spawns one entity per bundle, in sequence order; the `k`-th bundle of
    /// the sequence populates the entity whose identifier is the `k`-th one
    /// issued.
    pub fn spawn_batch(&mut self, bundles: Vec<Bundle>)
        ensures
            final(self)@.next == old(self)@.next + bundles@.len(),
            forall|id: u64|
                old(self)@.next <= id < old(self)@.next + bundles@.len()
                    ==> #[trigger] final(self)@.comps.contains_key(id),
            forall|k: int|
                0 <= k < bundles@.len() ==> final(self)@.comps[(old(self)@.next + k) as u64]
                    == #[trigger] comps_map(bundles@[k]@),
            forall|id: u64|
                #[trigger] old(self)@.comps.contains_key(id) ==> final(self)@.comps.contains_key(
                    id,
                ) && final(self)@.comps[id] == old(self)@.comps[id],
            forall|id: u64|
                #[trigger] final(self)@.comps.contains_key(id) ==> old(self)@.comps.contains_key(
                    id,
                ) || (old(self)@.next <= id < old(self)@.next + bundles@.len()),
    {
        let n = bundles.len();
        let mut k: usize = 0;
        while k < n
            invariant
                k <= n,
                n == bundles@.len(),
                self@.next == old(self)@.next + k,
                forall|j: int|
                    0 <= j < k ==> self@.comps.contains_key((old(self)@.next + j) as u64)
                        && self@.comps[(old(self)@.next + j) as u64] == #[trigger] comps_map(
                        bundles@[j]@,
                    ),
                forall|id: u64|
                    #[trigger] old(self)@.comps.contains_key(id) ==> self@.comps.contains_key(id)
                        && self@.comps[id] == old(self)@.comps[id],
                forall|id: u64|
                    #[trigger] self@.comps.contains_key(id) ==> old(self)@.comps.contains_key(id)
                        || (old(self)@.next <= id < old(self)@.next + k),
            decreases n - k,
        {
            proof {
                old(self).lemma_comps_dom();
            }
            self.spawn_ref(&bundles[k]);
            k += 1;
        }
        proof {
            self.lemma_comps_dom();
        }
    }

    /// The value the entity carries for the given component kind: `Some`
    /// exactly when the entity exists and carries that kind.
    pub fn get(&self, entity: Entity, kind: u64) -> (r: Option<u64>)
        ensures
            (match r {
                Some(v) => self@.comps.contains_key(entity.id())
                    && self@.comps[entity.id()].contains_key(kind)
                    && self@.comps[entity.id()][kind] == v,
                None => !self@.comps.contains_key(entity.id())
                    || !self@.comps[entity.id()].contains_key(kind),
            }),
    {
        let id = entity.to_id();
        if id < self.rows.len() as u64 {
            let row = &self.rows[id as usize];
            let n = row.len();
            let mut j: usize = 0;
            let mut found: Option<u64> = None;
            proof {
                assert(row@.take(0) =~= Seq::<Component>::empty());
            }
            while j < n
                invariant
                    j <= n,
                    n == row@.len(),
                    row@ == self.rows@[entity.id() as int]@,
                    (match found {
                        Some(v) => comps_map(row@.take(j as int)).contains_key(kind)
                            && comps_map(row@.take(j as int))[kind] == v,
                        None => !comps_map(row@.take(j as int)).contains_key(kind),
                    }),
                decreases n - j,
            {
                let c = row[j];
                proof {
                    lemma_comps_map_take_step(row@, j as int);
                }
                if c.kind == kind {
                    found = Some(c.value);
                }
                j += 1;
            }
            proof {
                assert(row@.take(n as int) =~= row@);
            }
            found
        } else {
            proof {
                assert(self.rows.len() == self.rows@.len());
            }
            None
        }
    }

    /// Whether the entity exists in the store.
    pub fn contains(&self, entity: Entity) -> (r: bool)
        ensures
            r == self@.comps.contains_key(entity.id()),
    {
        let id = entity.to_id();
        id < self.rows.len() as u64
    }

    /// How many entities the store has created so far; also the identifier it
    /// will issue next.
    pub fn entity_count(&self) -> (n: u64)
        ensures
            n == self@.next,
    {
        self.rows.len() as u64
    }
}

} // verus!
