//! The world: entity bookkeeping, component storages, and the invariant that
//! ties them together.
//!
//! For every entity and every registered component type, the entity's mask
//! has the type's bit set exactly when the type's storage holds a value for
//! that entity. Insert and remove update mask and storage together; spawn
//! hands out a builder that owns the entity bookkeeping for its whole scope,
//! so nothing can observe an entity mid-construction.

use vstd::prelude::*;
use crate::component::{Component, CompView, VARIANT_COUNT};
use crate::entity::{
    Entity,
    EntityContainer,
    EntityInfo,
    has_bit,
    lemma_clear_bit,
    lemma_set_bit,
    lemma_zero_mask,
};
use crate::schedule::ScheduleBlock;
use crate::storage::{ComponentsContainer, LockState, ReadStorage, WriteStorage};

verus! {

/// The mask/storage invariant for one component type: an entity's bit is set
/// exactly when the storage holds the entity, and the storage holds only
/// registered entities.
pub open spec fn coupled(em: Map<u64, EntityInfo>, sm: Map<u64, CompView>, v: u32) -> bool {
    &&& forall|e: u64| #[trigger]
        em.contains_key(e) ==> (has_bit(em[e].components, v) <==> sm.contains_key(e))
    &&& forall|e: u64| #[trigger] sm.contains_key(e) ==> em.contains_key(e)
}

/// Ghost snapshot of a world's data: entity masks, storage contents, the
/// singleton's identity and the next identity to issue.
#[verifier::ext_equal]
pub struct WorldSnap {
    pub entities: Map<u64, EntityInfo>,
    pub stores: Seq<Map<u64, CompView>>,
    pub singleton: u64,
    pub next: u64,
}

/// Composes the entity container and the component storages; the single
/// entry point for spawning entities, attaching and detaching components,
/// and stepping the simulation.
pub struct World {
    entities: Option<EntityContainer>,
    components: ComponentsContainer,
    /// The entity created with the world, for components that have exactly
    /// one process-wide instance.
    pub singleton: Entity,
    schedule: ScheduleBlock,
}

impl World {
    /// The entity bookkeeping is in the world (no spawn builder is out).
    pub closed spec fn entities_available(&self) -> bool {
        self.entities is Some
    }

    /// The mapping from entity identity to mask.
    pub closed spec fn entity_map(&self) -> Map<u64, EntityInfo> {
        match self.entities {
            Some(c) => c@,
            None => Map::<u64, EntityInfo>::empty(),
        }
    }

    /// The next entity identity to be issued.
    pub closed spec fn entity_next(&self) -> u64 {
        match self.entities {
            Some(c) => c.next_id(),
            None => 0,
        }
    }

    /// The identity of the singleton entity.
    pub closed spec fn singleton_id(&self) -> u64 {
        self.singleton.id
    }

    /// The singleton entity, the conventional home of process-wide
    /// components.
    pub fn singleton_entity(&self) -> (r: Entity)
        ensures
            r.id == self.singleton_id(),
    {
        self.singleton
    }

    /// The access state of every storage slot.
    pub closed spec fn locks(&self) -> Seq<LockState> {
        self.components.locks()
    }

    /// The contents of every storage slot; `None` while write-locked.
    pub closed spec fn stores(&self) -> Seq<Option<Map<u64, CompView>>> {
        self.components.stores()
    }

    /// How many component types are registered.
    pub open spec fn n_variants(&self) -> int {
        self.locks().len() as int
    }

    /// The contents of one slot; the empty map while write-locked.
    pub open spec fn store_map(&self, v: int) -> Map<u64, CompView> {
        match self.stores()[v] {
            Some(m) => m,
            None => Map::<u64, CompView>::empty(),
        }
    }

    /// The systems the world runs each step, in order.
    pub closed spec fn sched(&self) -> Seq<crate::schedule::SystemKind> {
        self.schedule@
    }

    /// Containers are well formed, the singleton is registered, and every
    /// slot that is home holds a storage coupled with the masks.
    pub closed spec fn wf(&self) -> bool {
        &&& self.components.wf()
        &&& self.components.n_slots() == VARIANT_COUNT
        &&& match self.entities {
            Some(c) => {
                &&& c.wf()
                &&& c@.contains_key(self.singleton.id)
                &&& forall|v: int|
                    0 <= v < self.n_variants() ==> ((#[trigger] self.stores()[v]) is Some
                        ==> coupled(c@, self.store_map(v), v as u32))
            },
            None => true,
        }
    }

    /// No access is outstanding: the bookkeeping is home and every slot is
    /// free.
    pub open spec fn idle(&self) -> bool {
        &&& self.entities_available()
        &&& forall|i: int| 0 <= i < self.n_variants() ==> #[trigger] self.locks()[i] is Free
    }

    /// Well formed and idle: the state between steps and between calls.
    pub open spec fn ready(&self) -> bool {
        &&& self.wf()
        &&& self.idle()
        &&& self.n_variants() == VARIANT_COUNT
        &&& self.entity_map().contains_key(self.singleton_id())
    }

    /// The world's data, for speaking about whole steps.
    pub open spec fn snap(&self) -> WorldSnap {
        WorldSnap {
            entities: self.entity_map(),
            stores: Seq::new(self.n_variants() as nat, |v: int| self.store_map(v)),
            singleton: self.singleton_id(),
            next: self.entity_next(),
        }
    }

    /// A fresh world: the given schedule, one storage per registered type,
    /// and the singleton pre-spawned with an empty mask.
    pub fn new(schedule: ScheduleBlock) -> (r: World)
        ensures
            r.ready(),
            r.n_variants() == VARIANT_COUNT,
            r.singleton_id() == 0,
            r.entity_map() == Map::<u64, EntityInfo>::empty().insert(
                0u64,
                EntityInfo { components: 0u32 },
            ),
            r.entity_next() == 1,
            forall|v: int|
                0 <= v < VARIANT_COUNT ==> r.stores()[v] == Some(Map::<u64, CompView>::empty()),
            r.sched() == schedule@,
    {
        let mut entities = EntityContainer::new();
        let singleton = entities.issue();
        entities.insert(singleton, EntityInfo::default());
        let components = ComponentsContainer::new(VARIANT_COUNT);
        let r = World { entities: Some(entities), components, singleton, schedule };
        proof {
            assert forall|j: u32| !has_bit(0u32, j) by {
                lemma_zero_mask(j);
            }
            assert(r.entity_map() =~= Map::<u64, EntityInfo>::empty().insert(
                0u64,
                EntityInfo { components: 0u32 },
            ));
        }
        r
    }

    /// How many entities are live.
    pub fn entity_count(&self) -> (r: usize)
        requires
            self.entities_available(),
        ensures
            r == self.entity_map().len(),
    {
        match &self.entities {
            Some(c) => c.len(),
            None => unreached(),
        }
    }

    /// Whether an entity is registered.
    pub fn contains_entity(&self, entity: Entity) -> (r: bool)
        requires
            self.entities_available(),
        ensures
            r == self.entity_map().contains_key(entity.id),
    {
        match &self.entities {
            Some(c) => c.contains(entity),
            None => unreached(),
        }
    }

    /// The membership mask of a registered entity.
    pub fn mask_of(&self, entity: Entity) -> (r: u32)
        requires
            self.entities_available(),
            self.entity_map().contains_key(entity.id),
        ensures
            r == self.entity_map()[entity.id].components,
    {
        match &self.entities {
            Some(c) => c.get(entity).components,
            None => unreached(),
        }
    }

    /// Whether a registered entity has the component with bit `variant`.
    pub fn has_component(&self, entity: Entity, variant: u32) -> (r: bool)
        requires
            self.entities_available(),
            self.entity_map().contains_key(entity.id),
            variant < 32,
        ensures
            r == has_bit(self.entity_map()[entity.id].components, variant),
    {
        let info = self.mask_of(entity);
        let mask = crate::component::to_mask(variant);
        info & mask == mask
    }

    /// Creates a fresh entity with an empty mask and hands out the builder,
    /// which owns the entity bookkeeping until [`World::finish`].
    pub fn spawn(&mut self) -> (r: EntityBuilder)
        requires
            old(self).wf(),
            old(self).entities_available(),
            old(self).entity_next() < u64::MAX,
        ensures
            final(self).wf(),
            !final(self).entities_available(),
            final(self).locks() == old(self).locks(),
            final(self).stores() == old(self).stores(),
            final(self).n_variants() == old(self).n_variants(),
            final(self).singleton_id() == old(self).singleton_id(),
            final(self).sched() == old(self).sched(),
            r.wf(),
            !old(self).entity_map().contains_key(r.built_id()),
            r.built_id() == old(self).entity_next(),
            r.entities_view() == old(self).entity_map().insert(
                r.built_id(),
                EntityInfo { components: 0u32 },
            ),
            r.next_view() == old(self).entity_next() + 1,
            forall|v: int|
                0 <= v < final(self).n_variants() ==> ((#[trigger] final(self).stores()[v]) is Some
                    ==> coupled(r.entities_view(), final(self).store_map(v), v as u32)),
    {
        let mut taken: Option<EntityContainer> = None;
        core::mem::swap(&mut taken, &mut self.entities);
        match taken {
            Some(mut entities) => {
                let entity = entities.issue();
                entities.insert(entity, EntityInfo::default());
                let r = EntityBuilder { entities, entity };
                proof {
                    assert forall|j: u32| !has_bit(0u32, j) by {
                        lemma_zero_mask(j);
                    }
                }
                r
            },
            None => unreached(),
        }
    }

    /// Ends a builder's scope: the bookkeeping comes home and the built
    /// entity is returned.
    pub fn finish(&mut self, builder: EntityBuilder) -> (r: Entity)
        requires
            old(self).wf(),
            !old(self).entities_available(),
            builder.wf(),
            forall|v: int|
                0 <= v < old(self).n_variants() ==> ((#[trigger] old(self).stores()[v]) is Some
                    ==> coupled(builder.entities_view(), old(self).store_map(v), v as u32)),
            builder.entities_view().contains_key(old(self).singleton_id()),
        ensures
            final(self).wf(),
            final(self).entities_available(),
            final(self).entity_map() == builder.entities_view(),
            final(self).entity_next() == builder.next_view(),
            final(self).locks() == old(self).locks(),
            final(self).stores() == old(self).stores(),
            final(self).n_variants() == old(self).n_variants(),
            final(self).singleton_id() == old(self).singleton_id(),
            final(self).sched() == old(self).sched(),
            r.id == builder.built_id(),
    {
        let EntityBuilder { entities, entity } = builder;
        self.entities = Some(entities);
        entity
    }

    /// Acquires a shared-read token for a component type's slot; succeeds
    /// exactly when no writer holds it and the reader count has room.
    pub fn read(&mut self, variant: u32) -> (r: Option<ReadStorage>)
        requires
            old(self).wf(),
            (variant as int) < old(self).n_variants(),
        ensures
            final(self).wf(),
            final(self).entities_available() == old(self).entities_available(),
            final(self).entity_map() == old(self).entity_map(),
            final(self).entity_next() == old(self).entity_next(),
            final(self).n_variants() == old(self).n_variants(),
            final(self).stores() == old(self).stores(),
            final(self).singleton_id() == old(self).singleton_id(),
            final(self).sched() == old(self).sched(),
            r is Some <==> crate::storage::read_grant(old(self).locks()[variant as int]) is Some,
            (r matches Some(t) ==> t.variant_id() == variant && (crate::storage::read_grant(
                old(self).locks()[variant as int],
            ) matches Some(l2) && final(self).locks() == old(self).locks().update(
                variant as int,
                l2,
            ))),
            r is None ==> final(self).locks() == old(self).locks(),
    {
        self.components.read(variant)
    }

    /// Acquires the exclusive writer of a component type's slot; succeeds
    /// exactly when nobody holds it. The handle carries the slot's contents,
    /// coupled with the masks whenever the bookkeeping is home.
    pub fn write(&mut self, variant: u32) -> (r: Option<WriteStorage>)
        requires
            old(self).wf(),
            (variant as int) < old(self).n_variants(),
        ensures
            final(self).wf(),
            final(self).entities_available() == old(self).entities_available(),
            final(self).entity_map() == old(self).entity_map(),
            final(self).entity_next() == old(self).entity_next(),
            final(self).n_variants() == old(self).n_variants(),
            final(self).singleton_id() == old(self).singleton_id(),
            final(self).sched() == old(self).sched(),
            r is Some <==> old(self).locks()[variant as int] is Free,
            (r matches Some(ws) ==> ws.wf() && ws.variant_id() == variant && old(
                self,
            ).stores()[variant as int] == Some(ws@) && final(self).locks() == old(
                self,
            ).locks().update(variant as int, LockState::Writer) && final(self).stores() == old(
                self,
            ).stores().update(variant as int, None::<Map<u64, CompView>>) && (old(
                self,
            ).entities_available() ==> coupled(old(self).entity_map(), ws@, variant))),
            r is None ==> final(self).locks() == old(self).locks() && final(self).stores() == old(
                self,
            ).stores(),
    {
        let r = self.components.write(variant);
        proof {
            crate::storage::lemma_container_shape(&old(self).components);
            crate::storage::lemma_container_shape(&self.components);
            match &self.entities {
                Some(c) => {
                    assert forall|v2: int|
                        0 <= v2 < self.n_variants() && (#[trigger] self.stores()[v2]) is Some
                        implies coupled(c@, self.store_map(v2), v2 as u32) by {
                        if r is Some {
                            if v2 != variant as int {
                                assert(self.stores()[v2] == old(self).stores()[v2]);
                            }
                        } else {
                            assert(self.stores()[v2] == old(self).stores()[v2]);
                        }
                        assert(coupled(c@, old(self).store_map(v2), v2 as u32));
                    }
                },
                None => {},
            }
        }
        r
    }

    /// Reads one entity's component through a shared-read token.
    pub fn get<'a>(&'a self, token: &ReadStorage, entity: Entity) -> (r: Option<&'a Component>)
        requires
            self.wf(),
            (token.variant_id() as int) < self.n_variants(),
            self.locks()[token.variant_id() as int] matches LockState::Readers(_),
        ensures
            match r {
                Some(c) => self.store_map(token.variant_id() as int).contains_key(entity.id)
                    && self.store_map(token.variant_id() as int)[entity.id] == c@ && c.wf()
                    && c.variant_id() == token.variant_id(),
                None => !self.store_map(token.variant_id() as int).contains_key(entity.id),
            },
    {
        self.components.get(token, entity)
    }

    /// Returns a shared-read token; the last reader out frees the slot.
    pub fn release_read(&mut self, token: ReadStorage)
        requires
            old(self).wf(),
            (token.variant_id() as int) < old(self).n_variants(),
            old(self).locks()[token.variant_id() as int] matches LockState::Readers(_),
        ensures
            final(self).wf(),
            final(self).entities_available() == old(self).entities_available(),
            final(self).entity_map() == old(self).entity_map(),
            final(self).entity_next() == old(self).entity_next(),
            final(self).n_variants() == old(self).n_variants(),
            final(self).stores() == old(self).stores(),
            final(self).singleton_id() == old(self).singleton_id(),
            final(self).sched() == old(self).sched(),
            final(self).locks() == old(self).locks().update(
                token.variant_id() as int,
                crate::storage::read_release(old(self).locks()[token.variant_id() as int]),
            ),
    {
        self.components.release_read(token)
    }

    /// Returns a write handle: its contents become the slot's contents again
    /// and the slot is freed. While the bookkeeping is home the handle must
    /// be coupled with the masks, which every path through insert and remove
    /// preserves.
    pub fn release_write(&mut self, handle: WriteStorage)
        requires
            old(self).wf(),
            (handle.variant_id() as int) < old(self).n_variants(),
            old(self).locks()[handle.variant_id() as int] is Writer,
            handle.wf(),
            old(self).entities_available() ==> coupled(
                old(self).entity_map(),
                handle@,
                handle.variant_id(),
            ),
        ensures
            final(self).wf(),
            final(self).entities_available() == old(self).entities_available(),
            final(self).entity_map() == old(self).entity_map(),
            final(self).entity_next() == old(self).entity_next(),
            final(self).n_variants() == old(self).n_variants(),
            final(self).singleton_id() == old(self).singleton_id(),
            final(self).sched() == old(self).sched(),
            final(self).locks() == old(self).locks().update(
                handle.variant_id() as int,
                LockState::Free,
            ),
            final(self).stores() == old(self).stores().update(
                handle.variant_id() as int,
                Some(handle@),
            ),
    {
        let ghost hv = handle.variant_id() as int;
        let ghost hview = handle@;
        self.components.release_write(handle);
        proof {
            crate::storage::lemma_container_shape(&old(self).components);
            crate::storage::lemma_container_shape(&self.components);
            match &self.entities {
                Some(c) => {
                    assert forall|v2: int|
                        0 <= v2 < self.n_variants() && (#[trigger] self.stores()[v2]) is Some
                        implies coupled(c@, self.store_map(v2), v2 as u32) by {
                        if v2 == hv {
                            assert(self.stores()[v2] == Some(hview));
                            assert(coupled(c@, hview, v2 as u32));
                        } else {
                            assert(self.stores()[v2] == old(self).stores()[v2]);
                            assert(coupled(c@, old(self).store_map(v2), v2 as u32));
                        }
                    }
                },
                None => {},
            }
        }
    }

    /// Attaches a component to a registered entity, through a held write
    /// handle of the component's type: any stale value is removed first,
    /// the new value is stored, and the mask bit is set, as one unit.
    pub fn insert(&mut self, storage: &mut WriteStorage, entity: Entity, t: Component)
        requires
            old(self).wf(),
            old(self).entities_available(),
            old(self).entity_map().contains_key(entity.id),
            old(storage).wf(),
            t.variant_id() == old(storage).variant_id(),
            t.wf(),
            (old(storage).variant_id() as int) < old(self).n_variants(),
            old(self).locks()[old(storage).variant_id() as int] is Writer,
            coupled(old(self).entity_map(), old(storage)@, old(storage).variant_id()),
        ensures
            final(self).wf(),
            final(self).entities_available(),
            final(self).entity_map() == old(self).entity_map().insert(
                entity.id,
                EntityInfo {
                    components: old(self).entity_map()[entity.id].components | (1u32 << old(
                        storage,
                    ).variant_id()),
                },
            ),
            final(self).entity_next() == old(self).entity_next(),
            final(self).locks() == old(self).locks(),
            final(self).stores() == old(self).stores(),
            final(self).n_variants() == old(self).n_variants(),
            final(self).singleton_id() == old(self).singleton_id(),
            final(self).sched() == old(self).sched(),
            final(storage).wf(),
            final(storage).variant_id() == old(storage).variant_id(),
            final(storage)@ == old(storage)@.insert(entity.id, t@),
            coupled(final(self).entity_map(), final(storage)@, old(storage).variant_id()),
    {
        let ghost v = old(storage).variant_id();
        let mut taken: Option<EntityContainer> = None;
        core::mem::swap(&mut taken, &mut self.entities);
        match taken {
            Some(mut entities) => {
                proof {
                    crate::storage::lemma_write_storage_variant(storage);
                }
                let info = entities.get(entity);
                let mask = crate::component::to_mask(storage.variant());
                if info.components & mask == mask {
                    storage.remove_value(entity);
                }
                entities.set(entity, EntityInfo { components: info.components | mask });
                storage.insert_value(entity, t);
                self.entities = Some(entities);
                proof {
                    crate::storage::lemma_container_shape(&self.components);
                    assert(storage@ =~= old(storage)@.insert(entity.id, t@));
                    let em0 = old(self).entity_map();
                    let em1 = self.entity_map();
                    assert(em1 =~= em0.insert(
                        entity.id,
                        EntityInfo { components: em0[entity.id].components | (1u32 << v) },
                    ));
                    assert forall|e: u64, w: u32| #![all_triggers]
                        em1.contains_key(e) ==> has_bit(em1[e].components, w) == (has_bit(
                        em0[e].components,
                        w,
                    ) || (e == entity.id && w == v)) by {
                        lemma_set_bit(em0[entity.id].components, v, w);
                    }
                    assert(coupled(em1, storage@, v));
                    assert forall|w: int|
                        0 <= w < self.n_variants() && (#[trigger] self.stores()[w]) is Some
                        implies coupled(em1, self.store_map(w), w as u32) by {
                        assert(old(self).stores()[w] == self.stores()[w]);
                        assert(coupled(em0, self.store_map(w), w as u32));
                        assert(w != v as int) by {
                            assert(old(self).locks()[v as int] is Writer);
                            crate::storage::lemma_writer_slot_empty(&old(self).components, w);
                            crate::storage::lemma_writer_slot_empty(&old(self).components, v as int);
                        }
                    }
                }
            },
            None => unreached(),
        }
    }

    /// Detaches a component from a registered entity, through a held write
    /// handle of the component's type. Returns whether the component was
    /// present just before the call; when it was not, nothing changes.
    pub fn remove(&mut self, storage: &mut WriteStorage, entity: Entity) -> (r: bool)
        requires
            old(self).wf(),
            old(self).entities_available(),
            old(self).entity_map().contains_key(entity.id),
            old(storage).wf(),
            (old(storage).variant_id() as int) < old(self).n_variants(),
            old(self).locks()[old(storage).variant_id() as int] is Writer,
            coupled(old(self).entity_map(), old(storage)@, old(storage).variant_id()),
        ensures
            final(self).wf(),
            final(self).entities_available(),
            r == has_bit(
                old(self).entity_map()[entity.id].components,
                old(storage).variant_id(),
            ),
            r ==> final(self).entity_map() == old(self).entity_map().insert(
                entity.id,
                EntityInfo {
                    components: old(self).entity_map()[entity.id].components & !(1u32 << old(
                        storage,
                    ).variant_id()),
                },
            ) && final(storage)@ == old(storage)@.remove(entity.id),
            !r ==> final(self).entity_map() == old(self).entity_map() && final(storage)@ == old(
                storage,
            )@,
            final(self).entity_next() == old(self).entity_next(),
            final(self).locks() == old(self).locks(),
            final(self).stores() == old(self).stores(),
            final(self).n_variants() == old(self).n_variants(),
            final(self).singleton_id() == old(self).singleton_id(),
            final(self).sched() == old(self).sched(),
            final(storage).wf(),
            final(storage).variant_id() == old(storage).variant_id(),
            coupled(final(self).entity_map(), final(storage)@, old(storage).variant_id()),
    {
        let ghost v = old(storage).variant_id();
        let mut taken: Option<EntityContainer> = None;
        core::mem::swap(&mut taken, &mut self.entities);
        match taken {
            Some(mut entities) => {
                proof {
                    crate::storage::lemma_write_storage_variant(storage);
                }
                let info = entities.get(entity);
                let mask = crate::component::to_mask(storage.variant());
                if info.components & mask == mask {
                    entities.set(entity, EntityInfo { components: info.components & !mask });
                    let had = storage.remove_value(entity);
                    self.entities = Some(entities);
                    proof {
                        crate::storage::lemma_container_shape(&self.components);
                        let em0 = old(self).entity_map();
                        let em1 = self.entity_map();
                        assert(em1 =~= em0.insert(
                            entity.id,
                            EntityInfo { components: (em0[entity.id].components & !(1u32 << v)) },
                        ));
                        assert forall|e: u64, w: u32| #![all_triggers]
                            em1.contains_key(e) ==> has_bit(em1[e].components, w) == (has_bit(
                            em0[e].components,
                            w,
                        ) && !(e == entity.id && w == v)) by {
                            lemma_clear_bit(em0[entity.id].components, v, w);
                        }
                        assert(coupled(em1, storage@, v));
                        assert forall|w: int|
                            0 <= w < self.n_variants() && (#[trigger] self.stores()[w]) is Some
                            implies coupled(em1, self.store_map(w), w as u32) by {
                            assert(old(self).stores()[w] == self.stores()[w]);
                            assert(coupled(old(self).entity_map(), self.store_map(w), w as u32));
                            assert(w != v as int) by {
                                assert(old(self).locks()[v as int] is Writer);
                                crate::storage::lemma_writer_slot_empty(&old(self).components, w);
                                crate::storage::lemma_writer_slot_empty(&old(self).components, v as int);
                            }
                        }
                    }
                    had
                } else {
                    self.entities = Some(entities);
                    false
                }
            },
            None => unreached(),
        }
    }

    /// One simulation step: runs every system of the schedule once, in
    /// schedule order.
    pub fn step(&mut self, dt: i64)
        requires
            old(self).ready(),
        ensures
            final(self).ready(),
            final(self).snap() == crate::schedule::schedule_apply(
                old(self).sched(),
                old(self).snap(),
                dt,
            ),
            final(self).sched() == old(self).sched(),
            final(self).n_variants() == old(self).n_variants(),
            final(self).singleton_id() == old(self).singleton_id(),
    {
        let mut sched = ScheduleBlock::new();
        core::mem::swap(&mut sched, &mut self.schedule);
        proof {
            assert(self.snap() =~~= old(self).snap());
        }
        sched.execute(self, dt);
        let ghost post = self.snap();
        core::mem::swap(&mut sched, &mut self.schedule);
        proof {
            assert(self.snap() =~~= post);
        }
    }
}

impl Default for World {
    /// A world with an empty schedule.
    fn default() -> (r: World)
        ensures
            r.ready(),
            r.n_variants() == VARIANT_COUNT,
            r.singleton_id() == 0,
            r.entity_map() == Map::<u64, EntityInfo>::empty().insert(
                0u64,
                EntityInfo { components: 0u32 },
            ),
            r.sched() == Seq::<crate::schedule::SystemKind>::empty(),
    {
        World::new(ScheduleBlock::new())
    }
}

/// Owns the entity bookkeeping between [`World::spawn`] and
/// [`World::finish`], so no other caller can observe or mutate the new
/// entity's mask mid-construction.
pub struct EntityBuilder {
    entities: EntityContainer,
    /// The entity under construction.
    pub entity: Entity,
}

impl EntityBuilder {
    /// The mapping from entity identity to mask, as held by the builder.
    pub closed spec fn entities_view(&self) -> Map<u64, EntityInfo> {
        self.entities@
    }

    /// The identity of the entity under construction.
    pub closed spec fn built_id(&self) -> u64 {
        self.entity.id
    }

    /// The next entity identity to be issued.
    pub closed spec fn next_view(&self) -> u64 {
        self.entities.next_id()
    }

    pub closed spec fn wf(&self) -> bool {
        self.entities.wf() && self.entities@.contains_key(self.entity.id)
    }

    /// Attaches a component to the entity under construction, through a held
    /// write handle, with the same replace-then-set discipline as
    /// [`World::insert`].
    pub fn with(self, t: Component, storage: &mut WriteStorage) -> (r: EntityBuilder)
        requires
            self.wf(),
            old(storage).wf(),
            t.variant_id() == old(storage).variant_id(),
            t.wf(),
        ensures
            r.wf(),
            r.built_id() == self.built_id(),
            r.next_view() == self.next_view(),
            r.entities_view() == self.entities_view().insert(
                self.built_id(),
                EntityInfo {
                    components: self.entities_view()[self.built_id()].components | (1u32 << old(
                        storage,
                    ).variant_id()),
                },
            ),
            final(storage).wf(),
            final(storage).variant_id() == old(storage).variant_id(),
            final(storage)@ == old(storage)@.insert(self.built_id(), t@),
            coupled(self.entities_view(), old(storage)@, old(storage).variant_id()) ==> coupled(
                r.entities_view(),
                final(storage)@,
                old(storage).variant_id(),
            ),
            forall|w: u32, sm: Map<u64, CompView>|
                w != old(storage).variant_id() && #[trigger] coupled(self.entities_view(), sm, w)
                    ==> coupled(r.entities_view(), sm, w),
    {
        let ghost v = old(storage).variant_id();
        proof {
            crate::storage::lemma_write_storage_variant(storage);
        }
        let EntityBuilder { mut entities, entity } = self;
        let info = entities.get(entity);
        let mask = crate::component::to_mask(storage.variant());
        if info.components & mask == mask {
            entities.set(entity, EntityInfo { components: info.components & !mask });
            storage.remove_value(entity);
        }
        let info2 = entities.get(entity);
        entities.set(entity, EntityInfo { components: info2.components | mask });
        storage.insert_value(entity, t);
        let r = EntityBuilder { entities, entity };
        proof {
            let em0 = self.entities_view();
            let em1 = r.entities_view();
            let ghost m0: u32 = em0[entity.id].components;
            assert(((m0 & !(1u32 << v)) | (1u32 << v)) == (m0 | (1u32 << v))) by (bit_vector);
            assert(em1 =~= em0.insert(entity.id, EntityInfo { components: (m0 | (1u32 << v)) }));
            assert forall|e: u64, w: u32| #![all_triggers]
                em1.contains_key(e) ==> has_bit(em1[e].components, w) == (has_bit(
                em0[e].components,
                w,
            ) || (e == entity.id && w == v)) by {
                lemma_set_bit(em0[entity.id].components, v, w);
            }
        }
        r
    }

    /// The entity under construction, as it will be returned by
    /// [`World::finish`].
    pub fn built(&self) -> (r: Entity)
        ensures
            r.id == self.built_id(),
    {
        self.entity
    }
}

/// Insert idempotence under replace: inserting a component twice for one
/// entity leaves exactly one value there, the second one, just as one insert
/// of the second value would.
pub proof fn lemma_insert_replaces(sm: Map<u64, CompView>, e: u64, t1: CompView, t2: CompView)
    ensures
        sm.insert(e, t1).insert(e, t2) == sm.insert(e, t2),
        sm.insert(e, t2)[e] == t2,
        sm.insert(e, t2).dom() == sm.dom().insert(e),
{
    assert(sm.insert(e, t1).insert(e, t2) =~= sm.insert(e, t2));
    assert(sm.insert(e, t2).dom() =~= sm.dom().insert(e));
}

/// A well-formed world has one storage slot and one lock per registered
/// component type.
pub proof fn lemma_world_shape(w: &World)
    requires
        w.wf(),
    ensures
        w.stores().len() == w.n_variants(),
        w.locks().len() == w.n_variants(),
        w.n_variants() == VARIANT_COUNT,
{
    crate::storage::lemma_container_shape(&w.components);
}

/// The mask/storage invariant, read off a ready world: for every entity and
/// every registered component type, the entity's mask has the type's bit set
/// exactly when the type's storage holds the entity, and storages hold only
/// registered entities.
pub proof fn lemma_mask_matches_storage(w: &World, e: u64, v: u32)
    requires
        w.wf(),
        w.entities_available(),
        0 <= (v as int) < w.n_variants(),
        w.stores()[v as int] is Some,
    ensures
        w.entity_map().contains_key(e) ==> (has_bit(w.entity_map()[e].components, v) <==> w.store_map(
            v as int,
        ).contains_key(e)),
        w.store_map(v as int).contains_key(e) ==> w.entity_map().contains_key(e),
{
}

} // verus!
