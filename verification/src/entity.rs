//! Entity identities and the per-entity membership bookkeeping.
//!
//! An [`Entity`] is an opaque identity issued by the [`EntityContainer`],
//! which maps each live identity to an [`EntityInfo`]: a bitmask with one bit
//! per registered component type.

use vstd::prelude::*;
use std::collections::HashMap;

verus! {

broadcast use vstd::std_specs::hash::group_hash_axioms;

/// An opaque identity token. Unique for the lifetime of the container that
/// issued it; carries no payload of its own.
#[derive(Clone, Copy, PartialEq, Eq, Structural, Hash, Debug)]
pub struct Entity {
    pub id: u64,
}

/// Per-entity metadata: bit `i` of `components` is set exactly when the
/// storage for component type `i` holds a value for this entity.
#[derive(Clone, Copy, PartialEq, Eq, Structural, Debug)]
pub struct EntityInfo {
    pub components: u32,
}

impl Default for EntityInfo {
    /// A fresh entity starts with no components attached.
    fn default() -> (r: EntityInfo)
        ensures
            r.components == 0u32,
    {
        EntityInfo { components: 0u32 }
    }
}

/// True when bit `i` of mask `m` is set; `false` for out-of-range bits.
pub open spec fn has_bit(m: u32, i: u32) -> bool {
    i < 32 && m & (1u32 << i) == (1u32 << i)
}

/// Setting bit `i` sets exactly that bit.
pub proof fn lemma_set_bit(m: u32, i: u32, j: u32)
    requires
        i < 32,
    ensures
        has_bit(m | (1u32 << i), j) == (has_bit(m, j) || i == j),
{
    if j < 32 {
        assert(((m | (1u32 << i)) & (1u32 << j) == (1u32 << j)) == ((m & (1u32 << j) == (1u32
            << j)) || i == j)) by (bit_vector)
            requires
                i < 32 && j < 32,
        ;
    }
}

/// Clearing bit `i` clears exactly that bit.
pub proof fn lemma_clear_bit(m: u32, i: u32, j: u32)
    requires
        i < 32,
    ensures
        has_bit(m & !(1u32 << i), j) == (has_bit(m, j) && i != j),
{
    if j < 32 {
        assert(((m & !(1u32 << i)) & (1u32 << j) == (1u32 << j)) == ((m & (1u32 << j) == (1u32
            << j)) && i != j)) by (bit_vector)
            requires
                i < 32 && j < 32,
        ;
    }
}

/// Setting a bit that is already set leaves the mask as it was.
pub proof fn lemma_set_bit_noop(m: u32, i: u32)
    requires
        i < 32,
        has_bit(m, i),
    ensures
        m | (1u32 << i) == m,
{
    assert(m & (1u32 << i) == (1u32 << i) ==> m | (1u32 << i) == m) by (bit_vector)
        requires
            i < 32,
    ;
}

/// The empty mask has no bit set.
pub proof fn lemma_zero_mask(j: u32)
    ensures
        !has_bit(0u32, j),
{
    if j < 32 {
        assert(0u32 & (1u32 << j) != (1u32 << j)) by (bit_vector)
            requires
                j < 32,
        ;
    }
}

/// Maps each live entity to its metadata and issues fresh identities from a
/// counter that only grows, so no identity is ever handed out twice.
pub struct EntityContainer {
    next_id: u64,
    map: HashMap<u64, EntityInfo>,
}

impl EntityContainer {
    /// The mapping from entity identity to metadata.
    pub closed spec fn view(&self) -> Map<u64, EntityInfo> {
        self.map@
    }

    /// The next identity the container will issue.
    pub closed spec fn next_id(&self) -> u64 {
        self.next_id
    }

    /// Every issued identity lies below the counter.
    pub closed spec fn wf(&self) -> bool {
        forall|k: u64| self.map@.contains_key(k) ==> k < self.next_id
    }

    /// Room remains for one more identity.
    pub open spec fn can_issue(&self) -> bool {
        self.next_id() < u64::MAX
    }

    pub fn new() -> (r: EntityContainer)
        ensures
            r.wf(),
            r@ == Map::<u64, EntityInfo>::empty(),
            r.next_id() == 0u64,
    {
        EntityContainer { next_id: 0u64, map: HashMap::new() }
    }

    /// Issues a fresh identity, which is not yet registered.
    pub fn issue(&mut self) -> (e: Entity)
        requires
            old(self).wf(),
            old(self).can_issue(),
        ensures
            final(self).wf(),
            final(self)@ == old(self)@,
            !final(self)@.contains_key(e.id),
            e.id == old(self).next_id(),
            final(self).next_id() == old(self).next_id() + 1,
    {
        let id = self.next_id;
        self.next_id = self.next_id + 1;
        Entity { id }
    }

    /// Registers a new entity with its initial mask. The identity must not
    /// already be present.
    pub fn insert(&mut self, entity: Entity, info: EntityInfo)
        requires
            old(self).wf(),
            !old(self)@.contains_key(entity.id),
            entity.id < old(self).next_id(),
        ensures
            final(self).wf(),
            final(self)@ == old(self)@.insert(entity.id, info),
            final(self).next_id() == old(self).next_id(),
    {
        self.map.insert(entity.id, info);
    }

    pub fn contains(&self, entity: Entity) -> (r: bool)
        ensures
            r == self@.contains_key(entity.id),
    {
        self.map.contains_key(&entity.id)
    }

    /// The metadata of a registered entity.
    pub fn get(&self, entity: Entity) -> (r: EntityInfo)
        requires
            self@.contains_key(entity.id),
        ensures
            r == self@[entity.id],
    {
        *self.map.get(&entity.id).unwrap()
    }

    /// Replaces the metadata of a registered entity.
    pub fn set(&mut self, entity: Entity, info: EntityInfo)
        requires
            old(self).wf(),
            old(self)@.contains_key(entity.id),
        ensures
            final(self).wf(),
            final(self)@ == old(self)@.insert(entity.id, info),
            final(self).next_id() == old(self).next_id(),
    {
        self.map.insert(entity.id, info);
    }

    /// How many entities are live.
    pub fn len(&self) -> (r: usize)
        ensures
            r == self@.len(),
    {
        self.map.len()
    }
}

} // verus!
