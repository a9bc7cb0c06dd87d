//! Per-type component storage, the scoped access handles, and the container
//! that mediates concurrent access to them.
//!
//! A [`Storage`] maps entity identities to values of exactly one registered
//! component variant. The [`ComponentsContainer`] owns one storage per
//! registered type, each slot independently lockable: many concurrent
//! readers, or one writer, never both. A write acquisition moves the slot's
//! storage into the returned [`WriteStorage`]; while a writer is out the slot
//! holds nothing, so nothing else can observe that type's data until release.
//! A [`ReadStorage`] is a shared token for a slot that is read-locked; the
//! data stays in the container while readers hold tokens.

use vstd::prelude::*;
use vstd::pervasive::VecAdditionalExecFns;
use std::collections::HashMap;
use crate::component::{Component, CompView};
use crate::entity::Entity;

verus! {

broadcast use vstd::std_specs::hash::group_hash_axioms;

/// Maps entities to values of a single component variant.
pub struct Storage {
    variant: u32,
    map: HashMap<u64, Component>,
}

impl Storage {
    /// The contents, entity identity to component view.
    pub closed spec fn view(&self) -> Map<u64, CompView> {
        Map::new(|k: u64| self.map@.contains_key(k), |k: u64| self.map@[k]@)
    }

    /// The variant this storage holds.
    pub closed spec fn variant_id(&self) -> u32 {
        self.variant
    }

    /// Every stored value is well formed and of this storage's variant.
    pub closed spec fn wf(&self) -> bool {
        self.variant < 32 && forall|k: u64| #[trigger]
            self.map@.contains_key(k) ==> self.map@[k].wf() && self.map@[k].variant_id()
                == self.variant
    }

    pub fn new(variant: u32) -> (r: Storage)
        requires
            variant < 32,
        ensures
            r.wf(),
            r.variant_id() == variant,
            r@ == Map::<u64, CompView>::empty(),
    {
        let r = Storage { variant, map: HashMap::new() };
        proof {
            assert(r@ =~= Map::<u64, CompView>::empty());
        }
        r
    }

    pub fn contains(&self, entity: Entity) -> (r: bool)
        ensures
            r == self@.contains_key(entity.id),
    {
        self.map.contains_key(&entity.id)
    }

    /// The stored value for an entity, if any.
    pub fn get(&self, entity: Entity) -> (r: Option<&Component>)
        requires
            self.wf(),
        ensures
            match r {
                Some(c) => self@.contains_key(entity.id) && self@[entity.id] == c@ && c.wf()
                    && c.variant_id() == self.variant_id(),
                None => !self@.contains_key(entity.id),
            },
    {
        self.map.get(&entity.id)
    }

    /// Stores a value, replacing and returning any earlier one.
    pub fn insert(&mut self, entity: Entity, t: Component) -> (r: Option<Component>)
        requires
            old(self).wf(),
            t.variant_id() == old(self).variant_id(),
            t.wf(),
        ensures
            final(self).wf(),
            final(self).variant_id() == old(self).variant_id(),
            final(self)@ == old(self)@.insert(entity.id, t@),
            match r {
                Some(c) => old(self)@.contains_key(entity.id) && old(self)@[entity.id] == c@
                    && c.wf() && c.variant_id() == old(self).variant_id(),
                None => !old(self)@.contains_key(entity.id),
            },
    {
        let r = self.map.insert(entity.id, t);
        proof {
            assert(final(self)@ =~= old(self)@.insert(entity.id, t@));
        }
        r
    }

    /// Removes an entity's value, returning whether one was present.
    pub fn remove(&mut self, entity: Entity) -> (r: bool)
        requires
            old(self).wf(),
        ensures
            final(self).wf(),
            final(self).variant_id() == old(self).variant_id(),
            final(self)@ == old(self)@.remove(entity.id),
            r == old(self)@.contains_key(entity.id),
    {
        let r = self.map.remove(&entity.id);
        proof {
            assert(final(self)@ =~= old(self)@.remove(entity.id));
        }
        r.is_some()
    }

    /// How many entities have a value here.
    pub fn len(&self) -> (r: usize)
        ensures
            r == self@.len(),
    {
        proof {
            assert(self@.dom() =~= self.map@.dom());
        }
        self.map.len()
    }
}

/// A shared-read token for one slot.
pub struct ReadStorage {
    pub(crate) variant: u32,
}

impl ReadStorage {
    /// The slot this token reads.
    pub closed spec fn variant_id(&self) -> u32 {
        self.variant
    }

    pub fn variant(&self) -> (r: u32)
        ensures
            r == self.variant_id(),
    {
        self.variant
    }
}

/// Exclusive ownership of one slot's storage while it is write-locked.
pub struct WriteStorage {
    pub(crate) storage: Storage,
}

impl WriteStorage {
    /// The contents, entity identity to component view.
    pub closed spec fn view(&self) -> Map<u64, CompView> {
        self.storage@
    }

    /// The slot this handle writes.
    pub closed spec fn variant_id(&self) -> u32 {
        self.storage.variant_id()
    }

    pub closed spec fn wf(&self) -> bool {
        self.storage.wf()
    }

    pub fn variant(&self) -> (r: u32)
        ensures
            r == self.variant_id(),
    {
        self.storage.variant
    }

    pub fn contains(&self, entity: Entity) -> (r: bool)
        ensures
            r == self@.contains_key(entity.id),
    {
        self.storage.contains(entity)
    }

    /// The stored value for an entity, if any.
    pub fn get(&self, entity: Entity) -> (r: Option<&Component>)
        requires
            self.wf(),
        ensures
            match r {
                Some(c) => self@.contains_key(entity.id) && self@[entity.id] == c@ && c.wf()
                    && c.variant_id() == self.variant_id(),
                None => !self@.contains_key(entity.id),
            },
    {
        self.storage.get(entity)
    }

    /// How many entities have a value here.
    pub fn len(&self) -> (r: usize)
        ensures
            r == self@.len(),
    {
        self.storage.len()
    }

    /// Stores a value; only the world's insert path uses this, together with
    /// the mask update.
    pub(crate) fn insert_value(&mut self, entity: Entity, t: Component)
        requires
            old(self).wf(),
            t.variant_id() == old(self).variant_id(),
            t.wf(),
        ensures
            final(self).wf(),
            final(self).variant_id() == old(self).variant_id(),
            final(self)@ == old(self)@.insert(entity.id, t@),
    {
        let _ = self.storage.insert(entity, t);
    }

    /// Drops a value; only the world's remove path uses this, together with
    /// the mask update.
    pub(crate) fn remove_value(&mut self, entity: Entity) -> (r: bool)
        requires
            old(self).wf(),
        ensures
            final(self).wf(),
            final(self).variant_id() == old(self).variant_id(),
            final(self)@ == old(self)@.remove(entity.id),
            r == old(self)@.contains_key(entity.id),
    {
        self.storage.remove(entity)
    }

    /// Replaces the value of an entity that already has one. The membership
    /// mask is unaffected because no key appears or disappears.
    pub fn replace(&mut self, entity: Entity, t: Component) -> (r: Component)
        requires
            old(self).wf(),
            old(self)@.contains_key(entity.id),
            t.variant_id() == old(self).variant_id(),
            t.wf(),
        ensures
            final(self).wf(),
            final(self).variant_id() == old(self).variant_id(),
            final(self)@ == old(self)@.insert(entity.id, t@),
            r@ == old(self)@[entity.id],
            r.wf(),
            r.variant_id() == old(self).variant_id(),
    {
        let r = self.storage.insert(entity, t);
        match r {
            Some(c) => c,
            None => unreached(),
        }
    }
}



/// Read/write exclusivity on one slot: in the state a write grant leaves
/// behind, no second writer and no reader is granted until release; in a
/// state readers hold, further readers are granted (while the count has
/// room) but no writer is.
pub proof fn lemma_access_exclusion(locks: Seq<LockState>, v: int)
    requires
        0 <= v < locks.len(),
    ensures
        !(locks.update(v, LockState::Writer)[v] is Free),
        read_grant(locks.update(v, LockState::Writer)[v]) is None,
        forall|n: usize| !(LockState::Readers(n) is Free),
        forall|n: usize|
            n < usize::MAX ==> #[trigger] read_grant(LockState::Readers(n)) == Some(
                LockState::Readers((n + 1) as usize),
            ),
{
}

/// Cross-type independence: granting a writer on one slot leaves every other
/// slot's state unchanged, so an acquisition on another type is granted
/// exactly as it would have been before.
pub proof fn lemma_cross_type_independence(locks: Seq<LockState>, a: int, b: int)
    requires
        0 <= a < locks.len(),
        0 <= b < locks.len(),
        a != b,
    ensures
        locks.update(a, LockState::Writer)[b] == locks[b],
        (locks.update(a, LockState::Writer)[b] is Free) == (locks[b] is Free),
        read_grant(locks.update(a, LockState::Writer)[b]) == read_grant(locks[b]),
{
}

/// The two slot tables of a well-formed container have the registered
/// length.
pub proof fn lemma_container_shape(c: &ComponentsContainer)
    requires
        c.wf(),
    ensures
        c.stores().len() == c.n_slots(),
        c.n_slots() <= 32,
{
}

/// A slot's storage is away exactly while a writer holds the slot.
pub proof fn lemma_writer_slot_empty(c: &ComponentsContainer, v: int)
    requires
        c.wf(),
        0 <= v < c.n_slots(),
    ensures
        c.locks()[v] is Writer <==> c.stores()[v] is None,
{
}

/// A held write handle's variant is a registered bit position.
pub proof fn lemma_write_storage_variant(ws: &WriteStorage)
    requires
        ws.wf(),
    ensures
        ws.variant_id() < 32,
{
}

/// The access state of one slot.
#[derive(Clone, Copy, PartialEq, Eq, Structural, Debug)]
pub enum LockState {
    /// Nobody holds the slot.
    Free,
    /// This many shared readers hold the slot.
    Readers(usize),
    /// One exclusive writer holds the slot.
    Writer,
}

/// The state a read acquisition leads to, if it can be granted: a writer
/// blocks readers, and a full reader count admits no more.
pub open spec fn read_grant(l: LockState) -> Option<LockState> {
    match l {
        LockState::Free => Some(LockState::Readers(1)),
        LockState::Readers(n) => if n < usize::MAX {
            Some(LockState::Readers((n + 1) as usize))
        } else {
            None
        },
        LockState::Writer => None,
    }
}

/// The state a read release leads to.
pub open spec fn read_release(l: LockState) -> LockState {
    match l {
        LockState::Readers(n) => if n > 1 {
            LockState::Readers((n - 1) as usize)
        } else {
            LockState::Free
        },
        _ => l,
    }
}

/// Owns one storage per registered component type and mediates access.
pub struct ComponentsContainer {
    locks: Vec<LockState>,
    stores: Vec<Option<Storage>>,
}

impl ComponentsContainer {
    /// The access state of every slot.
    pub closed spec fn locks(&self) -> Seq<LockState> {
        self.locks@
    }

    /// The contents of every slot; `None` while a writer holds it.
    pub closed spec fn stores(&self) -> Seq<Option<Map<u64, CompView>>> {
        Seq::new(
            self.stores@.len(),
            |i: int|
                match self.stores@[i] {
                    Some(st) => Some(st@),
                    None => None,
                },
        )
    }

    /// How many component types are registered.
    pub open spec fn n_slots(&self) -> int {
        self.locks().len() as int
    }

    /// A slot's storage is out exactly while a writer holds the slot, and a
    /// present storage is well formed and holds its own variant.
    pub closed spec fn wf(&self) -> bool {
        &&& self.locks@.len() == self.stores@.len()
        &&& self.locks@.len() <= 32
        &&& forall|i: int|
            0 <= i < self.locks@.len() ==> ((#[trigger] self.locks@[i] is Writer) <==> self.stores@[i] is None)
        &&& forall|i: int|
            0 <= i < self.stores@.len() ==> (#[trigger] self.stores@[i] matches Some(st) ==> st.wf()
                && st.variant_id() == i)
    }

    /// All slots are unheld.
    pub open spec fn all_free(&self) -> bool {
        forall|i: int| 0 <= i < self.n_slots() ==> #[trigger] self.locks()[i] is Free
    }

    /// One empty, free slot for each of the `n` registered types.
    pub fn new(n: usize) -> (r: ComponentsContainer)
        requires
            n <= 32,
        ensures
            r.wf(),
            r.n_slots() == n,
            r.all_free(),
            forall|i: int| 0 <= i < n ==> r.stores()[i] == Some(Map::<u64, CompView>::empty()),
    {
        let mut locks: Vec<LockState> = Vec::new();
        let mut stores: Vec<Option<Storage>> = Vec::new();
        let mut i: usize = 0;
        while i < n
            invariant
                i <= n,
                n <= 32,
                locks@.len() == i,
                stores@.len() == i,
                forall|j: int| 0 <= j < i ==> #[trigger] locks@[j] is Free,
                forall|j: int|
                    0 <= j < i ==> (#[trigger] stores@[j] matches Some(st) && st.wf()
                        && st.variant_id() == j && st@ == Map::<u64, CompView>::empty()),
            decreases n - i,
        {
            locks.push(LockState::Free);
            stores.push(Some(Storage::new(i as u32)));
            i = i + 1;
        }
        ComponentsContainer { locks, stores }
    }

    /// Acquires a shared-read token for a slot, when no writer holds it and
    /// the reader count has room. Other slots are untouched.
    pub fn read(&mut self, variant: u32) -> (r: Option<ReadStorage>)
        requires
            old(self).wf(),
            (variant as int) < old(self).n_slots(),
        ensures
            final(self).wf(),
            final(self).n_slots() == old(self).n_slots(),
            final(self).stores() == old(self).stores(),
            r is Some <==> read_grant(old(self).locks()[variant as int]) is Some,
            (r matches Some(t) ==> t.variant_id() == variant && (read_grant(
                old(self).locks()[variant as int],
            ) matches Some(l2) && final(self).locks() == old(self).locks().update(
                variant as int,
                l2,
            ))),
            r is None ==> final(self).locks() == old(self).locks(),
    {
        let i = variant as usize;
        let l: LockState = self.locks[i];
        let next: Option<LockState> = match l {
            LockState::Free => Some(LockState::Readers(1)),
            LockState::Readers(n) => if n < usize::MAX {
                Some(LockState::Readers(n + 1))
            } else {
                None
            },
            LockState::Writer => None,
        };
        match next {
            Some(l2) => {
                self.locks.set(i, l2);
                proof {
                    assert(final(self).stores() =~= old(self).stores());
                    assert(final(self).locks() =~= old(self).locks().update(variant as int, l2));
                }
                Some(ReadStorage { variant })
            },
            None => None,
        }
    }

    /// Acquires the exclusive writer of a slot, exactly when nobody holds
    /// it; the slot's storage moves into the returned handle. Other slots
    /// are untouched.
    pub fn write(&mut self, variant: u32) -> (r: Option<WriteStorage>)
        requires
            old(self).wf(),
            (variant as int) < old(self).n_slots(),
        ensures
            final(self).wf(),
            final(self).n_slots() == old(self).n_slots(),
            r is Some <==> old(self).locks()[variant as int] is Free,
            (r matches Some(ws) ==> ws.wf() && ws.variant_id() == variant && old(
                self,
            ).stores()[variant as int] == Some(ws@) && final(self).locks() == old(
                self,
            ).locks().update(
                variant as int,
                LockState::Writer,
            ) && final(self).stores() == old(self).stores().update(
                variant as int,
                None::<Map<u64, CompView>>,
            )),
            r is None ==> final(self).locks() == old(self).locks() && final(self).stores() == old(
                self,
            ).stores(),
    {
        let i = variant as usize;
        let l: LockState = self.locks[i];
        match l {
            LockState::Free => {
                let mut taken: Option<Storage> = None;
                self.stores.set_and_swap(i, &mut taken);
                self.locks.set(i, LockState::Writer);
                proof {
                    assert(final(self).locks() =~= old(self).locks().update(
                        variant as int,
                        LockState::Writer,
                    ));
                    assert(final(self).stores() =~= old(self).stores().update(
                        variant as int,
                        None::<Map<u64, CompView>>,
                    ));
                }
                match taken {
                    Some(st) => Some(WriteStorage { storage: st }),
                    None => unreached(),
                }
            },
            _ => None,
        }
    }

    /// Returns a shared-read token; the last reader out frees the slot.
    pub fn release_read(&mut self, token: ReadStorage)
        requires
            old(self).wf(),
            (token.variant_id() as int) < old(self).n_slots(),
            old(self).locks()[token.variant_id() as int] matches LockState::Readers(_),
        ensures
            final(self).wf(),
            final(self).n_slots() == old(self).n_slots(),
            final(self).stores() == old(self).stores(),
            final(self).locks() == old(self).locks().update(
                token.variant_id() as int,
                read_release(old(self).locks()[token.variant_id() as int]),
            ),
    {
        let i = token.variant() as usize;
        let l: LockState = self.locks[i];
        let next: LockState = match l {
            LockState::Readers(n) => if n > 1 {
                LockState::Readers(n - 1)
            } else {
                LockState::Free
            },
            _ => l,
        };
        self.locks.set(i, next);
        proof {
            assert(final(self).stores() =~= old(self).stores());
            assert(final(self).locks() =~= old(self).locks().update(
                token.variant_id() as int,
                read_release(old(self).locks()[token.variant_id() as int]),
            ));
        }
    }

    /// Returns a write handle: its contents become the slot's contents
    /// again and the slot is freed.
    pub fn release_write(&mut self, handle: WriteStorage)
        requires
            old(self).wf(),
            (handle.variant_id() as int) < old(self).n_slots(),
            old(self).locks()[handle.variant_id() as int] is Writer,
            handle.wf(),
        ensures
            final(self).wf(),
            final(self).n_slots() == old(self).n_slots(),
            final(self).locks() == old(self).locks().update(
                handle.variant_id() as int,
                LockState::Free,
            ),
            final(self).stores() == old(self).stores().update(
                handle.variant_id() as int,
                Some(handle@),
            ),
    {
        let i = handle.variant() as usize;
        let ghost hv = handle.variant_id() as int;
        let ghost hview = handle@;
        self.locks.set(i, LockState::Free);
        self.stores.set(i, Some(handle.storage));
        proof {
            assert(final(self).locks() =~= old(self).locks().update(hv, LockState::Free));
            assert(final(self).stores() =~= old(self).stores().update(hv, Some(hview)));
        }
    }

    /// Reads one entity's value through a shared-read token.
    pub fn get<'a>(&'a self, token: &ReadStorage, entity: Entity) -> (r: Option<&'a Component>)
        requires
            self.wf(),
            (token.variant_id() as int) < self.n_slots(),
            self.locks()[token.variant_id() as int] matches LockState::Readers(_),
        ensures
            self.stores()[token.variant_id() as int] matches Some(m) && (match r {
                Some(c) => m.contains_key(entity.id) && m[entity.id] == c@ && c.wf()
                    && c.variant_id() == token.variant_id(),
                None => !m.contains_key(entity.id),
            }),
    {
        let i = token.variant() as usize;
        match &self.stores[i] {
            Some(st) => st.get(entity),
            None => unreached(),
        }
    }
}

} // verus!
