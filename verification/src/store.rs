//! The per-store object arena: a growing arena of type-erased host values,
//! each store tagged with a process-local identity so that handles cannot be
//! dereferenced through a store other than the one that issued them.

use vstd::prelude::*;

verus! {

/// A type-erased host value: a runtime type tag beside the value's bytes.
pub struct HostObject {
    pub tag: u64,
    pub data: Vec<u8>,
}

/// The mathematical value of a [`HostObject`].
pub struct HostObjectView {
    pub tag: u64,
    pub data: Seq<u8>,
}

impl View for HostObject {
    type V = HostObjectView;

    open spec fn view(&self) -> HostObjectView {
        HostObjectView { tag: self.tag, data: self.data@ }
    }
}

/// A bare arena slot, with no record of the owning store: the raw form a
/// handle takes when it crosses the guest ABI.
#[derive(Clone, Copy, PartialEq, Eq, Structural, Debug)]
pub struct InternalStoreHandle {
    pub index: usize,
}

/// An arena of host objects owned by one store. Slots are never freed, so a
/// slot index alone identifies an object for the arena's lifetime.
pub struct StoreObjects {
    id: u64,
    objects: Vec<HostObject>,
}

/// The mathematical value of a [`StoreObjects`] arena.
pub struct StoreObjectsView {
    pub id: u64,
    pub objects: Seq<HostObjectView>,
}

impl View for StoreObjects {
    type V = StoreObjectsView;

    closed spec fn view(&self) -> StoreObjectsView {
        StoreObjectsView {
            id: self.id,
            objects: self.objects@.map_values(|o: HostObject| o@),
        }
    }
}

impl StoreObjects {
    /// An empty arena under the given store identity.
    pub fn new(id: u64) -> (r: Self)
        ensures
            r@.id == id,
            r@.objects.len() == 0,
    {
        StoreObjects { id, objects: Vec::new() }
    }

    /// The owning store's identity.
    pub fn id(&self) -> (r: u64)
        ensures
            r == self@.id,
    {
        self.id
    }

    /// Appends an object and returns its slot.
    pub fn insert(&mut self, obj: HostObject) -> (r: InternalStoreHandle)
        ensures
            final(self)@.id == old(self)@.id,
            final(self)@.objects == old(self)@.objects.push(obj@),
            r.index == old(self)@.objects.len(),
    {
        let idx = self.objects.len();
        self.objects.push(obj);
        proof {
            assert(self@.objects =~= old(self)@.objects.push(obj@));
        }
        InternalStoreHandle { index: idx }
    }

    /// The object in the given slot, or nothing for a slot never issued.
    pub fn get(&self, handle: InternalStoreHandle) -> (r: Option<&HostObject>)
        ensures
            match r {
                Some(o) => (handle.index as int) < self@.objects.len() && o@ == self@.objects[
                    handle.index as int
                ],
                None => (handle.index as int) >= self@.objects.len(),
            },
    {
        if handle.index < self.objects.len() {
            Some(&self.objects[handle.index])
        } else {
            None
        }
    }

    /// How many objects the arena holds.
    pub fn len(&self) -> (r: usize)
        ensures
            r == self@.objects.len(),
    {
        self.objects.len()
    }
}

/// A store: the owner of one object arena. Its identity is handed in at
/// construction and must be unique among the stores of one process.
pub struct Store {
    objects: StoreObjects,
}

impl View for Store {
    type V = StoreObjectsView;

    closed spec fn view(&self) -> StoreObjectsView {
        self.objects@
    }
}

impl Store {
    /// A fresh store with an empty arena under the given identity.
    pub fn new(id: u64) -> (r: Self)
        ensures
            r@.id == id,
            r@.objects.len() == 0,
    {
        Store { objects: StoreObjects::new(id) }
    }

    /// The store's object arena.
    pub fn objects(&self) -> (r: &StoreObjects)
        ensures
            r@ == self@,
    {
        &self.objects
    }

    /// Inserts a host object into the store's arena and returns a handle
    /// tagged with this store's identity.
    pub fn insert(&mut self, obj: HostObject) -> (r: StoreHandle)
        ensures
            final(self)@.id == old(self)@.id,
            final(self)@.objects == old(self)@.objects.push(obj@),
            r.store_id == old(self)@.id,
            r.internal.index == old(self)@.objects.len(),
    {
        StoreHandle::new(&mut self.objects, obj)
    }
}

/// A store-scoped handle: the owning store's identity beside an arena slot.
/// It is dereferenceable only through the store whose identity matches.
#[derive(Clone, Copy, PartialEq, Eq, Structural, Debug)]
pub struct StoreHandle {
    pub store_id: u64,
    pub internal: InternalStoreHandle,
}

impl StoreHandle {
    /// Inserts `obj` into `objects` and returns a handle tagged with that
    /// arena's store identity.
    pub fn new(objects: &mut StoreObjects, obj: HostObject) -> (r: Self)
        ensures
            final(objects)@.id == old(objects)@.id,
            final(objects)@.objects == old(objects)@.objects.push(obj@),
            r.store_id == old(objects)@.id,
            r.internal.index == old(objects)@.objects.len(),
    {
        let internal = objects.insert(obj);
        StoreHandle { store_id: objects.id(), internal }
    }

    /// Rebuilds a handle from its bare slot under the given store identity.
    /// No check ties the slot to that store: pairing this with
    /// [`StoreHandle::internal_handle`] correctly is the caller's burden.
    pub fn from_internal(store_id: u64, internal: InternalStoreHandle) -> (r: Self)
        ensures
            r.store_id == store_id,
            r.internal == internal,
    {
        StoreHandle { store_id, internal }
    }

    /// The bare arena slot, with the owning store's identity dropped.
    pub fn internal_handle(&self) -> (r: InternalStoreHandle)
        ensures
            r == self.internal,
    {
        self.internal
    }

    /// The identity of the store this handle was issued by.
    pub fn store_id(&self) -> (r: u64)
        ensures
            r == self.store_id,
    {
        self.store_id
    }

    /// Resolves the handle against `objects`: the object it names, or
    /// nothing when the arena belongs to another store or the slot was
    /// never issued.
    pub fn get<'a>(&self, objects: &'a StoreObjects) -> (r: Option<&'a HostObject>)
        ensures
            match r {
                Some(o) => self.store_id == objects@.id && (self.internal.index as int)
                    < objects@.objects.len() && o@ == objects@.objects[self.internal.index as int],
                None => self.store_id != objects@.id || (self.internal.index as int)
                    >= objects@.objects.len(),
            },
    {
        if self.store_id != objects.id() {
            return None;
        }
        objects.get(self.internal)
    }
}

} // verus!
