//! An opaque reference to host-owned data that guest code may hold and pass
//! around without dereferencing it. A reference is tagged with the identity
//! of the store that allocated it; resolving it through any other store, or
//! under the wrong runtime type tag, yields nothing — the three failure
//! cases are indistinguishable by design, so no type information leaks to a
//! mismatched caller.

use vstd::prelude::*;

use crate::store::{
    HostObject, HostObjectView, InternalStoreHandle, Store, StoreHandle, StoreObjectsView,
};

verus! {

/// The raw, store-relative form of an extern reference: the bare arena
/// slot, as it crosses the guest ABI where no store context exists.
#[derive(Clone, Copy, PartialEq, Eq, Structural, Debug)]
pub struct VMExternRef(pub InternalStoreHandle);

/// An opaque reference to some host data, resolvable only through the store
/// that created it.
#[derive(Clone, Copy, PartialEq, Eq, Structural, Debug)]
pub struct ExternRef {
    pub handle: StoreHandle,
}

/// The store after a host value with tag `tag` and bytes `data` is added.
pub open spec fn store_after_new(s: StoreObjectsView, tag: u64, data: Seq<u8>) -> StoreObjectsView {
    StoreObjectsView { id: s.id, objects: s.objects.push(HostObjectView { tag, data }) }
}

/// The handle that adding a value to store `s` yields: the store's identity
/// beside the freshly filled slot.
pub open spec fn handle_after_new(s: StoreObjectsView) -> StoreHandle {
    StoreHandle {
        store_id: s.id,
        internal: InternalStoreHandle { index: s.objects.len() as usize },
    }
}

/// What downcasting handle `h` against store `s` under tag `tag` yields:
/// the stored bytes when the store matches, the slot exists and the tag
/// agrees; nothing in every other case.
pub open spec fn downcast_result(h: StoreHandle, s: StoreObjectsView, tag: u64) -> Option<
    Seq<u8>,
> {
    if h.store_id == s.id && (h.internal.index as int) < s.objects.len() && s.objects[
        h.internal.index as int
    ].tag == tag {
        Some(s.objects[h.internal.index as int].data)
    } else {
        None
    }
}

impl ExternRef {
    /// Makes a new extern reference: boxes the value's bytes under its
    /// runtime type tag in the store's arena and tags the handle with the
    /// store's identity.
    pub fn new(store: &mut Store, tag: u64, data: Vec<u8>) -> (r: Self)
        ensures
            final(store)@ == store_after_new(old(store)@, tag, data@),
            r.handle == handle_after_new(old(store)@),
    {
        let handle = store.insert(HostObject { tag, data });
        ExternRef { handle }
    }

    /// Tries to resolve the reference against `store` as a value of the
    /// type named by `tag`. A stale slot, a foreign store and a tag
    /// mismatch all yield nothing, indistinguishably.
    pub fn downcast<'a>(&self, store: &'a Store, tag: u64) -> (r: Option<&'a Vec<u8>>)
        ensures
            (match r {
                Some(d) => Some(d@),
                None => None,
            }) == downcast_result(self.handle, store@, tag),
    {
        match self.handle.get(store.objects()) {
            Some(o) => {
                if o.tag == tag {
                    Some(&o.data)
                } else {
                    None
                }
            },
            None => None,
        }
    }

    /// The raw, store-relative form of this reference, for handing across
    /// the guest ABI. The owning store's identity is dropped; pair it with
    /// [`ExternRef::from_vm_externref`] under the same store.
    pub fn vm_externref(&self) -> (r: VMExternRef)
        ensures
            r.0 == self.handle.internal,
    {
        VMExternRef(self.handle.internal_handle())
    }

    /// Rebuilds a reference from its raw form against the given store. No
    /// store-affinity check is performed here: a caller must have checked
    /// [`ExternRef::is_from_store`] on the reference the raw value came
    /// from, or the result resolves against the wrong arena.
    pub fn from_vm_externref(store: &Store, vm_externref: VMExternRef) -> (r: Self)
        ensures
            r.handle.store_id == store@.id,
            r.handle.internal == vm_externref.0,
    {
        ExternRef { handle: StoreHandle::from_internal(store.objects().id(), vm_externref.0) }
    }

    /// Whether this reference can be used with the given store: true
    /// exactly when `store` is the one that created it.
    pub fn is_from_store(&self, store: &Store) -> (r: bool)
        ensures
            r == (self.handle.store_id == store@.id),
    {
        self.handle.store_id() == store.objects().id()
    }
}

/// Creating a reference in a store and downcasting it back: with the
/// creating store and the matching tag the original bytes come back; under
/// any other tag nothing comes back; against any store with another
/// identity nothing comes back; and the reference is from the creating
/// store alone.
pub proof fn lemma_externref_roundtrip(
    s: StoreObjectsView,
    tag: u64,
    data: Seq<u8>,
    other_tag: u64,
    other: StoreObjectsView,
)
    requires
        s.objects.len() < usize::MAX,
    ensures
        ({
            let s1 = store_after_new(s, tag, data);
            let h = handle_after_new(s);
            &&& downcast_result(h, s1, tag) == Some(data)
            &&& (other_tag != tag ==> downcast_result(h, s1, other_tag) is None)
            &&& (other.id != s.id ==> downcast_result(h, other, other_tag) is None)
            &&& (h.store_id == other.id <==> other.id == s.id)
        }),
{
    let s1 = store_after_new(s, tag, data);
    let h = handle_after_new(s);
    assert(s1.objects[h.internal.index as int] == HostObjectView { tag, data });
}

} // verus!
