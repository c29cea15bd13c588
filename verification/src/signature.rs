//! The signature registry: interns function types into small shared indices
//! so that indirect and cross-module calls can be matched by index instead
//! of by structural comparison.

use vstd::prelude::*;

use crate::types::{FunctionType, FunctionTypeView};

verus! {

/// The index handed out for a registered function type; stable for the
/// registry's lifetime, equal for structurally equal types.
#[derive(Clone, Copy, PartialEq, Eq, Structural, Debug, Hash)]
pub struct VMSharedSignatureIndex {
    pub index: u32,
}

/// No function type occurs twice in the registry.
pub open spec fn registry_wf(s: Seq<FunctionTypeView>) -> bool {
    forall|i: int, j: int| 0 <= i < j < s.len() ==> s[i] != s[j]
}

/// The registry's contents after registering `t`: unchanged when `t` is
/// already interned, extended by `t` otherwise.
pub open spec fn registered_types(
    s: Seq<FunctionTypeView>,
    t: FunctionTypeView,
) -> Seq<FunctionTypeView> {
    if s.contains(t) {
        s
    } else {
        s.push(t)
    }
}

/// The index registering `t` yields: the position of `t` when it is already
/// interned (unique under `registry_wf`), the old length otherwise.
pub open spec fn registered_index(s: Seq<FunctionTypeView>, t: FunctionTypeView) -> int {
    if s.contains(t) {
        choose|i: int| 0 <= i < s.len() && s[i] == t
    } else {
        s.len() as int
    }
}

/// What looking up index `i` returns: the type at `i`, or nothing when `i`
/// was never issued.
pub open spec fn lookup_type(s: Seq<FunctionTypeView>, i: int) -> Option<FunctionTypeView> {
    if 0 <= i < s.len() {
        Some(s[i])
    } else {
        None
    }
}

/// Interns function types; shared across one engine instance. No eviction:
/// entries live for the registry's lifetime.
pub struct SignatureRegistry {
    types: Vec<FunctionType>,
}

impl View for SignatureRegistry {
    type V = Seq<FunctionTypeView>;

    closed spec fn view(&self) -> Seq<FunctionTypeView> {
        self.types@.map_values(|t: FunctionType| t@)
    }
}

impl SignatureRegistry {
    /// Every registry in use holds pairwise distinct types.
    pub open spec fn wf(&self) -> bool {
        registry_wf(self@)
    }

    /// An empty registry.
    pub fn new() -> (r: Self)
        ensures
            r@.len() == 0,
            r.wf(),
    {
        SignatureRegistry { types: Vec::new() }
    }

    /// How many types are interned.
    pub fn len(&self) -> (r: usize)
        ensures
            r == self@.len(),
    {
        self.types.len()
    }

    /// Interns `ty`: the first registration of a type picks the next free
    /// index, and every later registration of a structurally equal type
    /// returns that same index.
    pub fn register(&mut self, ty: &FunctionType) -> (idx: VMSharedSignatureIndex)
        requires
            old(self).wf(),
            old(self)@.len() < 0xffff_ffff,
        ensures
            final(self).wf(),
            final(self)@ == registered_types(old(self)@, ty@),
            idx.index == registered_index(old(self)@, ty@),
            idx.index < final(self)@.len(),
            final(self)@[idx.index as int] == ty@,
    {
        let ghost s = self@;
        let mut i: usize = 0;
        while i < self.types.len()
            invariant
                self@ == s,
                self.wf(),
                s.len() < 0xffff_ffff,
                i <= s.len(),
                forall|j: int| 0 <= j < i ==> s[j] != ty@,
            decreases self.types.len() - i,
        {
            if self.types[i].equals(ty) {
                proof {
                    assert(s[i as int] == ty@);
                    assert(s.contains(ty@));
                    let w = choose|k: int| 0 <= k < s.len() && s[k] == ty@;
                    if w != i as int {
                        assert(s[w] != s[i as int]);
                    }
                    assert(registered_index(s, ty@) == i as int);
                    assert(s.len() == self.types@.len());
                    assert((i as int) < s.len());
                    assert((i as int) < 0xffff_ffff);
                }
                return VMSharedSignatureIndex { index: i as u32 };
            }
            i = i + 1;
        }
        proof {
            if s.contains(ty@) {
                let w = choose|k: int| 0 <= k < s.len() && s[k] == ty@;
                assert(s[w] != ty@);
            }
            assert(!s.contains(ty@));
        }
        let n = self.types.len();
        proof {
            assert(s.len() == self.types@.len());
            assert((n as int) < 0xffff_ffff);
        }
        self.types.push(ty.duplicate());
        proof {
            assert(self@ =~= s.push(ty@));
            assert(forall|i: int, j: int|
                0 <= i < j < self@.len() ==> self@[i] != self@[j]) by {
                assert(forall|i: int| 0 <= i < s.len() ==> self@[i] == s[i]);
                assert(self@[s.len() as int] == ty@);
            }
        }
        VMSharedSignatureIndex { index: n as u32 }
    }

    /// Returns the type interned at `sig`, or nothing when `sig` was never
    /// issued by this registry.
    pub fn lookup(&self, sig: VMSharedSignatureIndex) -> (r: Option<FunctionType>)
        ensures
            match r {
                Some(t) => t@ == self@[sig.index as int] && (sig.index as int) < self@.len(),
                None => (sig.index as int) >= self@.len(),
            },
            (match r {
                Some(t) => Some(t@),
                None => None,
            }) == lookup_type(self@, sig.index as int),
    {
        let i = sig.index as usize;
        if i < self.types.len() {
            Some(self.types[i].duplicate())
        } else {
            None
        }
    }
}

/// Registering a type keeps the registry free of duplicates.
pub proof fn lemma_register_preserves_wf(s: Seq<FunctionTypeView>, t: FunctionTypeView)
    requires
        registry_wf(s),
    ensures
        registry_wf(registered_types(s, t)),
{
    if !s.contains(t) {
        let s1 = s.push(t);
        assert forall|i: int, j: int| 0 <= i < j < s1.len() implies s1[i] != s1[j] by {
            if j == s.len() as int {
                assert(s1[i] == s[i]);
                assert(s.contains(s[i]));
            }
        }
    }
}

/// Registering the same function type twice yields the same shared index
/// both times, leaves the registry unchanged the second time, and looking
/// that index up returns the registered type.
pub proof fn lemma_register_idempotent(s: Seq<FunctionTypeView>, t: FunctionTypeView)
    requires
        registry_wf(s),
    ensures
        ({
            let s1 = registered_types(s, t);
            let i1 = registered_index(s, t);
            &&& registered_types(s1, t) == s1
            &&& registered_index(s1, t) == i1
            &&& lookup_type(s1, i1) == Some(t)
        }),
{
    let s1 = registered_types(s, t);
    let i1 = registered_index(s, t);
    lemma_register_preserves_wf(s, t);
    if s.contains(t) {
        let w = choose|i: int| 0 <= i < s.len() && s[i] == t;
        assert(s1 == s);
        assert(lookup_type(s1, i1) == Some(t));
    } else {
        assert(s1 == s.push(t));
        assert(s1[s.len() as int] == t);
        assert(s1.contains(t));
        let w = choose|i: int| 0 <= i < s1.len() && s1[i] == t;
        if w != s.len() as int {
            assert(s1[w] != s1[s.len() as int]);
        }
        assert(registered_index(s1, t) == s.len() as int);
        assert(lookup_type(s1, i1) == Some(t));
    }
}

/// An index never issued by a registry — one at or past its length — looks
/// up to nothing.
pub proof fn lemma_lookup_foreign(s: Seq<FunctionTypeView>, i: int)
    requires
        i >= s.len() || i < 0,
    ensures
        lookup_type(s, i) is None,
{
}

} // verus!

