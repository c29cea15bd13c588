//! The unwind registry: the process-visible table of stack-unwind metadata
//! for published code regions, so that a fault or panic inside generated
//! code can be unwound. Registration is append-only and precedes the
//! registry's one-way publication; entries are never removed.

use vstd::prelude::*;

verus! {

/// Unwind metadata for one code range: the range's base address and length,
/// and the unwind instructions for it.
pub struct UnwindEntry {
    pub base: u64,
    pub len: u64,
    pub info: Vec<u8>,
}

/// The mathematical value of an [`UnwindEntry`].
pub struct UnwindEntryView {
    pub base: u64,
    pub len: u64,
    pub info: Seq<u8>,
}

impl View for UnwindEntry {
    type V = UnwindEntryView;

    open spec fn view(&self) -> UnwindEntryView {
        UnwindEntryView { base: self.base, len: self.len, info: self.info@ }
    }
}

/// Whether the instruction-pointer value `pc` lies inside the range of `e`.
pub open spec fn entry_covers(e: UnwindEntryView, pc: u64) -> bool {
    e.base <= pc < e.base + e.len
}

/// The unwind instructions the registry answers for `pc`: those of the
/// first registered entry whose range covers `pc`, or nothing.
pub open spec fn find_unwind_info(s: Seq<UnwindEntryView>, pc: u64) -> Option<Seq<u8>>
    decreases s.len(),
{
    if s.len() == 0 {
        None
    } else if entry_covers(s[0], pc) {
        Some(s[0].info)
    } else {
        find_unwind_info(s.drop_first(), pc)
    }
}

/// When no entry before position `i` covers `pc`, the answer over the whole
/// table is the answer over the table from `i` on.
proof fn lemma_find_unwind_info_from(s: Seq<UnwindEntryView>, pc: u64, i: int)
    requires
        0 <= i <= s.len(),
        forall|j: int| 0 <= j < i ==> !entry_covers(s[j], pc),
    ensures
        find_unwind_info(s, pc) == find_unwind_info(s.skip(i), pc),
    decreases i,
{
    if i == 0 {
        assert(s.skip(0) =~= s);
    } else {
        assert(!entry_covers(s[0], pc));
        let t = s.drop_first();
        assert forall|j: int| 0 <= j < i - 1 implies !entry_covers(t[j], pc) by {
            assert(t[j] == s[j + 1]);
        }
        lemma_find_unwind_info_from(t, pc, i - 1);
        assert(t.skip(i - 1) =~= s.skip(i));
    }
}

/// The mathematical value of an [`UnwindRegistry`].
pub struct UnwindRegistryView {
    pub entries: Seq<UnwindEntryView>,
    pub published: bool,
}

/// Accumulates per-region unwind metadata while a region is being
/// allocated, and is published once, after the code itself is.
pub struct UnwindRegistry {
    entries: Vec<UnwindEntry>,
    published: bool,
}

impl View for UnwindRegistry {
    type V = UnwindRegistryView;

    closed spec fn view(&self) -> UnwindRegistryView {
        UnwindRegistryView {
            entries: self.entries@.map_values(|e: UnwindEntry| e@),
            published: self.published,
        }
    }
}

impl UnwindRegistry {
    /// An empty, unpublished registry.
    pub fn new() -> (r: Self)
        ensures
            r@.entries.len() == 0,
            !r@.published,
    {
        UnwindRegistry { entries: Vec::new(), published: false }
    }

    /// Appends unwind metadata for the code range starting at `base`.
    /// Registration is only possible while the registry is unpublished.
    pub fn register(&mut self, base: u64, len: u64, info: Vec<u8>)
        requires
            !old(self)@.published,
        ensures
            !final(self)@.published,
            final(self)@.entries == old(self)@.entries.push(
                UnwindEntryView { base, len, info: info@ },
            ),
    {
        let ghost prev = self@.entries;
        self.entries.push(UnwindEntry { base, len, info });
        proof {
            assert(self@.entries =~= prev.push(UnwindEntryView { base, len, info: info@ }));
        }
    }

    /// Publishes the registry: the one-way transition after which the
    /// accumulated table is visible to the host-level unwinder and frozen.
    pub fn publish(&mut self)
        ensures
            final(self)@.published,
            final(self)@.entries == old(self)@.entries,
    {
        self.published = true;
    }

    /// Whether the registry has been published.
    pub fn is_published(&self) -> (r: bool)
        ensures
            r == self@.published,
    {
        self.published
    }

    /// How many entries have been registered.
    pub fn len(&self) -> (r: usize)
        ensures
            r == self@.entries.len(),
    {
        self.entries.len()
    }

    /// Maps an instruction pointer inside generated code back to the
    /// unwind instructions of the first registered range that covers it,
    /// or to nothing when no range does.
    pub fn lookup(&self, pc: u64) -> (r: Option<&Vec<u8>>)
        ensures
            (match r {
                Some(info) => Some(info@),
                None => None,
            }) == find_unwind_info(self@.entries, pc),
    {
        let ghost s = self@.entries;
        let mut i: usize = 0;
        while i < self.entries.len()
            invariant
                self@.entries == s,
                i <= s.len(),
                forall|j: int| 0 <= j < i ==> !entry_covers(s[j], pc),
            decreases self.entries.len() - i,
        {
            let e = &self.entries[i];
            if pc >= e.base && pc - e.base < e.len {
                proof {
                    assert(entry_covers(s[i as int], pc));
                    lemma_find_unwind_info_from(s, pc, i as int);
                    assert(s.skip(i as int)[0] == s[i as int]);
                }
                return Some(&self.entries[i].info);
            }
            proof {
                assert(!entry_covers(s[i as int], pc));
            }
            i = i + 1;
        }
        proof {
            lemma_find_unwind_info_from(s, pc, s.len() as int);
            assert(s.skip(s.len() as int) =~= Seq::<UnwindEntryView>::empty());
        }
        None
    }
}

} // verus!
