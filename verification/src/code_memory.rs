//! Code memory: owns the regions that hold machine code and section data.
//! Bodies are placed into fresh writable regions; `publish` then performs
//! the one-way transition that makes every allocated code region
//! executable. Data regions stay writable and are never made executable.
//!
//! Regions are modelled by their place in a single address space: each
//! allocation takes a fresh, disjoint address range, separated from its
//! neighbour by a guard gap, and keeps the bytes placed in it.

use vstd::prelude::*;

use crate::types::{
    copy_vec, CustomSection, CustomSectionProtection, CustomSectionView, FunctionBody,
    FunctionBodyView,
};
use crate::unwind::{UnwindEntryView, UnwindRegistry, UnwindRegistryView};

verus! {

/// The gap left between two neighbouring regions.
pub const REGION_GUARD: u64 = 16;

/// The lowest address the model hands out; never zero, as a real mapping
/// never is.
pub const CODE_BASE: u64 = 0x1000;

/// The address of an allocated function body.
#[derive(Clone, Copy, PartialEq, Eq, Structural, Debug)]
pub struct FunctionBodyPtr(pub u64);

/// The address of an allocated custom section.
#[derive(Clone, Copy, PartialEq, Eq, Structural, Debug)]
pub struct SectionBodyPtr(pub u64);

/// What a region holds, which decides its protection after `publish`.
#[derive(Clone, Copy, PartialEq, Eq, Structural, Debug)]
pub enum RegionKind {
    /// Machine code or an executable section: becomes executable on publish.
    Code,
    /// Section data: stays writable and never becomes executable.
    Data,
}

struct Region {
    start: u64,
    bytes: Vec<u8>,
    kind: RegionKind,
}

/// The mathematical value of one allocated region.
pub struct RegionView {
    pub start: u64,
    pub bytes: Seq<u8>,
    pub kind: RegionKind,
    pub published: bool,
}

/// The end of a region's address range.
pub open spec fn region_end(r: RegionView) -> int {
    r.start + r.bytes.len()
}

/// The mathematical value of a [`CodeMemory`].
pub struct CodeMemoryView {
    pub regions: Seq<RegionView>,
    pub next_addr: u64,
    pub registries: Seq<UnwindRegistryView>,
}

/// The unwind entries that allocating the bodies `fs` at the addresses
/// `starts` registers: one entry per body that carries unwind metadata, in
/// allocation order.
pub open spec fn unwind_entries(fs: Seq<FunctionBodyView>, starts: Seq<u64>) -> Seq<
    UnwindEntryView,
>
    decreases fs.len(),
{
    if fs.len() == 0 {
        Seq::empty()
    } else {
        let rest = unwind_entries(fs.drop_last(), starts.drop_last());
        match fs.last().unwind_info {
            Some(u) => rest.push(
                UnwindEntryView {
                    base: starts.last(),
                    len: fs.last().body.len() as u64,
                    info: u,
                },
            ),
            None => rest,
        }
    }
}

/// Appending one body appends its unwind entry, or nothing when it has
/// none.
pub proof fn lemma_unwind_entries_snoc(
    fs: Seq<FunctionBodyView>,
    starts: Seq<u64>,
    f: FunctionBodyView,
    st: u64,
)
    ensures
        unwind_entries(fs.push(f), starts.push(st)) == (match f.unwind_info {
            Some(u) => unwind_entries(fs, starts).push(
                UnwindEntryView { base: st, len: f.body.len() as u64, info: u },
            ),
            None => unwind_entries(fs, starts),
        }),
{
    let fs1 = fs.push(f);
    let st1 = starts.push(st);
    assert(fs1.drop_last() =~= fs);
    assert(st1.drop_last() =~= starts);
    assert(fs1.last() == f);
    assert(st1.last() == st);
}

/// The address space that placing blobs of the given sizes consumes: each
/// blob's length plus its guard gap.
pub open spec fn space_needed(sizes: Seq<nat>) -> int
    decreases sizes.len(),
{
    if sizes.len() == 0 {
        0
    } else {
        space_needed(sizes.drop_last()) + sizes.last() + REGION_GUARD
    }
}

/// No allocation frees space.
pub proof fn lemma_space_needed_nonneg(sizes: Seq<nat>)
    ensures
        space_needed(sizes) >= 0,
    decreases sizes.len(),
{
    if sizes.len() > 0 {
        lemma_space_needed_nonneg(sizes.drop_last());
    }
}

/// A prefix, together with the next blob, needs no more space than the
/// whole list.
pub proof fn lemma_space_needed_prefix(sizes: Seq<nat>, i: int)
    requires
        0 <= i < sizes.len(),
    ensures
        space_needed(sizes.take(i)) + sizes[i] + REGION_GUARD <= space_needed(sizes),
    decreases sizes.len(),
{
    if i == sizes.len() - 1 {
        assert(sizes.take(i) =~= sizes.drop_last());
    } else {
        lemma_space_needed_prefix(sizes.drop_last(), i);
        assert(sizes.drop_last().take(i) =~= sizes.take(i));
        assert(sizes.drop_last()[i] == sizes[i]);
    }
}

/// Space needed adds up over concatenation.
pub proof fn lemma_space_needed_add(a: Seq<nat>, b: Seq<nat>)
    ensures
        space_needed(a + b) == space_needed(a) + space_needed(b),
    decreases b.len(),
{
    if b.len() == 0 {
        assert(a + b =~= a);
    } else {
        lemma_space_needed_add(a, b.drop_last());
        assert((a + b).drop_last() =~= a + b.drop_last());
        assert((a + b).last() == b.last());
    }
}

/// Owns pages of memory that hold machine code and section data, and the
/// unwind registries published for them.
pub struct CodeMemory {
    regions: Vec<Region>,
    next_addr: u64,
    published_upto: usize,
    registries: Vec<UnwindRegistry>,
}

impl View for CodeMemory {
    type V = CodeMemoryView;

    closed spec fn view(&self) -> CodeMemoryView {
        CodeMemoryView {
            regions: Seq::new(
                self.regions@.len(),
                |i: int|
                    RegionView {
                        start: self.regions@[i].start,
                        bytes: self.regions@[i].bytes@,
                        kind: self.regions@[i].kind,
                        published: i < self.published_upto && self.regions@[i].kind
                            == RegionKind::Code,
                    },
            ),
            next_addr: self.next_addr,
            registries: self.registries@.map_values(|r: UnwindRegistry| r@),
        }
    }
}

/// Regions lie in order, disjoint and below the allocation mark, so every
/// region's address range is fresh and no two overlap.
pub open spec fn layout_wf(m: CodeMemoryView) -> bool {
    &&& forall|i: int|
        0 <= i < m.regions.len() ==> region_end(#[trigger] m.regions[i]) < m.next_addr
    &&& forall|i: int, j: int|
        0 <= i < j < m.regions.len() ==> region_end(#[trigger] m.regions[i]) < (
        #[trigger] m.regions[j]).start
    &&& forall|i: int| 0 <= i < m.regions.len() ==> (#[trigger] m.regions[i]).start >= CODE_BASE
    &&& m.next_addr >= CODE_BASE
}

impl CodeMemory {
    /// The regions lie out as [`layout_wf`] says and the publication mark
    /// lies within the region list.
    pub closed spec fn wf(&self) -> bool {
        &&& layout_wf(self@)
        &&& self.published_upto <= self.regions@.len()
    }

    /// A well-formed code memory has a well-formed layout.
    pub proof fn lemma_wf_layout(&self)
        requires
            self.wf(),
        ensures
            layout_wf(self@),
    {
    }

    /// Fresh code memory: no regions, nothing published.
    pub fn new() -> (r: Self)
        ensures
            r.wf(),
            r@.regions.len() == 0,
            r@.registries.len() == 0,
            r@.next_addr == CODE_BASE,
    {
        let r = CodeMemory {
            regions: Vec::new(),
            next_addr: CODE_BASE,
            published_upto: 0,
            registries: Vec::new(),
        };
        proof {
            assert(r@.regions.len() == 0);
        }
        r
    }

    /// Places `bytes` into a fresh region past every existing one.
    fn place(&mut self, bytes: Vec<u8>, kind: RegionKind) -> (r: Result<u64, String>)
        requires
            old(self).wf(),
        ensures
            final(self).wf(),
            final(self).published_upto == old(self).published_upto,
            final(self)@.registries == old(self)@.registries,
            old(self)@.next_addr + bytes@.len() + REGION_GUARD <= u64::MAX ==> r is Ok,
            match r {
                Ok(addr) => {
                    &&& final(self)@.regions == old(self)@.regions.push(
                        RegionView { start: addr, bytes: bytes@, kind, published: false },
                    )
                    &&& addr == old(self)@.next_addr
                    &&& final(self)@.next_addr == old(self)@.next_addr + bytes@.len()
                        + REGION_GUARD
                },
                Err(_) => *final(self) == *old(self),
            },
    {
        let len_u = bytes.len() as u64;
        if len_u > u64::MAX - REGION_GUARD {
            return Err("out of code address space".to_string());
        }
        if self.next_addr > u64::MAX - (len_u + REGION_GUARD) {
            return Err("out of code address space".to_string());
        }
        let addr = self.next_addr;
        let ghost prev = self@.regions;
        let ghost b = bytes@;
        self.regions.push(Region { start: addr, bytes, kind });
        self.next_addr = addr + len_u + REGION_GUARD;
        proof {
            assert(self@.regions =~= prev.push(
                RegionView { start: addr, bytes: b, kind, published: false },
            ));
        }
        Ok(addr)
    }

    /// Copies each function body, then each executable section, then each
    /// data section into a fresh region, in that order, and returns one
    /// address per input in the same relative order. For every body that
    /// carries unwind metadata, the metadata is registered in `registry`
    /// under the body's address range, in allocation order. On failure no
    /// region has been published and no address is handed out.
    pub fn allocate(
        &mut self,
        registry: &mut UnwindRegistry,
        functions: &Vec<FunctionBody>,
        executable_sections: &Vec<CustomSection>,
        data_sections: &Vec<CustomSection>,
    ) -> (r: Result<(Vec<FunctionBodyPtr>, Vec<SectionBodyPtr>, Vec<SectionBodyPtr>), String>)
        requires
            old(self).wf(),
            !old(registry)@.published,
        ensures
            final(self).wf(),
            layout_wf(final(self)@),
            final(self)@.registries == old(self)@.registries,
            !final(registry)@.published,
            final(self)@.regions.len() >= old(self)@.regions.len(),
            final(self)@.regions.subrange(0, old(self)@.regions.len() as int) == old(
                self,
            )@.regions,
            forall|k: int|
                old(self)@.regions.len() <= k < final(self)@.regions.len() ==> !(
                #[trigger] final(self)@.regions[k]).published && final(self)@.regions[k].start
                    >= old(self)@.next_addr,
            old(registry)@.entries.is_prefix_of(final(registry)@.entries),
            old(self)@.next_addr + space_needed(
                functions@.map_values(|b: FunctionBody| b@.body.len())
                    + executable_sections@.map_values(|s2: CustomSection| s2@.bytes.len())
                    + data_sections@.map_values(|s2: CustomSection| s2@.bytes.len()),
            ) <= u64::MAX ==> r is Ok,
            match r {
                Ok(ptrs) => {
                    let n0 = old(self)@.regions.len() as int;
                    let nf = functions@.len() as int;
                    let ne = executable_sections@.len() as int;
                    let nd = data_sections@.len() as int;
                    &&& ptrs.0@.len() == nf
                    &&& ptrs.1@.len() == ne
                    &&& ptrs.2@.len() == nd
                    &&& final(self)@.regions.len() == n0 + nf + ne + nd
                    &&& forall|i: int|
                        0 <= i < nf ==> (#[trigger] final(self)@.regions[n0 + i]).kind
                            == RegionKind::Code && final(self)@.regions[n0 + i].bytes
                            == functions@[i]@.body
                    &&& forall|i: int|
                        0 <= i < nf ==> (#[trigger] ptrs.0@[i]).0 == final(self)@.regions[n0
                            + i].start
                    &&& forall|i: int|
                        0 <= i < ne ==> (#[trigger] final(self)@.regions[n0 + nf + i]).kind
                            == RegionKind::Code && final(self)@.regions[n0 + nf + i].bytes
                            == executable_sections@[i]@.bytes
                    &&& forall|i: int|
                        0 <= i < ne ==> (#[trigger] ptrs.1@[i]).0 == final(self)@.regions[n0 + nf
                            + i].start
                    &&& forall|i: int|
                        0 <= i < nd ==> (#[trigger] final(self)@.regions[n0 + nf + ne + i]).kind
                            == RegionKind::Data && final(self)@.regions[n0 + nf + ne + i].bytes
                            == data_sections@[i]@.bytes
                    &&& forall|i: int|
                        0 <= i < nd ==> (#[trigger] ptrs.2@[i]).0 == final(self)@.regions[n0 + nf
                            + ne + i].start
                    &&& final(registry)@.entries == old(registry)@.entries + unwind_entries(
                        functions@.map_values(|b: FunctionBody| b@),
                        ptrs.0@.map_values(|p: FunctionBodyPtr| p.0),
                    )
                },
                Err(_) => true,
            },
    {
        let ghost n0 = self@.regions.len() as int;
        let ghost a0 = self@.next_addr;
        let ghost old_regions = self@.regions;
        let ghost old_entries = registry@.entries;
        let ghost fsz = functions@.map_values(|b: FunctionBody| b@.body.len());
        let ghost esz = executable_sections@.map_values(|s2: CustomSection| s2@.bytes.len());
        let ghost dsz = data_sections@.map_values(|s2: CustomSection| s2@.bytes.len());

        let mut fptrs: Vec<FunctionBodyPtr> = Vec::new();
        proof {
            assert(fsz.take(0) =~= Seq::<nat>::empty());
            assert(self@.regions.subrange(0, n0) =~= old_regions);
            assert(functions@.map_values(|b: FunctionBody| b@).take(0) =~= Seq::<
                FunctionBodyView,
            >::empty());
            assert(fptrs@.map_values(|p: FunctionBodyPtr| p.0) =~= Seq::<u64>::empty());
            assert(old_entries + Seq::<UnwindEntryView>::empty() =~= old_entries);
        }
        let mut i: usize = 0;
        while i < functions.len()
            invariant
                n0 == old(self)@.regions.len() as int,
                a0 == old(self)@.next_addr,
                old_regions == old(self)@.regions,
                old_entries == old(registry)@.entries,
                self.wf(),
                self.published_upto == old(self).published_upto,
                self@.registries == old(self)@.registries,
                !registry@.published,
                i <= functions@.len(),
                fptrs@.len() == i,
                fsz == functions@.map_values(|b: FunctionBody| b@.body.len()),
                esz == executable_sections@.map_values(|s2: CustomSection| s2@.bytes.len()),
                dsz == data_sections@.map_values(|s2: CustomSection| s2@.bytes.len()),
                self@.next_addr as int == a0 + space_needed(fsz.take(i as int)),
                self@.regions.len() == n0 + i,
                self@.next_addr >= a0,
                self@.regions.subrange(0, n0) == old_regions,
                forall|k: int|
                    n0 <= k < self@.regions.len() ==> !(#[trigger] self@.regions[k]).published
                        && self@.regions[k].start >= a0,
                forall|j: int|
                    0 <= j < i ==> (#[trigger] self@.regions[n0 + j]).kind == RegionKind::Code
                        && self@.regions[n0 + j].bytes == functions@[j]@.body,
                forall|j: int|
                    0 <= j < i ==> (#[trigger] fptrs@[j]).0 == self@.regions[n0 + j].start,
                registry@.entries == old_entries + unwind_entries(
                    functions@.map_values(|b: FunctionBody| b@).take(i as int),
                    fptrs@.map_values(|p: FunctionBodyPtr| p.0),
                ),
            decreases functions.len() - i,
        {
            let ghost regions_pre = self@.regions;
            let ghost fptrs_pre = fptrs@;
            let ghost fs_pre = functions@.map_values(|b: FunctionBody| b@).take(i as int);
            let ghost st_pre = fptrs@.map_values(|p: FunctionBodyPtr| p.0);
            let body_copy = copy_vec(&functions[i].body);
            let body_len = functions[i].body.len() as u64;
            match self.place(body_copy, RegionKind::Code) {
                Err(m) => {
                    proof {
                        assert(fsz.len() == functions@.len());
                        lemma_space_needed_prefix(fsz, i as int);
                        lemma_space_needed_add(fsz, esz);
                        lemma_space_needed_add(fsz + esz, dsz);
                        lemma_space_needed_nonneg(esz);
                        lemma_space_needed_nonneg(dsz);
                        assert(fsz[i as int] == functions@[i as int]@.body.len());
                    }
                    return Err(m);
                },
                Ok(addr) => {
                    match &functions[i].unwind_info {
                        Some(u) => {
                            registry.register(addr, body_len, copy_vec(u));
                        },
                        None => {},
                    }
                    fptrs.push(FunctionBodyPtr(addr));
                    proof {
                        assert(fsz.len() == functions@.len());
                        assert(fsz[i as int] == functions@[i as int]@.body.len());
                        assert(fsz.take(i + 1).drop_last() =~= fsz.take(i as int));
                        assert(fsz.take(i + 1).last() == fsz[i as int]);
                        lemma_unwind_entries_snoc(fs_pre, st_pre, functions@[i as int]@, addr);
                        assert(functions@.map_values(|b: FunctionBody| b@).take(i + 1) =~= fs_pre
                            .push(functions@[i as int]@));
                        assert(fptrs@ =~= fptrs_pre.push(FunctionBodyPtr(addr)));
                        assert(fptrs@.map_values(|p: FunctionBodyPtr| p.0) =~= st_pre.push(addr));
                        assert(self@.regions.subrange(0, n0) =~= old_regions);
                        assert forall|j: int| 0 <= j < i + 1 implies (
                        #[trigger] self@.regions[n0 + j]).kind == RegionKind::Code
                            && self@.regions[n0 + j].bytes == functions@[j]@.body by {
                            if j < i {
                                assert(self@.regions[n0 + j] == regions_pre[n0 + j]);
                            }
                        }
                        assert forall|j: int| 0 <= j < i + 1 implies (#[trigger] fptrs@[j]).0
                            == self@.regions[n0 + j].start by {
                            if j < i {
                                assert(fptrs@[j] == fptrs_pre[j]);
                                assert(self@.regions[n0 + j] == regions_pre[n0 + j]);
                            }
                        }
                    }
                    i = i + 1;
                },
            }
        }

        let ghost fdone = self@.regions.len() as int;
        let ghost fviews = functions@.map_values(|b: FunctionBody| b@);
        let ghost fstarts = fptrs@.map_values(|p: FunctionBodyPtr| p.0);
        proof {
            assert(fviews.take(functions@.len() as int) =~= fviews);
            assert(fsz.take(functions@.len() as int) =~= fsz);
            assert(esz.take(0) =~= Seq::<nat>::empty());
        }
        let mut eptrs: Vec<SectionBodyPtr> = Vec::new();
        let mut j: usize = 0;
        while j < executable_sections.len()
            invariant
                n0 == old(self)@.regions.len() as int,
                a0 == old(self)@.next_addr,
                old_regions == old(self)@.regions,
                old_entries == old(registry)@.entries,
                fviews == functions@.map_values(|b: FunctionBody| b@),
                fstarts == fptrs@.map_values(|p: FunctionBodyPtr| p.0),
                self.wf(),
                self.published_upto == old(self).published_upto,
                self@.registries == old(self)@.registries,
                !registry@.published,
                j <= executable_sections@.len(),
                eptrs@.len() == j,
                fsz == functions@.map_values(|b: FunctionBody| b@.body.len()),
                esz == executable_sections@.map_values(|s2: CustomSection| s2@.bytes.len()),
                dsz == data_sections@.map_values(|s2: CustomSection| s2@.bytes.len()),
                self@.next_addr as int == a0 + space_needed(fsz) + space_needed(
                    esz.take(j as int),
                ),
                fdone == n0 + functions@.len(),
                fptrs@.len() == functions@.len(),
                self@.regions.len() == fdone + j,
                self@.next_addr >= a0,
                self@.regions.subrange(0, n0) == old_regions,
                forall|k: int|
                    n0 <= k < self@.regions.len() ==> !(#[trigger] self@.regions[k]).published
                        && self@.regions[k].start >= a0,
                forall|q: int|
                    0 <= q < functions@.len() ==> (#[trigger] self@.regions[n0 + q]).kind
                        == RegionKind::Code && self@.regions[n0 + q].bytes == functions@[q]@.body,
                forall|q: int|
                    0 <= q < functions@.len() ==> (#[trigger] fptrs@[q]).0 == self@.regions[n0
                        + q].start,
                forall|q: int|
                    0 <= q < j ==> (#[trigger] self@.regions[fdone + q]).kind == RegionKind::Code
                        && self@.regions[fdone + q].bytes == executable_sections@[q]@.bytes,
                forall|q: int|
                    0 <= q < j ==> (#[trigger] eptrs@[q]).0 == self@.regions[fdone + q].start,
                registry@.entries == old_entries + unwind_entries(fviews, fstarts),
            decreases executable_sections.len() - j,
        {
            let ghost regions_pre = self@.regions;
            let ghost eptrs_pre = eptrs@;
            let bytes_copy = copy_vec(&executable_sections[j].bytes);
            match self.place(bytes_copy, RegionKind::Code) {
                Err(m) => {
                    proof {
                        assert(esz.len() == executable_sections@.len());
                        lemma_space_needed_prefix(esz, j as int);
                        lemma_space_needed_add(fsz, esz);
                        lemma_space_needed_add(fsz + esz, dsz);
                        lemma_space_needed_nonneg(dsz);
                        assert(esz[j as int] == executable_sections@[j as int]@.bytes.len());
                    }
                    return Err(m);
                },
                Ok(addr) => {
                    eptrs.push(SectionBodyPtr(addr));
                    proof {
                        assert(esz.len() == executable_sections@.len());
                        assert(esz[j as int] == executable_sections@[j as int]@.bytes.len());
                        assert(esz.take(j + 1).drop_last() =~= esz.take(j as int));
                        assert(esz.take(j + 1).last() == esz[j as int]);
                        assert(self@.regions.subrange(0, n0) =~= old_regions);
                        assert forall|q: int| 0 <= q < functions@.len() implies (
                        #[trigger] self@.regions[n0 + q]).kind == RegionKind::Code
                            && self@.regions[n0 + q].bytes == functions@[q]@.body by {
                            assert(self@.regions[n0 + q] == regions_pre[n0 + q]);
                        }
                        assert forall|q: int| 0 <= q < functions@.len() implies (
                        #[trigger] fptrs@[q]).0 == self@.regions[n0 + q].start by {
                            assert(self@.regions[n0 + q] == regions_pre[n0 + q]);
                        }
                        assert forall|q: int| 0 <= q < j + 1 implies (
                        #[trigger] self@.regions[fdone + q]).kind == RegionKind::Code
                            && self@.regions[fdone + q].bytes == executable_sections@[q]@.bytes by {
                            if q < j {
                                assert(self@.regions[fdone + q] == regions_pre[fdone + q]);
                            }
                        }
                        assert forall|q: int| 0 <= q < j + 1 implies (#[trigger] eptrs@[q]).0
                            == self@.regions[fdone + q].start by {
                            if q < j {
                                assert(eptrs@[q] == eptrs_pre[q]);
                                assert(self@.regions[fdone + q] == regions_pre[fdone + q]);
                            }
                        }
                    }
                    j = j + 1;
                },
            }
        }

        let ghost edone = self@.regions.len() as int;
        proof {
            assert(esz.take(executable_sections@.len() as int) =~= esz);
            assert(dsz.take(0) =~= Seq::<nat>::empty());
        }
        let mut dptrs: Vec<SectionBodyPtr> = Vec::new();
        let mut k: usize = 0;
        while k < data_sections.len()
            invariant
                n0 == old(self)@.regions.len() as int,
                a0 == old(self)@.next_addr,
                old_regions == old(self)@.regions,
                old_entries == old(registry)@.entries,
                fviews == functions@.map_values(|b: FunctionBody| b@),
                fstarts == fptrs@.map_values(|p: FunctionBodyPtr| p.0),
                self.wf(),
                self.published_upto == old(self).published_upto,
                self@.registries == old(self)@.registries,
                !registry@.published,
                k <= data_sections@.len(),
                dptrs@.len() == k,
                fsz == functions@.map_values(|b: FunctionBody| b@.body.len()),
                esz == executable_sections@.map_values(|s2: CustomSection| s2@.bytes.len()),
                dsz == data_sections@.map_values(|s2: CustomSection| s2@.bytes.len()),
                self@.next_addr as int == a0 + space_needed(fsz) + space_needed(esz)
                    + space_needed(dsz.take(k as int)),
                fdone == n0 + functions@.len(),
                edone == fdone + executable_sections@.len(),
                fptrs@.len() == functions@.len(),
                eptrs@.len() == executable_sections@.len(),
                self@.regions.len() == edone + k,
                self@.next_addr >= a0,
                self@.regions.subrange(0, n0) == old_regions,
                forall|q: int|
                    n0 <= q < self@.regions.len() ==> !(#[trigger] self@.regions[q]).published
                        && self@.regions[q].start >= a0,
                forall|q: int|
                    0 <= q < functions@.len() ==> (#[trigger] self@.regions[n0 + q]).kind
                        == RegionKind::Code && self@.regions[n0 + q].bytes == functions@[q]@.body,
                forall|q: int|
                    0 <= q < functions@.len() ==> (#[trigger] fptrs@[q]).0 == self@.regions[n0
                        + q].start,
                forall|q: int|
                    0 <= q < executable_sections@.len() ==> (
                    #[trigger] self@.regions[fdone + q]).kind == RegionKind::Code
                        && self@.regions[fdone + q].bytes == executable_sections@[q]@.bytes,
                forall|q: int|
                    0 <= q < executable_sections@.len() ==> (#[trigger] eptrs@[q]).0
                        == self@.regions[fdone + q].start,
                forall|q: int|
                    0 <= q < k ==> (#[trigger] self@.regions[edone + q]).kind == RegionKind::Data
                        && self@.regions[edone + q].bytes == data_sections@[q]@.bytes,
                forall|q: int|
                    0 <= q < k ==> (#[trigger] dptrs@[q]).0 == self@.regions[edone + q].start,
                registry@.entries == old_entries + unwind_entries(fviews, fstarts),
            decreases data_sections.len() - k,
        {
            let ghost regions_pre = self@.regions;
            let ghost dptrs_pre = dptrs@;
            let ghost eptrs_pre = eptrs@;
            let bytes_copy = copy_vec(&data_sections[k].bytes);
            match self.place(bytes_copy, RegionKind::Data) {
                Err(m) => {
                    proof {
                        assert(dsz.len() == data_sections@.len());
                        lemma_space_needed_prefix(dsz, k as int);
                        lemma_space_needed_add(fsz, esz);
                        lemma_space_needed_add(fsz + esz, dsz);
                        lemma_space_needed_nonneg(esz);
                        assert(dsz[k as int] == data_sections@[k as int]@.bytes.len());
                    }
                    return Err(m);
                },
                Ok(addr) => {
                    dptrs.push(SectionBodyPtr(addr));
                    proof {
                        assert(dsz.len() == data_sections@.len());
                        assert(dsz[k as int] == data_sections@[k as int]@.bytes.len());
                        assert(dsz.take(k + 1).drop_last() =~= dsz.take(k as int));
                        assert(dsz.take(k + 1).last() == dsz[k as int]);
                        assert(self@.regions.subrange(0, n0) =~= old_regions);
                        assert forall|q: int| 0 <= q < functions@.len() implies (
                        #[trigger] self@.regions[n0 + q]).kind == RegionKind::Code
                            && self@.regions[n0 + q].bytes == functions@[q]@.body by {
                            assert(self@.regions[n0 + q] == regions_pre[n0 + q]);
                        }
                        assert forall|q: int| 0 <= q < functions@.len() implies (
                        #[trigger] fptrs@[q]).0 == self@.regions[n0 + q].start by {
                            assert(self@.regions[n0 + q] == regions_pre[n0 + q]);
                        }
                        assert forall|q: int| 0 <= q < executable_sections@.len() implies (
                        #[trigger] self@.regions[fdone + q]).kind == RegionKind::Code
                            && self@.regions[fdone + q].bytes == executable_sections@[q]@.bytes by {
                            assert(self@.regions[fdone + q] == regions_pre[fdone + q]);
                        }
                        assert forall|q: int| 0 <= q < executable_sections@.len() implies (
                        #[trigger] eptrs@[q]).0 == self@.regions[fdone + q].start by {
                            assert(eptrs@[q] == eptrs_pre[q]);
                            assert(self@.regions[fdone + q] == regions_pre[fdone + q]);
                        }
                        assert forall|q: int| 0 <= q < k + 1 implies (
                        #[trigger] self@.regions[edone + q]).kind == RegionKind::Data
                            && self@.regions[edone + q].bytes == data_sections@[q]@.bytes by {
                            if q < k {
                                assert(self@.regions[edone + q] == regions_pre[edone + q]);
                            }
                        }
                        assert forall|q: int| 0 <= q < k + 1 implies (#[trigger] dptrs@[q]).0
                            == self@.regions[edone + q].start by {
                            if q < k {
                                assert(dptrs@[q] == dptrs_pre[q]);
                                assert(self@.regions[edone + q] == regions_pre[edone + q]);
                            }
                        }
                    }
                    k = k + 1;
                },
            }
        }

        Ok((fptrs, eptrs, dptrs))
    }


    /// The one-way transition: every allocated code region becomes
    /// executable and no longer writable. Data regions stay writable.
    pub fn publish(&mut self)
        requires
            old(self).wf(),
        ensures
            final(self).wf(),
            final(self)@.next_addr == old(self)@.next_addr,
            final(self)@.registries == old(self)@.registries,
            final(self)@.regions.len() == old(self)@.regions.len(),
            forall|i: int|
                0 <= i < old(self)@.regions.len() ==> {
                    let rg = #[trigger] final(self)@.regions[i];
                    let rg0 = old(self)@.regions[i];
                    &&& rg.start == rg0.start
                    &&& rg.bytes == rg0.bytes
                    &&& rg.kind == rg0.kind
                    &&& rg.published == (rg0.kind == RegionKind::Code)
                },
    {
        self.published_upto = self.regions.len();
        proof {
            assert forall|i: int| 0 <= i < self@.regions.len() implies region_end(
                #[trigger] self@.regions[i],
            ) < self@.next_addr by {
                assert(region_end(old(self)@.regions[i]) < old(self)@.next_addr);
            }
            assert forall|i: int, j: int| 0 <= i < j < self@.regions.len() implies region_end(
                #[trigger] self@.regions[i],
            ) < (#[trigger] self@.regions[j]).start by {
                assert(region_end(old(self)@.regions[i]) < old(self)@.regions[j].start);
            }
            assert forall|i: int| 0 <= i < self@.regions.len() implies (
            #[trigger] self@.regions[i]).start >= CODE_BASE by {
                assert(old(self)@.regions[i].start >= CODE_BASE);
            }
        }
    }

    /// Attaches a published unwind registry for the just-published
    /// regions, keeping it alive for the engine's lifetime; called no
    /// earlier than `publish`.
    pub fn publish_unwind_registry(&mut self, registry: UnwindRegistry)
        requires
            old(self).wf(),
            registry@.published,
            forall|i: int|
                0 <= i < old(self)@.regions.len() ==> ((#[trigger] old(self)@.regions[i]).kind
                    == RegionKind::Code ==> old(self)@.regions[i].published),
        ensures
            final(self).wf(),
            final(self)@.regions == old(self)@.regions,
            final(self)@.next_addr == old(self)@.next_addr,
            final(self)@.registries == old(self)@.registries.push(registry@),
    {
        let ghost prev = self@.registries;
        self.registries.push(registry);
        proof {
            assert(self@.regions =~= old(self)@.regions);
            assert(self@.registries =~= prev.push(self.registries@[prev.len() as int]@));
        }
    }

    /// How many regions have been allocated.
    pub fn region_count(&self) -> (r: usize)
        ensures
            r == self@.regions.len(),
    {
        self.regions.len()
    }

    /// Whether the region at `idx` has been published executable.
    pub fn is_region_published(&self, idx: usize) -> (r: bool)
        requires
            idx < self@.regions.len(),
        ensures
            r == self@.regions[idx as int].published,
    {
        idx < self.published_upto && matches!(self.regions[idx].kind, RegionKind::Code)
    }

    /// The bytes placed in the region at `idx`.
    pub fn region_bytes(&self, idx: usize) -> (r: &Vec<u8>)
        requires
            idx < self@.regions.len(),
        ensures
            r@ == self@.regions[idx as int].bytes,
    {
        &self.regions[idx].bytes
    }
}

} // verus!
