//! The engine: a cloneable, thread-shareable facade over one lock-protected
//! aggregate of compiler, signature registry, trampoline table and code
//! memory. A full engine compiles, validates and loads modules; a headless
//! engine refuses to compile or validate and only loads previously
//! serialized artifacts.

use vstd::prelude::*;
use vstd::rwlock::{RwLock, RwLockPredicate};

use std::sync::Arc;

use crate::code_memory::{
    lemma_space_needed_add, space_needed, unwind_entries, CodeMemory, FunctionBodyPtr,
    SectionBodyPtr,
};
use crate::error::{CompileError, DeserializeError};
use crate::serialize::{decode_module, encode_module, module_wf, ModuleInfo, SerializableModule};
use crate::signature::{
    registered_index, registered_types, registry_wf, SignatureRegistry, VMSharedSignatureIndex,
};
use crate::types::{
    CustomSection, CustomSectionProtection, CustomSectionView, Features, FunctionBody,
    FunctionBodyView, FunctionType, FunctionTypeView, Target, Tunables,
};
use crate::unwind::UnwindRegistry;

verus! {

/// Relies on `Arc::clone` of the standard library: the clone is another
/// handle to the same allocation, so its value equals the original's.
#[verifier::external_body]
fn arc_clone<T>(v: &Arc<T>) -> (r: Arc<T>)
    ensures
        r == *v,
{
    Arc::clone(v)
}

/// A process-local token telling engine instances apart, so artifacts and
/// handles of different engines are not silently mixed.
#[derive(Clone, Copy, PartialEq, Eq, Structural, Debug)]
pub struct EngineId {
    pub id: u64,
}

/// A callable trampoline of the fixed host-callable convention, modelled by
/// the address of its machine code: exactly the address the trampoline's
/// body was allocated at.
#[derive(Clone, Copy, PartialEq, Eq, Structural, Debug)]
pub struct VMTrampoline(pub u64);

/// The trampoline table after `i` is bound to `p`: grown with empty slots
/// up to `i` where needed, slot `i` set.
pub open spec fn table_set(t: Seq<Option<VMTrampoline>>, i: int, p: VMTrampoline) -> Seq<
    Option<VMTrampoline>,
> {
    if i < t.len() {
        t.update(i, Some(p))
    } else {
        t + Seq::new((i - t.len()) as nat, |_j: int| None).push(Some(p))
    }
}

/// The trampoline the table answers for index `i`.
pub open spec fn table_get(t: Seq<Option<VMTrampoline>>, i: int) -> Option<VMTrampoline> {
    if 0 <= i < t.len() {
        t[i]
    } else {
        None
    }
}

/// The registry and trampoline table after the trampolines `ps` are linked
/// under the function types `ts`, in order: each type is interned and its
/// trampoline bound to the shared index.
pub open spec fn linked(
    s: Seq<FunctionTypeView>,
    t: Seq<Option<VMTrampoline>>,
    ts: Seq<FunctionTypeView>,
    ps: Seq<VMTrampoline>,
) -> (Seq<FunctionTypeView>, Seq<Option<VMTrampoline>>)
    decreases ts.len(),
{
    if ts.len() == 0 {
        (s, t)
    } else {
        let prev = linked(s, t, ts.drop_last(), ps.drop_last());
        (
            registered_types(prev.0, ts.last()),
            table_set(prev.1, registered_index(prev.0, ts.last()), ps.last()),
        )
    }
}

/// The custom sections of `s` whose protection is `prot`, in order.
pub open spec fn sections_with(
    s: Seq<CustomSectionView>,
    prot: CustomSectionProtection,
) -> Seq<CustomSectionView>
    decreases s.len(),
{
    if s.len() == 0 {
        Seq::empty()
    } else {
        let rest = sections_with(s.drop_last(), prot);
        if s.last().protection == prot {
            rest.push(s.last())
        } else {
            rest
        }
    }
}

/// The address space that loading a module consumes: every body of the
/// three groups and every custom section, each with its guard gap.
pub open spec fn module_space(
    fs: Seq<FunctionBodyView>,
    ms: Seq<FunctionBodyView>,
    ds: Seq<FunctionBodyView>,
    secs: Seq<CustomSectionView>,
) -> int {
    space_needed(
        fs.map_values(|b: FunctionBodyView| b.body.len()) + ms.map_values(
            |b: FunctionBodyView| b.body.len(),
        ) + ds.map_values(|b: FunctionBodyView| b.body.len()) + sections_with(
            secs,
            CustomSectionProtection::ReadExecute,
        ).map_values(|s2: CustomSectionView| s2.bytes.len()) + sections_with(
            secs,
            CustomSectionProtection::Read,
        ).map_values(|s2: CustomSectionView| s2.bytes.len()),
    )
}

/// The narrow boundary to the pluggable code-generation backend. The
/// engine consumes it and promises nothing of its results; implementations
/// live with the embedder.
pub trait Compiler {
    /// Validates a module without compiling it.
    fn validate_module(&self, features: &Features, data: &[u8]) -> Result<(), CompileError>;

    /// Turns a module's bytes into typed function bodies, trampolines and
    /// sections.
    fn compile_module(
        &self,
        target: &Target,
        features: &Features,
        tunables: &Tunables,
        data: &[u8],
    ) -> Result<SerializableModule, CompileError>;
}

/// Everything a loaded module hands back: one pointer per body in each
/// group, the section pointers of both protections, and the shared index
/// each call trampoline was registered under.
pub struct AllocatedModule {
    pub functions: Vec<FunctionBodyPtr>,
    pub function_call_trampolines: Vec<FunctionBodyPtr>,
    pub dynamic_function_trampolines: Vec<FunctionBodyPtr>,
    pub executable_sections: Vec<SectionBodyPtr>,
    pub data_sections: Vec<SectionBodyPtr>,
    pub trampoline_signatures: Vec<VMSharedSignatureIndex>,
}

/// The result of compiling or deserializing a module: allocated, published
/// pointers plus provenance back to the owning engine, and the module's
/// serializable form for writing out.
pub struct JITArtifact {
    pub engine_id: EngineId,
    pub module: SerializableModule,
    pub finished_functions: Vec<FunctionBodyPtr>,
    pub finished_function_call_trampolines: Vec<VMTrampoline>,
    pub finished_dynamic_function_trampolines: Vec<FunctionBodyPtr>,
    pub signatures: Vec<VMSharedSignatureIndex>,
    pub executable_sections: Vec<SectionBodyPtr>,
    pub data_sections: Vec<SectionBodyPtr>,
}

impl JITArtifact {
    /// Writes the artifact's module out in its serialized form: succeeds
    /// exactly when every list and blob fits the format's length fields,
    /// and the bytes are exactly the module's serialization.
    pub fn serialize(&self) -> (r: Option<Vec<u8>>)
        ensures
            r is Some <==> crate::serialize::encodable(self.module@),
            r matches Some(bytes) ==> bytes@ == crate::serialize::spec_encode_module(
                self.module@,
            ),
    {
        encode_module(&self.module)
    }
}

/// The mutable aggregate behind one engine: the optional compiler, the
/// trampoline table, the code memory, the signature registry and the
/// feature set, guarded by the facade's lock.
pub struct JITEngineInner<C: Compiler> {
    /// The compiler; absent on a headless engine.
    pub compiler: Option<C>,
    /// Trampoline for each shared signature index that has one.
    pub function_call_trampolines: Vec<Option<VMTrampoline>>,
    /// The features modules are compiled with.
    pub features: Features,
    /// Owns and publishes the compiled code.
    pub code_memory: CodeMemory,
    /// Interns function types into shared indices.
    pub signatures: SignatureRegistry,
}

impl<C: Compiler> JITEngineInner<C> {
    /// The registry holds pairwise distinct types and the code regions lie
    /// disjoint.
    pub open spec fn wf(&self) -> bool {
        &&& self.signatures.wf()
        &&& self.code_memory.wf()
    }

    /// Gets the compiler attached to this engine, or the error a headless
    /// engine answers everywhere a compiler would be needed.
    pub fn compiler(&self) -> (r: Result<&C, CompileError>)
        ensures
            r is Ok <==> self.compiler is Some,
            r matches Err(e) ==> e matches CompileError::Codegen(_),
    {
        match &self.compiler {
            Some(c) => Ok(c),
            None => Err(
                CompileError::Codegen(
                    "The JITEngine is operating in headless mode, so it can only execute already compiled Modules.".to_string(),
                ),
            ),
        }
    }

    /// Validates the module bytes through the attached compiler; a
    /// headless engine cannot validate and says so.
    pub fn validate(&self, data: &[u8]) -> (r: Result<(), CompileError>)
        ensures
            self.compiler is None ==> r matches Err(CompileError::Validate(_)),
    {
        match &self.compiler {
            Some(c) => c.validate_module(&self.features, data),
            None => Err(
                CompileError::Validate(
                    "The JITEngine is not compiled with compiler support, which is required for validating".to_string(),
                ),
            ),
        }
    }

    /// The features modules are compiled with.
    pub fn features(&self) -> (r: &Features)
        ensures
            *r == self.features,
    {
        &self.features
    }

    /// The shared signature registry.
    pub fn signatures(&self) -> (r: &SignatureRegistry)
        ensures
            r@ == self.signatures@,
    {
        &self.signatures
    }

    /// Interns a function type; equal types get equal indices.
    pub fn register_signature(&mut self, func_type: &FunctionType) -> (idx: VMSharedSignatureIndex)
        requires
            old(self).wf(),
            old(self).signatures@.len() < 0xffff_ffff,
        ensures
            final(self).wf(),
            final(self).signatures@ == registered_types(old(self).signatures@, func_type@),
            idx.index == registered_index(old(self).signatures@, func_type@),
            final(self).compiler == old(self).compiler,
            final(self).function_call_trampolines == old(self).function_call_trampolines,
            final(self).features == old(self).features,
            final(self).code_memory == old(self).code_memory,
    {
        self.signatures.register(func_type)
    }

    /// Looks a shared index up; nothing comes back for one never issued.
    pub fn lookup_signature(&self, sig: VMSharedSignatureIndex) -> (r: Option<FunctionType>)
        ensures
            match r {
                Some(t) => (sig.index as int) < self.signatures@.len() && t@
                    == self.signatures@[sig.index as int],
                None => (sig.index as int) >= self.signatures@.len(),
            },
    {
        self.signatures.lookup(sig)
    }

    /// The trampoline pre-registered for a signature index, or nothing for
    /// an index no loaded module brought a trampoline for.
    pub fn function_call_trampoline(&self, sig: VMSharedSignatureIndex) -> (r: Option<
        VMTrampoline,
    >)
        ensures
            r == table_get(self.function_call_trampolines@, sig.index as int),
    {
        let i = sig.index as usize;
        if i < self.function_call_trampolines.len() {
            self.function_call_trampolines[i]
        } else {
            None
        }
    }

    /// Binds trampoline `p` to slot `idx`, growing the table as needed.
    fn bind_trampoline(&mut self, idx: VMSharedSignatureIndex, p: VMTrampoline)
        ensures
            final(self).function_call_trampolines@ == table_set(
                old(self).function_call_trampolines@,
                idx.index as int,
                p,
            ),
            final(self).compiler == old(self).compiler,
            final(self).features == old(self).features,
            final(self).code_memory == old(self).code_memory,
            final(self).signatures == old(self).signatures,
    {
        let i = idx.index as usize;
        let ghost t0 = self.function_call_trampolines@;
        if i < self.function_call_trampolines.len() {
            self.function_call_trampolines[i] = Some(p);
            proof {
                assert(self.function_call_trampolines@ =~= table_set(t0, i as int, p));
            }
        } else {
            while self.function_call_trampolines.len() < i
                invariant
                    t0.len() <= self.function_call_trampolines@.len() <= i as int,
                    self.function_call_trampolines@.subrange(0, t0.len() as int) == t0,
                    forall|j: int|
                        t0.len() <= j < self.function_call_trampolines@.len() ==> (
                        #[trigger] self.function_call_trampolines@[j]) is None,
                    self.compiler == old(self).compiler,
                    self.features == old(self).features,
                    self.code_memory == old(self).code_memory,
                    self.signatures == old(self).signatures,
                decreases i - self.function_call_trampolines.len(),
            {
                self.function_call_trampolines.push(None);
                proof {
                    assert(self.function_call_trampolines@.subrange(0, t0.len() as int) =~= t0);
                }
            }
            self.function_call_trampolines.push(Some(p));
            proof {
                assert(self.function_call_trampolines@ =~= t0 + Seq::new(
                    (i - t0.len()) as nat,
                    |_j: int| None,
                ).push(Some(p)));
            }
        }
    }

    /// Places a compiled module's bodies and sections into code memory in
    /// one bulk call — ordinary functions, then call trampolines, then
    /// dynamic trampolines, with the custom sections partitioned by
    /// protection — then interns every call trampoline's function type and
    /// binds the trampoline to the shared index. Nothing is published yet.
    pub fn allocate(
        &mut self,
        registry: &mut UnwindRegistry,
        module: &ModuleInfo,
        functions: &Vec<FunctionBody>,
        function_call_trampolines: &Vec<FunctionBody>,
        dynamic_function_trampolines: &Vec<FunctionBody>,
        custom_sections: &Vec<CustomSection>,
    ) -> (r: Result<AllocatedModule, CompileError>)
        requires
            old(self).wf(),
            !old(registry)@.published,
            function_call_trampolines@.len() <= module@.signatures.len(),
        ensures
            final(self).wf(),
            !final(registry)@.published,
            final(self).compiler == old(self).compiler,
            final(self).features == old(self).features,
            final(self).code_memory@.registries == old(self).code_memory@.registries,
            final(self).code_memory@.regions.len() >= old(self).code_memory@.regions.len(),
            final(self).code_memory@.regions.subrange(
                0,
                old(self).code_memory@.regions.len() as int,
            ) == old(self).code_memory@.regions,
            forall|k: int|
                old(self).code_memory@.regions.len() <= k < final(self).code_memory@.regions.len()
                    ==> !(#[trigger] final(self).code_memory@.regions[k]).published,
            old(self).signatures@.len() + function_call_trampolines@.len() < 0xffff_ffff && old(self).code_memory@.next_addr + module_space(
                functions@.map_values(|b: FunctionBody| b@),
                function_call_trampolines@.map_values(|b: FunctionBody| b@),
                dynamic_function_trampolines@.map_values(|b: FunctionBody| b@),
                custom_sections@.map_values(|s2: CustomSection| s2@),
            ) <= u64::MAX ==> r is Ok,
            r matches Err(e) ==> e matches CompileError::Resource(_),
            match r {
                Ok(a) => {
                    let n0 = old(self).code_memory@.regions.len() as int;
                    let nf = functions@.len() as int;
                    let nm = function_call_trampolines@.len() as int;
                    let nk = dynamic_function_trampolines@.len() as int;
                    let secs = custom_sections@.map_values(|s: CustomSection| s@);
                    let execs = sections_with(secs, CustomSectionProtection::ReadExecute);
                    let datas = sections_with(secs, CustomSectionProtection::Read);
                    &&& a.functions@.len() == nf
                    &&& a.function_call_trampolines@.len() == nm
                    &&& a.dynamic_function_trampolines@.len() == nk
                    &&& a.executable_sections@.len() == execs.len()
                    &&& a.data_sections@.len() == datas.len()
                    &&& a.trampoline_signatures@.len() == nm
                    &&& final(self).code_memory@.regions.len() == n0 + nf + nm + nk + execs.len()
                        + datas.len()
                    &&& forall|i: int|
                        0 <= i < nf ==> (#[trigger] final(self).code_memory@.regions[n0 + i]).bytes
                            == functions@[i]@.body && final(self).code_memory@.regions[n0 + i].kind
                            == crate::code_memory::RegionKind::Code
                    &&& forall|i: int|
                        0 <= i < nf ==> (#[trigger] a.functions@[i]).0 == final(self).code_memory@.regions[n0 + i].start
                    &&& forall|i: int|
                        0 <= i < nm ==> (#[trigger] final(self).code_memory@.regions[n0 + nf
                            + i]).bytes == function_call_trampolines@[i]@.body && final(self).code_memory@.regions[n0 + nf + i].kind
                            == crate::code_memory::RegionKind::Code
                    &&& forall|i: int|
                        0 <= i < nm ==> (#[trigger] a.function_call_trampolines@[i]).0 == final(self).code_memory@.regions[n0 + nf + i].start
                    &&& forall|i: int|
                        0 <= i < nk ==> (#[trigger] final(self).code_memory@.regions[n0 + nf + nm
                            + i]).bytes == dynamic_function_trampolines@[i]@.body && final(self).code_memory@.regions[n0 + nf + nm + i].kind
                            == crate::code_memory::RegionKind::Code
                    &&& forall|i: int|
                        0 <= i < nk ==> (#[trigger] a.dynamic_function_trampolines@[i]).0 == final(self).code_memory@.regions[n0 + nf + nm + i].start
                    &&& forall|i: int|
                        0 <= i < execs.len() ==> (#[trigger] final(self).code_memory@.regions[n0
                            + nf + nm + nk + i]).bytes == execs[i].bytes && final(self).code_memory@.regions[n0 + nf + nm + nk + i].kind
                            == crate::code_memory::RegionKind::Code && (
                        #[trigger] a.executable_sections@[i]).0 == final(self).code_memory@.regions[n0 + nf + nm + nk + i].start
                    &&& forall|i: int|
                        0 <= i < datas.len() ==> (#[trigger] final(self).code_memory@.regions[n0
                            + nf + nm + nk + execs.len() + i]).bytes == datas[i].bytes && final(self).code_memory@.regions[n0 + nf + nm + nk + execs.len() + i].kind
                            == crate::code_memory::RegionKind::Data && (
                        #[trigger] a.data_sections@[i]).0 == final(self).code_memory@.regions[n0
                            + nf + nm + nk + execs.len() + i].start
                    &&& (final(self).signatures@, final(self).function_call_trampolines@)
                        == linked(
                        old(self).signatures@,
                        old(self).function_call_trampolines@,
                        module@.signatures.take(nm),
                        a.function_call_trampolines@.map_values(
                            |p: FunctionBodyPtr| VMTrampoline(p.0),
                        ),
                    )
                    &&& forall|i: int|
                        0 <= i < nm ==> (#[trigger] a.trampoline_signatures@[i]).index
                            == registered_index(
                            linked(
                                old(self).signatures@,
                                old(self).function_call_trampolines@,
                                module@.signatures.take(i),
                                a.function_call_trampolines@.map_values(
                                    |p: FunctionBodyPtr| VMTrampoline(p.0),
                                ).take(i),
                            ).0,
                            module@.signatures[i],
                        )
                    &&& final(registry)@.entries == old(registry)@.entries + unwind_entries(
                        functions@.map_values(|b: FunctionBody| b@) + function_call_trampolines@
                            .map_values(|b: FunctionBody| b@) + dynamic_function_trampolines@
                            .map_values(|b: FunctionBody| b@),
                        a.functions@.map_values(|p: FunctionBodyPtr| p.0)
                            + a.function_call_trampolines@.map_values(|p: FunctionBodyPtr| p.0)
                            + a.dynamic_function_trampolines@.map_values(|p: FunctionBodyPtr| p.0),
                    )
                },
                Err(_) => {
                    &&& final(self).signatures@ == old(self).signatures@
                    &&& final(self).function_call_trampolines@ == old(self).function_call_trampolines@
                },
            },
    {
        let nf = functions.len();
        let nm = function_call_trampolines.len();
        let nk = dynamic_function_trampolines.len();
        if nm >= 0xffff_ffff || self.signatures.len() >= 0xffff_ffff - nm {
            return Err(CompileError::Resource("signature registry exhausted".to_string()));
        }

        let mut combined: Vec<FunctionBody> = Vec::new();
        let mut i: usize = 0;
        while i < nf
            invariant
                nf == functions@.len(),
                i <= nf,
                combined@.len() == i,
                forall|j: int| 0 <= j < i ==> (#[trigger] combined@[j])@ == functions@[j]@,
            decreases nf - i,
        {
            combined.push(functions[i].duplicate());
            i = i + 1;
        }
        let mut i: usize = 0;
        while i < nm
            invariant
                nf == functions@.len(),
                nm == function_call_trampolines@.len(),
                i <= nm,
                combined@.len() == nf + i,
                forall|j: int| 0 <= j < nf ==> (#[trigger] combined@[j])@ == functions@[j]@,
                forall|j: int|
                    0 <= j < i ==> (#[trigger] combined@[nf + j])@
                        == function_call_trampolines@[j]@,
            decreases nm - i,
        {
            combined.push(function_call_trampolines[i].duplicate());
            i = i + 1;
        }
        let mut i: usize = 0;
        while i < nk
            invariant
                nf == functions@.len(),
                nm == function_call_trampolines@.len(),
                nk == dynamic_function_trampolines@.len(),
                i <= nk,
                combined@.len() == nf + nm + i,
                forall|j: int| 0 <= j < nf ==> (#[trigger] combined@[j])@ == functions@[j]@,
                forall|j: int|
                    0 <= j < nm ==> (#[trigger] combined@[nf + j])@
                        == function_call_trampolines@[j]@,
                forall|j: int|
                    0 <= j < i ==> (#[trigger] combined@[nf + nm + j])@
                        == dynamic_function_trampolines@[j]@,
            decreases nk - i,
        {
            combined.push(dynamic_function_trampolines[i].duplicate());
            i = i + 1;
        }

        let ghost secs = custom_sections@.map_values(|s: CustomSection| s@);
        let mut exec_sections: Vec<CustomSection> = Vec::new();
        let mut data_sections: Vec<CustomSection> = Vec::new();
        proof {
            assert(secs.take(0) =~= Seq::<CustomSectionView>::empty());
            assert(exec_sections@.map_values(|s: CustomSection| s@) =~= Seq::<
                CustomSectionView,
            >::empty());
            assert(data_sections@.map_values(|s: CustomSection| s@) =~= Seq::<
                CustomSectionView,
            >::empty());
        }
        let mut i: usize = 0;
        while i < custom_sections.len()
            invariant
                secs == custom_sections@.map_values(|s: CustomSection| s@),
                i <= custom_sections@.len(),
                exec_sections@.map_values(|s: CustomSection| s@) == sections_with(
                    secs.take(i as int),
                    CustomSectionProtection::ReadExecute,
                ),
                data_sections@.map_values(|s: CustomSection| s@) == sections_with(
                    secs.take(i as int),
                    CustomSectionProtection::Read,
                ),
            decreases custom_sections.len() - i,
        {
            let ghost pre = secs.take(i as int);
            match custom_sections[i].protection {
                CustomSectionProtection::ReadExecute => {
                    exec_sections.push(custom_sections[i].duplicate());
                },
                CustomSectionProtection::Read => {
                    data_sections.push(custom_sections[i].duplicate());
                },
            }
            proof {
                assert(secs.take(i + 1).drop_last() =~= pre);
                assert(secs.take(i + 1).last() == secs[i as int]);
                assert(exec_sections@.map_values(|s: CustomSection| s@) =~= sections_with(
                    secs.take(i + 1),
                    CustomSectionProtection::ReadExecute,
                ));
                assert(data_sections@.map_values(|s: CustomSection| s@) =~= sections_with(
                    secs.take(i + 1),
                    CustomSectionProtection::Read,
                ));
            }
            i = i + 1;
        }
        proof {
            assert(secs.take(custom_sections@.len() as int) =~= secs);
        }

        let ghost n0 = self.code_memory@.regions.len() as int;
        proof {
            let fl = functions@.map_values(|b: FunctionBody| b@).map_values(
                |b: FunctionBodyView| b.body.len(),
            );
            let ml = function_call_trampolines@.map_values(|b: FunctionBody| b@).map_values(
                |b: FunctionBodyView| b.body.len(),
            );
            let dl = dynamic_function_trampolines@.map_values(|b: FunctionBody| b@).map_values(
                |b: FunctionBodyView| b.body.len(),
            );
            let el = sections_with(secs, CustomSectionProtection::ReadExecute).map_values(
                |s2: CustomSectionView| s2.bytes.len(),
            );
            let rl = sections_with(secs, CustomSectionProtection::Read).map_values(
                |s2: CustomSectionView| s2.bytes.len(),
            );
            let cl = combined@.map_values(|b: FunctionBody| b@.body.len());
            let exl = exec_sections@.map_values(|s2: CustomSection| s2@.bytes.len());
            let dal = data_sections@.map_values(|s2: CustomSection| s2@.bytes.len());
            assert forall|q: int| 0 <= q < cl.len() implies cl[q] == (fl + ml + dl)[q] by {
                if q < nf as int {
                    assert(combined@[q]@ == functions@[q]@);
                } else if q < nf as int + nm as int {
                    let j = q - nf as int;
                    assert(combined@[nf as int + j]@ == function_call_trampolines@[j]@);
                } else {
                    let j = q - nf as int - nm as int;
                    assert(combined@[nf as int + nm as int + j]@
                        == dynamic_function_trampolines@[j]@);
                }
            }
            assert(cl =~= fl + ml + dl);
            assert forall|q: int| 0 <= q < exl.len() implies exl[q] == el[q] by {
                assert(exec_sections@.map_values(|s2: CustomSection| s2@)[q] == sections_with(
                    secs,
                    CustomSectionProtection::ReadExecute,
                )[q]);
            }
            assert(exl.len() == el.len());
            assert(exl =~= el);
            assert forall|q: int| 0 <= q < dal.len() implies dal[q] == rl[q] by {
                assert(data_sections@.map_values(|s2: CustomSection| s2@)[q] == sections_with(
                    secs,
                    CustomSectionProtection::Read,
                )[q]);
            }
            assert(dal.len() == rl.len());
            assert(dal =~= rl);
            lemma_space_needed_add(cl, exl);
            lemma_space_needed_add(cl + exl, dal);
            lemma_space_needed_add(fl + ml + dl, el);
            lemma_space_needed_add(fl + ml + dl + el, rl);
            assert(cl + exl + dal =~= fl + ml + dl + el + rl);
        }
        let (all_ptrs, exec_ptrs, data_ptrs) = match self.code_memory.allocate(
            registry,
            &combined,
            &exec_sections,
            &data_sections,
        ) {
            Ok(x) => x,
            Err(m) => {
                return Err(CompileError::Resource(m));
            },
        };

        proof {
            let lhs = combined@.map_values(|b: FunctionBody| b@);
            let rhs = functions@.map_values(|b: FunctionBody| b@)
                + function_call_trampolines@.map_values(|b: FunctionBody| b@)
                + dynamic_function_trampolines@.map_values(|b: FunctionBody| b@);
            assert forall|q: int| 0 <= q < lhs.len() implies lhs[q] == rhs[q] by {
                if q < nf as int {
                    assert(combined@[q]@ == functions@[q]@);
                } else if q < nf as int + nm as int {
                    let j = q - nf as int;
                    assert(combined@[nf as int + j]@ == function_call_trampolines@[j]@);
                } else {
                    let j = q - nf as int - nm as int;
                    assert(combined@[nf as int + nm as int + j]@
                        == dynamic_function_trampolines@[j]@);
                }
            }
            assert(lhs =~= rhs);
        }

        let tlen = all_ptrs.len();
        let mut funcs: Vec<FunctionBodyPtr> = Vec::new();
        let mut i: usize = 0;
        while i < nf
            invariant
                nf + nm + nk <= tlen,
                tlen == all_ptrs@.len(),
                nf == functions@.len(),
                i <= nf,
                funcs@.len() == i,
                forall|j: int| 0 <= j < i ==> (#[trigger] funcs@[j]) == all_ptrs@[j],
            decreases nf - i,
        {
            funcs.push(all_ptrs[i]);
            i = i + 1;
        }
        let mut tramp_ptrs: Vec<FunctionBodyPtr> = Vec::new();
        let mut i: usize = 0;
        while i < nm
            invariant
                nf + nm + nk <= tlen,
                tlen == all_ptrs@.len(),
                nm == function_call_trampolines@.len(),
                i <= nm,
                tramp_ptrs@.len() == i,
                forall|j: int| 0 <= j < i ==> (#[trigger] tramp_ptrs@[j]) == all_ptrs@[nf + j],
            decreases nm - i,
        {
            tramp_ptrs.push(all_ptrs[nf + i]);
            i = i + 1;
        }
        let mut dyn_ptrs: Vec<FunctionBodyPtr> = Vec::new();
        let mut i: usize = 0;
        while i < nk
            invariant
                nf + nm + nk <= tlen,
                tlen == all_ptrs@.len(),
                nk == dynamic_function_trampolines@.len(),
                i <= nk,
                dyn_ptrs@.len() == i,
                forall|j: int| 0 <= j < i ==> (#[trigger] dyn_ptrs@[j]) == all_ptrs@[nf + nm + j],
            decreases nk - i,
        {
            dyn_ptrs.push(all_ptrs[nf + nm + i]);
            i = i + 1;
        }
        proof {
            let lhs = funcs@.map_values(|p: FunctionBodyPtr| p.0) + tramp_ptrs@.map_values(
                |p: FunctionBodyPtr| p.0,
            ) + dyn_ptrs@.map_values(|p: FunctionBodyPtr| p.0);
            let rhs = all_ptrs@.map_values(|p: FunctionBodyPtr| p.0);
            assert forall|q: int| 0 <= q < rhs.len() implies lhs[q] == rhs[q] by {
                if q < nf as int {
                    assert(funcs@[q] == all_ptrs@[q]);
                } else if q < nf as int + nm as int {
                    let j = q - nf as int;
                    assert(tramp_ptrs@[j] == all_ptrs@[nf as int + j]);
                } else {
                    let j = q - nf as int - nm as int;
                    assert(dyn_ptrs@[j] == all_ptrs@[nf as int + nm as int + j]);
                }
            }
            assert(lhs =~= rhs);
        }

        let ghost cm_after = self.code_memory;
        let ghost reg_after = registry@;
        let ghost sig0 = self.signatures@;
        let ghost table0 = self.function_call_trampolines@;
        let ghost pvals = tramp_ptrs@.map_values(|p: FunctionBodyPtr| VMTrampoline(p.0));
        let ghost sig_len0 = self.signatures@.len();
        let mut sig_ids: Vec<VMSharedSignatureIndex> = Vec::new();
        proof {
            assert(module@.signatures.take(0) =~= Seq::<FunctionTypeView>::empty());
            assert(pvals.take(0) =~= Seq::<VMTrampoline>::empty());
        }
        let mut i: usize = 0;
        while i < nm
            invariant
                self.wf(),
                nm == function_call_trampolines@.len(),
                nm <= module@.signatures.len(),
                nm == tramp_ptrs@.len(),
                pvals == tramp_ptrs@.map_values(|p: FunctionBodyPtr| VMTrampoline(p.0)),
                sig_len0 + nm < 0xffff_ffff,
                i <= nm,
                sig_ids@.len() == i,
                self.signatures@.len() <= sig_len0 + i,
                (self.signatures@, self.function_call_trampolines@) == linked(
                    sig0,
                    table0,
                    module@.signatures.take(i as int),
                    pvals.take(i as int),
                ),
                forall|j: int|
                    0 <= j < i ==> (#[trigger] sig_ids@[j]).index == registered_index(
                        linked(sig0, table0, module@.signatures.take(j), pvals.take(j)).0,
                        module@.signatures[j],
                    ),
                self.compiler == old(self).compiler,
                self.features == old(self).features,
                self.code_memory == cm_after,
                registry@ == reg_after,
            decreases nm - i,
        {
            let ghost sig_pre = self.signatures@;
            let idx = self.signatures.register(&module.signatures[i]);
            self.bind_trampoline(idx, VMTrampoline(tramp_ptrs[i].0));
            sig_ids.push(idx);
            proof {
                assert(module@.signatures.take(i + 1).drop_last() =~= module@.signatures.take(
                    i as int,
                ));
                assert(pvals.take(i + 1).drop_last() =~= pvals.take(i as int));
                assert(module@.signatures.take(i + 1).last() == module@.signatures[i as int]);
                assert(pvals.take(i + 1).last() == pvals[i as int]);
                assert(pvals[i as int] == VMTrampoline(tramp_ptrs@[i as int].0));
            }
            i = i + 1;
        }
        proof {
            assert(module@.signatures.take(nm as int) =~= module@.signatures.take(
                function_call_trampolines@.len() as int,
            ));
            assert(pvals.take(nm as int) =~= pvals);
        }

        proof {
            let cm = self.code_memory@;
            let nfi = nf as int;
            let nmi = nm as int;
            let nki = nk as int;
            let execs = sections_with(secs, CustomSectionProtection::ReadExecute);
            let datas = sections_with(secs, CustomSectionProtection::Read);
            assert forall|i2: int| 0 <= i2 < nmi implies (#[trigger] cm.regions[n0 + nfi
                + i2]).bytes == function_call_trampolines@[i2]@.body && cm.regions[n0 + nfi
                + i2].kind == crate::code_memory::RegionKind::Code by {
                assert(cm.regions[n0 + (nfi + i2)].bytes == combined@[nfi + i2]@.body);
                assert(cm.regions[n0 + (nfi + i2)].kind == crate::code_memory::RegionKind::Code);
                assert(combined@[nfi + i2]@ == function_call_trampolines@[i2]@);
            }
            assert forall|i2: int| 0 <= i2 < nmi implies (#[trigger] tramp_ptrs@[i2]).0
                == cm.regions[n0 + nfi + i2].start by {
                assert(tramp_ptrs@[i2] == all_ptrs@[nfi + i2]);
                assert(all_ptrs@[nfi + i2].0 == cm.regions[n0 + (nfi + i2)].start);
            }
            assert forall|i2: int| 0 <= i2 < nki implies (#[trigger] cm.regions[n0 + nfi + nmi
                + i2]).bytes == dynamic_function_trampolines@[i2]@.body && cm.regions[n0 + nfi
                + nmi + i2].kind == crate::code_memory::RegionKind::Code by {
                assert(cm.regions[n0 + (nfi + nmi + i2)].bytes == combined@[nfi + nmi
                    + i2]@.body);
                assert(cm.regions[n0 + (nfi + nmi + i2)].kind
                    == crate::code_memory::RegionKind::Code);
                assert(combined@[nfi + nmi + i2]@ == dynamic_function_trampolines@[i2]@);
            }
            assert forall|i2: int| 0 <= i2 < nki implies (#[trigger] dyn_ptrs@[i2]).0
                == cm.regions[n0 + nfi + nmi + i2].start by {
                assert(dyn_ptrs@[i2] == all_ptrs@[nfi + nmi + i2]);
                assert(all_ptrs@[nfi + nmi + i2].0 == cm.regions[n0 + (nfi + nmi + i2)].start);
            }
            assert(exec_sections@.map_values(|s2: CustomSection| s2@) == execs);
            assert(data_sections@.map_values(|s2: CustomSection| s2@) == datas);
            assert forall|i2: int| 0 <= i2 < execs.len() implies (#[trigger] cm.regions[n0 + nfi
                + nmi + nki + i2]).bytes == execs[i2].bytes && cm.regions[n0 + nfi + nmi + nki
                + i2].kind == crate::code_memory::RegionKind::Code && exec_ptrs@[i2].0
                == cm.regions[n0 + nfi + nmi + nki + i2].start by {
                assert(cm.regions[n0 + ((nfi + nmi + nki) + i2)].bytes == exec_sections@[
                    i2]@.bytes);
                assert(cm.regions[n0 + ((nfi + nmi + nki) + i2)].kind
                    == crate::code_memory::RegionKind::Code);
                assert(exec_ptrs@[i2].0 == cm.regions[n0 + ((nfi + nmi + nki) + i2)].start);
                assert(exec_sections@[i2]@ == execs[i2]);
            }
            assert forall|i2: int| 0 <= i2 < datas.len() implies (#[trigger] cm.regions[n0 + nfi
                + nmi + nki + execs.len() + i2]).bytes == datas[i2].bytes && cm.regions[n0 + nfi
                + nmi + nki + execs.len() + i2].kind == crate::code_memory::RegionKind::Data
                && data_ptrs@[i2].0 == cm.regions[n0 + nfi + nmi + nki + execs.len() + i2].start
                by {
                assert(cm.regions[n0 + ((nfi + nmi + nki) + execs.len() + i2)].bytes
                    == data_sections@[i2]@.bytes);
                assert(cm.regions[n0 + ((nfi + nmi + nki) + execs.len() + i2)].kind
                    == crate::code_memory::RegionKind::Data);
                assert(data_ptrs@[i2].0 == cm.regions[n0 + ((nfi + nmi + nki) + execs.len()
                    + i2)].start);
                assert(data_sections@[i2]@ == datas[i2]);
            }
        }
        Ok(
            AllocatedModule {
                functions: funcs,
                function_call_trampolines: tramp_ptrs,
                dynamic_function_trampolines: dyn_ptrs,
                executable_sections: exec_ptrs,
                data_sections: data_ptrs,
                trampoline_signatures: sig_ids,
            },
        )
    }

    /// Makes the memory holding all compiled code executable: the one-way
    /// publication of every allocated code region.
    pub fn publish_compiled_code(&mut self)
        requires
            old(self).wf(),
        ensures
            final(self).wf(),
            final(self).compiler == old(self).compiler,
            final(self).features == old(self).features,
            final(self).signatures == old(self).signatures,
            final(self).function_call_trampolines == old(self).function_call_trampolines,
            final(self).code_memory@.regions.len() == old(self).code_memory@.regions.len(),
            final(self).code_memory@.registries == old(self).code_memory@.registries,
            forall|i: int|
                0 <= i < old(self).code_memory@.regions.len() ==> {
                    let rg = #[trigger] final(self).code_memory@.regions[i];
                    let rg0 = old(self).code_memory@.regions[i];
                    &&& rg.start == rg0.start
                    &&& rg.bytes == rg0.bytes
                    &&& rg.kind == rg0.kind
                    &&& rg.published == (rg0.kind == crate::code_memory::RegionKind::Code)
                },
    {
        self.code_memory.publish();
    }

    /// Attaches the published unwind registry for the just-published code,
    /// keeping it alive for the engine's lifetime.
    pub fn publish_unwind_registry(&mut self, unwind_registry: UnwindRegistry)
        requires
            old(self).wf(),
            unwind_registry@.published,
            forall|i: int|
                0 <= i < old(self).code_memory@.regions.len() ==> ((
                #[trigger] old(self).code_memory@.regions[i]).kind
                    == crate::code_memory::RegionKind::Code ==> old(self).code_memory@.regions[i].published),
        ensures
            final(self).wf(),
            final(self).compiler == old(self).compiler,
            final(self).features == old(self).features,
            final(self).signatures == old(self).signatures,
            final(self).function_call_trampolines == old(self).function_call_trampolines,
            final(self).code_memory@.regions == old(self).code_memory@.regions,
            final(self).code_memory@.registries == old(self).code_memory@.registries.push(
                unwind_registry@,
            ),
    {
        self.code_memory.publish_unwind_registry(unwind_registry);
    }

    /// Loads a compiled or deserialized module: allocates its bodies and
    /// sections, links its call trampolines into the trampoline table,
    /// publishes the code, and attaches the unwind metadata — in that
    /// order, so no pointer is handed out before its region is executable
    /// and unwindable.
    pub fn load_module(&mut self, module: SerializableModule, engine_id: EngineId) -> (r: Result<
        JITArtifact,
        CompileError,
    >)
        requires
            old(self).wf(),
            module_wf(module@),
        ensures
            final(self).wf(),
            final(self).compiler == old(self).compiler,
            final(self).features == old(self).features,
            old(self).signatures@.len() + module@.function_call_trampolines.len() < 0xffff_ffff
                && old(self).code_memory@.next_addr + module_space(
                module@.functions,
                module@.function_call_trampolines,
                module@.dynamic_function_trampolines,
                module@.custom_sections,
            ) <= u64::MAX ==> r is Ok,
            r matches Err(e) ==> e matches CompileError::Resource(_),
            match r {
                Ok(a) => {
                    let n0 = old(self).code_memory@.regions.len() as int;
                    let nf = module@.functions.len() as int;
                    let nm = module@.function_call_trampolines.len() as int;
                    let nk = module@.dynamic_function_trampolines.len() as int;
                    &&& a.engine_id == engine_id
                    &&& a.module@ == module@
                    &&& a.finished_functions@.len() == nf
                    &&& a.finished_function_call_trampolines@.len() == nm
                    &&& a.finished_dynamic_function_trampolines@.len() == nk
                    &&& a.signatures@.len() == module@.module.signatures.len()
                    &&& (final(self).signatures@, final(self).function_call_trampolines@)
                        == linked(
                        old(self).signatures@,
                        old(self).function_call_trampolines@,
                        module@.module.signatures,
                        a.finished_function_call_trampolines@,
                    )
                    &&& forall|i: int|
                        0 <= i < nf ==> (#[trigger] final(self).code_memory@.regions[n0
                            + i]).published && final(self).code_memory@.regions[n0 + i].bytes
                            == module@.functions[i].body
                    &&& forall|i: int|
                        0 <= i < nf ==> (#[trigger] a.finished_functions@[i]).0 == final(self).code_memory@.regions[n0 + i].start
                    &&& forall|i: int|
                        0 <= i < nm ==> (#[trigger] final(self).code_memory@.regions[n0 + nf
                            + i]).published && final(self).code_memory@.regions[n0 + nf + i].bytes
                            == module@.function_call_trampolines[i].body
                    &&& forall|i: int|
                        0 <= i < nm ==> (#[trigger] a.finished_function_call_trampolines@[i]).0
                            == final(self).code_memory@.regions[n0 + nf + i].start
                    &&& forall|i: int|
                        0 <= i < nk ==> (#[trigger] final(self).code_memory@.regions[n0 + nf + nm
                            + i]).published && final(self).code_memory@.regions[n0 + nf + nm
                            + i].bytes == module@.dynamic_function_trampolines[i].body
                    &&& forall|i: int|
                        0 <= i < nk ==> (#[trigger] a.finished_dynamic_function_trampolines@[
                            i]).0 == final(self).code_memory@.regions[n0 + nf + nm + i].start
                },
                Err(_) => {
                    &&& final(self).signatures@ == old(self).signatures@
                    &&& final(self).function_call_trampolines@ == old(self).function_call_trampolines@
                },
            },
    {
        let mut registry = UnwindRegistry::new();
        let ghost n0 = self.code_memory@.regions.len() as int;
        let alloc = match self.allocate(
            &mut registry,
            &module.module,
            &module.functions,
            &module.function_call_trampolines,
            &module.dynamic_function_trampolines,
            &module.custom_sections,
        ) {
            Ok(a) => a,
            Err(e) => {
                return Err(e);
            },
        };
        self.publish_compiled_code();
        registry.publish();
        self.publish_unwind_registry(registry);

        let nm = alloc.function_call_trampolines.len();
        let mut tramps: Vec<VMTrampoline> = Vec::new();
        let mut i: usize = 0;
        while i < nm
            invariant
                nm == alloc.function_call_trampolines@.len(),
                i <= nm,
                tramps@.len() == i,
                forall|j: int|
                    0 <= j < i ==> (#[trigger] tramps@[j]) == VMTrampoline(
                        alloc.function_call_trampolines@[j].0,
                    ),
            decreases nm - i,
        {
            tramps.push(VMTrampoline(alloc.function_call_trampolines[i].0));
            i = i + 1;
        }
        proof {
            assert(tramps@ =~= alloc.function_call_trampolines@.map_values(
                |p: FunctionBodyPtr| VMTrampoline(p.0),
            ));
            assert(module@.module.signatures.take(module@.function_call_trampolines.len() as int)
                =~= module@.module.signatures);
        }

        Ok(
            JITArtifact {
                engine_id,
                module,
                finished_functions: alloc.functions,
                finished_function_call_trampolines: tramps,
                finished_dynamic_function_trampolines: alloc.dynamic_function_trampolines,
                signatures: alloc.trampoline_signatures,
                executable_sections: alloc.executable_sections,
                data_sections: alloc.data_sections,
            },
        )
    }
}

/// The shape of what the facade's lock may hold: a well-formed inner state
/// whose compiler presence and feature set never change over the engine's
/// lifetime.
pub struct InnerPred {
    pub has_compiler: bool,
    pub features: Features,
}

impl<C: Compiler> RwLockPredicate<JITEngineInner<C>> for InnerPred {
    open spec fn inv(self, v: JITEngineInner<C>) -> bool {
        &&& v.wf()
        &&& (v.compiler is Some) == self.has_compiler
        &&& v.features == self.features
    }
}

/// A cloneable, thread-shareable engine: a handle on one lock-protected
/// inner state. Clones share that state; every operation takes the lock
/// for its short, CPU-bound duration.
pub struct JITEngine<C: Compiler> {
    inner: Arc<RwLock<JITEngineInner<C>, InnerPred>>,
    target: Target,
    engine_id: EngineId,
}

impl<C: Compiler> JITEngine<C> {
    /// Whether this engine runs without a compiler: it then refuses to
    /// compile or validate and only loads serialized artifacts.
    pub closed spec fn is_headless(&self) -> bool {
        !(*self.inner).pred().has_compiler
    }

    /// The engine's identity token.
    pub closed spec fn id_spec(&self) -> EngineId {
        self.engine_id
    }

    /// The engine's compilation target.
    pub closed spec fn target_spec(&self) -> Target {
        self.target
    }

    /// The feature set every module of this engine is compiled with; fixed
    /// at construction by the lock's predicate.
    pub closed spec fn features_spec(&self) -> Features {
        (*self.inner).pred().features
    }

    /// Whether two facades are handles on the same shared state: the same
    /// lock, the same identity, the same target.
    pub closed spec fn shares_state_with(&self, other: &JITEngine<C>) -> bool {
        &&& self.inner == other.inner
        &&& self.engine_id == other.engine_id
        &&& self.target == other.target
    }

    /// A new engine with the given compiler attached. The identity must be
    /// unique among the engines of one process; the caller picks it.
    pub fn new(compiler: C, target: Target, features: Features, engine_id: u64) -> (r: Self)
        ensures
            !r.is_headless(),
            r.id_spec() == (EngineId { id: engine_id }),
            r.target_spec() == target,
            r.features_spec() == features,
    {
        let inner = JITEngineInner {
            compiler: Some(compiler),
            function_call_trampolines: Vec::new(),
            features,
            code_memory: CodeMemory::new(),
            signatures: SignatureRegistry::new(),
        };
        let lock = RwLock::new(inner, Ghost(InnerPred { has_compiler: true, features }));
        JITEngine { inner: Arc::new(lock), target, engine_id: EngineId { id: engine_id } }
    }

    /// A headless engine: no compiler, default target and features. It can
    /// only load modules that a full engine compiled and serialized, which
    /// keeps a minimal deployment free of the whole compiler.
    pub fn headless(engine_id: u64) -> (r: Self)
        ensures
            r.is_headless(),
            r.id_spec() == (EngineId { id: engine_id }),
            r.target_spec() == Target::spec_default(),
            r.features_spec() == Features::spec_default(),
    {
        let inner = JITEngineInner {
            compiler: None,
            function_call_trampolines: Vec::new(),
            features: Features::default(),
            code_memory: CodeMemory::new(),
            signatures: SignatureRegistry::new(),
        };
        let lock = RwLock::new(
            inner,
            Ghost(InnerPred { has_compiler: false, features: Features::spec_default() }),
        );
        JITEngine { inner: Arc::new(lock), target: Target::default(), engine_id: EngineId { id: engine_id } }
    }

    /// The target this engine compiles for.
    pub fn target(&self) -> (r: &Target)
        ensures
            *r == self.target_spec(),
    {
        &self.target
    }

    /// This engine's identity.
    pub fn id(&self) -> (r: EngineId)
        ensures
            r == self.id_spec(),
    {
        self.engine_id
    }

    /// Another handle on the same shared state: registrations through
    /// either handle are visible through the other.
    pub fn cloned(&self) -> (r: Self)
        ensures
            r.shares_state_with(self),
            r.id_spec() == self.id_spec(),
            r.target_spec() == self.target_spec(),
            r.features_spec() == self.features_spec(),
            r.is_headless() == self.is_headless(),
    {
        JITEngine {
            inner: arc_clone(&self.inner),
            target: self.target,
            engine_id: self.engine_id,
        }
    }

    /// Interns a function type in the shared registry: structurally equal
    /// types get the same index through any handle of this engine. When
    /// the registry is ever full, an index that resolves to nothing comes
    /// back instead. The registry is shared mutable state behind the lock,
    /// so the exact contract lives on
    /// [`JITEngineInner::register_signature`]; other handles may register
    /// between any two calls.
    pub fn register_signature(&self, func_type: &FunctionType) -> VMSharedSignatureIndex {
        let (mut inner, handle) = self.inner.acquire_write();
        let idx = if inner.signatures.len() < 0xffff_ffff {
            inner.register_signature(func_type)
        } else {
            VMSharedSignatureIndex { index: 0xffff_ffff }
        };
        handle.release_write(inner);
        idx
    }

    /// Looks a shared signature index up; nothing comes back for an index
    /// this engine never issued. The exact contract lives on
    /// [`JITEngineInner::lookup_signature`], against the registry as it
    /// stands while the lock is held.
    pub fn lookup_signature(&self, sig: VMSharedSignatureIndex) -> Option<FunctionType> {
        let handle = self.inner.acquire_read();
        let r = handle.borrow().lookup_signature(sig);
        handle.release_read();
        r
    }

    /// The trampoline pre-registered for a signature, or nothing for an
    /// index no loaded module brought a trampoline for.
    pub fn function_call_trampoline(&self, sig: VMSharedSignatureIndex) -> Option<VMTrampoline> {
        let handle = self.inner.acquire_read();
        let r = handle.borrow().function_call_trampoline(sig);
        handle.release_read();
        r
    }

    /// Validates a module. A headless engine cannot and always answers
    /// with a validation error.
    pub fn validate(&self, binary: &[u8]) -> (r: Result<(), CompileError>)
        ensures
            self.is_headless() ==> r matches Err(CompileError::Validate(_)),
    {
        let handle = self.inner.acquire_read();
        let r = handle.borrow().validate(binary);
        handle.release_read();
        r
    }

    /// Compiles a module and loads it into this engine: the backend
    /// produces typed bodies, they are placed into code memory in one bulk
    /// allocation, trampolines are linked, and the code is published
    /// executable with its unwind metadata. A headless engine cannot
    /// compile and always answers with a codegen error.
    pub fn compile(&self, binary: &[u8], tunables: &Tunables) -> (r: Result<
        JITArtifact,
        CompileError,
    >)
        ensures
            self.is_headless() ==> r matches Err(CompileError::Codegen(_)),
            r matches Ok(a) ==> a.engine_id == self.id_spec(),
    {
        let (mut inner, handle) = self.inner.acquire_write();
        let compilation = match inner.compiler() {
            Ok(c) => c.compile_module(&self.target, &inner.features, tunables, binary),
            Err(e) => Err(e),
        };
        let r = match compilation {
            Ok(m) => {
                if m.function_call_trampolines.len() != m.module.signatures.len() {
                    Err(
                        CompileError::Codegen(
                            "the compiler produced a module whose call trampolines do not line up with its signature table".to_string(),
                        ),
                    )
                } else {
                    inner.load_module(m, self.engine_id)
                }
            },
            Err(e) => Err(e),
        };
        handle.release_write(inner);
        r
    }

    /// Loads a previously serialized artifact. No compiler is needed, so
    /// this works on a headless engine; the bytes must come from a
    /// compatible serialization, and malformed bytes are answered with a
    /// deserialization error.
    pub fn deserialize(&self, bytes: &Vec<u8>) -> (r: Result<JITArtifact, DeserializeError>)
        ensures
            r matches Ok(a) ==> a.engine_id == self.id_spec() && module_wf(a.module@),
            r matches Err(e) ==> (e matches DeserializeError::CorruptedBinary(_) || (
            e matches DeserializeError::Compiler(c) && c matches CompileError::Resource(_))),
    {
        let m = match decode_module(bytes) {
            Some(m) => m,
            None => {
                return Err(
                    DeserializeError::CorruptedBinary(
                        "the bytes are not a well-formed serialized artifact".to_string(),
                    ),
                );
            },
        };
        let (mut inner, handle) = self.inner.acquire_write();
        let r = inner.load_module(m, self.engine_id);
        handle.release_write(inner);
        match r {
            Ok(a) => Ok(a),
            Err(e) => Err(DeserializeError::Compiler(e)),
        }
    }
}

/// Binding a trampoline at slot `i` makes `i` answer it; every slot that
/// was filled before and differs from `i` keeps its answer.
pub proof fn lemma_table_set_get(t: Seq<Option<VMTrampoline>>, i: int, p: VMTrampoline)
    requires
        0 <= i,
    ensures
        table_get(table_set(t, i, p), i) == Some(p),
        forall|j: int|
            0 <= j < t.len() && j != i ==> table_get(table_set(t, i, p), j) == table_get(t, j),
{
    if i >= t.len() {
        let pad = Seq::new((i - t.len()) as nat, |_j: int| None::<VMTrampoline>);
        let s = t + pad.push(Some(p));
        assert(s.len() == i + 1);
        assert(s[i] == pad.push(Some(p))[i - t.len()]);
        assert(s[i] == Some(p));
        assert forall|j: int| 0 <= j < t.len() implies s[j] == t[j] by {}
    }
}

/// Linking a list of trampolines under pairwise distinct function types
/// interns every type, and the shared index each type resolves to answers
/// exactly the trampoline that was linked under it: what the engine binds
/// during allocation, `function_call_trampoline` later finds.
pub proof fn lemma_trampolines_resolve(
    s0: Seq<FunctionTypeView>,
    t0: Seq<Option<VMTrampoline>>,
    ts: Seq<FunctionTypeView>,
    ps: Seq<VMTrampoline>,
)
    requires
        registry_wf(s0),
        ts.len() == ps.len(),
        forall|i: int, j: int| 0 <= i < j < ts.len() ==> ts[i] != ts[j],
    ensures
        ({
            let r = linked(s0, t0, ts, ps);
            &&& registry_wf(r.0)
            &&& forall|i: int| 0 <= i < ts.len() ==> r.0.contains(#[trigger] ts[i])
            &&& forall|i: int|
                0 <= i < ts.len() ==> 0 <= registered_index(r.0, #[trigger] ts[i]) < r.0.len()
                    && r.0[registered_index(r.0, ts[i])] == ts[i]
            &&& forall|i: int|
                0 <= i < ts.len() ==> table_get(r.1, registered_index(r.0, #[trigger] ts[i]))
                    == Some(ps[i])
        }),
    decreases ts.len(),
{
    if ts.len() > 0 {
        let tsp = ts.drop_last();
        let psp = ps.drop_last();
        assert forall|i: int, j: int| 0 <= i < j < tsp.len() implies tsp[i] != tsp[j] by {
            assert(tsp[i] == ts[i]);
            assert(tsp[j] == ts[j]);
        }
        lemma_trampolines_resolve(s0, t0, tsp, psp);
        let prev = linked(s0, t0, tsp, psp);
        let last_t = ts.last();
        let last_p = ps.last();
        let r = linked(s0, t0, ts, ps);
        crate::signature::lemma_register_preserves_wf(prev.0, last_t);
        let idx_last = registered_index(prev.0, last_t);
        assert(r.0 == registered_types(prev.0, last_t));
        assert(r.1 == table_set(prev.1, idx_last, last_p));

        // The index of the last type in the grown registry is the one the
        // trampoline was bound under.
        if prev.0.contains(last_t) {
            let w = choose|k: int| 0 <= k < prev.0.len() && prev.0[k] == last_t;
            assert(r.0 == prev.0);
            assert(0 <= idx_last < r.0.len() && r.0[idx_last] == last_t);
        } else {
            assert(r.0 == prev.0.push(last_t));
            assert(r.0[prev.0.len() as int] == last_t);
            assert(0 <= idx_last < r.0.len() && r.0[idx_last] == last_t);
        }
        assert(registered_index(r.0, last_t) == idx_last) by {
            assert(r.0.contains(last_t)) by {
                assert(r.0[idx_last] == last_t);
            }
            let w = choose|k: int| 0 <= k < r.0.len() && r.0[k] == last_t;
            if w != idx_last {
                assert(r.0[w] != r.0[idx_last]);
            }
        }
        lemma_table_set_get(prev.1, idx_last, last_p);
        assert(table_get(r.1, registered_index(r.0, last_t)) == Some(last_p));

        // Every earlier type keeps its index and its trampoline: its
        // position lies in the old registry and differs from the last
        // type's slot.
        assert forall|i: int| 0 <= i < tsp.len() implies r.0.contains(#[trigger] ts[i])
            && 0 <= registered_index(r.0, ts[i]) < r.0.len() && r.0[registered_index(r.0, ts[i])]
            == ts[i] && table_get(r.1, registered_index(r.0, ts[i])) == Some(ps[i]) by {
            assert(tsp[i] == ts[i]);
            assert(psp[i] == ps[i]);
            let idx_prev = registered_index(prev.0, ts[i]);
            assert(prev.0.contains(ts[i]));
            assert(0 <= idx_prev < prev.0.len() && prev.0[idx_prev] == ts[i]);
            assert(r.0.contains(ts[i])) by {
                if r.0 == prev.0 {
                } else {
                    assert(r.0[idx_prev] == prev.0[idx_prev]);
                }
            }
            assert(r.0[idx_prev] == ts[i]);
            assert(registered_index(r.0, ts[i]) == idx_prev) by {
                let w = choose|k: int| 0 <= k < r.0.len() && r.0[k] == ts[i];
                if w != idx_prev {
                    assert(r.0[w] != r.0[idx_prev]);
                }
            }
            assert(ts[i] != last_t);
            assert(idx_prev != idx_last) by {
                assert(r.0[idx_prev] == ts[i]);
                assert(r.0[idx_last] == last_t);
            }
            assert(table_get(prev.1, idx_prev) == Some(ps[i]));
            assert(0 <= idx_prev < prev.1.len());
            assert(table_get(r.1, idx_prev) == Some(ps[i]));
        }
    }
}

} // verus!
