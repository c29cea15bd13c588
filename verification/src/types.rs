//! Value types, function types, engine features, the compilation target and
//! the tunables handed to a compiler backend.

use vstd::prelude::*;

verus! {

/// A WebAssembly value type, as it appears in a function signature.
#[derive(Clone, Copy, PartialEq, Eq, Structural, Debug, Hash)]
pub enum ValueType {
    I32,
    I64,
    F32,
    F64,
    V128,
    ExternRef,
    FuncRef,
}

/// The ordered parameter and result types of a function: the unit of
/// signature interning.
#[derive(Debug)]
pub struct FunctionType {
    pub params: Vec<ValueType>,
    pub results: Vec<ValueType>,
}

/// The mathematical value of a [`FunctionType`].
pub struct FunctionTypeView {
    pub params: Seq<ValueType>,
    pub results: Seq<ValueType>,
}

impl View for FunctionType {
    type V = FunctionTypeView;

    open spec fn view(&self) -> FunctionTypeView {
        FunctionTypeView { params: self.params@, results: self.results@ }
    }
}

/// Copies a list of plain values, element for element.
pub fn copy_vec<T: Copy>(v: &Vec<T>) -> (r: Vec<T>)
    ensures
        r@ == v@,
{
    let mut r: Vec<T> = Vec::new();
    let mut i: usize = 0;
    while i < v.len()
        invariant
            i <= v.len(),
            r@ == v@.subrange(0, i as int),
        decreases v.len() - i,
    {
        r.push(v[i]);
        i = i + 1;
        proof {
            assert(r@ =~= v@.subrange(0, i as int));
        }
    }
    proof {
        assert(r@ =~= v@);
    }
    r
}

/// Compares two lists of value types element for element.
fn value_types_equal(a: &Vec<ValueType>, b: &Vec<ValueType>) -> (r: bool)
    ensures
        r == (a@ == b@),
{
    if a.len() != b.len() {
        return false;
    }
    let mut i: usize = 0;
    while i < a.len()
        invariant
            i <= a.len(),
            a@.len() == b@.len(),
            forall|j: int| 0 <= j < i ==> a@[j] == b@[j],
        decreases a.len() - i,
    {
        if a[i] != b[i] {
            return false;
        }
        i = i + 1;
    }
    proof {
        assert(a@ =~= b@);
    }
    true
}

impl FunctionType {
    /// Builds a function type from its parameter and result types.
    pub fn new(params: Vec<ValueType>, results: Vec<ValueType>) -> (r: Self)
        ensures
            r@.params == params@,
            r@.results == results@,
    {
        FunctionType { params, results }
    }

    /// The parameter types.
    pub fn params(&self) -> (r: &Vec<ValueType>)
        ensures
            r@ == self@.params,
    {
        &self.params
    }

    /// The result types.
    pub fn results(&self) -> (r: &Vec<ValueType>)
        ensures
            r@ == self@.results,
    {
        &self.results
    }

    /// Structural equality of two function types.
    pub fn equals(&self, other: &FunctionType) -> (r: bool)
        ensures
            r == (self@ == other@),
    {
        let r = value_types_equal(&self.params, &other.params)
            && value_types_equal(&self.results, &other.results);
        proof {
            if self@.params == other@.params && self@.results == other@.results {
                assert(self@ == other@);
            }
        }
        r
    }

    /// A copy with the same parameter and result types.
    pub fn duplicate(&self) -> (r: Self)
        ensures
            r@ == self@,
    {
        FunctionType {
            params: copy_vec(&self.params),
            results: copy_vec(&self.results),
        }
    }
}

/// The set of WebAssembly proposals a module may be compiled with; handed
/// unchanged to the compiler backend.
#[derive(Clone, Copy, PartialEq, Eq, Structural, Debug)]
pub struct Features {
    pub threads: bool,
    pub reference_types: bool,
    pub simd: bool,
    pub bulk_memory: bool,
    pub multi_value: bool,
    pub tail_call: bool,
    pub multi_memory: bool,
    pub memory64: bool,
}

impl Features {
    /// The default feature set: bulk memory, reference types and multiple
    /// return values on, the rest off.
    pub open spec fn spec_default() -> Features {
        Features {
            threads: false,
            reference_types: true,
            simd: false,
            bulk_memory: true,
            multi_value: true,
            tail_call: false,
            multi_memory: false,
            memory64: false,
        }
    }
}

impl Default for Features {
    fn default() -> (r: Self)
        ensures
            r == Features::spec_default(),
    {
        Features {
            threads: false,
            reference_types: true,
            simd: false,
            bulk_memory: true,
            multi_value: true,
            tail_call: false,
            multi_memory: false,
            memory64: false,
        }
    }
}

/// The machine architecture code is generated for.
#[derive(Clone, Copy, PartialEq, Eq, Structural, Debug)]
pub enum Architecture {
    X86_64,
    Aarch64,
    Riscv64,
}

/// A read-only description of the compilation target.
#[derive(Clone, Copy, PartialEq, Eq, Structural, Debug)]
pub struct Target {
    pub architecture: Architecture,
}

impl Target {
    /// The default target: the x86-64 architecture.
    pub open spec fn spec_default() -> Target {
        Target { architecture: Architecture::X86_64 }
    }
}

impl Default for Target {
    fn default() -> (r: Self)
        ensures
            r == Target::spec_default(),
    {
        Target { architecture: Architecture::X86_64 }
    }
}

/// Memory-style configuration consumed by the compiler backend during
/// compilation; opaque to the engine itself.
#[derive(Clone, Copy, PartialEq, Eq, Structural, Debug)]
pub struct Tunables {
    pub static_memory_bound: u32,
    pub static_memory_offset_guard_size: u64,
    pub dynamic_memory_offset_guard_size: u64,
}

/// One machine-code body produced by the compiler backend: the code bytes
/// and, where the backend emitted any, the stack-unwind metadata for them.
pub struct FunctionBody {
    pub body: Vec<u8>,
    pub unwind_info: Option<Vec<u8>>,
}

/// The mathematical value of a [`FunctionBody`].
pub struct FunctionBodyView {
    pub body: Seq<u8>,
    pub unwind_info: Option<Seq<u8>>,
}

impl View for FunctionBody {
    type V = FunctionBodyView;

    open spec fn view(&self) -> FunctionBodyView {
        FunctionBodyView {
            body: self.body@,
            unwind_info: match self.unwind_info {
                Some(u) => Some(u@),
                None => None,
            },
        }
    }
}

/// How the memory holding a custom section must be protected.
#[derive(Clone, Copy, PartialEq, Eq, Structural, Debug)]
pub enum CustomSectionProtection {
    /// Readable data; stays writable and is never made executable.
    Read,
    /// Code; placed with the function bodies and published executable.
    ReadExecute,
}

/// A named auxiliary byte blob emitted by the backend, such as a jump
/// table, with the protection its memory needs.
pub struct CustomSection {
    pub protection: CustomSectionProtection,
    pub bytes: Vec<u8>,
}

/// The mathematical value of a [`CustomSection`].
pub struct CustomSectionView {
    pub protection: CustomSectionProtection,
    pub bytes: Seq<u8>,
}

impl View for CustomSection {
    type V = CustomSectionView;

    open spec fn view(&self) -> CustomSectionView {
        CustomSectionView { protection: self.protection, bytes: self.bytes@ }
    }
}

} // verus!
