use engine_jit::engine::{Compiler, JITEngine, JITEngineInner};
use engine_jit::error::{CompileError, DeserializeError};
use engine_jit::serialize::{decode_module, ModuleInfo, SerializableModule};
use engine_jit::types::{
    CustomSection, CustomSectionProtection, Features, FunctionBody, FunctionType, Target,
    Tunables, ValueType,
};

/// A backend for the tests: it treats the module bytes as the serialized
/// form itself, so the test controls exactly what "compilation" produces.
struct TestCompiler;

impl Compiler for TestCompiler {
    fn validate_module(&self, _features: &Features, data: &[u8]) -> Result<(), CompileError> {
        match decode_module(&data.to_vec()) {
            Some(_) => Ok(()),
            None => Err(CompileError::Validate("not a valid module".to_string())),
        }
    }

    fn compile_module(
        &self,
        _target: &Target,
        _features: &Features,
        _tunables: &Tunables,
        data: &[u8],
    ) -> Result<SerializableModule, CompileError> {
        match decode_module(&data.to_vec()) {
            Some(m) => Ok(m),
            None => Err(CompileError::Codegen("cannot compile these bytes".to_string())),
        }
    }
}

fn tunables() -> Tunables {
    Tunables {
        static_memory_bound: 0x4000,
        static_memory_offset_guard_size: 0x1_0000,
        dynamic_memory_offset_guard_size: 0x1_0000,
    }
}

fn body(bytes: &[u8]) -> FunctionBody {
    FunctionBody { body: bytes.to_vec(), unwind_info: None }
}

fn body_with_unwind(bytes: &[u8], unwind: &[u8]) -> FunctionBody {
    FunctionBody { body: bytes.to_vec(), unwind_info: Some(unwind.to_vec()) }
}

/// Two ordinary functions, two call trampolines (one per signature), one
/// dynamic trampoline, one executable and one data section.
fn sample_module() -> SerializableModule {
    SerializableModule {
        module: ModuleInfo {
            signatures: vec![
                FunctionType::new(vec![], vec![]),
                FunctionType::new(vec![ValueType::I32], vec![ValueType::I32]),
            ],
        },
        functions: vec![body_with_unwind(&[0x90, 0xc3], &[7]), body(&[0xb8, 0x2a, 0xc3])],
        function_call_trampolines: vec![body(&[0x41]), body(&[0x42])],
        dynamic_function_trampolines: vec![body(&[0x43])],
        custom_sections: vec![
            CustomSection {
                protection: CustomSectionProtection::ReadExecute,
                bytes: vec![0xaa, 0xbb],
            },
            CustomSection { protection: CustomSectionProtection::Read, bytes: vec![0xcc] },
        ],
    }
}

fn serialized_sample() -> Vec<u8> {
    let artifact_bytes = engine_jit::serialize::encode_module(&sample_module())
        .expect("sample module fits the format");
    artifact_bytes
}

#[test]
fn headless_compile_fails_with_codegen_error() {
    let engine: JITEngine<TestCompiler> = JITEngine::headless(1);
    let r = engine.compile(&serialized_sample(), &tunables());
    assert!(matches!(r, Err(CompileError::Codegen(_))));
}

#[test]
fn headless_validate_fails_with_validate_error() {
    let engine: JITEngine<TestCompiler> = JITEngine::headless(2);
    let r = engine.validate(&serialized_sample());
    assert!(matches!(r, Err(CompileError::Validate(_))));
}

#[test]
fn headless_deserialize_of_serialized_artifact_succeeds() {
    let full = JITEngine::new(TestCompiler, Target::default(), Features::default(), 3);
    let artifact = full.compile(&serialized_sample(), &tunables()).expect("full engine compiles");
    let bytes = artifact.serialize().expect("artifact serializes");

    let headless: JITEngine<TestCompiler> = JITEngine::headless(4);
    let loaded = headless.deserialize(&bytes).expect("headless engine loads the artifact");
    assert_eq!(loaded.finished_functions.len(), 2);
    assert_eq!(loaded.finished_function_call_trampolines.len(), 2);
    // The pointers resolve through the headless engine's own trampoline
    // table, which is what makes them invocable by signature.
    for (i, sig) in loaded.signatures.iter().enumerate() {
        let t = headless.function_call_trampoline(*sig).expect("trampoline registered");
        assert_eq!(t, loaded.finished_function_call_trampolines[i]);
    }
}

#[test]
fn compile_of_malformed_bytes_reports_backend_error() {
    let engine = JITEngine::new(TestCompiler, Target::default(), Features::default(), 5);
    let r = engine.compile(&[0xff, 0xfe], &tunables());
    assert!(matches!(r, Err(CompileError::Codegen(_))));
}

#[test]
fn deserialize_of_garbage_is_corrupted_binary() {
    let engine: JITEngine<TestCompiler> = JITEngine::headless(6);
    let r = engine.deserialize(&vec![1, 2, 3]);
    assert!(matches!(r, Err(DeserializeError::CorruptedBinary(_))));
}

#[test]
fn allocate_returns_groups_of_original_sizes_in_order() {
    let engine = JITEngine::new(TestCompiler, Target::default(), Features::default(), 7);
    let a = engine.compile(&serialized_sample(), &tunables()).expect("compiles");
    assert_eq!(a.finished_functions.len(), 2);
    assert_eq!(a.finished_function_call_trampolines.len(), 2);
    assert_eq!(a.finished_dynamic_function_trampolines.len(), 1);

    // One fresh, strictly increasing address per body, in submission
    // order: functions, then call trampolines, then dynamic trampolines.
    let mut addrs: Vec<u64> = Vec::new();
    addrs.extend(a.finished_functions.iter().map(|p| p.0));
    addrs.extend(a.finished_function_call_trampolines.iter().map(|p| p.0));
    addrs.extend(a.finished_dynamic_function_trampolines.iter().map(|p| p.0));
    for w in addrs.windows(2) {
        assert!(w[0] < w[1]);
    }

    // Each call trampoline's resolved signature index yields its own
    // allocated pointer.
    for (i, sig) in a.signatures.iter().enumerate() {
        let t = engine.function_call_trampoline(*sig).expect("registered");
        assert_eq!(t, a.finished_function_call_trampolines[i]);
    }
}

#[test]
fn custom_section_pointers_are_surfaced() {
    // The allocation routine deliberately hands back both section
    // partitions instead of dropping them.
    let engine = JITEngine::new(TestCompiler, Target::default(), Features::default(), 8);
    let a = engine.compile(&serialized_sample(), &tunables()).expect("compiles");
    assert_eq!(a.executable_sections.len(), 1);
    assert_eq!(a.data_sections.len(), 1);
}

#[test]
fn unknown_signature_index_has_no_trampoline() {
    let engine: JITEngine<TestCompiler> = JITEngine::headless(9);
    let idx = engine.register_signature(&FunctionType::new(vec![], vec![]));
    assert!(engine.function_call_trampoline(idx).is_none());
    assert!(engine
        .function_call_trampoline(engine_jit::signature::VMSharedSignatureIndex { index: 999 })
        .is_none());
}

#[test]
fn load_publishes_code_regions_with_their_bytes() {
    // Drive the inner state directly to observe code memory: after a load,
    // every pointer's region is published executable and holds the body's
    // bytes, while the data section stays unpublished.
    let mut inner: JITEngineInner<TestCompiler> = JITEngineInner {
        compiler: None,
        function_call_trampolines: Vec::new(),
        features: Features::default(),
        code_memory: engine_jit::code_memory::CodeMemory::new(),
        signatures: engine_jit::signature::SignatureRegistry::new(),
    };
    let a = inner
        .load_module(sample_module(), engine_jit::engine::EngineId { id: 10 })
        .expect("loads");
    let n = inner.code_memory.region_count();
    assert_eq!(n, 7);
    // functions (2) + call trampolines (2) + dynamic (1) + executable
    // section (1) are published; the data section region is not.
    for i in 0..6 {
        assert!(inner.code_memory.is_region_published(i));
    }
    assert!(!inner.code_memory.is_region_published(6));
    assert_eq!(inner.code_memory.region_bytes(0), &vec![0x90, 0xc3]);
    assert_eq!(inner.code_memory.region_bytes(1), &vec![0xb8, 0x2a, 0xc3]);
    assert_eq!(inner.code_memory.region_bytes(2), &vec![0x41]);
    assert_eq!(inner.code_memory.region_bytes(5), &vec![0xaa, 0xbb]);
    assert_eq!(inner.code_memory.region_bytes(6), &vec![0xcc]);
    let _ = a;
}

#[test]
fn clone_shares_signature_registry() {
    let original: JITEngine<TestCompiler> = JITEngine::headless(11);
    let clone = original.cloned();
    let ft = FunctionType::new(vec![ValueType::F32], vec![]);
    let idx = clone.register_signature(&ft);
    let through_original = original.lookup_signature(idx).expect("visible through original");
    assert!(through_original.equals(&ft));
    let again = original.register_signature(&ft);
    assert_eq!(again.index, idx.index);
}

#[test]
fn artifacts_of_identical_modules_are_independent() {
    let engine = JITEngine::new(TestCompiler, Target::default(), Features::default(), 12);
    let a = engine.compile(&serialized_sample(), &tunables()).expect("compiles");
    let b = engine.compile(&serialized_sample(), &tunables()).expect("compiles");
    let b_funcs = b.finished_functions.clone();
    drop(a);
    assert_eq!(b.finished_functions, b_funcs);
    assert_eq!(b.finished_functions.len(), 2);
}

#[test]
fn serialization_roundtrips() {
    let m = sample_module();
    let bytes = engine_jit::serialize::encode_module(&m).expect("encodes");
    let back = decode_module(&bytes).expect("decodes");
    assert_eq!(back.module.signatures.len(), m.module.signatures.len());
    for (x, y) in back.module.signatures.iter().zip(m.module.signatures.iter()) {
        assert!(x.equals(y));
    }
    assert_eq!(back.functions.len(), m.functions.len());
    for (x, y) in back.functions.iter().zip(m.functions.iter()) {
        assert_eq!(x.body, y.body);
        assert_eq!(x.unwind_info, y.unwind_info);
    }
    assert_eq!(back.function_call_trampolines.len(), m.function_call_trampolines.len());
    assert_eq!(back.dynamic_function_trampolines.len(), m.dynamic_function_trampolines.len());
    assert_eq!(back.custom_sections.len(), m.custom_sections.len());
    for (x, y) in back.custom_sections.iter().zip(m.custom_sections.iter()) {
        assert_eq!(x.bytes, y.bytes);
        assert!(matches!(
            (&x.protection, &y.protection),
            (CustomSectionProtection::Read, CustomSectionProtection::Read)
                | (CustomSectionProtection::ReadExecute, CustomSectionProtection::ReadExecute)
        ));
    }
}

#[test]
fn engine_identity_and_target_are_reported() {
    let engine = JITEngine::new(TestCompiler, Target::default(), Features::default(), 13);
    assert_eq!(engine.id().id, 13);
    assert_eq!(engine.target(), &Target::default());
    let a = engine.compile(&serialized_sample(), &tunables()).expect("compiles");
    assert_eq!(a.engine_id.id, 13);
}

#[test]
fn full_engine_validate_delegates_to_backend() {
    let engine = JITEngine::new(TestCompiler, Target::default(), Features::default(), 14);
    assert!(engine.validate(&serialized_sample()).is_ok());
    assert!(matches!(engine.validate(&[0, 1]), Err(CompileError::Validate(_))));
}

#[test]
fn empty_module_encodes_to_five_zero_counts() {
    let empty = SerializableModule {
        module: ModuleInfo { signatures: vec![] },
        functions: vec![],
        function_call_trampolines: vec![],
        dynamic_function_trampolines: vec![],
        custom_sections: vec![],
    };
    let bytes = engine_jit::serialize::encode_module(&empty).expect("encodes");
    assert_eq!(bytes, vec![0u8; 20]);
    let back = decode_module(&bytes).expect("decodes");
    assert_eq!(back.module.signatures.len(), 0);
    assert_eq!(back.functions.len(), 0);
}
