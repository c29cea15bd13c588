use engine_jit::extern_ref::{ExternRef, VMExternRef};
use engine_jit::signature::{SignatureRegistry, VMSharedSignatureIndex};
use engine_jit::store::Store;
use engine_jit::types::{FunctionType, ValueType};
use engine_jit::unwind::UnwindRegistry;

fn int_to_int() -> FunctionType {
    FunctionType::new(vec![ValueType::I32], vec![ValueType::I32])
}

fn pair_to_unit() -> FunctionType {
    FunctionType::new(vec![ValueType::I64, ValueType::F64], vec![])
}

#[test]
fn register_twice_returns_same_index_and_lookup_matches() {
    let mut registry = SignatureRegistry::new();
    let ft = int_to_int();
    let first = registry.register(&ft);
    let second = registry.register(&int_to_int());
    assert_eq!(first.index, second.index);
    let found = registry.lookup(first).expect("registered type must resolve");
    assert!(found.equals(&ft));
}

#[test]
fn distinct_types_get_distinct_indices() {
    let mut registry = SignatureRegistry::new();
    let a = registry.register(&int_to_int());
    let b = registry.register(&pair_to_unit());
    assert_ne!(a.index, b.index);
    assert!(registry.lookup(a).unwrap().equals(&int_to_int()));
    assert!(registry.lookup(b).unwrap().equals(&pair_to_unit()));
}

#[test]
fn lookup_of_never_issued_index_returns_nothing() {
    let mut registry = SignatureRegistry::new();
    registry.register(&int_to_int());
    assert!(registry.lookup(VMSharedSignatureIndex { index: 1 }).is_none());
    assert!(registry.lookup(VMSharedSignatureIndex { index: 4096 }).is_none());
    let empty = SignatureRegistry::new();
    assert!(empty.lookup(VMSharedSignatureIndex { index: 0 }).is_none());
}

const TAG_STRING: u64 = 11;
const TAG_POINT: u64 = 22;

#[test]
fn externref_downcast_roundtrip() {
    let mut store = Store::new(1);
    let value = b"hello host".to_vec();
    let r = ExternRef::new(&mut store, TAG_STRING, value.clone());
    let back = r.downcast(&store, TAG_STRING).expect("matching tag and store");
    assert_eq!(back, &value);
}

#[test]
fn externref_downcast_with_wrong_tag_returns_nothing() {
    let mut store = Store::new(2);
    let r = ExternRef::new(&mut store, TAG_STRING, vec![1, 2, 3]);
    assert!(r.downcast(&store, TAG_POINT).is_none());
}

#[test]
fn externref_downcast_against_other_store_returns_nothing() {
    let mut store_a = Store::new(3);
    let mut store_b = Store::new(4);
    let r = ExternRef::new(&mut store_a, TAG_STRING, vec![9]);
    // The foreign store even holds an object in the same slot with the
    // same tag: the identity check alone must reject it.
    let _ = ExternRef::new(&mut store_b, TAG_STRING, vec![8]);
    assert!(r.downcast(&store_b, TAG_STRING).is_none());
}

#[test]
fn externref_is_from_store_reports_origin_only() {
    let mut store_a = Store::new(5);
    let store_b = Store::new(6);
    let r = ExternRef::new(&mut store_a, TAG_POINT, vec![]);
    assert!(r.is_from_store(&store_a));
    assert!(!r.is_from_store(&store_b));
}

#[test]
fn externref_raw_handle_roundtrip_through_same_store() {
    let mut store = Store::new(7);
    let r = ExternRef::new(&mut store, TAG_POINT, vec![42]);
    let raw: VMExternRef = r.vm_externref();
    let back = ExternRef::from_vm_externref(&store, raw);
    assert_eq!(back.downcast(&store, TAG_POINT).unwrap(), &vec![42]);
}

#[test]
fn externref_stale_slot_returns_nothing() {
    let mut store_a = Store::new(8);
    let mut store_b = Store::new(9);
    let _ = ExternRef::new(&mut store_b, TAG_POINT, vec![1]);
    let _ = ExternRef::new(&mut store_b, TAG_POINT, vec![2]);
    let foreign = ExternRef::new(&mut store_b, TAG_POINT, vec![3]);
    // Slot 2 exists in store B but was never issued by store A.
    let raw = foreign.vm_externref();
    let rebuilt = ExternRef::from_vm_externref(&store_a, raw);
    assert!(rebuilt.downcast(&store_a, TAG_POINT).is_none());
}

#[test]
fn unwind_lookup_finds_covering_range() {
    let mut registry = UnwindRegistry::new();
    registry.register(0x1000, 0x40, vec![1]);
    registry.register(0x2000, 0x10, vec![2]);
    registry.publish();
    assert!(registry.is_published());
    assert_eq!(registry.lookup(0x1000), Some(&vec![1]));
    assert_eq!(registry.lookup(0x103f), Some(&vec![1]));
    assert_eq!(registry.lookup(0x1040), None);
    assert_eq!(registry.lookup(0x2005), Some(&vec![2]));
    assert_eq!(registry.lookup(0x0fff), None);
}
