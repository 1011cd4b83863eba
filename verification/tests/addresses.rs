use ragna::GpuTypeDetails;
use ragna::GpuValue;
use ragna::GpuValueRoot;

#[test]
fn structural_address_equality() {
    // two addresses built via different derivation paths but with the
    // same root and extension chain denote the same location
    let a = GpuValue::glob(7, GpuTypeDetails::U32)
        .field(0, GpuTypeDetails::U32)
        .field(1, GpuTypeDetails::U32);
    let first = GpuValue::glob(7, GpuTypeDetails::U32).field(0, GpuTypeDetails::U32);
    let b = first.field(1, GpuTypeDetails::U32);
    assert!(a.same_location(&b));
    assert!(b.same_location(&a));
}

#[test]
fn address_equality_ignores_type() {
    // the type carried along never takes part in location equality
    let a = GpuValue::var(3, GpuTypeDetails::I32).field(2, GpuTypeDetails::I32);
    let b = GpuValue::var(3, GpuTypeDetails::Bool).field(2, GpuTypeDetails::U32);
    assert!(a.same_location(&b));
}

#[test]
fn different_addresses_are_unequal() {
    let a = GpuValue::var(3, GpuTypeDetails::I32).field(0, GpuTypeDetails::I32);
    let b = GpuValue::var(3, GpuTypeDetails::I32).field(1, GpuTypeDetails::I32);
    let c = GpuValue::var(4, GpuTypeDetails::I32).field(0, GpuTypeDetails::I32);
    let d = GpuValue::var(3, GpuTypeDetails::I32);
    assert!(!a.same_location(&b));
    assert!(!a.same_location(&c));
    assert!(!a.same_location(&d));
}

#[test]
fn extension_kinds_are_distinguished() {
    let field = GpuValue::var(1, GpuTypeDetails::I32).field(0, GpuTypeDetails::I32);
    let lane = GpuValue::var(1, GpuTypeDetails::I32).vec_field(0, GpuTypeDetails::I32);
    let index = GpuValue::var(1, GpuTypeDetails::I32).index(0, GpuTypeDetails::I32);
    assert!(!field.same_location(&lane));
    assert!(!field.same_location(&index));
    assert!(!lane.same_location(&index));
}

#[test]
fn var_id_of_local() {
    let v = GpuValue::var(42, GpuTypeDetails::U32);
    assert_eq!(v.var_id(), 42);
}

#[test]
fn root_index_finds_first_matching_root() {
    let globs = vec![
        GpuValue::glob(10, GpuTypeDetails::I32),
        GpuValue::glob(20, GpuTypeDetails::U32),
    ];
    let second = GpuValue::glob(20, GpuTypeDetails::U32).field(1, GpuTypeDetails::U32);
    assert_eq!(second.root_index(&globs), Some(1));
    let missing = GpuValue::glob(30, GpuTypeDetails::U32);
    assert_eq!(missing.root_index(&globs), None);
    let local = GpuValue::var(0, GpuTypeDetails::U32);
    assert_eq!(local.root_index(&globs), None);
    assert_eq!(GpuValueRoot::Glob(20), globs[1].root);
}

#[test]
fn clone_keeps_address() {
    let a = GpuValue::glob(5, GpuTypeDetails::Bool).field(3, GpuTypeDetails::I32);
    let b = a.clone();
    assert!(a.same_location(&b));
}
