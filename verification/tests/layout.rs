use ragna::GpuTypeDetails;
use ragna::ScalarKind;

fn u32_pair() -> GpuTypeDetails {
    GpuTypeDetails::Struct { fields: vec![GpuTypeDetails::U32, GpuTypeDetails::U32] }
}

#[test]
fn scalar_layout() {
    assert_eq!(GpuTypeDetails::I32.size(), 4);
    assert_eq!(GpuTypeDetails::I32.alignment(), 4);
    assert_eq!(GpuTypeDetails::U32.size(), 4);
    assert_eq!(GpuTypeDetails::Bool.size(), 4);
    assert_eq!(GpuTypeDetails::Bool.alignment(), 4);
}

#[test]
fn vector_alignment_asymmetry() {
    let v2 = GpuTypeDetails::Vector { lanes: 2, scalar: ScalarKind::U32 };
    let v3 = GpuTypeDetails::Vector { lanes: 3, scalar: ScalarKind::F32 };
    let v4 = GpuTypeDetails::Vector { lanes: 4, scalar: ScalarKind::I32 };
    assert_eq!(v2.alignment(), 8);
    assert_eq!(v3.alignment(), 16);
    assert_eq!(v4.alignment(), 16);
    assert_eq!(v2.size(), 8);
    assert_eq!(v3.size(), 12);
    assert_eq!(v4.size(), 16);
}

#[test]
fn array_layout() {
    let a = GpuTypeDetails::Array { item: Box::new(GpuTypeDetails::I32), len: 5 };
    assert_eq!(a.size(), 20);
    assert_eq!(a.alignment(), 4);
    let av3 = GpuTypeDetails::Array {
        item: Box::new(GpuTypeDetails::Vector { lanes: 3, scalar: ScalarKind::F32 }),
        len: 2,
    };
    // each 12-byte item strides to the next 16-byte boundary
    assert_eq!(av3.size(), 32);
    assert_eq!(av3.alignment(), 16);
}

#[test]
fn struct_field_offsets() {
    let t = GpuTypeDetails::Struct {
        fields: vec![
            GpuTypeDetails::U32,
            GpuTypeDetails::Vector { lanes: 2, scalar: ScalarKind::U32 },
            GpuTypeDetails::U32,
        ],
    };
    assert_eq!(t.field_offset(0), 0);
    assert_eq!(t.field_offset(1), 8);
    assert_eq!(t.field_offset(2), 16);
    // one past the last field: the padded size, a multiple of the alignment
    assert_eq!(t.field_offset(3), 24);
    assert_eq!(t.size(), 24);
    assert_eq!(t.alignment(), 8);
    assert_eq!(t.size() % t.alignment(), 0);
}

#[test]
fn nested_struct_offsets() {
    // a range of ranges: {start: {start, end}, end: {start, end}}
    let inner = u32_pair();
    let outer = GpuTypeDetails::Struct { fields: vec![u32_pair(), u32_pair()] };
    assert_eq!(inner.size(), 8);
    assert_eq!(inner.field_offset(1), 4);
    assert_eq!(outer.size(), 16);
    assert_eq!(outer.field_offset(1), 8);
    // the inner end of the outer start lives at offset of field 0 plus
    // the inner offset of field 1: one scalar's size
    assert_eq!(outer.field_offset(0) + inner.field_offset(1), 4);
}

#[test]
fn offsets_never_overlap() {
    let t = GpuTypeDetails::Struct {
        fields: vec![
            GpuTypeDetails::U32,
            GpuTypeDetails::Vector { lanes: 3, scalar: ScalarKind::I32 },
            GpuTypeDetails::Bool,
            GpuTypeDetails::Vector { lanes: 2, scalar: ScalarKind::F32 },
        ],
    };
    let sizes = [4u64, 12, 4, 8];
    for i in 0..3 {
        assert!(t.field_offset(i + 1) >= t.field_offset(i) + sizes[i]);
    }
    assert_eq!(t.size() % t.alignment(), 0);
}

#[test]
fn structural_type_equality() {
    let a = GpuTypeDetails::Struct { fields: vec![GpuTypeDetails::I32, GpuTypeDetails::Bool] };
    let b = GpuTypeDetails::Struct { fields: vec![GpuTypeDetails::I32, GpuTypeDetails::Bool] };
    let c = GpuTypeDetails::Struct { fields: vec![GpuTypeDetails::I32, GpuTypeDetails::U32] };
    assert!(ragna::types::same_type(&a, &b));
    assert!(!ragna::types::same_type(&a, &c));
    // a boolean is stored as u32 but stays a distinct type
    assert!(!ragna::types::same_type(&GpuTypeDetails::Bool, &GpuTypeDetails::U32));
    let clone = a.clone();
    assert!(ragna::types::same_type(&a, &clone));
}
