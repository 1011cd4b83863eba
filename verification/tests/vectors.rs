use ragna::App;
use ragna::Cpu;
use ragna::Gpu;
use ragna::GpuContext;
use ragna::GpuTypeDetails;
use ragna::Operation;
use ragna::ScalarKind;

#[test]
fn vector_types_render_their_target_names() {
    let mut s = String::new();
    let types: Vec<GpuTypeDetails> = Vec::new();
    ragna::wgsl::append_type_name(
        &mut s,
        &GpuTypeDetails::Vector { lanes: 2, scalar: ScalarKind::I32 },
        &types,
    );
    s.push(' ');
    ragna::wgsl::append_type_name(
        &mut s,
        &GpuTypeDetails::Vector { lanes: 3, scalar: ScalarKind::U32 },
        &types,
    );
    s.push(' ');
    ragna::wgsl::append_type_name(
        &mut s,
        &GpuTypeDetails::Vector { lanes: 4, scalar: ScalarKind::F32 },
        &types,
    );
    assert_eq!(s, "vec2i vec3u vec4f");
}

#[test]
fn vector_lanes_address_by_accessor() {
    let mut ctx = GpuContext::new();
    let x = 12i32.to_gpu(&mut ctx);
    let y = 23i32.to_gpu(&mut ctx);
    let vector = ragna::I32x2::new(&mut ctx, &x, &y);
    match ctx.operations.last().unwrap() {
        Operation::AssignVar(op) => {
            assert!(op.left_value.same_location(&vector.y.value()));
            assert!(op.right_value.same_location(&y.value()));
        }
        _ => panic!("expected an assignment"),
    }
    let app = App::default().with_compute(ctx);
    let shader = &app.wgsl_update_shaders()[0];
    assert!(shader.contains("    var v2: vec2i;"));
    assert!(shader.contains("    v2.x = v0;"));
    assert!(shader.contains("    v2.y = v1;"));
}

#[test]
fn three_and_four_lane_constructors_assign_every_lane() {
    let mut ctx = GpuContext::new();
    let a = 1u32.to_gpu(&mut ctx);
    let b = 2u32.to_gpu(&mut ctx);
    let c = 3u32.to_gpu(&mut ctx);
    let vector = ragna::U32x3::new(&mut ctx, &a, &b, &c);
    assert!(vector.z.value().same_location(
        &vector.value().vec_field(2, GpuTypeDetails::U32),
    ));
    let app = App::default().with_compute(ctx);
    let shader = &app.wgsl_update_shaders()[0];
    assert!(shader.contains("    var v3: vec3u;"));
    assert!(shader.contains("    v3.z = v2;"));
}
