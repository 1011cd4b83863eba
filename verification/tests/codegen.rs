use ragna::App;
use ragna::Cpu;
use ragna::Gpu;
use ragna::GpuContext;
use ragna::I32;
use ragna::U32;

fn one_glob_app() -> (App, I32) {
    let mut app = App::default();
    let glob: I32 = ragna::create_glob(0);
    let default = 10i32.to_gpu(&mut app.init_ctx);
    app = app.with_glob(&glob, &default);
    (app, glob)
}

#[test]
fn header_is_empty_without_globs() {
    let app = App::default();
    assert_eq!(app.wgsl_init_shader(), "@compute @workgroup_size(1, 1, 1)\nfn main() {\n\n\n}");
}

#[test]
fn init_shader_assigns_the_default() {
    let (app, _) = one_glob_app();
    let expected = "@group(0) @binding(0)\n\
                    var<storage, read_write> buf: Buf;\n\
                    \n\
                    struct Buf {\n\
                    \x20   g0: i32,\n\
                    }\n\
                    \n\
                    \n\
                    \n\
                    @compute @workgroup_size(1, 1, 1)\n\
                    fn main() {\n\
                    \x20   var _vg0 = buf.g0;\n\
                    \x20   var v0: i32;\n\
                    \x20   v0 = 10;\n\
                    \x20   buf.g0 = v0;\n}";
    assert_eq!(app.wgsl_init_shader(), expected);
}

#[test]
fn kernel_shader_renders_operations_in_trace_order() {
    let (app, glob) = one_glob_app();
    let mut ctx = GpuContext::new();
    let a = 1i32.to_gpu(&mut ctx);
    let b = 2i32.to_gpu(&mut ctx);
    let sum: I32 = ragna::apply_binary_op(&mut ctx, &a, &b, "+");
    ragna::assign(&mut ctx, &glob, &sum);
    let app = app.with_compute(ctx);
    let shaders = app.wgsl_update_shaders();
    assert_eq!(shaders.len(), 1);
    let expected = "@group(0) @binding(0)\n\
                    var<storage, read_write> buf: Buf;\n\
                    \n\
                    struct Buf {\n\
                    \x20   g0: i32,\n\
                    }\n\
                    \n\
                    \n\
                    \n\
                    @compute @workgroup_size(1, 1, 1)\n\
                    fn main() {\n\
                    \x20   var _vg0 = buf.g0;\n\
                    \x20   var v0: i32;\n\
                    \x20   v0 = 1;\n\
                    \x20   var v1: i32;\n\
                    \x20   v1 = 2;\n\
                    \x20   var v2: i32;\n\
                    \x20   v2 = v0 + v1;\n\
                    \x20   buf.g0 = v2;\n}";
    assert_eq!(shaders[0], expected);
}

#[test]
fn boolean_values_convert_at_both_boundaries() {
    let mut app = App::default();
    let glob: ragna::Bool = ragna::create_glob(0);
    let default = true.to_gpu(&mut app.init_ctx);
    let mut app = app.with_glob(&glob, &default);
    let mut ctx = GpuContext::new();
    let negated: ragna::Bool = ragna::apply_unary_op(&mut ctx, &glob, "!");
    ragna::assign(&mut ctx, &glob, &negated);
    app = app.with_compute(ctx);
    let shader = &app.wgsl_update_shaders()[0];
    // the operand converts to a real boolean, the result wraps back
    // into the 32-bit word representation
    assert!(shader.contains("    v0 = u32(!bool(buf.g0));"));
    // the boolean global renders as a u32 field
    assert!(shader.contains("    g0: u32,"));
}

#[test]
fn conditions_convert_to_real_booleans() {
    let (app, glob) = one_glob_app();
    let mut ctx = GpuContext::new();
    let a = 1i32.to_gpu(&mut ctx);
    let cond: ragna::Bool = ragna::apply_binary_op(&mut ctx, &glob, &a, ">");
    ragna::if_block(&mut ctx, &cond);
    ragna::else_block(&mut ctx);
    ragna::end_block(&mut ctx);
    let app = app.with_compute(ctx);
    let shader = &app.wgsl_update_shaders()[0];
    assert!(shader.contains("    if (bool(v1)) {"));
    assert!(shader.contains("    } else {"));
    // the comparison wraps its boolean result back into a u32 word
    assert!(shader.contains("    v1 = u32(buf.g0 > v0);"));
}

#[test]
fn record_types_declare_with_positional_names() {
    let mut app = App::default();
    let glob: ragna::Range<U32> = ragna::create_glob(0);
    let start = 1u32.to_gpu(&mut app.init_ctx);
    let end = 4u32.to_gpu(&mut app.init_ctx);
    let default = ragna::Range::new(&mut app.init_ctx, &start, &end);
    let app = app.with_glob(&glob, &default);
    let shader = app.wgsl_init_shader();
    // the range type gets a positional name after the registry entries
    // before it (itself and the scalar it contains)
    assert!(shader.contains("    g0: T0,"));
    assert!(shader.contains("struct T0 {\n    f0: u32,\n    f1: u32,\n}"));
    // the range fields address through positional field names
    assert!(shader.contains("    v2.f0 = v0;"));
    assert!(shader.contains("    v2.f1 = v1;"));
}

#[test]
fn array_types_render_generically() {
    let mut ctx = GpuContext::new();
    let item = 7u32.to_gpu(&mut ctx);
    let arr: ragna::Array<U32, 5> =
        ragna::Array::new(&mut ctx, vec![
            U32::from_value(item.value()),
            U32::from_value(item.value()),
            U32::from_value(item.value()),
            U32::from_value(item.value()),
            U32::from_value(item.value()),
        ]);
    let _ = arr;
    let app = App::default().with_compute(ctx);
    let shader = &app.wgsl_update_shaders()[0];
    assert!(shader.contains("    var v1: array<u32, 5>;"));
    assert!(shader.contains("    v1 = array(v0, v0, v0, v0, v0);"));
}

#[test]
fn generation_is_deterministic() {
    // recording the same program twice from fresh contexts yields
    // byte-identical text
    let build = || {
        let mut app = App::default();
        let glob: I32 = ragna::create_glob(0);
        let default = 10i32.to_gpu(&mut app.init_ctx);
        let mut app = app.with_glob(&glob, &default);
        let mut ctx = GpuContext::new();
        let a = 1i32.to_gpu(&mut ctx);
        let sum: I32 = ragna::apply_binary_op(&mut ctx, &glob, &a, "+");
        ragna::assign(&mut ctx, &glob, &sum);
        app = app.with_compute(ctx);
        (app.wgsl_init_shader(), app.wgsl_update_shaders())
    };
    let (init1, updates1) = build();
    let (init2, updates2) = build();
    assert_eq!(init1, init2);
    assert_eq!(updates1, updates2);
}
