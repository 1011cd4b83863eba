use ragna::Array;
use ragna::Bool;
use ragna::Cpu;
use ragna::Gpu;
use ragna::Iterable;
use ragna::GpuContext;
use ragna::GpuTypeDetails;
use ragna::I32;
use ragna::Operation;
use ragna::U32;

#[test]
fn fresh_variable_ids_count_up() {
    let mut ctx = GpuContext::new();
    let a: I32 = ragna::create_uninit_var(&mut ctx);
    let b: I32 = ragna::create_uninit_var(&mut ctx);
    assert_eq!(a.value().var_id(), 0);
    assert_eq!(b.value().var_id(), 1);
    assert_eq!(ctx.next_var_id, 2);
    assert_eq!(ctx.operations.len(), 2);
}

#[test]
fn declaration_records_type() {
    let mut ctx = GpuContext::new();
    let _: Bool = ragna::create_uninit_var(&mut ctx);
    match &ctx.operations[0] {
        Operation::DeclareVar(op) => {
            assert_eq!(op.id, 0);
            assert!(ragna::types::same_type(&op.type_, &GpuTypeDetails::Bool));
        }
        _ => panic!("expected a declaration"),
    }
    assert!(ctx.types.iter().any(|t| ragna::types::same_type(t, &GpuTypeDetails::Bool)));
}

#[test]
fn assignment_records_both_addresses() {
    let mut ctx = GpuContext::new();
    let glob: I32 = ragna::create_glob(9);
    let value = 5i32.to_gpu(&mut ctx);
    ragna::assign(&mut ctx, &glob, &value);
    // declaration, constant materialization, then the assignment
    assert_eq!(ctx.operations.len(), 3);
    match &ctx.operations[2] {
        Operation::AssignVar(op) => {
            assert!(op.left_value.same_location(&glob.value()));
            assert!(op.right_value.same_location(&value.value()));
        }
        _ => panic!("expected an assignment"),
    }
}

#[test]
fn constants_materialize_their_text() {
    let mut ctx = GpuContext::new();
    let _ = (-42i32).to_gpu(&mut ctx);
    let _ = true.to_gpu(&mut ctx);
    match &ctx.operations[1] {
        Operation::ConstantAssignVar(op) => match &op.right_value {
            ragna::Wgsl::Value(text) => assert_eq!(text, "-42"),
            ragna::Wgsl::Constructor(_) => panic!("expected literal text"),
        },
        _ => panic!("expected a constant assignment"),
    }
    match &ctx.operations[3] {
        Operation::ConstantAssignVar(op) => match &op.right_value {
            ragna::Wgsl::Value(text) => assert_eq!(text, "1"),
            ragna::Wgsl::Constructor(_) => panic!("expected literal text"),
        },
        _ => panic!("expected a constant assignment"),
    }
}

#[test]
fn operators_record_operands_in_order() {
    let mut ctx = GpuContext::new();
    let a = 1u32.to_gpu(&mut ctx);
    let b = 2u32.to_gpu(&mut ctx);
    let sum: U32 = ragna::apply_binary_op(&mut ctx, &a, &b, "+");
    match &ctx.operations[5] {
        Operation::Binary(op) => {
            assert_eq!(op.operator, "+");
            assert!(op.var.same_location(&sum.value()));
            assert!(op.left_value.same_location(&a.value()));
            assert!(op.right_value.same_location(&b.value()));
        }
        _ => panic!("expected a binary operation"),
    }
    let negated: I32 = ragna::apply_unary_op(&mut ctx, &sum, "-");
    match &ctx.operations[7] {
        Operation::Unary(op) => {
            assert_eq!(op.operator, "-");
            assert!(op.var.same_location(&negated.value()));
            assert!(op.value.same_location(&sum.value()));
        }
        _ => panic!("expected a unary operation"),
    }
}

#[test]
fn control_flow_markers_record_in_order() {
    let mut ctx = GpuContext::new();
    let cond = false.to_gpu(&mut ctx);
    ragna::loop_block(&mut ctx);
    ragna::if_block(&mut ctx, &cond);
    ragna::continue_(&mut ctx);
    ragna::else_block(&mut ctx);
    ragna::break_(&mut ctx);
    ragna::end_block(&mut ctx);
    ragna::end_block(&mut ctx);
    assert!(matches!(ctx.operations[2], Operation::LoopBlock));
    assert!(matches!(ctx.operations[3], Operation::IfBlock(_)));
    assert!(matches!(ctx.operations[4], Operation::Continue));
    assert!(matches!(ctx.operations[5], Operation::ElseBlock));
    assert!(matches!(ctx.operations[6], Operation::Break));
    assert!(matches!(ctx.operations[7], Operation::EndBlock));
    assert!(matches!(ctx.operations[8], Operation::EndBlock));
}

#[test]
fn registering_a_type_collects_its_components() {
    let mut ctx = GpuContext::new();
    let nested = GpuTypeDetails::Struct {
        fields: vec![
            GpuTypeDetails::Array { item: Box::new(GpuTypeDetails::I32), len: 3 },
            GpuTypeDetails::Bool,
        ],
    };
    ctx.register_type(&nested);
    // the type itself, the array, the array item, and the boolean
    assert_eq!(ctx.types.len(), 4);
    assert!(ragna::types::same_type(&ctx.types[0], &nested));
    assert!(ctx.types.iter().any(|t| ragna::types::same_type(t, &GpuTypeDetails::I32)));
}

#[test]
fn index_memoization_reuses_hidden_variable() {
    let mut ctx = GpuContext::new();
    let arr: Array<U32, 4> = ragna::create_uninit_var(&mut ctx);
    let index = 2u32.to_gpu(&mut ctx);
    let first = arr.index(&mut ctx, &index);
    let ops_after_first = ctx.operations.len();
    let declares_after_first =
        ctx.operations.iter().filter(|op| matches!(op, Operation::DeclareVar(_))).count();
    // indexing the same array with the same index value again reuses the
    // hidden index variable and records nothing new
    let second = arr.index(&mut ctx, &index);
    assert_eq!(ctx.operations.len(), ops_after_first);
    let declares_after_second =
        ctx.operations.iter().filter(|op| matches!(op, Operation::DeclareVar(_))).count();
    assert_eq!(declares_after_first, declares_after_second);
    assert!(first.value().same_location(&second.value()));
    // a different index value gets its own hidden variable
    let other = 3u32.to_gpu(&mut ctx);
    let third = arr.index(&mut ctx, &other);
    assert!(!third.value().same_location(&first.value()));
    assert!(ctx.operations.len() > ops_after_first);
}

#[test]
fn range_iteration_records_select_based_length() {
    let mut ctx = GpuContext::new();
    let start = 3u32.to_gpu(&mut ctx);
    let end = 6u32.to_gpu(&mut ctx);
    let range = ragna::Range::new(&mut ctx, &start, &end);
    let before = ctx.operations.len();
    let length = range.len(&mut ctx);
    // zero, the span, the comparison, then the select call
    assert_eq!(ctx.operations.len(), before + 8);
    match &ctx.operations[before + 7] {
        Operation::FnCall(op) => {
            assert_eq!(op.fn_name, "select");
            assert_eq!(op.args.len(), 3);
            assert!(op.is_supporting_bool);
            assert!(op.var.same_location(&length.value()));
        }
        _ => panic!("expected a call"),
    }
    let item = range.next(&mut ctx, &length);
    match ctx.operations.last().unwrap() {
        Operation::Binary(op) => {
            assert_eq!(op.operator, "+");
            assert!(op.var.same_location(&item.value()));
        }
        _ => panic!("expected a binary operation"),
    }
    let empty = range.is_empty(&mut ctx);
    match ctx.operations.last().unwrap() {
        Operation::Binary(op) => {
            assert_eq!(op.operator, "==");
            assert!(op.var.same_location(&empty.value()));
        }
        _ => panic!("expected a binary operation"),
    }
}

#[test]
fn bool_operators_record_non_short_circuiting_forms() {
    let mut ctx = GpuContext::new();
    let a = true.to_gpu(&mut ctx);
    let b = false.to_gpu(&mut ctx);
    let _ = a.and(&b, &mut ctx);
    let _ = a.or(&b, &mut ctx);
    match &ctx.operations[5] {
        Operation::Binary(op) => assert_eq!(op.operator, "&&"),
        _ => panic!("expected a binary operation"),
    }
    match &ctx.operations[7] {
        Operation::Binary(op) => assert_eq!(op.operator, "||"),
        _ => panic!("expected a binary operation"),
    }
}
