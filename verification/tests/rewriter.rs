use ragna::App;
use ragna::DslBinOp;
use ragna::DslError;
use ragna::DslExpr;
use ragna::DslStmt;
use ragna::DslType;
use ragna::Operation;

fn lit(v: i32) -> Box<DslExpr> {
    Box::new(DslExpr::LitI32(v))
}

fn bin(op: DslBinOp, l: Box<DslExpr>, r: Box<DslExpr>) -> DslExpr {
    DslExpr::Binary { op, left: l, right: r }
}

fn assign_glob(id: u64, t: DslType, value: DslExpr) -> DslStmt {
    DslStmt::Assign { target_id: id, target_type: t, value }
}

#[test]
fn unsupported_operators_are_rejected() {
    let program = vec![assign_glob(
        0,
        DslType::I32,
        bin(DslBinOp::BitAnd, lit(1), lit(2)),
    )];
    match ragna::lower_kernel(&program) {
        Ok(_) => panic!("expected diagnostics"),
        Err(diags) => assert_eq!(diags, vec![DslError::UnsupportedOperator]),
    }
}

#[test]
fn diagnostics_are_collected_across_the_body() {
    // every problem of the body is reported in one pass
    let program = vec![
        assign_glob(0, DslType::I32, bin(DslBinOp::Shl, lit(1), lit(2))),
        DslStmt::Break,
        assign_glob(1, DslType::Bool, DslExpr::LitI32(3)),
        DslStmt::Continue,
    ];
    match ragna::lower_kernel(&program) {
        Ok(_) => panic!("expected diagnostics"),
        Err(diags) => assert_eq!(
            diags,
            vec![
                DslError::UnsupportedOperator,
                DslError::BreakOutsideLoop,
                DslError::TypeMismatch,
                DslError::ContinueOutsideLoop,
            ],
        ),
    }
}

#[test]
fn type_mismatches_are_rejected() {
    let program = vec![assign_glob(
        0,
        DslType::I32,
        bin(DslBinOp::Add, lit(1), Box::new(DslExpr::LitBool(true))),
    )];
    match ragna::lower_kernel(&program) {
        Ok(_) => panic!("expected diagnostics"),
        Err(diags) => assert_eq!(diags, vec![DslError::TypeMismatch]),
    }
}

#[test]
fn break_lowers_inside_a_loop() {
    let program = vec![DslStmt::While {
        condition: DslExpr::LitBool(true),
        body: vec![DslStmt::Break],
    }];
    let ctx = ragna::lower_kernel(&program).unwrap();
    // loop, the constant condition, its negation, the guarded break,
    // the body's break, and the loop's end
    assert!(matches!(ctx.operations[0], Operation::LoopBlock));
    assert!(matches!(ctx.operations[1], Operation::DeclareVar(_)));
    assert!(matches!(ctx.operations[2], Operation::ConstantAssignVar(_)));
    assert!(matches!(ctx.operations[3], Operation::DeclareVar(_)));
    assert!(matches!(ctx.operations[4], Operation::Unary(_)));
    assert!(matches!(ctx.operations[5], Operation::IfBlock(_)));
    assert!(matches!(ctx.operations[6], Operation::Break));
    assert!(matches!(ctx.operations[7], Operation::EndBlock));
    assert!(matches!(ctx.operations[8], Operation::Break));
    assert!(matches!(ctx.operations[9], Operation::EndBlock));
    assert_eq!(ctx.operations.len(), 10);
}

#[test]
fn derived_comparisons_rewrite_over_equality_and_greater() {
    // a < b becomes !(a > b || a == b)
    let program = vec![assign_glob(
        0,
        DslType::Bool,
        bin(DslBinOp::Lt, lit(1), lit(2)),
    )];
    let ctx = ragna::lower_kernel(&program).unwrap();
    let app = App::default().with_compute(ctx);
    let shader = &app.wgsl_update_shaders()[0];
    assert!(shader.contains("    v2 = u32(v0 > v1);"));
    assert!(shader.contains("    v3 = u32(v0 == v1);"));
    assert!(shader.contains("    v4 = u32(bool(v2) || bool(v3));"));
    assert!(shader.contains("    v5 = u32(!bool(v4));"));
    assert!(shader.contains("    buf.g0 = v5;"));
}

#[test]
fn not_equal_rewrites_over_equality() {
    let program = vec![assign_glob(
        0,
        DslType::Bool,
        bin(DslBinOp::Ne, lit(1), lit(2)),
    )];
    let ctx = ragna::lower_kernel(&program).unwrap();
    let app = App::default().with_compute(ctx);
    let shader = &app.wgsl_update_shaders()[0];
    assert!(shader.contains("    v2 = u32(v0 == v1);"));
    assert!(shader.contains("    v3 = u32(!bool(v2));"));
}

#[test]
fn logical_operators_lower_non_short_circuiting() {
    let program = vec![assign_glob(
        0,
        DslType::Bool,
        bin(
            DslBinOp::And,
            Box::new(DslExpr::LitBool(true)),
            Box::new(DslExpr::LitBool(false)),
        ),
    )];
    let ctx = ragna::lower_kernel(&program).unwrap();
    match &ctx.operations[5] {
        Operation::Binary(op) => assert_eq!(op.operator, "&&"),
        _ => panic!("expected a binary operation"),
    }
}

#[test]
fn if_expression_declares_result_before_blocks() {
    let program = vec![assign_glob(
        0,
        DslType::I32,
        DslExpr::If {
            condition: Box::new(DslExpr::LitBool(true)),
            then_value: lit(1),
            else_value: lit(2),
        },
    )];
    let ctx = ragna::lower_kernel(&program).unwrap();
    // condition constant, result declaration, block, then-branch with
    // its assignment, alternative, else-branch with its assignment, end
    assert!(matches!(ctx.operations[0], Operation::DeclareVar(_)));
    assert!(matches!(ctx.operations[1], Operation::ConstantAssignVar(_)));
    assert!(matches!(ctx.operations[2], Operation::DeclareVar(_)));
    assert!(matches!(ctx.operations[3], Operation::IfBlock(_)));
    assert!(matches!(ctx.operations[6], Operation::AssignVar(_)));
    assert!(matches!(ctx.operations[7], Operation::ElseBlock));
    assert!(matches!(ctx.operations[10], Operation::AssignVar(_)));
    assert!(matches!(ctx.operations[11], Operation::EndBlock));
    match &ctx.operations[12] {
        Operation::AssignVar(op) => {
            assert!(op.right_value.same_location(&ragna::GpuValue::var(
                1,
                ragna::GpuTypeDetails::I32,
            )));
        }
        _ => panic!("expected the target assignment"),
    }
}

#[test]
fn empty_alternative_emits_no_marker() {
    let program = vec![DslStmt::If {
        condition: DslExpr::LitBool(true),
        then_body: vec![assign_glob(0, DslType::I32, DslExpr::LitI32(1))],
        else_body: vec![],
    }];
    let ctx = ragna::lower_kernel(&program).unwrap();
    assert!(!ctx.operations.iter().any(|op| matches!(op, Operation::ElseBlock)));
    assert!(matches!(ctx.operations.last().unwrap(), Operation::EndBlock));
}
