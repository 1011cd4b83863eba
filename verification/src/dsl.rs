//! The source-rewriting front end: lowering the embedded language into
//! recorded operations.
//!
//! A program of the embedded language is a small tree of typed
//! expressions and statements over 32-bit scalars, booleans and global
//! slots.  Lowering walks the tree and drives the recording API so that
//! running the lowered form fills a context with the operation trace of
//! an equivalent kernel:
//!
//! - every literal materializes as a typed constant;
//! - the short-circuiting `&&` and `||` become the non-short-circuiting
//!   recorded forms, and the comparisons the target lacks are rewritten
//!   algebraically over `==` and `>` before recording — `a != b` as
//!   `!(a == b)`, `a <= b` as `!(a > b)`, `a >= b` as `a > b || a == b`,
//!   and `a < b` as `!(a > b || a == b)`;
//! - an `if` used as an expression declares its result variable before
//!   the blocks and assigns into it from both branches;
//! - a `while` loop becomes a loop block holding a break guarded by the
//!   negated condition, then the body;
//! - unsupported syntax — bitwise and shift operators, a `break` or
//!   `continue` outside any loop, an ill-typed operand — is rejected
//!   with a diagnostic rather than miscompiled, and every diagnostic of
//!   a body is collected before lowering fails: no trace is handed out
//!   if any diagnostic fired.

use vstd::prelude::*;
use crate::context::GpuContext;
use crate::context::spec_type_closure;
use crate::gpu::Gpu;
use crate::gpu::binary_op_ops;
use crate::gpu::constant_ops;
use crate::gpu::glob_view;
use crate::gpu::unary_op_ops;
use crate::gpu::var_view;
use crate::operations::BinaryOperation;
use crate::operations::DeclareVarOperation;
use crate::operations::Operation;
use crate::operations::OperationView;
use crate::operations::UnaryOperation;
use crate::operations::WgslView;
use crate::operations::ops_view;
use crate::primitive::Bool;
use crate::primitive::I32;
use crate::primitive::U32;
use crate::text::spec_dec;
use crate::text::spec_signed_dec;
use crate::types::GpuTypeDetails;
use crate::types::Ty;
use crate::types::types_view;
use crate::values::GpuValue;
use crate::values::ValueView;

verus! {

/// A value type of the embedded language.
#[derive(Clone, Copy, PartialEq, Eq, Structural, Debug)]
pub enum DslType {
    I32,
    U32,
    Bool,
}

/// A unary operator of the embedded language.
#[derive(Clone, Copy, PartialEq, Eq, Structural, Debug)]
pub enum DslUnOp {
    Neg,
    Not,
}

/// A binary operator of the embedded language.  The bitwise and shift
/// operators are part of the surface syntax but have no recorded form:
/// using one is a diagnostic.
#[derive(Clone, Copy, PartialEq, Eq, Structural, Debug)]
pub enum DslBinOp {
    Add,
    Sub,
    Mul,
    Div,
    Rem,
    Eq,
    Ne,
    Gt,
    Lt,
    Ge,
    Le,
    And,
    Or,
    BitAnd,
    BitOr,
    BitXor,
    Shl,
    Shr,
}

/// An expression of the embedded language.
pub enum DslExpr {
    LitI32(i32),
    LitU32(u32),
    LitBool(bool),
    /// A reference to the global slot `id`, of the declared type.
    Glob { id: u64, type_: DslType },
    Unary { op: DslUnOp, operand: Box<DslExpr> },
    Binary { op: DslBinOp, left: Box<DslExpr>, right: Box<DslExpr> },
    /// An `if` used as an expression: both branches produce the value.
    If { condition: Box<DslExpr>, then_value: Box<DslExpr>, else_value: Box<DslExpr> },
}

/// A statement of the embedded language.
pub enum DslStmt {
    /// An assignment into the global slot `target_id`.
    Assign { target_id: u64, target_type: DslType, value: DslExpr },
    If { condition: DslExpr, then_body: Vec<DslStmt>, else_body: Vec<DslStmt> },
    While { condition: DslExpr, body: Vec<DslStmt> },
    Break,
    Continue,
}

/// A diagnostic of the lowering pass.
#[derive(Clone, Copy, PartialEq, Eq, Structural, Debug)]
pub enum DslError {
    /// A bitwise or shift operator, which has no recorded form.
    UnsupportedOperator,
    /// An operator applied to operands it does not accept, or branches
    /// of different types.
    TypeMismatch,
    /// A `break` outside any loop.
    BreakOutsideLoop,
    /// A `continue` outside any loop.
    ContinueOutsideLoop,
}

/// The recorded type a language type denotes.
pub open spec fn dsl_ty(t: DslType) -> Ty {
    match t {
        DslType::I32 => Ty::I32,
        DslType::U32 => Ty::U32,
        DslType::Bool => Ty::Bool,
    }
}

/// Whether a binary operator has a recorded form at all.
pub open spec fn spec_bin_supported(op: DslBinOp) -> bool {
    !(op is BitAnd || op is BitOr || op is BitXor || op is Shl || op is Shr)
}

/// The type of an expression, or nothing where a diagnostic fires
/// inside it: an unsupported operator, an ill-typed operand, or
/// branches of different types.
pub open spec fn spec_expr_type(e: DslExpr) -> Option<DslType>
    decreases e,
{
    match e {
        DslExpr::LitI32(_) => Some(DslType::I32),
        DslExpr::LitU32(_) => Some(DslType::U32),
        DslExpr::LitBool(_) => Some(DslType::Bool),
        DslExpr::Glob { type_, .. } => Some(type_),
        DslExpr::Unary { op, operand } => match (op, spec_expr_type(*operand)) {
            (DslUnOp::Neg, Some(DslType::I32)) => Some(DslType::I32),
            (DslUnOp::Not, Some(DslType::Bool)) => Some(DslType::Bool),
            _ => None,
        },
        DslExpr::Binary { op, left, right } => {
            let lt = spec_expr_type(*left);
            let rt = spec_expr_type(*right);
            if !spec_bin_supported(op) || lt is None || rt is None || lt != rt {
                None
            } else if op is Add || op is Sub || op is Mul || op is Div || op is Rem {
                if lt->0 is Bool {
                    None
                } else {
                    lt
                }
            } else if op is Eq || op is Ne {
                Some(DslType::Bool)
            } else if op is Gt || op is Lt || op is Ge || op is Le {
                if lt->0 is Bool {
                    None
                } else {
                    Some(DslType::Bool)
                }
            } else {
                // And / Or
                if lt->0 is Bool {
                    Some(DslType::Bool)
                } else {
                    None
                }
            }
        },
        DslExpr::If { condition, then_value, else_value } => {
            let ct = spec_expr_type(*condition);
            let tt = spec_expr_type(*then_value);
            let et = spec_expr_type(*else_value);
            if ct == Some(DslType::Bool) && tt is Some && tt == et {
                tt
            } else {
                None
            }
        },
    }
}

/// Whether lowering the expression fires no diagnostic.
pub open spec fn spec_expr_wf(e: DslExpr) -> bool {
    spec_expr_type(e) is Some
}

/// How many recorded operations a supported binary operator needs once
/// its operands are lowered: the rewritten comparisons expand to
/// several.
pub open spec fn spec_bin_op_count(op: DslBinOp) -> int {
    match op {
        DslBinOp::Ne | DslBinOp::Le => 2,
        DslBinOp::Ge => 3,
        DslBinOp::Lt => 4,
        _ => 1,
    }
}

/// How many fresh variable ids lowering the expression allocates, when
/// no diagnostic fires.
pub open spec fn spec_expr_vars(e: DslExpr) -> int
    decreases e,
{
    match e {
        DslExpr::LitI32(_) | DslExpr::LitU32(_) | DslExpr::LitBool(_) => 1,
        DslExpr::Glob { .. } => 0,
        DslExpr::Unary { operand, .. } => spec_expr_vars(*operand) + 1,
        DslExpr::Binary { op, left, right } => spec_expr_vars(*left) + spec_expr_vars(*right)
            + spec_bin_op_count(op),
        DslExpr::If { condition, then_value, else_value } => spec_expr_vars(*condition) + 1
            + spec_expr_vars(*then_value) + spec_expr_vars(*else_value),
    }
}

/// An upper bound on the ids lowering may allocate on any path,
/// diagnostics included.
pub open spec fn spec_expr_budget(e: DslExpr) -> int
    decreases e,
{
    match e {
        DslExpr::LitI32(_) | DslExpr::LitU32(_) | DslExpr::LitBool(_) => 1,
        DslExpr::Glob { .. } => 1,
        DslExpr::Unary { operand, .. } => spec_expr_budget(*operand) + 1,
        DslExpr::Binary { left, right, .. } => spec_expr_budget(*left) + spec_expr_budget(*right)
            + 4,
        DslExpr::If { condition, then_value, else_value } => spec_expr_budget(*condition) + 1
            + spec_expr_budget(*then_value) + spec_expr_budget(*else_value),
    }
}

/// The address an expression's value ends at when lowering starts with
/// `n` as the next fresh id: a global's own slot, or the last variable
/// the expression declares — except an `if` expression, whose result
/// variable is declared right after its condition.
pub open spec fn spec_expr_result(e: DslExpr, n: u32) -> ValueView
    decreases e,
{
    match e {
        DslExpr::Glob { id, type_ } => glob_view(id, dsl_ty(type_)),
        DslExpr::If { condition, .. } => var_view(
            (n + spec_expr_vars(*condition)) as u32,
            dsl_ty(spec_expr_type(e)->0),
        ),
        _ => var_view((n + spec_expr_vars(e) - 1) as u32, dsl_ty(spec_expr_type(e)->0)),
    }
}

/// The instructions a supported binary operator records over its
/// lowered operands, `k` being the next fresh id: the direct form for
/// the operators the target has, the algebraic rewriting over `==` and
/// `>` for the others.
pub open spec fn spec_bin_ops(
    op: DslBinOp,
    t: Ty,
    l: ValueView,
    r: ValueView,
    k: u32,
) -> Seq<OperationView> {
    match op {
        DslBinOp::Add => binary_op_ops(k, t, l, r, "+"@),
        DslBinOp::Sub => binary_op_ops(k, t, l, r, "-"@),
        DslBinOp::Mul => binary_op_ops(k, t, l, r, "*"@),
        DslBinOp::Div => binary_op_ops(k, t, l, r, "/"@),
        DslBinOp::Rem => binary_op_ops(k, t, l, r, "%"@),
        DslBinOp::Eq => binary_op_ops(k, Ty::Bool, l, r, "=="@),
        DslBinOp::Gt => binary_op_ops(k, Ty::Bool, l, r, ">"@),
        DslBinOp::And => binary_op_ops(k, Ty::Bool, l, r, "&&"@),
        DslBinOp::Or => binary_op_ops(k, Ty::Bool, l, r, "||"@),
        DslBinOp::Ne => binary_op_ops(k, Ty::Bool, l, r, "=="@) + unary_op_ops(
            (k + 1) as u32,
            Ty::Bool,
            var_view(k, Ty::Bool),
            "!"@,
        ),
        DslBinOp::Le => binary_op_ops(k, Ty::Bool, l, r, ">"@) + unary_op_ops(
            (k + 1) as u32,
            Ty::Bool,
            var_view(k, Ty::Bool),
            "!"@,
        ),
        DslBinOp::Ge => binary_op_ops(k, Ty::Bool, l, r, ">"@) + binary_op_ops(
            (k + 1) as u32,
            Ty::Bool,
            l,
            r,
            "=="@,
        ) + binary_op_ops(
            (k + 2) as u32,
            Ty::Bool,
            var_view(k, Ty::Bool),
            var_view((k + 1) as u32, Ty::Bool),
            "||"@,
        ),
        DslBinOp::Lt => binary_op_ops(k, Ty::Bool, l, r, ">"@) + binary_op_ops(
            (k + 1) as u32,
            Ty::Bool,
            l,
            r,
            "=="@,
        ) + binary_op_ops(
            (k + 2) as u32,
            Ty::Bool,
            var_view(k, Ty::Bool),
            var_view((k + 1) as u32, Ty::Bool),
            "||"@,
        ) + unary_op_ops((k + 3) as u32, Ty::Bool, var_view((k + 2) as u32, Ty::Bool), "!"@),
        _ => Seq::empty(),
    }
}

/// The result types the operator's recorded instructions declare, in
/// order.
pub open spec fn spec_bin_types(op: DslBinOp, t: Ty) -> Seq<Ty> {
    match op {
        DslBinOp::Add | DslBinOp::Sub | DslBinOp::Mul | DslBinOp::Div | DslBinOp::Rem => seq![t],
        DslBinOp::Eq | DslBinOp::Gt | DslBinOp::And | DslBinOp::Or => seq![Ty::Bool],
        DslBinOp::Ne | DslBinOp::Le => seq![Ty::Bool, Ty::Bool],
        DslBinOp::Ge => seq![Ty::Bool, Ty::Bool, Ty::Bool],
        DslBinOp::Lt => seq![Ty::Bool, Ty::Bool, Ty::Bool, Ty::Bool],
        _ => Seq::empty(),
    }
}

/// The instructions lowering the expression records when no diagnostic
/// fires, `n` being the next fresh id.
pub open spec fn spec_expr_ops(e: DslExpr, n: u32) -> Seq<OperationView>
    decreases e,
{
    match e {
        DslExpr::LitI32(v) => constant_ops(n, Ty::I32, WgslView::Value(spec_signed_dec(v as int))),
        DslExpr::LitU32(v) => constant_ops(n, Ty::U32, WgslView::Value(spec_dec(v as int))),
        DslExpr::LitBool(b) => constant_ops(
            n,
            Ty::Bool,
            WgslView::Value(spec_dec(if b { 1int } else { 0int })),
        ),
        DslExpr::Glob { .. } => Seq::empty(),
        DslExpr::Unary { op, operand } => spec_expr_ops(*operand, n) + unary_op_ops(
            (n + spec_expr_vars(*operand)) as u32,
            dsl_ty(spec_expr_type(e)->0),
            spec_expr_result(*operand, n),
            match op {
                DslUnOp::Neg => "-"@,
                DslUnOp::Not => "!"@,
            },
        ),
        DslExpr::Binary { op, left, right } => {
            let m = (n + spec_expr_vars(*left)) as u32;
            let k = (m + spec_expr_vars(*right)) as u32;
            spec_expr_ops(*left, n) + spec_expr_ops(*right, m) + spec_bin_ops(
                op,
                dsl_ty(spec_expr_type(e)->0),
                spec_expr_result(*left, n),
                spec_expr_result(*right, m),
                k,
            )
        },
        DslExpr::If { condition, then_value, else_value } => {
            let t = dsl_ty(spec_expr_type(e)->0);
            let result = (n + spec_expr_vars(*condition)) as u32;
            let then_start = (result + 1) as u32;
            let else_start = (then_start + spec_expr_vars(*then_value)) as u32;
            spec_expr_ops(*condition, n) + seq![
                OperationView::DeclareVar { id: result as int, type_: t },
                OperationView::IfBlock { condition: spec_expr_result(*condition, n) },
            ] + spec_expr_ops(*then_value, then_start) + seq![
                OperationView::AssignVar {
                    left_value: var_view(result, t),
                    right_value: spec_expr_result(*then_value, then_start),
                },
                OperationView::ElseBlock,
            ] + spec_expr_ops(*else_value, else_start) + seq![
                OperationView::AssignVar {
                    left_value: var_view(result, t),
                    right_value: spec_expr_result(*else_value, else_start),
                },
                OperationView::EndBlock,
            ]
        },
    }
}

/// The types lowering the expression registers, in order, when no
/// diagnostic fires.
pub open spec fn spec_expr_types(e: DslExpr) -> Seq<Ty>
    decreases e,
{
    match e {
        DslExpr::LitI32(_) => seq![Ty::I32],
        DslExpr::LitU32(_) => seq![Ty::U32],
        DslExpr::LitBool(_) => seq![Ty::Bool],
        DslExpr::Glob { .. } => Seq::empty(),
        DslExpr::Unary { .. } => spec_expr_types(*(e->Unary_operand)) + seq![
            dsl_ty(spec_expr_type(e)->0),
        ],
        DslExpr::Binary { op, left, right } => spec_expr_types(*left) + spec_expr_types(*right)
            + spec_bin_types(op, dsl_ty(spec_expr_type(e)->0)),
        DslExpr::If { condition, then_value, else_value } => spec_expr_types(*condition) + seq![
            dsl_ty(spec_expr_type(e)->0),
        ] + spec_expr_types(*then_value) + spec_expr_types(*else_value),
    }
}

/// A lowered value: a typed handle for the address holding it.
pub enum DslValue {
    I32(I32),
    U32(U32),
    Bool(Bool),
}

impl DslValue {
    /// The language type of this value.
    pub open spec fn ty(&self) -> DslType {
        match self {
            DslValue::I32(_) => DslType::I32,
            DslValue::U32(_) => DslType::U32,
            DslValue::Bool(_) => DslType::Bool,
        }
    }

    /// The address of this value.
    pub open spec fn spec_value(&self) -> ValueView {
        match self {
            DslValue::I32(v) => v.spec_value(),
            DslValue::U32(v) => v.spec_value(),
            DslValue::Bool(v) => v.spec_value(),
        }
    }

    /// The address of this value.
    pub fn value(&self) -> (r: GpuValue)
        ensures
            r@ == self.spec_value(),
    {
        match self {
            DslValue::I32(v) => v.value(),
            DslValue::U32(v) => v.value(),
            DslValue::Bool(v) => v.value(),
        }
    }
}

/// The structural description of a language type.
fn dsl_details(t: DslType) -> (r: GpuTypeDetails)
    ensures
        r@ == dsl_ty(t),
{
    match t {
        DslType::I32 => GpuTypeDetails::I32,
        DslType::U32 => GpuTypeDetails::U32,
        DslType::Bool => GpuTypeDetails::Bool,
    }
}

/// The typed handle for a value of type `t` stored at `value`.
fn dsl_handle(t: DslType, value: GpuValue) -> (r: DslValue)
    ensures
        r.ty() == t,
        r.spec_value() == value@,
{
    match t {
        DslType::I32 => DslValue::I32(I32::from_value(value)),
        DslType::U32 => DslValue::U32(U32::from_value(value)),
        DslType::Bool => DslValue::Bool(Bool::from_value(value)),
    }
}

/// A placeholder value handed back after a diagnostic, so that lowering
/// can walk on and collect every remaining diagnostic; it records
/// nothing and the trace is discarded once any diagnostic fired.
fn dsl_dummy() -> (r: DslValue)
    ensures
        r.ty() == DslType::I32,
{
    DslValue::I32(I32::from_value(GpuValue::var(0, GpuTypeDetails::I32)))
}

/// The type of an expression, or nothing where lowering it would fire a
/// diagnostic.
pub fn expr_type(e: &DslExpr) -> (r: Option<DslType>)
    ensures
        r == spec_expr_type(*e),
    decreases *e,
{
    match e {
        DslExpr::LitI32(_) => Some(DslType::I32),
        DslExpr::LitU32(_) => Some(DslType::U32),
        DslExpr::LitBool(_) => Some(DslType::Bool),
        DslExpr::Glob { type_, .. } => Some(*type_),
        DslExpr::Unary { op, operand } => {
            proof {
                let ghost ee = *e;
                assert(decreases_to!(ee => ee->Unary_operand));
            }
            match (op, expr_type(operand)) {
                (DslUnOp::Neg, Some(DslType::I32)) => Some(DslType::I32),
                (DslUnOp::Not, Some(DslType::Bool)) => Some(DslType::Bool),
                _ => None,
            }
        },
        DslExpr::Binary { op, left, right } => {
            proof {
                let ghost ee = *e;
                assert(decreases_to!(ee => ee->Binary_left));
                assert(decreases_to!(ee => ee->Binary_right));
            }
            let supported = !matches!(
                op,
                DslBinOp::BitAnd | DslBinOp::BitOr | DslBinOp::BitXor | DslBinOp::Shl
                | DslBinOp::Shr,
            );
            let lt = expr_type(left);
            let rt = expr_type(right);
            if !supported || lt.is_none() || rt.is_none() || lt != rt {
                None
            } else {
                let operand = lt.unwrap();
                match op {
                    DslBinOp::Add | DslBinOp::Sub | DslBinOp::Mul | DslBinOp::Div
                    | DslBinOp::Rem => {
                        if matches!(operand, DslType::Bool) {
                            None
                        } else {
                            Some(operand)
                        }
                    },
                    DslBinOp::Eq | DslBinOp::Ne => Some(DslType::Bool),
                    DslBinOp::Gt | DslBinOp::Lt | DslBinOp::Ge | DslBinOp::Le => {
                        if matches!(operand, DslType::Bool) {
                            None
                        } else {
                            Some(DslType::Bool)
                        }
                    },
                    _ => {
                        if matches!(operand, DslType::Bool) {
                            Some(DslType::Bool)
                        } else {
                            None
                        }
                    },
                }
            }
        },
        DslExpr::If { condition, then_value, else_value } => {
            proof {
                let ghost ee = *e;
                assert(decreases_to!(ee => ee->If_condition));
                assert(decreases_to!(ee => ee->If_then_value));
                assert(decreases_to!(ee => ee->If_else_value));
            }
            let ct = expr_type(condition);
            let tt = expr_type(then_value);
            let et = expr_type(else_value);
            if matches!(ct, Some(DslType::Bool)) && tt.is_some() && tt == et {
                tt
            } else {
                None
            }
        },
    }
}

/// Records one unary application into a fresh variable of type `t`.
fn record_unary(ctx: &mut GpuContext, v: &DslValue, t: DslType, operator: &'static str) -> (r:
    DslValue)
    requires
        old(ctx).next_var_id < u32::MAX,
    ensures
        r.ty() == t,
        r.spec_value() == var_view(old(ctx).next_var_id, dsl_ty(t)),
        final(ctx).next_var_id == old(ctx).next_var_id + 1,
        types_view(final(ctx).types@) == types_view(old(ctx).types@) + seq![dsl_ty(t)],
        ops_view(final(ctx).operations@) == ops_view(old(ctx).operations@) + unary_op_ops(
            old(ctx).next_var_id,
            dsl_ty(t),
            v.spec_value(),
            operator@,
        ),
        final(ctx).index_vars == old(ctx).index_vars,
{
    let details = dsl_details(t);
    ctx.register_type(&details);
    let id = ctx.fresh_var_id();
    ctx.operations.push(Operation::DeclareVar(DeclareVarOperation { id, type_: details }));
    let result = GpuValue::var(id, dsl_details(t));
    ctx.operations.push(
        Operation::Unary(UnaryOperation { var: result.clone(), value: v.value(), operator }),
    );
    proof {
        assert(spec_type_closure(dsl_ty(t)) =~= seq![dsl_ty(t)]);
        assert(types_view(ctx.types@) =~= types_view(old(ctx).types@) + seq![dsl_ty(t)]);
        assert(ops_view(ctx.operations@) =~= ops_view(old(ctx).operations@) + unary_op_ops(
            id,
            dsl_ty(t),
            v.spec_value(),
            operator@,
        ));
    }
    dsl_handle(t, result)
}

/// Records one binary application into a fresh variable of type `t`.
fn record_binary(
    ctx: &mut GpuContext,
    l: &DslValue,
    r: &DslValue,
    t: DslType,
    operator: &'static str,
) -> (result: DslValue)
    requires
        old(ctx).next_var_id < u32::MAX,
    ensures
        result.ty() == t,
        result.spec_value() == var_view(old(ctx).next_var_id, dsl_ty(t)),
        final(ctx).next_var_id == old(ctx).next_var_id + 1,
        types_view(final(ctx).types@) == types_view(old(ctx).types@) + seq![dsl_ty(t)],
        ops_view(final(ctx).operations@) == ops_view(old(ctx).operations@) + binary_op_ops(
            old(ctx).next_var_id,
            dsl_ty(t),
            l.spec_value(),
            r.spec_value(),
            operator@,
        ),
        final(ctx).index_vars == old(ctx).index_vars,
{
    let details = dsl_details(t);
    ctx.register_type(&details);
    let id = ctx.fresh_var_id();
    ctx.operations.push(Operation::DeclareVar(DeclareVarOperation { id, type_: details }));
    let result = GpuValue::var(id, dsl_details(t));
    ctx.operations.push(
        Operation::Binary(
            BinaryOperation {
                var: result.clone(),
                left_value: l.value(),
                right_value: r.value(),
                operator,
            },
        ),
    );
    proof {
        assert(spec_type_closure(dsl_ty(t)) =~= seq![dsl_ty(t)]);
        assert(types_view(ctx.types@) =~= types_view(old(ctx).types@) + seq![dsl_ty(t)]);
        assert(ops_view(ctx.operations@) =~= ops_view(old(ctx).operations@) + binary_op_ops(
            id,
            dsl_ty(t),
            l.spec_value(),
            r.spec_value(),
            operator@,
        ));
    }
    dsl_handle(t, result)
}

/// Every expression allocates at least no ids and never more than its
/// budget.
pub proof fn lemma_expr_budget(e: DslExpr)
    ensures
        0 <= spec_expr_vars(e) <= spec_expr_budget(e),
    decreases e,
{
    match e {
        DslExpr::Unary { operand, .. } => lemma_expr_budget(*operand),
        DslExpr::Binary { left, right, .. } => {
            lemma_expr_budget(*left);
            lemma_expr_budget(*right);
        },
        DslExpr::If { condition, then_value, else_value } => {
            lemma_expr_budget(*condition);
            lemma_expr_budget(*then_value);
            lemma_expr_budget(*else_value);
        },
        _ => {},
    }
}

/// Records the instruction sequence of one supported binary operator
/// over two lowered operands: one instruction for the operators the
/// target has, the algebraic rewriting over `==` and `>` for the
/// derived comparisons.
fn record_bin_sequence(
    ctx: &mut GpuContext,
    op: DslBinOp,
    t: DslType,
    lv: &DslValue,
    rv: &DslValue,
) -> (r: DslValue)
    requires
        spec_bin_supported(op),
        (op is Eq || op is Ne || op is Gt || op is Lt || op is Ge || op is Le || op is And
            || op is Or) ==> t is Bool,
        old(ctx).next_var_id + 4 < u32::MAX,
    ensures
        r.ty() == t,
        r.spec_value() == var_view(
            (old(ctx).next_var_id + spec_bin_op_count(op) - 1) as u32,
            dsl_ty(t),
        ),
        final(ctx).next_var_id == old(ctx).next_var_id + spec_bin_op_count(op),
        ops_view(final(ctx).operations@) == ops_view(old(ctx).operations@) + spec_bin_ops(
            op,
            dsl_ty(t),
            lv.spec_value(),
            rv.spec_value(),
            old(ctx).next_var_id,
        ),
        types_view(final(ctx).types@) == types_view(old(ctx).types@) + spec_bin_types(
            op,
            dsl_ty(t),
        ),
        final(ctx).index_vars == old(ctx).index_vars,
{
    match op {
        DslBinOp::Add => record_binary(ctx, lv, rv, t, "+"),
        DslBinOp::Sub => record_binary(ctx, lv, rv, t, "-"),
        DslBinOp::Mul => record_binary(ctx, lv, rv, t, "*"),
        DslBinOp::Div => record_binary(ctx, lv, rv, t, "/"),
        DslBinOp::Rem => record_binary(ctx, lv, rv, t, "%"),
        DslBinOp::Eq => record_binary(ctx, lv, rv, t, "=="),
        DslBinOp::Gt => record_binary(ctx, lv, rv, t, ">"),
        DslBinOp::And => record_binary(ctx, lv, rv, t, "&&"),
        DslBinOp::Or => record_binary(ctx, lv, rv, t, "||"),
        DslBinOp::Ne => {
            let equal = record_binary(ctx, lv, rv, t, "==");
            let r = record_unary(ctx, &equal, t, "!");
            proof {
                assert(ops_view(ctx.operations@) =~= ops_view(old(ctx).operations@)
                    + spec_bin_ops(
                    op,
                    dsl_ty(t),
                    lv.spec_value(),
                    rv.spec_value(),
                    old(ctx).next_var_id,
                ));
                assert(types_view(ctx.types@) =~= types_view(old(ctx).types@) + spec_bin_types(
                    op,
                    dsl_ty(t),
                ));
            }
            r
        },
        DslBinOp::Le => {
            let greater = record_binary(ctx, lv, rv, t, ">");
            let r = record_unary(ctx, &greater, t, "!");
            proof {
                assert(ops_view(ctx.operations@) =~= ops_view(old(ctx).operations@)
                    + spec_bin_ops(
                    op,
                    dsl_ty(t),
                    lv.spec_value(),
                    rv.spec_value(),
                    old(ctx).next_var_id,
                ));
                assert(types_view(ctx.types@) =~= types_view(old(ctx).types@) + spec_bin_types(
                    op,
                    dsl_ty(t),
                ));
            }
            r
        },
        DslBinOp::Ge => {
            let greater = record_binary(ctx, lv, rv, t, ">");
            let equal = record_binary(ctx, lv, rv, t, "==");
            let r = record_binary(ctx, &greater, &equal, t, "||");
            proof {
                assert(ops_view(ctx.operations@) =~= ops_view(old(ctx).operations@)
                    + spec_bin_ops(
                    op,
                    dsl_ty(t),
                    lv.spec_value(),
                    rv.spec_value(),
                    old(ctx).next_var_id,
                ));
                assert(types_view(ctx.types@) =~= types_view(old(ctx).types@) + spec_bin_types(
                    op,
                    dsl_ty(t),
                ));
            }
            r
        },
        DslBinOp::Lt => {
            let greater = record_binary(ctx, lv, rv, t, ">");
            let equal = record_binary(ctx, lv, rv, t, "==");
            let either = record_binary(ctx, &greater, &equal, t, "||");
            let r = record_unary(ctx, &either, t, "!");
            proof {
                assert(ops_view(ctx.operations@) =~= ops_view(old(ctx).operations@)
                    + spec_bin_ops(
                    op,
                    dsl_ty(t),
                    lv.spec_value(),
                    rv.spec_value(),
                    old(ctx).next_var_id,
                ));
                assert(types_view(ctx.types@) =~= types_view(old(ctx).types@) + spec_bin_types(
                    op,
                    dsl_ty(t),
                ));
            }
            r
        },
        _ => {
            proof {
                assert(false);
            }
            dsl_dummy()
        },
    }
}

/// Appending never drops diagnostics: a pushed sequence keeps the old
/// one as a strict prefix.
proof fn lemma_diags_push(s: Seq<DslError>, x: DslError)
    ensures
        s.is_prefix_of(s.push(x)),
        s != s.push(x),
{
    assert(s =~= s.push(x).subrange(0, s.len() as int));
    assert(s.push(x).len() != s.len());
}

/// Prefix extension chains: across two appends the old sequence stays a
/// prefix, and it comes back unchanged only when both steps changed
/// nothing.
proof fn lemma_diags_chain(a: Seq<DslError>, b: Seq<DslError>, c: Seq<DslError>)
    requires
        a.is_prefix_of(b),
        b.is_prefix_of(c),
    ensures
        a.is_prefix_of(c),
        a == c ==> a == b && b == c,
{
    assert(a =~= c.subrange(0, a.len() as int));
    if a == c {
        assert(a.len() <= b.len() <= c.len());
        assert(b =~= c.subrange(0, b.len() as int));
        assert(b =~= a);
    }
}

/// Lowers one expression: drives the recording API so that the context
/// accumulates the expression's instruction sequence, and returns the
/// handle of the value's address.  On unsupported or ill-typed syntax a
/// diagnostic is appended and a placeholder comes back, so that the
/// walk goes on and collects every remaining diagnostic; diagnostics
/// are appended and never dropped, and none fires exactly when the
/// expression is well formed.
pub fn lower_expr(ctx: &mut GpuContext, e: &DslExpr, diags: &mut Vec<DslError>) -> (r: DslValue)
    requires
        old(ctx).next_var_id + spec_expr_budget(*e) < u32::MAX,
    ensures
        old(diags)@.is_prefix_of(final(diags)@),
        spec_expr_wf(*e) <==> final(diags)@ == old(diags)@,
        old(ctx).next_var_id <= final(ctx).next_var_id <= old(ctx).next_var_id
            + spec_expr_budget(*e),
        final(ctx).index_vars == old(ctx).index_vars,
        spec_expr_wf(*e) ==> {
            &&& r.ty() == spec_expr_type(*e)->0
            &&& r.spec_value() == spec_expr_result(*e, old(ctx).next_var_id)
            &&& final(ctx).next_var_id == old(ctx).next_var_id + spec_expr_vars(*e)
            &&& ops_view(final(ctx).operations@) == ops_view(old(ctx).operations@)
                + spec_expr_ops(*e, old(ctx).next_var_id)
            &&& types_view(final(ctx).types@) == types_view(old(ctx).types@) + spec_expr_types(
                *e,
            )
        },
    decreases *e, 1int,
{
    proof {
        lemma_expr_budget(*e);
    }
    match e {
        DslExpr::LitI32(v) => DslValue::I32(crate::gpu::Cpu::to_gpu(v, ctx)),
        DslExpr::LitU32(v) => DslValue::U32(crate::gpu::Cpu::to_gpu(v, ctx)),
        DslExpr::LitBool(v) => DslValue::Bool(crate::gpu::Cpu::to_gpu(v, ctx)),
        DslExpr::Glob { id, type_ } => dsl_handle(*type_, GpuValue::glob(*id, dsl_details(*type_))),
        DslExpr::Unary { .. } => lower_unary_expr(ctx, e, diags),
        DslExpr::Binary { .. } => lower_binary_expr(ctx, e, diags),
        DslExpr::If { .. } => lower_if_expr(ctx, e, diags),
    }
}

/// Lowers a unary application.
fn lower_unary_expr(ctx: &mut GpuContext, e: &DslExpr, diags: &mut Vec<DslError>) -> (r: DslValue)
    requires
        *e is Unary,
        old(ctx).next_var_id + spec_expr_budget(*e) < u32::MAX,
    ensures
        old(diags)@.is_prefix_of(final(diags)@),
        spec_expr_wf(*e) <==> final(diags)@ == old(diags)@,
        old(ctx).next_var_id <= final(ctx).next_var_id <= old(ctx).next_var_id
            + spec_expr_budget(*e),
        final(ctx).index_vars == old(ctx).index_vars,
        spec_expr_wf(*e) ==> {
            &&& r.ty() == spec_expr_type(*e)->0
            &&& r.spec_value() == spec_expr_result(*e, old(ctx).next_var_id)
            &&& final(ctx).next_var_id == old(ctx).next_var_id + spec_expr_vars(*e)
            &&& ops_view(final(ctx).operations@) == ops_view(old(ctx).operations@)
                + spec_expr_ops(*e, old(ctx).next_var_id)
            &&& types_view(final(ctx).types@) == types_view(old(ctx).types@) + spec_expr_types(
                *e,
            )
        },
    decreases *e, 0int,
{
    match e {
        DslExpr::Unary { op, operand } => {
            proof {
                let ghost ee = *e;
                assert(decreases_to!(ee => ee->Unary_operand));
                lemma_expr_budget(*(e->Unary_operand));
            }
            let vt = expr_type(operand);
            let v = lower_expr(ctx, operand, diags);
            proof {
                lemma_diags_chain(old(diags)@, diags@, diags@);
            }
            match (op, vt) {
                (DslUnOp::Neg, Some(DslType::I32)) => {
                    let r = record_unary(ctx, &v, DslType::I32, "-");
                    proof {
                        assert(ops_view(ctx.operations@) =~= ops_view(old(ctx).operations@)
                            + spec_expr_ops(*e, old(ctx).next_var_id));
                        assert(types_view(ctx.types@) =~= types_view(old(ctx).types@)
                            + spec_expr_types(*e));
                    }
                    r
                },
                (DslUnOp::Not, Some(DslType::Bool)) => {
                    let r = record_unary(ctx, &v, DslType::Bool, "!");
                    proof {
                        assert(ops_view(ctx.operations@) =~= ops_view(old(ctx).operations@)
                            + spec_expr_ops(*e, old(ctx).next_var_id));
                        assert(types_view(ctx.types@) =~= types_view(old(ctx).types@)
                            + spec_expr_types(*e));
                    }
                    r
                },
                (_, vt) => {
                    proof {
                        assert(!spec_expr_wf(*e));
                    }
                    if vt.is_some() {
                        let ghost before = diags@;
                        diags.push(DslError::TypeMismatch);
                        proof {
                            lemma_diags_push(before, DslError::TypeMismatch);
                            lemma_diags_chain(old(diags)@, before, diags@);
                        }
                    }
                    dsl_dummy()
                },
            }
        },
        _ => {
            proof {
                assert(false);
            }
            dsl_dummy()
        },
    }
}

/// Lowers a binary application: operands first, then the operator's
/// recorded form, the derived comparisons rewritten over `==` and `>`.
#[verifier::rlimit(100)]
fn lower_binary_expr(ctx: &mut GpuContext, e: &DslExpr, diags: &mut Vec<DslError>) -> (r: DslValue)
    requires
        *e is Binary,
        old(ctx).next_var_id + spec_expr_budget(*e) < u32::MAX,
    ensures
        old(diags)@.is_prefix_of(final(diags)@),
        spec_expr_wf(*e) <==> final(diags)@ == old(diags)@,
        old(ctx).next_var_id <= final(ctx).next_var_id <= old(ctx).next_var_id
            + spec_expr_budget(*e),
        final(ctx).index_vars == old(ctx).index_vars,
        spec_expr_wf(*e) ==> {
            &&& r.ty() == spec_expr_type(*e)->0
            &&& r.spec_value() == spec_expr_result(*e, old(ctx).next_var_id)
            &&& final(ctx).next_var_id == old(ctx).next_var_id + spec_expr_vars(*e)
            &&& ops_view(final(ctx).operations@) == ops_view(old(ctx).operations@)
                + spec_expr_ops(*e, old(ctx).next_var_id)
            &&& types_view(final(ctx).types@) == types_view(old(ctx).types@) + spec_expr_types(
                *e,
            )
        },
    decreases *e, 0int,
{
    match e {
        DslExpr::Binary { op, left, right } => {
            proof {
                let ghost ee = *e;
                assert(decreases_to!(ee => ee->Binary_left));
                assert(decreases_to!(ee => ee->Binary_right));
                lemma_expr_budget(*(e->Binary_left));
                lemma_expr_budget(*(e->Binary_right));
            }
            let supported = !matches!(
                op,
                DslBinOp::BitAnd | DslBinOp::BitOr | DslBinOp::BitXor | DslBinOp::Shl
                | DslBinOp::Shr,
            );
            if !supported {
                let ghost before = diags@;
                diags.push(DslError::UnsupportedOperator);
                proof {
                    lemma_diags_push(before, DslError::UnsupportedOperator);
                    assert(!spec_expr_wf(*e));
                }
                return dsl_dummy();
            }
            let lt = expr_type(left);
            let rt = expr_type(right);
            let ghost d0 = diags@;
            let lv = lower_expr(ctx, left, diags);
            let ghost d1 = diags@;
            let rv = lower_expr(ctx, right, diags);
            proof {
                lemma_diags_chain(d0, d1, diags@);
            }
            let class_ok = match (lt, rt) {
                (Some(a), Some(b)) => a == b && match op {
                    DslBinOp::Eq | DslBinOp::Ne => true,
                    DslBinOp::And | DslBinOp::Or => matches!(a, DslType::Bool),
                    _ => !matches!(a, DslType::Bool),
                },
                _ => false,
            };
            if class_ok {
                let out = match op {
                    DslBinOp::Add | DslBinOp::Sub | DslBinOp::Mul | DslBinOp::Div
                    | DslBinOp::Rem => lt.unwrap(),
                    _ => DslType::Bool,
                };
                let r = record_bin_sequence(ctx, *op, out, &lv, &rv);
                proof {
                    assert(ops_view(ctx.operations@) =~= ops_view(old(ctx).operations@)
                        + spec_expr_ops(*e, old(ctx).next_var_id));
                    assert(types_view(ctx.types@) =~= types_view(old(ctx).types@)
                        + spec_expr_types(*e));
                }
                r
            } else {
                proof {
                    assert(!spec_expr_wf(*e));
                }
                if lt.is_some() && rt.is_some() {
                    let ghost before = diags@;
                    diags.push(DslError::TypeMismatch);
                    proof {
                        lemma_diags_push(before, DslError::TypeMismatch);
                        lemma_diags_chain(d0, before, diags@);
                    }
                }
                dsl_dummy()
            }
        },
        _ => {
            proof {
                assert(false);
            }
            dsl_dummy()
        },
    }
}

/// Lowers an `if` expression: the result variable is declared before
/// the blocks and both branches assign into it.
#[verifier::rlimit(60)]
fn lower_if_expr(ctx: &mut GpuContext, e: &DslExpr, diags: &mut Vec<DslError>) -> (r: DslValue)
    requires
        *e is If,
        old(ctx).next_var_id + spec_expr_budget(*e) < u32::MAX,
    ensures
        old(diags)@.is_prefix_of(final(diags)@),
        spec_expr_wf(*e) <==> final(diags)@ == old(diags)@,
        old(ctx).next_var_id <= final(ctx).next_var_id <= old(ctx).next_var_id
            + spec_expr_budget(*e),
        final(ctx).index_vars == old(ctx).index_vars,
        spec_expr_wf(*e) ==> {
            &&& r.ty() == spec_expr_type(*e)->0
            &&& r.spec_value() == spec_expr_result(*e, old(ctx).next_var_id)
            &&& final(ctx).next_var_id == old(ctx).next_var_id + spec_expr_vars(*e)
            &&& ops_view(final(ctx).operations@) == ops_view(old(ctx).operations@)
                + spec_expr_ops(*e, old(ctx).next_var_id)
            &&& types_view(final(ctx).types@) == types_view(old(ctx).types@) + spec_expr_types(
                *e,
            )
        },
    decreases *e, 0int,
{
    match e {
        DslExpr::If { condition, then_value, else_value } => {
            proof {
                let ghost ee = *e;
                assert(decreases_to!(ee => ee->If_condition));
                assert(decreases_to!(ee => ee->If_then_value));
                assert(decreases_to!(ee => ee->If_else_value));
                lemma_expr_budget(*(e->If_condition));
                lemma_expr_budget(*(e->If_then_value));
                lemma_expr_budget(*(e->If_else_value));
            }
            let ghost n0 = old(ctx).next_var_id;
            let ct = expr_type(condition);
            let tt = expr_type(then_value);
            let et = expr_type(else_value);
            let ghost d0 = diags@;
            let c = lower_expr(ctx, condition, diags);
            if matches!(ct, Some(DslType::Bool)) && tt.is_some() && tt == et {
                let t = tt.unwrap();
                let ghost ts = dsl_ty(t);
                let details = dsl_details(t);
                ctx.register_type(&details);
                let id = ctx.fresh_var_id();
                ctx.operations.push(
                    Operation::DeclareVar(DeclareVarOperation { id, type_: details }),
                );
                let result = GpuValue::var(id, dsl_details(t));
                match &c {
                    DslValue::Bool(cb) => crate::instructions::if_block(ctx, cb),
                    _ => {
                        proof {
                            assert(false);
                        }
                    },
                }
                proof {
                    assert(spec_type_closure(ts) =~= seq![ts]);
                    assert(ops_view(ctx.operations@) =~= ops_view(old(ctx).operations@)
                        + spec_expr_ops(*(e->If_condition), n0) + seq![
                        OperationView::DeclareVar { id: id as int, type_: ts },
                        OperationView::IfBlock {
                            condition: spec_expr_result(*(e->If_condition), n0),
                        },
                    ]);
                }
                let tv = lower_expr(ctx, then_value, diags);
                ctx.operations.push(
                    Operation::AssignVar(
                        crate::operations::AssignVarOperation {
                            left_value: result.clone(),
                            right_value: tv.value(),
                        },
                    ),
                );
                crate::instructions::else_block(ctx);
                proof {
                    assert(ops_view(ctx.operations@) =~= ops_view(old(ctx).operations@)
                        + spec_expr_ops(*(e->If_condition), n0) + seq![
                        OperationView::DeclareVar { id: id as int, type_: ts },
                        OperationView::IfBlock {
                            condition: spec_expr_result(*(e->If_condition), n0),
                        },
                    ] + spec_expr_ops(*(e->If_then_value), (id + 1) as u32) + seq![
                        OperationView::AssignVar {
                            left_value: var_view(id, ts),
                            right_value: spec_expr_result(
                                *(e->If_then_value),
                                (id + 1) as u32,
                            ),
                        },
                        OperationView::ElseBlock,
                    ]);
                }
                let ghost d1 = diags@;
                let ev = lower_expr(ctx, else_value, diags);
                proof {
                    lemma_diags_chain(d0, d1, diags@);
                }
                ctx.operations.push(
                    Operation::AssignVar(
                        crate::operations::AssignVarOperation {
                            left_value: result.clone(),
                            right_value: ev.value(),
                        },
                    ),
                );
                crate::instructions::end_block(ctx);
                let r = dsl_handle(t, result);
                proof {
                    let ghost else_start = (id + 1 + spec_expr_vars(*(e->If_then_value))) as u32;
                    assert(ops_view(ctx.operations@) =~= ops_view(old(ctx).operations@)
                        + spec_expr_ops(*(e->If_condition), n0) + seq![
                        OperationView::DeclareVar { id: id as int, type_: ts },
                        OperationView::IfBlock {
                            condition: spec_expr_result(*(e->If_condition), n0),
                        },
                    ] + spec_expr_ops(*(e->If_then_value), (id + 1) as u32) + seq![
                        OperationView::AssignVar {
                            left_value: var_view(id, ts),
                            right_value: spec_expr_result(
                                *(e->If_then_value),
                                (id + 1) as u32,
                            ),
                        },
                        OperationView::ElseBlock,
                    ] + spec_expr_ops(*(e->If_else_value), else_start) + seq![
                        OperationView::AssignVar {
                            left_value: var_view(id, ts),
                            right_value: spec_expr_result(*(e->If_else_value), else_start),
                        },
                        OperationView::EndBlock,
                    ]);
                    assert(ops_view(ctx.operations@) =~= ops_view(old(ctx).operations@)
                        + spec_expr_ops(*e, n0));
                    assert(types_view(ctx.types@) =~= types_view(old(ctx).types@)
                        + spec_expr_types(*e));
                }
                r
            } else {
                proof {
                    assert(!spec_expr_wf(*e));
                }
                let ghost d1 = diags@;
                lower_expr(ctx, then_value, diags);
                let ghost d2 = diags@;
                lower_expr(ctx, else_value, diags);
                proof {
                    lemma_diags_chain(d1, d2, diags@);
                    lemma_diags_chain(d0, d1, diags@);
                }
                if ct.is_some() && tt.is_some() && et.is_some() {
                    let ghost before = diags@;
                    diags.push(DslError::TypeMismatch);
                    proof {
                        lemma_diags_push(before, DslError::TypeMismatch);
                        lemma_diags_chain(d0, before, diags@);
                    }
                }
                dsl_dummy()
            }
        },
        _ => {
            proof {
                assert(false);
            }
            dsl_dummy()
        },
    }
}

/// Whether lowering the statement fires no diagnostic: expressions are
/// well typed, an assignment matches its target's type, and `break` and
/// `continue` stand inside a loop.
pub open spec fn spec_stmt_wf(s: DslStmt, in_loop: bool) -> bool
    decreases s,
{
    match s {
        DslStmt::Assign { target_type, value, .. } => spec_expr_type(value) == Some(target_type),
        DslStmt::If { condition, then_body, else_body } => spec_expr_type(condition) == Some(
            DslType::Bool,
        ) && spec_stmts_wf(then_body@, then_body@.len() as int, in_loop) && spec_stmts_wf(
            else_body@,
            else_body@.len() as int,
            in_loop,
        ),
        DslStmt::While { condition, body } => spec_expr_type(condition) == Some(DslType::Bool)
            && spec_stmts_wf(body@, body@.len() as int, true),
        DslStmt::Break | DslStmt::Continue => in_loop,
    }
}

/// Whether the first `n` statements all lower without a diagnostic.
pub open spec fn spec_stmts_wf(list: Seq<DslStmt>, n: int, in_loop: bool) -> bool
    decreases list, n,
{
    if n <= 0 || n > list.len() {
        true
    } else {
        spec_stmts_wf(list, n - 1, in_loop) && spec_stmt_wf(list[n - 1], in_loop)
    }
}

/// How many fresh variable ids lowering the statement allocates, when
/// no diagnostic fires.
pub open spec fn spec_stmt_vars(s: DslStmt) -> int
    decreases s,
{
    match s {
        DslStmt::Assign { value, .. } => spec_expr_vars(value),
        DslStmt::If { condition, then_body, else_body } => spec_expr_vars(condition)
            + spec_stmts_vars(then_body@, then_body@.len() as int) + spec_stmts_vars(
            else_body@,
            else_body@.len() as int,
        ),
        DslStmt::While { condition, body } => spec_expr_vars(condition) + 1 + spec_stmts_vars(
            body@,
            body@.len() as int,
        ),
        DslStmt::Break | DslStmt::Continue => 0,
    }
}

/// The ids the first `n` statements allocate.
pub open spec fn spec_stmts_vars(list: Seq<DslStmt>, n: int) -> int
    decreases list, n,
{
    if n <= 0 || n > list.len() {
        0
    } else {
        spec_stmts_vars(list, n - 1) + spec_stmt_vars(list[n - 1])
    }
}

/// An upper bound on the ids lowering the statement may allocate on any
/// path, diagnostics included.
pub open spec fn spec_stmt_budget(s: DslStmt) -> int
    decreases s,
{
    match s {
        DslStmt::Assign { value, .. } => spec_expr_budget(value),
        DslStmt::If { condition, then_body, else_body } => spec_expr_budget(condition)
            + spec_stmts_budget(then_body@, then_body@.len() as int) + spec_stmts_budget(
            else_body@,
            else_body@.len() as int,
        ),
        DslStmt::While { condition, body } => spec_expr_budget(condition) + 1
            + spec_stmts_budget(body@, body@.len() as int),
        DslStmt::Break | DslStmt::Continue => 0,
    }
}

/// An upper bound on the ids the first `n` statements may allocate.
pub open spec fn spec_stmts_budget(list: Seq<DslStmt>, n: int) -> int
    decreases list, n,
{
    if n <= 0 || n > list.len() {
        0
    } else {
        spec_stmts_budget(list, n - 1) + spec_stmt_budget(list[n - 1])
    }
}

/// Every statement allocates at least no ids and never more than its
/// budget.
pub proof fn lemma_stmt_budget(s: DslStmt)
    ensures
        0 <= spec_stmt_vars(s) <= spec_stmt_budget(s),
    decreases s, 1int,
{
    match s {
        DslStmt::Assign { value, .. } => lemma_expr_budget(value),
        DslStmt::If { condition, then_body, else_body } => {
            lemma_expr_budget(condition);
            lemma_stmts_budget(then_body@, then_body@.len() as int);
            lemma_stmts_budget(else_body@, else_body@.len() as int);
        },
        DslStmt::While { condition, body } => {
            lemma_expr_budget(condition);
            lemma_stmts_budget(body@, body@.len() as int);
        },
        _ => {},
    }
}

/// A prefix of a statement list allocates no more than its budget, and
/// the budget grows with the prefix.
pub proof fn lemma_stmts_budget(list: Seq<DslStmt>, n: int)
    requires
        n <= list.len(),
    ensures
        0 <= spec_stmts_vars(list, n) <= spec_stmts_budget(list, n),
        0 <= n < list.len() ==> spec_stmts_budget(list, n) + spec_stmt_budget(list[n])
            == spec_stmts_budget(list, n + 1),
        forall|k: int|
            0 <= k <= n ==> #[trigger] spec_stmts_budget(list, k) <= spec_stmts_budget(list, n),
    decreases list, n, 0int,
{
    if 0 < n <= list.len() {
        lemma_stmt_budget(list[n - 1]);
        lemma_stmts_budget(list, n - 1);
    }
}

/// The instructions the statement records when no diagnostic fires,
/// `n` being the next fresh id: an assignment into its target; an `if`
/// as marker blocks around the branches, the alternative marker only
/// where an alternative exists; a `while` as a loop block holding a
/// break guarded by the negated condition, then the body.
pub open spec fn spec_stmt_ops(s: DslStmt, n: u32) -> Seq<OperationView>
    decreases s,
{
    match s {
        DslStmt::Assign { target_id, target_type, value } => spec_expr_ops(value, n) + seq![
            OperationView::AssignVar {
                left_value: glob_view(target_id, dsl_ty(target_type)),
                right_value: spec_expr_result(value, n),
            },
        ],
        DslStmt::If { condition, then_body, else_body } => {
            let then_start = (n + spec_expr_vars(condition)) as u32;
            let else_start = (then_start + spec_stmts_vars(
                then_body@,
                then_body@.len() as int,
            )) as u32;
            spec_expr_ops(condition, n) + seq![
                OperationView::IfBlock { condition: spec_expr_result(condition, n) },
            ] + spec_stmts_ops(then_body@, then_start, then_body@.len() as int) + (
            if else_body@.len() > 0 {
                seq![OperationView::ElseBlock] + spec_stmts_ops(
                    else_body@,
                    else_start,
                    else_body@.len() as int,
                )
            } else {
                Seq::empty()
            }) + seq![OperationView::EndBlock]
        },
        DslStmt::While { condition, body } => {
            let guard = (n + spec_expr_vars(condition)) as u32;
            let body_start = (guard + 1) as u32;
            seq![OperationView::LoopBlock] + spec_expr_ops(condition, n) + unary_op_ops(
                guard,
                Ty::Bool,
                spec_expr_result(condition, n),
                "!"@,
            ) + seq![
                OperationView::IfBlock { condition: var_view(guard, Ty::Bool) },
                OperationView::Break,
                OperationView::EndBlock,
            ] + spec_stmts_ops(body@, body_start, body@.len() as int) + seq![
                OperationView::EndBlock,
            ]
        },
        DslStmt::Break => seq![OperationView::Break],
        DslStmt::Continue => seq![OperationView::Continue],
    }
}

/// The instructions the first `n` statements record, each starting at
/// the id where the previous one stopped.
pub open spec fn spec_stmts_ops(list: Seq<DslStmt>, n: u32, k: int) -> Seq<OperationView>
    decreases list, k,
{
    if k <= 0 || k > list.len() {
        Seq::empty()
    } else {
        spec_stmts_ops(list, n, k - 1) + spec_stmt_ops(
            list[k - 1],
            (n + spec_stmts_vars(list, k - 1)) as u32,
        )
    }
}

/// The types lowering the statement registers, in order, when no
/// diagnostic fires.
pub open spec fn spec_stmt_types(s: DslStmt) -> Seq<Ty>
    decreases s,
{
    match s {
        DslStmt::Assign { value, .. } => spec_expr_types(value),
        DslStmt::If { condition, then_body, else_body } => spec_expr_types(condition)
            + spec_stmts_types(then_body@, then_body@.len() as int) + spec_stmts_types(
            else_body@,
            else_body@.len() as int,
        ),
        DslStmt::While { condition, body } => spec_expr_types(condition) + seq![Ty::Bool]
            + spec_stmts_types(body@, body@.len() as int),
        DslStmt::Break | DslStmt::Continue => Seq::empty(),
    }
}

/// The types the first `n` statements register.
pub open spec fn spec_stmts_types(list: Seq<DslStmt>, n: int) -> Seq<Ty>
    decreases list, n,
{
    if n <= 0 || n > list.len() {
        Seq::empty()
    } else {
        spec_stmts_types(list, n - 1) + spec_stmt_types(list[n - 1])
    }
}

/// Lowers one statement.  Diagnostics are appended and never dropped,
/// and none fires exactly when the statement is well formed where it
/// stands: a `break` or `continue` is well formed only inside a loop.
pub fn lower_stmt(ctx: &mut GpuContext, s: &DslStmt, in_loop: bool, diags: &mut Vec<DslError>)
    requires
        old(ctx).next_var_id + spec_stmt_budget(*s) < u32::MAX,
    ensures
        old(diags)@.is_prefix_of(final(diags)@),
        spec_stmt_wf(*s, in_loop) <==> final(diags)@ == old(diags)@,
        old(ctx).next_var_id <= final(ctx).next_var_id <= old(ctx).next_var_id
            + spec_stmt_budget(*s),
        final(ctx).index_vars == old(ctx).index_vars,
        spec_stmt_wf(*s, in_loop) ==> {
            &&& final(ctx).next_var_id == old(ctx).next_var_id + spec_stmt_vars(*s)
            &&& ops_view(final(ctx).operations@) == ops_view(old(ctx).operations@)
                + spec_stmt_ops(*s, old(ctx).next_var_id)
            &&& types_view(final(ctx).types@) == types_view(old(ctx).types@) + spec_stmt_types(
                *s,
            )
        },
    decreases *s, 1int,
{
    proof {
        lemma_stmt_budget(*s);
    }
    match s {
        DslStmt::Assign { target_id, target_type, value } => {
            proof {
                lemma_expr_budget(s->Assign_value);
            }
            let vt = expr_type(value);
            let v = lower_expr(ctx, value, diags);
            let matches_target = match vt {
                Some(t) => t == *target_type,
                None => false,
            };
            if matches_target {
                let ghost mid_ops = ops_view(ctx.operations@);
                let target = GpuValue::glob(*target_id, dsl_details(*target_type));
                let op = Operation::AssignVar(
                    crate::operations::AssignVarOperation {
                        left_value: target,
                        right_value: v.value(),
                    },
                );
                proof {
                    assert(op@ == (OperationView::AssignVar {
                        left_value: glob_view(*target_id, dsl_ty(*target_type)),
                        right_value: spec_expr_result(s->Assign_value, old(ctx).next_var_id),
                    }));
                }
                ctx.operations.push(op);
                proof {
                    assert(ops_view(ctx.operations@) =~= mid_ops.push(
                        OperationView::AssignVar {
                            left_value: glob_view(*target_id, dsl_ty(*target_type)),
                            right_value: spec_expr_result(
                                s->Assign_value,
                                old(ctx).next_var_id,
                            ),
                        },
                    ));
                    assert(ops_view(ctx.operations@) =~= ops_view(old(ctx).operations@)
                        + spec_stmt_ops(*s, old(ctx).next_var_id));
                    assert(types_view(ctx.types@) =~= types_view(old(ctx).types@)
                        + spec_stmt_types(*s));
                }
            } else {
                proof {
                    assert(!spec_stmt_wf(*s, in_loop));
                }
                if vt.is_some() {
                    let ghost before = diags@;
                    diags.push(DslError::TypeMismatch);
                    proof {
                        lemma_diags_push(before, DslError::TypeMismatch);
                        lemma_diags_chain(old(diags)@, before, diags@);
                    }
                }
            }
        },
        DslStmt::If { .. } => lower_if_stmt(ctx, s, in_loop, diags),
        DslStmt::While { .. } => lower_while_stmt(ctx, s, in_loop, diags),
        DslStmt::Break => {
            if in_loop {
                crate::instructions::break_(ctx);
                proof {
                    assert(ops_view(ctx.operations@) =~= ops_view(old(ctx).operations@)
                        + spec_stmt_ops(*s, old(ctx).next_var_id));
                    assert(types_view(ctx.types@) =~= types_view(old(ctx).types@)
                        + spec_stmt_types(*s));
                }
            } else {
                let ghost before = diags@;
                diags.push(DslError::BreakOutsideLoop);
                proof {
                    lemma_diags_push(before, DslError::BreakOutsideLoop);
                }
            }
        },
        DslStmt::Continue => {
            if in_loop {
                crate::instructions::continue_(ctx);
                proof {
                    assert(ops_view(ctx.operations@) =~= ops_view(old(ctx).operations@)
                        + spec_stmt_ops(*s, old(ctx).next_var_id));
                    assert(types_view(ctx.types@) =~= types_view(old(ctx).types@)
                        + spec_stmt_types(*s));
                }
            } else {
                let ghost before = diags@;
                diags.push(DslError::ContinueOutsideLoop);
                proof {
                    lemma_diags_push(before, DslError::ContinueOutsideLoop);
                }
            }
        },
    }
}

/// Lowers an `if` statement: marker blocks around the lowered
/// branches, the alternative marker only where an alternative exists.
#[verifier::rlimit(100)]
fn lower_if_stmt(ctx: &mut GpuContext, s: &DslStmt, in_loop: bool, diags: &mut Vec<DslError>)
    requires
        *s is If,
        old(ctx).next_var_id + spec_stmt_budget(*s) < u32::MAX,
    ensures
        old(diags)@.is_prefix_of(final(diags)@),
        spec_stmt_wf(*s, in_loop) <==> final(diags)@ == old(diags)@,
        old(ctx).next_var_id <= final(ctx).next_var_id <= old(ctx).next_var_id
            + spec_stmt_budget(*s),
        final(ctx).index_vars == old(ctx).index_vars,
        spec_stmt_wf(*s, in_loop) ==> {
            &&& final(ctx).next_var_id == old(ctx).next_var_id + spec_stmt_vars(*s)
            &&& ops_view(final(ctx).operations@) == ops_view(old(ctx).operations@)
                + spec_stmt_ops(*s, old(ctx).next_var_id)
            &&& types_view(final(ctx).types@) == types_view(old(ctx).types@) + spec_stmt_types(
                *s,
            )
        },
    decreases *s, 0int,
{
    match s {
        DslStmt::If { condition, then_body, else_body } => {
            proof {
                let ghost ss = *s;
                assert(decreases_to!(ss => ss->If_then_body));
                assert(decreases_to!(ss->If_then_body => ss->If_then_body@));
                assert(decreases_to!(ss => ss->If_else_body));
                assert(decreases_to!(ss->If_else_body => ss->If_else_body@));
                lemma_expr_budget(s->If_condition);
                lemma_stmts_budget(then_body@, then_body@.len() as int);
                lemma_stmts_budget(else_body@, else_body@.len() as int);
            }
            let ghost n0 = old(ctx).next_var_id;
            let ct = expr_type(condition);
            let ghost d0 = diags@;
            let c = lower_expr(ctx, condition, diags);
            if matches!(ct, Some(DslType::Bool)) {
                match &c {
                    DslValue::Bool(cb) => crate::instructions::if_block(ctx, cb),
                    _ => {
                        proof {
                            assert(false);
                        }
                    },
                }
                let ghost d1 = diags@;
                lower_stmts(ctx, then_body, in_loop, diags);
                let ghost d2 = diags@;
                if else_body.len() > 0 {
                    crate::instructions::else_block(ctx);
                    lower_stmts(ctx, else_body, in_loop, diags);
                }
                crate::instructions::end_block(ctx);
                proof {
                    lemma_diags_chain(d1, d2, diags@);
                    lemma_diags_chain(d0, d1, diags@);
                    if diags@ == old(diags)@ {
                        assert(ops_view(ctx.operations@) =~= ops_view(old(ctx).operations@)
                            + spec_stmt_ops(*s, n0));
                        assert(types_view(ctx.types@) =~= types_view(old(ctx).types@)
                            + spec_stmt_types(*s));
                    }
                }
            } else {
                proof {
                    assert(!spec_stmt_wf(*s, in_loop));
                }
                let ghost d1 = diags@;
                lower_stmts(ctx, then_body, in_loop, diags);
                let ghost d2 = diags@;
                lower_stmts(ctx, else_body, in_loop, diags);
                proof {
                    lemma_diags_chain(d1, d2, diags@);
                    lemma_diags_chain(d0, d1, diags@);
                }
                if ct.is_some() {
                    let ghost before = diags@;
                    diags.push(DslError::TypeMismatch);
                    proof {
                        lemma_diags_push(before, DslError::TypeMismatch);
                        lemma_diags_chain(d0, before, diags@);
                    }
                }
            }
        },
        _ => {
            proof {
                assert(false);
            }
        },
    }
}

/// Lowers a `while` statement: a loop block holding a break guarded by
/// the negated condition, then the lowered body.
#[verifier::rlimit(100)]
fn lower_while_stmt(ctx: &mut GpuContext, s: &DslStmt, in_loop: bool, diags: &mut Vec<DslError>)
    requires
        *s is While,
        old(ctx).next_var_id + spec_stmt_budget(*s) < u32::MAX,
    ensures
        old(diags)@.is_prefix_of(final(diags)@),
        spec_stmt_wf(*s, in_loop) <==> final(diags)@ == old(diags)@,
        old(ctx).next_var_id <= final(ctx).next_var_id <= old(ctx).next_var_id
            + spec_stmt_budget(*s),
        final(ctx).index_vars == old(ctx).index_vars,
        spec_stmt_wf(*s, in_loop) ==> {
            &&& final(ctx).next_var_id == old(ctx).next_var_id + spec_stmt_vars(*s)
            &&& ops_view(final(ctx).operations@) == ops_view(old(ctx).operations@)
                + spec_stmt_ops(*s, old(ctx).next_var_id)
            &&& types_view(final(ctx).types@) == types_view(old(ctx).types@) + spec_stmt_types(
                *s,
            )
        },
    decreases *s, 0int,
{
    match s {
        DslStmt::While { condition, body } => {
            proof {
                let ghost ss = *s;
                assert(decreases_to!(ss => ss->While_body));
                assert(decreases_to!(ss->While_body => ss->While_body@));
                lemma_expr_budget(s->While_condition);
                lemma_stmts_budget(body@, body@.len() as int);
            }
            let ghost n0 = old(ctx).next_var_id;
            let ct = expr_type(condition);
            let ghost d0 = diags@;
            if matches!(ct, Some(DslType::Bool)) {
                crate::instructions::loop_block(ctx);
                let c = lower_expr(ctx, condition, diags);
                let guard = record_unary(ctx, &c, DslType::Bool, "!");
                match &guard {
                    DslValue::Bool(gb) => crate::instructions::if_block(ctx, gb),
                    _ => {
                        proof {
                            assert(false);
                        }
                    },
                }
                crate::instructions::break_(ctx);
                crate::instructions::end_block(ctx);
                let ghost d1 = diags@;
                lower_stmts(ctx, body, true, diags);
                crate::instructions::end_block(ctx);
                proof {
                    lemma_diags_chain(d0, d1, diags@);
                    if diags@ == old(diags)@ {
                        assert(ops_view(ctx.operations@) =~= ops_view(old(ctx).operations@)
                            + spec_stmt_ops(*s, n0));
                        assert(types_view(ctx.types@) =~= types_view(old(ctx).types@)
                            + spec_stmt_types(*s));
                    }
                }
            } else {
                proof {
                    assert(!spec_stmt_wf(*s, in_loop));
                }
                lower_expr(ctx, condition, diags);
                let ghost d1 = diags@;
                lower_stmts(ctx, body, true, diags);
                proof {
                    lemma_diags_chain(d0, d1, diags@);
                }
                if ct.is_some() {
                    let ghost before = diags@;
                    diags.push(DslError::TypeMismatch);
                    proof {
                        lemma_diags_push(before, DslError::TypeMismatch);
                        lemma_diags_chain(d0, before, diags@);
                    }
                }
            }
        },
        _ => {
            proof {
                assert(false);
            }
        },
    }
}

/// Lowers a statement list in order, each statement starting at the id
/// where the previous one stopped, collecting every diagnostic.
pub fn lower_stmts(ctx: &mut GpuContext, list: &Vec<DslStmt>, in_loop: bool, diags: &mut Vec<
    DslError,
>)
    requires
        old(ctx).next_var_id + spec_stmts_budget(list@, list@.len() as int) < u32::MAX,
    ensures
        old(diags)@.is_prefix_of(final(diags)@),
        spec_stmts_wf(list@, list@.len() as int, in_loop) <==> final(diags)@ == old(diags)@,
        old(ctx).next_var_id <= final(ctx).next_var_id <= old(ctx).next_var_id
            + spec_stmts_budget(list@, list@.len() as int),
        final(ctx).index_vars == old(ctx).index_vars,
        spec_stmts_wf(list@, list@.len() as int, in_loop) ==> {
            &&& final(ctx).next_var_id == old(ctx).next_var_id + spec_stmts_vars(
                list@,
                list@.len() as int,
            )
            &&& ops_view(final(ctx).operations@) == ops_view(old(ctx).operations@)
                + spec_stmts_ops(list@, old(ctx).next_var_id, list@.len() as int)
            &&& types_view(final(ctx).types@) == types_view(old(ctx).types@) + spec_stmts_types(
                list@,
                list@.len() as int,
            )
        },
    decreases list@, 0int,
{
    let ghost n0 = old(ctx).next_var_id;
    let mut i: usize = 0;
    while i < list.len()
        invariant
            0 <= i <= list@.len(),
            n0 == old(ctx).next_var_id,
            n0 + spec_stmts_budget(list@, list@.len() as int) < u32::MAX,
            n0 <= ctx.next_var_id <= n0 + spec_stmts_budget(list@, i as int),
            ctx.index_vars == old(ctx).index_vars,
            old(diags)@.is_prefix_of(diags@),
            spec_stmts_wf(list@, i as int, in_loop) <==> diags@ == old(diags)@,
            diags@ == old(diags)@ ==> {
                &&& ctx.next_var_id == n0 + spec_stmts_vars(list@, i as int)
                &&& ops_view(ctx.operations@) == ops_view(old(ctx).operations@)
                    + spec_stmts_ops(list@, n0, i as int)
                &&& types_view(ctx.types@) == types_view(old(ctx).types@) + spec_stmts_types(
                    list@,
                    i as int,
                )
            },
        decreases list@.len() - i,
    {
        proof {
            assert(decreases_to!(list@ => list@[i as int]));
            lemma_stmts_budget(list@, i as int);
            lemma_stmt_budget(list@[i as int]);
            lemma_stmts_budget(list@, list@.len() as int);
        }
        let ghost d_before = diags@;
        lower_stmt(ctx, &list[i], in_loop, diags);
        proof {
            lemma_diags_chain(old(diags)@, d_before, diags@);
            if diags@ == old(diags)@ {
                assert(ops_view(ctx.operations@) =~= ops_view(old(ctx).operations@)
                    + spec_stmts_ops(list@, n0, i + 1));
                assert(types_view(ctx.types@) =~= types_view(old(ctx).types@)
                    + spec_stmts_types(list@, i + 1));
            }
        }
        i += 1;
    }
}

/// Lowers a kernel body: every diagnostic across the whole body is
/// collected before failing, and a recorded context is handed out only
/// when no diagnostic fired — no partial program ever leaves the
/// lowering pass.
pub fn lower_kernel(stmts: &Vec<DslStmt>) -> (r: Result<GpuContext, Vec<DslError>>)
    requires
        spec_stmts_budget(stmts@, stmts@.len() as int) < u32::MAX,
    ensures
        match r {
            Ok(ctx) => {
                &&& spec_stmts_wf(stmts@, stmts@.len() as int, false)
                &&& ops_view(ctx.operations@) == spec_stmts_ops(stmts@, 0, stmts@.len() as int)
                &&& types_view(ctx.types@) == spec_stmts_types(stmts@, stmts@.len() as int)
                &&& ctx.next_var_id == spec_stmts_vars(stmts@, stmts@.len() as int)
                &&& ctx.index_vars@.len() == 0
            },
            Err(diags) => !spec_stmts_wf(stmts@, stmts@.len() as int, false) && diags@.len() > 0,
        },
{
    let mut ctx = GpuContext::new();
    let mut diags: Vec<DslError> = Vec::new();
    let ghost empty_ops = ops_view(ctx.operations@);
    let ghost empty_types = types_view(ctx.types@);
    proof {
        assert(empty_ops =~= Seq::<OperationView>::empty());
        assert(empty_types =~= Seq::<Ty>::empty());
    }
    lower_stmts(&mut ctx, stmts, false, &mut diags);
    if diags.len() == 0 {
        proof {
            assert(diags@ =~= Seq::<DslError>::empty());
            assert(ops_view(ctx.operations@) =~= spec_stmts_ops(stmts@, 0, stmts@.len() as int));
            assert(types_view(ctx.types@) =~= spec_stmts_types(stmts@, stmts@.len() as int));
        }
        Ok(ctx)
    } else {
        Err(diags)
    }
}

} // verus!
