//! The primitive operation constructors that append to a recording.
//!
//! These are the calls a rewritten program makes while it runs: they
//! create variables and globals, record assignments, constants, calls
//! and control-flow markers, and resolve dynamic indexes through the
//! context's memo table.

use vstd::prelude::*;
use crate::context::GpuContext;
use crate::context::IndexVarEntry;
use crate::context::IndexVarView;
use crate::context::index_vars_view;
use crate::context::spec_type_closure;
use crate::gpu::Gpu;
use crate::gpu::constant_ops;
use crate::gpu::glob_view;
use crate::gpu::var_view;
use crate::operations::AssignVarOperation;
use crate::operations::ConstantAssignVarOperation;
use crate::operations::DeclareVarOperation;
use crate::operations::FnCallOperation;
use crate::operations::IfOperation;
use crate::operations::Operation;
use crate::operations::OperationView;
use crate::operations::Wgsl;
use crate::operations::ops_view;
use crate::types::GpuTypeDetails;
use crate::types::Ty;
use crate::types::types_view;
use crate::values::GpuValue;
use crate::values::values_view;

verus! {

/// The handle of the global slot `id`.
pub fn create_glob<T: Gpu>(id: u64) -> (r: T)
    ensures
        r.spec_value() == glob_view(id, T::spec_ty()),
{
    T::from_value(GpuValue::glob(id, T::details()))
}

/// Declares a fresh uninitialized variable and returns its handle.
pub fn create_uninit_var<T: Gpu>(ctx: &mut GpuContext) -> (r: T)
    requires
        old(ctx).next_var_id < u32::MAX,
    ensures
        r.spec_value() == var_view(old(ctx).next_var_id, T::spec_ty()),
        final(ctx).next_var_id == old(ctx).next_var_id + 1,
        types_view(final(ctx).types@) == types_view(old(ctx).types@) + spec_type_closure(
            T::spec_ty(),
        ),
        ops_view(final(ctx).operations@) == ops_view(old(ctx).operations@).push(
            OperationView::DeclareVar { id: old(ctx).next_var_id as int, type_: T::spec_ty() },
        ),
        final(ctx).index_vars == old(ctx).index_vars,
{
    let details = T::details();
    ctx.register_type(&details);
    let id = ctx.fresh_var_id();
    ctx.operations.push(Operation::DeclareVar(DeclareVarOperation { id, type_: details }));
    proof {
        assert(ops_view(ctx.operations@) =~= ops_view(old(ctx).operations@).push(
            OperationView::DeclareVar { id: old(ctx).next_var_id as int, type_: T::spec_ty() },
        ));
    }
    T::from_value(GpuValue::var(id, T::details()))
}

/// Records the assignment of `value` to `variable`.
pub fn assign<T: Gpu>(ctx: &mut GpuContext, variable: &T, value: &T)
    ensures
        ops_view(final(ctx).operations@) == ops_view(old(ctx).operations@).push(
            OperationView::AssignVar {
                left_value: variable.spec_value(),
                right_value: value.spec_value(),
            },
        ),
        final(ctx).types == old(ctx).types,
        final(ctx).next_var_id == old(ctx).next_var_id,
        final(ctx).index_vars == old(ctx).index_vars,
{
    ctx.operations.push(
        Operation::AssignVar(
            AssignVarOperation { left_value: variable.value(), right_value: value.value() },
        ),
    );
    proof {
        assert(ops_view(ctx.operations@) =~= ops_view(old(ctx).operations@).push(
            OperationView::AssignVar {
                left_value: variable.spec_value(),
                right_value: value.spec_value(),
            },
        ));
    }
}

/// Declares a fresh variable initialized to `value` and returns its
/// handle.
pub fn create_var<T: Gpu>(ctx: &mut GpuContext, value: &T) -> (r: T)
    requires
        old(ctx).next_var_id < u32::MAX,
    ensures
        r.spec_value() == var_view(old(ctx).next_var_id, T::spec_ty()),
        final(ctx).next_var_id == old(ctx).next_var_id + 1,
        types_view(final(ctx).types@) == types_view(old(ctx).types@) + spec_type_closure(
            T::spec_ty(),
        ),
        ops_view(final(ctx).operations@) == ops_view(old(ctx).operations@) + seq![
            OperationView::DeclareVar { id: old(ctx).next_var_id as int, type_: T::spec_ty() },
            OperationView::AssignVar {
                left_value: var_view(old(ctx).next_var_id, T::spec_ty()),
                right_value: value.spec_value(),
            },
        ],
        final(ctx).index_vars == old(ctx).index_vars,
{
    let var = create_uninit_var::<T>(ctx);
    assign(ctx, &var, value);
    proof {
        assert(ops_view(ctx.operations@) =~= ops_view(old(ctx).operations@) + seq![
            OperationView::DeclareVar { id: old(ctx).next_var_id as int, type_: T::spec_ty() },
            OperationView::AssignVar {
                left_value: var_view(old(ctx).next_var_id, T::spec_ty()),
                right_value: value.spec_value(),
            },
        ]);
    }
    var
}

/// Materializes constant text into a fresh variable and returns the
/// variable's handle.
pub fn materialize_constant<T: Gpu>(ctx: &mut GpuContext, text: Wgsl) -> (r: T)
    requires
        old(ctx).next_var_id < u32::MAX,
    ensures
        r.spec_value() == var_view(old(ctx).next_var_id, T::spec_ty()),
        final(ctx).next_var_id == old(ctx).next_var_id + 1,
        types_view(final(ctx).types@) == types_view(old(ctx).types@) + spec_type_closure(
            T::spec_ty(),
        ),
        ops_view(final(ctx).operations@) == ops_view(old(ctx).operations@) + constant_ops(
            old(ctx).next_var_id,
            T::spec_ty(),
            text@,
        ),
        final(ctx).index_vars == old(ctx).index_vars,
{
    let ghost text_view = text@;
    let var = create_uninit_var::<T>(ctx);
    let ghost mid_ops = ops_view(ctx.operations@);
    let op = Operation::ConstantAssignVar(
        ConstantAssignVarOperation { left_value: var.value(), right_value: text },
    );
    proof {
        assert(op@ == (OperationView::ConstantAssignVar {
            left_value: var_view(old(ctx).next_var_id, T::spec_ty()),
            right_value: text_view,
        }));
    }
    ctx.operations.push(op);
    proof {
        assert(ops_view(ctx.operations@) =~= mid_ops.push(
            OperationView::ConstantAssignVar {
                left_value: var_view(old(ctx).next_var_id, T::spec_ty()),
                right_value: text_view,
            },
        ));
        assert(ops_view(ctx.operations@) =~= ops_view(old(ctx).operations@) + constant_ops(
            old(ctx).next_var_id,
            T::spec_ty(),
            text_view,
        ));
    }
    var
}

/// Records a call of the named target-language function over the given
/// argument addresses, stored into a fresh variable.
pub fn call_fn<T: Gpu>(
    ctx: &mut GpuContext,
    fn_name: &'static str,
    args: Vec<GpuValue>,
    is_supporting_bool: bool,
) -> (r: T)
    requires
        old(ctx).next_var_id < u32::MAX,
    ensures
        r.spec_value() == var_view(old(ctx).next_var_id, T::spec_ty()),
        final(ctx).next_var_id == old(ctx).next_var_id + 1,
        types_view(final(ctx).types@) == types_view(old(ctx).types@) + spec_type_closure(
            T::spec_ty(),
        ),
        ops_view(final(ctx).operations@) == ops_view(old(ctx).operations@) + seq![
            OperationView::DeclareVar { id: old(ctx).next_var_id as int, type_: T::spec_ty() },
            OperationView::FnCall {
                var: var_view(old(ctx).next_var_id, T::spec_ty()),
                fn_name: fn_name@,
                args: values_view(args@),
                is_supporting_bool,
            },
        ],
        final(ctx).index_vars == old(ctx).index_vars,
{
    let ghost args_v = values_view(args@);
    let var = create_uninit_var::<T>(ctx);
    let ghost mid_ops = ops_view(ctx.operations@);
    let op = Operation::FnCall(
        FnCallOperation { var: var.value(), fn_name, args, is_supporting_bool },
    );
    proof {
        assert(op@ == (OperationView::FnCall {
            var: var_view(old(ctx).next_var_id, T::spec_ty()),
            fn_name: fn_name@,
            args: args_v,
            is_supporting_bool,
        }));
    }
    ctx.operations.push(op);
    proof {
        assert(ops_view(ctx.operations@) =~= mid_ops.push(
            OperationView::FnCall {
                var: var_view(old(ctx).next_var_id, T::spec_ty()),
                fn_name: fn_name@,
                args: args_v,
                is_supporting_bool,
            },
        ));
        assert(ops_view(ctx.operations@) =~= ops_view(old(ctx).operations@) + seq![
            OperationView::DeclareVar { id: old(ctx).next_var_id as int, type_: T::spec_ty() },
            OperationView::FnCall {
                var: var_view(old(ctx).next_var_id, T::spec_ty()),
                fn_name: fn_name@,
                args: args_v,
                is_supporting_bool,
            },
        ]);
    }
    var
}

/// Opens a conditional block guarded by `condition`.
pub fn if_block(ctx: &mut GpuContext, condition: &crate::primitive::Bool)
    ensures
        ops_view(final(ctx).operations@) == ops_view(old(ctx).operations@).push(
            OperationView::IfBlock { condition: condition.spec_value() },
        ),
        final(ctx).types == old(ctx).types,
        final(ctx).next_var_id == old(ctx).next_var_id,
        final(ctx).index_vars == old(ctx).index_vars,
{
    ctx.operations.push(Operation::IfBlock(IfOperation { condition: condition.value() }));
    proof {
        assert(ops_view(ctx.operations@) =~= ops_view(old(ctx).operations@).push(
            OperationView::IfBlock { condition: condition.spec_value() },
        ));
    }
}

/// Opens the alternative branch of the innermost conditional block.
pub fn else_block(ctx: &mut GpuContext)
    ensures
        ops_view(final(ctx).operations@) == ops_view(old(ctx).operations@).push(
            OperationView::ElseBlock,
        ),
        final(ctx).types == old(ctx).types,
        final(ctx).next_var_id == old(ctx).next_var_id,
        final(ctx).index_vars == old(ctx).index_vars,
{
    ctx.operations.push(Operation::ElseBlock);
    proof {
        assert(ops_view(ctx.operations@) =~= ops_view(old(ctx).operations@).push(
            OperationView::ElseBlock,
        ));
    }
}

/// Opens a loop block.
pub fn loop_block(ctx: &mut GpuContext)
    ensures
        ops_view(final(ctx).operations@) == ops_view(old(ctx).operations@).push(
            OperationView::LoopBlock,
        ),
        final(ctx).types == old(ctx).types,
        final(ctx).next_var_id == old(ctx).next_var_id,
        final(ctx).index_vars == old(ctx).index_vars,
{
    ctx.operations.push(Operation::LoopBlock);
    proof {
        assert(ops_view(ctx.operations@) =~= ops_view(old(ctx).operations@).push(
            OperationView::LoopBlock,
        ));
    }
}

/// Closes the innermost open block.
pub fn end_block(ctx: &mut GpuContext)
    ensures
        ops_view(final(ctx).operations@) == ops_view(old(ctx).operations@).push(
            OperationView::EndBlock,
        ),
        final(ctx).types == old(ctx).types,
        final(ctx).next_var_id == old(ctx).next_var_id,
        final(ctx).index_vars == old(ctx).index_vars,
{
    ctx.operations.push(Operation::EndBlock);
    proof {
        assert(ops_view(ctx.operations@) =~= ops_view(old(ctx).operations@).push(
            OperationView::EndBlock,
        ));
    }
}

/// Records a jump out of the innermost loop.
pub fn break_(ctx: &mut GpuContext)
    ensures
        ops_view(final(ctx).operations@) == ops_view(old(ctx).operations@).push(
            OperationView::Break,
        ),
        final(ctx).types == old(ctx).types,
        final(ctx).next_var_id == old(ctx).next_var_id,
        final(ctx).index_vars == old(ctx).index_vars,
{
    ctx.operations.push(Operation::Break);
    proof {
        assert(ops_view(ctx.operations@) =~= ops_view(old(ctx).operations@).push(
            OperationView::Break,
        ));
    }
}

/// Records a jump to the next iteration of the innermost loop.
pub fn continue_(ctx: &mut GpuContext)
    ensures
        ops_view(final(ctx).operations@) == ops_view(old(ctx).operations@).push(
            OperationView::Continue,
        ),
        final(ctx).types == old(ctx).types,
        final(ctx).next_var_id == old(ctx).next_var_id,
        final(ctx).index_vars == old(ctx).index_vars,
{
    ctx.operations.push(Operation::Continue);
    proof {
        assert(ops_view(ctx.operations@) =~= ops_view(old(ctx).operations@).push(
            OperationView::Continue,
        ));
    }
}

/// Allocates the hidden variable that holds a materialized copy of an
/// index used to subscript `parent`, records its declaration and the
/// copy of `copied` into it, and memoizes the binding from
/// (parent, key) to the new variable so later subscripts reuse it.
pub fn create_index_var(
    ctx: &mut GpuContext,
    parent: &GpuValue,
    key: &GpuValue,
    copied: &GpuValue,
) -> (r: u32)
    requires
        old(ctx).next_var_id < u32::MAX,
    ensures
        r == old(ctx).next_var_id,
        final(ctx).next_var_id == old(ctx).next_var_id + 1,
        types_view(final(ctx).types@) == types_view(old(ctx).types@) + spec_type_closure(
            Ty::U32,
        ),
        ops_view(final(ctx).operations@) == ops_view(old(ctx).operations@) + seq![
            OperationView::DeclareVar { id: r as int, type_: Ty::U32 },
            OperationView::AssignVar { left_value: var_view(r, Ty::U32), right_value: copied@ },
        ],
        index_vars_view(final(ctx).index_vars@) == index_vars_view(old(ctx).index_vars@).push(
            IndexVarView { parent: parent@, index: key@, var_id: r as int },
        ),
{
    let details = GpuTypeDetails::U32;
    ctx.register_type(&details);
    let id = ctx.fresh_var_id();
    ctx.operations.push(
        Operation::DeclareVar(DeclareVarOperation { id, type_: GpuTypeDetails::U32 }),
    );
    ctx.operations.push(
        Operation::AssignVar(
            AssignVarOperation {
                left_value: GpuValue::var(id, GpuTypeDetails::U32),
                right_value: copied.clone(),
            },
        ),
    );
    ctx.index_vars.push(
        IndexVarEntry { parent: parent.clone(), index: key.clone(), var_id: id },
    );
    proof {
        assert(ops_view(ctx.operations@) =~= ops_view(old(ctx).operations@) + seq![
            OperationView::DeclareVar { id: id as int, type_: Ty::U32 },
            OperationView::AssignVar {
                left_value: var_view(id, Ty::U32),
                right_value: copied@,
            },
        ]);
        assert(index_vars_view(ctx.index_vars@) =~= index_vars_view(
            old(ctx).index_vars@,
        ).push(IndexVarView { parent: parent@, index: key@, var_id: id as int }));
    }
    id
}

} // verus!
