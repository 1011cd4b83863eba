//! Recording of unary and binary operator applications.
//!
//! Each application declares a fresh result variable and records one
//! instruction computing the operator over the operand addresses.

use vstd::prelude::*;
use crate::context::GpuContext;
use crate::context::spec_type_closure;
use crate::gpu::Gpu;
use crate::gpu::var_view;
use crate::instructions::create_uninit_var;
use crate::operations::BinaryOperation;
use crate::operations::Operation;
use crate::operations::OperationView;
use crate::operations::UnaryOperation;
use crate::operations::ops_view;
use crate::types::types_view;

verus! {

/// Records `operator` applied to `input`, stored into a fresh variable.
pub fn apply_unary_op<I: Gpu, O: Gpu>(ctx: &mut GpuContext, input: &I, operator: &'static str) -> (r:
    O)
    requires
        old(ctx).next_var_id < u32::MAX,
    ensures
        r.spec_value() == var_view(old(ctx).next_var_id, O::spec_ty()),
        final(ctx).next_var_id == old(ctx).next_var_id + 1,
        types_view(final(ctx).types@) == types_view(old(ctx).types@) + spec_type_closure(
            O::spec_ty(),
        ),
        ops_view(final(ctx).operations@) == ops_view(old(ctx).operations@) + seq![
            OperationView::DeclareVar { id: old(ctx).next_var_id as int, type_: O::spec_ty() },
            OperationView::Unary {
                var: var_view(old(ctx).next_var_id, O::spec_ty()),
                value: input.spec_value(),
                operator: operator@,
            },
        ],
        final(ctx).index_vars == old(ctx).index_vars,
{
    let var = create_uninit_var::<O>(ctx);
    let ghost mid_ops = ops_view(ctx.operations@);
    let op = Operation::Unary(
        UnaryOperation { var: var.value(), value: input.value(), operator },
    );
    proof {
        assert(op@ == (OperationView::Unary {
            var: var_view(old(ctx).next_var_id, O::spec_ty()),
            value: input.spec_value(),
            operator: operator@,
        }));
    }
    ctx.operations.push(op);
    proof {
        assert(ops_view(ctx.operations@) =~= mid_ops.push(op@));
        assert(ops_view(ctx.operations@) =~= ops_view(old(ctx).operations@) + seq![
            OperationView::DeclareVar { id: old(ctx).next_var_id as int, type_: O::spec_ty() },
            OperationView::Unary {
                var: var_view(old(ctx).next_var_id, O::spec_ty()),
                value: input.spec_value(),
                operator: operator@,
            },
        ]);
    }
    var
}

/// Records `operator` applied to `left` and `right`, stored into a fresh
/// variable.
pub fn apply_binary_op<L: Gpu, R: Gpu, O: Gpu>(
    ctx: &mut GpuContext,
    left: &L,
    right: &R,
    operator: &'static str,
) -> (r: O)
    requires
        old(ctx).next_var_id < u32::MAX,
    ensures
        r.spec_value() == var_view(old(ctx).next_var_id, O::spec_ty()),
        final(ctx).next_var_id == old(ctx).next_var_id + 1,
        types_view(final(ctx).types@) == types_view(old(ctx).types@) + spec_type_closure(
            O::spec_ty(),
        ),
        ops_view(final(ctx).operations@) == ops_view(old(ctx).operations@) + seq![
            OperationView::DeclareVar { id: old(ctx).next_var_id as int, type_: O::spec_ty() },
            OperationView::Binary {
                var: var_view(old(ctx).next_var_id, O::spec_ty()),
                left_value: left.spec_value(),
                right_value: right.spec_value(),
                operator: operator@,
            },
        ],
        final(ctx).index_vars == old(ctx).index_vars,
{
    let var = create_uninit_var::<O>(ctx);
    let ghost mid_ops = ops_view(ctx.operations@);
    let op = Operation::Binary(
        BinaryOperation {
            var: var.value(),
            left_value: left.value(),
            right_value: right.value(),
            operator,
        },
    );
    proof {
        assert(op@ == (OperationView::Binary {
            var: var_view(old(ctx).next_var_id, O::spec_ty()),
            left_value: left.spec_value(),
            right_value: right.spec_value(),
            operator: operator@,
        }));
    }
    ctx.operations.push(op);
    proof {
        assert(ops_view(ctx.operations@) =~= mid_ops.push(op@));
        assert(ops_view(ctx.operations@) =~= ops_view(old(ctx).operations@) + seq![
            OperationView::DeclareVar { id: old(ctx).next_var_id as int, type_: O::spec_ty() },
            OperationView::Binary {
                var: var_view(old(ctx).next_var_id, O::spec_ty()),
                left_value: left.spec_value(),
                right_value: right.spec_value(),
                operator: operator@,
            },
        ]);
    }
    var
}

} // verus!
