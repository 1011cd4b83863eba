//! A GPU range: a record of a start value and an excluded end value.

use vstd::prelude::*;
use crate::context::GpuContext;
use crate::context::spec_type_closure;
use crate::gpu::Gpu;
use crate::gpu::var_view;
use crate::operations::OperationView;
use crate::operations::ops_view;
use crate::primitive::Bool;
use crate::primitive::U32;
use crate::types::GpuTypeDetails;
use crate::types::Ty;
use crate::types::types_view;
use crate::values::GpuValue;
use crate::values::GpuValueExt;
use crate::values::ValueView;
use crate::values::spec_extended;

verus! {

/// A GPU type holding a range of values.
pub struct Range<T> {
    /// The first value.
    pub start: T,
    /// The first value past the range's end.
    pub end: T,
    /// The address of the whole range value.
    pub value: GpuValue,
}

impl<T: Gpu> Gpu for Range<T> {
    open spec fn spec_ty() -> Ty {
        Ty::Struct { fields: seq![T::spec_ty(), T::spec_ty()] }
    }

    closed spec fn spec_value(&self) -> ValueView {
        self.value@
    }

    fn details() -> (r: GpuTypeDetails) {
        let r = GpuTypeDetails::new_struct(vec![T::details(), T::details()]);
        proof {
            assert(r@->fields =~= seq![T::spec_ty(), T::spec_ty()]);
        }
        r
    }

    fn value(&self) -> (r: GpuValue) {
        self.value.clone()
    }

    fn from_value(value: GpuValue) -> (r: Self)
        ensures
            r.start.spec_value() == spec_extended(
                value@,
                GpuValueExt::FieldPosition(0),
                T::spec_ty(),
            ),
            r.end.spec_value() == spec_extended(
                value@,
                GpuValueExt::FieldPosition(1),
                T::spec_ty(),
            ),
    {
        let start = T::from_value(value.clone().field(0, T::details()));
        let end = T::from_value(value.clone().field(1, T::details()));
        Range { start, end, value }
    }
}

impl<T: Gpu> Range<T> {
    /// The handle of the range global slot `id`, its bound handles
    /// addressing the slot's fields.
    pub fn glob(id: u64) -> (r: Self)
        ensures
            r.spec_value() == crate::gpu::glob_view(id, Self::spec_ty()),
            r.start.spec_value() == spec_extended(
                crate::gpu::glob_view(id, Self::spec_ty()),
                GpuValueExt::FieldPosition(0),
                T::spec_ty(),
            ),
            r.end.spec_value() == spec_extended(
                crate::gpu::glob_view(id, Self::spec_ty()),
                GpuValueExt::FieldPosition(1),
                T::spec_ty(),
            ),
    {
        Self::from_value(GpuValue::glob(id, Self::details()))
    }

    /// Records the construction of a range from its bounds and returns
    /// the handle of the fresh variable holding it.
    pub fn new(ctx: &mut GpuContext, start: &T, end: &T) -> (r: Self)
        requires
            old(ctx).next_var_id < u32::MAX,
        ensures
            r.spec_value() == var_view(old(ctx).next_var_id, Self::spec_ty()),
            r.start.spec_value() == spec_extended(
                var_view(old(ctx).next_var_id, Self::spec_ty()),
                GpuValueExt::FieldPosition(0),
                T::spec_ty(),
            ),
            r.end.spec_value() == spec_extended(
                var_view(old(ctx).next_var_id, Self::spec_ty()),
                GpuValueExt::FieldPosition(1),
                T::spec_ty(),
            ),
            final(ctx).next_var_id == old(ctx).next_var_id + 1,
            types_view(final(ctx).types@) == types_view(old(ctx).types@) + spec_type_closure(
                Self::spec_ty(),
            ),
            ops_view(final(ctx).operations@) == ops_view(old(ctx).operations@) + seq![
                OperationView::DeclareVar {
                    id: old(ctx).next_var_id as int,
                    type_: Self::spec_ty(),
                },
                OperationView::AssignVar {
                    left_value: spec_extended(
                        var_view(old(ctx).next_var_id, Self::spec_ty()),
                        GpuValueExt::FieldPosition(0),
                        T::spec_ty(),
                    ),
                    right_value: start.spec_value(),
                },
                OperationView::AssignVar {
                    left_value: spec_extended(
                        var_view(old(ctx).next_var_id, Self::spec_ty()),
                        GpuValueExt::FieldPosition(1),
                        T::spec_ty(),
                    ),
                    right_value: end.spec_value(),
                },
            ],
            final(ctx).index_vars == old(ctx).index_vars,
    {
        let uninit: Self = crate::instructions::create_uninit_var(ctx);
        let var = Self::from_value(uninit.value());
        crate::instructions::assign(ctx, &var.start, start);
        crate::instructions::assign(ctx, &var.end, end);
        proof {
            assert(ops_view(ctx.operations@) =~= ops_view(old(ctx).operations@) + seq![
                OperationView::DeclareVar {
                    id: old(ctx).next_var_id as int,
                    type_: Self::spec_ty(),
                },
                OperationView::AssignVar {
                    left_value: spec_extended(
                        var_view(old(ctx).next_var_id, Self::spec_ty()),
                        GpuValueExt::FieldPosition(0),
                        T::spec_ty(),
                    ),
                    right_value: start.spec_value(),
                },
                OperationView::AssignVar {
                    left_value: spec_extended(
                        var_view(old(ctx).next_var_id, Self::spec_ty()),
                        GpuValueExt::FieldPosition(1),
                        T::spec_ty(),
                    ),
                    right_value: end.spec_value(),
                },
            ]);
        }
        var
    }
}

impl crate::gpu::Iterable for Range<U32> {
    type Item = U32;

    open spec fn spec_len_vars(&self) -> int {
        4
    }

    open spec fn spec_len_ops(&self, n: u32) -> Seq<OperationView> {
        seq![
            OperationView::DeclareVar { id: n as int, type_: Ty::U32 },
            OperationView::ConstantAssignVar {
                left_value: var_view(n, Ty::U32),
                right_value: crate::operations::WgslView::Value(crate::text::spec_dec(0)),
            },
            OperationView::DeclareVar { id: n + 1, type_: Ty::U32 },
            OperationView::Binary {
                var: var_view((n + 1) as u32, Ty::U32),
                left_value: self.end.spec_value(),
                right_value: self.start.spec_value(),
                operator: "-"@,
            },
            OperationView::DeclareVar { id: n + 2, type_: Ty::Bool },
            OperationView::Binary {
                var: var_view((n + 2) as u32, Ty::Bool),
                left_value: self.end.spec_value(),
                right_value: self.start.spec_value(),
                operator: ">"@,
            },
            OperationView::DeclareVar { id: n + 3, type_: Ty::U32 },
            OperationView::FnCall {
                var: var_view((n + 3) as u32, Ty::U32),
                fn_name: "select"@,
                args: seq![
                    var_view(n, Ty::U32),
                    var_view((n + 1) as u32, Ty::U32),
                    var_view((n + 2) as u32, Ty::Bool),
                ],
                is_supporting_bool: true,
            },
        ]
    }

    open spec fn spec_len_result(&self, n: u32) -> ValueView {
        var_view((n + 3) as u32, Ty::U32)
    }

    open spec fn spec_len_types(&self) -> Seq<Ty> {
        seq![Ty::U32, Ty::U32, Ty::Bool, Ty::U32]
    }

    open spec fn spec_next_vars(&self) -> int {
        1
    }

    open spec fn spec_next_ops(&self, index: ValueView, n: u32) -> Seq<OperationView> {
        crate::gpu::binary_op_ops(n, Ty::U32, self.start.spec_value(), index, "+"@)
    }

    open spec fn spec_next_result(&self, n: u32) -> ValueView {
        var_view(n, Ty::U32)
    }

    open spec fn spec_next_types(&self) -> Seq<Ty> {
        seq![Ty::U32]
    }

    /// The item at iteration `index` is the start value advanced by the
    /// index.
    fn next(&self, ctx: &mut GpuContext, index: &U32) -> (r: U32) {
        let r: U32 = crate::operators::apply_binary_op(ctx, &self.start, index, "+");
        proof {
            assert(ops_view(ctx.operations@) =~= ops_view(old(ctx).operations@)
                + self.spec_next_ops(index.spec_value(), old(ctx).next_var_id));
            assert(types_view(ctx.types@) =~= types_view(old(ctx).types@)
                + self.spec_next_types());
        }
        r
    }

    /// The number of items: the end minus the start where the end is
    /// greater, zero elsewhere — chosen by the target's `select` so no
    /// branch is recorded.
    fn len(&self, ctx: &mut GpuContext) -> (r: U32) {
        let zero: u32 = 0;
        let zero_gpu: U32 = crate::gpu::Cpu::to_gpu(&zero, ctx);
        let span: U32 = crate::operators::apply_binary_op(ctx, &self.end, &self.start, "-");
        let not_empty: Bool = crate::operators::apply_binary_op(ctx, &self.end, &self.start, ">");
        let r = select(ctx, &zero_gpu, &span, &not_empty);
        proof {
            assert(ops_view(ctx.operations@) =~= ops_view(old(ctx).operations@)
                + self.spec_len_ops(old(ctx).next_var_id));
            assert(types_view(ctx.types@) =~= types_view(old(ctx).types@)
                + self.spec_len_types());
        }
        r
    }
}

/// Records the target's `select` call: the value of `t` where `cond`
/// holds, of `f` elsewhere, stored into a fresh variable.
pub fn select(ctx: &mut GpuContext, f: &U32, t: &U32, cond: &Bool) -> (r: U32)
    requires
        old(ctx).next_var_id < u32::MAX,
    ensures
        r.spec_value() == var_view(old(ctx).next_var_id, Ty::U32),
        final(ctx).next_var_id == old(ctx).next_var_id + 1,
        types_view(final(ctx).types@) == types_view(old(ctx).types@) + spec_type_closure(
            Ty::U32,
        ),
        ops_view(final(ctx).operations@) == ops_view(old(ctx).operations@) + seq![
            OperationView::DeclareVar { id: old(ctx).next_var_id as int, type_: Ty::U32 },
            OperationView::FnCall {
                var: var_view(old(ctx).next_var_id, Ty::U32),
                fn_name: "select"@,
                args: seq![f.spec_value(), t.spec_value(), cond.spec_value()],
                is_supporting_bool: true,
            },
        ],
        final(ctx).index_vars == old(ctx).index_vars,
{
    let mut args: Vec<GpuValue> = Vec::new();
    args.push(f.value());
    args.push(t.value());
    args.push(cond.value());
    proof {
        assert(crate::values::values_view(args@) =~= seq![
            f.spec_value(),
            t.spec_value(),
            cond.spec_value(),
        ]);
    }
    crate::instructions::call_fn::<U32>(ctx, "select", args, true)
}

} // verus!
