//! Fixed-length GPU arrays.
//!
//! Indexing is dynamic: the index value is first reduced modulo the
//! array length, then copied once into a hidden index variable that is
//! memoized per recording, so that indexing the same array with the same
//! index value twice reuses one hidden variable and evaluates the index
//! only once.

use vstd::prelude::*;
use core::marker::PhantomData;
use crate::context::GpuContext;
use crate::context::IndexVarView;
use crate::context::index_vars_view;
use crate::context::spec_find_index_var;
use crate::context::spec_type_closure;
use crate::gpu::Gpu;
use crate::gpu::var_view;
use crate::operations::OperationView;
use crate::operations::ops_view;
use crate::types::GpuTypeDetails;
use crate::types::Ty;
use crate::types::types_view;
use crate::values::GpuValue;
use crate::values::GpuValueExt;
use crate::values::ValueView;
use crate::values::spec_extended;
use crate::values::values_view;

verus! {

/// A GPU array of `N` items.
pub struct Array<T, const N: usize> {
    /// The address of the array value.
    pub value: GpuValue,
    /// Marks the item type.
    pub phantom: PhantomData<T>,
}

impl<T: Gpu, const N: usize> Gpu for Array<T, N> {
    open spec fn spec_ty() -> Ty {
        Ty::Array { item: Box::new(T::spec_ty()), len: N as int }
    }

    closed spec fn spec_value(&self) -> ValueView {
        self.value@
    }

    fn details() -> (r: GpuTypeDetails) {
        GpuTypeDetails::Array { item: Box::new(T::details()), len: N as u64 }
    }

    fn value(&self) -> (r: GpuValue) {
        self.value.clone()
    }

    fn from_value(value: GpuValue) -> (r: Self) {
        Array { value, phantom: PhantomData }
    }
}

impl<T: Gpu, const N: usize> Array<T, N> {
    /// Records the construction of an array from its `N` items and
    /// returns the handle of the fresh variable holding it.
    pub fn new(ctx: &mut GpuContext, items: Vec<T>) -> (r: Self)
        requires
            items@.len() == N,
            old(ctx).next_var_id < u32::MAX,
        ensures
            r.spec_value() == var_view(old(ctx).next_var_id, Self::spec_ty()),
            final(ctx).next_var_id == old(ctx).next_var_id + 1,
            types_view(final(ctx).types@) == types_view(old(ctx).types@) + spec_type_closure(
                Self::spec_ty(),
            ),
            ops_view(final(ctx).operations@) == ops_view(old(ctx).operations@) + seq![
                OperationView::DeclareVar {
                    id: old(ctx).next_var_id as int,
                    type_: Self::spec_ty(),
                },
                OperationView::FnCall {
                    var: var_view(old(ctx).next_var_id, Self::spec_ty()),
                    fn_name: "array"@,
                    args: items@.map_values(|item: T| item.spec_value()),
                    is_supporting_bool: false,
                },
            ],
            final(ctx).index_vars == old(ctx).index_vars,
    {
        let mut args: Vec<GpuValue> = Vec::new();
        let mut i: usize = 0;
        while i < items.len()
            invariant
                0 <= i <= items@.len(),
                args@.len() == i,
                forall|j: int| 0 <= j < i ==> #[trigger] args@[j]@ == items@[j].spec_value(),
            decreases items@.len() - i,
        {
            let v = items[i].value();
            args.push(v);
            i += 1;
        }
        proof {
            assert(values_view(args@) =~= items@.map_values(|item: T| item.spec_value()));
        }
        crate::instructions::call_fn::<Self>(ctx, "array", args, false)
    }

    /// Records the dynamic indexing of this array.  The first subscript
    /// by a given index value reduces it modulo the array length and
    /// copies the reduction once into a hidden variable, memoized for
    /// (array, index value); a later subscript of the same array by the
    /// same index value reuses that hidden variable and records nothing.
    /// Either way the item's address is the array's extended by the
    /// hidden variable.
    pub fn index(&self, ctx: &mut GpuContext, index: &crate::primitive::U32) -> (r: T)
        requires
            old(ctx).next_var_id + 3 < u32::MAX,
            N <= u32::MAX,
        ensures
            match spec_find_index_var(
                index_vars_view(old(ctx).index_vars@),
                self.spec_value(),
                index.spec_value(),
                0,
            ) {
                Some(h) => {
                    &&& r.spec_value() == spec_extended(
                        self.spec_value(),
                        GpuValueExt::IndexVarId(h as u32),
                        T::spec_ty(),
                    )
                    &&& *final(ctx) == *old(ctx)
                },
                None => {
                    &&& r.spec_value() == spec_extended(
                        self.spec_value(),
                        GpuValueExt::IndexVarId((old(ctx).next_var_id + 2) as u32),
                        T::spec_ty(),
                    )
                    &&& final(ctx).next_var_id == old(ctx).next_var_id + 3
                    &&& ops_view(final(ctx).operations@) == ops_view(old(ctx).operations@)
                        + seq![
                        OperationView::DeclareVar {
                            id: old(ctx).next_var_id as int,
                            type_: Ty::U32,
                        },
                        OperationView::ConstantAssignVar {
                            left_value: var_view(old(ctx).next_var_id, Ty::U32),
                            right_value: crate::operations::WgslView::Value(
                                crate::text::spec_dec(N as int),
                            ),
                        },
                        OperationView::DeclareVar {
                            id: old(ctx).next_var_id + 1,
                            type_: Ty::U32,
                        },
                        OperationView::Binary {
                            var: var_view((old(ctx).next_var_id + 1) as u32, Ty::U32),
                            left_value: index.spec_value(),
                            right_value: var_view(old(ctx).next_var_id, Ty::U32),
                            operator: "%"@,
                        },
                        OperationView::DeclareVar {
                            id: old(ctx).next_var_id + 2,
                            type_: Ty::U32,
                        },
                        OperationView::AssignVar {
                            left_value: var_view((old(ctx).next_var_id + 2) as u32, Ty::U32),
                            right_value: var_view((old(ctx).next_var_id + 1) as u32, Ty::U32),
                        },
                    ]
                    &&& index_vars_view(final(ctx).index_vars@) == index_vars_view(
                        old(ctx).index_vars@,
                    ).push(
                        IndexVarView {
                            parent: self.spec_value(),
                            index: index.spec_value(),
                            var_id: old(ctx).next_var_id + 2,
                        },
                    )
                    &&& types_view(final(ctx).types@) == types_view(old(ctx).types@)
                        + spec_type_closure(Ty::U32) + spec_type_closure(Ty::U32)
                        + spec_type_closure(Ty::U32)
                },
            },
    {
        let parent = self.value();
        let key = index.value();
        match ctx.find_index_var(&parent, &key) {
            Some(h) => T::from_value(parent.index(h, T::details())),
            None => {
                let len: u32 = N as u32;
                let len_gpu: crate::primitive::U32 = crate::gpu::Cpu::to_gpu(&len, ctx);
                let reduced: crate::primitive::U32 = crate::operators::apply_binary_op(
                    ctx,
                    index,
                    &len_gpu,
                    "%",
                );
                let copied = reduced.value();
                let hidden = crate::instructions::create_index_var(ctx, &parent, &key, &copied);
                T::from_value(parent.index(hidden, T::details()))
            },
        }
    }

    /// The trace recorded for a repeated-item array: a loop assigning
    /// the item to every slot of a fresh array variable, driven by a
    /// counter compared against the array length.
    pub open spec fn spec_repeated_ops(n: u32, item: ValueView, len: int) -> Seq<OperationView> {
        let arr = var_view(n, Self::spec_ty());
        let counter = var_view((n + 1) as u32, Ty::U32);
        let bound = var_view((n + 2) as u32, Ty::U32);
        let cond = var_view((n + 3) as u32, Ty::Bool);
        let modulus = var_view((n + 4) as u32, Ty::U32);
        let reduced = var_view((n + 5) as u32, Ty::U32);
        let hidden = var_view((n + 6) as u32, Ty::U32);
        let one = var_view((n + 7) as u32, Ty::U32);
        let sum = var_view((n + 8) as u32, Ty::U32);
        seq![
            OperationView::DeclareVar { id: n as int, type_: Self::spec_ty() },
            OperationView::DeclareVar { id: n + 1, type_: Ty::U32 },
            OperationView::ConstantAssignVar {
                left_value: counter,
                right_value: crate::operations::WgslView::Value(crate::text::spec_dec(0)),
            },
            OperationView::LoopBlock,
            OperationView::DeclareVar { id: n + 2, type_: Ty::U32 },
            OperationView::ConstantAssignVar {
                left_value: bound,
                right_value: crate::operations::WgslView::Value(crate::text::spec_dec(len)),
            },
            OperationView::DeclareVar { id: n + 3, type_: Ty::Bool },
            OperationView::Binary {
                var: cond,
                left_value: bound,
                right_value: counter,
                operator: ">"@,
            },
            OperationView::IfBlock { condition: cond },
            OperationView::DeclareVar { id: n + 4, type_: Ty::U32 },
            OperationView::ConstantAssignVar {
                left_value: modulus,
                right_value: crate::operations::WgslView::Value(crate::text::spec_dec(len)),
            },
            OperationView::DeclareVar { id: n + 5, type_: Ty::U32 },
            OperationView::Binary {
                var: reduced,
                left_value: counter,
                right_value: modulus,
                operator: "%"@,
            },
            OperationView::DeclareVar { id: n + 6, type_: Ty::U32 },
            OperationView::AssignVar { left_value: hidden, right_value: reduced },
            OperationView::AssignVar {
                left_value: spec_extended(
                    arr,
                    GpuValueExt::IndexVarId((n + 6) as u32),
                    T::spec_ty(),
                ),
                right_value: item,
            },
            OperationView::DeclareVar { id: n + 7, type_: Ty::U32 },
            OperationView::ConstantAssignVar {
                left_value: one,
                right_value: crate::operations::WgslView::Value(crate::text::spec_dec(1)),
            },
            OperationView::DeclareVar { id: n + 8, type_: Ty::U32 },
            OperationView::Binary {
                var: sum,
                left_value: counter,
                right_value: one,
                operator: "+"@,
            },
            OperationView::AssignVar { left_value: counter, right_value: sum },
            OperationView::ElseBlock,
            OperationView::Break,
            OperationView::EndBlock,
            OperationView::EndBlock,
        ]
    }

    /// Records the construction of an array filling every slot with one
    /// repeated item, as a recorded loop over the slots, and returns
    /// the handle of the fresh array variable.
    #[verifier::rlimit(60)]
    pub fn repeated(ctx: &mut GpuContext, item: &T) -> (r: Self)
        requires
            old(ctx).next_var_id + 9 < u32::MAX,
            N <= u32::MAX,
        ensures
            r.spec_value() == var_view(old(ctx).next_var_id, Self::spec_ty()),
            final(ctx).next_var_id == old(ctx).next_var_id + 9,
            ops_view(final(ctx).operations@) == ops_view(old(ctx).operations@)
                + Self::spec_repeated_ops(old(ctx).next_var_id, item.spec_value(), N as int),
    {
        let arr: Self = crate::instructions::create_uninit_var(ctx);
        let zero: u32 = 0;
        let counter: crate::primitive::U32 = crate::gpu::Cpu::to_gpu(&zero, ctx);
        crate::instructions::loop_block(ctx);
        let len: u32 = N as u32;
        let bound: crate::primitive::U32 = crate::gpu::Cpu::to_gpu(&len, ctx);
        let cond: crate::primitive::Bool = crate::operators::apply_binary_op(
            ctx,
            &bound,
            &counter,
            ">",
        );
        crate::instructions::if_block(ctx, &cond);
        let modulus: crate::primitive::U32 = crate::gpu::Cpu::to_gpu(&len, ctx);
        let reduced: crate::primitive::U32 = crate::operators::apply_binary_op(
            ctx,
            &counter,
            &modulus,
            "%",
        );
        let parent = arr.value();
        let key = counter.value();
        let copied = reduced.value();
        let hidden = crate::instructions::create_index_var(ctx, &parent, &key, &copied);
        let slot: T = T::from_value(parent.index(hidden, T::details()));
        crate::instructions::assign(ctx, &slot, item);
        let one: u32 = 1;
        let one_gpu: crate::primitive::U32 = crate::gpu::Cpu::to_gpu(&one, ctx);
        let sum: crate::primitive::U32 = crate::operators::apply_binary_op(
            ctx,
            &counter,
            &one_gpu,
            "+",
        );
        crate::instructions::assign(ctx, &counter, &sum);
        crate::instructions::else_block(ctx);
        crate::instructions::break_(ctx);
        crate::instructions::end_block(ctx);
        crate::instructions::end_block(ctx);
        proof {
            assert(ops_view(ctx.operations@) =~= ops_view(old(ctx).operations@)
                + Self::spec_repeated_ops(old(ctx).next_var_id, item.spec_value(), N as int));
        }
        arr
    }

    /// The number of items, materialized as a constant.
    pub fn len(&self, ctx: &mut GpuContext) -> (r: crate::primitive::U32)
        requires
            old(ctx).next_var_id < u32::MAX,
            N <= u32::MAX,
        ensures
            r.spec_value() == var_view(old(ctx).next_var_id, Ty::U32),
            final(ctx).next_var_id == old(ctx).next_var_id + 1,
            types_view(final(ctx).types@) == types_view(old(ctx).types@) + spec_type_closure(
                Ty::U32,
            ),
            ops_view(final(ctx).operations@) == ops_view(old(ctx).operations@)
                + crate::gpu::constant_ops(
                old(ctx).next_var_id,
                Ty::U32,
                crate::operations::WgslView::Value(crate::text::spec_dec(N as int)),
            ),
            final(ctx).index_vars == old(ctx).index_vars,
    {
        let len: u32 = N as u32;
        crate::gpu::Cpu::to_gpu(&len, ctx)
    }
}

} // verus!
