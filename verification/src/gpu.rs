//! The traits connecting host values and recorded GPU values.
//!
//! A [`Gpu`] type is a typed handle around a symbolic address; a [`Cpu`]
//! type is the host-side counterpart that can decode bytes read back
//! from GPU memory and render itself as constant text for the generated
//! program.

use vstd::prelude::*;
use crate::context::GpuContext;
use crate::context::spec_type_closure;
use crate::operations::OperationView;
use crate::operations::Wgsl;
use crate::operations::WgslView;
use crate::operations::ops_view;
use crate::types::GpuTypeDetails;
use crate::types::Ty;
use crate::types::types_view;
use crate::values::GpuValue;
use crate::values::GpuValueRoot;
use crate::values::ValueView;

verus! {

/// The address of the bare local variable `id`.
pub open spec fn var_view(id: u32, t: Ty) -> ValueView {
    ValueView { type_: t, root: GpuValueRoot::Var(id), extensions: Seq::empty() }
}

/// The address of the bare global slot `id`.
pub open spec fn glob_view(id: u64, t: Ty) -> ValueView {
    ValueView { type_: t, root: GpuValueRoot::Glob(id), extensions: Seq::empty() }
}

/// The two instructions that materialize a constant into a fresh
/// variable: its declaration, then the constant assignment.
pub open spec fn constant_ops(id: u32, t: Ty, text: WgslView) -> Seq<OperationView> {
    seq![
        OperationView::DeclareVar { id: id as int, type_: t },
        OperationView::ConstantAssignVar { left_value: var_view(id, t), right_value: text },
    ]
}

/// A trait implemented for GPU types that have a corresponding CPU type.
pub trait Gpu: Sized {
    /// The model of this GPU type.
    spec fn spec_ty() -> Ty;

    /// The address this handle denotes.
    spec fn spec_value(&self) -> ValueView;

    /// The structural description of this type.
    fn details() -> (r: GpuTypeDetails)
        ensures
            r@ == Self::spec_ty(),
    ;

    /// The address of this handle's value.
    fn value(&self) -> (r: GpuValue)
        ensures
            r@ == self.spec_value(),
    ;

    /// The handle for a value stored at the given address.
    fn from_value(value: GpuValue) -> (r: Self)
        ensures
            r.spec_value() == value@,
    ;
}

/// The two instructions that apply a unary operator: the result
/// variable's declaration, then the application.
pub open spec fn unary_op_ops(
    id: u32,
    t: Ty,
    operand: ValueView,
    operator: Seq<char>,
) -> Seq<OperationView> {
    seq![
        OperationView::DeclareVar { id: id as int, type_: t },
        OperationView::Unary { var: var_view(id, t), value: operand, operator },
    ]
}

/// The two instructions that apply a binary operator: the result
/// variable's declaration, then the application.
pub open spec fn binary_op_ops(
    id: u32,
    t: Ty,
    left: ValueView,
    right: ValueView,
    operator: Seq<char>,
) -> Seq<OperationView> {
    seq![
        OperationView::DeclareVar { id: id as int, type_: t },
        OperationView::Binary { var: var_view(id, t), left_value: left, right_value: right, operator },
    ]
}

/// A trait implemented for GPU types whose items can be visited by a
/// counted loop.  Each implementation says, as spec functions, exactly
/// which instructions its `len` and `next` record and where their
/// results end, so that generic code lowering a counted loop can reason
/// about the recorded trace without knowing the iterable's type.
pub trait Iterable: Sized {
    /// The item type.
    type Item;

    /// How many variable ids `len` allocates.
    spec fn spec_len_vars(&self) -> int;

    /// The trace `len` records, starting at the fresh id `n`.
    spec fn spec_len_ops(&self, n: u32) -> Seq<OperationView>;

    /// The address `len`'s result ends at.
    spec fn spec_len_result(&self, n: u32) -> ValueView;

    /// The types `len` registers, in order.
    spec fn spec_len_types(&self) -> Seq<Ty>;

    /// How many variable ids `next` allocates.
    spec fn spec_next_vars(&self) -> int;

    /// The trace `next` records over the iteration index, starting at
    /// the fresh id `n`.
    spec fn spec_next_ops(&self, index: ValueView, n: u32) -> Seq<OperationView>;

    /// The address `next`'s result ends at.
    spec fn spec_next_result(&self, n: u32) -> ValueView;

    /// The types `next` registers, in order.
    spec fn spec_next_types(&self) -> Seq<Ty>;

    /// Records the computation of the item at the iteration `index`.
    fn next(&self, ctx: &mut GpuContext, index: &crate::primitive::U32) -> (r: Self::Item)
        requires
            0 <= self.spec_next_vars(),
            old(ctx).next_var_id + self.spec_next_vars() < u32::MAX,
        ensures
            final(ctx).next_var_id == old(ctx).next_var_id + self.spec_next_vars(),
            ops_view(final(ctx).operations@) == ops_view(old(ctx).operations@)
                + self.spec_next_ops(index.spec_value(), old(ctx).next_var_id),
            types_view(final(ctx).types@) == types_view(old(ctx).types@)
                + self.spec_next_types(),
            final(ctx).index_vars == old(ctx).index_vars,
    ;

    /// Records the computation of the number of items.
    fn len(&self, ctx: &mut GpuContext) -> (r: crate::primitive::U32)
        requires
            0 <= self.spec_len_vars(),
            old(ctx).next_var_id + self.spec_len_vars() < u32::MAX,
        ensures
            r.spec_value() == self.spec_len_result(old(ctx).next_var_id),
            final(ctx).next_var_id == old(ctx).next_var_id + self.spec_len_vars(),
            ops_view(final(ctx).operations@) == ops_view(old(ctx).operations@)
                + self.spec_len_ops(old(ctx).next_var_id),
            types_view(final(ctx).types@) == types_view(old(ctx).types@)
                + self.spec_len_types(),
            final(ctx).index_vars == old(ctx).index_vars,
    ;

    /// Records whether the iterable holds no item: its length compared
    /// against a materialized zero.
    fn is_empty(&self, ctx: &mut GpuContext) -> (r: crate::primitive::Bool)
        requires
            0 <= self.spec_len_vars(),
            old(ctx).next_var_id + self.spec_len_vars() + 2 < u32::MAX,
        ensures
            r.spec_value() == var_view(
                (old(ctx).next_var_id + self.spec_len_vars() + 1) as u32,
                Ty::Bool,
            ),
            final(ctx).next_var_id == old(ctx).next_var_id + self.spec_len_vars() + 2,
            ops_view(final(ctx).operations@) == ops_view(old(ctx).operations@)
                + self.spec_len_ops(old(ctx).next_var_id) + constant_ops(
                (old(ctx).next_var_id + self.spec_len_vars()) as u32,
                Ty::U32,
                WgslView::Value(crate::text::spec_dec(0)),
            ) + binary_op_ops(
                (old(ctx).next_var_id + self.spec_len_vars() + 1) as u32,
                Ty::Bool,
                self.spec_len_result(old(ctx).next_var_id),
                var_view((old(ctx).next_var_id + self.spec_len_vars()) as u32, Ty::U32),
                "=="@,
            ),
            types_view(final(ctx).types@) == types_view(old(ctx).types@)
                + self.spec_len_types() + seq![Ty::U32, Ty::Bool],
            final(ctx).index_vars == old(ctx).index_vars,
    {
        let length = self.len(ctx);
        let zero: u32 = 0;
        let zero_gpu: crate::primitive::U32 = Cpu::to_gpu(&zero, ctx);
        let r: crate::primitive::Bool = crate::operators::apply_binary_op(
            ctx,
            &length,
            &zero_gpu,
            "==",
        );
        proof {
            assert(ops_view(ctx.operations@) =~= ops_view(old(ctx).operations@)
                + self.spec_len_ops(old(ctx).next_var_id) + constant_ops(
                (old(ctx).next_var_id + self.spec_len_vars()) as u32,
                Ty::U32,
                WgslView::Value(crate::text::spec_dec(0)),
            ) + binary_op_ops(
                (old(ctx).next_var_id + self.spec_len_vars() + 1) as u32,
                Ty::Bool,
                self.spec_len_result(old(ctx).next_var_id),
                var_view((old(ctx).next_var_id + self.spec_len_vars()) as u32, Ty::U32),
                "=="@,
            ));
            assert(types_view(ctx.types@) =~= types_view(old(ctx).types@)
                + self.spec_len_types() + seq![Ty::U32, Ty::Bool]);
        }
        r
    }
}

/// A trait implemented for Rust types that have a corresponding GPU type.
pub trait Cpu: Sized {
    /// The GPU type.
    type Gpu: Gpu;

    /// How many bytes of GPU memory a value of this type occupies.
    spec fn spec_byte_len() -> int;

    /// The value the given GPU bytes decode to.
    spec fn spec_from_gpu(bytes: Seq<u8>) -> Self;

    /// The constant fragment this value materializes as.
    spec fn spec_wgsl(&self) -> WgslView;

    /// Decodes a value read back from GPU memory.
    fn from_gpu(bytes: &[u8]) -> (r: Self)
        requires
            bytes@.len() >= Self::spec_byte_len(),
        ensures
            r == Self::spec_from_gpu(bytes@),
    ;

    /// The constant text of this value in generated code.
    fn to_wgsl(&self) -> (r: Wgsl)
        ensures
            r@ == self.spec_wgsl(),
    ;

    /// Materializes this value as a constant assigned to a fresh GPU
    /// variable, recording the declaration and the assignment.
    fn to_gpu(&self, ctx: &mut GpuContext) -> (r: Self::Gpu)
        requires
            old(ctx).next_var_id < u32::MAX,
        ensures
            r.spec_value() == var_view(old(ctx).next_var_id, <Self::Gpu as Gpu>::spec_ty()),
            final(ctx).next_var_id == old(ctx).next_var_id + 1,
            types_view(final(ctx).types@) == types_view(old(ctx).types@) + spec_type_closure(
                <Self::Gpu as Gpu>::spec_ty(),
            ),
            ops_view(final(ctx).operations@) == ops_view(old(ctx).operations@) + constant_ops(
                old(ctx).next_var_id,
                <Self::Gpu as Gpu>::spec_ty(),
                self.spec_wgsl(),
            ),
            final(ctx).index_vars == old(ctx).index_vars,
    ;
}

} // verus!
