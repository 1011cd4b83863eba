//! The 32-bit scalar GPU types and their host counterparts.
//!
//! Booleans live in GPU memory as 32-bit words — zero for false, one for
//! true — so the boolean GPU type renders as the target's `u32` and is
//! converted at every boundary where the target expects a real boolean.

use vstd::prelude::*;
use vstd::bytes::spec_u32_from_le_bytes;
use vstd::bytes::u32_from_le_bytes;
use vstd::slice::slice_subrange;
use crate::context::GpuContext;
use crate::gpu::Cpu;
use crate::gpu::Gpu;
use crate::operations::Wgsl;
use crate::operations::WgslView;
use crate::text::spec_dec;
use crate::text::spec_signed_dec;
use crate::text::i64_text;
use crate::text::u64_text;
use crate::types::GpuTypeDetails;
use crate::types::Ty;
use crate::values::GpuValue;
use crate::values::ValueView;

verus! {

/// The `i32` type on GPU side.
pub struct I32 {
    pub value: GpuValue,
}

/// The `u32` type on GPU side.
pub struct U32 {
    pub value: GpuValue,
}

/// The `f32` type on GPU side.
pub struct F32 {
    pub value: GpuValue,
}

/// The `bool` type on GPU side, stored as a 32-bit word.
pub struct Bool {
    pub value: GpuValue,
}

impl Gpu for I32 {
    open spec fn spec_ty() -> Ty {
        Ty::I32
    }

    open spec fn spec_value(&self) -> ValueView {
        self.value@
    }

    fn details() -> (r: GpuTypeDetails) {
        GpuTypeDetails::I32
    }

    fn value(&self) -> (r: GpuValue) {
        self.value.clone()
    }

    fn from_value(value: GpuValue) -> (r: Self) {
        I32 { value }
    }
}

impl Gpu for U32 {
    open spec fn spec_ty() -> Ty {
        Ty::U32
    }

    open spec fn spec_value(&self) -> ValueView {
        self.value@
    }

    fn details() -> (r: GpuTypeDetails) {
        GpuTypeDetails::U32
    }

    fn value(&self) -> (r: GpuValue) {
        self.value.clone()
    }

    fn from_value(value: GpuValue) -> (r: Self) {
        U32 { value }
    }
}

impl Gpu for F32 {
    open spec fn spec_ty() -> Ty {
        Ty::F32
    }

    open spec fn spec_value(&self) -> ValueView {
        self.value@
    }

    fn details() -> (r: GpuTypeDetails) {
        GpuTypeDetails::F32
    }

    fn value(&self) -> (r: GpuValue) {
        self.value.clone()
    }

    fn from_value(value: GpuValue) -> (r: Self) {
        F32 { value }
    }
}

impl Gpu for Bool {
    open spec fn spec_ty() -> Ty {
        Ty::Bool
    }

    open spec fn spec_value(&self) -> ValueView {
        self.value@
    }

    fn details() -> (r: GpuTypeDetails) {
        GpuTypeDetails::Bool
    }

    fn value(&self) -> (r: GpuValue) {
        self.value.clone()
    }

    fn from_value(value: GpuValue) -> (r: Self) {
        Bool { value }
    }
}

impl Bool {
    /// Records the non-short-circuiting logical AND of the two values.
    pub fn and(&self, other: &Self, ctx: &mut GpuContext) -> (r: Self)
        requires
            old(ctx).next_var_id < u32::MAX,
        ensures
            r.spec_value() == crate::gpu::var_view(old(ctx).next_var_id, Ty::Bool),
            final(ctx).next_var_id == old(ctx).next_var_id + 1,
            crate::types::types_view(final(ctx).types@) == crate::types::types_view(
                old(ctx).types@,
            ) + crate::context::spec_type_closure(Ty::Bool),
            crate::operations::ops_view(final(ctx).operations@) == crate::operations::ops_view(
                old(ctx).operations@,
            ) + seq![
                crate::operations::OperationView::DeclareVar {
                    id: old(ctx).next_var_id as int,
                    type_: Ty::Bool,
                },
                crate::operations::OperationView::Binary {
                    var: crate::gpu::var_view(old(ctx).next_var_id, Ty::Bool),
                    left_value: self.spec_value(),
                    right_value: other.spec_value(),
                    operator: "&&"@,
                },
            ],
            final(ctx).index_vars == old(ctx).index_vars,
    {
        crate::operators::apply_binary_op::<Bool, Bool, Bool>(ctx, self, other, "&&")
    }

    /// Records the non-short-circuiting logical OR of the two values.
    pub fn or(&self, other: &Self, ctx: &mut GpuContext) -> (r: Self)
        requires
            old(ctx).next_var_id < u32::MAX,
        ensures
            r.spec_value() == crate::gpu::var_view(old(ctx).next_var_id, Ty::Bool),
            final(ctx).next_var_id == old(ctx).next_var_id + 1,
            crate::types::types_view(final(ctx).types@) == crate::types::types_view(
                old(ctx).types@,
            ) + crate::context::spec_type_closure(Ty::Bool),
            crate::operations::ops_view(final(ctx).operations@) == crate::operations::ops_view(
                old(ctx).operations@,
            ) + seq![
                crate::operations::OperationView::DeclareVar {
                    id: old(ctx).next_var_id as int,
                    type_: Ty::Bool,
                },
                crate::operations::OperationView::Binary {
                    var: crate::gpu::var_view(old(ctx).next_var_id, Ty::Bool),
                    left_value: self.spec_value(),
                    right_value: other.spec_value(),
                    operator: "||"@,
                },
            ],
            final(ctx).index_vars == old(ctx).index_vars,
    {
        crate::operators::apply_binary_op::<Bool, Bool, Bool>(ctx, self, other, "||")
    }
}

impl Cpu for i32 {
    type Gpu = I32;

    open spec fn spec_byte_len() -> int {
        4
    }

    open spec fn spec_from_gpu(bytes: Seq<u8>) -> Self {
        spec_u32_from_le_bytes(bytes.subrange(0, 4)) as i32
    }

    open spec fn spec_wgsl(&self) -> WgslView {
        WgslView::Value(spec_signed_dec(*self as int))
    }

    fn from_gpu(bytes: &[u8]) -> (r: Self) {
        let word = u32_from_le_bytes(slice_subrange(bytes, 0, 4));
        let r = #[verifier::truncate] (word as i32);
        proof {
            assert(r == Self::spec_from_gpu(bytes@));
        }
        r
    }

    fn to_wgsl(&self) -> (r: Wgsl) {
        Wgsl::Value(i64_text(*self as i64))
    }

    fn to_gpu(&self, ctx: &mut GpuContext) -> (r: I32) {
        crate::instructions::materialize_constant::<I32>(ctx, self.to_wgsl())
    }
}

impl Cpu for u32 {
    type Gpu = U32;

    open spec fn spec_byte_len() -> int {
        4
    }

    open spec fn spec_from_gpu(bytes: Seq<u8>) -> Self {
        spec_u32_from_le_bytes(bytes.subrange(0, 4))
    }

    open spec fn spec_wgsl(&self) -> WgslView {
        WgslView::Value(spec_dec(*self as int))
    }

    fn from_gpu(bytes: &[u8]) -> (r: Self) {
        u32_from_le_bytes(slice_subrange(bytes, 0, 4))
    }

    fn to_wgsl(&self) -> (r: Wgsl) {
        let text = u64_text(*self as u64);
        let ghost text_view = text@;
        let r = Wgsl::Value(text);
        proof {
            assert(r@ == WgslView::Value(text_view));
            assert(text_view == spec_dec(*self as int));
            assert(self.spec_wgsl() == WgslView::Value(spec_dec(*self as int)));
        }
        r
    }

    fn to_gpu(&self, ctx: &mut GpuContext) -> (r: U32) {
        crate::instructions::materialize_constant::<U32>(ctx, self.to_wgsl())
    }
}

impl Cpu for bool {
    type Gpu = Bool;

    open spec fn spec_byte_len() -> int {
        4
    }

    open spec fn spec_from_gpu(bytes: Seq<u8>) -> Self {
        spec_u32_from_le_bytes(bytes.subrange(0, 4)) != 0
    }

    open spec fn spec_wgsl(&self) -> WgslView {
        WgslView::Value(spec_dec(if *self { 1int } else { 0int }))
    }

    fn from_gpu(bytes: &[u8]) -> (r: Self) {
        u32_from_le_bytes(slice_subrange(bytes, 0, 4)) != 0
    }

    fn to_wgsl(&self) -> (r: Wgsl) {
        if *self {
            Wgsl::Value(u64_text(1))
        } else {
            Wgsl::Value(u64_text(0))
        }
    }

    fn to_gpu(&self, ctx: &mut GpuContext) -> (r: Bool) {
        crate::instructions::materialize_constant::<Bool>(ctx, self.to_wgsl())
    }
}

} // verus!
