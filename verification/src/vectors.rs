//! Vector GPU types: 2 to 4 lanes of one scalar type.
//!
//! A lane is addressed by its position, rendered as the target's
//! `.x`/`.y`/`.z`/`.w` accessors.

use vstd::prelude::*;
use crate::context::GpuContext;
use crate::context::spec_type_closure;
use crate::gpu::Gpu;
use crate::gpu::var_view;
use crate::operations::OperationView;
use crate::operations::ops_view;
use crate::primitive::F32;
use crate::primitive::I32;
use crate::primitive::U32;
use crate::types::GpuTypeDetails;
use crate::types::ScalarKind;
use crate::types::Ty;
use crate::types::types_view;
use crate::values::GpuValue;
use crate::values::GpuValueExt;
use crate::values::ValueView;
use crate::values::spec_extended;

verus! {

/// A GPU vector of two `i32` lanes.
pub struct I32x2 {
    /// The first lane.
    pub x: I32,
    /// The second lane.
    pub y: I32,
    /// The address of the whole vector value.
    pub value: GpuValue,
}

impl Gpu for I32x2 {
    open spec fn spec_ty() -> Ty {
        Ty::Vector { lanes: 2, scalar: ScalarKind::I32 }
    }

    closed spec fn spec_value(&self) -> ValueView {
        self.value@
    }

    fn details() -> (r: GpuTypeDetails) {
        GpuTypeDetails::Vector { lanes: 2, scalar: ScalarKind::I32 }
    }

    fn value(&self) -> (r: GpuValue) {
        self.value.clone()
    }

    fn from_value(value: GpuValue) -> (r: Self)
        ensures
            r.x.spec_value() == spec_extended(
                value@,
                GpuValueExt::VecFieldPosition(0),
                Ty::I32,
            ),
            r.y.spec_value() == spec_extended(
                value@,
                GpuValueExt::VecFieldPosition(1),
                Ty::I32,
            ),
    {
        let x = I32::from_value(value.clone().vec_field(0, GpuTypeDetails::I32));
        let y = I32::from_value(value.clone().vec_field(1, GpuTypeDetails::I32));
        I32x2 { x, y, value }
    }
}

impl I32x2 {
    /// The handle of the vector global slot `id`, its lane handles
    /// addressing the slot's lanes.
    pub fn glob(id: u64) -> (r: Self)
        ensures
            r.spec_value() == crate::gpu::glob_view(id, Self::spec_ty()),
            r.x.spec_value() == spec_extended(
                crate::gpu::glob_view(id, Self::spec_ty()),
                GpuValueExt::VecFieldPosition(0),
                Ty::I32,
            ),
            r.y.spec_value() == spec_extended(
                crate::gpu::glob_view(id, Self::spec_ty()),
                GpuValueExt::VecFieldPosition(1),
                Ty::I32,
            ),
    {
        Self::from_value(GpuValue::glob(id, Self::details()))
    }

    /// Records the construction of a vector from its lanes and returns
    /// the handle of the fresh variable holding it.
    pub fn new(ctx: &mut GpuContext, x: &I32, y: &I32) -> (r: Self)
        requires
            old(ctx).next_var_id < u32::MAX,
        ensures
            r.spec_value() == var_view(old(ctx).next_var_id, Self::spec_ty()),
            final(ctx).next_var_id == old(ctx).next_var_id + 1,
            types_view(final(ctx).types@) == types_view(old(ctx).types@) + spec_type_closure(
                Self::spec_ty(),
            ),
            ops_view(final(ctx).operations@) == ops_view(old(ctx).operations@) + seq![
                OperationView::DeclareVar {
                    id: old(ctx).next_var_id as int,
                    type_: Self::spec_ty(),
                },
                OperationView::AssignVar {
                    left_value: spec_extended(
                        var_view(old(ctx).next_var_id, Self::spec_ty()),
                        GpuValueExt::VecFieldPosition(0),
                        Ty::I32,
                    ),
                    right_value: x.spec_value(),
                },
                OperationView::AssignVar {
                    left_value: spec_extended(
                        var_view(old(ctx).next_var_id, Self::spec_ty()),
                        GpuValueExt::VecFieldPosition(1),
                        Ty::I32,
                    ),
                    right_value: y.spec_value(),
                },
            ],
            final(ctx).index_vars == old(ctx).index_vars,
    {
        let uninit: Self = crate::instructions::create_uninit_var(ctx);
        let var = Self::from_value(uninit.value());
        crate::instructions::assign(ctx, &var.x, x);
        crate::instructions::assign(ctx, &var.y, y);
        proof {
            assert(ops_view(ctx.operations@) =~= ops_view(old(ctx).operations@) + seq![
                OperationView::DeclareVar {
                    id: old(ctx).next_var_id as int,
                    type_: Self::spec_ty(),
                },
                OperationView::AssignVar {
                    left_value: spec_extended(
                        var_view(old(ctx).next_var_id, Self::spec_ty()),
                        GpuValueExt::VecFieldPosition(0),
                        Ty::I32,
                    ),
                    right_value: x.spec_value(),
                },
                OperationView::AssignVar {
                    left_value: spec_extended(
                        var_view(old(ctx).next_var_id, Self::spec_ty()),
                        GpuValueExt::VecFieldPosition(1),
                        Ty::I32,
                    ),
                    right_value: y.spec_value(),
                },
            ]);
        }
        var
    }
}

/// A GPU vector of three `u32` lanes.
pub struct U32x3 {
    /// The first lane.
    pub x: U32,
    /// The second lane.
    pub y: U32,
    /// The third lane.
    pub z: U32,
    /// The address of the whole vector value.
    pub value: GpuValue,
}

impl Gpu for U32x3 {
    open spec fn spec_ty() -> Ty {
        Ty::Vector { lanes: 3, scalar: ScalarKind::U32 }
    }

    closed spec fn spec_value(&self) -> ValueView {
        self.value@
    }

    fn details() -> (r: GpuTypeDetails) {
        GpuTypeDetails::Vector { lanes: 3, scalar: ScalarKind::U32 }
    }

    fn value(&self) -> (r: GpuValue) {
        self.value.clone()
    }

    fn from_value(value: GpuValue) -> (r: Self)
        ensures
            r.x.spec_value() == spec_extended(
                value@,
                GpuValueExt::VecFieldPosition(0),
                Ty::U32,
            ),
            r.y.spec_value() == spec_extended(
                value@,
                GpuValueExt::VecFieldPosition(1),
                Ty::U32,
            ),
            r.z.spec_value() == spec_extended(
                value@,
                GpuValueExt::VecFieldPosition(2),
                Ty::U32,
            ),
    {
        let x = U32::from_value(value.clone().vec_field(0, GpuTypeDetails::U32));
        let y = U32::from_value(value.clone().vec_field(1, GpuTypeDetails::U32));
        let z = U32::from_value(value.clone().vec_field(2, GpuTypeDetails::U32));
        U32x3 { x, y, z, value }
    }
}

/// A GPU vector of four `f32` lanes.
pub struct F32x4 {
    /// The first lane.
    pub x: F32,
    /// The second lane.
    pub y: F32,
    /// The third lane.
    pub z: F32,
    /// The fourth lane.
    pub w: F32,
    /// The address of the whole vector value.
    pub value: GpuValue,
}

impl Gpu for F32x4 {
    open spec fn spec_ty() -> Ty {
        Ty::Vector { lanes: 4, scalar: ScalarKind::F32 }
    }

    closed spec fn spec_value(&self) -> ValueView {
        self.value@
    }

    fn details() -> (r: GpuTypeDetails) {
        GpuTypeDetails::Vector { lanes: 4, scalar: ScalarKind::F32 }
    }

    fn value(&self) -> (r: GpuValue) {
        self.value.clone()
    }

    fn from_value(value: GpuValue) -> (r: Self)
        ensures
            r.x.spec_value() == spec_extended(
                value@,
                GpuValueExt::VecFieldPosition(0),
                Ty::F32,
            ),
            r.y.spec_value() == spec_extended(
                value@,
                GpuValueExt::VecFieldPosition(1),
                Ty::F32,
            ),
            r.z.spec_value() == spec_extended(
                value@,
                GpuValueExt::VecFieldPosition(2),
                Ty::F32,
            ),
            r.w.spec_value() == spec_extended(
                value@,
                GpuValueExt::VecFieldPosition(3),
                Ty::F32,
            ),
    {
        let x = F32::from_value(value.clone().vec_field(0, GpuTypeDetails::F32));
        let y = F32::from_value(value.clone().vec_field(1, GpuTypeDetails::F32));
        let z = F32::from_value(value.clone().vec_field(2, GpuTypeDetails::F32));
        let w = F32::from_value(value.clone().vec_field(3, GpuTypeDetails::F32));
        F32x4 { x, y, z, w, value }
    }
}


/// A GPU vector of two `u32` lanes.
pub struct U32x2 {
    /// Lane 0.
    pub x: U32,
    /// Lane 1.
    pub y: U32,
    /// The address of the whole vector value.
    pub value: GpuValue,
}

impl Gpu for U32x2 {
    open spec fn spec_ty() -> Ty {
        Ty::Vector { lanes: 2, scalar: ScalarKind::U32 }
    }

    closed spec fn spec_value(&self) -> ValueView {
        self.value@
    }

    fn details() -> (r: GpuTypeDetails) {
        GpuTypeDetails::Vector { lanes: 2, scalar: ScalarKind::U32 }
    }

    fn value(&self) -> (r: GpuValue) {
        self.value.clone()
    }

    fn from_value(value: GpuValue) -> (r: Self)
        ensures
            r.x.spec_value() == spec_extended(
                value@,
                GpuValueExt::VecFieldPosition(0),
                Ty::U32,
            ),
            r.y.spec_value() == spec_extended(
                value@,
                GpuValueExt::VecFieldPosition(1),
                Ty::U32,
            ),
    {
        let x = U32::from_value(value.clone().vec_field(0, GpuTypeDetails::U32));
        let y = U32::from_value(value.clone().vec_field(1, GpuTypeDetails::U32));
        U32x2 { x, y, value }
    }
}

/// A GPU vector of two `f32` lanes.
pub struct F32x2 {
    /// Lane 0.
    pub x: F32,
    /// Lane 1.
    pub y: F32,
    /// The address of the whole vector value.
    pub value: GpuValue,
}

impl Gpu for F32x2 {
    open spec fn spec_ty() -> Ty {
        Ty::Vector { lanes: 2, scalar: ScalarKind::F32 }
    }

    closed spec fn spec_value(&self) -> ValueView {
        self.value@
    }

    fn details() -> (r: GpuTypeDetails) {
        GpuTypeDetails::Vector { lanes: 2, scalar: ScalarKind::F32 }
    }

    fn value(&self) -> (r: GpuValue) {
        self.value.clone()
    }

    fn from_value(value: GpuValue) -> (r: Self)
        ensures
            r.x.spec_value() == spec_extended(
                value@,
                GpuValueExt::VecFieldPosition(0),
                Ty::F32,
            ),
            r.y.spec_value() == spec_extended(
                value@,
                GpuValueExt::VecFieldPosition(1),
                Ty::F32,
            ),
    {
        let x = F32::from_value(value.clone().vec_field(0, GpuTypeDetails::F32));
        let y = F32::from_value(value.clone().vec_field(1, GpuTypeDetails::F32));
        F32x2 { x, y, value }
    }
}

/// A GPU vector of three `i32` lanes.
pub struct I32x3 {
    /// Lane 0.
    pub x: I32,
    /// Lane 1.
    pub y: I32,
    /// Lane 2.
    pub z: I32,
    /// The address of the whole vector value.
    pub value: GpuValue,
}

impl Gpu for I32x3 {
    open spec fn spec_ty() -> Ty {
        Ty::Vector { lanes: 3, scalar: ScalarKind::I32 }
    }

    closed spec fn spec_value(&self) -> ValueView {
        self.value@
    }

    fn details() -> (r: GpuTypeDetails) {
        GpuTypeDetails::Vector { lanes: 3, scalar: ScalarKind::I32 }
    }

    fn value(&self) -> (r: GpuValue) {
        self.value.clone()
    }

    fn from_value(value: GpuValue) -> (r: Self)
        ensures
            r.x.spec_value() == spec_extended(
                value@,
                GpuValueExt::VecFieldPosition(0),
                Ty::I32,
            ),
            r.y.spec_value() == spec_extended(
                value@,
                GpuValueExt::VecFieldPosition(1),
                Ty::I32,
            ),
            r.z.spec_value() == spec_extended(
                value@,
                GpuValueExt::VecFieldPosition(2),
                Ty::I32,
            ),
    {
        let x = I32::from_value(value.clone().vec_field(0, GpuTypeDetails::I32));
        let y = I32::from_value(value.clone().vec_field(1, GpuTypeDetails::I32));
        let z = I32::from_value(value.clone().vec_field(2, GpuTypeDetails::I32));
        I32x3 { x, y, z, value }
    }
}

/// A GPU vector of three `f32` lanes.
pub struct F32x3 {
    /// Lane 0.
    pub x: F32,
    /// Lane 1.
    pub y: F32,
    /// Lane 2.
    pub z: F32,
    /// The address of the whole vector value.
    pub value: GpuValue,
}

impl Gpu for F32x3 {
    open spec fn spec_ty() -> Ty {
        Ty::Vector { lanes: 3, scalar: ScalarKind::F32 }
    }

    closed spec fn spec_value(&self) -> ValueView {
        self.value@
    }

    fn details() -> (r: GpuTypeDetails) {
        GpuTypeDetails::Vector { lanes: 3, scalar: ScalarKind::F32 }
    }

    fn value(&self) -> (r: GpuValue) {
        self.value.clone()
    }

    fn from_value(value: GpuValue) -> (r: Self)
        ensures
            r.x.spec_value() == spec_extended(
                value@,
                GpuValueExt::VecFieldPosition(0),
                Ty::F32,
            ),
            r.y.spec_value() == spec_extended(
                value@,
                GpuValueExt::VecFieldPosition(1),
                Ty::F32,
            ),
            r.z.spec_value() == spec_extended(
                value@,
                GpuValueExt::VecFieldPosition(2),
                Ty::F32,
            ),
    {
        let x = F32::from_value(value.clone().vec_field(0, GpuTypeDetails::F32));
        let y = F32::from_value(value.clone().vec_field(1, GpuTypeDetails::F32));
        let z = F32::from_value(value.clone().vec_field(2, GpuTypeDetails::F32));
        F32x3 { x, y, z, value }
    }
}

/// A GPU vector of four `i32` lanes.
pub struct I32x4 {
    /// Lane 0.
    pub x: I32,
    /// Lane 1.
    pub y: I32,
    /// Lane 2.
    pub z: I32,
    /// Lane 3.
    pub w: I32,
    /// The address of the whole vector value.
    pub value: GpuValue,
}

impl Gpu for I32x4 {
    open spec fn spec_ty() -> Ty {
        Ty::Vector { lanes: 4, scalar: ScalarKind::I32 }
    }

    closed spec fn spec_value(&self) -> ValueView {
        self.value@
    }

    fn details() -> (r: GpuTypeDetails) {
        GpuTypeDetails::Vector { lanes: 4, scalar: ScalarKind::I32 }
    }

    fn value(&self) -> (r: GpuValue) {
        self.value.clone()
    }

    fn from_value(value: GpuValue) -> (r: Self)
        ensures
            r.x.spec_value() == spec_extended(
                value@,
                GpuValueExt::VecFieldPosition(0),
                Ty::I32,
            ),
            r.y.spec_value() == spec_extended(
                value@,
                GpuValueExt::VecFieldPosition(1),
                Ty::I32,
            ),
            r.z.spec_value() == spec_extended(
                value@,
                GpuValueExt::VecFieldPosition(2),
                Ty::I32,
            ),
            r.w.spec_value() == spec_extended(
                value@,
                GpuValueExt::VecFieldPosition(3),
                Ty::I32,
            ),
    {
        let x = I32::from_value(value.clone().vec_field(0, GpuTypeDetails::I32));
        let y = I32::from_value(value.clone().vec_field(1, GpuTypeDetails::I32));
        let z = I32::from_value(value.clone().vec_field(2, GpuTypeDetails::I32));
        let w = I32::from_value(value.clone().vec_field(3, GpuTypeDetails::I32));
        I32x4 { x, y, z, w, value }
    }
}

/// A GPU vector of four `u32` lanes.
pub struct U32x4 {
    /// Lane 0.
    pub x: U32,
    /// Lane 1.
    pub y: U32,
    /// Lane 2.
    pub z: U32,
    /// Lane 3.
    pub w: U32,
    /// The address of the whole vector value.
    pub value: GpuValue,
}

impl Gpu for U32x4 {
    open spec fn spec_ty() -> Ty {
        Ty::Vector { lanes: 4, scalar: ScalarKind::U32 }
    }

    closed spec fn spec_value(&self) -> ValueView {
        self.value@
    }

    fn details() -> (r: GpuTypeDetails) {
        GpuTypeDetails::Vector { lanes: 4, scalar: ScalarKind::U32 }
    }

    fn value(&self) -> (r: GpuValue) {
        self.value.clone()
    }

    fn from_value(value: GpuValue) -> (r: Self)
        ensures
            r.x.spec_value() == spec_extended(
                value@,
                GpuValueExt::VecFieldPosition(0),
                Ty::U32,
            ),
            r.y.spec_value() == spec_extended(
                value@,
                GpuValueExt::VecFieldPosition(1),
                Ty::U32,
            ),
            r.z.spec_value() == spec_extended(
                value@,
                GpuValueExt::VecFieldPosition(2),
                Ty::U32,
            ),
            r.w.spec_value() == spec_extended(
                value@,
                GpuValueExt::VecFieldPosition(3),
                Ty::U32,
            ),
    {
        let x = U32::from_value(value.clone().vec_field(0, GpuTypeDetails::U32));
        let y = U32::from_value(value.clone().vec_field(1, GpuTypeDetails::U32));
        let z = U32::from_value(value.clone().vec_field(2, GpuTypeDetails::U32));
        let w = U32::from_value(value.clone().vec_field(3, GpuTypeDetails::U32));
        U32x4 { x, y, z, w, value }
    }
}

impl U32x3 {
    /// The handle of the vector global slot `id`, its lane handles
    /// addressing the slot's lanes.
    pub fn glob(id: u64) -> (r: Self)
        ensures
            r.spec_value() == crate::gpu::glob_view(id, Self::spec_ty()),
            r.x.spec_value() == spec_extended(
                crate::gpu::glob_view(id, Self::spec_ty()),
                GpuValueExt::VecFieldPosition(0),
                Ty::U32,
            ),
            r.z.spec_value() == spec_extended(
                crate::gpu::glob_view(id, Self::spec_ty()),
                GpuValueExt::VecFieldPosition(2),
                Ty::U32,
            ),
    {
        Self::from_value(GpuValue::glob(id, Self::details()))
    }

    /// Records the construction of a vector from its lanes and returns
    /// the handle of the fresh variable holding it.
    pub fn new(ctx: &mut GpuContext, x: &U32, y: &U32, z: &U32) -> (r: Self)
        requires
            old(ctx).next_var_id < u32::MAX,
        ensures
            r.spec_value() == var_view(old(ctx).next_var_id, Self::spec_ty()),
            final(ctx).next_var_id == old(ctx).next_var_id + 1,
            types_view(final(ctx).types@) == types_view(old(ctx).types@) + spec_type_closure(
                Self::spec_ty(),
            ),
            ops_view(final(ctx).operations@) == ops_view(old(ctx).operations@) + seq![
                OperationView::DeclareVar {
                    id: old(ctx).next_var_id as int,
                    type_: Self::spec_ty(),
                },
                OperationView::AssignVar {
                    left_value: spec_extended(
                        var_view(old(ctx).next_var_id, Self::spec_ty()),
                        GpuValueExt::VecFieldPosition(0),
                        Ty::U32,
                    ),
                    right_value: x.spec_value(),
                },
                OperationView::AssignVar {
                    left_value: spec_extended(
                        var_view(old(ctx).next_var_id, Self::spec_ty()),
                        GpuValueExt::VecFieldPosition(1),
                        Ty::U32,
                    ),
                    right_value: y.spec_value(),
                },
                OperationView::AssignVar {
                    left_value: spec_extended(
                        var_view(old(ctx).next_var_id, Self::spec_ty()),
                        GpuValueExt::VecFieldPosition(2),
                        Ty::U32,
                    ),
                    right_value: z.spec_value(),
                },
            ],
            final(ctx).index_vars == old(ctx).index_vars,
    {
        let uninit: Self = crate::instructions::create_uninit_var(ctx);
        let var = Self::from_value(uninit.value());
        crate::instructions::assign(ctx, &var.x, x);
        crate::instructions::assign(ctx, &var.y, y);
        crate::instructions::assign(ctx, &var.z, z);
        proof {
            assert(ops_view(ctx.operations@) =~= ops_view(old(ctx).operations@) + seq![
                OperationView::DeclareVar {
                    id: old(ctx).next_var_id as int,
                    type_: Self::spec_ty(),
                },
                OperationView::AssignVar {
                    left_value: spec_extended(
                        var_view(old(ctx).next_var_id, Self::spec_ty()),
                        GpuValueExt::VecFieldPosition(0),
                        Ty::U32,
                    ),
                    right_value: x.spec_value(),
                },
                OperationView::AssignVar {
                    left_value: spec_extended(
                        var_view(old(ctx).next_var_id, Self::spec_ty()),
                        GpuValueExt::VecFieldPosition(1),
                        Ty::U32,
                    ),
                    right_value: y.spec_value(),
                },
                OperationView::AssignVar {
                    left_value: spec_extended(
                        var_view(old(ctx).next_var_id, Self::spec_ty()),
                        GpuValueExt::VecFieldPosition(2),
                        Ty::U32,
                    ),
                    right_value: z.spec_value(),
                },
            ]);
        }
        var
    }
}

impl F32x4 {
    /// The handle of the vector global slot `id`, its lane handles
    /// addressing the slot's lanes.
    pub fn glob(id: u64) -> (r: Self)
        ensures
            r.spec_value() == crate::gpu::glob_view(id, Self::spec_ty()),
            r.x.spec_value() == spec_extended(
                crate::gpu::glob_view(id, Self::spec_ty()),
                GpuValueExt::VecFieldPosition(0),
                Ty::F32,
            ),
            r.w.spec_value() == spec_extended(
                crate::gpu::glob_view(id, Self::spec_ty()),
                GpuValueExt::VecFieldPosition(3),
                Ty::F32,
            ),
    {
        Self::from_value(GpuValue::glob(id, Self::details()))
    }

    /// Records the construction of a vector from its lanes and returns
    /// the handle of the fresh variable holding it.
    pub fn new(ctx: &mut GpuContext, x: &F32, y: &F32, z: &F32, w: &F32) -> (r: Self)
        requires
            old(ctx).next_var_id < u32::MAX,
        ensures
            r.spec_value() == var_view(old(ctx).next_var_id, Self::spec_ty()),
            final(ctx).next_var_id == old(ctx).next_var_id + 1,
            types_view(final(ctx).types@) == types_view(old(ctx).types@) + spec_type_closure(
                Self::spec_ty(),
            ),
            ops_view(final(ctx).operations@) == ops_view(old(ctx).operations@) + seq![
                OperationView::DeclareVar {
                    id: old(ctx).next_var_id as int,
                    type_: Self::spec_ty(),
                },
                OperationView::AssignVar {
                    left_value: spec_extended(
                        var_view(old(ctx).next_var_id, Self::spec_ty()),
                        GpuValueExt::VecFieldPosition(0),
                        Ty::F32,
                    ),
                    right_value: x.spec_value(),
                },
                OperationView::AssignVar {
                    left_value: spec_extended(
                        var_view(old(ctx).next_var_id, Self::spec_ty()),
                        GpuValueExt::VecFieldPosition(1),
                        Ty::F32,
                    ),
                    right_value: y.spec_value(),
                },
                OperationView::AssignVar {
                    left_value: spec_extended(
                        var_view(old(ctx).next_var_id, Self::spec_ty()),
                        GpuValueExt::VecFieldPosition(2),
                        Ty::F32,
                    ),
                    right_value: z.spec_value(),
                },
                OperationView::AssignVar {
                    left_value: spec_extended(
                        var_view(old(ctx).next_var_id, Self::spec_ty()),
                        GpuValueExt::VecFieldPosition(3),
                        Ty::F32,
                    ),
                    right_value: w.spec_value(),
                },
            ],
            final(ctx).index_vars == old(ctx).index_vars,
    {
        let uninit: Self = crate::instructions::create_uninit_var(ctx);
        let var = Self::from_value(uninit.value());
        crate::instructions::assign(ctx, &var.x, x);
        crate::instructions::assign(ctx, &var.y, y);
        crate::instructions::assign(ctx, &var.z, z);
        crate::instructions::assign(ctx, &var.w, w);
        proof {
            assert(ops_view(ctx.operations@) =~= ops_view(old(ctx).operations@) + seq![
                OperationView::DeclareVar {
                    id: old(ctx).next_var_id as int,
                    type_: Self::spec_ty(),
                },
                OperationView::AssignVar {
                    left_value: spec_extended(
                        var_view(old(ctx).next_var_id, Self::spec_ty()),
                        GpuValueExt::VecFieldPosition(0),
                        Ty::F32,
                    ),
                    right_value: x.spec_value(),
                },
                OperationView::AssignVar {
                    left_value: spec_extended(
                        var_view(old(ctx).next_var_id, Self::spec_ty()),
                        GpuValueExt::VecFieldPosition(1),
                        Ty::F32,
                    ),
                    right_value: y.spec_value(),
                },
                OperationView::AssignVar {
                    left_value: spec_extended(
                        var_view(old(ctx).next_var_id, Self::spec_ty()),
                        GpuValueExt::VecFieldPosition(2),
                        Ty::F32,
                    ),
                    right_value: z.spec_value(),
                },
                OperationView::AssignVar {
                    left_value: spec_extended(
                        var_view(old(ctx).next_var_id, Self::spec_ty()),
                        GpuValueExt::VecFieldPosition(3),
                        Ty::F32,
                    ),
                    right_value: w.spec_value(),
                },
            ]);
        }
        var
    }
}

} // verus!
