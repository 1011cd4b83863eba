//! The application object: registries, recorded kernels, and the
//! generated program.
//!
//! An [`App`] collects the ordered global list, the deduplicated type
//! registry and one recorded context per kernel, plus the initialization
//! context that assigns every global its default value before any kernel
//! runs.  From these it renders the initialization shader and one update
//! shader per kernel, and computes the byte range of any registered
//! global inside the shared storage buffer, so that a device layer can
//! execute the program and hand raw bytes back.

use vstd::prelude::*;
use vstd::string::StringExecFns;
use crate::context::GpuContext;
use crate::context::spec_type_closure;
use crate::gpu::Gpu;
use crate::operations::OperationView;
use crate::operations::ops_view;
use crate::types::GpuTypeDetails;
use crate::types::MAX_TYPE_SIZE;
use crate::types::Ty;
use crate::types::spec_field_offset;
use crate::types::spec_size;
use crate::types::ty_wf;
use crate::types::types_view;
use crate::values::GpuValue;
use crate::values::ValueView;
use crate::values::values_view;
use crate::values::spec_glob_index;
use crate::wgsl::op_renderable;
use crate::wgsl::spec_compute_shader_code;
use crate::wgsl::ty_resolvable;
use crate::wgsl::spec_header_code;
use crate::wgsl::spec_type_index;

verus! {

/// The registry after recording the first `n` of `incoming` in order,
/// keeping only the first occurrence of every type.
pub open spec fn spec_merge_types(registry: Seq<Ty>, incoming: Seq<Ty>, n: int) -> Seq<Ty>
    decreases n,
{
    if n <= 0 || n > incoming.len() {
        registry
    } else {
        let merged = spec_merge_types(registry, incoming, n - 1);
        if spec_type_index(merged, incoming[n - 1], 0) is Some {
            merged
        } else {
            merged.push(incoming[n - 1])
        }
    }
}

/// The types of the registered globals, in registration order: the
/// fields of the shared storage record.
pub open spec fn spec_glob_types(globs: Seq<ValueView>) -> Seq<Ty> {
    globs.map_values(|g: ValueView| g.type_)
}

/// The entrypoint of an application using recorded GPU kernels.
pub struct App {
    /// One recorded context per kernel, in registration order.
    pub contexts: Vec<GpuContext>,
    /// The registered globals, in registration order.
    pub globs: Vec<GpuValue>,
    /// The deduplicated type registry, in first-registration order.
    pub types: Vec<GpuTypeDetails>,
    /// The context recording every global's default-value assignment.
    pub init_ctx: GpuContext,
}

impl Default for App {
    /// An application with no kernels, globals or types.
    fn default() -> (r: Self)
        ensures
            r.contexts@.len() == 0,
            r.globs@.len() == 0,
            r.types@.len() == 0,
            r.init_ctx.operations@.len() == 0,
            r.init_ctx.next_var_id == 0,
    {
        App {
            contexts: Vec::new(),
            globs: Vec::new(),
            types: Vec::new(),
            init_ctx: GpuContext::new(),
        }
    }
}

impl App {
    /// Records `type_` in the registry unless an equal type is already
    /// there.
    pub fn add_type(&mut self, type_: GpuTypeDetails)
        ensures
            types_view(final(self).types@) == if spec_type_index(
                types_view(old(self).types@),
                type_@,
                0,
            ) is Some {
                types_view(old(self).types@)
            } else {
                types_view(old(self).types@).push(type_@)
            },
            final(self).contexts == old(self).contexts,
            final(self).globs == old(self).globs,
            final(self).init_ctx == old(self).init_ctx,
    {
        let present = crate::wgsl::type_index(&self.types, &type_);
        match present {
            Some(_) => {},
            None => {
                self.types.push(type_);
                proof {
                    assert(types_view(self.types@) =~= types_view(old(self).types@).push(
                        type_@,
                    ));
                }
            },
        }
    }

    /// Records every one of `incoming` in the registry, in order,
    /// keeping only the first occurrence of every type.
    fn merge_types(&mut self, incoming: &Vec<GpuTypeDetails>)
        ensures
            types_view(final(self).types@) == spec_merge_types(
                types_view(old(self).types@),
                types_view(incoming@),
                incoming@.len() as int,
            ),
            final(self).contexts == old(self).contexts,
            final(self).globs == old(self).globs,
            final(self).init_ctx == old(self).init_ctx,
    {
        let ghost iv = types_view(incoming@);
        let mut i: usize = 0;
        while i < incoming.len()
            invariant
                0 <= i <= incoming@.len(),
                iv == types_view(incoming@),
                iv.len() == incoming@.len(),
                forall|j: int| 0 <= j < incoming@.len() ==> iv[j] == #[trigger] incoming@[j]@,
                types_view(self.types@) == spec_merge_types(
                    types_view(old(self).types@),
                    iv,
                    i as int,
                ),
                self.contexts == old(self).contexts,
                self.globs == old(self).globs,
                self.init_ctx == old(self).init_ctx,
            decreases incoming@.len() - i,
        {
            let t = incoming[i].clone();
            self.add_type(t);
            i += 1;
        }
    }

    /// Registers a module: applies the module's registration function
    /// to this application.
    pub fn with_module<F: FnOnce(App) -> App>(self, f: F) -> (r: App)
        requires
            call_requires(f, (self,)),
        ensures
            call_ensures(f, (self,), r),
    {
        f(self)
    }

    /// Registers a global: its type joins the registry, the global joins
    /// the ordered global list, and the assignment of its default value
    /// is recorded in the initialization context.  The default must have
    /// been recorded against this application's initialization context.
    pub fn with_glob<T: Gpu>(self, glob: &T, default: &T) -> (r: Self)
        ensures
            types_view(r.types@) == spec_merge_types(
                types_view(self.types@),
                spec_type_closure(T::spec_ty()),
                spec_type_closure(T::spec_ty()).len() as int,
            ),
            values_view(r.globs@) == values_view(self.globs@).push(glob.spec_value()),
            ops_view(r.init_ctx.operations@) == ops_view(self.init_ctx.operations@).push(
                OperationView::AssignVar {
                    left_value: glob.spec_value(),
                    right_value: default.spec_value(),
                },
            ),
            r.init_ctx.next_var_id == self.init_ctx.next_var_id,
            r.init_ctx.types == self.init_ctx.types,
            r.init_ctx.index_vars == self.init_ctx.index_vars,
            r.contexts == self.contexts,
    {
        let mut app = self;
        let mut closure_ctx = GpuContext::new();
        closure_ctx.register_type(&T::details());
        proof {
            assert(types_view(closure_ctx.types@) =~= spec_type_closure(T::spec_ty()));
        }
        app.merge_types(&closure_ctx.types);
        app.globs.push(glob.value());
        crate::instructions::assign(&mut app.init_ctx, glob, default);
        proof {
            assert(values_view(app.globs@) =~= values_view(self.globs@).push(
                glob.spec_value(),
            ));
        }
        app
    }

    /// Registers one recorded kernel: the types it encountered join the
    /// registry and its trace joins the kernel list.
    pub fn with_compute(self, ctx: GpuContext) -> (r: Self)
        ensures
            types_view(r.types@) == spec_merge_types(
                types_view(self.types@),
                types_view(ctx.types@),
                ctx.types@.len() as int,
            ),
            r.contexts@.len() == self.contexts@.len() + 1,
            forall|i: int|
                0 <= i < self.contexts@.len() ==> r.contexts@[i] == #[trigger] self.contexts@[i],
            r.contexts@[self.contexts@.len() as int] == ctx,
            r.globs == self.globs,
            r.init_ctx == self.init_ctx,
    {
        let mut app = self;
        app.merge_types(&ctx.types);
        app.contexts.push(ctx);
        app
    }

    /// The generated initialization shader: the header and a kernel
    /// assigning every registered global its default value.  Every
    /// record type mentioned must be registered and every glob-rooted
    /// address must resolve: a malformed program never reaches the
    /// generator.
    pub fn wgsl_init_shader(&self) -> (r: String)
        requires
            forall|i: int|
                0 <= i < self.types@.len() ==> ty_resolvable(
                    #[trigger] types_view(self.types@)[i],
                    types_view(self.types@),
                ),
            forall|i: int|
                0 <= i < self.globs@.len() ==> ty_resolvable(
                    #[trigger] values_view(self.globs@)[i].type_,
                    types_view(self.types@),
                ),
            forall|i: int|
                0 <= i < self.init_ctx.operations@.len() ==> op_renderable(
                    #[trigger] ops_view(self.init_ctx.operations@)[i],
                    types_view(self.types@),
                    values_view(self.globs@),
                ),
        ensures
            r@ == spec_header_code(types_view(self.types@), values_view(self.globs@))
                + spec_compute_shader_code(
                ops_view(self.init_ctx.operations@),
                types_view(self.types@),
                values_view(self.globs@),
            ),
    {
        let header = crate::wgsl::header_code(&self.types, &self.globs);
        let body = crate::wgsl::compute_shader_code(&self.init_ctx, &self.types, &self.globs);
        let r = header.concat(body.as_str());
        r
    }

    /// The generated update shaders, one per registered kernel, in
    /// registration order.  Every record type mentioned must be
    /// registered and every glob-rooted address must resolve: a
    /// malformed program never reaches the generator.
    pub fn wgsl_update_shaders(&self) -> (r: Vec<String>)
        requires
            forall|i: int|
                0 <= i < self.types@.len() ==> ty_resolvable(
                    #[trigger] types_view(self.types@)[i],
                    types_view(self.types@),
                ),
            forall|i: int|
                0 <= i < self.globs@.len() ==> ty_resolvable(
                    #[trigger] values_view(self.globs@)[i].type_,
                    types_view(self.types@),
                ),
            forall|k: int, i: int|
                0 <= k < self.contexts@.len() && 0 <= i < self.contexts@[k].operations@.len()
                    ==> op_renderable(
                    #[trigger] ops_view(self.contexts@[k].operations@)[i],
                    types_view(self.types@),
                    values_view(self.globs@),
                ),
        ensures
            r@.len() == self.contexts@.len(),
            forall|i: int|
                0 <= i < self.contexts@.len() ==> #[trigger] r@[i]@ == spec_header_code(
                    types_view(self.types@),
                    values_view(self.globs@),
                ) + spec_compute_shader_code(
                    ops_view(self.contexts@[i].operations@),
                    types_view(self.types@),
                    values_view(self.globs@),
                ),
    {
        let mut shaders: Vec<String> = Vec::new();
        let mut i: usize = 0;
        while i < self.contexts.len()
            invariant
                0 <= i <= self.contexts@.len(),
                shaders@.len() == i,
                forall|j: int|
                    0 <= j < self.types@.len() ==> ty_resolvable(
                        #[trigger] types_view(self.types@)[j],
                        types_view(self.types@),
                    ),
                forall|j: int|
                    0 <= j < self.globs@.len() ==> ty_resolvable(
                        #[trigger] values_view(self.globs@)[j].type_,
                        types_view(self.types@),
                    ),
                forall|k: int, j: int|
                    0 <= k < self.contexts@.len() && 0 <= j
                        < self.contexts@[k].operations@.len() ==> op_renderable(
                        #[trigger] ops_view(self.contexts@[k].operations@)[j],
                        types_view(self.types@),
                        values_view(self.globs@),
                    ),
                forall|j: int|
                    0 <= j < i ==> #[trigger] shaders@[j]@ == spec_header_code(
                        types_view(self.types@),
                        values_view(self.globs@),
                    ) + spec_compute_shader_code(
                        ops_view(self.contexts@[j].operations@),
                        types_view(self.types@),
                        values_view(self.globs@),
                    ),
            decreases self.contexts@.len() - i,
        {
            let header = crate::wgsl::header_code(&self.types, &self.globs);
            let body = crate::wgsl::compute_shader_code(&self.contexts[i], &self.types, &self.globs);
            shaders.push(header.concat(body.as_str()));
            i += 1;
        }
        shaders
    }

    /// The byte range — offset and length — of the global stored at
    /// `value` inside the shared storage buffer, or nothing when no
    /// registered global has exactly that location: an address never
    /// registered, a local value, or a field or lane inside a global
    /// all yield no data, not an error.
    pub fn glob_byte_range(&self, value: &GpuValue) -> (r: Option<(u64, u64)>)
        requires
            ty_wf(Ty::Struct { fields: spec_glob_types(values_view(self.globs@)) }) || values_view(
                self.globs@,
            ).len() == 0,
            spec_size(Ty::Struct { fields: spec_glob_types(values_view(self.globs@)) })
                <= MAX_TYPE_SIZE,
        ensures
            match r {
                Some(range) => {
                    &&& spec_glob_index(values_view(self.globs@), value@, 0) is Some
                    &&& range.0 == spec_field_offset(
                        spec_glob_types(values_view(self.globs@)),
                        spec_glob_index(values_view(self.globs@), value@, 0)->0,
                    )
                    &&& range.1 == spec_size(
                        spec_glob_types(values_view(self.globs@))[spec_glob_index(
                            values_view(self.globs@),
                            value@,
                            0,
                        )->0],
                    )
                },
                None => spec_glob_index(values_view(self.globs@), value@, 0) is None,
            },
    {
        let position = value.glob_index(&self.globs);
        match position {
            Some(p) => {
                let ghost gv = values_view(self.globs@);
                let ghost vf = spec_glob_types(gv);
                let buffer_type = GpuTypeDetails::from_fields(&self.globs);
                proof {
                    crate::values::lemma_glob_index_in_range(gv, value@, 0);
                    assert(gv.len() > 0);
                    assert(buffer_type@->fields =~= vf);
                    assert(forall|q: int| 0 <= q < vf.len() ==> ty_wf(#[trigger] vf[q]));
                    crate::types::lemma_struct_layout(vf, p as int);
                    crate::types::lemma_field_offset_nonneg(vf, p as int);
                    assert(vf[p as int] == gv[p as int].type_);
                    assert(gv[p as int].type_ == self.globs@[p as int].type_@);
                }
                let offset = buffer_type.field_offset(p);
                let len = self.globs[p].type_.size();
                Some((offset, len))
            },
            None => None,
        }
    }
}

impl GpuTypeDetails {
    /// The type of the shared storage record: one field per registered
    /// global, in registration order.
    pub fn from_fields(globs: &Vec<GpuValue>) -> (r: Self)
        ensures
            r@ == (Ty::Struct { fields: spec_glob_types(values_view(globs@)) }),
    {
        let mut fields: Vec<GpuTypeDetails> = Vec::new();
        let mut i: usize = 0;
        while i < globs.len()
            invariant
                0 <= i <= globs@.len(),
                fields@.len() == i,
                forall|j: int| 0 <= j < i ==> #[trigger] fields@[j]@ == globs@[j]@.type_,
            decreases globs@.len() - i,
        {
            let t = globs[i].type_.clone();
            fields.push(t);
            i += 1;
        }
        let r = GpuTypeDetails::new_struct(fields);
        proof {
            assert(r@->fields =~= spec_glob_types(values_view(globs@)));
            assert(r@ =~~= (Ty::Struct { fields: spec_glob_types(values_view(globs@)) }));
        }
        r
    }
}

/// The generated text is a function of the recorded trace, the type
/// registry and the ordered global list alone: two applications whose
/// registries, globals and recorded traces are equal render byte-equal
/// shader text, however and whenever the recordings were made.
pub proof fn lemma_generation_deterministic(a: App, b: App, i: int, j: int)
    requires
        0 <= i < a.contexts@.len(),
        0 <= j < b.contexts@.len(),
        ops_view(a.contexts@[i].operations@) == ops_view(b.contexts@[j].operations@),
        types_view(a.types@) == types_view(b.types@),
        values_view(a.globs@) == values_view(b.globs@),
    ensures
        spec_header_code(types_view(a.types@), values_view(a.globs@)) + spec_compute_shader_code(
            ops_view(a.contexts@[i].operations@),
            types_view(a.types@),
            values_view(a.globs@),
        ) == spec_header_code(types_view(b.types@), values_view(b.globs@))
            + spec_compute_shader_code(
            ops_view(b.contexts@[j].operations@),
            types_view(b.types@),
            values_view(b.globs@),
        ),
{
}

} // verus!
