//! The execution context that accumulates one recording.
//!
//! A fresh [`GpuContext`] is created for each kernel body (and one for
//! the synthesized initialization kernel); every primitive operation
//! constructor appends to its trace.  The context also collects every
//! type encountered, nested field types included, and memoizes the
//! hidden variables that hold materialized dynamic indexes, so that
//! indexing the same parent address with the same index value twice
//! reuses one hidden variable instead of declaring a second one.

use vstd::prelude::*;
use crate::types::GpuTypeDetails;
use crate::types::ScalarKind;
use crate::types::Ty;
use crate::types::types_view;
use crate::operations::Operation;
use crate::values::GpuValue;
use crate::values::ValueView;
use crate::values::addr_eq;

verus! {

/// The type a vector's lanes are made of.
pub open spec fn scalar_ty(kind: ScalarKind) -> Ty {
    match kind {
        ScalarKind::I32 => Ty::I32,
        ScalarKind::U32 => Ty::U32,
        ScalarKind::F32 => Ty::F32,
    }
}

/// Every type reachable from `t`, in first-visit order: `t` itself, then
/// the types its components reach, depth first.
pub open spec fn spec_type_closure(t: Ty) -> Seq<Ty>
    decreases t,
{
    match t {
        Ty::I32 | Ty::U32 | Ty::F32 | Ty::Bool => seq![t],
        Ty::Vector { scalar, .. } => seq![t, scalar_ty(scalar)],
        Ty::Array { item, .. } => seq![t] + spec_type_closure(*item),
        Ty::Struct { fields } => seq![t] + spec_closure_concat(fields, fields.len() as int),
    }
}

/// The concatenated closures of the first `n` of `fields`.
pub open spec fn spec_closure_concat(fields: Seq<Ty>, n: int) -> Seq<Ty>
    decreases fields, n,
{
    if n <= 0 || n > fields.len() {
        Seq::empty()
    } else {
        spec_closure_concat(fields, n - 1) + spec_type_closure(fields[n - 1])
    }
}

/// One memoized binding from (parent address, index value) to the hidden
/// variable holding the materialized index.
pub struct IndexVarEntry {
    pub parent: GpuValue,
    pub index: GpuValue,
    pub var_id: u32,
}

/// The mathematical model of one memo entry.
pub struct IndexVarView {
    pub parent: ValueView,
    pub index: ValueView,
    pub var_id: int,
}

impl View for IndexVarEntry {
    type V = IndexVarView;

    open spec fn view(&self) -> IndexVarView {
        IndexVarView { parent: self.parent@, index: self.index@, var_id: self.var_id as int }
    }
}

/// The deep view of the memo table.
pub open spec fn index_vars_view(entries: Seq<IndexVarEntry>) -> Seq<IndexVarView> {
    entries.map_values(|e: IndexVarEntry| e@)
}

/// The hidden variable memoized for (parent, index), searching the table
/// from position `i` on.
pub open spec fn spec_find_index_var(
    entries: Seq<IndexVarView>,
    parent: ValueView,
    index: ValueView,
    i: int,
) -> Option<int>
    decreases entries.len() - i,
{
    if i < 0 || i >= entries.len() {
        None
    } else if addr_eq(entries[i].parent, parent) && addr_eq(entries[i].index, index) {
        Some(entries[i].var_id)
    } else {
        spec_find_index_var(entries, parent, index, i + 1)
    }
}

/// Memoization of hidden index variables: once a binding for
/// (parent, index) has been recorded, looking the pair up finds exactly
/// that binding's hidden variable — so a later subscript of the same
/// parent by the same index value reuses the hidden variable instead of
/// declaring a second one.
pub proof fn lemma_index_var_memoized(
    entries: Seq<IndexVarView>,
    parent: ValueView,
    index: ValueView,
    entry: IndexVarView,
)
    requires
        spec_find_index_var(entries, parent, index, 0) is None,
        addr_eq(entry.parent, parent),
        addr_eq(entry.index, index),
    ensures
        spec_find_index_var(entries.push(entry), parent, index, 0) == Some(entry.var_id),
{
    lemma_find_index_var_push(entries, parent, index, entry, 0);
}

proof fn lemma_find_index_var_push(
    entries: Seq<IndexVarView>,
    parent: ValueView,
    index: ValueView,
    entry: IndexVarView,
    k: int,
)
    requires
        0 <= k <= entries.len(),
        spec_find_index_var(entries, parent, index, k) is None,
        addr_eq(entry.parent, parent),
        addr_eq(entry.index, index),
    ensures
        spec_find_index_var(entries.push(entry), parent, index, k) == Some(entry.var_id),
    decreases entries.len() - k,
{
    let pushed = entries.push(entry);
    if k < entries.len() {
        assert(pushed[k] == entries[k]);
        lemma_find_index_var_push(entries, parent, index, entry, k + 1);
    } else {
        assert(pushed[k] == entry);
    }
}

/// The context used to track GPU operations.
pub struct GpuContext {
    /// The operation trace, append-only while recording.
    pub operations: Vec<Operation>,
    /// Every type encountered so far, component types included.
    pub types: Vec<GpuTypeDetails>,
    /// The id the next declared variable will receive.
    pub next_var_id: u32,
    /// The memoized hidden index variables.
    pub index_vars: Vec<IndexVarEntry>,
}

impl GpuContext {
    /// A fresh context with an empty trace.
    pub fn new() -> (r: Self)
        ensures
            r.operations@.len() == 0,
            r.types@.len() == 0,
            r.next_var_id == 0,
            r.index_vars@.len() == 0,
    {
        GpuContext {
            operations: Vec::new(),
            types: Vec::new(),
            next_var_id: 0,
            index_vars: Vec::new(),
        }
    }

    /// Allocates the next local variable id.
    pub fn fresh_var_id(&mut self) -> (r: u32)
        requires
            old(self).next_var_id < u32::MAX,
        ensures
            r == old(self).next_var_id,
            final(self).next_var_id == old(self).next_var_id + 1,
            final(self).operations == old(self).operations,
            final(self).types == old(self).types,
            final(self).index_vars == old(self).index_vars,
    {
        let id = self.next_var_id;
        self.next_var_id = id + 1;
        id
    }

    /// Records `type_` and every type reachable from it, depth first, so
    /// that code generation later has a complete set of types to
    /// declare.
    pub fn register_type(&mut self, type_: &GpuTypeDetails)
        ensures
            types_view(final(self).types@) == types_view(old(self).types@) + spec_type_closure(
                type_@,
            ),
            final(self).operations == old(self).operations,
            final(self).next_var_id == old(self).next_var_id,
            final(self).index_vars == old(self).index_vars,
        decreases *type_,
    {
        let ghost pre = types_view(self.types@);
        self.types.push(type_.clone());
        proof {
            assert(types_view(self.types@) =~= pre + seq![type_@]);
        }
        match type_ {
            GpuTypeDetails::I32 | GpuTypeDetails::U32 | GpuTypeDetails::F32
            | GpuTypeDetails::Bool => {
                proof {
                    assert(types_view(self.types@) =~= pre + spec_type_closure(type_@));
                }
            },
            GpuTypeDetails::Vector { scalar, .. } => {
                let scalar_details = match scalar {
                    ScalarKind::I32 => GpuTypeDetails::I32,
                    ScalarKind::U32 => GpuTypeDetails::U32,
                    ScalarKind::F32 => GpuTypeDetails::F32,
                };
                self.types.push(scalar_details);
                proof {
                    assert(types_view(self.types@) =~= pre + spec_type_closure(type_@));
                }
            },
            GpuTypeDetails::Array { item, .. } => {
                proof {
                    let ghost tt = *type_;
                    assert(decreases_to!(tt => tt->item));
                }
                self.register_type(item);
                proof {
                    assert(types_view(self.types@) =~= pre + spec_type_closure(type_@));
                }
            },
            GpuTypeDetails::Struct { fields } => {
                let ghost vfields = type_@->fields;
                proof {
                    assert(vfields =~= types_view(fields@));
                }
                let mut i: usize = 0;
                while i < fields.len()
                    invariant
                        0 <= i <= fields@.len(),
                        *type_ == (GpuTypeDetails::Struct { fields: *fields }),
                        vfields == type_@->fields,
                        vfields.len() == fields@.len(),
                        forall|j: int| 0 <= j < fields@.len() ==> vfields[j]
                            == #[trigger] fields@[j]@,
                        types_view(self.types@) == pre + seq![type_@] + spec_closure_concat(
                            vfields,
                            i as int,
                        ),
                        self.operations == old(self).operations,
                        self.next_var_id == old(self).next_var_id,
                        self.index_vars == old(self).index_vars,
                    decreases fields@.len() - i,
                {
                    proof {
                        let ghost tt = *type_;
                        assert(decreases_to!(tt => tt->fields));
                        assert(decreases_to!(tt->fields => tt->fields@));
                        assert(decreases_to!(tt->fields@ => tt->fields@[i as int]));
                        assert(decreases_to!(*type_ => fields@[i as int]));
                    }
                    self.register_type(&fields[i]);
                    proof {
                        assert(spec_closure_concat(vfields, i + 1) == spec_closure_concat(
                            vfields,
                            i as int,
                        ) + spec_type_closure(vfields[i as int]));
                        assert(types_view(self.types@) =~= pre + seq![type_@]
                            + spec_closure_concat(vfields, i + 1));
                    }
                    i += 1;
                }
                proof {
                    assert(types_view(self.types@) =~= pre + spec_type_closure(type_@));
                }
            },
        }
    }

    /// The hidden variable already bound to (parent, index), if any.
    pub fn find_index_var(&self, parent: &GpuValue, index: &GpuValue) -> (r: Option<u32>)
        ensures
            match r {
                Some(id) => Some(id as int) == spec_find_index_var(
                    index_vars_view(self.index_vars@),
                    parent@,
                    index@,
                    0,
                ),
                None => spec_find_index_var(
                    index_vars_view(self.index_vars@),
                    parent@,
                    index@,
                    0,
                ) is None,
            },
    {
        let mut i: usize = 0;
        while i < self.index_vars.len()
            invariant
                0 <= i <= self.index_vars@.len(),
                spec_find_index_var(index_vars_view(self.index_vars@), parent@, index@, 0)
                    == spec_find_index_var(
                    index_vars_view(self.index_vars@),
                    parent@,
                    index@,
                    i as int,
                ),
            decreases self.index_vars@.len() - i,
        {
            let entry = &self.index_vars[i];
            if entry.parent.same_location(parent) && entry.index.same_location(index) {
                return Some(entry.var_id);
            }
            i += 1;
        }
        None
    }
}

} // verus!
