//! Symbolic addresses of recorded values.
//!
//! A [`GpuValue`] says where a value lives in the generated program: at a
//! named global slot or a numbered local slot, possibly narrowed by a
//! chain of extensions — a record field position, a vector lane, or a
//! dynamic index held in a hidden index variable.  Two addresses denote
//! the same storage location exactly when their root and extension chain
//! are equal, however they were derived; the type carried alongside never
//! takes part in that comparison.

use vstd::prelude::*;
use crate::types::GpuTypeDetails;
use crate::types::Ty;

verus! {

/// The root of an address: a global slot or a local variable.
#[derive(Clone, Copy, PartialEq, Eq, Structural, Debug)]
pub enum GpuValueRoot {
    Glob(u64),
    Var(u32),
}

/// One step of an address derivation chain.
#[derive(Clone, Copy, PartialEq, Eq, Structural, Debug)]
pub enum GpuValueExt {
    /// A record field, by ordinal position.
    FieldPosition(u16),
    /// A vector lane, 0 to 3.
    VecFieldPosition(u8),
    /// A dynamic index, read from the hidden variable with this id.
    IndexVarId(u32),
}

/// A symbolic address together with the type of the value stored there.
pub struct GpuValue {
    pub type_: GpuTypeDetails,
    pub root: GpuValueRoot,
    pub extensions: Vec<GpuValueExt>,
}

/// The mathematical model of an address.
pub struct ValueView {
    pub type_: Ty,
    pub root: GpuValueRoot,
    pub extensions: Seq<GpuValueExt>,
}

impl View for GpuValue {
    type V = ValueView;

    open spec fn view(&self) -> ValueView {
        ValueView { type_: self.type_@, root: self.root, extensions: self.extensions@ }
    }
}

/// The deep view of an ordered list of addresses.
pub open spec fn values_view(values: Seq<GpuValue>) -> Seq<ValueView> {
    values.map_values(|v: GpuValue| v@)
}

/// Whether two addresses denote the same storage location: equal root and
/// equal extension chain, whatever type they carry.
pub open spec fn addr_eq(a: ValueView, b: ValueView) -> bool {
    a.root == b.root && a.extensions == b.extensions
}

/// The address obtained by appending one extension and retyping.
pub open spec fn spec_extended(v: ValueView, ext: GpuValueExt, type_: Ty) -> ValueView {
    ValueView { type_, root: v.root, extensions: v.extensions.push(ext) }
}

/// The position of the first of `globs` rooted at `root`, searching from
/// `i` on.
pub open spec fn spec_root_index(globs: Seq<ValueView>, root: GpuValueRoot, i: int) -> Option<
    int,
>
    decreases globs.len() - i,
{
    if i < 0 || i >= globs.len() {
        None
    } else if globs[i].root == root {
        Some(i)
    } else {
        spec_root_index(globs, root, i + 1)
    }
}

/// A found position is in range, at or after the search start, and its
/// entry has the root searched for.
pub proof fn lemma_root_index_in_range(globs: Seq<ValueView>, root: GpuValueRoot, k: int)
    requires
        spec_root_index(globs, root, k) is Some,
    ensures
        k <= spec_root_index(globs, root, k)->0 < globs.len(),
        globs[spec_root_index(globs, root, k)->0].root == root,
    decreases globs.len() - k,
{
    if 0 <= k < globs.len() && globs[k].root != root {
        lemma_root_index_in_range(globs, root, k + 1);
    }
}

/// The position of the first of `globs` denoting exactly the location
/// `v`, searching from `i` on: the root and the whole extension chain
/// must agree.
pub open spec fn spec_glob_index(globs: Seq<ValueView>, v: ValueView, i: int) -> Option<int>
    decreases globs.len() - i,
{
    if i < 0 || i >= globs.len() {
        None
    } else if addr_eq(globs[i], v) {
        Some(i)
    } else {
        spec_glob_index(globs, v, i + 1)
    }
}

/// A found position is in range and its entry denotes the searched
/// location.
pub proof fn lemma_glob_index_in_range(globs: Seq<ValueView>, v: ValueView, k: int)
    requires
        spec_glob_index(globs, v, k) is Some,
    ensures
        k <= spec_glob_index(globs, v, k)->0 < globs.len(),
        addr_eq(globs[spec_glob_index(globs, v, k)->0], v),
    decreases globs.len() - k,
{
    if 0 <= k < globs.len() && !addr_eq(globs[k], v) {
        lemma_glob_index_in_range(globs, v, k + 1);
    }
}

impl GpuValue {
    /// The address of the global slot `id`.
    pub fn glob(id: u64, type_: GpuTypeDetails) -> (r: Self)
        ensures
            r@ == (ValueView { type_: type_@, root: GpuValueRoot::Glob(id), extensions: Seq::<
                GpuValueExt,
            >::empty() }),
    {
        let r = GpuValue { type_, root: GpuValueRoot::Glob(id), extensions: Vec::new() };
        proof {
            assert(r@.extensions =~= Seq::<GpuValueExt>::empty());
        }
        r
    }

    /// The address of the local variable `id`.
    pub fn var(id: u32, type_: GpuTypeDetails) -> (r: Self)
        ensures
            r@ == (ValueView { type_: type_@, root: GpuValueRoot::Var(id), extensions: Seq::<
                GpuValueExt,
            >::empty() }),
    {
        let r = GpuValue { type_, root: GpuValueRoot::Var(id), extensions: Vec::new() };
        proof {
            assert(r@.extensions =~= Seq::<GpuValueExt>::empty());
        }
        r
    }

    /// This address narrowed by one extension, carrying the type of the
    /// narrowed value.
    pub fn extended(self, ext: GpuValueExt, type_: GpuTypeDetails) -> (r: Self)
        ensures
            r@ == spec_extended(self@, ext, type_@),
    {
        let mut extensions = self.extensions;
        extensions.push(ext);
        GpuValue { type_, root: self.root, extensions }
    }

    /// The address of the record field at `position` inside this value.
    pub fn field(self, position: u16, type_: GpuTypeDetails) -> (r: Self)
        ensures
            r@ == spec_extended(self@, GpuValueExt::FieldPosition(position), type_@),
    {
        self.extended(GpuValueExt::FieldPosition(position), type_)
    }

    /// The address of the vector lane at `position` inside this value.
    pub fn vec_field(self, position: u8, type_: GpuTypeDetails) -> (r: Self)
        ensures
            r@ == spec_extended(self@, GpuValueExt::VecFieldPosition(position), type_@),
    {
        self.extended(GpuValueExt::VecFieldPosition(position), type_)
    }

    /// The address of the dynamically indexed item of this value, the
    /// index being read from the hidden variable `index_var_id`.
    pub fn index(self, index_var_id: u32, type_: GpuTypeDetails) -> (r: Self)
        ensures
            r@ == spec_extended(self@, GpuValueExt::IndexVarId(index_var_id), type_@),
    {
        self.extended(GpuValueExt::IndexVarId(index_var_id), type_)
    }

    /// The id of the local variable this address is rooted at.
    pub fn var_id(&self) -> (r: u32)
        requires
            self@.root is Var,
        ensures
            self@.root == GpuValueRoot::Var(r),
    {
        match self.root {
            GpuValueRoot::Var(id) => id,
            GpuValueRoot::Glob(_) => {
                proof {
                    assert(false);
                }
                0
            },
        }
    }

    /// Whether this address and `other` denote the same storage location.
    pub fn same_location(&self, other: &GpuValue) -> (r: bool)
        ensures
            r == addr_eq(self@, other@),
    {
        if self.root != other.root {
            return false;
        }
        if self.extensions.len() != other.extensions.len() {
            proof {
                assert(self@.extensions.len() != other@.extensions.len());
            }
            return false;
        }
        let mut i: usize = 0;
        while i < self.extensions.len()
            invariant
                0 <= i <= self@.extensions.len(),
                self@.extensions.len() == other@.extensions.len(),
                forall|j: int| 0 <= j < i ==> self@.extensions[j] == other@.extensions[j],
            decreases self@.extensions.len() - i,
        {
            if self.extensions[i] != other.extensions[i] {
                return false;
            }
            i += 1;
        }
        proof {
            assert(self@.extensions =~= other@.extensions);
        }
        true
    }

    /// The position of the first of `globs` denoting exactly this
    /// location, or nothing when none does: an address that merely
    /// shares a root with a registered global — a field or lane inside
    /// it — matches nothing here.
    pub fn glob_index(&self, globs: &Vec<GpuValue>) -> (r: Option<usize>)
        ensures
            match r {
                Some(i) => Some(i as int) == spec_glob_index(values_view(globs@), self@, 0),
                None => spec_glob_index(values_view(globs@), self@, 0) is None,
            },
    {
        let mut i: usize = 0;
        while i < globs.len()
            invariant
                0 <= i <= globs@.len(),
                spec_glob_index(values_view(globs@), self@, 0) == spec_glob_index(
                    values_view(globs@),
                    self@,
                    i as int,
                ),
            decreases globs@.len() - i,
        {
            if self.same_location(&globs[i]) {
                return Some(i);
            }
            i += 1;
        }
        None
    }

    /// The position of the registered global this address is rooted at,
    /// or nothing when its root is not among `globs`.
    pub fn root_index(&self, globs: &Vec<GpuValue>) -> (r: Option<usize>)
        ensures
            match r {
                Some(i) => Some(i as int) == spec_root_index(values_view(globs@), self@.root, 0),
                None => spec_root_index(values_view(globs@), self@.root, 0) is None,
            },
    {
        let mut i: usize = 0;
        while i < globs.len()
            invariant
                0 <= i <= globs@.len(),
                spec_root_index(values_view(globs@), self@.root, 0) == spec_root_index(
                    values_view(globs@),
                    self@.root,
                    i as int,
                ),
            decreases globs@.len() - i,
        {
            if self.root == globs[i].root {
                return Some(i);
            }
            i += 1;
        }
        None
    }
}

impl Clone for GpuValue {
    /// A copy denoting the same address and type.
    fn clone(&self) -> (r: Self)
        ensures
            r@ == self@,
    {
        let mut extensions: Vec<GpuValueExt> = Vec::new();
        let mut i: usize = 0;
        while i < self.extensions.len()
            invariant
                0 <= i <= self@.extensions.len(),
                extensions@.len() == i,
                forall|j: int| 0 <= j < i ==> extensions@[j] == self@.extensions[j],
            decreases self@.extensions.len() - i,
        {
            extensions.push(self.extensions[i]);
            i += 1;
        }
        proof {
            assert(extensions@ =~= self@.extensions);
        }
        GpuValue { type_: self.type_.clone(), root: self.root, extensions }
    }
}

/// Extending two addresses that denote the same location with the same
/// step yields addresses that again denote the same location: equality of
/// addresses depends only on the root and the extension chain, never on
/// how or in what order the chain was built.
pub proof fn lemma_extension_keeps_location(a: ValueView, b: ValueView, ext: GpuValueExt, ta: Ty, tb: Ty)
    requires
        addr_eq(a, b),
    ensures
        addr_eq(spec_extended(a, ext, ta), spec_extended(b, ext, tb)),
{
}

} // verus!
