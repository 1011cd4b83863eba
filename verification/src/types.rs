//! Structural descriptions of GPU value types and the memory-layout engine.
//!
//! Every value that a recorded program touches has a [`GpuTypeDetails`]
//! describing its shape: a 32-bit scalar, a 2- to 4-lane vector, a
//! fixed-length array, or a record with ordered fields.  The layout
//! functions compute byte sizes, alignments and field offsets following
//! the target ABI: scalars are 4 bytes with 4-byte alignment, 2-lane
//! vectors are 8-byte aligned while 3- and 4-lane vectors are 16-byte
//! aligned, arrays stride by the item size rounded up to the item
//! alignment, and records place each field at the next offset rounded up
//! to the field's alignment.

use vstd::prelude::*;

verus! {

/// The element kind of a vector type.
#[derive(Clone, Copy, PartialEq, Eq, Structural, Debug)]
pub enum ScalarKind {
    I32,
    U32,
    F32,
}

/// The mathematical model of a GPU type: what a [`GpuTypeDetails`] denotes.
pub enum Ty {
    I32,
    U32,
    F32,
    Bool,
    Vector { lanes: int, scalar: ScalarKind },
    Array { item: Box<Ty>, len: int },
    Struct { fields: Seq<Ty> },
}

/// The structural description of a GPU type.
pub enum GpuTypeDetails {
    I32,
    U32,
    F32,
    Bool,
    Vector { lanes: u8, scalar: ScalarKind },
    Array { item: Box<GpuTypeDetails>, len: u64 },
    Struct { fields: Vec<GpuTypeDetails> },
}

impl GpuTypeDetails {
    /// The mathematical type this description denotes.
    pub open spec fn ty(&self) -> Ty
        decreases self,
    {
        match self {
            GpuTypeDetails::I32 => Ty::I32,
            GpuTypeDetails::U32 => Ty::U32,
            GpuTypeDetails::F32 => Ty::F32,
            GpuTypeDetails::Bool => Ty::Bool,
            GpuTypeDetails::Vector { lanes, scalar } => Ty::Vector {
                lanes: *lanes as int,
                scalar: *scalar,
            },
            GpuTypeDetails::Array { item, len } => Ty::Array {
                item: Box::new(item.ty()),
                len: *len as int,
            },
            GpuTypeDetails::Struct { fields } => Ty::Struct {
                fields: Seq::new(
                    fields.len() as nat,
                    |i: int| if 0 <= i < fields.len() { fields[i].ty() } else { Ty::I32 },
                ),
            },
        }
    }
}

impl View for GpuTypeDetails {
    type V = Ty;

    open spec fn view(&self) -> Ty {
        self.ty()
    }
}

/// The deep view of an ordered list of type descriptions.
pub open spec fn types_view(types: Seq<GpuTypeDetails>) -> Seq<Ty> {
    types.map_values(|t: GpuTypeDetails| t@)
}

/// Well-formedness: vectors have 2 to 4 lanes, arrays have at least one
/// item, records have at least one field.
pub open spec fn ty_wf(t: Ty) -> bool
    decreases t,
{
    match t {
        Ty::I32 | Ty::U32 | Ty::F32 | Ty::Bool => true,
        Ty::Vector { lanes, .. } => 2 <= lanes <= 4,
        Ty::Array { item, len } => len >= 1 && ty_wf(*item),
        Ty::Struct { fields } => fields.len() >= 1 && (forall|i: int|
            0 <= i < fields.len() ==> ty_wf(#[trigger] fields[i])),
    }
}

/// `n` rounded up to the next multiple of `k`.
pub open spec fn spec_round_up(k: int, n: int) -> int
    recommends
        k > 0,
        n >= 0,
{
    ((n + k - 1) / k) * k
}

/// The byte alignment of a type.
pub open spec fn spec_alignment(t: Ty) -> int
    decreases t,
{
    match t {
        Ty::I32 | Ty::U32 | Ty::F32 | Ty::Bool => 4,
        Ty::Vector { lanes, .. } => if lanes == 2 { 8 } else { 16 },
        Ty::Array { item, .. } => spec_alignment(*item),
        Ty::Struct { fields } => spec_max_alignment(fields, fields.len() as int),
    }
}

/// The largest alignment among the first `n` of `fields`.
pub open spec fn spec_max_alignment(fields: Seq<Ty>, n: int) -> int
    decreases fields, n,
{
    if n <= 0 || n > fields.len() {
        0
    } else if spec_max_alignment(fields, n - 1) >= spec_alignment(fields[n - 1]) {
        spec_max_alignment(fields, n - 1)
    } else {
        spec_alignment(fields[n - 1])
    }
}

/// The byte size of a type.
pub open spec fn spec_size(t: Ty) -> int
    decreases t,
{
    match t {
        Ty::I32 | Ty::U32 | Ty::F32 | Ty::Bool => 4,
        Ty::Vector { lanes, .. } => 4 * lanes,
        Ty::Array { item, len } => len * spec_round_up(spec_alignment(*item), spec_size(*item)),
        Ty::Struct { fields } => if fields.len() == 0 {
            0
        } else {
            spec_round_up(
                spec_max_alignment(fields, fields.len() as int),
                spec_field_offset(fields, fields.len() as int - 1) + spec_size(
                    fields[fields.len() as int - 1],
                ),
            )
        },
    }
}

/// The byte offset of field `i` in a record with the given fields: field 0
/// starts at offset 0, and each next field starts at the end of the
/// previous one rounded up to its own alignment.
pub open spec fn spec_field_offset(fields: Seq<Ty>, i: int) -> int
    decreases fields, i,
{
    if i <= 0 || i >= fields.len() {
        0
    } else {
        spec_round_up(
            spec_alignment(fields[i]),
            spec_field_offset(fields, i - 1) + spec_size(fields[i - 1]),
        )
    }
}

/// Largest type size the executable layout functions accept, so that all
/// intermediate offset arithmetic stays within `u64`.
pub const MAX_TYPE_SIZE: u64 = 0x1000_0000_0000_0000;

proof fn lemma_round_up_props(k: int, n: int)
    requires
        k > 0,
        n >= 0,
    ensures
        n <= spec_round_up(k, n),
        spec_round_up(k, n) < n + k,
        spec_round_up(k, n) % k == 0,
{
    assert(n <= ((n + k - 1) / k) * k && ((n + k - 1) / k) * k < n + k && (((n + k - 1) / k) * k)
        % k == 0) by (nonlinear_arith)
        requires
            k > 0,
            n >= 0,
    ;
}

proof fn lemma_max_alignment_ge(fields: Seq<Ty>, n: int, i: int)
    requires
        0 <= i < n <= fields.len(),
    ensures
        spec_max_alignment(fields, n) >= spec_alignment(fields[i]),
    decreases fields, n,
{
    if i < n - 1 {
        lemma_max_alignment_ge(fields, n - 1, i);
    }
}

/// The alignment of any well-formed type is 4, 8 or 16.
pub proof fn lemma_alignment_values(t: Ty)
    requires
        ty_wf(t),
    ensures
        spec_alignment(t) == 4 || spec_alignment(t) == 8 || spec_alignment(t) == 16,
    decreases t,
{
    match t {
        Ty::Array { item, .. } => lemma_alignment_values(*item),
        Ty::Struct { fields } => lemma_max_alignment_values(fields, fields.len() as int),
        _ => {},
    }
}

proof fn lemma_max_alignment_values(fields: Seq<Ty>, n: int)
    requires
        1 <= n <= fields.len(),
        forall|i: int| 0 <= i < fields.len() ==> ty_wf(#[trigger] fields[i]),
    ensures
        spec_max_alignment(fields, n) == 4 || spec_max_alignment(fields, n) == 8
            || spec_max_alignment(fields, n) == 16,
    decreases fields, n,
{
    lemma_alignment_values(fields[n - 1]);
    if n > 1 {
        lemma_max_alignment_values(fields, n - 1);
    }
}

/// The size of any well-formed type is at least 4 bytes.
pub proof fn lemma_size_lower_bound(t: Ty)
    requires
        ty_wf(t),
    ensures
        spec_size(t) >= 4,
    decreases t,
{
    match t {
        Ty::Array { item, len } => {
            lemma_size_lower_bound(*item);
            lemma_alignment_values(*item);
            lemma_round_up_props(spec_alignment(*item), spec_size(*item));
            let stride = spec_round_up(spec_alignment(*item), spec_size(*item));
            assert(len * stride >= stride) by (nonlinear_arith)
                requires
                    len >= 1,
                    stride >= 0,
            ;
        },
        Ty::Struct { fields } => {
            let n = fields.len() as int;
            lemma_field_offset_nonneg(fields, n - 1);
            lemma_size_lower_bound(fields[n - 1]);
            lemma_max_alignment_values(fields, n);
            lemma_round_up_props(
                spec_max_alignment(fields, n),
                spec_field_offset(fields, n - 1) + spec_size(fields[n - 1]),
            );
        },
        _ => {},
    }
}

/// No field of a well-formed record starts before the record does.
pub proof fn lemma_field_offset_nonneg(fields: Seq<Ty>, i: int)
    requires
        i < fields.len(),
        forall|j: int| 0 <= j < fields.len() ==> ty_wf(#[trigger] fields[j]),
    ensures
        spec_field_offset(fields, i) >= 0,
    decreases fields, i,
{
    if 0 < i {
        lemma_field_offset_nonneg(fields, i - 1);
        lemma_size_lower_bound(fields[i - 1]);
        lemma_alignment_values(fields[i]);
        lemma_round_up_props(
            spec_alignment(fields[i]),
            spec_field_offset(fields, i - 1) + spec_size(fields[i - 1]),
        );
    }
}

/// Each field of a record ends no later than the next one starts: the
/// layout never overlaps fields, whatever the nesting.
pub proof fn lemma_field_offsets_disjoint(fields: Seq<Ty>, i: int)
    requires
        0 <= i < fields.len() - 1,
        forall|j: int| 0 <= j < fields.len() ==> ty_wf(#[trigger] fields[j]),
    ensures
        spec_field_offset(fields, i + 1) >= spec_field_offset(fields, i) + spec_size(fields[i]),
{
    lemma_field_offset_nonneg(fields, i);
    lemma_size_lower_bound(fields[i]);
    lemma_alignment_values(fields[i + 1]);
    lemma_round_up_props(
        spec_alignment(fields[i + 1]),
        spec_field_offset(fields, i) + spec_size(fields[i]),
    );
}

/// Every field of a well-formed record lies entirely within the record's
/// size, and the record's size is a multiple of its alignment.
pub proof fn lemma_struct_layout(fields: Seq<Ty>, i: int)
    requires
        0 <= i < fields.len(),
        forall|j: int| 0 <= j < fields.len() ==> ty_wf(#[trigger] fields[j]),
    ensures
        spec_field_offset(fields, i) + spec_size(fields[i]) <= spec_size(
            Ty::Struct { fields },
        ),
        spec_size(Ty::Struct { fields }) % spec_max_alignment(fields, fields.len() as int) == 0,
    decreases fields.len() - i,
{
    let n = fields.len() as int;
    lemma_max_alignment_values(fields, n);
    lemma_field_offset_nonneg(fields, n - 1);
    lemma_size_lower_bound(fields[n - 1]);
    lemma_round_up_props(
        spec_max_alignment(fields, n),
        spec_field_offset(fields, n - 1) + spec_size(fields[n - 1]),
    );
    if i < n - 1 {
        lemma_struct_layout(fields, i + 1);
        lemma_field_offsets_disjoint(fields, i);
        lemma_size_lower_bound(fields[i + 1]);
    }
}

/// The documented asymmetry of vector alignment: 2-lane vectors are
/// 8-byte aligned while 3- and 4-lane vectors are 16-byte aligned, even
/// though a 3-lane vector itself occupies only 12 bytes.
pub proof fn lemma_vector_alignment(scalar: ScalarKind)
    ensures
        spec_alignment(Ty::Vector { lanes: 2, scalar }) == 8,
        spec_alignment(Ty::Vector { lanes: 3, scalar }) == 16,
        spec_alignment(Ty::Vector { lanes: 4, scalar }) == 16,
        spec_size(Ty::Vector { lanes: 2, scalar }) == 8,
        spec_size(Ty::Vector { lanes: 3, scalar }) == 12,
        spec_size(Ty::Vector { lanes: 4, scalar }) == 16,
{
}

impl GpuTypeDetails {
    /// Builds the description of a record type from its ordered field
    /// descriptions.
    pub fn new_struct(fields: Vec<GpuTypeDetails>) -> (r: Self)
        ensures
            r@ == (Ty::Struct { fields: types_view(fields@) }),
    {
        let ghost old_fields = fields@;
        let r = GpuTypeDetails::Struct { fields };
        proof {
            assert(r@->fields =~= types_view(old_fields));
        }
        r
    }

    /// `n` rounded up to the next multiple of `k`.
    pub fn round_up(k: u64, n: u64) -> (r: u64)
        requires
            k >= 1,
            n + k - 1 <= u64::MAX,
        ensures
            r == spec_round_up(k as int, n as int),
    {
        proof {
            assert(((n + k - 1) as int / k as int) * k as int <= (n + k - 1) as int && ((n + k
                - 1) as int / k as int) * k as int >= 0) by (nonlinear_arith)
                requires
                    k as int > 0,
                    n as int >= 0,
            ;
        }
        ((n + (k - 1)) / k) * k
    }

    /// The byte alignment of this type.
    pub fn alignment(&self) -> (r: u64)
        requires
            ty_wf(self@),
        ensures
            r == spec_alignment(self@),
        decreases *self,
    {
        match self {
            GpuTypeDetails::I32 | GpuTypeDetails::U32 | GpuTypeDetails::F32
            | GpuTypeDetails::Bool => 4,
            GpuTypeDetails::Vector { lanes, .. } => if *lanes == 2 {
                8
            } else {
                16
            },
            GpuTypeDetails::Array { item, .. } => item.alignment(),
            GpuTypeDetails::Struct { fields } => {
                let ghost vfields = self@->fields;
                proof {
                    assert(vfields =~= types_view(fields@));
                }
                let mut max: u64 = 0;
                let mut i: usize = 0;
                while i < fields.len()
                    invariant
                        0 <= i <= fields@.len(),
                        *self == (GpuTypeDetails::Struct { fields: *fields }),
                        ty_wf(self@),
                        vfields == self@->fields,
                        vfields.len() == fields@.len(),
                        forall|j: int| 0 <= j < fields@.len() ==> vfields[j] == #[trigger] fields@[j]@,
                        max == spec_max_alignment(vfields, i as int),
                    decreases fields@.len() - i,
                {
                    proof {
                        let ghost tt = *self;
                        assert(decreases_to!(tt => tt->fields));
                        assert(decreases_to!(tt->fields => tt->fields@));
                        assert(decreases_to!(tt->fields@ => tt->fields@[i as int]));
                        assert(decreases_to!(*self => fields@[i as int]));
                        assert(ty_wf(fields@[i as int]@));
                    }
                    let a = fields[i].alignment();
                    if a > max {
                        max = a;
                    }
                    i += 1;
                }
                max
            },
        }
    }

    /// The byte size of this type.
    pub fn size(&self) -> (r: u64)
        requires
            ty_wf(self@),
            spec_size(self@) <= MAX_TYPE_SIZE,
        ensures
            r == spec_size(self@),
        decreases *self,
    {
        match self {
            GpuTypeDetails::I32 | GpuTypeDetails::U32 | GpuTypeDetails::F32
            | GpuTypeDetails::Bool => 4,
            GpuTypeDetails::Vector { lanes, .. } => 4 * (*lanes as u64),
            GpuTypeDetails::Array { item, len } => {
                proof {
                    let ghost tt = *self;
                    assert(decreases_to!(tt => tt->item));
                    lemma_size_lower_bound(item@);
                    lemma_alignment_values(item@);
                    lemma_round_up_props(spec_alignment(item@), spec_size(item@));
                    let stride = spec_round_up(spec_alignment(item@), spec_size(item@));
                    assert((*len as int) * stride >= stride) by (nonlinear_arith)
                        requires
                            *len as int >= 1,
                            stride >= 0,
                    ;
                }
                let ia = item.alignment();
                let is_ = item.size();
                let stride = Self::round_up(ia, is_);
                proof {
                    assert((*len as int) * (stride as int) == spec_size(self@));
                }
                (*len) * stride
            },
            GpuTypeDetails::Struct { fields } => {
                let ghost vfields = self@->fields;
                proof {
                    assert(vfields =~= types_view(fields@));
                    lemma_struct_layout(vfields, vfields.len() as int - 1);
                    lemma_field_offset_nonneg(vfields, vfields.len() as int - 1);
                    lemma_size_lower_bound(vfields[vfields.len() as int - 1]);
                    lemma_max_alignment_values(vfields, vfields.len() as int);
                    lemma_round_up_props(
                        spec_max_alignment(vfields, vfields.len() as int),
                        spec_field_offset(vfields, vfields.len() as int - 1) + spec_size(
                            vfields[vfields.len() as int - 1],
                        ),
                    );
                    let ghost tt = *self;
                    assert(decreases_to!(tt => tt->fields));
                    assert(decreases_to!(tt->fields => tt->fields@));
                    assert(decreases_to!(tt->fields@ => tt->fields@[fields@.len() - 1]));
                }
                let n = fields.len();
                let off = struct_prefix_offset(fields, n - 1);
                proof {
                    assert(decreases_to!(*self => fields@[n - 1]));
                }
                let s_last = fields[n - 1].size();
                let al = self.alignment();
                Self::round_up(al, off + s_last)
            },
        }
    }

    /// The byte offset of field `index` inside this record type; asking
    /// for the position one past the last field yields the record's full
    /// size, final padding included.
    pub fn field_offset(&self, index: usize) -> (r: u64)
        requires
            ty_wf(self@),
            self@ is Struct,
            index <= self@->fields.len(),
            spec_size(self@) <= MAX_TYPE_SIZE,
        ensures
            index < self@->fields.len() ==> r == spec_field_offset(self@->fields, index as int),
            index == self@->fields.len() ==> r == spec_size(self@),
    {
        match self {
            GpuTypeDetails::Struct { fields } => {
                proof {
                    assert(self@->fields =~= types_view(fields@));
                }
                if index == fields.len() {
                    self.size()
                } else if index == 0 {
                    0
                } else {
                    struct_prefix_offset(fields, index)
                }
            },
            _ => {
                proof {
                    assert(false);
                }
                0
            },
        }
    }
}

/// The byte offset of field `index` of a record with the given fields.
fn struct_prefix_offset(fields: &Vec<GpuTypeDetails>, index: usize) -> (r: u64)
    requires
        0 <= index < fields@.len(),
        ty_wf(Ty::Struct { fields: types_view(fields@) }),
        spec_size(Ty::Struct { fields: types_view(fields@) }) <= MAX_TYPE_SIZE,
    ensures
        r == spec_field_offset(types_view(fields@), index as int),
    decreases fields@, index,
{
    let ghost vf = types_view(fields@);
    let flen = fields.len();
    let mut off: u64 = 0;
    let mut j: usize = 1;
    while j <= index
        invariant
            1 <= j <= index + 1,
            index < fields@.len(),
            fields@.len() == flen,
            vf == types_view(fields@),
            ty_wf(Ty::Struct { fields: vf }),
            spec_size(Ty::Struct { fields: vf }) <= MAX_TYPE_SIZE,
            off == spec_field_offset(vf, j - 1),
        decreases index + 1 - j,
    {
        proof {
            assert(forall|q: int| 0 <= q < vf.len() ==> ty_wf(#[trigger] vf[q]));
            lemma_struct_layout(vf, j - 1);
            lemma_field_offset_nonneg(vf, j - 1);
            lemma_size_lower_bound(vf[j - 1]);
            lemma_alignment_values(vf[j as int]);
            assert(decreases_to!(fields@ => fields@[j as int]));
            assert(decreases_to!(fields@ => fields@[j - 1]));
        }
        let a = fields[j].alignment();
        let s = fields[j - 1].size();
        off = GpuTypeDetails::round_up(a, off + s);
        j += 1;
    }
    off
}

/// Structural equality of two type descriptions.
pub fn same_type(a: &GpuTypeDetails, b: &GpuTypeDetails) -> (r: bool)
    ensures
        r <==> a@ == b@,
    decreases *a,
{
    match (a, b) {
        (GpuTypeDetails::I32, GpuTypeDetails::I32) => true,
        (GpuTypeDetails::U32, GpuTypeDetails::U32) => true,
        (GpuTypeDetails::F32, GpuTypeDetails::F32) => true,
        (GpuTypeDetails::Bool, GpuTypeDetails::Bool) => true,
        (
            GpuTypeDetails::Vector { lanes: l1, scalar: s1 },
            GpuTypeDetails::Vector { lanes: l2, scalar: s2 },
        ) => *l1 == *l2 && *s1 == *s2,
        (
            GpuTypeDetails::Array { item: i1, len: n1 },
            GpuTypeDetails::Array { item: i2, len: n2 },
        ) => {
            proof {
                let ghost ta = *a;
                assert(decreases_to!(ta => ta->item));
            }
            *n1 == *n2 && same_type(i1, i2)
        },
        (GpuTypeDetails::Struct { fields: f1 }, GpuTypeDetails::Struct { fields: f2 }) => {
            proof {
                assert(a@->fields =~= types_view(f1@));
                assert(b@->fields =~= types_view(f2@));
            }
            if f1.len() != f2.len() {
                return false;
            }
            let mut i: usize = 0;
            while i < f1.len()
                invariant
                    0 <= i <= f1@.len(),
                    f1@.len() == f2@.len(),
                    *a == (GpuTypeDetails::Struct { fields: *f1 }),
                    *b == (GpuTypeDetails::Struct { fields: *f2 }),
                    a@->fields == types_view(f1@),
                    b@->fields == types_view(f2@),
                    forall|j: int| 0 <= j < i ==> #[trigger] f1@[j]@ == f2@[j]@,
                decreases f1@.len() - i,
            {
                proof {
                    let ghost ta = *a;
                    assert(decreases_to!(ta => ta->fields));
                    assert(decreases_to!(ta->fields => ta->fields@));
                    assert(decreases_to!(ta->fields@ => ta->fields@[i as int]));
                    assert(decreases_to!(*a => f1@[i as int]));
                }
                if !same_type(&f1[i], &f2[i]) {
                    proof {
                        assert(a@->fields[i as int] != b@->fields[i as int]);
                    }
                    return false;
                }
                i += 1;
            }
            proof {
                assert(a@->fields =~= b@->fields);
            }
            true
        },
        _ => false,
    }
}

impl Clone for GpuTypeDetails {
    /// A deep copy that denotes the same type.
    fn clone(&self) -> (r: Self)
        ensures
            r@ == self@,
        decreases *self,
    {
        match self {
            GpuTypeDetails::I32 => GpuTypeDetails::I32,
            GpuTypeDetails::U32 => GpuTypeDetails::U32,
            GpuTypeDetails::F32 => GpuTypeDetails::F32,
            GpuTypeDetails::Bool => GpuTypeDetails::Bool,
            GpuTypeDetails::Vector { lanes, scalar } => GpuTypeDetails::Vector {
                lanes: *lanes,
                scalar: *scalar,
            },
            GpuTypeDetails::Array { item, len } => {
                proof {
                    let ghost tt = *self;
                    assert(decreases_to!(tt => tt->item));
                }
                GpuTypeDetails::Array { item: Box::new((**item).clone()), len: *len }
            },
            GpuTypeDetails::Struct { fields } => {
                let mut copied: Vec<GpuTypeDetails> = Vec::new();
                let mut i: usize = 0;
                while i < fields.len()
                    invariant
                        0 <= i <= fields@.len(),
                        *self == (GpuTypeDetails::Struct { fields: *fields }),
                        copied@.len() == i,
                        forall|j: int| 0 <= j < i ==> #[trigger] copied@[j]@ == fields@[j]@,
                    decreases fields@.len() - i,
                {
                    proof {
                        let ghost tt = *self;
                        assert(decreases_to!(tt => tt->fields));
                        assert(decreases_to!(tt->fields => tt->fields@));
                        assert(decreases_to!(tt->fields@ => tt->fields@[i as int]));
                        assert(decreases_to!(*self => fields@[i as int]));
                    }
                    let c = fields[i].clone();
                    copied.push(c);
                    i += 1;
                }
                let r = GpuTypeDetails::Struct { fields: copied };
                proof {
                    assert forall|k: int| 0 <= k < fields@.len() implies r@->fields[k]
                        == self@->fields[k] by {
                        assert(r->fields@[k]@ == fields@[k]@);
                    }
                    assert(r@->fields =~= self@->fields);
                }
                r
            },
        }
    }
}

} // verus!
