//! Rendering of a recorded program as WGSL text.
//!
//! The generator is a pure function of the trace, the type registry and
//! the ordered global list: the same inputs always yield the same text.
//! Local variables render as `v<id>`, globals as fields `g<index>` of one
//! shared storage record `buf`, record fields as `f<position>`, and
//! unnamed composite types as `T<registry index>`.  Boolean values are
//! stored as 32-bit words, so every boundary where the target expects a
//! real boolean inserts a conversion, and every boolean result is wrapped
//! back into its integer representation.

use vstd::prelude::*;
use vstd::string::StringExecFns;
use crate::text::append_u64;
use crate::text::spec_dec;
use crate::types::GpuTypeDetails;
use crate::types::Ty;
use crate::types::same_type;
use crate::types::types_view;
use crate::values::GpuValue;
use crate::values::GpuValueRoot;
use crate::values::ValueView;
use crate::values::values_view;
use crate::values::spec_root_index;

verus! {

/// The name of the local variable `id`.
pub open spec fn spec_var_name(id: int) -> Seq<char> {
    "v"@ + spec_dec(id)
}

/// The name of the record field at position `i`.
pub open spec fn spec_field_name(i: int) -> Seq<char> {
    "f"@ + spec_dec(i)
}

/// The name of the storage-record field holding the global at position
/// `i`.
pub open spec fn spec_glob_name_at(i: int) -> Seq<char> {
    "g"@ + spec_dec(i)
}

/// The name of the storage-record field holding the global rooted like
/// `glob`: the position of the first registered global with that root.
/// An address rooted at no registered global falls back to the first
/// slot's name; a well-formed program never renders one.
pub open spec fn spec_glob_name(glob: ValueView, globs: Seq<ValueView>) -> Seq<char> {
    match spec_root_index(globs, glob.root, 0) {
        Some(i) => spec_glob_name_at(i),
        None => spec_glob_name_at(0),
    }
}

/// The position of the first of `types` equal to `t`, searching from
/// `i` on.
pub open spec fn spec_type_index(types: Seq<Ty>, t: Ty, i: int) -> Option<int>
    decreases types.len() - i,
{
    if i < 0 || i >= types.len() {
        None
    } else if types[i] == t {
        Some(i)
    } else {
        spec_type_index(types, t, i + 1)
    }
}

/// The rendered name of a type: the target's fixed name for scalars and
/// vectors, a generic form for arrays, and `T<index>` for records, which
/// take their name from their position in the registry.  A record
/// missing from the registry falls back to the first position's name; a
/// well-formed program registers every record it mentions.
pub open spec fn spec_type_name(t: Ty, types: Seq<Ty>) -> Seq<char>
    decreases t,
{
    match t {
        Ty::I32 => "i32"@,
        Ty::U32 => "u32"@,
        Ty::F32 => "f32"@,
        Ty::Bool => "u32"@,
        Ty::Vector { lanes, scalar } => spec_vector_name(lanes, scalar),
        Ty::Array { item, len } => "array<"@ + spec_type_name(*item, types) + ", "@ + spec_dec(
            len,
        ) + ">"@,
        Ty::Struct { .. } => match spec_type_index(types, t, 0) {
            Some(i) => "T"@ + spec_dec(i),
            None => "T"@ + spec_dec(0),
        },
    }
}

/// The target's name of a vector type.
pub open spec fn spec_vector_name(lanes: int, scalar: crate::types::ScalarKind) -> Seq<char> {
    let base = if lanes == 2 {
        "vec2"@
    } else if lanes == 3 {
        "vec3"@
    } else {
        "vec4"@
    };
    let suffix = match scalar {
        crate::types::ScalarKind::I32 => "i"@,
        crate::types::ScalarKind::U32 => "u"@,
        crate::types::ScalarKind::F32 => "f"@,
    };
    base + suffix
}

/// Whether every record type nested in `t` can be named from the
/// registry, so that rendering never falls back to the first position's
/// name.
pub open spec fn ty_resolvable(t: Ty, types: Seq<Ty>) -> bool
    decreases t,
{
    match t {
        Ty::I32 | Ty::U32 | Ty::F32 | Ty::Bool => true,
        Ty::Vector { .. } => true,
        Ty::Array { item, .. } => ty_resolvable(*item, types),
        Ty::Struct { fields } => spec_type_index(types, t, 0) is Some && (forall|i: int|
            0 <= i < fields.len() ==> ty_resolvable(#[trigger] fields[i], types)),
    }
}

/// Whether an address can be rendered against the registered globals:
/// an address rooted at a global slot must be rooted at a registered
/// one.
pub open spec fn value_renderable(v: ValueView, globs: Seq<ValueView>) -> bool {
    v.root is Glob ==> spec_root_index(globs, v.root, 0) is Some
}

/// Whether a constant fragment's constructor types can all be named
/// from the registry.
pub open spec fn wgsl_resolvable(w: crate::operations::WgslView, types: Seq<Ty>) -> bool
    decreases w,
{
    match w {
        crate::operations::WgslView::Value(_) => true,
        crate::operations::WgslView::Constructor { type_, args } => ty_resolvable(type_, types)
            && (forall|i: int| 0 <= i < args.len() ==> wgsl_resolvable(#[trigger] args[i], types)),
    }
}

/// Whether one instruction can be rendered against the registry and the
/// registered globals without any fallback: a malformed trace never
/// reaches the generator.
pub open spec fn op_renderable(
    op: crate::operations::OperationView,
    types: Seq<Ty>,
    globs: Seq<ValueView>,
) -> bool {
    match op {
        crate::operations::OperationView::DeclareVar { type_, .. } => ty_resolvable(type_, types),
        crate::operations::OperationView::AssignVar { left_value, right_value } => value_renderable(
            left_value,
            globs,
        ) && value_renderable(right_value, globs),
        crate::operations::OperationView::ConstantAssignVar { left_value, right_value } => value_renderable(
            left_value,
            globs,
        ) && wgsl_resolvable(right_value, types),
        crate::operations::OperationView::Unary { var, value, .. } => value_renderable(var, globs)
            && value_renderable(value, globs),
        crate::operations::OperationView::Binary { var, left_value, right_value, .. } => value_renderable(
            var,
            globs,
        ) && value_renderable(left_value, globs) && value_renderable(right_value, globs),
        crate::operations::OperationView::FnCall { var, args, .. } => value_renderable(var, globs)
            && (forall|i: int| 0 <= i < args.len() ==> value_renderable(#[trigger] args[i], globs)),
        crate::operations::OperationView::IfBlock { condition } => value_renderable(
            condition,
            globs,
        ),
        _ => true,
    }
}

/// Appends the decimal text of `n` to `s`.
fn append_usize(s: &mut String, n: usize)
    ensures
        final(s)@ == old(s)@ + spec_dec(n as int),
{
    append_u64(s, n as u64);
}

/// The position of the first registry entry equal to `t`, if any.
pub(crate) fn type_index(types: &Vec<GpuTypeDetails>, t: &GpuTypeDetails) -> (r: Option<usize>)
    ensures
        match r {
            Some(i) => Some(i as int) == spec_type_index(types_view(types@), t@, 0),
            None => spec_type_index(types_view(types@), t@, 0) is None,
        },
{
    let mut i: usize = 0;
    while i < types.len()
        invariant
            0 <= i <= types@.len(),
            spec_type_index(types_view(types@), t@, 0) == spec_type_index(
                types_view(types@),
                t@,
                i as int,
            ),
        decreases types@.len() - i,
    {
        if same_type(&types[i], t) {
            return Some(i);
        }
        i += 1;
    }
    None
}

/// Appends the rendered name of `type_` to `s`.
pub fn append_type_name(s: &mut String, type_: &GpuTypeDetails, types: &Vec<GpuTypeDetails>)
    ensures
        final(s)@ == old(s)@ + spec_type_name(type_@, types_view(types@)),
    decreases *type_,
{
    match type_ {
        GpuTypeDetails::I32 => {
            s.append("i32");
        },
        GpuTypeDetails::U32 => {
            s.append("u32");
        },
        GpuTypeDetails::F32 => {
            s.append("f32");
        },
        GpuTypeDetails::Bool => {
            s.append("u32");
        },
        GpuTypeDetails::Vector { lanes, scalar } => {
            if *lanes == 2 {
                s.append("vec2");
            } else if *lanes == 3 {
                s.append("vec3");
            } else {
                s.append("vec4");
            }
            match scalar {
                crate::types::ScalarKind::I32 => s.append("i"),
                crate::types::ScalarKind::U32 => s.append("u"),
                crate::types::ScalarKind::F32 => s.append("f"),
            }
            proof {
                assert(s@ =~= old(s)@ + spec_type_name(type_@, types_view(types@)));
            }
        },
        GpuTypeDetails::Array { item, len } => {
            proof {
                let ghost tt = *type_;
                assert(decreases_to!(tt => tt->item));
            }
            s.append("array<");
            append_type_name(s, item, types);
            s.append(", ");
            append_u64(s, *len);
            s.append(">");
            proof {
                assert(s@ =~= old(s)@ + spec_type_name(type_@, types_view(types@)));
            }
        },
        GpuTypeDetails::Struct { .. } => {
            let index = type_index(types, type_);
            s.append("T");
            match index {
                Some(i) => {
                    append_usize(s, i);
                },
                None => {
                    append_usize(s, 0);
                },
            }
            proof {
                assert(s@ =~= old(s)@ + spec_type_name(type_@, types_view(types@)));
            }
        },
    }
}

/// The rendered text of one extension step.
pub open spec fn spec_ext_code(ext: crate::values::GpuValueExt) -> Seq<char> {
    match ext {
        crate::values::GpuValueExt::FieldPosition(p) => "."@ + spec_field_name(p as int),
        crate::values::GpuValueExt::VecFieldPosition(p) => if p == 0 {
            ".x"@
        } else if p == 1 {
            ".y"@
        } else if p == 2 {
            ".z"@
        } else {
            ".w"@
        },
        crate::values::GpuValueExt::IndexVarId(id) => "["@ + spec_var_name(id as int) + "]"@,
    }
}

/// The rendered text of the first `n` extension steps.
pub open spec fn spec_exts_code(exts: Seq<crate::values::GpuValueExt>, n: int) -> Seq<char>
    decreases n,
{
    if n <= 0 || n > exts.len() {
        Seq::empty()
    } else {
        spec_exts_code(exts, n - 1) + spec_ext_code(exts[n - 1])
    }
}

/// The rendered text of an address: its root — a storage-record field
/// for a global, `v<id>` for a local — followed by its extension steps.
pub open spec fn spec_value_code(v: ValueView, globs: Seq<ValueView>) -> Seq<char> {
    let root = match v.root {
        GpuValueRoot::Glob(_) => "buf."@ + spec_glob_name(v, globs),
        GpuValueRoot::Var(id) => spec_var_name(id as int),
    };
    root + spec_exts_code(v.extensions, v.extensions.len() as int)
}

/// Appends the rendered text of the address `v` to `s`.
pub fn append_value_code(s: &mut String, v: &GpuValue, globs: &Vec<GpuValue>)
    ensures
        final(s)@ == old(s)@ + spec_value_code(v@, values_view(globs@)),
{
    match v.root {
        GpuValueRoot::Glob(_) => {
            s.append("buf.");
            let index = v.root_index(globs);
            s.append("g");
            match index {
                Some(i) => {
                    append_usize(s, i);
                },
                None => {
                    append_usize(s, 0);
                },
            }
        },
        GpuValueRoot::Var(id) => {
            s.append("v");
            append_u64(s, id as u64);
        },
    }
    proof {
        assert(s@ =~= old(s)@ + (match v@.root {
            GpuValueRoot::Glob(_) => "buf."@ + spec_glob_name(v@, values_view(globs@)),
            GpuValueRoot::Var(id) => spec_var_name(id as int),
        }));
    }
    let ghost root_text = s@;
    let mut i: usize = 0;
    while i < v.extensions.len()
        invariant
            0 <= i <= v@.extensions.len(),
            s@ == root_text + spec_exts_code(v@.extensions, i as int),
        decreases v@.extensions.len() - i,
    {
        match v.extensions[i] {
            crate::values::GpuValueExt::FieldPosition(p) => {
                s.append(".");
                s.append("f");
                append_u64(s, p as u64);
                proof {
                    assert(s@ =~= root_text + spec_exts_code(v@.extensions, i + 1));
                }
            },
            crate::values::GpuValueExt::VecFieldPosition(p) => {
                if p == 0 {
                    s.append(".x");
                } else if p == 1 {
                    s.append(".y");
                } else if p == 2 {
                    s.append(".z");
                } else {
                    s.append(".w");
                }
                proof {
                    assert(s@ =~= root_text + spec_exts_code(v@.extensions, i + 1));
                }
            },
            crate::values::GpuValueExt::IndexVarId(id) => {
                s.append("[");
                s.append("v");
                append_u64(s, id as u64);
                s.append("]");
                proof {
                    assert(s@ =~= root_text + spec_exts_code(v@.extensions, i + 1));
                }
            },
        }
        i += 1;
    }
    proof {
        assert(s@ =~= old(s)@ + spec_value_code(v@, values_view(globs@)));
    }
}

/// The text of an operand handed to a target function: a boolean stored
/// as an integer is converted to a real boolean first where the function
/// expects one.
pub open spec fn spec_function_arg(
    v: ValueView,
    globs: Seq<ValueView>,
    is_supporting_bool: bool,
) -> Seq<char> {
    if v.type_ == Ty::Bool && is_supporting_bool {
        "bool("@ + spec_value_code(v, globs) + ")"@
    } else {
        spec_value_code(v, globs)
    }
}

/// The full expression stored into a result address: a boolean result is
/// wrapped back into its integer representation.
pub open spec fn spec_returned_value(
    v: ValueView,
    expr: Seq<char>,
    is_supporting_bool: bool,
) -> Seq<char> {
    if v.type_ == Ty::Bool && is_supporting_bool {
        "u32("@ + expr + ")"@
    } else {
        expr
    }
}

/// Appends the text of the operand `v` handed to a target function.
pub fn append_function_arg(
    s: &mut String,
    v: &GpuValue,
    globs: &Vec<GpuValue>,
    is_supporting_bool: bool,
)
    ensures
        final(s)@ == old(s)@ + spec_function_arg(v@, values_view(globs@), is_supporting_bool),
{
    let is_bool = matches!(v.type_, GpuTypeDetails::Bool);
    if is_bool && is_supporting_bool {
        s.append("bool(");
        append_value_code(s, v, globs);
        s.append(")");
        proof {
            assert(s@ =~= old(s)@ + spec_function_arg(
                v@,
                values_view(globs@),
                is_supporting_bool,
            ));
        }
    } else {
        proof {
            assert(v@.type_ == Ty::Bool <==> v.type_ is Bool);
        }
        append_value_code(s, v, globs);
    }
}

/// The rendered text of a constant fragment: literal text as it stands,
/// a constructor as its type name applied to its rendered arguments.
pub open spec fn spec_wgsl_text(w: crate::operations::WgslView, types: Seq<Ty>) -> Seq<char>
    decreases w,
{
    match w {
        crate::operations::WgslView::Value(text) => text,
        crate::operations::WgslView::Constructor { type_, args } => spec_type_name(type_, types)
            + "("@ + spec_wgsl_args(args, types, args.len() as int) + ")"@,
    }
}

/// The rendered arguments of a constructor, comma separated.
pub open spec fn spec_wgsl_args(
    args: Seq<crate::operations::WgslView>,
    types: Seq<Ty>,
    n: int,
) -> Seq<char>
    decreases args, n,
{
    if n <= 0 || n > args.len() {
        Seq::empty()
    } else if n == 1 {
        spec_wgsl_text(args[0], types)
    } else {
        spec_wgsl_args(args, types, n - 1) + ", "@ + spec_wgsl_text(args[n - 1], types)
    }
}

/// Appends the rendered text of the constant fragment `w` to `s`.
pub fn append_wgsl_text(s: &mut String, w: &crate::operations::Wgsl, types: &Vec<GpuTypeDetails>)
    ensures
        final(s)@ == old(s)@ + spec_wgsl_text(w@, types_view(types@)),
    decreases *w,
{
    match w {
        crate::operations::Wgsl::Value(text) => {
            s.append(text.as_str());
        },
        crate::operations::Wgsl::Constructor(c) => {
            let ghost wv = w@;
            let ghost args_v = wv->args;
            append_type_name(s, &c.type_, types);
            s.append("(");
            let ghost prefix = s@;
            let mut i: usize = 0;
            while i < c.args.len()
                invariant
                    0 <= i <= c.args@.len(),
                    *w == crate::operations::Wgsl::Constructor(*c),
                    wv == w@,
                    args_v == wv->args,
                    args_v.len() == c.args@.len(),
                    forall|j: int| 0 <= j < c.args@.len() ==> args_v[j] == #[trigger] c.args@[j]@,
                    s@ == prefix + spec_wgsl_args(args_v, types_view(types@), i as int),
                decreases c.args@.len() - i,
            {
                proof {
                    let ghost ww = *w;
                    assert(decreases_to!(ww => ww->Constructor_0));
                    assert(decreases_to!(ww->Constructor_0 => ww->Constructor_0.args));
                    assert(decreases_to!(ww->Constructor_0.args => ww->Constructor_0.args@));
                    assert(decreases_to!(ww->Constructor_0.args@ => ww->Constructor_0.args@[i as int]));
                    assert(decreases_to!(*w => c.args@[i as int]));
                }
                if i > 0 {
                    s.append(", ");
                }
                append_wgsl_text(s, &c.args[i], types);
                proof {
                    assert(s@ =~= prefix + spec_wgsl_args(args_v, types_view(types@), i + 1));
                }
                i += 1;
            }
            s.append(")");
            proof {
                assert(s@ =~= old(s)@ + spec_wgsl_text(w@, types_view(types@)));
            }
        },
    }
}

/// The rendered arguments of a recorded call, comma separated.
pub open spec fn spec_args_code(
    args: Seq<ValueView>,
    globs: Seq<ValueView>,
    is_supporting_bool: bool,
    n: int,
) -> Seq<char>
    decreases n,
{
    if n <= 0 || n > args.len() {
        Seq::empty()
    } else if n == 1 {
        spec_function_arg(args[0], globs, is_supporting_bool)
    } else {
        spec_args_code(args, globs, is_supporting_bool, n - 1) + ", "@ + spec_function_arg(
            args[n - 1],
            globs,
            is_supporting_bool,
        )
    }
}

/// The rendered statement of one recorded instruction.
pub open spec fn spec_operation_code(
    op: crate::operations::OperationView,
    types: Seq<Ty>,
    globs: Seq<ValueView>,
) -> Seq<char> {
    match op {
        crate::operations::OperationView::DeclareVar { id, type_ } => "    var "@ + spec_var_name(
            id,
        ) + ": "@ + spec_type_name(type_, types) + ";"@,
        crate::operations::OperationView::AssignVar { left_value, right_value } => "    "@
            + spec_value_code(left_value, globs) + " = "@ + spec_value_code(right_value, globs)
            + ";"@,
        crate::operations::OperationView::ConstantAssignVar { left_value, right_value } => "    "@
            + spec_value_code(left_value, globs) + " = "@ + spec_wgsl_text(right_value, types)
            + ";"@,
        crate::operations::OperationView::Unary { var, value, operator } => "    "@
            + spec_value_code(var, globs) + " = "@ + spec_returned_value(
            var,
            operator + spec_function_arg(value, globs, true),
            true,
        ) + ";"@,
        crate::operations::OperationView::Binary { var, left_value, right_value, operator } => "    "@
            + spec_value_code(var, globs) + " = "@ + spec_returned_value(
            var,
            spec_function_arg(left_value, globs, true) + " "@ + operator + " "@
                + spec_function_arg(right_value, globs, true),
            true,
        ) + ";"@,
        crate::operations::OperationView::FnCall { var, fn_name, args, is_supporting_bool } => "    "@
            + spec_value_code(var, globs) + " = "@ + spec_returned_value(
            var,
            fn_name + "("@ + spec_args_code(args, globs, is_supporting_bool, args.len() as int)
                + ")"@,
            is_supporting_bool,
        ) + ";"@,
        crate::operations::OperationView::IfBlock { condition } => "    if (bool("@
            + spec_value_code(condition, globs) + ")) {"@,
        crate::operations::OperationView::ElseBlock => "    } else {"@,
        crate::operations::OperationView::LoopBlock => "    loop {"@,
        crate::operations::OperationView::EndBlock => "    }"@,
        crate::operations::OperationView::Break => "    break;"@,
        crate::operations::OperationView::Continue => "    continue;"@,
    }
}

/// Appends the result expression of a computing instruction: the raw
/// expression, or its wrap back into the integer boolean representation
/// when the result is boolean.
fn append_wrapped(
    s: &mut String,
    var: &GpuValue,
    globs: &Vec<GpuValue>,
    is_supporting_bool: bool,
) -> (wrap: bool)
    ensures
        final(s)@ == old(s)@ + if var@.type_ == Ty::Bool && is_supporting_bool {
            "u32("@
        } else {
            Seq::<char>::empty()
        },
        wrap == (var@.type_ == Ty::Bool && is_supporting_bool),
{
    let is_bool = matches!(var.type_, GpuTypeDetails::Bool);
    proof {
        assert(var@.type_ == Ty::Bool <==> var.type_ is Bool);
    }
    if is_bool && is_supporting_bool {
        s.append("u32(");
        true
    } else {
        proof {
            assert(s@ =~= old(s)@ + Seq::<char>::empty());
        }
        false
    }
}

/// Appends the rendered statement of a unary application.
fn append_unary_code(s: &mut String, o: &crate::operations::UnaryOperation, globs: &Vec<GpuValue>)
    ensures
        final(s)@ == old(s)@ + "    "@ + spec_value_code(o.var@, values_view(globs@)) + " = "@
            + spec_returned_value(
            o.var@,
            o.operator@ + spec_function_arg(o.value@, values_view(globs@), true),
            true,
        ) + ";"@,
{
    s.append("    ");
    append_value_code(s, &o.var, globs);
    s.append(" = ");
    let wrap = append_wrapped(s, &o.var, globs, true);
    s.append(o.operator);
    append_function_arg(s, &o.value, globs, true);
    if wrap {
        s.append(")");
    }
    s.append(";");
    proof {
        assert(s@ =~= old(s)@ + "    "@ + spec_value_code(o.var@, values_view(globs@)) + " = "@
            + spec_returned_value(
            o.var@,
            o.operator@ + spec_function_arg(o.value@, values_view(globs@), true),
            true,
        ) + ";"@);
    }
}

/// Appends the rendered statement of a binary application.
fn append_binary_code(s: &mut String, o: &crate::operations::BinaryOperation, globs: &Vec<GpuValue>)
    ensures
        final(s)@ == old(s)@ + "    "@ + spec_value_code(o.var@, values_view(globs@)) + " = "@
            + spec_returned_value(
            o.var@,
            spec_function_arg(o.left_value@, values_view(globs@), true) + " "@ + o.operator@
                + " "@ + spec_function_arg(o.right_value@, values_view(globs@), true),
            true,
        ) + ";"@,
{
    s.append("    ");
    append_value_code(s, &o.var, globs);
    s.append(" = ");
    let wrap = append_wrapped(s, &o.var, globs, true);
    append_function_arg(s, &o.left_value, globs, true);
    s.append(" ");
    s.append(o.operator);
    s.append(" ");
    append_function_arg(s, &o.right_value, globs, true);
    if wrap {
        s.append(")");
    }
    s.append(";");
    proof {
        assert(s@ =~= old(s)@ + "    "@ + spec_value_code(o.var@, values_view(globs@)) + " = "@
            + spec_returned_value(
            o.var@,
            spec_function_arg(o.left_value@, values_view(globs@), true) + " "@ + o.operator@
                + " "@ + spec_function_arg(o.right_value@, values_view(globs@), true),
            true,
        ) + ";"@);
    }
}

/// Appends the rendered statement of a recorded call.
fn append_fn_call_code(s: &mut String, o: &crate::operations::FnCallOperation, globs: &Vec<GpuValue>)
    ensures
        final(s)@ == old(s)@ + "    "@ + spec_value_code(o.var@, values_view(globs@)) + " = "@
            + spec_returned_value(
            o.var@,
            o.fn_name@ + "("@ + spec_args_code(
                crate::values::values_view(o.args@),
                values_view(globs@),
                o.is_supporting_bool,
                o.args@.len() as int,
            ) + ")"@,
            o.is_supporting_bool,
        ) + ";"@,
{
    let ghost args_v = crate::values::values_view(o.args@);
    s.append("    ");
    append_value_code(s, &o.var, globs);
    s.append(" = ");
    let wrap = append_wrapped(s, &o.var, globs, o.is_supporting_bool);
    s.append(o.fn_name);
    s.append("(");
    let ghost prefix = s@;
    let mut i: usize = 0;
    while i < o.args.len()
        invariant
            0 <= i <= o.args@.len(),
            args_v == crate::values::values_view(o.args@),
            args_v.len() == o.args@.len(),
            forall|j: int| 0 <= j < o.args@.len() ==> args_v[j] == #[trigger] o.args@[j]@,
            s@ == prefix + spec_args_code(
                args_v,
                values_view(globs@),
                o.is_supporting_bool,
                i as int,
            ),
        decreases o.args@.len() - i,
    {
        if i > 0 {
            s.append(", ");
        }
        append_function_arg(s, &o.args[i], globs, o.is_supporting_bool);
        proof {
            assert(s@ =~= prefix + spec_args_code(
                args_v,
                values_view(globs@),
                o.is_supporting_bool,
                i + 1,
            ));
        }
        i += 1;
    }
    s.append(")");
    if wrap {
        s.append(")");
    }
    s.append(";");
    proof {
        assert(s@ =~= old(s)@ + "    "@ + spec_value_code(o.var@, values_view(globs@)) + " = "@
            + spec_returned_value(
            o.var@,
            o.fn_name@ + "("@ + spec_args_code(
                args_v,
                values_view(globs@),
                o.is_supporting_bool,
                o.args@.len() as int,
            ) + ")"@,
            o.is_supporting_bool,
        ) + ";"@);
    }
}

/// Appends the rendered statement of `op` to `s`.
#[verifier::rlimit(60)]
pub fn append_operation_code(
    s: &mut String,
    op: &crate::operations::Operation,
    types: &Vec<GpuTypeDetails>,
    globs: &Vec<GpuValue>,
)
    ensures
        final(s)@ == old(s)@ + spec_operation_code(op@, types_view(types@), values_view(globs@)),
{
    match op {
        crate::operations::Operation::DeclareVar(o) => {
            s.append("    var ");
            s.append("v");
            append_u64(s, o.id as u64);
            s.append(": ");
            append_type_name(s, &o.type_, types);
            s.append(";");
            proof {
                assert(s@ =~= old(s)@ + spec_operation_code(
                    op@,
                    types_view(types@),
                    values_view(globs@),
                ));
            }
        },
        crate::operations::Operation::AssignVar(o) => {
            s.append("    ");
            append_value_code(s, &o.left_value, globs);
            s.append(" = ");
            append_value_code(s, &o.right_value, globs);
            s.append(";");
            proof {
                assert(s@ =~= old(s)@ + spec_operation_code(
                    op@,
                    types_view(types@),
                    values_view(globs@),
                ));
            }
        },
        crate::operations::Operation::ConstantAssignVar(o) => {
            s.append("    ");
            append_value_code(s, &o.left_value, globs);
            s.append(" = ");
            append_wgsl_text(s, &o.right_value, types);
            s.append(";");
            proof {
                assert(s@ =~= old(s)@ + spec_operation_code(
                    op@,
                    types_view(types@),
                    values_view(globs@),
                ));
            }
        },
        crate::operations::Operation::Unary(o) => {
            append_unary_code(s, o, globs);
            proof {
                assert(s@ =~= old(s)@ + spec_operation_code(
                    op@,
                    types_view(types@),
                    values_view(globs@),
                ));
            }
        },
        crate::operations::Operation::Binary(o) => {
            append_binary_code(s, o, globs);
            proof {
                assert(s@ =~= old(s)@ + spec_operation_code(
                    op@,
                    types_view(types@),
                    values_view(globs@),
                ));
            }
        },
        crate::operations::Operation::FnCall(o) => {
            append_fn_call_code(s, o, globs);
            proof {
                assert(s@ =~= old(s)@ + spec_operation_code(
                    op@,
                    types_view(types@),
                    values_view(globs@),
                ));
            }
        },
        crate::operations::Operation::IfBlock(o) => {
            s.append("    if (bool(");
            append_value_code(s, &o.condition, globs);
            s.append(")) {");
            proof {
                assert(s@ =~= old(s)@ + spec_operation_code(
                    op@,
                    types_view(types@),
                    values_view(globs@),
                ));
            }
        },
        crate::operations::Operation::ElseBlock => {
            s.append("    } else {");
        },
        crate::operations::Operation::LoopBlock => {
            s.append("    loop {");
        },
        crate::operations::Operation::EndBlock => {
            s.append("    }");
        },
        crate::operations::Operation::Break => {
            s.append("    break;");
        },
        crate::operations::Operation::Continue => {
            s.append("    continue;");
        },
    }
}

/// One rendered field line of a record declaration.
pub open spec fn spec_struct_field_line(field: Ty, i: int, types: Seq<Ty>) -> Seq<char> {
    "    "@ + spec_field_name(i) + ": "@ + spec_type_name(field, types) + ","@
}

/// The rendered field lines of a record declaration, one per line.
pub open spec fn spec_struct_fields(fields: Seq<Ty>, types: Seq<Ty>, n: int) -> Seq<char>
    decreases n,
{
    if n <= 0 || n > fields.len() {
        Seq::empty()
    } else if n == 1 {
        spec_struct_field_line(fields[0], 0, types)
    } else {
        spec_struct_fields(fields, types, n - 1) + "\n"@ + spec_struct_field_line(
            fields[n - 1],
            n - 1,
            types,
        )
    }
}

/// The rendered declaration of a record type.
pub open spec fn spec_struct_decl(t: Ty, types: Seq<Ty>) -> Seq<char> {
    let fields = t->fields;
    "struct "@ + spec_type_name(t, types) + " {\n"@ + spec_struct_fields(
        fields,
        types,
        fields.len() as int,
    ) + "\n}"@
}

/// How many of the first `n` registry entries are record types.
pub open spec fn spec_struct_count(types: Seq<Ty>, n: int) -> int
    decreases n,
{
    if n <= 0 || n > types.len() {
        0
    } else {
        spec_struct_count(types, n - 1) + if types[n - 1] is Struct {
            1int
        } else {
            0int
        }
    }
}

/// The rendered declarations of the record types among the first `n`
/// registry entries, one per line: every registered type with a fixed
/// target name is skipped.
pub open spec fn spec_struct_decls(types: Seq<Ty>, n: int) -> Seq<char>
    decreases n,
{
    if n <= 0 || n > types.len() {
        Seq::empty()
    } else {
        spec_struct_decls(types, n - 1) + if types[n - 1] is Struct {
            (if spec_struct_count(types, n - 1) > 0 {
                "\n"@
            } else {
                Seq::<char>::empty()
            }) + spec_struct_decl(types[n - 1], types)
        } else {
            Seq::<char>::empty()
        }
    }
}

/// One rendered field line of the shared storage record.
pub open spec fn spec_buffer_field_line(glob: ValueView, globs: Seq<ValueView>, types: Seq<
    Ty,
>) -> Seq<char> {
    "    "@ + spec_glob_name(glob, globs) + ": "@ + spec_type_name(glob.type_, types) + ","@
}

/// The rendered field lines of the shared storage record, one per
/// registered global.
pub open spec fn spec_buffer_fields(globs: Seq<ValueView>, types: Seq<Ty>, n: int) -> Seq<char>
    decreases n,
{
    if n <= 0 || n > globs.len() {
        Seq::empty()
    } else if n == 1 {
        spec_buffer_field_line(globs[0], globs, types)
    } else {
        spec_buffer_fields(globs, types, n - 1) + "\n"@ + spec_buffer_field_line(
            globs[n - 1],
            globs,
            types,
        )
    }
}

/// The rendered header: nothing without globals, otherwise the shared
/// storage declaration, its record type with one field per global, and
/// the declarations of every registered record type.
pub open spec fn spec_header_code(types: Seq<Ty>, globs: Seq<ValueView>) -> Seq<char> {
    if globs.len() == 0 {
        Seq::empty()
    } else {
        "@group(0) @binding(0)\nvar<storage, read_write> buf: Buf;\n\nstruct Buf {\n"@
            + spec_buffer_fields(globs, types, globs.len() as int) + "\n}\n\n"@
            + spec_struct_decls(types, types.len() as int) + "\n\n"@
    }
}

/// One dummy read forcing the target compiler to treat the storage
/// record as referenced.
pub open spec fn spec_dummy_read_line(glob: ValueView, globs: Seq<ValueView>, i: int) -> Seq<
    char,
> {
    "    var _vg"@ + spec_dec(i) + " = buf."@ + spec_glob_name(glob, globs) + ";"@
}

/// The dummy reads of all registered globals, one per line.
pub open spec fn spec_dummy_reads(globs: Seq<ValueView>, n: int) -> Seq<char>
    decreases n,
{
    if n <= 0 || n > globs.len() {
        Seq::empty()
    } else if n == 1 {
        spec_dummy_read_line(globs[0], globs, 0)
    } else {
        spec_dummy_reads(globs, n - 1) + "\n"@ + spec_dummy_read_line(globs[n - 1], globs, n - 1)
    }
}

/// The rendered statements of a trace, one per line.
pub open spec fn spec_ops_code(
    ops: Seq<crate::operations::OperationView>,
    types: Seq<Ty>,
    globs: Seq<ValueView>,
    n: int,
) -> Seq<char>
    decreases n,
{
    if n <= 0 || n > ops.len() {
        Seq::empty()
    } else if n == 1 {
        spec_operation_code(ops[0], types, globs)
    } else {
        spec_ops_code(ops, types, globs, n - 1) + "\n"@ + spec_operation_code(
            ops[n - 1],
            types,
            globs,
        )
    }
}

/// The rendered text of one kernel: the fixed entry point, the dummy
/// global reads, then one statement per recorded instruction, in trace
/// order.
pub open spec fn spec_compute_shader_code(
    ops: Seq<crate::operations::OperationView>,
    types: Seq<Ty>,
    globs: Seq<ValueView>,
) -> Seq<char> {
    "@compute @workgroup_size(1, 1, 1)\nfn main() {\n"@ + spec_dummy_reads(
        globs,
        globs.len() as int,
    ) + "\n"@ + spec_ops_code(ops, types, globs, ops.len() as int) + "\n}"@
}

/// Appends the rendered declaration of the record type `t`.
fn append_struct_decl(s: &mut String, t: &GpuTypeDetails, types: &Vec<GpuTypeDetails>)
    requires
        t@ is Struct,
    ensures
        final(s)@ == old(s)@ + spec_struct_decl(t@, types_view(types@)),
{
    s.append("struct ");
    append_type_name(s, t, types);
    s.append(" {\n");
    let ghost prefix = s@;
    let ghost vfields = t@->fields;
    match t {
        GpuTypeDetails::Struct { fields } => {
            proof {
                assert(vfields =~= types_view(fields@));
            }
            let mut i: usize = 0;
            while i < fields.len()
                invariant
                    0 <= i <= fields@.len(),
                    *t == (GpuTypeDetails::Struct { fields: *fields }),
                    vfields == t@->fields,
                    vfields.len() == fields@.len(),
                    forall|j: int| 0 <= j < fields@.len() ==> vfields[j]
                        == #[trigger] fields@[j]@,
                    s@ == prefix + spec_struct_fields(vfields, types_view(types@), i as int),
                decreases fields@.len() - i,
            {
                if i > 0 {
                    s.append("\n");
                }
                s.append("    ");
                s.append("f");
                append_usize(s, i);
                s.append(": ");
                append_type_name(s, &fields[i], types);
                s.append(",");
                proof {
                    assert(s@ =~= prefix + spec_struct_fields(
                        vfields,
                        types_view(types@),
                        i + 1,
                    ));
                }
                i += 1;
            }
        },
        _ => {
            proof {
                assert(false);
            }
        },
    }
    s.append("\n}");
    proof {
        assert(s@ =~= old(s)@ + spec_struct_decl(t@, types_view(types@)));
    }
}

/// The rendered header for the given registry and globals.
pub fn header_code(types: &Vec<GpuTypeDetails>, globs: &Vec<GpuValue>) -> (r: String)
    requires
        forall|i: int|
            0 <= i < types@.len() ==> ty_resolvable(
                #[trigger] types_view(types@)[i],
                types_view(types@),
            ),
        forall|i: int|
            0 <= i < globs@.len() ==> ty_resolvable(
                #[trigger] values_view(globs@)[i].type_,
                types_view(types@),
            ),
    ensures
        r@ == spec_header_code(types_view(types@), values_view(globs@)),
{
    let mut s = String::new();
    if globs.len() == 0 {
        proof {
            assert(s@ =~= spec_header_code(types_view(types@), values_view(globs@)));
        }
        return s;
    }
    let ghost gv = values_view(globs@);
    let ghost tv = types_view(types@);
    s.append("@group(0) @binding(0)\nvar<storage, read_write> buf: Buf;\n\nstruct Buf {\n");
    let ghost prefix = s@;
    let mut i: usize = 0;
    while i < globs.len()
        invariant
            0 <= i <= globs@.len(),
            globs@.len() >= 1,
            gv == values_view(globs@),
            tv == types_view(types@),
            gv.len() == globs@.len(),
            forall|j: int| 0 <= j < globs@.len() ==> gv[j] == #[trigger] globs@[j]@,
            s@ == prefix + spec_buffer_fields(gv, tv, i as int),
        decreases globs@.len() - i,
    {
        proof {
            assert(gv[i as int] == globs@[i as int]@);
            assert(gv[i as int].type_ == globs@[i as int].type_@);
        }
        if i > 0 {
            s.append("\n");
        }
        s.append("    ");
        let index = globs[i].root_index(globs);
        s.append("g");
        match index {
            Some(p) => {
                append_usize(&mut s, p);
            },
            None => {
                append_usize(&mut s, 0);
            },
        }
        s.append(": ");
        append_type_name(&mut s, &globs[i].type_, types);
        s.append(",");
        proof {
            assert(s@ =~= prefix + spec_buffer_fields(gv, tv, i + 1));
        }
        i += 1;
    }
    s.append("\n}\n\n");
    let ghost prefix2 = s@;
    let mut k: usize = 0;
    let mut emitted: usize = 0;
    while k < types.len()
        invariant
            0 <= k <= types@.len(),
            gv == values_view(globs@),
            tv == types_view(types@),
            tv.len() == types@.len(),
            forall|j: int| 0 <= j < types@.len() ==> tv[j] == #[trigger] types@[j]@,
            emitted <= k,
            emitted == spec_struct_count(tv, k as int),
            s@ == prefix2 + spec_struct_decls(tv, k as int),
        decreases types@.len() - k,
    {
        let is_struct = matches!(&types[k], GpuTypeDetails::Struct { .. });
        proof {
            assert(is_struct == (tv[k as int] is Struct));
        }
        if is_struct {
            if emitted > 0 {
                s.append("\n");
            }
            append_struct_decl(&mut s, &types[k], types);
            emitted += 1;
        }
        proof {
            assert(s@ =~= prefix2 + spec_struct_decls(tv, k + 1));
        }
        k += 1;
    }
    s.append("\n\n");
    proof {
        assert(s@ =~= spec_header_code(tv, gv));
    }
    s
}

/// The rendered text of one kernel from its recorded trace.
pub fn compute_shader_code(
    ctx: &crate::context::GpuContext,
    types: &Vec<GpuTypeDetails>,
    globs: &Vec<GpuValue>,
) -> (r: String)
    requires
        forall|i: int|
            0 <= i < ctx.operations@.len() ==> op_renderable(
                #[trigger] crate::operations::ops_view(ctx.operations@)[i],
                types_view(types@),
                values_view(globs@),
            ),
    ensures
        r@ == spec_compute_shader_code(
            crate::operations::ops_view(ctx.operations@),
            types_view(types@),
            values_view(globs@),
        ),
{
    let ghost gv = values_view(globs@);
    let ghost tv = types_view(types@);
    let ghost ov = crate::operations::ops_view(ctx.operations@);
    let mut s = String::new();
    s.append("@compute @workgroup_size(1, 1, 1)\nfn main() {\n");
    let ghost prefix = s@;
    let mut i: usize = 0;
    while i < globs.len()
        invariant
            0 <= i <= globs@.len(),
            gv == values_view(globs@),
            gv.len() == globs@.len(),
            s@ == prefix + spec_dummy_reads(gv, i as int),
        decreases globs@.len() - i,
    {
        proof {
            assert(gv[i as int] == globs@[i as int]@);
        }
        if i > 0 {
            s.append("\n");
        }
        s.append("    var _vg");
        append_usize(&mut s, i);
        s.append(" = buf.");
        let index = globs[i].root_index(globs);
        s.append("g");
        match index {
            Some(p) => {
                append_usize(&mut s, p);
            },
            None => {
                append_usize(&mut s, 0);
            },
        }
        s.append(";");
        proof {
            assert(s@ =~= prefix + spec_dummy_reads(gv, i + 1));
        }
        i += 1;
    }
    s.append("\n");
    let ghost prefix2 = s@;
    let mut k: usize = 0;
    while k < ctx.operations.len()
        invariant
            0 <= k <= ctx.operations@.len(),
            gv == values_view(globs@),
            tv == types_view(types@),
            ov == crate::operations::ops_view(ctx.operations@),
            ov.len() == ctx.operations@.len(),
            forall|j: int| 0 <= j < ov.len() ==> ov[j] == #[trigger] ctx.operations@[j]@,
            s@ == prefix2 + spec_ops_code(ov, tv, gv, k as int),
        decreases ctx.operations@.len() - k,
    {
        if k > 0 {
            s.append("\n");
        }
        append_operation_code(&mut s, &ctx.operations[k], types, globs);
        proof {
            assert(s@ =~= prefix2 + spec_ops_code(ov, tv, gv, k + 1));
        }
        k += 1;
    }
    s.append("\n}");
    proof {
        assert(s@ =~= spec_compute_shader_code(ov, tv, gv));
    }
    s
}

} // verus!
