//! The operation trace: the ordered instruction list recorded for one
//! kernel body.
//!
//! Each [`Operation`] is one statement of the generated kernel; the order
//! of the trace is the textual order of the statements.  Constant
//! materialization carries [`Wgsl`] fragments: either literal text or a
//! typed constructor applied to nested fragments.

use vstd::prelude::*;
use crate::types::GpuTypeDetails;
use crate::types::Ty;
use crate::values::GpuValue;
use crate::values::ValueView;

verus! {

/// Literal or constructor text for a materialized constant.
pub enum Wgsl {
    /// Verbatim literal text.
    Value(String),
    /// A typed constructor applied to nested fragments.
    Constructor(WgslConstructor),
}

/// A constructor call of a composite type's value.
pub struct WgslConstructor {
    pub type_: GpuTypeDetails,
    pub args: Vec<Wgsl>,
}

/// The mathematical model of a constant fragment.
pub enum WgslView {
    Value(Seq<char>),
    Constructor { type_: Ty, args: Seq<WgslView> },
}

impl Wgsl {
    /// The model of this fragment.
    pub open spec fn model(&self) -> WgslView
        decreases self,
    {
        match self {
            Wgsl::Value(text) => WgslView::Value(text@),
            Wgsl::Constructor(c) => WgslView::Constructor {
                type_: c.type_@,
                args: Seq::new(
                    c.args.len() as nat,
                    |i: int|
                        if 0 <= i < c.args.len() {
                            c.args[i].model()
                        } else {
                            WgslView::Value(Seq::empty())
                        },
                ),
            },
        }
    }
}

impl View for Wgsl {
    type V = WgslView;

    open spec fn view(&self) -> WgslView {
        self.model()
    }
}

/// A local variable declaration.
pub struct DeclareVarOperation {
    pub id: u32,
    pub type_: GpuTypeDetails,
}

/// An assignment of one address's value to another address.
pub struct AssignVarOperation {
    pub left_value: GpuValue,
    pub right_value: GpuValue,
}

/// An assignment of constant text to an address.
pub struct ConstantAssignVarOperation {
    pub left_value: GpuValue,
    pub right_value: Wgsl,
}

/// A unary operator applied to an operand, stored into `var`.
pub struct UnaryOperation {
    pub var: GpuValue,
    pub value: GpuValue,
    pub operator: &'static str,
}

/// A binary operator applied to two operands, stored into `var`.
pub struct BinaryOperation {
    pub var: GpuValue,
    pub left_value: GpuValue,
    pub right_value: GpuValue,
    pub operator: &'static str,
}

/// A function call over argument addresses, stored into `var`.
pub struct FnCallOperation {
    pub var: GpuValue,
    pub fn_name: &'static str,
    pub args: Vec<GpuValue>,
    /// Whether the called function takes and returns real booleans, so
    /// that integer-backed boolean operands must be converted.
    pub is_supporting_bool: bool,
}

/// The opening of a conditional block.
pub struct IfOperation {
    pub condition: GpuValue,
}

/// One recorded instruction of a kernel body.
pub enum Operation {
    DeclareVar(DeclareVarOperation),
    AssignVar(AssignVarOperation),
    ConstantAssignVar(ConstantAssignVarOperation),
    Unary(UnaryOperation),
    Binary(BinaryOperation),
    FnCall(FnCallOperation),
    IfBlock(IfOperation),
    ElseBlock,
    LoopBlock,
    EndBlock,
    Break,
    Continue,
}

/// The mathematical model of one instruction.
#[allow(inconsistent_fields)]
pub enum OperationView {
    DeclareVar { id: int, type_: Ty },
    AssignVar { left_value: ValueView, right_value: ValueView },
    ConstantAssignVar { left_value: ValueView, right_value: WgslView },
    Unary { var: ValueView, value: ValueView, operator: Seq<char> },
    Binary { var: ValueView, left_value: ValueView, right_value: ValueView, operator: Seq<char> },
    FnCall { var: ValueView, fn_name: Seq<char>, args: Seq<ValueView>, is_supporting_bool: bool },
    IfBlock { condition: ValueView },
    ElseBlock,
    LoopBlock,
    EndBlock,
    Break,
    Continue,
}

impl View for Operation {
    type V = OperationView;

    open spec fn view(&self) -> OperationView {
        match self {
            Operation::DeclareVar(op) => OperationView::DeclareVar {
                id: op.id as int,
                type_: op.type_@,
            },
            Operation::AssignVar(op) => OperationView::AssignVar {
                left_value: op.left_value@,
                right_value: op.right_value@,
            },
            Operation::ConstantAssignVar(op) => OperationView::ConstantAssignVar {
                left_value: op.left_value@,
                right_value: op.right_value@,
            },
            Operation::Unary(op) => OperationView::Unary {
                var: op.var@,
                value: op.value@,
                operator: op.operator@,
            },
            Operation::Binary(op) => OperationView::Binary {
                var: op.var@,
                left_value: op.left_value@,
                right_value: op.right_value@,
                operator: op.operator@,
            },
            Operation::FnCall(op) => OperationView::FnCall {
                var: op.var@,
                fn_name: op.fn_name@,
                args: crate::values::values_view(op.args@),
                is_supporting_bool: op.is_supporting_bool,
            },
            Operation::IfBlock(op) => OperationView::IfBlock { condition: op.condition@ },
            Operation::ElseBlock => OperationView::ElseBlock,
            Operation::LoopBlock => OperationView::LoopBlock,
            Operation::EndBlock => OperationView::EndBlock,
            Operation::Break => OperationView::Break,
            Operation::Continue => OperationView::Continue,
        }
    }
}

/// The deep view of a trace.
pub open spec fn ops_view(ops: Seq<Operation>) -> Seq<OperationView> {
    ops.map_values(|op: Operation| op@)
}

} // verus!
