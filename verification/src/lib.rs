//! A verified compiler core for an embedded GPU-kernel language.
//!
//! Programs are recorded as an ordered operation trace against a
//! [`GpuContext`], using symbolic value addresses and structural type
//! descriptions, and the trace is then rendered as WGSL compute-shader
//! text.  The device layer that compiles and dispatches the generated
//! text is outside this crate; the library exposes the generated shader
//! sources and the byte range of every registered global so that any
//! runtime can execute them and hand raw bytes back.

pub mod app;
pub mod array;
pub mod context;
pub mod dsl;
pub mod gpu;
pub mod instructions;
pub mod operations;
pub mod operators;
pub mod primitive;
pub mod range;
pub mod testing;
pub mod text;
pub mod types;
pub mod values;
pub mod vectors;
pub mod wgsl;

pub use app::App;
pub use array::Array;
pub use context::GpuContext;
pub use context::IndexVarEntry;
pub use dsl::DslBinOp;
pub use dsl::DslError;
pub use dsl::DslExpr;
pub use dsl::DslStmt;
pub use dsl::DslType;
pub use dsl::DslUnOp;
pub use dsl::DslValue;
pub use dsl::expr_type;
pub use dsl::lower_expr;
pub use dsl::lower_kernel;
pub use dsl::lower_stmt;
pub use dsl::lower_stmts;
pub use gpu::Cpu;
pub use gpu::Gpu;
pub use gpu::Iterable;
pub use instructions::assign;
pub use instructions::break_;
pub use instructions::call_fn;
pub use instructions::continue_;
pub use instructions::create_glob;
pub use instructions::create_index_var;
pub use instructions::create_uninit_var;
pub use instructions::create_var;
pub use instructions::else_block;
pub use instructions::end_block;
pub use instructions::if_block;
pub use instructions::loop_block;
pub use instructions::materialize_constant;
pub use operations::Operation;
pub use operations::OperationView;
pub use operations::Wgsl;
pub use operations::WgslConstructor;
pub use operations::WgslView;
pub use operators::apply_binary_op;
pub use operators::apply_unary_op;
pub use primitive::Bool;
pub use primitive::F32;
pub use primitive::I32;
pub use primitive::U32;
pub use range::Range;
pub use range::select;
pub use testing::TextureData;
pub use testing::texture_diff;
pub use types::GpuTypeDetails;
pub use types::ScalarKind;
pub use types::Ty;
pub use values::GpuValue;
pub use values::GpuValueExt;
pub use values::GpuValueRoot;
pub use values::ValueView;
pub use vectors::F32x2;
pub use vectors::F32x3;
pub use vectors::F32x4;
pub use vectors::I32x2;
pub use vectors::I32x3;
pub use vectors::I32x4;
pub use vectors::U32x2;
pub use vectors::U32x3;
pub use vectors::U32x4;
