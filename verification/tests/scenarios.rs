//! End-to-end scenarios: recorded programs are executed by a small
//! interpreter of the operation trace that stands in for the device
//! layer, storing every scalar value as a 32-bit word exactly as the
//! shared storage buffer would.

use ragna::App;
use ragna::Bool;
use ragna::Cpu;
use ragna::Gpu;
use ragna::GpuContext;
use ragna::GpuTypeDetails;
use ragna::GpuValue;
use ragna::GpuValueRoot;
use ragna::I32;
use ragna::Operation;
use ragna::Wgsl;

enum Flow {
    Normal,
    Break,
    Continue,
}

type Address = (GpuValueRoot, Vec<ragna::GpuValueExt>);

type Memory = Vec<(Address, u32)>;

fn lookup(mem: &Memory, address: &Address) -> u32 {
    mem.iter().find(|entry| entry.0 == *address).map(|entry| entry.1).unwrap_or(0)
}

fn store(mem: &mut Memory, address: Address, value: u32) {
    for entry in mem.iter_mut() {
        if entry.0 == address {
            entry.1 = value;
            return;
        }
    }
    mem.push((address, value));
}

fn addr(value: &GpuValue) -> Address {
    (value.root, value.extensions.clone())
}

/// Copies a value of any shape: the word at the source address itself
/// and the words at every address extending it, so that whole-record
/// assignments carry all their leaves over.
fn copy_value(mem: &mut Memory, left: &Address, right: &Address) {
    let mut copied: Vec<(Address, u32)> = Vec::new();
    for ((root, exts), word) in mem.iter() {
        if *root == right.0 && exts.len() >= right.1.len() && exts[..right.1.len()] == right.1[..] {
            let mut target = left.1.clone();
            target.extend_from_slice(&exts[right.1.len()..]);
            copied.push(((left.0, target), *word));
        }
    }
    if copied.is_empty() {
        copied.push((left.clone(), lookup(mem, right)));
    }
    for (address, word) in copied {
        store(mem, address, word);
    }
}

fn is_signed(value: &GpuValue) -> bool {
    matches!(value.type_, GpuTypeDetails::I32)
}

fn constant_bits(text: &str) -> u32 {
    text.parse::<i64>().expect("unsupported constant text") as i32 as u32
}

fn unary_bits(operator: &str, value: u32) -> u32 {
    match operator {
        "-" => (value as i32).wrapping_neg() as u32,
        "!" => {
            if value == 0 {
                1
            } else {
                0
            }
        }
        _ => panic!("unsupported unary operator"),
    }
}

fn binary_bits(operator: &str, signed: bool, left: u32, right: u32) -> u32 {
    let sl = left as i32;
    let sr = right as i32;
    match operator {
        "+" => {
            if signed {
                sl.wrapping_add(sr) as u32
            } else {
                left.wrapping_add(right)
            }
        }
        "-" => {
            if signed {
                sl.wrapping_sub(sr) as u32
            } else {
                left.wrapping_sub(right)
            }
        }
        "*" => {
            if signed {
                sl.wrapping_mul(sr) as u32
            } else {
                left.wrapping_mul(right)
            }
        }
        "/" => {
            if signed {
                (sl / sr) as u32
            } else {
                left / right
            }
        }
        "%" => {
            if signed {
                (sl % sr) as u32
            } else {
                left % right
            }
        }
        "==" => (left == right) as u32,
        ">" => {
            if signed {
                (sl > sr) as u32
            } else {
                (left > right) as u32
            }
        }
        "&&" => (left != 0 && right != 0) as u32,
        "||" => (left != 0 || right != 0) as u32,
        _ => panic!("unsupported binary operator"),
    }
}

/// The position of the matching alternative marker and block end of the
/// block opened at `start`.
fn find_matching(ops: &[Operation], start: usize) -> (Option<usize>, usize) {
    let mut depth = 0usize;
    let mut alternative = None;
    let mut i = start + 1;
    while i < ops.len() {
        match &ops[i] {
            Operation::IfBlock(_) | Operation::LoopBlock => depth += 1,
            Operation::ElseBlock => {
                if depth == 0 {
                    alternative = Some(i);
                }
            }
            Operation::EndBlock => {
                if depth == 0 {
                    return (alternative, i);
                }
                depth -= 1;
            }
            _ => {}
        }
        i += 1;
    }
    panic!("unterminated block");
}

fn run_range(ops: &[Operation], lo: usize, hi: usize, mem: &mut Memory) -> Flow {
    let mut i = lo;
    while i < hi {
        match &ops[i] {
            Operation::DeclareVar(op) => {
                store(mem, (GpuValueRoot::Var(op.id), Vec::new()), 0);
                i += 1;
            }
            Operation::AssignVar(op) => {
                copy_value(mem, &addr(&op.left_value), &addr(&op.right_value));
                i += 1;
            }
            Operation::ConstantAssignVar(op) => {
                let bits = match &op.right_value {
                    Wgsl::Value(text) => constant_bits(text),
                    Wgsl::Constructor(_) => panic!("unsupported constant"),
                };
                store(mem, addr(&op.left_value), bits);
                i += 1;
            }
            Operation::Unary(op) => {
                let value = lookup(mem, &addr(&op.value));
                store(mem, addr(&op.var), unary_bits(op.operator, value));
                i += 1;
            }
            Operation::Binary(op) => {
                let left = lookup(mem, &addr(&op.left_value));
                let right = lookup(mem, &addr(&op.right_value));
                let signed = is_signed(&op.left_value);
                store(mem, addr(&op.var), binary_bits(op.operator, signed, left, right));
                i += 1;
            }
            Operation::IfBlock(op) => {
                let (alternative, end) = find_matching(ops, i);
                let taken = lookup(mem, &addr(&op.condition)) != 0;
                let flow = if taken {
                    run_range(ops, i + 1, alternative.unwrap_or(end), mem)
                } else if let Some(alt) = alternative {
                    run_range(ops, alt + 1, end, mem)
                } else {
                    Flow::Normal
                };
                if !matches!(flow, Flow::Normal) {
                    return flow;
                }
                i = end + 1;
            }
            Operation::LoopBlock => {
                let (_, end) = find_matching(ops, i);
                let mut guard = 0usize;
                loop {
                    guard += 1;
                    assert!(guard < 100_000, "runaway loop");
                    if matches!(run_range(ops, i + 1, end, mem), Flow::Break) {
                        break;
                    }
                }
                i = end + 1;
            }
            Operation::Break => return Flow::Break,
            Operation::Continue => return Flow::Continue,
            Operation::FnCall(_) => panic!("unsupported call"),
            Operation::ElseBlock | Operation::EndBlock => panic!("stray block marker"),
        }
    }
    Flow::Normal
}

fn run_app(app: &App, mem: &mut Memory) {
    run_range(&app.init_ctx.operations, 0, app.init_ctx.operations.len(), mem);
    for ctx in &app.contexts {
        run_range(&ctx.operations, 0, ctx.operations.len(), mem);
    }
}

fn read_i32(app: &App, mem: &Memory, glob: &I32) -> Option<i32> {
    let value = glob.value();
    let (_, len) = app.glob_byte_range(&value)?;
    assert_eq!(len, 4);
    let word = lookup(mem, &addr(&value));
    Some(<i32 as Cpu>::from_gpu(&word.to_le_bytes()))
}

fn read_bool(app: &App, mem: &Memory, glob: &Bool) -> Option<bool> {
    let value = glob.value();
    let (_, len) = app.glob_byte_range(&value)?;
    assert_eq!(len, 4);
    let word = lookup(mem, &addr(&value));
    Some(<bool as Cpu>::from_gpu(&word.to_le_bytes()))
}

fn i32_glob(app: &mut App, id: u64, default: i32) -> I32 {
    let glob: I32 = ragna::create_glob(id);
    let default = default.to_gpu(&mut app.init_ctx);
    let taken = std::mem::take(app);
    *app = taken.with_glob(&glob, &default);
    glob
}

#[test]
fn scenario_arithmetic() {
    let mut app = App::default();
    let sum = i32_glob(&mut app, 0, 0);
    let difference = i32_glob(&mut app, 1, 0);
    let product = i32_glob(&mut app, 2, 0);
    let quotient = i32_glob(&mut app, 3, 0);
    let remainder = i32_glob(&mut app, 4, 0);
    let mut ctx = GpuContext::new();
    let one = 1i32.to_gpu(&mut ctx);
    let two = 2i32.to_gpu(&mut ctx);
    let four = 4i32.to_gpu(&mut ctx);
    let five = 5i32.to_gpu(&mut ctx);
    let r1: I32 = ragna::apply_binary_op(&mut ctx, &one, &two, "+");
    ragna::assign(&mut ctx, &sum, &r1);
    let r2: I32 = ragna::apply_binary_op(&mut ctx, &one, &two, "-");
    ragna::assign(&mut ctx, &difference, &r2);
    let r3: I32 = ragna::apply_binary_op(&mut ctx, &four, &two, "*");
    ragna::assign(&mut ctx, &product, &r3);
    let r4: I32 = ragna::apply_binary_op(&mut ctx, &four, &two, "/");
    ragna::assign(&mut ctx, &quotient, &r4);
    let r5: I32 = ragna::apply_binary_op(&mut ctx, &five, &two, "%");
    ragna::assign(&mut ctx, &remainder, &r5);
    let app = app.with_compute(ctx);
    let mut mem = Memory::new();
    run_app(&app, &mut mem);
    assert_eq!(read_i32(&app, &mem, &sum), Some(3));
    assert_eq!(read_i32(&app, &mem, &difference), Some(-1));
    assert_eq!(read_i32(&app, &mem, &product), Some(8));
    assert_eq!(read_i32(&app, &mem, &quotient), Some(2));
    assert_eq!(read_i32(&app, &mem, &remainder), Some(1));
}

/// Records `while (bound > i) { body...; i = i + 1 }` around the given
/// body recorder.
fn record_counted_loop(
    ctx: &mut GpuContext,
    counter: &I32,
    bound: i32,
    body: impl FnOnce(&mut GpuContext, &I32),
) {
    ragna::loop_block(ctx);
    let limit = bound.to_gpu(ctx);
    let cond: Bool = ragna::apply_binary_op(ctx, &limit, counter, ">");
    ragna::if_block(ctx, &cond);
    body(ctx, counter);
    let one = 1i32.to_gpu(ctx);
    let next: I32 = ragna::apply_binary_op(ctx, counter, &one, "+");
    ragna::assign(ctx, counter, &next);
    ragna::else_block(ctx);
    ragna::break_(ctx);
    ragna::end_block(ctx);
    ragna::end_block(ctx);
}

#[test]
fn scenario_control_flow() {
    // a while loop summing 0..=9 into a global yields 45
    let mut app = App::default();
    let total = i32_glob(&mut app, 0, 0);
    let mut ctx = GpuContext::new();
    let zero = 0i32.to_gpu(&mut ctx);
    let counter: I32 = ragna::create_var(&mut ctx, &zero);
    record_counted_loop(&mut ctx, &counter, 10, |ctx, counter| {
        let updated: I32 = ragna::apply_binary_op(ctx, &total, counter, "+");
        ragna::assign(ctx, &total, &updated);
    });
    let app = app.with_compute(ctx);
    let mut mem = Memory::new();
    run_app(&app, &mut mem);
    assert_eq!(read_i32(&app, &mem, &total), Some(45));
}

#[test]
fn scenario_control_flow_with_break() {
    // the same loop leaving once the counter passes 4 yields 15
    let mut app = App::default();
    let total = i32_glob(&mut app, 0, 0);
    let mut ctx = GpuContext::new();
    let zero = 0i32.to_gpu(&mut ctx);
    let counter: I32 = ragna::create_var(&mut ctx, &zero);
    record_counted_loop(&mut ctx, &counter, 10, |ctx, counter| {
        let updated: I32 = ragna::apply_binary_op(ctx, &total, counter, "+");
        ragna::assign(ctx, &total, &updated);
        let four = 4i32.to_gpu(ctx);
        let past: Bool = ragna::apply_binary_op(ctx, counter, &four, ">");
        ragna::if_block(ctx, &past);
        ragna::break_(ctx);
        ragna::end_block(ctx);
    });
    let app = app.with_compute(ctx);
    let mut mem = Memory::new();
    run_app(&app, &mut mem);
    assert_eq!(read_i32(&app, &mem, &total), Some(15));
}

#[test]
fn scenario_boolean_round_trip() {
    // a boolean global initialized to true and negated once reads back
    // false; negating twice round-trips to the original value
    let mut app = App::default();
    let negated_once: Bool = ragna::create_glob(0);
    let negated_twice: Bool = ragna::create_glob(1);
    let default = true.to_gpu(&mut app.init_ctx);
    let other_default = true.to_gpu(&mut app.init_ctx);
    let mut app = app.with_glob(&negated_once, &default).with_glob(
        &negated_twice,
        &other_default,
    );
    let mut ctx = GpuContext::new();
    let flip: Bool = ragna::apply_unary_op(&mut ctx, &negated_once, "!");
    ragna::assign(&mut ctx, &negated_once, &flip);
    let first: Bool = ragna::apply_unary_op(&mut ctx, &negated_twice, "!");
    let second: Bool = ragna::apply_unary_op(&mut ctx, &first, "!");
    ragna::assign(&mut ctx, &negated_twice, &second);
    app = app.with_compute(ctx);
    let mut mem = Memory::new();
    run_app(&app, &mut mem);
    assert_eq!(read_bool(&app, &mem, &negated_once), Some(false));
    assert_eq!(read_bool(&app, &mem, &negated_twice), Some(true));
}

#[test]
fn scenario_nested_records() {
    // a global of a nested record type {start: {start, end}, end:
    // {start, end}} built as (1..2)..(3..4): its inner field start.end
    // sits one scalar past the start of the buffer, and mutating it to
    // 5 then reading everything back yields (1..5)..(3..4)
    let mut app = App::default();
    let glob: ragna::Range<ragna::Range<ragna::U32>> = ragna::create_glob(0);
    let one = 1u32.to_gpu(&mut app.init_ctx);
    let two = 2u32.to_gpu(&mut app.init_ctx);
    let low = ragna::Range::new(&mut app.init_ctx, &one, &two);
    let three = 3u32.to_gpu(&mut app.init_ctx);
    let four = 4u32.to_gpu(&mut app.init_ctx);
    let high = ragna::Range::new(&mut app.init_ctx, &three, &four);
    let default = ragna::Range::new(&mut app.init_ctx, &low, &high);
    let mut app = app.with_glob(&glob, &default);
    let mut ctx = GpuContext::new();
    let five = 5u32.to_gpu(&mut ctx);
    ragna::assign(&mut ctx, &glob.start.end, &five);
    app = app.with_compute(ctx);
    // start.end lives at the offset of the outer first field plus one
    // scalar's size inside it
    let inner = GpuTypeDetails::Struct {
        fields: vec![GpuTypeDetails::U32, GpuTypeDetails::U32],
    };
    let outer = GpuTypeDetails::Struct { fields: vec![inner.clone(), inner.clone()] };
    assert_eq!(outer.field_offset(0) + inner.field_offset(1), GpuTypeDetails::U32.size());
    assert_eq!(app.glob_byte_range(&glob.value()), Some((0, 16)));
    let mut mem = Memory::new();
    run_app(&app, &mut mem);
    assert_eq!(lookup(&mem, &addr(&glob.start.start.value())), 1);
    assert_eq!(lookup(&mem, &addr(&glob.start.end.value())), 5);
    assert_eq!(lookup(&mem, &addr(&glob.end.start.value())), 3);
    assert_eq!(lookup(&mem, &addr(&glob.end.end.value())), 4);
}

#[test]
fn scenario_rewritten_loop() {
    // the same summing loop written in the embedded language, lowered
    // by the rewriting pass and executed: the counter runs to 10
    // through the rewritten `<`, accumulating 45
    let mut app = App::default();
    let total = i32_glob(&mut app, 0, 0);
    let counter = i32_glob(&mut app, 1, 0);
    let program = vec![ragna::DslStmt::While {
        condition: ragna::DslExpr::Binary {
            op: ragna::DslBinOp::Lt,
            left: Box::new(ragna::DslExpr::Glob { id: 1, type_: ragna::DslType::I32 }),
            right: Box::new(ragna::DslExpr::LitI32(10)),
        },
        body: vec![
            ragna::DslStmt::Assign {
                target_id: 0,
                target_type: ragna::DslType::I32,
                value: ragna::DslExpr::Binary {
                    op: ragna::DslBinOp::Add,
                    left: Box::new(ragna::DslExpr::Glob { id: 0, type_: ragna::DslType::I32 }),
                    right: Box::new(ragna::DslExpr::Glob { id: 1, type_: ragna::DslType::I32 }),
                },
            },
            ragna::DslStmt::Assign {
                target_id: 1,
                target_type: ragna::DslType::I32,
                value: ragna::DslExpr::Binary {
                    op: ragna::DslBinOp::Add,
                    left: Box::new(ragna::DslExpr::Glob { id: 1, type_: ragna::DslType::I32 }),
                    right: Box::new(ragna::DslExpr::LitI32(1)),
                },
            },
        ],
    }];
    let ctx = ragna::lower_kernel(&program).unwrap();
    let app = app.with_compute(ctx);
    let mut mem = Memory::new();
    run_app(&app, &mut mem);
    assert_eq!(read_i32(&app, &mem, &total), Some(45));
    assert_eq!(read_i32(&app, &mem, &counter), Some(10));
}

#[test]
fn scenario_derived_addresses_read_no_data() {
    // only an address equal to a registered global yields a byte range:
    // a field inside a global resolves to no data, like a local or an
    // unregistered value
    let mut app = App::default();
    let glob: ragna::Range<ragna::U32> = ragna::Range::glob(0);
    let one = 1u32.to_gpu(&mut app.init_ctx);
    let two = 2u32.to_gpu(&mut app.init_ctx);
    let default = ragna::Range::new(&mut app.init_ctx, &one, &two);
    let app = app.with_glob(&glob, &default);
    assert_eq!(app.glob_byte_range(&glob.value()), Some((0, 8)));
    assert_eq!(app.glob_byte_range(&glob.start.value()), None);
    assert_eq!(app.glob_byte_range(&glob.end.value()), None);
}

#[test]
fn scenario_unused_and_unregistered_globs() {
    // of two registered globals only one is ever assigned by a kernel:
    // the unused one still reads back its declared default, while a
    // global never registered at all yields no data
    let mut app = App::default();
    let used = i32_glob(&mut app, 0, 10);
    let unused = i32_glob(&mut app, 1, 20);
    let mut ctx = GpuContext::new();
    let thirty = 30i32.to_gpu(&mut ctx);
    ragna::assign(&mut ctx, &used, &thirty);
    let app = app.with_compute(ctx);
    // the two scalars sit side by side in the shared buffer
    assert_eq!(app.glob_byte_range(&used.value()), Some((0, 4)));
    assert_eq!(app.glob_byte_range(&unused.value()), Some((4, 4)));
    let mut mem = Memory::new();
    run_app(&app, &mut mem);
    assert_eq!(read_i32(&app, &mem, &used), Some(30));
    assert_eq!(read_i32(&app, &mem, &unused), Some(20));
    let unregistered: I32 = ragna::create_glob(99);
    assert_eq!(read_i32(&app, &mem, &unregistered), None);
}
