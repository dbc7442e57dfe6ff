//! What the generated instructions do when they run: a small model of the
//! stack machine, as far as the generated bodies use it.

use vstd::prelude::*;
use crate::model::ValueKind;
use crate::ops::{Cast, Op};
use crate::wire::{narrow_spec, ArgType};

verus! {

/// What a function takes and returns.
pub struct Callee {
    pub params: Seq<ValueKind>,
    pub result: Option<ValueKind>,
}

/// What surrounds a running function: the functions it can call by index,
/// the function types it can name, and what the calls it makes return.
pub struct World {
    /// The signature of the function with a given index.
    pub functions: spec_fn(u32) -> Callee,
    /// The function type with a given index.
    pub types: spec_fn(u32) -> Callee,
    /// The bits that the call made after `n` earlier ones returns; a call
    /// that returns a value of some kind returns the value of that kind
    /// which these bits carry.
    pub answers: spec_fn(int) -> u64,
}

/// A call that a running function made.
pub enum Event {
    /// A call of the function with this index.
    Call { function: u32, args: Seq<ArgType> },
    /// A call, under the given function type, of the function at position
    /// `slot` of a table.
    CallIndirect { table: u32, slot: i32, type_index: u32, args: Seq<ArgType> },
}

/// How a run ends: with the values left on the stack and the calls made, or
/// in a state from which the machine cannot go on.
pub enum Outcome {
    Done { stack: Seq<ArgType>, trace: Seq<Event> },
    Stuck,
}

/// What a change of representation makes of a value, if it applies to it.
pub open spec fn cast_spec(cast: Cast, value: ArgType) -> Option<ArgType> {
    match (cast, value) {
        (Cast::I32WrapI64, ArgType::I64(v)) => Some(ArgType::I32(v as i32)),
        (Cast::I64ExtendI32U, ArgType::I32(v)) => Some(ArgType::I64((v as u32) as i64)),
        (Cast::F32ReinterpretI32, ArgType::I32(v)) => Some(ArgType::F32(v as u32)),
        (Cast::F64ReinterpretI64, ArgType::I64(v)) => Some(ArgType::F64(v as u64)),
        (Cast::I32ReinterpretF32, ArgType::F32(bits)) => Some(ArgType::I32(bits as i32)),
        (Cast::I64ReinterpretF64, ArgType::F64(bits)) => Some(ArgType::I64(bits as i64)),
        _ => None,
    }
}

/// The values are of the kinds given, one for one.
pub open spec fn of_kinds(values: Seq<ArgType>, kinds: Seq<ValueKind>) -> bool {
    values.len() == kinds.len() && forall|i: int|
        0 <= i < values.len() ==> (#[trigger] values[i]).kind_spec() == kinds[i]
}

/// The position behind the `End` that closes a block, seen from a position
/// inside the block at which `depth` more blocks are open.
pub open spec fn block_end(ops: Seq<Op>, pc: int, depth: nat) -> int
    decreases ops.len() - pc,
{
    if pc < 0 || pc >= ops.len() {
        ops.len() as int
    } else {
        match ops[pc] {
            Op::If => block_end(ops, pc + 1, depth + 1),
            Op::End => if depth == 0 {
                pc + 1
            } else {
                block_end(ops, pc + 1, (depth - 1) as nat)
            },
            _ => block_end(ops, pc + 1, depth),
        }
    }
}

/// The end of a block lies behind every position inside it.
pub proof fn lemma_block_end_advances(ops: Seq<Op>, pc: int, depth: nat)
    requires
        0 <= pc <= ops.len(),
    ensures
        pc <= block_end(ops, pc, depth) <= ops.len(),
    decreases ops.len() - pc,
{
    if pc < ops.len() {
        match ops[pc] {
            Op::If => lemma_block_end_advances(ops, pc + 1, depth + 1),
            Op::End => if depth != 0 {
                lemma_block_end_advances(ops, pc + 1, (depth - 1) as nat)
            },
            _ => lemma_block_end_advances(ops, pc + 1, depth),
        }
    }
}

/// The stack after a call: the arguments are taken off, and the value that
/// the call returns, if it returns one, is put on.
pub open spec fn after_call(
    stack: Seq<ArgType>,
    callee: Callee,
    world: World,
    calls_before: int,
) -> Seq<ArgType> {
    let kept = stack.take(stack.len() - callee.params.len());
    match callee.result {
        Some(kind) => kept.push(narrow_spec(kind, (world.answers)(calls_before))),
        None => kept,
    }
}

/// The arguments of a call: the topmost values of the stack, as many as
/// the callee takes.
pub open spec fn call_args(stack: Seq<ArgType>, callee: Callee) -> Seq<ArgType> {
    stack.skip(stack.len() - callee.params.len())
}

/// Runs `ops` from position `pc` on, in a function whose parameters hold
/// `locals`, with `stack` as the values computed and `trace` as the calls
/// made so far.
#[verifier::opaque]
pub open spec fn run_from(
    ops: Seq<Op>,
    pc: int,
    locals: Seq<ArgType>,
    world: World,
    stack: Seq<ArgType>,
    trace: Seq<Event>,
) -> Outcome
    decreases ops.len() - pc,
{
    if pc < 0 {
        Outcome::Stuck
    } else if pc >= ops.len() {
        Outcome::Done { stack, trace }
    } else {
        let top = stack.len() - 1;
        match ops[pc] {
            Op::LocalGet(i) => if i < locals.len() {
                run_from(ops, pc + 1, locals, world, stack.push(locals[i as int]), trace)
            } else {
                Outcome::Stuck
            },
            Op::I32Const(v) => run_from(
                ops,
                pc + 1,
                locals,
                world,
                stack.push(ArgType::I32(v)),
                trace,
            ),
            Op::I64Const(v) => run_from(
                ops,
                pc + 1,
                locals,
                world,
                stack.push(ArgType::I64(v)),
                trace,
            ),
            Op::I32Eq => if stack.len() >= 2 && stack[top] is I32 && stack[top - 1] is I32 {
                let equal: i32 = if stack[top - 1]->I32_0 == stack[top]->I32_0 {
                    1
                } else {
                    0
                };
                run_from(ops, pc + 1, locals, world, stack.take(top - 1).push(ArgType::I32(equal)), trace)
            } else {
                Outcome::Stuck
            },
            Op::I32And => if stack.len() >= 2 && stack[top] is I32 && stack[top - 1] is I32 {
                let both: i32 = stack[top - 1]->I32_0 & stack[top]->I32_0;
                run_from(ops, pc + 1, locals, world, stack.take(top - 1).push(ArgType::I32(both)), trace)
            } else {
                Outcome::Stuck
            },
            Op::If => if stack.len() >= 1 && stack[top] is I32 {
                if stack[top]->I32_0 != 0 {
                    run_from(ops, pc + 1, locals, world, stack.take(top), trace)
                } else {
                    proof {
                        lemma_block_end_advances(ops, pc + 1, 0);
                    }
                    run_from(ops, block_end(ops, pc + 1, 0), locals, world, stack.take(top), trace)
                }
            } else {
                Outcome::Stuck
            },
            Op::End => run_from(ops, pc + 1, locals, world, stack, trace),
            Op::Return => Outcome::Done { stack, trace },
            Op::Call(function) => {
                let callee = (world.functions)(function);
                if stack.len() >= callee.params.len() && of_kinds(
                    call_args(stack, callee),
                    callee.params,
                ) {
                    run_from(
                        ops,
                        pc + 1,
                        locals,
                        world,
                        after_call(stack, callee, world, trace.len() as int),
                        trace.push(Event::Call { function, args: call_args(stack, callee) }),
                    )
                } else {
                    Outcome::Stuck
                }
            },
            Op::CallIndirect { type_index, table_index } => {
                let callee = (world.types)(type_index);
                if stack.len() >= 1 && stack[top] is I32 && top >= callee.params.len() && of_kinds(
                    call_args(stack.take(top), callee),
                    callee.params,
                ) {
                    run_from(
                        ops,
                        pc + 1,
                        locals,
                        world,
                        after_call(stack.take(top), callee, world, trace.len() as int),
                        trace.push(
                            Event::CallIndirect {
                                table: table_index,
                                slot: stack[top]->I32_0,
                                type_index,
                                args: call_args(stack.take(top), callee),
                            },
                        ),
                    )
                } else {
                    Outcome::Stuck
                }
            },
            Op::Cast(cast) => if stack.len() >= 1 && cast_spec(cast, stack[top]) is Some {
                run_from(
                    ops,
                    pc + 1,
                    locals,
                    world,
                    stack.take(top).push(cast_spec(cast, stack[top])->0),
                    trace,
                )
            } else {
                Outcome::Stuck
            },
        }
    }
}

/// Runs a function body on the arguments given.
pub open spec fn run(ops: Seq<Op>, args: Seq<ArgType>, world: World) -> Outcome {
    run_from(ops, 0, args, world, Seq::empty(), Seq::empty())
}

/// Behind the last instruction the run is over.
pub proof fn lemma_run_over(
    ops: Seq<Op>,
    pc: int,
    locals: Seq<ArgType>,
    world: World,
    stack: Seq<ArgType>,
    trace: Seq<Event>,
)
    requires
        pc >= ops.len(),
        pc >= 0,
    ensures
        run_from(ops, pc, locals, world, stack, trace) == (Outcome::Done { stack, trace }),
{
    reveal(run_from);
}

/// `Return` ends the run.
pub proof fn lemma_run_return(
    ops: Seq<Op>,
    pc: int,
    locals: Seq<ArgType>,
    world: World,
    stack: Seq<ArgType>,
    trace: Seq<Event>,
)
    requires
        0 <= pc < ops.len(),
        ops[pc] == Op::Return,
    ensures
        run_from(ops, pc, locals, world, stack, trace) == (Outcome::Done { stack, trace }),
{
    reveal(run_from);
}

/// `LocalGet` puts the value of a parameter on the stack.
pub proof fn lemma_run_local_get(
    ops: Seq<Op>,
    pc: int,
    locals: Seq<ArgType>,
    world: World,
    stack: Seq<ArgType>,
    trace: Seq<Event>,
    i: u32,
)
    requires
        0 <= pc < ops.len(),
        ops[pc] == Op::LocalGet(i),
        i < locals.len(),
    ensures
        run_from(ops, pc, locals, world, stack, trace) == run_from(
            ops,
            pc + 1,
            locals,
            world,
            stack.push(locals[i as int]),
            trace,
        ),
{
    reveal(run_from);
}

/// A constant is put on the stack.
pub proof fn lemma_run_const(
    ops: Seq<Op>,
    pc: int,
    locals: Seq<ArgType>,
    world: World,
    stack: Seq<ArgType>,
    trace: Seq<Event>,
)
    requires
        0 <= pc < ops.len(),
        ops[pc] is I32Const || ops[pc] is I64Const,
    ensures
        run_from(ops, pc, locals, world, stack, trace) == run_from(
            ops,
            pc + 1,
            locals,
            world,
            stack.push(
                match ops[pc] {
                    Op::I32Const(v) => ArgType::I32(v),
                    Op::I64Const(v) => ArgType::I64(v),
                    _ => arbitrary(),
                },
            ),
            trace,
        ),
{
    reveal(run_from);
}

/// `I32Eq` replaces two 32-bit integers by one if they are equal and by
/// zero if they are not.
pub proof fn lemma_run_i32_eq(
    ops: Seq<Op>,
    pc: int,
    locals: Seq<ArgType>,
    world: World,
    below: Seq<ArgType>,
    a: i32,
    b: i32,
    trace: Seq<Event>,
)
    requires
        0 <= pc < ops.len(),
        ops[pc] == Op::I32Eq,
    ensures
        run_from(
            ops,
            pc,
            locals,
            world,
            below.push(ArgType::I32(a)).push(ArgType::I32(b)),
            trace,
        ) == run_from(
            ops,
            pc + 1,
            locals,
            world,
            below.push(
                ArgType::I32(
                    if a == b {
                        1i32
                    } else {
                        0i32
                    },
                ),
            ),
            trace,
        ),
{
    reveal(run_from);
    let stack = below.push(ArgType::I32(a)).push(ArgType::I32(b));
    assert(stack.take(stack.len() - 2) =~= below);
}

/// `I32And` replaces two 32-bit integers by their bitwise conjunction.
pub proof fn lemma_run_i32_and(
    ops: Seq<Op>,
    pc: int,
    locals: Seq<ArgType>,
    world: World,
    below: Seq<ArgType>,
    a: i32,
    b: i32,
    trace: Seq<Event>,
)
    requires
        0 <= pc < ops.len(),
        ops[pc] == Op::I32And,
    ensures
        run_from(
            ops,
            pc,
            locals,
            world,
            below.push(ArgType::I32(a)).push(ArgType::I32(b)),
            trace,
        ) == run_from(ops, pc + 1, locals, world, below.push(ArgType::I32(a & b)), trace),
{
    reveal(run_from);
    let stack = below.push(ArgType::I32(a)).push(ArgType::I32(b));
    assert(stack.take(stack.len() - 2) =~= below);
}

/// `If` takes a 32-bit integer off the stack and goes on inside the block
/// if it is not zero, and behind the block if it is zero.
pub proof fn lemma_run_if(
    ops: Seq<Op>,
    pc: int,
    locals: Seq<ArgType>,
    world: World,
    below: Seq<ArgType>,
    condition: i32,
    trace: Seq<Event>,
)
    requires
        0 <= pc < ops.len(),
        ops[pc] == Op::If,
    ensures
        run_from(ops, pc, locals, world, below.push(ArgType::I32(condition)), trace) == run_from(
            ops,
            if condition != 0 {
                pc + 1
            } else {
                block_end(ops, pc + 1, 0)
            },
            locals,
            world,
            below,
            trace,
        ),
{
    reveal(run_from);
    let stack = below.push(ArgType::I32(condition));
    assert(stack.take(stack.len() - 1) =~= below);
}

/// `End` closes a block and does nothing else.
pub proof fn lemma_run_end(
    ops: Seq<Op>,
    pc: int,
    locals: Seq<ArgType>,
    world: World,
    stack: Seq<ArgType>,
    trace: Seq<Event>,
)
    requires
        0 <= pc < ops.len(),
        ops[pc] == Op::End,
    ensures
        run_from(ops, pc, locals, world, stack, trace) == run_from(
            ops,
            pc + 1,
            locals,
            world,
            stack,
            trace,
        ),
{
    reveal(run_from);
}

/// What a call leaves on the stack in place of its arguments.
pub open spec fn returned(callee: Callee, world: World, calls_before: int) -> Seq<ArgType> {
    match callee.result {
        Some(kind) => seq![narrow_spec(kind, (world.answers)(calls_before))],
        None => Seq::empty(),
    }
}

/// `Call` takes the arguments of the callee off the stack, records the
/// call, and puts what the call returns on the stack.
pub proof fn lemma_run_call(
    ops: Seq<Op>,
    pc: int,
    locals: Seq<ArgType>,
    world: World,
    below: Seq<ArgType>,
    args: Seq<ArgType>,
    trace: Seq<Event>,
    function: u32,
)
    requires
        0 <= pc < ops.len(),
        ops[pc] == Op::Call(function),
        of_kinds(args, (world.functions)(function).params),
    ensures
        run_from(ops, pc, locals, world, below + args, trace) == run_from(
            ops,
            pc + 1,
            locals,
            world,
            below + returned((world.functions)(function), world, trace.len() as int),
            trace.push(Event::Call { function, args }),
        ),
{
    reveal(run_from);
    let stack = below + args;
    let callee = (world.functions)(function);
    assert(stack.skip(stack.len() - callee.params.len()) =~= args);
    assert(stack.take(stack.len() - callee.params.len()) =~= below);
    assert(after_call(stack, callee, world, trace.len() as int) =~= below + returned(
        callee,
        world,
        trace.len() as int,
    ));
}

/// `CallIndirect` takes the slot and then the arguments off the stack,
/// records the call, and puts what the call returns on the stack.
pub proof fn lemma_run_call_indirect(
    ops: Seq<Op>,
    pc: int,
    locals: Seq<ArgType>,
    world: World,
    below: Seq<ArgType>,
    args: Seq<ArgType>,
    slot: i32,
    trace: Seq<Event>,
    type_index: u32,
    table_index: u32,
)
    requires
        0 <= pc < ops.len(),
        ops[pc] == (Op::CallIndirect { type_index, table_index }),
        of_kinds(args, (world.types)(type_index).params),
    ensures
        run_from(ops, pc, locals, world, (below + args).push(ArgType::I32(slot)), trace)
            == run_from(
            ops,
            pc + 1,
            locals,
            world,
            below + returned((world.types)(type_index), world, trace.len() as int),
            trace.push(Event::CallIndirect { table: table_index, slot, type_index, args }),
        ),
{
    reveal(run_from);
    let stack = (below + args).push(ArgType::I32(slot));
    let inner = below + args;
    let callee = (world.types)(type_index);
    assert(stack.take(stack.len() - 1) =~= inner);
    assert(inner.skip(inner.len() - callee.params.len()) =~= args);
    assert(inner.take(inner.len() - callee.params.len()) =~= below);
    assert(after_call(inner, callee, world, trace.len() as int) =~= below + returned(
        callee,
        world,
        trace.len() as int,
    ));
}

/// `Cast` replaces the value on top of the stack by its other
/// representation.
pub proof fn lemma_run_cast(
    ops: Seq<Op>,
    pc: int,
    locals: Seq<ArgType>,
    world: World,
    below: Seq<ArgType>,
    value: ArgType,
    trace: Seq<Event>,
    cast: Cast,
)
    requires
        0 <= pc < ops.len(),
        ops[pc] == Op::Cast(cast),
        cast_spec(cast, value) is Some,
    ensures
        run_from(ops, pc, locals, world, below.push(value), trace) == run_from(
            ops,
            pc + 1,
            locals,
            world,
            below.push(cast_spec(cast, value)->0),
            trace,
        ),
{
    reveal(run_from);
    let stack = below.push(value);
    assert(stack.take(stack.len() - 1) =~= below);
}

} // verus!
