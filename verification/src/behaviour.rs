//! What the generated bodies do when they run.

use vstd::prelude::*;
use crate::callstack::{appended, appended_all, lemma_call_is_nested, opened};
use crate::machine::{
    block_end, lemma_run_call, lemma_run_call_indirect, lemma_run_cast,
    lemma_run_const, lemma_run_i32_and, lemma_run_i32_eq, lemma_run_if, lemma_run_local_get,
    lemma_run_over, lemma_run_return, of_kinds, returned, run, run_from, Callee, Event, Outcome,
    World,
};
use crate::model::ValueKind;
use crate::layout::converter_params;
use crate::ops::{
    arg_type_case, arg_type_cases, arg_type_cases_of, arg_type_table, converter_args,
    converter_body, converter_result, forward_args, narrow_ops, widen_ops, Cast,
    return_type_case, return_type_cases, return_type_table, router_body, router_case,
    router_cases, thunk_args, thunk_body, Op, Protocol, MAX_HOST_PARAMS,
};
use crate::table::EntryView;
use crate::wire::{narrow_spec, widen_spec, ArgType};

verus! {

/// The tag of a kind, or of "no value".
pub open spec fn tag_of(kind: Option<ValueKind>) -> i32 {
    match kind {
        Some(k) => k.tag_spec() as i32,
        None => 0,
    }
}

/// What the result table answers for slot `f`: the tag of the kind that the
/// function in this slot returns, and zero if it returns nothing or if
/// there is no such slot.
pub open spec fn result_tag(table: Seq<EntryView>, f: i32) -> i32 {
    if 0 <= f < table.len() {
        tag_of(table[f as int].result_kind())
    } else {
        0
    }
}

/// Where the case of slot `i` starts in the result table.
spec fn return_offset(table: Seq<EntryView>, i: int) -> int {
    return_type_cases(table, i).len() as int
}

proof fn lemma_return_case_at(table: Seq<EntryView>, n: int, i: int)
    requires
        0 <= i < n,
    ensures
        return_offset(table, i + 1) == return_offset(table, i) + return_type_case(
            i,
            table[i].result_kind(),
        ).len(),
        return_offset(table, i + 1) <= return_offset(table, n),
        forall|k: int|
            0 <= k < return_type_case(i, table[i].result_kind()).len()
                ==> #[trigger] return_type_cases(table, n)[return_offset(table, i) + k]
                == return_type_case(i, table[i].result_kind())[k],
    decreases n,
{
    if n > i + 1 {
        lemma_return_case_at(table, n - 1, i);
    }
}

/// What the result table answers for `f` from the case of slot `i` on.
spec fn result_tag_from(table: Seq<EntryView>, f: i32, i: int) -> i32 {
    if i <= f {
        result_tag(table, f)
    } else {
        0
    }
}

proof fn lemma_return_scan(table: Seq<EntryView>, f: i32, world: World, i: int)
    requires
        0 <= i <= table.len() <= i32::MAX,
    ensures
        run_from(
            return_type_table(table),
            return_offset(table, i),
            seq![ArgType::I32(f)],
            world,
            Seq::empty(),
            Seq::empty(),
        ) == (Outcome::Done {
            stack: seq![ArgType::I32(result_tag_from(table, f, i))],
            trace: Seq::empty(),
        }),
    decreases table.len() - i,
{
    let body = return_type_table(table);
    let n = table.len() as int;
    let locals = seq![ArgType::I32(f)];
    let none = Seq::<ArgType>::empty();
    let quiet = Seq::<Event>::empty();
    let p = return_offset(table, i);
    if i == n {
        assert(body[p] == Op::I32Const(0));
        assert(body[p + 1] == Op::Return);
        lemma_run_const(body, p, locals, world, none, quiet);
        lemma_run_return(body, p + 1, locals, world, none.push(ArgType::I32(0)), quiet);
        assert(none.push(ArgType::I32(0)) =~= seq![ArgType::I32(0)]);
    } else {
        lemma_return_case_at(table, n, i);
        lemma_return_scan(table, f, world, i + 1);
        match table[i].result_kind() {
            None => {},
            Some(kind) => {
                let case = return_type_case(i, table[i].result_kind());
                assert forall|k: int| 0 <= k < 7 implies body[p + k] == case[k] by {
                    assert(return_type_cases(table, n)[p + k] == case[k]);
                }
                assert(body[p] == Op::LocalGet(0));
                assert(body[p + 1] == Op::I32Const(i as i32));
                assert(body[p + 2] == Op::I32Eq);
                assert(body[p + 3] == Op::If);
                assert(body[p + 4] == Op::I32Const(kind.tag_spec() as i32));
                assert(body[p + 5] == Op::Return);
                assert(body[p + 6] == Op::End);
                let hit: i32 = if f == i as i32 {
                    1
                } else {
                    0
                };
                lemma_run_local_get(body, p, locals, world, none, quiet, 0);
                lemma_run_const(body, p + 1, locals, world, none.push(ArgType::I32(f)), quiet);
                lemma_run_i32_eq(body, p + 2, locals, world, none, f, i as i32, quiet);
                lemma_run_if(body, p + 3, locals, world, none, hit, quiet);
                if f == i as i32 {
                    lemma_run_const(body, p + 4, locals, world, none, quiet);
                    lemma_run_return(
                        body,
                        p + 5,
                        locals,
                        world,
                        none.push(ArgType::I32(kind.tag_spec() as i32)),
                        quiet,
                    );
                    assert(none.push(ArgType::I32(kind.tag_spec() as i32)) =~= seq![
                        ArgType::I32(result_tag_from(table, f, i)),
                    ]);
                } else {
                    reveal_with_fuel(block_end, 4);
                    assert(block_end(body, p + 4, 0) == p + 7);
                }
            },
        }
    }
}

/// The result table answers with the tag of the kind that the function in
/// the slot asked for returns; with zero if that function returns nothing
/// or if there is no such slot. It calls nothing.
pub proof fn lemma_result_table_answers(table: Seq<EntryView>, f: i32, world: World)
    requires
        table.len() <= i32::MAX,
    ensures
        run(return_type_table(table), seq![ArgType::I32(f)], world) == (Outcome::Done {
            stack: seq![ArgType::I32(result_tag(table, f))],
            trace: Seq::empty(),
        }),
{
    lemma_return_scan(table, f, world, 0);
}

/// The world offers the protocol: the function that opens a call takes and
/// returns nothing; the function that appends an argument takes a value of
/// its kind; the function that runs a call takes the index of the export
/// and returns a value of its kind, or nothing.
pub open spec fn offers(world: World, protocol: Protocol) -> bool {
    &&& (world.functions)(protocol.arg_start) == Callee { params: Seq::empty(), result: None }
    &&& forall|kind: ValueKind| #[trigger]
        (world.functions)(protocol.push_of(kind)) == Callee { params: seq![kind], result: None }
    &&& forall|result: Option<ValueKind>| #[trigger]
        (world.functions)(protocol.invoke_of(result)) == Callee {
            params: seq![ValueKind::Int32],
            result,
        }
}

/// The calls by which a thunk hands over the first `k` of its arguments:
/// one that opens the call, then one per argument, in order, each through
/// the function for the argument's kind.
pub open spec fn handing_over(args: Seq<ArgType>, protocol: Protocol, k: int) -> Seq<Event> {
    Seq::new(
        (k + 1) as nat,
        |j: int|
            if j == 0 {
                Event::Call { function: protocol.arg_start, args: Seq::empty() }
            } else {
                Event::Call {
                    function: protocol.push_of(args[j - 1].kind_spec()),
                    args: seq![args[j - 1]],
                }
            },
    )
}

/// All the calls that a thunk makes: it hands over its arguments and then
/// has the export with its index run.
pub open spec fn thunk_trace(
    args: Seq<ArgType>,
    result: Option<ValueKind>,
    index: i32,
    protocol: Protocol,
) -> Seq<Event> {
    handing_over(args, protocol, args.len() as int).push(
        Event::Call { function: protocol.invoke_of(result), args: seq![ArgType::I32(index)] },
    )
}

proof fn lemma_thunk_arg_at(params: Seq<ValueKind>, protocol: Protocol, n: int, i: int)
    requires
        0 <= i < n,
    ensures
        thunk_args(params, protocol, n).len() == 2 * n,
        thunk_args(params, protocol, n)[2 * i] == Op::LocalGet(i as u32),
        thunk_args(params, protocol, n)[2 * i + 1] == Op::Call(protocol.push_of(params[i])),
    decreases n,
{
    if n > i + 1 {
        lemma_thunk_arg_at(params, protocol, n - 1, i);
    } else {
        lemma_thunk_args_len(params, protocol, n - 1);
    }
}

proof fn lemma_thunk_args_len(params: Seq<ValueKind>, protocol: Protocol, n: int)
    requires
        0 <= n,
    ensures
        thunk_args(params, protocol, n).len() == 2 * n,
    decreases n,
{
    if n > 0 {
        lemma_thunk_args_len(params, protocol, n - 1);
    }
}

proof fn lemma_thunk_scan(
    args: Seq<ArgType>,
    params: Seq<ValueKind>,
    result: Option<ValueKind>,
    index: i32,
    protocol: Protocol,
    world: World,
    i: int,
)
    requires
        0 <= i <= args.len() <= u32::MAX,
        of_kinds(args, params),
        offers(world, protocol),
    ensures
        run_from(
            thunk_body(params, result, index, protocol),
            1 + 2 * i,
            args,
            world,
            Seq::empty(),
            handing_over(args, protocol, i),
        ) == (Outcome::Done {
            stack: returned(
                Callee { params: seq![ValueKind::Int32], result },
                world,
                (args.len() + 1) as int,
            ),
            trace: thunk_trace(args, result, index, protocol),
        }),
    decreases args.len() - i,
{
    let body = thunk_body(params, result, index, protocol);
    let n = args.len() as int;
    let none = Seq::<ArgType>::empty();
    let trace = handing_over(args, protocol, i);
    let p = 1 + 2 * i;
    lemma_thunk_args_len(params, protocol, n);
    if i == n {
        assert(body[p] == Op::I32Const(index));
        assert(body[p + 1] == Op::Call(protocol.invoke_of(result)));
        let invoke = protocol.invoke_of(result);
        let callee = (world.functions)(invoke);
        let arg = seq![ArgType::I32(index)];
        lemma_run_const(body, p, args, world, none, trace);
        assert(none.push(ArgType::I32(index)) =~= none + arg);
        lemma_run_call(body, p + 1, args, world, none, arg, trace, invoke);
        assert(none + returned(callee, world, trace.len() as int) =~= returned(
            callee,
            world,
            n + 1,
        ));
        lemma_run_over(
            body,
            p + 2,
            args,
            world,
            returned(callee, world, n + 1),
            thunk_trace(args, result, index, protocol),
        );
    } else {
        lemma_thunk_arg_at(params, protocol, n, i);
        assert(body[p] == Op::LocalGet(i as u32)) by {
            assert(body[p] == thunk_args(params, protocol, n)[2 * i]);
        }
        assert(body[p + 1] == Op::Call(protocol.push_of(params[i]))) by {
            assert(body[p + 1] == thunk_args(params, protocol, n)[2 * i + 1]);
        }
        let push = protocol.push_of(params[i]);
        let callee = (world.functions)(push);
        let arg = seq![args[i]];
        lemma_run_local_get(body, p, args, world, none, trace, i as u32);
        assert(none.push(args[i]) =~= none + arg);
        assert(of_kinds(arg, callee.params));
        lemma_run_call(body, p + 1, args, world, none, arg, trace, push);
        assert(none + returned(callee, world, trace.len() as int) =~= none);
        assert(trace.push(Event::Call { function: push, args: arg }) =~= handing_over(
            args,
            protocol,
            i + 1,
        ));
        lemma_thunk_scan(args, params, result, index, protocol, world, i + 1);
    }
}

/// A thunk that is called with arguments of the kinds of its parameters
/// opens a call, hands over the arguments one by one, in order and each
/// through the function for its kind, and has the export with its index
/// run; it returns what that call returns.
pub proof fn lemma_thunk_hands_over(
    args: Seq<ArgType>,
    params: Seq<ValueKind>,
    result: Option<ValueKind>,
    index: i32,
    protocol: Protocol,
    world: World,
)
    requires
        args.len() <= u32::MAX,
        of_kinds(args, params),
        offers(world, protocol),
    ensures
        run(thunk_body(params, result, index, protocol), args, world) == (Outcome::Done {
            stack: returned(
                Callee { params: seq![ValueKind::Int32], result },
                world,
                (args.len() + 1) as int,
            ),
            trace: thunk_trace(args, result, index, protocol),
        }),
{
    let body = thunk_body(params, result, index, protocol);
    let none = Seq::<ArgType>::empty();
    let quiet = Seq::<Event>::empty();
    let start = protocol.arg_start;
    assert(body[0] == Op::Call(start));
    assert(none =~= none + none);
    lemma_run_call(body, 0, args, world, none, none, quiet, start);
    assert(none + returned((world.functions)(start), world, 0) =~= none);
    assert(quiet.push(Event::Call { function: start, args: none }) =~= handing_over(
        args,
        protocol,
        0,
    ));
    lemma_thunk_scan(args, params, result, index, protocol, world, 0);
}

/// What the calls of a trace that open a call or append an argument make of
/// the calls under assembly.
pub open spec fn assembled(
    trace: Seq<Event>,
    protocol: Protocol,
    stack: Seq<Seq<ArgType>>,
) -> Seq<Seq<ArgType>>
    decreases trace.len(),
{
    if trace.len() == 0 {
        stack
    } else {
        let before = assembled(trace.drop_last(), protocol, stack);
        match trace.last() {
            Event::Call { function, args } => if function == protocol.arg_start {
                opened(before)
            } else if args.len() == 1 && function == protocol.push_of(args[0].kind_spec()) {
                appended(before, args[0])
            } else {
                before
            },
            _ => before,
        }
    }
}

/// When a thunk has handed over its arguments, the call on top of the calls
/// under assembly holds exactly these arguments, in order and in kind, and
/// the calls below it are as they were.
pub proof fn lemma_thunk_assembles_its_arguments(
    args: Seq<ArgType>,
    protocol: Protocol,
    stack: Seq<Seq<ArgType>>,
)
    requires
        forall|kind: ValueKind| #[trigger] protocol.push_of(kind) != protocol.arg_start,
    ensures
        assembled(handing_over(args, protocol, args.len() as int), protocol, stack) == stack.push(
            args,
        ),
{
    lemma_assembled_prefix(args, protocol, stack, args.len() as int);
    assert(args.take(args.len() as int) =~= args);
    lemma_call_is_nested(stack, args);
    let top = appended_all(opened(stack), args);
    assert(top =~= top.drop_last().push(top.last()));
}

proof fn lemma_assembled_prefix(
    args: Seq<ArgType>,
    protocol: Protocol,
    stack: Seq<Seq<ArgType>>,
    k: int,
)
    requires
        0 <= k <= args.len(),
        forall|kind: ValueKind| #[trigger] protocol.push_of(kind) != protocol.arg_start,
    ensures
        assembled(handing_over(args, protocol, k), protocol, stack) == appended_all(
            opened(stack),
            args.take(k),
        ),
    decreases k,
{
    let trace = handing_over(args, protocol, k);
    assert(trace.len() == k + 1);
    if k == 0 {
        assert(trace.drop_last() =~= Seq::<Event>::empty());
        assert(assembled(trace.drop_last(), protocol, stack) == stack);
        assert(trace.last() == Event::Call { function: protocol.arg_start, args: Seq::empty() });
        assert(assembled(trace, protocol, stack) == opened(stack));
        assert(args.take(0) =~= Seq::<ArgType>::empty());
        assert(appended_all(opened(stack), args.take(0)) == opened(stack));
    } else {
        lemma_assembled_prefix(args, protocol, stack, k - 1);
        assert(trace.drop_last() =~= handing_over(args, protocol, k - 1));
        assert(args.take(k).drop_last() =~= args.take(k - 1));
        assert(args.take(k).last() == args[k - 1]);
        assert(protocol.push_of(args[k - 1].kind_spec()) != protocol.arg_start);
        let before = assembled(trace.drop_last(), protocol, stack);
        assert(trace.last() == Event::Call {
            function: protocol.push_of(args[k - 1].kind_spec()),
            args: seq![args[k - 1]],
        });
        assert(assembled(trace, protocol, stack) == appended(before, args[k - 1]));
        assert(appended_all(opened(stack), args.take(k)) == appended(
            appended_all(opened(stack), args.take(k).drop_last()),
            args.take(k).last(),
        ));
    }
}

/// What the argument table answers for parameter `a` of slot `f`: the tag
/// of the parameter's kind, and zero if there is no such parameter or no
/// such slot.
pub open spec fn arg_tag(table: Seq<EntryView>, f: i32, a: i32) -> i32 {
    if 0 <= f < table.len() && 0 <= a < table[f as int].params.len() {
        table[f as int].params[a as int].tag_spec() as i32
    } else {
        0
    }
}

/// What the argument table answers from the case of parameter `j` of slot
/// `i` on.
spec fn arg_tag_from(table: Seq<EntryView>, f: i32, a: i32, i: int, j: int) -> i32 {
    if f > i || (f == i && a >= j) {
        arg_tag(table, f, a)
    } else {
        0
    }
}

/// Where the cases of slot `i` start in the argument table.
spec fn arg_offset(table: Seq<EntryView>, i: int) -> int {
    arg_type_cases(table, i).len() as int
}

proof fn lemma_arg_cases_of_at(slot: int, params: Seq<ValueKind>, n: int, j: int)
    requires
        0 <= j < n,
    ensures
        arg_type_cases_of(slot, params, n).len() == 11 * n,
        forall|k: int|
            0 <= k < 11 ==> #[trigger] arg_type_cases_of(slot, params, n)[11 * j + k]
                == arg_type_case(slot, j, params[j])[k],
    decreases n,
{
    lemma_arg_cases_of_len(slot, params, n - 1);
    if n > j + 1 {
        lemma_arg_cases_of_at(slot, params, n - 1, j);
    }
}

proof fn lemma_arg_cases_of_len(slot: int, params: Seq<ValueKind>, n: int)
    requires
        0 <= n,
    ensures
        arg_type_cases_of(slot, params, n).len() == 11 * n,
    decreases n,
{
    if n > 0 {
        lemma_arg_cases_of_len(slot, params, n - 1);
    }
}

proof fn lemma_arg_case_at(table: Seq<EntryView>, n: int, i: int, j: int)
    requires
        0 <= i < n,
        0 <= j < table[i].params.len(),
    ensures
        arg_offset(table, i + 1) == arg_offset(table, i) + 11 * table[i].params.len(),
        arg_offset(table, i + 1) <= arg_offset(table, n),
        forall|k: int|
            0 <= k < 11 ==> #[trigger] arg_type_cases(table, n)[arg_offset(table, i) + 11 * j + k]
                == arg_type_case(i, j, table[i].params[j])[k],
    decreases n,
{
    let params = table[i].params;
    lemma_arg_cases_of_at(i, params, params.len() as int, j);
    if n > i + 1 {
        lemma_arg_case_at(table, n - 1, i, j);
    } else {
        assert forall|k: int| 0 <= k < 11 implies #[trigger] arg_type_cases(table, n)[arg_offset(
            table,
            i,
        ) + 11 * j + k] == arg_type_case(i, j, params[j])[k] by {
            assert(arg_type_cases_of(i, params, params.len() as int)[11 * j + k]
                == arg_type_case(i, j, params[j])[k]);
        }
    }
}

proof fn lemma_arg_slot_len(table: Seq<EntryView>, n: int, i: int)
    requires
        0 <= i < n,
    ensures
        arg_offset(table, i + 1) == arg_offset(table, i) + 11 * table[i].params.len(),
        arg_offset(table, i + 1) <= arg_offset(table, n),
    decreases n,
{
    lemma_arg_cases_of_len(i, table[i].params, table[i].params.len() as int);
    if n > i + 1 {
        lemma_arg_slot_len(table, n - 1, i);
    }
}

proof fn lemma_arg_scan(table: Seq<EntryView>, f: i32, a: i32, world: World, i: int, j: int)
    requires
        0 <= i <= table.len() <= i32::MAX,
        forall|s: int| 0 <= s < table.len() ==> (#[trigger] table[s]).params.len() <= i32::MAX,
        i < table.len() ==> 0 <= j <= table[i].params.len(),
        i == table.len() ==> j == 0,
    ensures
        run_from(
            arg_type_table(table),
            arg_offset(table, i) + 11 * j,
            seq![ArgType::I32(f), ArgType::I32(a)],
            world,
            Seq::empty(),
            Seq::empty(),
        ) == (Outcome::Done {
            stack: seq![ArgType::I32(arg_tag_from(table, f, a, i, j))],
            trace: Seq::empty(),
        }),
    decreases table.len() - i, (if i < table.len() { table[i].params.len() - j } else { 0 }),
{
    let body = arg_type_table(table);
    let n = table.len() as int;
    let locals = seq![ArgType::I32(f), ArgType::I32(a)];
    let none = Seq::<ArgType>::empty();
    let quiet = Seq::<Event>::empty();
    if i == n {
        let p = arg_offset(table, n);
        assert(body[p] == Op::I32Const(0));
        assert(body[p + 1] == Op::Return);
        lemma_run_const(body, p, locals, world, none, quiet);
        lemma_run_return(body, p + 1, locals, world, none.push(ArgType::I32(0)), quiet);
        assert(none.push(ArgType::I32(0)) =~= seq![ArgType::I32(0)]);
    } else if j == table[i].params.len() {
        lemma_arg_slot_len(table, n, i);
        lemma_arg_scan(table, f, a, world, i + 1, 0);
    } else {
        let p = arg_offset(table, i) + 11 * j;
        let kind = table[i].params[j];
        let case = arg_type_case(i, j, kind);
        lemma_arg_case_at(table, n, i, j);
        assert forall|k: int| 0 <= k < 11 implies body[p + k] == case[k] by {
            assert(arg_type_cases(table, n)[arg_offset(table, i) + 11 * j + k] == case[k]);
        }
        assert(body[p] == Op::LocalGet(0));
        assert(body[p + 1] == Op::I32Const(i as i32));
        assert(body[p + 2] == Op::I32Eq);
        assert(body[p + 3] == Op::LocalGet(1));
        assert(body[p + 4] == Op::I32Const(j as i32));
        assert(body[p + 5] == Op::I32Eq);
        assert(body[p + 6] == Op::I32And);
        assert(body[p + 7] == Op::If);
        assert(body[p + 8] == Op::I32Const(kind.tag_spec() as i32));
        assert(body[p + 9] == Op::Return);
        assert(body[p + 10] == Op::End);
        let slot_hit: i32 = if f == i as i32 {
            1
        } else {
            0
        };
        let arg_hit: i32 = if a == j as i32 {
            1
        } else {
            0
        };
        let s1 = none.push(ArgType::I32(slot_hit));
        lemma_run_local_get(body, p, locals, world, none, quiet, 0);
        lemma_run_const(body, p + 1, locals, world, none.push(ArgType::I32(f)), quiet);
        lemma_run_i32_eq(body, p + 2, locals, world, none, f, i as i32, quiet);
        lemma_run_local_get(body, p + 3, locals, world, s1, quiet, 1);
        lemma_run_const(body, p + 4, locals, world, s1.push(ArgType::I32(a)), quiet);
        lemma_run_i32_eq(body, p + 5, locals, world, s1, a, j as i32, quiet);
        lemma_run_i32_and(body, p + 6, locals, world, none, slot_hit, arg_hit, quiet);
        assert(1i32 & 1i32 == 1i32) by (bit_vector);
        assert(1i32 & 0i32 == 0i32) by (bit_vector);
        assert(0i32 & 1i32 == 0i32) by (bit_vector);
        assert(0i32 & 0i32 == 0i32) by (bit_vector);
        lemma_run_if(body, p + 7, locals, world, none, slot_hit & arg_hit, quiet);
        if f == i as i32 && a == j as i32 {
            lemma_run_const(body, p + 8, locals, world, none, quiet);
            lemma_run_return(
                body,
                p + 9,
                locals,
                world,
                none.push(ArgType::I32(kind.tag_spec() as i32)),
                quiet,
            );
            assert(none.push(ArgType::I32(kind.tag_spec() as i32)) =~= seq![
                ArgType::I32(arg_tag_from(table, f, a, i, j)),
            ]);
        } else {
            reveal_with_fuel(block_end, 4);
            assert(block_end(body, p + 8, 0) == p + 11);
            lemma_arg_scan(table, f, a, world, i, j + 1);
        }
    }
}

/// The argument table answers with the tag of the kind of the parameter
/// asked for; with zero if the function in the slot has no such parameter
/// or if there is no such slot. It calls nothing.
pub proof fn lemma_arg_table_answers(table: Seq<EntryView>, f: i32, a: i32, world: World)
    requires
        table.len() <= i32::MAX,
        forall|s: int| 0 <= s < table.len() ==> (#[trigger] table[s]).params.len() <= i32::MAX,
    ensures
        run(arg_type_table(table), seq![ArgType::I32(f), ArgType::I32(a)], world) == (Outcome::Done {
            stack: seq![ArgType::I32(arg_tag(table, f, a))],
            trace: Seq::empty(),
        }),
{
    lemma_arg_scan(table, f, a, world, 0, 0);
    if f == 0 && a < 0 {
        assert(arg_tag(table, f, a) == 0);
    }
}

/// The end of a block is not among instructions that neither open nor close
/// a block.
proof fn lemma_block_end_skips(ops: Seq<Op>, pc: int, depth: nat, m: int)
    requires
        0 <= pc,
        0 <= m,
        pc + m <= ops.len(),
        forall|k: int| pc <= k < pc + m ==> !(#[trigger] ops[k] is If) && !(ops[k] is End),
    ensures
        block_end(ops, pc, depth) == block_end(ops, pc + m, depth),
    decreases m,
{
    if m > 0 {
        assert(!(ops[pc] is If) && !(ops[pc] is End));
        lemma_block_end_skips(ops, pc + 1, depth, m - 1);
    }
}

/// What the router is called with: the slot, and five wide integers.
pub open spec fn router_locals(f: i32, wides: Seq<u64>) -> Seq<ArgType> {
    seq![ArgType::I32(f)] + Seq::new(wides.len(), |i: int| ArgType::I64(wides[i] as i64))
}

/// What a converter is called with by the router: the slot, and the first
/// `arity` of the wide integers.
pub open spec fn converter_locals(f: i32, wides: Seq<u64>, arity: int) -> Seq<ArgType> {
    router_locals(f, wides.take(arity))
}

/// Every converter takes the slot and one wide integer per parameter of
/// its host function, and returns a wide integer.
pub open spec fn converts(world: World, table: Seq<EntryView>, converters: Seq<u32>) -> bool {
    forall|i: int|
        0 <= i < table.len() ==> (world.functions)(#[trigger] converters[i]) == Callee {
            params: converter_params(table[i].params.len() as int),
            result: Some(ValueKind::Int64),
        }
}

/// What the router does when asked for slot `f`: it calls the converter of
/// that slot with the slot and as many wide integers as the host function
/// has parameters, and returns what the converter returns. If there is no
/// such slot it calls nothing and returns zero.
pub open spec fn routed(
    table: Seq<EntryView>,
    converters: Seq<u32>,
    f: i32,
    wides: Seq<u64>,
    world: World,
) -> Outcome {
    if 0 <= f < table.len() {
        Outcome::Done {
            stack: seq![ArgType::I64((world.answers)(0) as i64)],
            trace: seq![
                Event::Call {
                    function: converters[f as int],
                    args: converter_locals(f, wides, table[f as int].params.len() as int),
                },
            ],
        }
    } else {
        Outcome::Done { stack: seq![ArgType::I64(0)], trace: Seq::empty() }
    }
}

spec fn routed_from(
    table: Seq<EntryView>,
    converters: Seq<u32>,
    f: i32,
    wides: Seq<u64>,
    world: World,
    i: int,
) -> Outcome {
    if i <= f {
        routed(table, converters, f, wides, world)
    } else {
        Outcome::Done { stack: seq![ArgType::I64(0)], trace: Seq::empty() }
    }
}

/// Where the case of slot `i` starts in the router.
spec fn router_offset(table: Seq<EntryView>, converters: Seq<u32>, i: int) -> int {
    router_cases(table, converters, i).len() as int
}

proof fn lemma_router_case_at(table: Seq<EntryView>, converters: Seq<u32>, n: int, i: int)
    requires
        0 <= i < n,
    ensures
        router_offset(table, converters, i + 1) == router_offset(table, converters, i) + 8
            + table[i].params.len(),
        router_offset(table, converters, i + 1) <= router_offset(table, converters, n),
        forall|k: int|
            0 <= k < 8 + table[i].params.len() ==> #[trigger] router_cases(
                table,
                converters,
                n,
            )[router_offset(table, converters, i) + k] == router_case(
                i,
                table[i].params.len() as int,
                converters[i],
            )[k],
    decreases n,
{
    if n > i + 1 {
        lemma_router_case_at(table, converters, n - 1, i);
    }
}

/// Passing on the arguments puts them on the stack, one after the other.
proof fn lemma_forward(
    body: Seq<Op>,
    start: int,
    locals: Seq<ArgType>,
    world: World,
    below: Seq<ArgType>,
    trace: Seq<Event>,
    arity: int,
    j: int,
)
    requires
        0 <= j <= arity,
        arity + 1 <= locals.len() <= u32::MAX,
        0 <= start,
        start + arity <= body.len(),
        forall|k: int| 0 <= k < arity ==> #[trigger] body[start + k] == Op::LocalGet((k + 1) as u32),
    ensures
        run_from(body, start + j, locals, world, below + locals.subrange(1, 1 + j), trace)
            == run_from(
            body,
            start + arity,
            locals,
            world,
            below + locals.subrange(1, 1 + arity),
            trace,
        ),
    decreases arity - j,
{
    if j < arity {
        assert(body[start + j] == Op::LocalGet((j + 1) as u32));
        lemma_run_local_get(
            body,
            start + j,
            locals,
            world,
            below + locals.subrange(1, 1 + j),
            trace,
            (j + 1) as u32,
        );
        assert((below + locals.subrange(1, 1 + j)).push(locals[j + 1]) =~= below
            + locals.subrange(1, 2 + j));
        lemma_forward(body, start, locals, world, below, trace, arity, j + 1);
    }
}

proof fn lemma_router_scan(
    table: Seq<EntryView>,
    converters: Seq<u32>,
    f: i32,
    wides: Seq<u64>,
    world: World,
    i: int,
)
    requires
        0 <= i <= table.len() <= i32::MAX,
        converters.len() == table.len(),
        wides.len() == MAX_HOST_PARAMS,
        forall|s: int| 0 <= s < table.len() ==> (#[trigger] table[s]).params.len() <= MAX_HOST_PARAMS,
        converts(world, table, converters),
    ensures
        run_from(
            router_body(table, converters),
            router_offset(table, converters, i),
            router_locals(f, wides),
            world,
            Seq::empty(),
            Seq::empty(),
        ) == routed_from(table, converters, f, wides, world, i),
    decreases table.len() - i,
{
    let body = router_body(table, converters);
    let n = table.len() as int;
    let locals = router_locals(f, wides);
    let none = Seq::<ArgType>::empty();
    let quiet = Seq::<Event>::empty();
    let p = router_offset(table, converters, i);
    assert(locals.len() == 6);
    assert(locals[0] == ArgType::I32(f));
    if i == n {
        assert(body[p] == Op::I64Const(0));
        assert(body[p + 1] == Op::Return);
        lemma_run_const(body, p, locals, world, none, quiet);
        lemma_run_return(body, p + 1, locals, world, none.push(ArgType::I64(0)), quiet);
        assert(none.push(ArgType::I64(0)) =~= seq![ArgType::I64(0)]);
    } else {
        let arity = table[i].params.len() as int;
        let converter = converters[i];
        let case = router_case(i, arity, converter);
        lemma_router_case_at(table, converters, n, i);
        assert forall|k: int| 0 <= k < 8 + arity implies body[p + k] == case[k] by {
            assert(router_cases(table, converters, n)[p + k] == case[k]);
        }
        assert(body[p] == Op::LocalGet(0)) by {
            assert(case[0] == Op::LocalGet(0));
        }
        assert(body[p + 1] == Op::I32Const(i as i32)) by {
            assert(case[1] == Op::I32Const(i as i32));
        }
        assert(body[p + 2] == Op::I32Eq) by {
            assert(case[2] == Op::I32Eq);
        }
        assert(body[p + 3] == Op::If) by {
            assert(case[3] == Op::If);
        }
        assert(body[p + 4] == Op::LocalGet(0)) by {
            assert(case[4] == Op::LocalGet(0));
        }
        assert forall|k: int| 0 <= k < arity implies #[trigger] body[p + 5 + k] == Op::LocalGet(
            (k + 1) as u32,
        ) by {
            assert(case[5 + k] == forward_args(arity)[k]);
        }
        assert(body[p + 5 + arity] == Op::Call(converter)) by {
            assert(case[5 + arity] == Op::Call(converter));
        }
        assert(body[p + 6 + arity] == Op::Return) by {
            assert(case[6 + arity] == Op::Return);
        }
        assert(body[p + 7 + arity] == Op::End) by {
            assert(case[7 + arity] == Op::End);
        }
        let hit: i32 = if f == i as i32 {
            1
        } else {
            0
        };
        lemma_run_local_get(body, p, locals, world, none, quiet, 0);
        lemma_run_const(body, p + 1, locals, world, none.push(ArgType::I32(f)), quiet);
        lemma_run_i32_eq(body, p + 2, locals, world, none, f, i as i32, quiet);
        lemma_run_if(body, p + 3, locals, world, none, hit, quiet);
        if f == i as i32 {
            let slot = seq![ArgType::I32(f)];
            lemma_run_local_get(body, p + 4, locals, world, none, quiet, 0);
            assert(none.push(locals[0]) =~= slot + locals.subrange(1, 1));
            lemma_forward(body, p + 5, locals, world, slot, quiet, arity, 0);
            let args = slot + locals.subrange(1, 1 + arity);
            let callee = (world.functions)(converter);
            assert(args =~= converter_locals(f, wides, arity));
            assert(of_kinds(args, callee.params)) by {
                assert(callee.params == converter_params(arity));
            }
            assert(args =~= none + args);
            lemma_run_call(body, p + 5 + arity, locals, world, none, args, quiet, converter);
            let back = none + returned(callee, world, 0);
            lemma_run_return(
                body,
                p + 6 + arity,
                locals,
                world,
                back,
                quiet.push(Event::Call { function: converter, args }),
            );
            assert(back =~= seq![ArgType::I64((world.answers)(0) as i64)]);
            assert(quiet.push(Event::Call { function: converter, args }) =~= seq![
                Event::Call { function: converter, args },
            ]);
        } else {
            assert forall|k: int| p + 4 <= k < p + 7 + arity implies !(#[trigger] body[k] is If)
                && !(body[k] is End) by {
                if p + 5 <= k < p + 5 + arity {
                    assert(body[p + 5 + (k - p - 5)] == Op::LocalGet((k - p - 5 + 1) as u32));
                }
            }
            lemma_block_end_skips(body, p + 4, 0, 3 + arity);
            reveal_with_fuel(block_end, 2);
            assert(block_end(body, p + 7 + arity, 0) == p + 8 + arity);
            lemma_router_scan(table, converters, f, wides, world, i + 1);
        }
    }
}

/// The router, called with a slot and five wide integers, hands the slot
/// and the arguments that the slot's host function takes to the converter
/// of the slot and returns what the converter returns; for a slot that does
/// not exist it returns zero and calls nothing.
pub proof fn lemma_router_routes(
    table: Seq<EntryView>,
    converters: Seq<u32>,
    f: i32,
    wides: Seq<u64>,
    world: World,
)
    requires
        table.len() <= i32::MAX,
        converters.len() == table.len(),
        wides.len() == MAX_HOST_PARAMS,
        forall|s: int| 0 <= s < table.len() ==> (#[trigger] table[s]).params.len() <= MAX_HOST_PARAMS,
        converts(world, table, converters),
    ensures
        run(router_body(table, converters), router_locals(f, wides), world) == routed(
            table,
            converters,
            f,
            wides,
            world,
        ),
{
    lemma_router_scan(table, converters, f, wides, world, 0);
}

/// The instructions that narrow a wide integer turn the wide integer on top
/// of the stack into the value that it carries.
proof fn lemma_narrow_runs(
    body: Seq<Op>,
    pc: int,
    locals: Seq<ArgType>,
    world: World,
    below: Seq<ArgType>,
    trace: Seq<Event>,
    kind: ValueKind,
    wide: u64,
)
    requires
        0 <= pc,
        pc + narrow_ops(kind).len() <= body.len(),
        forall|k: int| 0 <= k < narrow_ops(kind).len() ==> #[trigger] body[pc + k] == narrow_ops(kind)[k],
    ensures
        run_from(body, pc, locals, world, below.push(ArgType::I64(wide as i64)), trace)
            == run_from(
            body,
            pc + narrow_ops(kind).len(),
            locals,
            world,
            below.push(narrow_spec(kind, wide)),
            trace,
        ),
{
    let given = ArgType::I64(wide as i64);
    let low = (wide as i64) as i32;
    match kind {
        ValueKind::Int32 => {
            assert(body[pc + 0] == Op::Cast(Cast::I32WrapI64));
            assert(((wide as i64) as i32) == (((wide & 0xffff_ffff) as u32) as i32)) by (bit_vector);
            lemma_run_cast(body, pc, locals, world, below, given, trace, Cast::I32WrapI64);
        },
        ValueKind::Int64 => {},
        ValueKind::Float32 => {
            assert(body[pc + 0] == Op::Cast(Cast::I32WrapI64));
            assert(body[pc + 1] == Op::Cast(Cast::F32ReinterpretI32));
            assert((((wide as i64) as i32) as u32) == ((wide & 0xffff_ffff) as u32))
                by (bit_vector);
            lemma_run_cast(body, pc, locals, world, below, given, trace, Cast::I32WrapI64);
            lemma_run_cast(
                body,
                pc + 1,
                locals,
                world,
                below,
                ArgType::I32(low),
                trace,
                Cast::F32ReinterpretI32,
            );
        },
        ValueKind::Float64 => {
            assert(body[pc + 0] == Op::Cast(Cast::F64ReinterpretI64));
            assert(((wide as i64) as u64) == wide) by (bit_vector);
            lemma_run_cast(body, pc, locals, world, below, given, trace, Cast::F64ReinterpretI64);
        },
    }
}

/// The instructions that widen a value turn the value on top of the stack
/// into the wide integer that carries it.
proof fn lemma_widen_runs(
    body: Seq<Op>,
    pc: int,
    locals: Seq<ArgType>,
    world: World,
    below: Seq<ArgType>,
    trace: Seq<Event>,
    value: ArgType,
)
    requires
        0 <= pc,
        pc + widen_ops(value.kind_spec()).len() <= body.len(),
        forall|k: int|
            0 <= k < widen_ops(value.kind_spec()).len() ==> #[trigger] body[pc + k] == widen_ops(
                value.kind_spec(),
            )[k],
    ensures
        run_from(body, pc, locals, world, below.push(value), trace) == run_from(
            body,
            pc + widen_ops(value.kind_spec()).len(),
            locals,
            world,
            below.push(ArgType::I64(widen_spec(value) as i64)),
            trace,
        ),
{
    match value {
        ArgType::I32(v) => {
            assert(body[pc + 0] == Op::Cast(Cast::I64ExtendI32U));
            assert((((v as u32) as u64) as i64) == ((v as u32) as i64)) by (bit_vector);
            lemma_run_cast(body, pc, locals, world, below, value, trace, Cast::I64ExtendI32U);
        },
        ArgType::I64(v) => {
            assert(((v as u64) as i64) == v) by (bit_vector);
        },
        ArgType::F32(bits) => {
            assert(body[pc + 0] == Op::Cast(Cast::I32ReinterpretF32));
            assert(body[pc + 1] == Op::Cast(Cast::I64ExtendI32U));
            assert((((bits as i32) as u32) as i64) == ((bits as u64) as i64)) by (bit_vector);
            lemma_run_cast(body, pc, locals, world, below, value, trace, Cast::I32ReinterpretF32);
            lemma_run_cast(
                body,
                pc + 1,
                locals,
                world,
                below,
                ArgType::I32(bits as i32),
                trace,
                Cast::I64ExtendI32U,
            );
        },
        ArgType::F64(bits) => {
            assert(body[pc + 0] == Op::Cast(Cast::I64ReinterpretF64));
            lemma_run_cast(body, pc, locals, world, below, value, trace, Cast::I64ReinterpretF64);
        },
    }
}

/// The values that the wide integers carry for parameters of the kinds
/// given.
pub open spec fn narrowed(params: Seq<ValueKind>, wides: Seq<u64>) -> Seq<ArgType> {
    Seq::new(params.len(), |i: int| narrow_spec(params[i], wides[i]))
}

/// The wide integer that a converter returns: the one that carries what the
/// host function returned, or zero if the host function returns nothing.
pub open spec fn converted_result(result: Option<ValueKind>, world: World) -> i64 {
    match result {
        Some(kind) => widen_spec(narrow_spec(kind, (world.answers)(0))) as i64,
        None => 0,
    }
}

/// Where the loading of argument `i` starts in a converter.
spec fn converter_offset(params: Seq<ValueKind>, i: int) -> int {
    converter_args(params, i).len() as int
}

proof fn lemma_converter_arg_at(params: Seq<ValueKind>, n: int, i: int)
    requires
        0 <= i < n,
    ensures
        converter_offset(params, i + 1) == converter_offset(params, i) + 1 + narrow_ops(
            params[i],
        ).len(),
        converter_offset(params, i + 1) <= converter_offset(params, n),
        converter_args(params, n)[converter_offset(params, i)] == Op::LocalGet((i + 1) as u32),
        forall|k: int|
            0 <= k < narrow_ops(params[i]).len() ==> #[trigger] converter_args(
                params,
                n,
            )[converter_offset(params, i) + 1 + k] == narrow_ops(params[i])[k],
    decreases n,
{
    if n > i + 1 {
        lemma_converter_arg_at(params, n - 1, i);
    }
}

proof fn lemma_converter_scan(
    entry: EntryView,
    type_index: u32,
    table_index: u32,
    slot: i32,
    wides: Seq<u64>,
    world: World,
    i: int,
)
    requires
        0 <= i <= entry.params.len() < u32::MAX,
        wides.len() == entry.params.len(),
        (world.types)(type_index) == (Callee { params: entry.params, result: entry.result_kind() }),
    ensures
        run_from(
            converter_body(entry, type_index, table_index),
            converter_offset(entry.params, i),
            router_locals(slot, wides),
            world,
            narrowed(entry.params.take(i), wides),
            Seq::empty(),
        ) == (Outcome::Done {
            stack: seq![ArgType::I64(converted_result(entry.result_kind(), world))],
            trace: seq![
                Event::CallIndirect {
                    table: table_index,
                    slot,
                    type_index,
                    args: narrowed(entry.params, wides),
                },
            ],
        }),
    decreases entry.params.len() - i,
{
    let body = converter_body(entry, type_index, table_index);
    let params = entry.params;
    let n = params.len() as int;
    let locals = router_locals(slot, wides);
    let none = Seq::<ArgType>::empty();
    let quiet = Seq::<Event>::empty();
    let p = converter_offset(params, i);
    let stack = narrowed(params.take(i), wides);
    if i == n {
        let callee = (world.types)(type_index);
        let args = narrowed(params, wides);
        let event = Event::CallIndirect { table: table_index, slot, type_index, args };
        assert(params.take(n) =~= params);
        assert(body[p] == Op::LocalGet(0));
        assert(body[p + 1] == (Op::CallIndirect { type_index, table_index }));
        assert(locals[0] == ArgType::I32(slot));
        lemma_run_local_get(body, p, locals, world, stack, quiet, 0);
        assert(stack.push(locals[0]) =~= (none + args).push(ArgType::I32(slot)));
        assert(of_kinds(args, callee.params));
        lemma_run_call_indirect(
            body,
            p + 1,
            locals,
            world,
            none,
            args,
            slot,
            quiet,
            type_index,
            table_index,
        );
        let trace = quiet.push(event);
        assert(trace =~= seq![event]);
        let back = none + returned(callee, world, 0);
        let tail = converter_result(entry.result_kind());
        assert forall|k: int| 0 <= k < tail.len() implies #[trigger] body[p + 2 + k] == tail[k] by {}
        match entry.result_kind() {
            Some(kind) => {
                let value = narrow_spec(kind, (world.answers)(0));
                assert(back =~= none.push(value));
                assert(value.kind_spec() == kind);
                lemma_widen_runs(body, p + 2, locals, world, none, trace, value);
                let end = none.push(ArgType::I64(widen_spec(value) as i64));
                lemma_run_over(body, p + 2 + tail.len(), locals, world, end, trace);
                assert(end =~= seq![ArgType::I64(converted_result(entry.result_kind(), world))]);
            },
            None => {
                assert(back =~= none);
                assert(body[p + 2] == Op::I64Const(0));
                lemma_run_const(body, p + 2, locals, world, none, trace);
                let end = none.push(ArgType::I64(0));
                lemma_run_over(body, p + 3, locals, world, end, trace);
                assert(end =~= seq![ArgType::I64(0)]);
            },
        }
    } else {
        lemma_converter_arg_at(params, n, i);
        let kind = params[i];
        assert(body[p] == Op::LocalGet((i + 1) as u32)) by {
            assert(body[p] == converter_args(params, n)[p]);
        }
        assert forall|k: int| 0 <= k < narrow_ops(kind).len() implies #[trigger] body[p + 1 + k]
            == narrow_ops(kind)[k] by {
            assert(body[p + 1 + k] == converter_args(params, n)[p + 1 + k]);
        }
        assert(locals[i + 1] == ArgType::I64(wides[i] as i64));
        lemma_run_local_get(body, p, locals, world, stack, quiet, (i + 1) as u32);
        lemma_narrow_runs(body, p + 1, locals, world, stack, quiet, kind, wides[i]);
        assert(stack.push(narrow_spec(kind, wides[i])) =~= narrowed(params.take(i + 1), wides));
        lemma_converter_scan(entry, type_index, table_index, slot, wides, world, i + 1);
    }
}

/// A converter, called with a slot and one wide integer per parameter of
/// its host function, calls the function at that slot of the table with the
/// values that the wide integers carry, under the function's own type, and
/// returns the wide integer that carries what the function returned, or
/// zero if the function returns nothing.
pub proof fn lemma_converter_converts(
    entry: EntryView,
    type_index: u32,
    table_index: u32,
    slot: i32,
    wides: Seq<u64>,
    world: World,
)
    requires
        entry.params.len() < u32::MAX,
        wides.len() == entry.params.len(),
        (world.types)(type_index) == (Callee { params: entry.params, result: entry.result_kind() }),
    ensures
        run(
            converter_body(entry, type_index, table_index),
            router_locals(slot, wides),
            world,
        ) == (Outcome::Done {
            stack: seq![ArgType::I64(converted_result(entry.result_kind(), world))],
            trace: seq![
                Event::CallIndirect {
                    table: table_index,
                    slot,
                    type_index,
                    args: narrowed(entry.params, wides),
                },
            ],
        }),
{
    assert(narrowed(entry.params.take(0), wides) =~= Seq::<ArgType>::empty());
    lemma_converter_scan(entry, type_index, table_index, slot, wides, world, 0);
}

} // verus!
