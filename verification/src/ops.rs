//! The instructions that the generated functions are made of, and the
//! bodies of those functions.

use vstd::prelude::*;
use crate::model::{SignatureView, ValueKind};
use crate::table::{entries_view, EntryView, ImportEntry};

verus! {

/// One instruction of a generated function body.
#[derive(Clone, Copy, Debug, PartialEq, Eq, Structural)]
pub enum Op {
    /// Pushes the value of a parameter.
    LocalGet(u32),
    I32Const(i32),
    I64Const(i64),
    I32Eq,
    I32And,
    /// Opens a block that runs if the value on top of the stack is not zero.
    /// The block leaves nothing on the stack.
    If,
    Return,
    End,
    /// Calls the function with this index.
    Call(u32),
    /// Calls the function whose reference sits in the given table at the
    /// position on top of the stack.
    CallIndirect { type_index: u32, table_index: u32 },
    /// Changes the representation of the value on top of the stack.
    Cast(Cast),
}

/// A change of representation between a wide integer and a scalar.
#[derive(Clone, Copy, Debug, PartialEq, Eq, Structural)]
pub enum Cast {
    /// The low 32 bits of a 64-bit integer.
    I32WrapI64,
    /// A 32-bit integer, read as unsigned, as a 64-bit integer.
    I64ExtendI32U,
    /// The single-precision float with the bits of a 32-bit integer.
    F32ReinterpretI32,
    /// The double-precision float with the bits of a 64-bit integer.
    F64ReinterpretI64,
    /// The bits of a single-precision float as a 32-bit integer.
    I32ReinterpretF32,
    /// The bits of a double-precision float as a 64-bit integer.
    I64ReinterpretF64,
}

/// The tag for "no value".
pub const VOID_TAG: i32 = 0;

/// The largest number of parameters a host function may take.
pub const MAX_HOST_PARAMS: usize = 5;

/// What the result table does for one slot: report the tag of the result's
/// kind when asked about this slot. A function without result gets no case.
pub open spec fn return_type_case(slot: int, result: Option<ValueKind>) -> Seq<Op> {
    match result {
        None => Seq::empty(),
        Some(kind) => seq![
            Op::LocalGet(0),
            Op::I32Const(slot as i32),
            Op::I32Eq,
            Op::If,
            Op::I32Const(kind.tag_spec() as i32),
            Op::Return,
            Op::End,
        ],
    }
}

/// The cases of the first `n` slots, in slot order.
pub open spec fn return_type_cases(table: Seq<EntryView>, n: int) -> Seq<Op>
    decreases n,
{
    if n <= 0 {
        Seq::empty()
    } else {
        return_type_cases(table, n - 1) + return_type_case(n - 1, table[n - 1].result_kind())
    }
}

/// The body of the function that tells the kind of a host function's
/// result: one case per slot, then the answer "no value".
pub open spec fn return_type_table(table: Seq<EntryView>) -> Seq<Op> {
    return_type_cases(table, table.len() as int) + seq![Op::I32Const(VOID_TAG), Op::Return]
}

/// What the argument table does for one parameter of one slot.
pub open spec fn arg_type_case(slot: int, arg: int, kind: ValueKind) -> Seq<Op> {
    seq![
        Op::LocalGet(0),
        Op::I32Const(slot as i32),
        Op::I32Eq,
        Op::LocalGet(1),
        Op::I32Const(arg as i32),
        Op::I32Eq,
        Op::I32And,
        Op::If,
        Op::I32Const(kind.tag_spec() as i32),
        Op::Return,
        Op::End,
    ]
}

/// The cases of the first `n` parameters of one slot.
pub open spec fn arg_type_cases_of(slot: int, params: Seq<ValueKind>, n: int) -> Seq<Op>
    decreases n,
{
    if n <= 0 {
        Seq::empty()
    } else {
        arg_type_cases_of(slot, params, n - 1) + arg_type_case(slot, n - 1, params[n - 1])
    }
}

/// The cases of the first `n` slots.
pub open spec fn arg_type_cases(table: Seq<EntryView>, n: int) -> Seq<Op>
    decreases n,
{
    if n <= 0 {
        Seq::empty()
    } else {
        arg_type_cases(table, n - 1) + arg_type_cases_of(
            n - 1,
            table[n - 1].params,
            table[n - 1].params.len() as int,
        )
    }
}

/// The body of the function that tells the kind of a host function's
/// parameter.
pub open spec fn arg_type_table(table: Seq<EntryView>) -> Seq<Op> {
    arg_type_cases(table, table.len() as int) + seq![Op::I32Const(VOID_TAG), Op::Return]
}

/// The instructions that turn a wide integer into a value of `kind`.
pub open spec fn narrow_ops(kind: ValueKind) -> Seq<Op> {
    match kind {
        ValueKind::Int32 => seq![Op::Cast(Cast::I32WrapI64)],
        ValueKind::Int64 => Seq::empty(),
        ValueKind::Float32 => seq![Op::Cast(Cast::I32WrapI64), Op::Cast(Cast::F32ReinterpretI32)],
        ValueKind::Float64 => seq![Op::Cast(Cast::F64ReinterpretI64)],
    }
}

/// The instructions that turn a value of `kind` into a wide integer.
pub open spec fn widen_ops(kind: ValueKind) -> Seq<Op> {
    match kind {
        ValueKind::Int32 => seq![Op::Cast(Cast::I64ExtendI32U)],
        ValueKind::Int64 => Seq::empty(),
        ValueKind::Float32 => seq![Op::Cast(Cast::I32ReinterpretF32), Op::Cast(Cast::I64ExtendI32U)],
        ValueKind::Float64 => seq![Op::Cast(Cast::I64ReinterpretF64)],
    }
}

/// Loading and narrowing the first `n` arguments of a converter. Parameter 0
/// of a converter is the slot, so argument `i` is parameter `i + 1`.
pub open spec fn converter_args(params: Seq<ValueKind>, n: int) -> Seq<Op>
    decreases n,
{
    if n <= 0 {
        Seq::empty()
    } else {
        converter_args(params, n - 1) + seq![Op::LocalGet(n as u32)] + narrow_ops(params[n - 1])
    }
}

/// The end of a converter: the result as a wide integer, zero where the
/// host function returns nothing.
pub open spec fn converter_result(result: Option<ValueKind>) -> Seq<Op> {
    match result {
        Some(kind) => widen_ops(kind),
        None => seq![Op::I64Const(0)],
    }
}

/// The body of the converter of one host function: narrow the arguments,
/// call the function through the table at the slot given, widen the result.
pub open spec fn converter_body(entry: EntryView, type_index: u32, table_index: u32) -> Seq<Op> {
    converter_args(entry.params, entry.params.len() as int) + seq![
        Op::LocalGet(0),
        Op::CallIndirect { type_index, table_index },
    ] + converter_result(entry.result_kind())
}

/// Passing on the first `n` arguments of the router.
pub open spec fn forward_args(n: int) -> Seq<Op> {
    Seq::new(if n < 0 { 0 } else { n as nat }, |i: int| Op::LocalGet((i + 1) as u32))
}

/// What the router does for one slot: hand the slot and the arguments that
/// the host function takes to its converter, and return what comes back.
pub open spec fn router_case(slot: int, arity: int, converter: u32) -> Seq<Op> {
    seq![Op::LocalGet(0), Op::I32Const(slot as i32), Op::I32Eq, Op::If, Op::LocalGet(0)]
        + forward_args(arity) + seq![Op::Call(converter), Op::Return, Op::End]
}

/// The router's cases of the first `n` slots.
pub open spec fn router_cases(table: Seq<EntryView>, converters: Seq<u32>, n: int) -> Seq<Op>
    decreases n,
{
    if n <= 0 {
        Seq::empty()
    } else {
        router_cases(table, converters, n - 1) + router_case(
            n - 1,
            table[n - 1].params.len() as int,
            converters[n - 1],
        )
    }
}

/// The body of the router: one case per slot, then the answer zero.
pub open spec fn router_body(table: Seq<EntryView>, converters: Seq<u32>) -> Seq<Op> {
    router_cases(table, converters, table.len() as int) + seq![Op::I64Const(0), Op::Return]
}

/// The indices of the functions through which a thunk hands a call to the
/// interpreter.
#[derive(Clone, Copy, Debug, PartialEq, Eq, Structural)]
pub struct Protocol {
    pub arg_start: u32,
    pub arg_i32: u32,
    pub arg_i64: u32,
    pub arg_f32: u32,
    pub arg_f64: u32,
    pub invoke_i32: u32,
    pub invoke_i64: u32,
    pub invoke_f32: u32,
    pub invoke_f64: u32,
    pub invoke: u32,
}

impl Protocol {
    /// The function that appends an argument of `kind`.
    pub open spec fn push_of(self, kind: ValueKind) -> u32 {
        match kind {
            ValueKind::Int32 => self.arg_i32,
            ValueKind::Int64 => self.arg_i64,
            ValueKind::Float32 => self.arg_f32,
            ValueKind::Float64 => self.arg_f64,
        }
    }

    /// The function that runs the call and returns a value of the kind
    /// given, or nothing.
    pub open spec fn invoke_of(self, result: Option<ValueKind>) -> u32 {
        match result {
            None => self.invoke,
            Some(ValueKind::Int32) => self.invoke_i32,
            Some(ValueKind::Int64) => self.invoke_i64,
            Some(ValueKind::Float32) => self.invoke_f32,
            Some(ValueKind::Float64) => self.invoke_f64,
        }
    }

    /// The function that appends an argument of `kind`.
    pub fn push_function(&self, kind: ValueKind) -> (f: u32)
        ensures
            f == self.push_of(kind),
    {
        match kind {
            ValueKind::Int32 => self.arg_i32,
            ValueKind::Int64 => self.arg_i64,
            ValueKind::Float32 => self.arg_f32,
            ValueKind::Float64 => self.arg_f64,
        }
    }

    /// The function that runs the call and returns a value of the kind
    /// given, or nothing.
    pub fn invoke_function(&self, result: Option<ValueKind>) -> (f: u32)
        ensures
            f == self.invoke_of(result),
    {
        match result {
            None => self.invoke,
            Some(ValueKind::Int32) => self.invoke_i32,
            Some(ValueKind::Int64) => self.invoke_i64,
            Some(ValueKind::Float32) => self.invoke_f32,
            Some(ValueKind::Float64) => self.invoke_f64,
        }
    }
}

/// Handing over the first `n` parameters of a thunk, each through the
/// function for its kind.
pub open spec fn thunk_args(params: Seq<ValueKind>, protocol: Protocol, n: int) -> Seq<Op>
    decreases n,
{
    if n <= 0 {
        Seq::empty()
    } else {
        thunk_args(params, protocol, n - 1) + seq![
            Op::LocalGet((n - 1) as u32),
            Op::Call(protocol.push_of(params[n - 1])),
        ]
    }
}

/// The body of an export's thunk: open a call, hand over the parameters in
/// declaration order, and invoke the export by its index.
pub open spec fn thunk_body(
    params: Seq<ValueKind>,
    result: Option<ValueKind>,
    index: i32,
    protocol: Protocol,
) -> Seq<Op> {
    seq![Op::Call(protocol.arg_start)] + thunk_args(params, protocol, params.len() as int) + seq![
        Op::I32Const(index),
        Op::Call(protocol.invoke_of(result)),
    ]
}

/// The thunk of a declared export.
pub open spec fn export_thunk_of(sig: SignatureView, index: i32, protocol: Protocol) -> Seq<Op> {
    thunk_body(sig.param_kinds(), sig.result_kind(), index, protocol)
}

/// The first of a list of kinds, if there is one.
pub fn first_kind(kinds: &Vec<ValueKind>) -> (k: Option<ValueKind>)
    ensures
        k == if kinds@.len() == 0 {
            None
        } else {
            Some(kinds@[0])
        },
{
    if kinds.len() == 0 {
        None
    } else {
        Some(kinds[0])
    }
}

fn push_all(out: &mut Vec<Op>, more: Vec<Op>)
    ensures
        final(out)@ == old(out)@ + more@,
{
    let mut more = more;
    out.append(&mut more);
}

fn return_type_case_ops(slot: usize, result: Option<ValueKind>) -> (ops: Vec<Op>)
    requires
        slot <= i32::MAX,
    ensures
        ops@ == return_type_case(slot as int, result),
{
    let mut ops: Vec<Op> = Vec::new();
    if let Some(kind) = result {
        ops.push(Op::LocalGet(0));
        ops.push(Op::I32Const(slot as i32));
        ops.push(Op::I32Eq);
        ops.push(Op::If);
        ops.push(Op::I32Const(kind.tag()));
        ops.push(Op::Return);
        ops.push(Op::End);
    }
    assert(ops@ =~= return_type_case(slot as int, result));
    ops
}

/// The body of the function that tells the kind of a host function's
/// result.
pub fn return_type_ops(table: &Vec<ImportEntry>) -> (ops: Vec<Op>)
    requires
        table.len() <= i32::MAX,
    ensures
        ops@ == return_type_table(entries_view(table@)),
{
    let ghost view = entries_view(table@);
    let mut ops: Vec<Op> = Vec::new();
    let mut slot: usize = 0;
    while slot < table.len()
        invariant
            slot <= table.len() <= i32::MAX,
            view == entries_view(table@),
            ops@ == return_type_cases(view, slot as int),
        decreases table.len() - slot,
    {
        assert(view[slot as int] == table@[slot as int]@);
        let case = return_type_case_ops(slot, first_kind(&table[slot].results));
        push_all(&mut ops, case);
        slot += 1;
    }
    ops.push(Op::I32Const(VOID_TAG));
    ops.push(Op::Return);
    assert(ops@ =~= return_type_table(view));
    ops
}

fn arg_type_case_ops(slot: usize, arg: usize, kind: ValueKind) -> (ops: Vec<Op>)
    requires
        slot <= i32::MAX,
        arg <= i32::MAX,
    ensures
        ops@ == arg_type_case(slot as int, arg as int, kind),
{
    let mut ops: Vec<Op> = Vec::new();
    ops.push(Op::LocalGet(0));
    ops.push(Op::I32Const(slot as i32));
    ops.push(Op::I32Eq);
    ops.push(Op::LocalGet(1));
    ops.push(Op::I32Const(arg as i32));
    ops.push(Op::I32Eq);
    ops.push(Op::I32And);
    ops.push(Op::If);
    ops.push(Op::I32Const(kind.tag()));
    ops.push(Op::Return);
    ops.push(Op::End);
    assert(ops@ =~= arg_type_case(slot as int, arg as int, kind));
    ops
}

/// The body of the function that tells the kind of a host function's
/// parameter.
pub fn arg_type_ops(table: &Vec<ImportEntry>) -> (ops: Vec<Op>)
    requires
        table.len() <= i32::MAX,
        forall|i: int| 0 <= i < table.len() ==> (#[trigger] table@[i]).params.len() <= i32::MAX,
    ensures
        ops@ == arg_type_table(entries_view(table@)),
{
    let ghost view = entries_view(table@);
    let mut ops: Vec<Op> = Vec::new();
    let mut slot: usize = 0;
    while slot < table.len()
        invariant
            slot <= table.len() <= i32::MAX,
            forall|i: int| 0 <= i < table.len() ==> (#[trigger] table@[i]).params.len() <= i32::MAX,
            view == entries_view(table@),
            ops@ == arg_type_cases(view, slot as int),
        decreases table.len() - slot,
    {
        assert(view[slot as int] == table@[slot as int]@);
        let params = &table[slot].params;
        let ghost before = ops@;
        let mut arg: usize = 0;
        while arg < params.len()
            invariant
                slot < table.len() <= i32::MAX,
                arg <= params.len() <= i32::MAX,
                ops@ == before + arg_type_cases_of(slot as int, params@, arg as int),
            decreases params.len() - arg,
        {
            let case = arg_type_case_ops(slot, arg, params[arg]);
            push_all(&mut ops, case);
            assert(ops@ =~= before + arg_type_cases_of(slot as int, params@, arg + 1));
            arg += 1;
        }
        slot += 1;
    }
    ops.push(Op::I32Const(VOID_TAG));
    ops.push(Op::Return);
    assert(ops@ =~= arg_type_table(view));
    ops
}

fn narrow(out: &mut Vec<Op>, kind: ValueKind)
    ensures
        final(out)@ == old(out)@ + narrow_ops(kind),
{
    match kind {
        ValueKind::Int32 => {
            out.push(Op::Cast(Cast::I32WrapI64));
        },
        ValueKind::Int64 => {},
        ValueKind::Float32 => {
            out.push(Op::Cast(Cast::I32WrapI64));
            out.push(Op::Cast(Cast::F32ReinterpretI32));
        },
        ValueKind::Float64 => {
            out.push(Op::Cast(Cast::F64ReinterpretI64));
        },
    }
    assert(out@ =~= old(out)@ + narrow_ops(kind));
}

fn widen(out: &mut Vec<Op>, kind: ValueKind)
    ensures
        final(out)@ == old(out)@ + widen_ops(kind),
{
    match kind {
        ValueKind::Int32 => {
            out.push(Op::Cast(Cast::I64ExtendI32U));
        },
        ValueKind::Int64 => {},
        ValueKind::Float32 => {
            out.push(Op::Cast(Cast::I32ReinterpretF32));
            out.push(Op::Cast(Cast::I64ExtendI32U));
        },
        ValueKind::Float64 => {
            out.push(Op::Cast(Cast::I64ReinterpretF64));
        },
    }
    assert(out@ =~= old(out)@ + widen_ops(kind));
}

/// The body of the converter of one host function.
pub fn converter_ops(entry: &ImportEntry, type_index: u32, table_index: u32) -> (ops: Vec<Op>)
    requires
        entry.params.len() < u32::MAX,
    ensures
        ops@ == converter_body(entry@, type_index, table_index),
{
    let mut ops: Vec<Op> = Vec::new();
    let mut i: usize = 0;
    while i < entry.params.len()
        invariant
            i <= entry.params.len() < u32::MAX,
            ops@ == converter_args(entry.params@, i as int),
        decreases entry.params.len() - i,
    {
        let ghost before = ops@;
        ops.push(Op::LocalGet((i + 1) as u32));
        narrow(&mut ops, entry.params[i]);
        assert(ops@ =~= before + seq![Op::LocalGet((i + 1) as u32)] + narrow_ops(
            entry.params@[i as int],
        ));
        i += 1;
    }
    let ghost args = ops@;
    ops.push(Op::LocalGet(0));
    ops.push(Op::CallIndirect { type_index, table_index });
    let ghost called = ops@;
    match first_kind(&entry.results) {
        Some(kind) => {
            widen(&mut ops, kind);
        },
        None => {
            ops.push(Op::I64Const(0));
        },
    }
    assert(called =~= args + seq![Op::LocalGet(0), Op::CallIndirect { type_index, table_index }]);
    assert(ops@ =~= called + converter_result(entry@.result_kind()));
    ops
}

fn router_case_ops(slot: usize, arity: usize, converter: u32) -> (ops: Vec<Op>)
    requires
        slot <= i32::MAX,
        arity < u32::MAX,
    ensures
        ops@ == router_case(slot as int, arity as int, converter),
{
    let mut ops: Vec<Op> = Vec::new();
    ops.push(Op::LocalGet(0));
    ops.push(Op::I32Const(slot as i32));
    ops.push(Op::I32Eq);
    ops.push(Op::If);
    ops.push(Op::LocalGet(0));
    let ghost head = ops@;
    let mut i: usize = 0;
    while i < arity
        invariant
            i <= arity < u32::MAX,
            ops@ == head + forward_args(i as int),
        decreases arity - i,
    {
        ops.push(Op::LocalGet((i + 1) as u32));
        assert(ops@ =~= head + forward_args(i + 1));
        i += 1;
    }
    ops.push(Op::Call(converter));
    ops.push(Op::Return);
    ops.push(Op::End);
    assert(ops@ =~= router_case(slot as int, arity as int, converter));
    ops
}

/// The body of the router. `converters` holds, slot by slot, the index of
/// the converter function.
pub fn router_ops(table: &Vec<ImportEntry>, converters: &Vec<u32>) -> (ops: Vec<Op>)
    requires
        table.len() <= i32::MAX,
        converters.len() == table.len(),
        forall|i: int| 0 <= i < table.len() ==> (#[trigger] table@[i]).params.len() < u32::MAX,
    ensures
        ops@ == router_body(entries_view(table@), converters@),
{
    let ghost view = entries_view(table@);
    let mut ops: Vec<Op> = Vec::new();
    let mut slot: usize = 0;
    while slot < table.len()
        invariant
            slot <= table.len() <= i32::MAX,
            converters.len() == table.len(),
            forall|i: int| 0 <= i < table.len() ==> (#[trigger] table@[i]).params.len() < u32::MAX,
            view == entries_view(table@),
            ops@ == router_cases(view, converters@, slot as int),
        decreases table.len() - slot,
    {
        assert(view[slot as int] == table@[slot as int]@);
        let case = router_case_ops(slot, table[slot].params.len(), converters[slot]);
        push_all(&mut ops, case);
        slot += 1;
    }
    ops.push(Op::I64Const(0));
    ops.push(Op::Return);
    assert(ops@ =~= router_body(view, converters@));
    ops
}

/// The body of the thunk of an export that takes `params`, returns
/// `result` and has the given index among the exports.
pub fn thunk_ops(
    params: &Vec<ValueKind>,
    result: Option<ValueKind>,
    index: i32,
    protocol: &Protocol,
) -> (ops: Vec<Op>)
    requires
        params.len() <= u32::MAX,
    ensures
        ops@ == thunk_body(params@, result, index, *protocol),
{
    let mut ops: Vec<Op> = Vec::new();
    ops.push(Op::Call(protocol.arg_start));
    let ghost head = ops@;
    let mut i: usize = 0;
    while i < params.len()
        invariant
            i <= params.len() <= u32::MAX,
            ops@ == head + thunk_args(params@, *protocol, i as int),
        decreases params.len() - i,
    {
        ops.push(Op::LocalGet(i as u32));
        ops.push(Op::Call(protocol.push_function(params[i])));
        assert(ops@ =~= head + thunk_args(params@, *protocol, i + 1));
        i += 1;
    }
    ops.push(Op::I32Const(index));
    ops.push(Op::Call(protocol.invoke_function(result)));
    assert(ops@ =~= thunk_body(params@, result, index, *protocol));
    ops
}

/// The result table has at most seven instructions per slot, and two more.
pub proof fn lemma_return_type_table_len(table: Seq<EntryView>)
    ensures
        return_type_table(table).len() <= 7 * table.len() + 2,
{
    lemma_return_type_cases_len(table, table.len() as int);
}

proof fn lemma_return_type_cases_len(table: Seq<EntryView>, n: int)
    requires
        0 <= n,
    ensures
        return_type_cases(table, n).len() <= 7 * n,
    decreases n,
{
    if n > 0 {
        lemma_return_type_cases_len(table, n - 1);
    }
}

/// The argument table has eleven instructions per parameter, and two more.
pub proof fn lemma_arg_type_table_len(table: Seq<EntryView>, max_params: int)
    requires
        0 <= max_params,
        forall|i: int| 0 <= i < table.len() ==> (#[trigger] table[i]).params.len() <= max_params,
    ensures
        arg_type_table(table).len() <= 11 * max_params * table.len() + 2,
{
    lemma_arg_type_cases_len(table, max_params, table.len() as int);
}

proof fn lemma_arg_type_cases_len(table: Seq<EntryView>, max_params: int, n: int)
    requires
        0 <= n <= table.len(),
        0 <= max_params,
        forall|i: int| 0 <= i < table.len() ==> (#[trigger] table[i]).params.len() <= max_params,
    ensures
        arg_type_cases(table, n).len() <= 11 * max_params * n,
    decreases n,
{
    if n > 0 {
        lemma_arg_type_cases_len(table, max_params, n - 1);
        let params = table[n - 1].params;
        lemma_arg_type_cases_of_len(n - 1, params, params.len() as int);
        assert(11 * max_params * n == 11 * max_params * (n - 1) + 11 * max_params)
            by (nonlinear_arith);
    }
}

proof fn lemma_arg_type_cases_of_len(slot: int, params: Seq<ValueKind>, n: int)
    requires
        0 <= n,
    ensures
        arg_type_cases_of(slot, params, n).len() == 11 * n,
    decreases n,
{
    if n > 0 {
        lemma_arg_type_cases_of_len(slot, params, n - 1);
    }
}

/// A converter has at most three instructions per parameter, and four more.
pub proof fn lemma_converter_body_len(entry: EntryView, type_index: u32, table_index: u32)
    ensures
        converter_body(entry, type_index, table_index).len() <= 3 * entry.params.len() + 4,
{
    lemma_converter_args_len(entry.params, entry.params.len() as int);
}

proof fn lemma_converter_args_len(params: Seq<ValueKind>, n: int)
    requires
        0 <= n,
    ensures
        converter_args(params, n).len() <= 3 * n,
    decreases n,
{
    if n > 0 {
        lemma_converter_args_len(params, n - 1);
    }
}

/// The router has eight instructions per slot and one per parameter of the
/// slot's function, and two more.
pub proof fn lemma_router_body_len(table: Seq<EntryView>, converters: Seq<u32>, max_params: int)
    requires
        0 <= max_params,
        forall|i: int| 0 <= i < table.len() ==> (#[trigger] table[i]).params.len() <= max_params,
    ensures
        router_body(table, converters).len() <= (8 + max_params) * table.len() + 2,
{
    lemma_router_cases_len(table, converters, max_params, table.len() as int);
}

proof fn lemma_router_cases_len(
    table: Seq<EntryView>,
    converters: Seq<u32>,
    max_params: int,
    n: int,
)
    requires
        0 <= n <= table.len(),
        0 <= max_params,
        forall|i: int| 0 <= i < table.len() ==> (#[trigger] table[i]).params.len() <= max_params,
    ensures
        router_cases(table, converters, n).len() <= (8 + max_params) * n,
    decreases n,
{
    if n > 0 {
        lemma_router_cases_len(table, converters, max_params, n - 1);
        assert((8 + max_params) * n == (8 + max_params) * (n - 1) + 8 + max_params)
            by (nonlinear_arith);
    }
}

/// A thunk has two instructions per parameter, and three more.
pub proof fn lemma_thunk_body_len(
    params: Seq<ValueKind>,
    result: Option<ValueKind>,
    index: i32,
    protocol: Protocol,
)
    ensures
        thunk_body(params, result, index, protocol).len() == 2 * params.len() + 3,
{
    lemma_thunk_args_len(params, protocol, params.len() as int);
}

proof fn lemma_thunk_args_len(params: Seq<ValueKind>, protocol: Protocol, n: int)
    requires
        0 <= n,
    ensures
        thunk_args(params, protocol, n).len() == 2 * n,
    decreases n,
{
    if n > 0 {
        lemma_thunk_args_len(params, protocol, n - 1);
    }
}

} // verus!
