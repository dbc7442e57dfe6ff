//! What the generated module consists of: which functions it imports and
//! defines, in which order, and with which bodies.

use vstd::prelude::*;
use crate::assemble::{
    short_name, total_ops, total_refs, ModuleView, MAX_TOTAL_OPS, MAX_TYPE_VALUES,
};
use crate::model::{SignatureView, ValueKind};
use crate::ops::{
    arg_type_table, converter_body, export_thunk_of, return_type_table, router_body, Op, Protocol,
    MAX_HOST_PARAMS,
};
use crate::table::{import_table, EntryView, HostFunctionView};

verus! {

/// The namespace of the functions through which thunks reach the
/// interpreter.
pub open spec fn protocol_namespace() -> Seq<char> {
    "core"@
}

/// The module after the import of the ten functions through which thunks
/// reach the interpreter: one that opens a call, one per kind that appends
/// an argument, and one per kind of result, and one for no result, that
/// runs the call.
pub open spec fn with_protocol(m: ModuleView) -> ModuleView {
    let ns = protocol_namespace();
    let index = seq![ValueKind::Int32];
    m.with_import(ns, "__arg_start"@, seq![], seq![]).with_import(
        ns,
        "__arg_i32"@,
        seq![ValueKind::Int32],
        seq![],
    ).with_import(ns, "__arg_i64"@, seq![ValueKind::Int64], seq![]).with_import(
        ns,
        "__arg_f32"@,
        seq![ValueKind::Float32],
        seq![],
    ).with_import(ns, "__arg_f64"@, seq![ValueKind::Float64], seq![]).with_import(
        ns,
        "__invoke_i32"@,
        index,
        seq![ValueKind::Int32],
    ).with_import(ns, "__invoke_i64"@, index, seq![ValueKind::Int64]).with_import(
        ns,
        "__invoke_f32"@,
        index,
        seq![ValueKind::Float32],
    ).with_import(ns, "__invoke_f64"@, index, seq![ValueKind::Float64]).with_import(
        ns,
        "__invoke"@,
        index,
        seq![],
    )
}

/// The indices of those ten functions when they are imported into `m`.
pub open spec fn protocol_of(m: ModuleView) -> Protocol {
    let first = m.imports.len();
    Protocol {
        arg_start: first as u32,
        arg_i32: (first + 1) as u32,
        arg_i64: (first + 2) as u32,
        arg_f32: (first + 3) as u32,
        arg_f64: (first + 4) as u32,
        invoke_i32: (first + 5) as u32,
        invoke_i64: (first + 6) as u32,
        invoke_f32: (first + 7) as u32,
        invoke_f64: (first + 8) as u32,
        invoke: (first + 9) as u32,
    }
}

/// The module after the import of the first `n` host functions, each from
/// its namespace and with its own signature.
pub open spec fn with_hosts(m: ModuleView, hosts: Seq<HostFunctionView>, n: int) -> ModuleView
    decreases n,
{
    if n <= 0 {
        m
    } else {
        let h = hosts[n - 1];
        with_hosts(m, hosts, n - 1).with_import(h.namespace, h.name, h.params, h.results)
    }
}

/// The name of the converter of a host function.
pub open spec fn converter_name(name: Seq<char>) -> Seq<char> {
    "__conv_"@ + name
}

/// What a converter takes: the slot, and one wide integer per parameter of
/// the host function.
pub open spec fn converter_params(arity: int) -> Seq<ValueKind> {
    seq![ValueKind::Int32] + Seq::new(
        if arity < 0 {
            0
        } else {
            arity as nat
        },
        |i: int| ValueKind::Int64,
    )
}

/// What the router takes: the slot and as many wide integers as a host
/// function may have parameters.
pub open spec fn router_params() -> Seq<ValueKind> {
    converter_params(MAX_HOST_PARAMS as int)
}

/// The module after the converters of the first `n` slots. Each converter
/// comes with a type of its own for the call of the host function.
pub open spec fn with_converters(m: ModuleView, table: Seq<EntryView>, table_index: u32, n: int) -> ModuleView
    decreases n,
{
    if n <= 0 {
        m
    } else {
        let before = with_converters(m, table, table_index, n - 1);
        let e = table[n - 1];
        before.with_type(e.params, e.results).with_function(
            converter_name(e.name),
            converter_params(e.params.len() as int),
            seq![ValueKind::Int64],
            converter_body(e, before.types.len() as u32, table_index),
        )
    }
}

/// The indices of `n` functions defined one after the other in `m`.
pub open spec fn next_indices(m: ModuleView, n: int) -> Seq<u32> {
    Seq::new(
        if n < 0 {
            0
        } else {
            n as nat
        },
        |k: int| (m.next_function_index() + k) as u32,
    )
}

/// The module after the thunks of the first `n` exports. Each thunk has the
/// name and the signature of its export.
pub open spec fn with_thunks(
    m: ModuleView,
    exports: Seq<SignatureView>,
    protocol: Protocol,
    n: int,
) -> ModuleView
    decreases n,
{
    if n <= 0 {
        m
    } else {
        let f = exports[n - 1];
        with_thunks(m, exports, protocol, n - 1).with_function(
            f.name,
            f.param_kinds(),
            f.result_kinds(),
            export_thunk_of(f, (n - 1) as i32, protocol),
        )
    }
}

/// The import indices of the table's entries, slot by slot.
pub open spec fn table_indices(table: Seq<EntryView>) -> Seq<u32> {
    table.map_values(|e: EntryView| e.index)
}

/// The module generated for an interface. In this order it
/// - imports the protocol functions and the host functions;
/// - declares a table with one position per host function;
/// - defines the two functions that tell the kinds of a host function's
///   result and parameters, a converter per host function, in slot order,
///   and the router;
/// - fills the table with the host functions, in slot order;
/// - defines a thunk per export, in declaration order.
pub open spec fn shim_module(exports: Seq<SignatureView>, hosts: Seq<HostFunctionView>) -> ModuleView {
    let start = ModuleView::empty();
    let protocol = protocol_of(start);
    let imported = with_hosts(with_protocol(start), hosts, hosts.len() as int);
    let table = import_table(hosts, with_protocol(start).imports.len() as int);
    let table_index = imported.tables.len() as u32;
    let tabled = imported.with_table(table.len());
    let introspected = tabled.with_function(
        "__get_function_return_type"@,
        seq![ValueKind::Int32],
        seq![ValueKind::Int32],
        return_type_table(table),
    ).with_function(
        "__get_function_arg_type"@,
        seq![ValueKind::Int32, ValueKind::Int32],
        seq![ValueKind::Int32],
        arg_type_table(table),
    );
    let converted = with_converters(introspected, table, table_index, table.len() as int);
    let routed = converted.with_function(
        "__invokeHostFunc"@,
        router_params(),
        seq![ValueKind::Int64],
        router_body(table, next_indices(introspected, table.len() as int)),
    );
    let filled = routed.with_element(table_index as nat, table_indices(table));
    with_thunks(filled, exports, protocol, exports.len() as int)
}

/// A function type small enough to be encoded.
pub open spec fn small_type(params: Seq<ValueKind>, results: Seq<ValueKind>) -> bool {
    params.len() <= MAX_TYPE_VALUES && results.len() <= MAX_TYPE_VALUES
}

/// A module within the limits stays within them when a type is added
/// while there is room.
pub proof fn lemma_with_type_within_limits(
    m: ModuleView,
    params: Seq<ValueKind>,
    results: Seq<ValueKind>,
)
    requires
        m.within_limits(),
        m.has_room(),
        small_type(params, results),
    ensures
        m.with_type(params, results).within_limits(),
{
    let r = m.with_type(params, results);
    assert forall|i: int| 0 <= i < r.types.len() implies (#[trigger] r.types[i]).params.len()
        <= MAX_TYPE_VALUES && r.types[i].results.len() <= MAX_TYPE_VALUES by {
        if i < m.types.len() {
            assert(r.types[i] == m.types[i]);
        }
    }
}

/// The same, for an import.
pub proof fn lemma_with_import_within_limits(
    m: ModuleView,
    namespace: Seq<char>,
    name: Seq<char>,
    params: Seq<ValueKind>,
    results: Seq<ValueKind>,
)
    requires
        m.within_limits(),
        m.has_room(),
        short_name(namespace),
        short_name(name),
        small_type(params, results),
    ensures
        m.with_import(namespace, name, params, results).within_limits(),
{
    let r = m.with_import(namespace, name, params, results);
    assert forall|i: int| 0 <= i < r.types.len() implies (#[trigger] r.types[i]).params.len()
        <= MAX_TYPE_VALUES && r.types[i].results.len() <= MAX_TYPE_VALUES by {
        if i < m.types.len() {
            assert(r.types[i] == m.types[i]);
        }
    }
    assert forall|i: int| 0 <= i < r.imports.len() implies short_name(
        (#[trigger] r.imports[i]).namespace,
    ) && short_name(r.imports[i].name) by {
        if i < m.imports.len() {
            assert(r.imports[i] == m.imports[i]);
        }
    }
}

/// The same, for a function definition.
pub proof fn lemma_with_function_within_limits(
    m: ModuleView,
    name: Seq<char>,
    params: Seq<ValueKind>,
    results: Seq<ValueKind>,
    body: Seq<Op>,
)
    requires
        m.within_limits(),
        m.has_room(),
        short_name(name),
        small_type(params, results),
        total_ops(m.functions) + body.len() <= MAX_TOTAL_OPS,
    ensures
        m.with_function(name, params, results, body).within_limits(),
        total_ops(m.with_function(name, params, results, body).functions) == total_ops(
            m.functions,
        ) + body.len(),
{
    let r = m.with_function(name, params, results, body);
    assert forall|i: int| 0 <= i < r.types.len() implies (#[trigger] r.types[i]).params.len()
        <= MAX_TYPE_VALUES && r.types[i].results.len() <= MAX_TYPE_VALUES by {
        if i < m.types.len() {
            assert(r.types[i] == m.types[i]);
        }
    }
    assert forall|i: int| 0 <= i < r.functions.len() implies short_name(
        (#[trigger] r.functions[i]).name,
    ) by {
        if i < m.functions.len() {
            assert(r.functions[i] == m.functions[i]);
        }
    }
    assert(r.functions.drop_last() =~= m.functions);
}

/// The same, for a table.
pub proof fn lemma_with_table_within_limits(m: ModuleView, minimum: nat)
    requires
        m.within_limits(),
        m.has_room(),
    ensures
        m.with_table(minimum).within_limits(),
{
}

/// The same, for an element segment.
pub proof fn lemma_with_element_within_limits(m: ModuleView, table: nat, functions: Seq<u32>)
    requires
        m.within_limits(),
        m.has_room(),
        total_refs(m.elements) + functions.len() <= MAX_TOTAL_OPS,
    ensures
        m.with_element(table, functions).within_limits(),
{
    let r = m.with_element(table, functions);
    assert(r.elements.drop_last() =~= m.elements);
}

} // verus!
