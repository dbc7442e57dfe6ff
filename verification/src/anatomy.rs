//! Where things are in the generated module: which index each function
//! has, which type it refers to, and what the table holds.

use vstd::prelude::*;
use crate::assemble::{ElementDecl, FuncDecl, FuncType, ImportDecl, ModuleView, TableDecl};
use crate::layout::{
    converter_name, converter_params, next_indices, protocol_namespace, protocol_of,
    router_params, shim_module, table_indices, with_converters, with_hosts, with_protocol,
    with_thunks,
};
use crate::model::{SignatureView, ValueKind};
use crate::ops::{
    arg_type_table, converter_body, export_thunk_of, return_type_table, router_body, Protocol,
};
use crate::order::lemma_sort_permutes;
use crate::table::{declared_entries, entry_name, import_table, EntryView, HostFunctionView};

verus! {

/// The types that the import of host functions adds.
pub open spec fn host_types(hosts: Seq<HostFunctionView>, n: int) -> Seq<FuncType> {
    Seq::new(n as nat, |k: int| FuncType { params: hosts[k].params, results: hosts[k].results })
}

/// The imports that the import of host functions adds to a module with
/// `types` types.
pub open spec fn host_imports(hosts: Seq<HostFunctionView>, types: nat, n: int) -> Seq<ImportDecl> {
    Seq::new(
        n as nat,
        |k: int|
            ImportDecl {
                namespace: hosts[k].namespace,
                name: hosts[k].name,
                type_index: (types + k) as nat,
            },
    )
}

/// Importing host functions adds a type and an import per function, in
/// declaration order, and nothing else.
pub proof fn lemma_with_hosts(m: ModuleView, hosts: Seq<HostFunctionView>, n: int)
    requires
        0 <= n <= hosts.len(),
    ensures
        with_hosts(m, hosts, n) == (ModuleView {
            types: m.types + host_types(hosts, n),
            imports: m.imports + host_imports(hosts, m.types.len(), n),
            ..m
        }),
    decreases n,
{
    let r = with_hosts(m, hosts, n);
    if n == 0 {
        assert(m.types + host_types(hosts, 0) =~= m.types);
        assert(m.imports + host_imports(hosts, m.types.len(), 0) =~= m.imports);
    } else {
        lemma_with_hosts(m, hosts, n - 1);
        assert(r.types =~= m.types + host_types(hosts, n));
        assert(r.imports =~= m.imports + host_imports(hosts, m.types.len(), n));
    }
}

/// The types that the converters add: for each slot the type of the host
/// function and the type of the converter.
pub open spec fn converter_types(table: Seq<EntryView>, n: int) -> Seq<FuncType> {
    Seq::new(
        (2 * n) as nat,
        |j: int|
            if j % 2 == 0 {
                FuncType { params: table[j / 2].params, results: table[j / 2].results }
            } else {
                FuncType {
                    params: converter_params(table[j / 2].params.len() as int),
                    results: seq![ValueKind::Int64],
                }
            },
    )
}

/// The converters, defined in a module with `types` types in which the
/// next function gets the index `first`.
pub open spec fn converter_functions(
    table: Seq<EntryView>,
    table_index: u32,
    types: nat,
    first: nat,
    n: int,
) -> Seq<FuncDecl> {
    Seq::new(
        n as nat,
        |s: int|
            FuncDecl {
                name: converter_name(table[s].name),
                type_index: (types + 2 * s + 1) as nat,
                index: (first + s) as nat,
                body: converter_body(table[s], (types + 2 * s) as u32, table_index),
            },
    )
}

/// Defining the converters adds two types and one function per slot, in
/// slot order, and nothing else.
pub proof fn lemma_with_converters(m: ModuleView, table: Seq<EntryView>, table_index: u32, n: int)
    requires
        0 <= n <= table.len(),
    ensures
        with_converters(m, table, table_index, n) == (ModuleView {
            types: m.types + converter_types(table, n),
            functions: m.functions + converter_functions(
                table,
                table_index,
                m.types.len(),
                m.next_function_index(),
                n,
            ),
            ..m
        }),
    decreases n,
{
    let r = with_converters(m, table, table_index, n);
    let first = m.next_function_index();
    if n == 0 {
        assert(m.types + converter_types(table, 0) =~= m.types);
        assert(m.functions + converter_functions(table, table_index, m.types.len(), first, 0)
            =~= m.functions);
    } else {
        lemma_with_converters(m, table, table_index, n - 1);
        let before = with_converters(m, table, table_index, n - 1);
        assert(before.types.len() == m.types.len() + 2 * (n - 1));
        assert(before.functions.len() == m.functions.len() + (n - 1));
        assert(r.types =~= m.types + converter_types(table, n));
        assert(r.functions =~= m.functions + converter_functions(
            table,
            table_index,
            m.types.len(),
            first,
            n,
        ));
    }
}

/// The types that the thunks add.
pub open spec fn thunk_types(exports: Seq<SignatureView>, n: int) -> Seq<FuncType> {
    Seq::new(
        n as nat,
        |i: int| FuncType { params: exports[i].param_kinds(), results: exports[i].result_kinds() },
    )
}

/// The thunks, defined in a module with `types` types in which the next
/// function gets the index `first`.
pub open spec fn thunk_functions(
    exports: Seq<SignatureView>,
    protocol: Protocol,
    types: nat,
    first: nat,
    n: int,
) -> Seq<FuncDecl> {
    Seq::new(
        n as nat,
        |i: int|
            FuncDecl {
                name: exports[i].name,
                type_index: (types + i) as nat,
                index: (first + i) as nat,
                body: export_thunk_of(exports[i], i as i32, protocol),
            },
    )
}

/// Defining the thunks adds a type and a function per export, in
/// declaration order, and nothing else.
pub proof fn lemma_with_thunks(
    m: ModuleView,
    exports: Seq<SignatureView>,
    protocol: Protocol,
    n: int,
)
    requires
        0 <= n <= exports.len(),
    ensures
        with_thunks(m, exports, protocol, n) == (ModuleView {
            types: m.types + thunk_types(exports, n),
            functions: m.functions + thunk_functions(
                exports,
                protocol,
                m.types.len(),
                m.next_function_index(),
                n,
            ),
            ..m
        }),
    decreases n,
{
    let r = with_thunks(m, exports, protocol, n);
    let first = m.next_function_index();
    if n == 0 {
        assert(m.types + thunk_types(exports, 0) =~= m.types);
        assert(m.functions + thunk_functions(exports, protocol, m.types.len(), first, 0)
            =~= m.functions);
    } else {
        lemma_with_thunks(m, exports, protocol, n - 1);
        assert(r.types =~= m.types + thunk_types(exports, n));
        assert(r.functions =~= m.functions + thunk_functions(
            exports,
            protocol,
            m.types.len(),
            first,
            n,
        ));
    }
}

/// The signature of a protocol function: what it takes and what it returns.
pub open spec fn protocol_type(index: int) -> FuncType {
    let none = Seq::<ValueKind>::empty();
    let slot = seq![ValueKind::Int32];
    if index == 0 {
        FuncType { params: none, results: none }
    } else if index == 1 {
        FuncType { params: seq![ValueKind::Int32], results: none }
    } else if index == 2 {
        FuncType { params: seq![ValueKind::Int64], results: none }
    } else if index == 3 {
        FuncType { params: seq![ValueKind::Float32], results: none }
    } else if index == 4 {
        FuncType { params: seq![ValueKind::Float64], results: none }
    } else if index == 5 {
        FuncType { params: slot, results: seq![ValueKind::Int32] }
    } else if index == 6 {
        FuncType { params: slot, results: seq![ValueKind::Int64] }
    } else if index == 7 {
        FuncType { params: slot, results: seq![ValueKind::Float32] }
    } else if index == 8 {
        FuncType { params: slot, results: seq![ValueKind::Float64] }
    } else {
        FuncType { params: slot, results: none }
    }
}

/// The protocol functions are the first ten imports of the module, each
/// with a type of its own at the same index.
pub proof fn lemma_with_protocol()
    ensures
        with_protocol(ModuleView::empty()).types == Seq::new(10, |k: int| protocol_type(k)),
        with_protocol(ModuleView::empty()).imports.len() == 10,
        forall|k: int|
            0 <= k < 10 ==> (#[trigger] with_protocol(ModuleView::empty()).imports[k]).type_index
                == k && with_protocol(ModuleView::empty()).imports[k].namespace
                == protocol_namespace(),
        with_protocol(ModuleView::empty()).functions == Seq::<FuncDecl>::empty(),
        with_protocol(ModuleView::empty()).tables == Seq::<TableDecl>::empty(),
        with_protocol(ModuleView::empty()).elements == Seq::<ElementDecl>::empty(),
{
    let m = with_protocol(ModuleView::empty());
    assert(m.types =~= Seq::new(10, |k: int| protocol_type(k))) by {
        assert(m.types.len() == 10);
        assert(m.types[0] == protocol_type(0));
        assert(m.types[1] == protocol_type(1));
        assert(m.types[2] == protocol_type(2));
        assert(m.types[3] == protocol_type(3));
        assert(m.types[4] == protocol_type(4));
        assert(m.types[5] == protocol_type(5));
        assert(m.types[6] == protocol_type(6));
        assert(m.types[7] == protocol_type(7));
        assert(m.types[8] == protocol_type(8));
        assert(m.types[9] == protocol_type(9));
    }
}

/// The anatomy of the generated module, for `n` host functions and `e`
/// exports:
/// - the imports are the ten protocol functions and then the host
///   functions in declaration order, and import `k` has type `k`;
/// - there is one table, with `n` positions, and position `s` holds the
///   host function of slot `s`;
/// - the functions are, in this order and with indices that follow those of
///   the imports: the result table, the argument table, the converters in
///   slot order, the router, and the thunks in declaration order.
pub proof fn lemma_anatomy(exports: Seq<SignatureView>, hosts: Seq<HostFunctionView>)
    ensures
        ({
            let m = shim_module(exports, hosts);
            let table = import_table(hosts, 10);
            let n = hosts.len() as int;
            let e = exports.len() as int;
            let protocol = protocol_of(ModuleView::empty());
            &&& table.len() == n
            &&& m.types == Seq::new(10, |k: int| protocol_type(k)) + host_types(hosts, n) + seq![
                FuncType { params: seq![ValueKind::Int32], results: seq![ValueKind::Int32] },
                FuncType {
                    params: seq![ValueKind::Int32, ValueKind::Int32],
                    results: seq![ValueKind::Int32],
                },
            ] + converter_types(table, n) + seq![
                FuncType { params: router_params(), results: seq![ValueKind::Int64] },
            ] + thunk_types(exports, e)
            &&& m.imports.len() == 10 + n
            &&& forall|k: int| 0 <= k < 10 + n ==> (#[trigger] m.imports[k]).type_index == k
            &&& forall|k: int|
                0 <= k < n ==> (#[trigger] m.imports[10 + k]).namespace == hosts[k].namespace
                    && m.imports[10 + k].name == hosts[k].name
            &&& m.tables == seq![TableDecl { minimum: n as nat }]
            &&& m.elements == seq![ElementDecl { table: 0, functions: table_indices(table) }]
            &&& m.functions == seq![
                FuncDecl {
                    name: "__get_function_return_type"@,
                    type_index: (10 + n) as nat,
                    index: (10 + n) as nat,
                    body: return_type_table(table),
                },
                FuncDecl {
                    name: "__get_function_arg_type"@,
                    type_index: (11 + n) as nat,
                    index: (11 + n) as nat,
                    body: arg_type_table(table),
                },
            ] + converter_functions(table, 0, (12 + n) as nat, (12 + n) as nat, n) + seq![
                FuncDecl {
                    name: "__invokeHostFunc"@,
                    type_index: (12 + 3 * n) as nat,
                    index: (12 + 2 * n) as nat,
                    body: router_body(table, Seq::new(n as nat, |s: int| (12 + n + s) as u32)),
                },
            ] + thunk_functions(
                exports,
                protocol,
                (13 + 3 * n) as nat,
                (13 + 2 * n) as nat,
                e,
            )
        }),
{
    let start = ModuleView::empty();
    let protocol = protocol_of(start);
    let n = hosts.len() as int;
    let e = exports.len() as int;
    lemma_with_protocol();
    let m1 = with_protocol(start);
    lemma_with_hosts(m1, hosts, n);
    let imported = with_hosts(m1, hosts, n);
    let table = import_table(hosts, 10);
    lemma_sort_permutes(declared_entries(hosts, 10), entry_name());
    assert(table.len() == n);
    let tabled = imported.with_table(table.len());
    let introspected = tabled.with_function(
        "__get_function_return_type"@,
        seq![ValueKind::Int32],
        seq![ValueKind::Int32],
        return_type_table(table),
    ).with_function(
        "__get_function_arg_type"@,
        seq![ValueKind::Int32, ValueKind::Int32],
        seq![ValueKind::Int32],
        arg_type_table(table),
    );
    lemma_with_converters(introspected, table, 0, n);
    let converted = with_converters(introspected, table, 0, n);
    assert(next_indices(introspected, n) =~= Seq::new(n as nat, |s: int| (12 + n + s) as u32));
    let routed = converted.with_function(
        "__invokeHostFunc"@,
        router_params(),
        seq![ValueKind::Int64],
        router_body(table, next_indices(introspected, n)),
    );
    let filled = routed.with_element(0, table_indices(table));
    lemma_with_thunks(filled, exports, protocol, e);
    let m = with_thunks(filled, exports, protocol, e);
    assert(m == shim_module(exports, hosts));
    assert(m.types =~= Seq::new(10, |k: int| protocol_type(k)) + host_types(hosts, n) + seq![
        FuncType { params: seq![ValueKind::Int32], results: seq![ValueKind::Int32] },
        FuncType {
            params: seq![ValueKind::Int32, ValueKind::Int32],
            results: seq![ValueKind::Int32],
        },
    ] + converter_types(table, n) + seq![
        FuncType { params: router_params(), results: seq![ValueKind::Int64] },
    ] + thunk_types(exports, e));
    assert(m.tables =~= seq![TableDecl { minimum: n as nat }]);
    assert(m.elements =~= seq![ElementDecl { table: 0, functions: table_indices(table) }]);
    assert(m.functions =~= seq![
        FuncDecl {
            name: "__get_function_return_type"@,
            type_index: (10 + n) as nat,
            index: (10 + n) as nat,
            body: return_type_table(table),
        },
        FuncDecl {
            name: "__get_function_arg_type"@,
            type_index: (11 + n) as nat,
            index: (11 + n) as nat,
            body: arg_type_table(table),
        },
    ] + converter_functions(table, 0, (12 + n) as nat, (12 + n) as nat, n) + seq![
        FuncDecl {
            name: "__invokeHostFunc"@,
            type_index: (12 + 3 * n) as nat,
            index: (12 + 2 * n) as nat,
            body: router_body(table, Seq::new(n as nat, |s: int| (12 + n + s) as u32)),
        },
    ] + thunk_functions(exports, protocol, (13 + 3 * n) as nat, (13 + 2 * n) as nat, e));
    assert forall|k: int| 0 <= k < 10 + n implies (#[trigger] m.imports[k]).type_index == k by {
        if k < 10 {
            assert(m1.imports[k].type_index == k);
        }
    }
}

} // verus!
