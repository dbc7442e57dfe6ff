//! What the functions of a generated module do when they are called.

use vstd::prelude::*;
use crate::anatomy::{
    converter_functions, converter_types, lemma_anatomy, protocol_type, thunk_functions,
};
use crate::assemble::{FuncType, ModuleView};
use crate::behaviour::{
    arg_tag, assembled, converted_result, handing_over, lemma_arg_table_answers,
    lemma_converter_converts, lemma_thunk_assembles_its_arguments,
    lemma_result_table_answers, lemma_router_routes, lemma_thunk_hands_over, narrowed, offers,
    result_tag, routed, router_locals, thunk_trace,
};
use crate::faults::host_fault;
use crate::layout::{converter_params, protocol_of, shim_module};
use crate::machine::{of_kinds, returned, run, Callee, Event, Outcome, World};
use crate::model::{SignatureView, ValueKind};
use crate::ops::{Protocol, MAX_HOST_PARAMS};
use crate::order::{distinct_names, lemma_sort_keeps_items};
use crate::stability::{
    host_name, lemma_bodies_read_slots, lemma_slots_ignore_declaration_order, unindexed,
};
use crate::table::EntryView;
use crate::shims::MAX_FUNCTIONS;
use crate::table::{declared_entries, entry_name, entry_of, import_table, HostFunctionView};
use crate::wire::ArgType;

verus! {

/// A function type as what a caller sees: what the function takes, and the
/// kind of what it returns.
pub open spec fn callee_of(t: FuncType) -> Callee {
    Callee {
        params: t.params,
        result: if t.results.len() == 0 {
            None
        } else {
            Some(t.results[0])
        },
    }
}

/// The world inside a module: every function has the type that the module
/// gives it, imported functions first. `answers` stands for what the calls
/// return.
pub open spec fn world_of(m: ModuleView, answers: spec_fn(int) -> u64) -> World {
    World {
        functions: |f: u32|
            if f < m.imports.len() {
                callee_of(m.types[m.imports[f as int].type_index as int])
            } else {
                callee_of(m.types[m.functions[f - m.imports.len()].type_index as int])
            },
        types: |t: u32| callee_of(m.types[t as int]),
        answers,
    }
}

/// The indices of the protocol functions in every generated module.
pub open spec fn shim_protocol() -> Protocol {
    protocol_of(ModuleView::empty())
}

/// In a generated module the protocol functions have the signatures of the
/// protocol.
pub proof fn lemma_module_offers_protocol(
    exports: Seq<SignatureView>,
    hosts: Seq<HostFunctionView>,
    answers: spec_fn(int) -> u64,
)
    ensures
        offers(world_of(shim_module(exports, hosts), answers), shim_protocol()),
{
    lemma_anatomy(exports, hosts);
    let m = shim_module(exports, hosts);
    let world = world_of(m, answers);
    let protocol = shim_protocol();
    assert forall|k: int| 0 <= k < 10 implies (world.functions)(k as u32) == callee_of(
        protocol_type(k),
    ) by {
        assert(m.imports[k].type_index == k);
        assert(m.types[k] == protocol_type(k));
    }
    assert((world.functions)(0u32) == callee_of(protocol_type(0)));
    assert forall|kind: ValueKind| #[trigger]
        (world.functions)(protocol.push_of(kind)) == (Callee {
            params: seq![kind],
            result: None,
        }) by {
        let k = protocol.push_of(kind) as int;
        assert((world.functions)(k as u32) == callee_of(protocol_type(k)));
    }
    assert forall|result: Option<ValueKind>| #[trigger]
        (world.functions)(protocol.invoke_of(result)) == (Callee {
            params: seq![ValueKind::Int32],
            result,
        }) by {
        let k = protocol.invoke_of(result) as int;
        assert((world.functions)(k as u32) == callee_of(protocol_type(k)));
    }
}

/// The thunk of every export of a generated module has the name of the
/// export. Called with arguments of the kinds that the export declares, it
/// opens a call, hands over the arguments in order, each through the
/// function for its kind, and has the export run under the number of its
/// position among the exports.
pub proof fn lemma_export_thunk_marshals(
    exports: Seq<SignatureView>,
    hosts: Seq<HostFunctionView>,
    i: int,
    args: Seq<ArgType>,
    answers: spec_fn(int) -> u64,
)
    requires
        0 <= i < exports.len() <= i32::MAX,
        args.len() <= u32::MAX,
        of_kinds(args, exports[i].param_kinds()),
    ensures
        ({
            let m = shim_module(exports, hosts);
            let thunk = m.functions[3 + hosts.len() + i];
            &&& thunk.name == exports[i].name
            &&& thunk.index == 13 + 2 * hosts.len() + i
            &&& run(thunk.body, args, world_of(m, answers)) == (Outcome::Done {
                stack: returned(
                    Callee { params: seq![ValueKind::Int32], result: exports[i].result_kind() },
                    world_of(m, answers),
                    (args.len() + 1) as int,
                ),
                trace: thunk_trace(args, exports[i].result_kind(), i as i32, shim_protocol()),
            })
        }),
{
    lemma_anatomy(exports, hosts);
    lemma_module_offers_protocol(exports, hosts, answers);
    let m = shim_module(exports, hosts);
    let n = hosts.len() as int;
    let thunks = thunk_functions(
        exports,
        shim_protocol(),
        (13 + 3 * n) as nat,
        (13 + 2 * n) as nat,
        exports.len() as int,
    );
    assert(m.functions[3 + n + i] == thunks[i]);
    lemma_thunk_hands_over(
        args,
        exports[i].param_kinds(),
        exports[i].result_kind(),
        i as i32,
        shim_protocol(),
        world_of(m, answers),
    );
}

/// The first two functions of a generated module tell the kinds of a host
/// function's result and parameters by the function's slot in the table.
pub proof fn lemma_module_tells_kinds(
    exports: Seq<SignatureView>,
    hosts: Seq<HostFunctionView>,
    f: i32,
    a: i32,
    answers: spec_fn(int) -> u64,
)
    requires
        hosts.len() <= MAX_FUNCTIONS,
        forall|k: int| 0 <= k < hosts.len() ==> (#[trigger] hosts[k]).params.len() <= i32::MAX,
    ensures
        ({
            let m = shim_module(exports, hosts);
            let table = import_table(hosts, 10);
            let world = world_of(m, answers);
            &&& run(m.functions[0].body, seq![ArgType::I32(f)], world) == (Outcome::Done {
                stack: seq![ArgType::I32(result_tag(table, f))],
                trace: Seq::empty(),
            })
            &&& run(m.functions[1].body, seq![ArgType::I32(f), ArgType::I32(a)], world)
                == (Outcome::Done {
                stack: seq![ArgType::I32(arg_tag(table, f, a))],
                trace: Seq::empty(),
            })
        }),
{
    lemma_anatomy(exports, hosts);
    let m = shim_module(exports, hosts);
    let table = import_table(hosts, 10);
    let world = world_of(m, answers);
    lemma_table_entries(hosts);
    lemma_result_table_answers(table, f, world);
    lemma_arg_table_answers(table, f, a, world);
}

/// Every entry of the table is the entry of a declared host function.
pub proof fn lemma_table_entries(hosts: Seq<HostFunctionView>)
    ensures
        forall|s: int|
            0 <= s < import_table(hosts, 10).len() ==> exists|k: int|
                0 <= k < hosts.len() && #[trigger] import_table(hosts, 10)[s] == entry_of(
                    hosts[k],
                    (10 + k) as u32,
                ),
{
    let declared = declared_entries(hosts, 10);
    let table = import_table(hosts, 10);
    lemma_sort_keeps_items(declared, entry_name());
    assert forall|s: int| 0 <= s < table.len() implies exists|k: int|
        0 <= k < hosts.len() && #[trigger] table[s] == entry_of(hosts[k], (10 + k) as u32) by {
        assert(table.contains(table[s]));
        assert(declared.contains(table[s]));
        let k = choose|k: int| 0 <= k < declared.len() && declared[k] == table[s];
        assert(declared[k] == entry_of(hosts[k], (10 + k) as u32));
    }
}

/// The router of a generated module, called with a slot and five wide
/// integers, calls the converter of that slot; the converter calls, through
/// the table, the host function of that slot with the values that the wide
/// integers carry, and returns the wide integer that carries the result.
pub proof fn lemma_module_routes(
    exports: Seq<SignatureView>,
    hosts: Seq<HostFunctionView>,
    f: i32,
    wides: Seq<u64>,
    answers: spec_fn(int) -> u64,
)
    requires
        hosts.len() <= MAX_FUNCTIONS,
        wides.len() == MAX_HOST_PARAMS,
        forall|k: int| 0 <= k < hosts.len() ==> host_fault(#[trigger] hosts[k]) is None,
    ensures
        ({
            let m = shim_module(exports, hosts);
            let n = hosts.len() as int;
            let table = import_table(hosts, 10);
            let world = world_of(m, answers);
            let converters = Seq::new(n as nat, |s: int| (12 + n + s) as u32);
            &&& run(m.functions[2 + n].body, router_locals(f, wides), world) == routed(
                table,
                converters,
                f,
                wides,
                world,
            )
            &&& 0 <= f < n ==> {
                let entry = table[f as int];
                let arity = entry.params.len() as int;
                let converter = m.functions[2 + f];
                &&& converter.index == converters[f as int]
                &&& run(converter.body, router_locals(f, wides.take(arity)), world)
                    == (Outcome::Done {
                    stack: seq![ArgType::I64(converted_result(entry.result_kind(), world))],
                    trace: seq![
                        Event::CallIndirect {
                            table: 0,
                            slot: f,
                            type_index: (12 + n + 2 * f) as u32,
                            args: narrowed(entry.params, wides.take(arity)),
                        },
                    ],
                })
            }
        }),
{
    lemma_anatomy(exports, hosts);
    lemma_table_entries(hosts);
    let m = shim_module(exports, hosts);
    let n = hosts.len() as int;
    let table = import_table(hosts, 10);
    let world = world_of(m, answers);
    let converters = Seq::new(n as nat, |s: int| (12 + n + s) as u32);
    let defined = converter_functions(table, 0, (12 + n) as nat, (12 + n) as nat, n);
    let added = converter_types(table, n);
    assert forall|s: int| 0 <= s < n implies (#[trigger] table[s]).params.len()
        <= MAX_HOST_PARAMS by {
        let k = choose|k: int|
            0 <= k < hosts.len() && table[s] == entry_of(hosts[k], (10 + k) as u32);
        assert(host_fault(hosts[k]) is None);
    }
    assert forall|s: int| 0 <= s < n implies (world.functions)(#[trigger] converters[s])
        == (Callee {
        params: converter_params(table[s].params.len() as int),
        result: Some(ValueKind::Int64),
    }) by {
        assert(m.functions[2 + s] == defined[s]);
        assert(m.types[13 + n + 2 * s] == added[2 * s + 1]);
    }
    lemma_router_routes(table, converters, f, wides, world);
    if 0 <= f < n {
        let entry = table[f as int];
        let arity = entry.params.len() as int;
        assert(m.functions[2 + f] == defined[f as int]);
        assert(m.types[12 + n + 2 * f] == added[2 * f]);
        assert((world.types)((12 + n + 2 * f) as u32) == callee_of(added[2 * f]));
        lemma_converter_converts(
            entry,
            (12 + n + 2 * f) as u32,
            0,
            f,
            wides.take(arity),
            world,
        );
    }
}

/// The table of a generated module holds, at every slot, the import of the
/// host function of that slot: the function that the converter of the slot
/// calls through the table has the slot's name and the very type under
/// which the converter calls it.
pub proof fn lemma_table_holds_host_functions(
    exports: Seq<SignatureView>,
    hosts: Seq<HostFunctionView>,
    s: int,
)
    requires
        hosts.len() <= MAX_FUNCTIONS,
        0 <= s < hosts.len(),
    ensures
        ({
            let m = shim_module(exports, hosts);
            let n = hosts.len() as int;
            let table = import_table(hosts, 10);
            let held = m.elements[0].functions[s] as int;
            &&& m.elements.len() == 1
            &&& m.tables.len() == 1
            &&& m.tables[0].minimum == n
            &&& m.elements[0].table == 0
            &&& m.elements[0].functions.len() == n
            &&& 10 <= held < 10 + n
            &&& m.imports[held].name == table[s].name
            &&& m.types[m.imports[held].type_index as int] == m.types[12 + n + 2 * s]
        }),
{
    lemma_anatomy(exports, hosts);
    lemma_table_entries(hosts);
    let m = shim_module(exports, hosts);
    let n = hosts.len() as int;
    let table = import_table(hosts, 10);
    let k = choose|k: int| 0 <= k < hosts.len() && table[s] == entry_of(hosts[k], (10 + k) as u32);
    assert(m.elements[0].functions[s] == table[s].index);
    assert(m.imports[10 + k].name == hosts[k].name);
    assert(m.imports[10 + k].type_index == 10 + k);
    assert(m.types[10 + k] == crate::anatomy::host_types(hosts, n)[k]);
    assert(m.types[12 + n + 2 * s] == converter_types(table, n)[2 * s]);
}

/// The functions that a module defines do not depend on the order in which
/// the host functions were declared, provided that no two host functions
/// share a name: the two tables of kinds, the converters, the router and
/// the thunks come out the same, with the same names, indices and bodies.
/// What depends on that order is the order of the imports, and with it the
/// function references that the table is filled with.
pub proof fn lemma_functions_ignore_declaration_order(
    exports: Seq<SignatureView>,
    a: Seq<HostFunctionView>,
    b: Seq<HostFunctionView>,
)
    requires
        distinct_names(a, host_name()),
        a.to_multiset() == b.to_multiset(),
    ensures
        shim_module(exports, a).functions == shim_module(exports, b).functions,
        shim_module(exports, a).tables == shim_module(exports, b).tables,
{
    lemma_anatomy(exports, a);
    lemma_anatomy(exports, b);
    let ta = import_table(a, 10);
    let tb = import_table(b, 10);
    let n = a.len() as int;
    let converters = Seq::new(n as nat, |s: int| (12 + n + s) as u32);
    lemma_slots_ignore_declaration_order(a, b, 10, 10, converters);
    lemma_bodies_read_slots(ta, tb, converters);
    let strip = |e: EntryView| unindexed(e);
    assert(ta.len() == tb.len());
    let ca = converter_functions(ta, 0, (12 + n) as nat, (12 + n) as nat, n);
    let cb = converter_functions(tb, 0, (12 + n) as nat, (12 + n) as nat, n);
    assert forall|s: int| 0 <= s < n implies ca[s] == cb[s] by {
        assert(ta.map_values(strip)[s] == unindexed(ta[s]));
        assert(tb.map_values(strip)[s] == unindexed(tb[s]));
        assert(ta[s].name == tb[s].name);
    }
    assert(ca =~= cb);
}

/// When the thunk of an export has handed over its arguments and has the
/// export run, the call on top of the calls under assembly holds exactly
/// the arguments that the thunk was called with, in order and in kind, and
/// the calls below it are untouched.
pub proof fn lemma_export_call_is_assembled(
    args: Seq<ArgType>,
    result: Option<ValueKind>,
    index: i32,
    stack: Seq<Seq<ArgType>>,
)
    ensures
        thunk_trace(args, result, index, shim_protocol()).drop_last() == handing_over(
            args,
            shim_protocol(),
            args.len() as int,
        ),
        assembled(
            thunk_trace(args, result, index, shim_protocol()).drop_last(),
            shim_protocol(),
            stack,
        ) == stack.push(args),
{
    let protocol = shim_protocol();
    let handed = handing_over(args, protocol, args.len() as int);
    assert(thunk_trace(args, result, index, protocol).drop_last() =~= handed);
    lemma_thunk_assembles_its_arguments(args, protocol, stack);
}

} // verus!
