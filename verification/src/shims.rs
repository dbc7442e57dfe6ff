//! The generator: from an interface to a binary module.

use vstd::prelude::*;
use vstd::string::StringExecFns;
use crate::assemble::{
    add_active_element, add_table, add_type, contents, define_function, encode_module,
    import_function, new_module, short_name, total_ops, validate_binary, validation_failure,
    wasm_binary, ModuleView, MAX_ENTRIES, MAX_TOTAL_OPS,
};
use crate::faults::{
    export_fault, find_fault, first_export_fault, first_host_fault, host_fault, interface_fault,
    lemma_no_fault, Fault, ShimError,
};
use crate::layout::{
    converter_name, converter_params, lemma_with_element_within_limits,
    lemma_with_function_within_limits, lemma_with_import_within_limits,
    lemma_with_table_within_limits, lemma_with_type_within_limits, next_indices, protocol_of,
    shim_module, table_indices, with_converters, with_hosts, with_protocol, with_thunks,
};
use crate::model::{
    collect_kinds, interfaces_view, Interface, PluginInterface, SignatureView, ValueKind,
};
use crate::names::{lemma_ascii_name_bytes, lemma_name_key_concat, name_key};
use crate::ops::{
    arg_type_ops, arg_type_table, converter_ops, first_kind, lemma_arg_type_table_len,
    lemma_converter_body_len, lemma_return_type_table_len, lemma_router_body_len,
    lemma_thunk_body_len, return_type_ops, return_type_table, router_ops, thunk_ops, Protocol,
    MAX_HOST_PARAMS,
};
use crate::order::{lemma_sort_keeps_items, lemma_sort_permutes};
use crate::table::{
    declared_entries, declared_host_functions, entries_view, entry_name, entry_of, host_functions,
    hosts_view, import_table, sort_entries, EntryView, HostFunction, HostFunctionView,
    ImportEntry,
};

verus! {

/// The most host functions, and the most exports, an interface may declare.
pub const MAX_FUNCTIONS: usize = 30000;

/// The most parameters an export may take.
pub const MAX_PARAMS: usize = 1000;

/// The most bytes the name of a function or of a namespace may take.
pub const MAX_IDENTIFIER_BYTES: usize = 4000;

/// An identifier of a size that the generator accepts.
pub open spec fn identifier(name: Seq<char>) -> bool {
    name_key(name).len() <= MAX_IDENTIFIER_BYTES
}

/// An interface of a size that the generator accepts: so many functions,
/// parameters and bytes of names at most that the module stays within the
/// limits that its encoding sets.
pub open spec fn fits(exports: Seq<SignatureView>, hosts: Seq<HostFunctionView>) -> bool {
    &&& hosts.len() <= MAX_FUNCTIONS
    &&& exports.len() <= MAX_FUNCTIONS
    &&& forall|i: int|
        0 <= i < hosts.len() ==> identifier((#[trigger] hosts[i]).namespace) && identifier(
            hosts[i].name,
        )
    &&& forall|i: int|
        0 <= i < exports.len() ==> identifier((#[trigger] exports[i]).name)
            && exports[i].params.len() <= MAX_PARAMS
}

/// No host function takes more parameters than the router passes on or
/// returns more than one result.
pub open spec fn routable(hosts: Seq<HostFunctionView>) -> bool {
    forall|i: int|
        0 <= i < hosts.len() ==> (#[trigger] hosts[i]).params.len() <= MAX_HOST_PARAMS
            && hosts[i].results.len() <= 1
}

proof fn lemma_protocol_names_short()
    ensures
        short_name("core"@),
        short_name("__arg_start"@),
        short_name("__arg_i32"@),
        short_name("__arg_i64"@),
        short_name("__arg_f32"@),
        short_name("__arg_f64"@),
        short_name("__invoke_i32"@),
        short_name("__invoke_i64"@),
        short_name("__invoke_f32"@),
        short_name("__invoke_f64"@),
        short_name("__invoke"@),
{
    reveal_strlit("core");
    reveal_strlit("__arg_start");
    reveal_strlit("__arg_i32");
    reveal_strlit("__arg_i64");
    reveal_strlit("__arg_f32");
    reveal_strlit("__arg_f64");
    reveal_strlit("__invoke_i32");
    reveal_strlit("__invoke_i64");
    reveal_strlit("__invoke_f32");
    reveal_strlit("__invoke_f64");
    reveal_strlit("__invoke");
    lemma_ascii_name_bytes("core"@);
    lemma_ascii_name_bytes("__arg_start"@);
    lemma_ascii_name_bytes("__arg_i32"@);
    lemma_ascii_name_bytes("__arg_i64"@);
    lemma_ascii_name_bytes("__arg_f32"@);
    lemma_ascii_name_bytes("__arg_f64"@);
    lemma_ascii_name_bytes("__invoke_i32"@);
    lemma_ascii_name_bytes("__invoke_i64"@);
    lemma_ascii_name_bytes("__invoke_f32"@);
    lemma_ascii_name_bytes("__invoke_f64"@);
    lemma_ascii_name_bytes("__invoke"@);
}

/// Imports the protocol functions into an empty module.
fn import_protocol(m: &mut wagen::Module<'static>) -> (protocol: Protocol)
    requires
        contents(*old(m)) == ModuleView::empty(),
    ensures
        contents(*final(m)) == with_protocol(ModuleView::empty()),
        protocol == protocol_of(ModuleView::empty()),
        contents(*final(m)).within_limits(),
        contents(*final(m)).types.len() == 10,
        contents(*final(m)).imports.len() == 10,
        contents(*final(m)).functions.len() == 0,
        contents(*final(m)).tables.len() == 0,
        contents(*final(m)).elements.len() == 0,
{
    proof {
        lemma_protocol_names_short();
    }
    let none: Vec<ValueKind> = Vec::new();
    let i32s: Vec<ValueKind> = vec![ValueKind::Int32];
    let i64s: Vec<ValueKind> = vec![ValueKind::Int64];
    let f32s: Vec<ValueKind> = vec![ValueKind::Float32];
    let f64s: Vec<ValueKind> = vec![ValueKind::Float64];
    assert(none@ =~= seq![]);
    assert(i32s@ =~= seq![ValueKind::Int32]);
    assert(i64s@ =~= seq![ValueKind::Int64]);
    assert(f32s@ =~= seq![ValueKind::Float32]);
    assert(f64s@ =~= seq![ValueKind::Float64]);
    let ghost m0 = contents(*m);
    let arg_start = import_function(m, "core", "__arg_start", &none, &none);
    let ghost m1 = contents(*m);
    proof {
        lemma_with_import_within_limits(m0, "core"@, "__arg_start"@, none@, none@);
    }
    let arg_i32 = import_function(m, "core", "__arg_i32", &i32s, &none);
    let ghost m2 = contents(*m);
    proof {
        lemma_with_import_within_limits(m1, "core"@, "__arg_i32"@, i32s@, none@);
    }
    let arg_i64 = import_function(m, "core", "__arg_i64", &i64s, &none);
    let ghost m3 = contents(*m);
    proof {
        lemma_with_import_within_limits(m2, "core"@, "__arg_i64"@, i64s@, none@);
    }
    let arg_f32 = import_function(m, "core", "__arg_f32", &f32s, &none);
    let ghost m4 = contents(*m);
    proof {
        lemma_with_import_within_limits(m3, "core"@, "__arg_f32"@, f32s@, none@);
    }
    let arg_f64 = import_function(m, "core", "__arg_f64", &f64s, &none);
    let ghost m5 = contents(*m);
    proof {
        lemma_with_import_within_limits(m4, "core"@, "__arg_f64"@, f64s@, none@);
    }
    let invoke_i32 = import_function(m, "core", "__invoke_i32", &i32s, &i32s);
    let ghost m6 = contents(*m);
    proof {
        lemma_with_import_within_limits(m5, "core"@, "__invoke_i32"@, i32s@, i32s@);
    }
    let invoke_i64 = import_function(m, "core", "__invoke_i64", &i32s, &i64s);
    let ghost m7 = contents(*m);
    proof {
        lemma_with_import_within_limits(m6, "core"@, "__invoke_i64"@, i32s@, i64s@);
    }
    let invoke_f32 = import_function(m, "core", "__invoke_f32", &i32s, &f32s);
    let ghost m8 = contents(*m);
    proof {
        lemma_with_import_within_limits(m7, "core"@, "__invoke_f32"@, i32s@, f32s@);
    }
    let invoke_f64 = import_function(m, "core", "__invoke_f64", &i32s, &f64s);
    let ghost m9 = contents(*m);
    proof {
        lemma_with_import_within_limits(m8, "core"@, "__invoke_f64"@, i32s@, f64s@);
    }
    let invoke = import_function(m, "core", "__invoke", &i32s, &none);
    proof {
        lemma_with_import_within_limits(m9, "core"@, "__invoke"@, i32s@, none@);
    }
    Protocol {
        arg_start,
        arg_i32,
        arg_i64,
        arg_f32,
        arg_f64,
        invoke_i32,
        invoke_i64,
        invoke_f32,
        invoke_f64,
        invoke,
    }
}

/// Imports the host functions, in declaration order, and returns their
/// entries, in the same order.
fn import_hosts(m: &mut wagen::Module<'static>, hosts: &Vec<HostFunction>) -> (entries: Vec<
    ImportEntry,
>)
    requires
        contents(*old(m)).within_limits(),
        contents(*old(m)).types.len() + hosts.len() < MAX_ENTRIES,
        contents(*old(m)).imports.len() + hosts.len() < MAX_ENTRIES,
        contents(*old(m)).functions.len() < MAX_ENTRIES,
        contents(*old(m)).tables.len() < MAX_ENTRIES,
        contents(*old(m)).elements.len() < MAX_ENTRIES,
        routable(hosts_view(hosts@)),
        forall|i: int|
            0 <= i < hosts.len() ==> identifier((#[trigger] hosts_view(hosts@)[i]).namespace)
                && identifier(hosts_view(hosts@)[i].name),
    ensures
        contents(*final(m)) == with_hosts(
            contents(*old(m)),
            hosts_view(hosts@),
            hosts.len() as int,
        ),
        entries_view(entries@) == declared_entries(
            hosts_view(hosts@),
            contents(*old(m)).imports.len() as int,
        ),
        contents(*final(m)).within_limits(),
        contents(*final(m)).types.len() == contents(*old(m)).types.len() + hosts.len(),
        contents(*final(m)).imports.len() == contents(*old(m)).imports.len() + hosts.len(),
        contents(*final(m)).functions == contents(*old(m)).functions,
        contents(*final(m)).tables == contents(*old(m)).tables,
        contents(*final(m)).elements == contents(*old(m)).elements,
{
    let ghost base = contents(*m);
    let ghost hv = hosts_view(hosts@);
    let mut entries: Vec<ImportEntry> = Vec::new();
    let mut k: usize = 0;
    while k < hosts.len()
        invariant
            k <= hosts.len(),
            hv == hosts_view(hosts@),
            base.types.len() + hosts.len() < MAX_ENTRIES,
            base.imports.len() + hosts.len() < MAX_ENTRIES,
            base.functions.len() < MAX_ENTRIES,
            base.tables.len() < MAX_ENTRIES,
            base.elements.len() < MAX_ENTRIES,
            routable(hv),
            forall|i: int|
                0 <= i < hosts.len() ==> identifier((#[trigger] hv[i]).namespace) && identifier(
                    hv[i].name,
                ),
            contents(*m) == with_hosts(base, hv, k as int),
            contents(*m).within_limits(),
            contents(*m).types.len() == base.types.len() + k,
            contents(*m).imports.len() == base.imports.len() + k,
            contents(*m).functions == base.functions,
            contents(*m).tables == base.tables,
            contents(*m).elements == base.elements,
            entries.len() == k,
            forall|j: int|
                0 <= j < k ==> (#[trigger] entries@[j])@ == entry_of(
                    hv[j],
                    (base.imports.len() + j) as u32,
                ),
        decreases hosts.len() - k,
    {
        let host = &hosts[k];
        assert(hv[k as int] == host@);
        let ghost before = contents(*m);
        let index = import_function(
            m,
            host.namespace.as_str(),
            host.name.as_str(),
            &host.params,
            &host.results,
        );
        proof {
            lemma_with_import_within_limits(
                before,
                host@.namespace,
                host@.name,
                host@.params,
                host@.results,
            );
        }
        let entry = ImportEntry {
            name: host.name.clone(),
            index,
            params: host.params.clone(),
            results: host.results.clone(),
        };
        assert(entry.params@ =~= host.params@);
        assert(entry.results@ =~= host.results@);
        entries.push(entry);
        k += 1;
    }
    assert(entries_view(entries@) =~= declared_entries(hv, base.imports.len() as int));
    entries
}

/// No entry takes more parameters than the router passes on or returns more
/// than one result, and every entry's name is an identifier.
pub open spec fn routable_table(table: Seq<EntryView>) -> bool {
    forall|i: int|
        0 <= i < table.len() ==> (#[trigger] table[i]).params.len() <= MAX_HOST_PARAMS
            && table[i].results.len() <= 1 && identifier(table[i].name)
}

proof fn lemma_function_names_short()
    ensures
        short_name("__get_function_return_type"@),
        short_name("__get_function_arg_type"@),
        short_name("__invokeHostFunc"@),
{
    reveal_strlit("__get_function_return_type");
    reveal_strlit("__get_function_arg_type");
    reveal_strlit("__invokeHostFunc");
    lemma_ascii_name_bytes("__get_function_return_type"@);
    lemma_ascii_name_bytes("__get_function_arg_type"@);
    lemma_ascii_name_bytes("__invokeHostFunc"@);
}

/// The name of a converter is seven bytes longer than the name of its host
/// function.
proof fn lemma_converter_name_short(name: Seq<char>)
    requires
        identifier(name),
    ensures
        short_name(converter_name(name)),
{
    reveal_strlit("__conv_");
    lemma_ascii_name_bytes("__conv_"@);
    lemma_name_key_concat("__conv_"@, name);
}

/// Defines the two functions that tell the kinds of a host function's
/// result and parameters.
fn define_introspection(m: &mut wagen::Module<'static>, table: &Vec<ImportEntry>)
    requires
        contents(*old(m)).within_limits(),
        contents(*old(m)).types.len() + 2 < MAX_ENTRIES,
        contents(*old(m)).imports.len() < MAX_ENTRIES,
        contents(*old(m)).functions.len() + 2 < MAX_ENTRIES,
        contents(*old(m)).tables.len() < MAX_ENTRIES,
        contents(*old(m)).elements.len() < MAX_ENTRIES,
        table.len() <= MAX_FUNCTIONS,
        routable_table(entries_view(table@)),
        total_ops(contents(*old(m)).functions) + 62 * table.len() + 4 <= MAX_TOTAL_OPS,
    ensures
        total_ops(contents(*final(m)).functions) <= total_ops(contents(*old(m)).functions) + 62
            * table.len() + 4,
        contents(*final(m)) == contents(*old(m)).with_function(
            "__get_function_return_type"@,
            seq![ValueKind::Int32],
            seq![ValueKind::Int32],
            return_type_table(entries_view(table@)),
        ).with_function(
            "__get_function_arg_type"@,
            seq![ValueKind::Int32, ValueKind::Int32],
            seq![ValueKind::Int32],
            arg_type_table(entries_view(table@)),
        ),
        contents(*final(m)).within_limits(),
        contents(*final(m)).types.len() == contents(*old(m)).types.len() + 2,
        contents(*final(m)).functions.len() == contents(*old(m)).functions.len() + 2,
        contents(*final(m)).imports == contents(*old(m)).imports,
        contents(*final(m)).tables == contents(*old(m)).tables,
        contents(*final(m)).elements == contents(*old(m)).elements,
{
    let ghost tv = entries_view(table@);
    proof {
        lemma_function_names_short();
        lemma_return_type_table_len(tv);
        lemma_arg_type_table_len(tv, MAX_HOST_PARAMS as int);
        assert forall|i: int| 0 <= i < table.len() implies (#[trigger] table@[i]).params.len()
            <= i32::MAX by {
            assert(tv[i] == table@[i]@);
        }
        assert(11 * (MAX_HOST_PARAMS as int) * tv.len() == 55 * tv.len()) by (nonlinear_arith)
            requires
                MAX_HOST_PARAMS == 5,
        ;
    }
    let one: Vec<ValueKind> = vec![ValueKind::Int32];
    let two: Vec<ValueKind> = vec![ValueKind::Int32, ValueKind::Int32];
    assert(one@ =~= seq![ValueKind::Int32]);
    assert(two@ =~= seq![ValueKind::Int32, ValueKind::Int32]);
    let results = return_type_ops(table);
    let ghost m0 = contents(*m);
    define_function(m, "__get_function_return_type", &one, &one, &results);
    proof {
        lemma_with_function_within_limits(
            m0,
            "__get_function_return_type"@,
            one@,
            one@,
            results@,
        );
    }
    let args = arg_type_ops(table);
    let ghost m1 = contents(*m);
    define_function(m, "__get_function_arg_type", &two, &one, &args);
    proof {
        lemma_with_function_within_limits(m1, "__get_function_arg_type"@, two@, one@, args@);
    }
}

/// What a converter takes.
fn converter_kinds(arity: usize) -> (kinds: Vec<ValueKind>)
    requires
        arity < usize::MAX,
    ensures
        kinds@ == converter_params(arity as int),
{
    let mut kinds: Vec<ValueKind> = Vec::new();
    kinds.push(ValueKind::Int32);
    assert(kinds@ =~= converter_params(0));
    let mut i: usize = 0;
    while i < arity
        invariant
            i <= arity,
            kinds@ == converter_params(i as int),
        decreases arity - i,
    {
        kinds.push(ValueKind::Int64);
        assert(kinds@ =~= converter_params(i + 1));
        i += 1;
    }
    kinds
}

/// Defines the converters, in slot order, and returns their indices.
fn define_converters(
    m: &mut wagen::Module<'static>,
    table: &Vec<ImportEntry>,
    table_index: u32,
) -> (converters: Vec<u32>)
    requires
        contents(*old(m)).within_limits(),
        contents(*old(m)).types.len() + 2 * table.len() < MAX_ENTRIES,
        contents(*old(m)).imports.len() + contents(*old(m)).functions.len() + table.len()
            < MAX_ENTRIES,
        contents(*old(m)).tables.len() < MAX_ENTRIES,
        contents(*old(m)).elements.len() < MAX_ENTRIES,
        routable_table(entries_view(table@)),
        total_ops(contents(*old(m)).functions) + 19 * table.len() <= MAX_TOTAL_OPS,
    ensures
        total_ops(contents(*final(m)).functions) <= total_ops(contents(*old(m)).functions) + 19
            * table.len(),
        contents(*final(m)) == with_converters(
            contents(*old(m)),
            entries_view(table@),
            table_index,
            table.len() as int,
        ),
        converters@ == next_indices(contents(*old(m)), table.len() as int),
        contents(*final(m)).within_limits(),
        contents(*final(m)).types.len() == contents(*old(m)).types.len() + 2 * table.len(),
        contents(*final(m)).functions.len() == contents(*old(m)).functions.len() + table.len(),
        contents(*final(m)).imports == contents(*old(m)).imports,
        contents(*final(m)).tables == contents(*old(m)).tables,
        contents(*final(m)).elements == contents(*old(m)).elements,
{
    let ghost base = contents(*m);
    let ghost tv = entries_view(table@);
    let mut converters: Vec<u32> = Vec::new();
    let results: Vec<ValueKind> = vec![ValueKind::Int64];
    assert(results@ =~= seq![ValueKind::Int64]);
    let mut slot: usize = 0;
    while slot < table.len()
        invariant
            slot <= table.len(),
            tv == entries_view(table@),
            results@ == seq![ValueKind::Int64],
            base.types.len() + 2 * table.len() < MAX_ENTRIES,
            base.imports.len() + base.functions.len() + table.len() < MAX_ENTRIES,
            base.tables.len() < MAX_ENTRIES,
            base.elements.len() < MAX_ENTRIES,
            routable_table(tv),
            total_ops(base.functions) + 19 * table.len() <= MAX_TOTAL_OPS,
            total_ops(contents(*m).functions) <= total_ops(base.functions) + 19 * slot,
            contents(*m) == with_converters(base, tv, table_index, slot as int),
            contents(*m).within_limits(),
            contents(*m).types.len() == base.types.len() + 2 * slot,
            contents(*m).functions.len() == base.functions.len() + slot,
            contents(*m).imports == base.imports,
            contents(*m).tables == base.tables,
            contents(*m).elements == base.elements,
            converters.len() == slot,
            forall|j: int|
                0 <= j < slot ==> #[trigger] converters@[j] == (base.next_function_index()
                    + j) as u32,
        decreases table.len() - slot,
    {
        let entry = &table[slot];
        assert(tv[slot as int] == entry@);
        let ghost m0 = contents(*m);
        let type_index = add_type(m, &entry.params, &entry.results);
        let ghost m1 = contents(*m);
        let body = converter_ops(entry, type_index, table_index);
        let name = String::from_str("__conv_").concat(entry.name.as_str());
        let params = converter_kinds(entry.params.len());
        proof {
            lemma_with_type_within_limits(m0, entry@.params, entry@.results);
            lemma_converter_name_short(entry@.name);
            lemma_converter_body_len(entry@, type_index, table_index);
            assert(params@.len() == entry@.params.len() + 1);
        }
        let index = define_function(m, name.as_str(), &params, &results, &body);
        proof {
            lemma_with_function_within_limits(m1, name@, params@, results@, body@);
        }
        converters.push(index);
        slot += 1;
    }
    assert(converters@ =~= next_indices(base, table.len() as int));
    converters
}

/// The import indices of the table's entries, slot by slot.
fn collect_indices(table: &Vec<ImportEntry>) -> (indices: Vec<u32>)
    ensures
        indices@ == table_indices(entries_view(table@)),
{
    let mut indices: Vec<u32> = Vec::new();
    let mut slot: usize = 0;
    while slot < table.len()
        invariant
            slot <= table.len(),
            indices.len() == slot,
            forall|j: int| 0 <= j < slot ==> #[trigger] indices@[j] == table@[j].index,
        decreases table.len() - slot,
    {
        indices.push(table[slot].index);
        slot += 1;
    }
    assert(indices@ =~= table_indices(entries_view(table@)));
    indices
}

/// Defines the thunks of the exports, in declaration order.
fn define_thunks(m: &mut wagen::Module<'static>, exports: &Interface, protocol: &Protocol)
    requires
        contents(*old(m)).within_limits(),
        contents(*old(m)).types.len() + exports.functions.len() < MAX_ENTRIES,
        contents(*old(m)).imports.len() + contents(*old(m)).functions.len()
            + exports.functions.len() < MAX_ENTRIES,
        contents(*old(m)).tables.len() < MAX_ENTRIES,
        contents(*old(m)).elements.len() < MAX_ENTRIES,
        exports.functions.len() <= MAX_FUNCTIONS,
        total_ops(contents(*old(m)).functions) + (2 * MAX_PARAMS + 3) * exports.functions.len()
            <= MAX_TOTAL_OPS,
        forall|i: int|
            0 <= i < exports@.functions.len() ==> identifier((#[trigger] exports@.functions[i]).name)
                && exports@.functions[i].params.len() <= MAX_PARAMS
                && exports@.functions[i].results.len() <= 1,
    ensures
        contents(*final(m)) == with_thunks(
            contents(*old(m)),
            exports@.functions,
            *protocol,
            exports@.functions.len() as int,
        ),
        contents(*final(m)).within_limits(),
{
    let ghost base = contents(*m);
    let ghost ev = exports@.functions;
    let mut i: usize = 0;
    assert(ev.len() == exports.functions.len());
    while i < exports.functions.len()
        invariant
            i <= exports.functions.len() <= MAX_FUNCTIONS,
            ev == exports@.functions,
            ev.len() == exports.functions.len(),
            base.types.len() + exports.functions.len() < MAX_ENTRIES,
            base.imports.len() + base.functions.len() + exports.functions.len() < MAX_ENTRIES,
            base.tables.len() < MAX_ENTRIES,
            base.elements.len() < MAX_ENTRIES,
            total_ops(base.functions) + (2 * MAX_PARAMS + 3) * exports.functions.len()
                <= MAX_TOTAL_OPS,
            total_ops(contents(*m).functions) <= total_ops(base.functions) + (2 * MAX_PARAMS + 3)
                * i,
            forall|k: int|
                0 <= k < ev.len() ==> identifier((#[trigger] ev[k]).name) && ev[k].params.len()
                    <= MAX_PARAMS && ev[k].results.len() <= 1,
            contents(*m) == with_thunks(base, ev, *protocol, i as int),
            contents(*m).within_limits(),
            contents(*m).types.len() == base.types.len() + i,
            contents(*m).functions.len() == base.functions.len() + i,
            contents(*m).imports == base.imports,
            contents(*m).tables == base.tables,
            contents(*m).elements == base.elements,
        decreases exports.functions.len() - i,
    {
        let f = &exports.functions[i];
        assert(ev[i as int] == f@);
        let params = collect_kinds(&f.params);
        let results = collect_kinds(&f.results);
        let result = first_kind(&results);
        assert(result == f@.result_kind());
        let body = thunk_ops(&params, result, i as i32, protocol);
        let ghost m0 = contents(*m);
        proof {
            lemma_thunk_body_len(params@, result, i as i32, *protocol);
            let most = 2 * MAX_PARAMS + 3;
            let count = exports.functions.len() as int;
            assert(most * (i + 1) == most * i + most) by (nonlinear_arith);
            assert(most * (i + 1) <= most * count) by (nonlinear_arith)
                requires
                    i + 1 <= count,
                    0 <= most,
            ;
        }
        define_function(m, f.name.as_str(), &params, &results, &body);
        proof {
            lemma_with_function_within_limits(m0, f@.name, params@, results@, body@);
        }
        i += 1;
    }
}

/// The binary module generated for an interface.
pub open spec fn shim_binary(exports: Seq<SignatureView>, hosts: Seq<HostFunctionView>) -> Seq<u8> {
    let m = shim_module(exports, hosts);
    wasm_binary(m.types, m.imports, m.functions, m.tables, m.elements)
}

/// What generation comes to: the fault of the interface if it has one;
/// else the module, if the validator accepts it; else the validator's
/// diagnostic together with the module.
pub open spec fn generated(exports: Seq<SignatureView>, hosts: Seq<HostFunctionView>) -> Result<
    Seq<u8>,
    Fault,
> {
    match interface_fault(exports, hosts) {
        Some(fault) => Err(fault),
        None => verdict_on(shim_binary(exports, hosts), validation_failure(shim_binary(exports, hosts))),
    }
}

/// What becomes of an assembled module once the validator has spoken.
pub open spec fn verdict_on(module: Seq<u8>, failure: Option<Seq<char>>) -> Result<Seq<u8>, Fault> {
    match failure {
        None => Ok(module),
        Some(diagnostic) => Err(Fault::Invalid { module, diagnostic }),
    }
}

/// The view of what generation returns.
pub open spec fn result_view(r: Result<Vec<u8>, ShimError>) -> Result<Seq<u8>, Fault> {
    match r {
        Ok(bytes) => Ok(bytes@),
        Err(error) => Err(error@),
    }
}

/// Hands out the module if the validator accepted it; else keeps the module
/// beside the diagnostic.
pub fn conclude(module: Vec<u8>, verdict: Result<(), String>) -> (r: Result<Vec<u8>, ShimError>)
    ensures
        result_view(r) == verdict_on(
            module@,
            match verdict {
                Ok(_) => None,
                Err(diagnostic) => Some(diagnostic@),
            },
        ),
{
    match verdict {
        Ok(_) => Ok(module),
        Err(diagnostic) => Err(ShimError::Invalid { module, diagnostic }),
    }
}

/// The entries of host functions without fault, in whatever order, are
/// entries that the router can serve.
proof fn lemma_table_routable(hosts: Seq<HostFunctionView>, first: int)
    requires
        routable(hosts),
        forall|i: int| 0 <= i < hosts.len() ==> identifier((#[trigger] hosts[i]).name),
    ensures
        routable_table(import_table(hosts, first)),
        import_table(hosts, first).len() == hosts.len(),
{
    let declared = declared_entries(hosts, first);
    let table = import_table(hosts, first);
    lemma_sort_keeps_items(declared, entry_name());
    lemma_sort_permutes(declared, entry_name());
    assert forall|i: int| 0 <= i < table.len() implies (#[trigger] table[i]).params.len()
        <= MAX_HOST_PARAMS && table[i].results.len() <= 1 && identifier(table[i].name) by {
        assert(table.contains(table[i]));
        assert(declared.contains(table[i]));
        let k = choose|k: int| 0 <= k < declared.len() && declared[k] == table[i];
        assert(declared[k] == entry_of(hosts[k], (first + k) as u32));
    }
}

/// Whether the interface is of a size that the generator accepts.
pub fn interface_fits(exports: &Interface, imports: &[Interface]) -> (ok: bool)
    ensures
        ok == fits(exports@.functions, declared_host_functions(interfaces_view(imports@))),
{
    let hosts = host_functions(imports);
    let ghost hv = hosts_view(hosts@);
    let ghost ev = exports@.functions;
    assert(ev.len() == exports.functions.len());
    assert(hv.len() == hosts.len());
    if hosts.len() > MAX_FUNCTIONS || exports.functions.len() > MAX_FUNCTIONS {
        return false;
    }
    let mut i: usize = 0;
    while i < hosts.len()
        invariant
            i <= hosts.len(),
            hv == hosts_view(hosts@),
            hv == declared_host_functions(interfaces_view(imports@)),
            ev == exports@.functions,
            forall|j: int|
                0 <= j < i ==> identifier((#[trigger] hv[j]).namespace) && identifier(hv[j].name),
        decreases hosts.len() - i,
    {
        let host = &hosts[i];
        assert(hv[i as int] == host@);
        let namespace_bytes = host.namespace.as_str().as_bytes().len();
        let name_bytes = host.name.as_str().as_bytes().len();
        if namespace_bytes > MAX_IDENTIFIER_BYTES || name_bytes > MAX_IDENTIFIER_BYTES {
            assert(!(identifier(hv[i as int].namespace) && identifier(hv[i as int].name)));
            return false;
        }
        i += 1;
    }
    let mut k: usize = 0;
    while k < exports.functions.len()
        invariant
            k <= exports.functions.len(),
            ev == exports@.functions,
            ev.len() == exports.functions.len(),
            forall|j: int|
                0 <= j < k ==> identifier((#[trigger] ev[j]).name) && ev[j].params.len()
                    <= MAX_PARAMS,
        decreases exports.functions.len() - k,
    {
        let f = &exports.functions[k];
        assert(ev[k as int] == f@);
        assert(f@.params.len() == f.params@.len());
        let name_bytes = f.name.as_str().as_bytes().len();
        if name_bytes > MAX_IDENTIFIER_BYTES || f.params.len() > MAX_PARAMS {
            assert(!(identifier(ev[k as int].name) && ev[k as int].params.len() <= MAX_PARAMS));
            return false;
        }
        k += 1;
    }
    true
}

/// Generates the module for an interface: the thunks of the exports, and
/// for the host functions the two tables of kinds, the converters and the
/// router.
///
/// Fails if the interface has a fault, or if the validator turns the
/// assembled module down.
pub fn generate_wasm_shims(exports: &Interface, imports: &[Interface]) -> (r: Result<
    Vec<u8>,
    ShimError,
>)
    requires
        fits(exports@.functions, declared_host_functions(interfaces_view(imports@))),
    ensures
        result_view(r) == generated(
            exports@.functions,
            declared_host_functions(interfaces_view(imports@)),
        ),
{
    let hosts = host_functions(imports);
    let ghost hv = hosts_view(hosts@);
    let ghost ev = exports@.functions;
    if let Some(error) = find_fault(exports, &hosts) {
        return Err(error);
    }
    proof {
        lemma_no_fault(ev, hv);
        assert forall|i: int| 0 <= i < hv.len() implies (#[trigger] hv[i]).params.len()
            <= MAX_HOST_PARAMS && hv[i].results.len() <= 1 by {
            assert(host_fault(hv[i]) is None);
        }
        assert forall|i: int| 0 <= i < ev.len() implies (#[trigger] ev[i]).results.len() <= 1 by {
            assert(export_fault(ev[i]) is None);
        }
        assert(ev.len() == exports.functions.len());
    }
    let mut m = new_module();
    let protocol = import_protocol(&mut m);
    let entries = import_hosts(&mut m, &hosts);
    let table = sort_entries(entries);
    let ghost tv = entries_view(table@);
    proof {
        lemma_table_routable(hv, 10);
        assert(tv.len() == table.len());
    }
    let ghost imported = contents(m);
    let table_index = add_table(&mut m, table.len() as u32);
    proof {
        lemma_with_table_within_limits(imported, table.len() as nat);
    }
    define_introspection(&mut m, &table);
    let ghost introspected = contents(m);
    let converters = define_converters(&mut m, &table, table_index);
    let ghost converted = contents(m);
    proof {
        assert forall|i: int| 0 <= i < table.len() implies (#[trigger] table@[i]).params.len()
            < u32::MAX by {
            assert(tv[i] == table@[i]@);
        }
    }
    let router = router_ops(&table, &converters);
    let router_kinds = converter_kinds(MAX_HOST_PARAMS);
    let wide: Vec<ValueKind> = vec![ValueKind::Int64];
    proof {
        assert(wide@ =~= seq![ValueKind::Int64]);
        lemma_function_names_short();
        lemma_router_body_len(tv, converters@, MAX_HOST_PARAMS as int);
        assert((8 + (MAX_HOST_PARAMS as int)) * tv.len() == 13 * tv.len()) by (nonlinear_arith)
            requires
                MAX_HOST_PARAMS == 5,
        ;
    }
    define_function(&mut m, "__invokeHostFunc", &router_kinds, &wide, &router);
    let ghost routed = contents(m);
    proof {
        lemma_with_function_within_limits(
            converted,
            "__invokeHostFunc"@,
            router_kinds@,
            wide@,
            router@,
        );
    }
    let indices = collect_indices(&table);
    add_active_element(&mut m, table_index, &indices);
    proof {
        lemma_with_element_within_limits(routed, table_index as nat, indices@);
    }
    define_thunks(&mut m, exports, &protocol);
    assert(contents(m) == shim_module(ev, hv));
    let bytes = encode_module(m);
    let verdict = validate_binary(&bytes);
    conclude(bytes, verdict)
}

/// Generates the module for the interface of a plugin.
pub fn create_shims(plugin: &PluginInterface) -> (r: Result<Vec<u8>, ShimError>)
    requires
        fits(plugin@.exports.functions, declared_host_functions(plugin@.imports)),
    ensures
        result_view(r) == generated(
            plugin@.exports.functions,
            declared_host_functions(plugin@.imports),
        ),
{
    generate_wasm_shims(&plugin.exports, plugin.imports.as_slice())
}

/// Generation yields a module, valid or not, exactly for the interfaces
/// without fault: no host function with more parameters than the router
/// passes on, and no function with more than one result. For every other
/// interface it reports the fault and assembles nothing.
pub proof fn lemma_faults_yield_no_module(
    exports: Seq<SignatureView>,
    hosts: Seq<HostFunctionView>,
)
    ensures
        (generated(exports, hosts) is Ok || generated(exports, hosts)->Err_0 is Invalid) <==> (
        forall|i: int|
            0 <= i < hosts.len() ==> (#[trigger] hosts[i]).params.len() <= MAX_HOST_PARAMS
                && hosts[i].results.len() <= 1) && (forall|i: int|
            0 <= i < exports.len() ==> (#[trigger] exports[i]).results.len() <= 1),
        generated(exports, hosts) matches Ok(module) ==> module == shim_binary(exports, hosts)
            && validation_failure(module) is None,
        generated(exports, hosts) matches Err(Fault::Invalid { module, diagnostic }) ==> module
            == shim_binary(exports, hosts) && validation_failure(module) == Some(diagnostic),
{
    lemma_no_fault(exports, hosts);
    lemma_faults_are_interface_faults(exports, hosts);
    if interface_fault(exports, hosts) is None {
        assert forall|i: int| 0 <= i < hosts.len() implies (#[trigger] hosts[i]).params.len()
            <= MAX_HOST_PARAMS && hosts[i].results.len() <= 1 by {
            assert(host_fault(hosts[i]) is None);
        }
        assert forall|i: int| 0 <= i < exports.len() implies (#[trigger] exports[i]).results.len()
            <= 1 by {
            assert(export_fault(exports[i]) is None);
        }
    } else {
        if (forall|i: int|
            0 <= i < hosts.len() ==> (#[trigger] hosts[i]).params.len() <= MAX_HOST_PARAMS
                && hosts[i].results.len() <= 1) && (forall|i: int|
            0 <= i < exports.len() ==> (#[trigger] exports[i]).results.len() <= 1) {
            assert forall|i: int| 0 <= i < hosts.len() implies host_fault(
                #[trigger] hosts[i],
            ) is None by {}
            assert forall|i: int| 0 <= i < exports.len() implies export_fault(
                #[trigger] exports[i],
            ) is None by {}
        }
    }
}

/// The fault of an interface is never that of an invalid module.
proof fn lemma_faults_are_interface_faults(
    exports: Seq<SignatureView>,
    hosts: Seq<HostFunctionView>,
)
    ensures
        interface_fault(exports, hosts) matches Some(fault) ==> !(fault is Invalid),
{
    lemma_host_fault_kind(hosts, 0);
    lemma_export_fault_kind(exports, 0);
}

proof fn lemma_host_fault_kind(hosts: Seq<HostFunctionView>, from: int)
    requires
        0 <= from,
    ensures
        first_host_fault(hosts, from) matches Some(fault) ==> !(fault is Invalid),
    decreases hosts.len() - from,
{
    if from < hosts.len() {
        lemma_host_fault_kind(hosts, from + 1);
    }
}

proof fn lemma_export_fault_kind(exports: Seq<SignatureView>, from: int)
    requires
        0 <= from,
    ensures
        first_export_fault(exports, from) matches Some(fault) ==> !(fault is Invalid),
    decreases exports.len() - from,
{
    if from < exports.len() {
        lemma_export_fault_kind(exports, from + 1);
    }
}

} // verus!
