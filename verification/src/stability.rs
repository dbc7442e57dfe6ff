//! The slots of host functions depend on their names, not on the order in
//! which they were declared.

use vstd::prelude::*;
use crate::ops::{
    arg_type_cases, arg_type_table, converter_body, return_type_cases, return_type_table,
    router_body, router_cases,
};
use crate::order::{distinct_names, lemma_sort_ignores_order, lemma_sort_maps, sort_by_name};
use crate::table::{
    declared_entries, entry_name, entry_of, import_table, EntryView, HostFunctionView,
};

verus! {

/// The name by which host functions are ordered.
pub open spec fn host_name() -> spec_fn(HostFunctionView) -> Seq<char> {
    |h: HostFunctionView| h.name
}

/// An entry without its import index.
pub open spec fn unindexed(e: EntryView) -> EntryView {
    EntryView { index: 0, ..e }
}

/// Two tables that assign the same functions to the same slots, whatever
/// the import indices of those functions.
pub open spec fn same_slots(s: Seq<EntryView>, t: Seq<EntryView>) -> bool {
    s.map_values(|e: EntryView| unindexed(e)) == t.map_values(|e: EntryView| unindexed(e))
}

proof fn lemma_same_slots_at(s: Seq<EntryView>, t: Seq<EntryView>, i: int)
    requires
        same_slots(s, t),
        0 <= i < s.len(),
    ensures
        s.len() == t.len(),
        s[i].name == t[i].name,
        s[i].params == t[i].params,
        s[i].results == t[i].results,
{
    let f = |e: EntryView| unindexed(e);
    assert(s.map_values(f).len() == s.len());
    assert(t.map_values(f).len() == t.len());
    assert(s.map_values(f)[i] == unindexed(s[i]));
    assert(t.map_values(f)[i] == unindexed(t[i]));
}

/// The tables of kinds and the router read the names, parameters and
/// results of the entries, and nothing else.
pub proof fn lemma_bodies_read_slots(s: Seq<EntryView>, t: Seq<EntryView>, converters: Seq<u32>)
    requires
        same_slots(s, t),
    ensures
        s.len() == t.len(),
        return_type_table(s) == return_type_table(t),
        arg_type_table(s) == arg_type_table(t),
        router_body(s, converters) == router_body(t, converters),
        forall|i: int, type_index: u32, table_index: u32|
            0 <= i < s.len() ==> #[trigger] converter_body(s[i], type_index, table_index)
                == converter_body(t[i], type_index, table_index),
{
    let f = |e: EntryView| unindexed(e);
    assert(s.map_values(f).len() == s.len());
    assert(t.map_values(f).len() == t.len());
    lemma_cases_read_slots(s, t, converters, s.len() as int);
    assert forall|i: int, type_index: u32, table_index: u32| 0 <= i < s.len() implies #[trigger] converter_body(
        s[i],
        type_index,
        table_index,
    ) == converter_body(t[i], type_index, table_index) by {
        lemma_same_slots_at(s, t, i);
    }
}

proof fn lemma_cases_read_slots(s: Seq<EntryView>, t: Seq<EntryView>, converters: Seq<u32>, n: int)
    requires
        same_slots(s, t),
        0 <= n <= s.len(),
    ensures
        return_type_cases(s, n) == return_type_cases(t, n),
        arg_type_cases(s, n) == arg_type_cases(t, n),
        router_cases(s, converters, n) == router_cases(t, converters, n),
    decreases n,
{
    if n > 0 {
        lemma_cases_read_slots(s, t, converters, n - 1);
        lemma_same_slots_at(s, t, n - 1);
    }
}

/// Host functions declared in another order get the same slots, provided
/// that no two of them share a name: the tables of kinds, the converters
/// and the router come out the same.
pub proof fn lemma_slots_ignore_declaration_order(
    a: Seq<HostFunctionView>,
    b: Seq<HostFunctionView>,
    first_a: int,
    first_b: int,
    converters: Seq<u32>,
)
    requires
        distinct_names(a, host_name()),
        a.to_multiset() == b.to_multiset(),
    ensures
        same_slots(import_table(a, first_a), import_table(b, first_b)),
        return_type_table(import_table(a, first_a)) == return_type_table(import_table(b, first_b)),
        arg_type_table(import_table(a, first_a)) == arg_type_table(import_table(b, first_b)),
        router_body(import_table(a, first_a), converters) == router_body(
            import_table(b, first_b),
            converters,
        ),
        forall|i: int, type_index: u32, table_index: u32|
            0 <= i < import_table(a, first_a).len() ==> #[trigger] converter_body(
                import_table(a, first_a)[i],
                type_index,
                table_index,
            ) == converter_body(import_table(b, first_b)[i], type_index, table_index),
{
    lemma_unindexed_table(a, first_a);
    lemma_unindexed_table(b, first_b);
    lemma_sort_ignores_order(a, b, host_name());
    lemma_bodies_read_slots(import_table(a, first_a), import_table(b, first_b), converters);
}

/// A table without its import indices is the host functions ordered by
/// name.
proof fn lemma_unindexed_table(hosts: Seq<HostFunctionView>, first: int)
    ensures
        import_table(hosts, first).map_values(|e: EntryView| unindexed(e)) == sort_by_name(
            hosts,
            host_name(),
        ).map_values(|h: HostFunctionView| entry_of(h, 0)),
{
    let strip = |e: EntryView| unindexed(e);
    let entry = |h: HostFunctionView| entry_of(h, 0);
    let declared = declared_entries(hosts, first);
    assert forall|x: EntryView| entry_name()(strip(x)) == #[trigger] entry_name()(x) by {}
    lemma_sort_maps(declared, strip, entry_name(), entry_name());
    assert forall|x: HostFunctionView| entry_name()(entry(x)) == #[trigger] host_name()(x) by {}
    lemma_sort_maps(hosts, entry, host_name(), entry_name());
    assert(declared.map_values(strip) =~= hosts.map_values(entry));
}

/// The line that names the host functions to the script side and the
/// generated module number the host functions alike: both go by the order
/// of the names.
pub proof fn lemma_script_side_agrees(hosts: Seq<HostFunctionView>, first: int)
    ensures
        same_slots(
            sort_by_name(crate::preamble::unnumbered(hosts), entry_name()),
            import_table(hosts, first),
        ),
{
    let strip = |e: EntryView| unindexed(e);
    let entry = |h: HostFunctionView| entry_of(h, 0);
    lemma_unindexed_table(hosts, first);
    assert forall|x: HostFunctionView| entry_name()(entry(x)) == #[trigger] host_name()(x) by {}
    lemma_sort_maps(hosts, entry, host_name(), entry_name());
    let listed = sort_by_name(crate::preamble::unnumbered(hosts), entry_name());
    assert(crate::preamble::unnumbered(hosts) =~= hosts.map_values(entry));
    assert(listed.map_values(strip) =~= listed);
}

} // verus!
