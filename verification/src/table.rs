//! The table of host functions: every imported function of every namespace,
//! ordered by name. A function's position in this table is the number by
//! which the script side calls it.

use vstd::prelude::*;
use crate::model::{
    collect_kinds, interfaces_view, Interface, InterfaceView, SignatureView, ValueKind,
};
use crate::names::name_precedes;
use crate::order::{lemma_insert_position, sort_by_name};

verus! {

/// One host function: its name, the index under which the module imports
/// it, and the kinds of its parameters and results.
#[derive(Debug, Clone)]
pub struct ImportEntry {
    pub name: String,
    pub index: u32,
    pub params: Vec<ValueKind>,
    pub results: Vec<ValueKind>,
}

/// What an `ImportEntry` is, mathematically.
pub struct EntryView {
    pub name: Seq<char>,
    pub index: u32,
    pub params: Seq<ValueKind>,
    pub results: Seq<ValueKind>,
}

impl View for ImportEntry {
    type V = EntryView;

    open spec fn view(&self) -> EntryView {
        EntryView { name: self.name@, index: self.index, params: self.params@, results: self.results@ }
    }
}

impl EntryView {
    /// The kind of the value the function returns, if it returns one.
    pub open spec fn result_kind(self) -> Option<ValueKind> {
        if self.results.len() == 0 {
            None
        } else {
            Some(self.results[0])
        }
    }
}

/// The views of a list of entries, in order.
pub open spec fn entries_view(entries: Seq<ImportEntry>) -> Seq<EntryView> {
    entries.map_values(|e: ImportEntry| e@)
}

/// The name by which entries are ordered.
pub open spec fn entry_name() -> spec_fn(EntryView) -> Seq<char> {
    |e: EntryView| e.name
}

/// An imported function together with the namespace it is declared in.
#[derive(Debug, Clone)]
pub struct HostFunction {
    pub namespace: String,
    pub name: String,
    pub params: Vec<ValueKind>,
    pub results: Vec<ValueKind>,
}

/// What a `HostFunction` is, mathematically.
pub struct HostFunctionView {
    pub namespace: Seq<char>,
    pub name: Seq<char>,
    pub params: Seq<ValueKind>,
    pub results: Seq<ValueKind>,
}

impl View for HostFunction {
    type V = HostFunctionView;

    open spec fn view(&self) -> HostFunctionView {
        HostFunctionView {
            namespace: self.namespace@,
            name: self.name@,
            params: self.params@,
            results: self.results@,
        }
    }
}

/// The views of a list of host functions, in order.
pub open spec fn hosts_view(hosts: Seq<HostFunction>) -> Seq<HostFunctionView> {
    hosts.map_values(|h: HostFunction| h@)
}

/// A function as a host function of the namespace given.
pub open spec fn host_function_of(namespace: Seq<char>, sig: SignatureView) -> HostFunctionView {
    HostFunctionView {
        namespace,
        name: sig.name,
        params: sig.param_kinds(),
        results: sig.result_kinds(),
    }
}

/// The functions of one namespace, in declaration order.
pub open spec fn host_functions_of(interface: InterfaceView) -> Seq<HostFunctionView> {
    Seq::new(
        interface.functions.len(),
        |k: int| host_function_of(interface.name, interface.functions[k]),
    )
}

/// All functions of all namespaces, in declaration order.
pub open spec fn declared_host_functions(imports: Seq<InterfaceView>) -> Seq<HostFunctionView>
    decreases imports.len(),
{
    if imports.len() == 0 {
        Seq::empty()
    } else {
        declared_host_functions(imports.drop_last()) + host_functions_of(imports.last())
    }
}

/// The entry of a host function that the module imports under `index`.
pub open spec fn entry_of(host: HostFunctionView, index: u32) -> EntryView {
    EntryView { name: host.name, index, params: host.params, results: host.results }
}

/// The entries of the host functions, imported one after the other starting
/// at index `first`.
pub open spec fn declared_entries(hosts: Seq<HostFunctionView>, first: int) -> Seq<EntryView> {
    Seq::new(hosts.len(), |k: int| entry_of(hosts[k], (first + k) as u32))
}

/// The table: the declared entries ordered by name.
pub open spec fn import_table(hosts: Seq<HostFunctionView>, first: int) -> Seq<EntryView> {
    sort_by_name(declared_entries(hosts, first), entry_name())
}

/// Orders entries by name; entries of one name stay in the order given.
pub fn sort_entries(entries: Vec<ImportEntry>) -> (sorted: Vec<ImportEntry>)
    ensures
        entries_view(sorted@) == sort_by_name(entries_view(entries@), entry_name()),
{
    let ghost given = entries_view(entries@);
    let mut rest = entries;
    let mut sorted: Vec<ImportEntry> = Vec::new();
    let ghost mut done: int = 0;
    assert(given.take(0) =~= Seq::<EntryView>::empty());
    while rest.len() > 0
        invariant
            0 <= done <= given.len(),
            entries_view(rest@) == given.skip(done),
            entries_view(sorted@) == sort_by_name(given.take(done), entry_name()),
        decreases rest.len(),
    {
        assert(done < given.len() && rest@[0]@ == given[done]) by {
            assert(entries_view(rest@).len() == rest.len());
            assert(entries_view(rest@)[0] == rest@[0]@);
        }
        let ghost rest_before = rest@;
        let entry = rest.remove(0);
        let ghost before = entries_view(sorted@);
        let mut pos: usize = sorted.len();
        while pos > 0 && name_precedes(entry.name.as_str(), sorted[pos - 1].name.as_str())
            invariant
                pos <= sorted.len(),
                before == entries_view(sorted@),
                forall|k: int|
                    pos <= k < sorted.len() ==> crate::names::name_lt(
                        entry_name()(entry@),
                        #[trigger] entry_name()(before[k]),
                    ),
            decreases pos,
        {
            pos -= 1;
        }
        sorted.insert(pos, entry);
        proof {
            lemma_insert_position(before, given[done], entry_name(), pos as int);
            assert(entries_view(sorted@) =~= before.insert(pos as int, given[done]));
            assert(given.take(done + 1).drop_last() =~= given.take(done));
            assert(given.take(done + 1).last() == given[done]);
            assert(entries_view(rest_before).len() == rest_before.len());
            assert(given.skip(done).len() == given.len() - done);
            assert(rest@.len() == given.len() - done - 1);
            assert forall|k: int| 0 <= k < rest@.len() implies entries_view(rest@)[k] == given.skip(
                done + 1,
            )[k] by {
                assert(rest@[k] == rest_before[k + 1]);
                assert(entries_view(rest_before)[k + 1] == rest_before[k + 1]@);
                assert(given.skip(done)[k + 1] == given[done + k + 1]);
            }
            assert(entries_view(rest@) =~= given.skip(done + 1));
            done = done + 1;
        }
    }
    assert(given.take(done) =~= given);
    sorted
}

/// All functions of all namespaces, in declaration order.
pub fn host_functions(imports: &[Interface]) -> (hosts: Vec<HostFunction>)
    ensures
        hosts_view(hosts@) == declared_host_functions(interfaces_view(imports@)),
{
    let ghost view = interfaces_view(imports@);
    let mut hosts: Vec<HostFunction> = Vec::new();
    let mut i: usize = 0;
    assert(view.take(0) =~= Seq::<InterfaceView>::empty());
    while i < imports.len()
        invariant
            i <= imports.len(),
            view == interfaces_view(imports@),
            hosts_view(hosts@) == declared_host_functions(view.take(i as int)),
        decreases imports.len() - i,
    {
        let interface = &imports[i];
        let ghost before = hosts_view(hosts@);
        assert(view[i as int] == interface@);
        let mut k: usize = 0;
        while k < interface.functions.len()
            invariant
                k <= interface.functions.len(),
                hosts_view(hosts@) == before + host_functions_of(interface@).take(k as int),
            decreases interface.functions.len() - k,
        {
            let f = &interface.functions[k];
            let host = HostFunction {
                namespace: interface.name.clone(),
                name: f.name.clone(),
                params: collect_kinds(&f.params),
                results: collect_kinds(&f.results),
            };
            assert(interface@.functions[k as int] == f@);
            assert(host@ == host_functions_of(interface@)[k as int]);
            let ghost prev = hosts_view(hosts@);
            hosts.push(host);
            assert(hosts_view(hosts@) =~= prev.push(host@));
            assert(host_functions_of(interface@).take(k + 1) =~= host_functions_of(interface@).take(
                k as int,
            ).push(host@));
            k += 1;
        }
        assert(host_functions_of(interface@).take(k as int) =~= host_functions_of(interface@));
        assert(view.take(i + 1).drop_last() =~= view.take(i as int));
        assert(view.take(i + 1).last() == interface@);
        i += 1;
    }
    assert(view.take(i as int) =~= view);
    hosts
}

} // verus!
