//! The line of script that tells the script side which host functions
//! there are: their names in slot order, each with the number of its
//! results.

use vstd::prelude::*;
use vstd::string::StringExecFns;
use crate::model::{interfaces_view, Interface};
use crate::order::sort_by_name;
use crate::table::{
    declared_host_functions, entries_view, entry_name, entry_of, host_functions, hosts_view,
    sort_entries, EntryView, HostFunction, HostFunctionView, ImportEntry,
};

verus! {

/// The character of a decimal digit.
pub open spec fn digit(d: nat) -> char {
    if d == 0 {
        '0'
    } else if d == 1 {
        '1'
    } else if d == 2 {
        '2'
    } else if d == 3 {
        '3'
    } else if d == 4 {
        '4'
    } else if d == 5 {
        '5'
    } else if d == 6 {
        '6'
    } else if d == 7 {
        '7'
    } else if d == 8 {
        '8'
    } else {
        '9'
    }
}

/// A number in decimal notation, without leading zeros.
pub open spec fn decimal(n: nat) -> Seq<char>
    decreases n,
{
    if n < 10 {
        seq![digit(n)]
    } else {
        decimal(n / 10).push(digit(n % 10))
    }
}

fn digit_text(d: usize) -> (s: &'static str)
    requires
        d < 10,
    ensures
        s@ == seq![digit(d as nat)],
{
    proof {
        reveal_strlit("0");
        reveal_strlit("1");
        reveal_strlit("2");
        reveal_strlit("3");
        reveal_strlit("4");
        reveal_strlit("5");
        reveal_strlit("6");
        reveal_strlit("7");
        reveal_strlit("8");
        reveal_strlit("9");
    }
    let s = if d == 0 {
        "0"
    } else if d == 1 {
        "1"
    } else if d == 2 {
        "2"
    } else if d == 3 {
        "3"
    } else if d == 4 {
        "4"
    } else if d == 5 {
        "5"
    } else if d == 6 {
        "6"
    } else if d == 7 {
        "7"
    } else if d == 8 {
        "8"
    } else {
        "9"
    };
    assert(s@ =~= seq![digit(d as nat)]);
    s
}

/// A number in decimal notation.
pub fn decimal_text(n: usize) -> (s: String)
    ensures
        s@ == decimal(n as nat),
    decreases n,
{
    if n < 10 {
        String::from_str(digit_text(n))
    } else {
        let mut s = decimal_text(n / 10);
        s.append(digit_text(n % 10));
        assert(s@ =~= decimal(n as nat));
        s
    }
}

/// What the line says of one host function.
pub open spec fn described(entry: EntryView) -> Seq<char> {
    "{ name: '"@ + entry.name + "', results: "@ + decimal(entry.results.len()) + " }"@
}

/// What the line says of the first `n` host functions of the table, with a
/// comma and a blank between two of them.
pub open spec fn listed(table: Seq<EntryView>, n: int) -> Seq<char>
    decreases n,
{
    if n <= 0 {
        Seq::empty()
    } else if n == 1 {
        described(table[0])
    } else {
        listed(table, n - 1) + ", "@ + described(table[n - 1])
    }
}

/// The line for a table of host functions.
pub open spec fn host_functions_line(table: Seq<EntryView>) -> Seq<char> {
    "Host.__hostFunctions = ["@ + listed(table, table.len() as int) + "];\n"@
}

/// The line for a table of host functions.
pub fn describe_table(table: &Vec<ImportEntry>) -> (line: String)
    ensures
        line@ == host_functions_line(entries_view(table@)),
{
    let ghost view = entries_view(table@);
    let mut line = String::from_str("Host.__hostFunctions = [");
    let ghost head = line@;
    let mut i: usize = 0;
    assert(line@ =~= head + listed(view, 0));
    while i < table.len()
        invariant
            i <= table.len(),
            view == entries_view(table@),
            head == "Host.__hostFunctions = ["@,
            line@ == head + listed(view, i as int),
        decreases table.len() - i,
    {
        let entry = &table[i];
        assert(view[i as int] == entry@);
        if i > 0 {
            line.append(", ");
        }
        line.append("{ name: '");
        line.append(entry.name.as_str());
        line.append("', results: ");
        let count = decimal_text(entry.results.len());
        line.append(count.as_str());
        line.append(" }");
        assert(line@ =~= head + listed(view, i + 1));
        i += 1;
    }
    line.append("];\n");
    line
}

/// The entries of host functions whose import indices do not matter.
pub open spec fn unnumbered(hosts: Seq<HostFunctionView>) -> Seq<EntryView> {
    hosts.map_values(|h: HostFunctionView| entry_of(h, 0))
}

fn unnumbered_entries(hosts: &Vec<HostFunction>) -> (entries: Vec<ImportEntry>)
    ensures
        entries_view(entries@) == unnumbered(hosts_view(hosts@)),
{
    let mut entries: Vec<ImportEntry> = Vec::new();
    let mut k: usize = 0;
    while k < hosts.len()
        invariant
            k <= hosts.len(),
            entries.len() == k,
            forall|j: int|
                0 <= j < k ==> (#[trigger] entries@[j])@ == entry_of(hosts_view(hosts@)[j], 0),
        decreases hosts.len() - k,
    {
        let host = &hosts[k];
        assert(hosts_view(hosts@)[k as int] == host@);
        let entry = ImportEntry {
            name: host.name.clone(),
            index: 0,
            params: host.params.clone(),
            results: host.results.clone(),
        };
        assert(entry.params@ =~= host.params@);
        assert(entry.results@ =~= host.results@);
        entries.push(entry);
        k += 1;
    }
    assert(entries_view(entries@) =~= unnumbered(hosts_view(hosts@)));
    entries
}

/// The line that is put before the script of a plugin: it names the host
/// functions of all namespaces in slot order, which is the order of their
/// names, each with the number of its results.
pub fn host_functions_preamble(imports: &[Interface]) -> (line: String)
    ensures
        line@ == host_functions_line(
            sort_by_name(
                unnumbered(declared_host_functions(interfaces_view(imports@))),
                entry_name(),
            ),
        ),
{
    let hosts = host_functions(imports);
    let table = sort_entries(unnumbered_entries(&hosts));
    describe_table(&table)
}

} // verus!
