//! What can be wrong with an interface, and how it is found.

use vstd::prelude::*;
use vstd::string::StringExecFns;
use crate::model::{Interface, SignatureView};
use crate::ops::MAX_HOST_PARAMS;
use crate::table::{hosts_view, HostFunction, HostFunctionView};

verus! {

/// Why no module was generated.
#[derive(Debug, Clone)]
pub enum ShimError {
    /// A host function takes more parameters than the router can pass on.
    TooManyParams { function: String },
    /// A function declares more than one result.
    MultipleResults { function: String },
    /// The assembled module breaks the rules of the binary format. The
    /// module is kept for inspection.
    Invalid { module: Vec<u8>, diagnostic: String },
}

/// What a `ShimError` is, mathematically.
pub enum Fault {
    TooManyParams { function: Seq<char> },
    MultipleResults { function: Seq<char> },
    Invalid { module: Seq<u8>, diagnostic: Seq<char> },
}

impl View for ShimError {
    type V = Fault;

    open spec fn view(&self) -> Fault {
        match self {
            ShimError::TooManyParams { function } => Fault::TooManyParams { function: function@ },
            ShimError::MultipleResults { function } => Fault::MultipleResults {
                function: function@,
            },
            ShimError::Invalid { module, diagnostic } => Fault::Invalid {
                module: module@,
                diagnostic: diagnostic@,
            },
        }
    }
}

/// What is wrong with a host function: too many parameters, or else more
/// than one result.
pub open spec fn host_fault(host: HostFunctionView) -> Option<Fault> {
    if host.params.len() > MAX_HOST_PARAMS {
        Some(Fault::TooManyParams { function: host.name })
    } else if host.results.len() > 1 {
        Some(Fault::MultipleResults { function: host.name })
    } else {
        None
    }
}

/// What is wrong with an export: more than one result.
pub open spec fn export_fault(sig: SignatureView) -> Option<Fault> {
    if sig.results.len() > 1 {
        Some(Fault::MultipleResults { function: sig.name })
    } else {
        None
    }
}

/// The fault of the first faulty host function at or behind position `from`.
pub open spec fn first_host_fault(hosts: Seq<HostFunctionView>, from: int) -> Option<Fault>
    decreases hosts.len() - from,
{
    if from >= hosts.len() {
        None
    } else if host_fault(hosts[from]) is Some {
        host_fault(hosts[from])
    } else {
        first_host_fault(hosts, from + 1)
    }
}

/// The fault of the first faulty export at or behind position `from`.
pub open spec fn first_export_fault(exports: Seq<SignatureView>, from: int) -> Option<Fault>
    decreases exports.len() - from,
{
    if from >= exports.len() {
        None
    } else if export_fault(exports[from]) is Some {
        export_fault(exports[from])
    } else {
        first_export_fault(exports, from + 1)
    }
}

/// The fault for which an interface is turned down: that of the first
/// faulty host function in declaration order, or else that of the first
/// faulty export.
pub open spec fn interface_fault(
    exports: Seq<SignatureView>,
    hosts: Seq<HostFunctionView>,
) -> Option<Fault> {
    if first_host_fault(hosts, 0) is Some {
        first_host_fault(hosts, 0)
    } else {
        first_export_fault(exports, 0)
    }
}

/// An interface without fault has no faulty function, and the other way
/// round.
pub proof fn lemma_no_fault(exports: Seq<SignatureView>, hosts: Seq<HostFunctionView>)
    ensures
        interface_fault(exports, hosts) is None <==> (forall|i: int|
            0 <= i < hosts.len() ==> host_fault(#[trigger] hosts[i]) is None) && (forall|i: int|
            0 <= i < exports.len() ==> export_fault(#[trigger] exports[i]) is None),
{
    lemma_no_host_fault(hosts, 0);
    lemma_no_export_fault(exports, 0);
}

proof fn lemma_no_host_fault(hosts: Seq<HostFunctionView>, from: int)
    requires
        0 <= from,
    ensures
        first_host_fault(hosts, from) is None <==> (forall|i: int|
            from <= i < hosts.len() ==> host_fault(#[trigger] hosts[i]) is None),
    decreases hosts.len() - from,
{
    if from < hosts.len() {
        lemma_no_host_fault(hosts, from + 1);
    }
}

proof fn lemma_no_export_fault(exports: Seq<SignatureView>, from: int)
    requires
        0 <= from,
    ensures
        first_export_fault(exports, from) is None <==> (forall|i: int|
            from <= i < exports.len() ==> export_fault(#[trigger] exports[i]) is None),
    decreases exports.len() - from,
{
    if from < exports.len() {
        lemma_no_export_fault(exports, from + 1);
    }
}

/// Looks for the fault for which the interface is turned down.
pub fn find_fault(exports: &Interface, hosts: &Vec<HostFunction>) -> (found: Option<ShimError>)
    ensures
        match found {
            Some(error) => interface_fault(exports@.functions, hosts_view(hosts@)) == Some(error@),
            None => interface_fault(exports@.functions, hosts_view(hosts@)) is None,
        },
{
    let ghost hv = hosts_view(hosts@);
    let mut i: usize = 0;
    while i < hosts.len()
        invariant
            i <= hosts.len(),
            hv == hosts_view(hosts@),
            first_host_fault(hv, 0) == first_host_fault(hv, i as int),
        decreases hosts.len() - i,
    {
        let host = &hosts[i];
        assert(hv[i as int] == host@);
        if host.params.len() > MAX_HOST_PARAMS {
            return Some(ShimError::TooManyParams { function: host.name.clone() });
        }
        if host.results.len() > 1 {
            return Some(ShimError::MultipleResults { function: host.name.clone() });
        }
        i += 1;
    }
    let ghost ev = exports@.functions;
    let mut k: usize = 0;
    while k < exports.functions.len()
        invariant
            k <= exports.functions.len(),
            ev == exports@.functions,
            hv == hosts_view(hosts@),
            first_host_fault(hv, 0) is None,
            first_export_fault(ev, 0) == first_export_fault(ev, k as int),
        decreases exports.functions.len() - k,
    {
        let f = &exports.functions[k];
        assert(ev[k as int] == f@);
        assert(f@.results.len() == f.results@.len());
        if f.results.len() > 1 {
            return Some(ShimError::MultipleResults { function: f.name.clone() });
        }
        k += 1;
    }
    None
}

/// What is said of a fault.
pub open spec fn fault_text(fault: Fault) -> Seq<char> {
    match fault {
        Fault::TooManyParams { function } =>
            "More than 5 parameters are not supported but used in imported function "@ + function,
        Fault::MultipleResults { function } =>
            "Multiple return arguments are not currently supported but used in function "@
                + function,
        Fault::Invalid { module, diagnostic } => "Validation failed: "@ + diagnostic,
    }
}

impl ShimError {
    /// What is said of the error.
    pub fn message(&self) -> (text: String)
        ensures
            text@ == fault_text(self@),
    {
        match self {
            ShimError::TooManyParams { function } => String::from_str(
                "More than 5 parameters are not supported but used in imported function ",
            ).concat(function.as_str()),
            ShimError::MultipleResults { function } => String::from_str(
                "Multiple return arguments are not currently supported but used in function ",
            ).concat(function.as_str()),
            ShimError::Invalid { module, diagnostic } => String::from_str(
                "Validation failed: ",
            ).concat(diagnostic.as_str()),
        }
    }
}

} // verus!
