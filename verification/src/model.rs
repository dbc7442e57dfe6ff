//! The typed description of a plugin's exported and imported functions.

use vstd::prelude::*;

verus! {

/// One of the four scalar kinds that can cross the plugin boundary.
#[derive(Clone, Copy, Debug, PartialEq, Eq, Structural)]
pub enum ValueKind {
    Int32,
    Int64,
    Float32,
    Float64,
}

impl ValueKind {
    /// The numeric tag that the introspection tables report for this kind.
    /// Zero is kept for "no value".
    pub open spec fn tag_spec(self) -> int {
        match self {
            ValueKind::Int32 => 1,
            ValueKind::Int64 => 2,
            ValueKind::Float32 => 3,
            ValueKind::Float64 => 4,
        }
    }

    /// The numeric tag that the introspection tables report for this kind.
    pub fn tag(self) -> (t: i32)
        ensures
            t == self.tag_spec(),
    {
        match self {
            ValueKind::Int32 => 1,
            ValueKind::Int64 => 2,
            ValueKind::Float32 => 3,
            ValueKind::Float64 => 4,
        }
    }
}

/// A named, typed parameter or result. The name is for diagnostics only.
#[derive(Debug, Clone)]
pub struct Param {
    pub name: String,
    pub ptype: ValueKind,
}

/// What a `Param` is, mathematically.
pub struct ParamView {
    pub name: Seq<char>,
    pub kind: ValueKind,
}

impl View for Param {
    type V = ParamView;

    open spec fn view(&self) -> ParamView {
        ParamView { name: self.name@, kind: self.ptype }
    }
}

impl Param {
    /// A parameter with this name and kind.
    pub fn new(name: &str, ptype: ValueKind) -> (p: Param)
        ensures
            p@ == (ParamView { name: name@, kind: ptype }),
    {
        Param { name: name.to_owned(), ptype }
    }

    /// A copy with the same name and kind.
    pub fn duplicate(&self) -> (p: Param)
        ensures
            p@ == self@,
    {
        Param { name: self.name.clone(), ptype: self.ptype }
    }
}

/// The kinds of a parameter list, in order.
pub open spec fn kinds_of(params: Seq<ParamView>) -> Seq<ValueKind> {
    params.map_values(|p: ParamView| p.kind)
}

/// A function signature: a name, ordered parameters and ordered results.
/// Once it is part of a generated module a signature has at most one
/// result.
#[derive(Debug, Clone)]
pub struct Signature {
    pub name: String,
    pub params: Vec<Param>,
    pub results: Vec<Param>,
}

/// What a `Signature` is, mathematically.
pub struct SignatureView {
    pub name: Seq<char>,
    pub params: Seq<ParamView>,
    pub results: Seq<ParamView>,
}

impl SignatureView {
    /// The kinds of the parameters, in order.
    pub open spec fn param_kinds(self) -> Seq<ValueKind> {
        kinds_of(self.params)
    }

    /// The kinds of the results, in order.
    pub open spec fn result_kinds(self) -> Seq<ValueKind> {
        kinds_of(self.results)
    }

    /// The kind of the single result, if one is declared.
    pub open spec fn result_kind(self) -> Option<ValueKind> {
        if self.results.len() == 0 {
            None
        } else {
            Some(self.results[0].kind)
        }
    }
}

/// The views of a list of parameters, in order.
pub open spec fn params_view(params: Seq<Param>) -> Seq<ParamView> {
    params.map_values(|p: Param| p@)
}

impl View for Signature {
    type V = SignatureView;

    open spec fn view(&self) -> SignatureView {
        SignatureView {
            name: self.name@,
            params: params_view(self.params@),
            results: params_view(self.results@),
        }
    }
}

/// A copy of a parameter list.
pub fn duplicate_params(params: &Vec<Param>) -> (out: Vec<Param>)
    ensures
        params_view(out@) == params_view(params@),
{
    let mut out: Vec<Param> = Vec::new();
    let mut i: usize = 0;
    while i < params.len()
        invariant
            i <= params.len(),
            out.len() == i,
            forall|j: int| 0 <= j < i ==> out@[j]@ == params@[j]@,
        decreases params.len() - i,
    {
        out.push(params[i].duplicate());
        i += 1;
    }
    assert(params_view(out@) =~= params_view(params@));
    out
}

/// The kinds of a parameter list, in order.
pub fn collect_kinds(params: &Vec<Param>) -> (out: Vec<ValueKind>)
    ensures
        out@ == kinds_of(params_view(params@)),
{
    let mut out: Vec<ValueKind> = Vec::new();
    let mut i: usize = 0;
    while i < params.len()
        invariant
            i <= params.len(),
            out.len() == i,
            forall|j: int| 0 <= j < i ==> out@[j] == params@[j].ptype,
        decreases params.len() - i,
    {
        out.push(params[i].ptype);
        i += 1;
    }
    assert(out@ =~= kinds_of(params_view(params@)));
    out
}

impl Signature {
    /// A copy with the same name, parameters and results.
    pub fn duplicate(&self) -> (s: Signature)
        ensures
            s@ == self@,
    {
        Signature {
            name: self.name.clone(),
            params: duplicate_params(&self.params),
            results: duplicate_params(&self.results),
        }
    }
}

/// A namespace of functions, in declaration order.
#[derive(Debug, Clone)]
pub struct Interface {
    pub name: String,
    pub functions: Vec<Signature>,
}

/// What an `Interface` is, mathematically.
pub struct InterfaceView {
    pub name: Seq<char>,
    pub functions: Seq<SignatureView>,
}

/// The views of a list of signatures, in order.
pub open spec fn signatures_view(functions: Seq<Signature>) -> Seq<SignatureView> {
    functions.map_values(|s: Signature| s@)
}

impl View for Interface {
    type V = InterfaceView;

    open spec fn view(&self) -> InterfaceView {
        InterfaceView { name: self.name@, functions: signatures_view(self.functions@) }
    }
}

/// The views of a list of interfaces, in order.
pub open spec fn interfaces_view(interfaces: Seq<Interface>) -> Seq<InterfaceView> {
    interfaces.map_values(|i: Interface| i@)
}

/// Everything a plugin offers and needs: its own entry points and the host
/// namespaces it calls into.
#[derive(Debug, Clone)]
pub struct PluginInterface {
    pub exports: Interface,
    pub imports: Vec<Interface>,
}

/// What a `PluginInterface` is, mathematically.
pub struct PluginInterfaceView {
    pub exports: InterfaceView,
    pub imports: Seq<InterfaceView>,
}

impl View for PluginInterface {
    type V = PluginInterfaceView;

    open spec fn view(&self) -> PluginInterfaceView {
        PluginInterfaceView { exports: self.exports@, imports: interfaces_view(self.imports@) }
    }
}

} // verus!
