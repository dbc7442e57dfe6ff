//! The declarations of a plugin's interface, and the rules that make the
//! interface model of them.

use vstd::prelude::*;
use vstd::string::{StrSliceExecFns, StringExecFns};
use crate::model::{
    interfaces_view, params_view, signatures_view, Interface, InterfaceView, Param, ParamView,
    PluginInterface, PluginInterfaceView, Signature, SignatureView, ValueKind,
};

verus! {

/// A character with an upper-case ASCII letter made lower-case.
pub open spec fn ascii_lower(c: char) -> char {
    if 'A' <= c <= 'Z' {
        ((c as int) + 32) as char
    } else {
        c
    }
}

/// A name with its upper-case ASCII letters made lower-case.
pub open spec fn ascii_lowercase(s: Seq<char>) -> Seq<char> {
    s.map_values(|c: char| ascii_lower(c))
}

/// The kind that a type name stands for: one of the four scalar kinds by
/// its name, in whatever case; any other name is a handle, which is a
/// 64-bit integer.
pub open spec fn val_type_spec(name: Seq<char>) -> ValueKind {
    let lower = ascii_lowercase(name);
    if lower == "i32"@ {
        ValueKind::Int32
    } else if lower == "i64"@ {
        ValueKind::Int64
    } else if lower == "f32"@ {
        ValueKind::Float32
    } else if lower == "f64"@ {
        ValueKind::Float64
    } else {
        ValueKind::Int64
    }
}

fn is_letter(c: char, small: char, capital: char) -> (b: bool)
    requires
        'a' <= small <= 'z',
        capital as int + 32 == small as int,
    ensures
        b == (ascii_lower(c) == small),
{
    c == small || c == capital
}

/// The kind that a type name stands for.
pub fn val_type(s: &str) -> (kind: ValueKind)
    ensures
        kind == val_type_spec(s@),
{
    proof {
        reveal_strlit("i32");
        reveal_strlit("i64");
        reveal_strlit("f32");
        reveal_strlit("f64");
    }
    let ghost lower = ascii_lowercase(s@);
    assert(lower.len() == s@.len());
    assert("i32"@.len() == 3 && "i64"@.len() == 3 && "f32"@.len() == 3 && "f64"@.len() == 3);
    if s.unicode_len() != 3 {
        return ValueKind::Int64;
    }
    let first = s.get_char(0);
    let second = s.get_char(1);
    let third = s.get_char(2);
    assert(lower[0] == ascii_lower(first));
    assert(lower[1] == ascii_lower(second));
    assert(lower[2] == ascii_lower(third));
    let integer = is_letter(first, 'i', 'I');
    let float = is_letter(first, 'f', 'F');
    let narrow = second == '3' && third == '2';
    let wide = second == '6' && third == '4';
    if integer && narrow {
        assert(lower =~= "i32"@);
        ValueKind::Int32
    } else if float && narrow {
        assert(lower =~= "f32"@);
        ValueKind::Float32
    } else if float && wide {
        assert(lower =~= "f64"@);
        ValueKind::Float64
    } else {
        assert(lower != "i32"@) by {
            if lower == "i32"@ {
                assert("i32"@[0] == 'i' && "i32"@[1] == '3' && "i32"@[2] == '2');
            }
        }
        assert(lower != "f32"@) by {
            if lower == "f32"@ {
                assert("f32"@[0] == 'f' && "f32"@[1] == '3' && "f32"@[2] == '2');
            }
        }
        assert(lower != "f64"@) by {
            if lower == "f64"@ {
                assert("f64"@[0] == 'f' && "f64"@[1] == '6' && "f64"@[2] == '4');
            }
        }
        ValueKind::Int64
    }
}

/// A type annotation, as far as the rules read it.
#[derive(Debug, Clone)]
pub enum TypeExpr {
    /// A type referred to by a plain name.
    Named(String),
    /// A type referred to by a qualified name.
    Qualified,
    /// One of the keywords for "nothing": `void`, `undefined`, `null`.
    Nothing,
    /// Any other type.
    Other,
}

/// A declared parameter, with its annotation if it has one.
#[derive(Debug, Clone)]
pub struct ParamDecl {
    pub name: String,
    pub annotation: Option<TypeExpr>,
}

/// A declared function or method.
#[derive(Debug, Clone)]
pub struct FunctionDecl {
    pub name: String,
    pub params: Vec<ParamDecl>,
    pub return_type: Option<TypeExpr>,
}

/// An item in the body of a declared module.
#[derive(Debug, Clone)]
pub enum Item {
    /// An exported function.
    ExportedFunction(FunctionDecl),
    /// An exported declaration that is no function.
    OtherExport,
    /// An interface with its methods, under its name.
    Interface { name: String, methods: Vec<FunctionDecl> },
    /// Anything else.
    Other,
}

/// A declared module: its name, if it is named by a string, and the items
/// of its body, if its body is a block.
#[derive(Debug, Clone)]
pub struct ModuleDecl {
    pub name: Option<String>,
    pub body: Option<Vec<Item>>,
}

/// Why declarations do not make an interface.
#[derive(Debug, PartialEq, Eq, Clone, Copy, Structural)]
pub enum InterfaceError {
    /// A parameter's type is referred to by a qualified name.
    IllegalParamType,
    /// A return type is referred to by a qualified name.
    IllegalReturnType,
    /// The main module holds an item that is no export.
    NonExportInMain,
    /// No module is the main module.
    MissingMain,
}

/// The name of the module that declares the exports.
pub open spec fn main_name() -> Seq<char> {
    "main"@
}

/// The parameter that a declared parameter makes: of the kind that its
/// annotation names, and a 64-bit integer if the annotation is no name.
pub open spec fn param_of(name: Seq<char>, t: TypeExpr) -> Result<ParamView, InterfaceError> {
    match t {
        TypeExpr::Named(n) => Ok(ParamView { name, kind: val_type_spec(n@) }),
        TypeExpr::Qualified => Err(InterfaceError::IllegalParamType),
        _ => Ok(ParamView { name, kind: ValueKind::Int64 }),
    }
}

/// The result that a return type makes: none for "nothing"; else one named
/// `result`, of the kind that the type names, and a 64-bit integer if the
/// type is no name.
pub open spec fn result_of(t: TypeExpr) -> Result<Option<ParamView>, InterfaceError> {
    match t {
        TypeExpr::Named(n) => Ok(Some(ParamView { name: "result"@, kind: val_type_spec(n@) })),
        TypeExpr::Qualified => Err(InterfaceError::IllegalReturnType),
        TypeExpr::Nothing => Ok(None),
        TypeExpr::Other => Ok(Some(ParamView { name: "result"@, kind: ValueKind::Int64 })),
    }
}

/// Appends the parameter that a declared parameter makes.
pub fn param_type(params: &mut Vec<Param>, vn: &str, t: &TypeExpr) -> (r: Result<
    (),
    InterfaceError,
>)
    ensures
        match r {
            Ok(_) => param_of(vn@, *t) is Ok && params_view(final(params)@) == params_view(
                old(params)@,
            ).push(param_of(vn@, *t)->Ok_0),
            Err(e) => param_of(vn@, *t) == Err::<ParamView, InterfaceError>(e) && final(params)@
                == old(params)@,
        },
{
    let kind = match t {
        TypeExpr::Named(n) => val_type(n.as_str()),
        TypeExpr::Qualified => {
            return Err(InterfaceError::IllegalParamType);
        },
        _ => ValueKind::Int64,
    };
    let ghost before = params_view(params@);
    let param = Param::new(vn, kind);
    params.push(param);
    assert(params_view(params@) =~= before.push(param_of(vn@, *t)->Ok_0));
    Ok(())
}

/// Appends the result that a return type makes, if it makes one.
pub fn result_type(results: &mut Vec<Param>, return_type: &TypeExpr) -> (r: Result<
    (),
    InterfaceError,
>)
    ensures
        match r {
            Ok(_) => match result_of(*return_type) {
                Ok(Some(p)) => params_view(final(results)@) == params_view(old(results)@).push(p),
                Ok(None) => final(results)@ == old(results)@,
                Err(_) => false,
            },
            Err(e) => result_of(*return_type) == Err::<Option<ParamView>, InterfaceError>(e)
                && final(results)@ == old(results)@,
        },
{
    let kind = match return_type {
        TypeExpr::Named(n) => val_type(n.as_str()),
        TypeExpr::Qualified => {
            return Err(InterfaceError::IllegalReturnType);
        },
        TypeExpr::Nothing => {
            return Ok(());
        },
        TypeExpr::Other => ValueKind::Int64,
    };
    let ghost before = params_view(results@);
    let param = Param::new("result", kind);
    results.push(param);
    assert(params_view(results@) =~= before.push(result_of(*return_type)->Ok_0->0));
    Ok(())
}

/// The annotation by which a parameter is read: its own, or that of a
/// 64-bit integer if it has none.
pub open spec fn annotation_of(p: ParamDecl) -> TypeExpr {
    match p.annotation {
        Some(t) => t,
        None => TypeExpr::Other,
    }
}

/// The parameters that the first `n` declared parameters make, or the
/// error of the first that makes none.
pub open spec fn params_of(decls: Seq<ParamDecl>, n: int) -> Result<Seq<ParamView>, InterfaceError>
    decreases n,
{
    if n <= 0 {
        Ok(Seq::empty())
    } else {
        match params_of(decls, n - 1) {
            Err(e) => Err(e),
            Ok(before) => match param_of(decls[n - 1].name@, annotation_of(decls[n - 1])) {
                Err(e) => Err(e),
                Ok(p) => Ok(before.push(p)),
            },
        }
    }
}

/// The results that a declared return type makes.
pub open spec fn results_of(t: Option<TypeExpr>) -> Result<Seq<ParamView>, InterfaceError> {
    match t {
        None => Ok(Seq::empty()),
        Some(t) => match result_of(t) {
            Err(e) => Err(e),
            Ok(None) => Ok(Seq::empty()),
            Ok(Some(p)) => Ok(seq![p]),
        },
    }
}

/// The signature that a declared function makes. Its parameters are read
/// first if `params_first` holds, its return type first if not; this
/// decides which error is reported if both are in error.
pub open spec fn signature_of(f: FunctionDecl, params_first: bool) -> Result<
    SignatureView,
    InterfaceError,
> {
    let params = params_of(f.params@, f.params@.len() as int);
    let results = results_of(f.return_type);
    let first = if params_first {
        params
    } else {
        results
    };
    let second = if params_first {
        results
    } else {
        params
    };
    match first {
        Err(e) => Err(e),
        Ok(_) => match second {
            Err(e) => Err(e),
            Ok(_) => Ok(
                SignatureView { name: f.name@, params: params->Ok_0, results: results->Ok_0 },
            ),
        },
    }
}

fn read_params(decls: &Vec<ParamDecl>) -> (r: Result<Vec<Param>, InterfaceError>)
    ensures
        match r {
            Ok(params) => params_of(decls@, decls@.len() as int) == Ok::<
                Seq<ParamView>,
                InterfaceError,
            >(params_view(params@)),
            Err(e) => params_of(decls@, decls@.len() as int) == Err::<
                Seq<ParamView>,
                InterfaceError,
            >(e),
        },
{
    let mut params: Vec<Param> = Vec::new();
    let mut i: usize = 0;
    assert(params_view(params@) =~= Seq::<ParamView>::empty());
    while i < decls.len()
        invariant
            i <= decls.len(),
            params_of(decls@, i as int) == Ok::<Seq<ParamView>, InterfaceError>(
                params_view(params@),
            ),
        decreases decls.len() - i,
    {
        let decl = &decls[i];
        let outcome = match &decl.annotation {
            Some(t) => param_type(&mut params, decl.name.as_str(), t),
            None => param_type(&mut params, decl.name.as_str(), &TypeExpr::Other),
        };
        match outcome {
            Ok(_) => {},
            Err(e) => {
                proof {
                    lemma_params_error_stays(decls@, i + 1, decls@.len() as int);
                }
                return Err(e);
            },
        }
        i += 1;
    }
    Ok(params)
}

proof fn lemma_params_error_stays(decls: Seq<ParamDecl>, n: int, m: int)
    requires
        0 <= n <= m,
        params_of(decls, n) is Err,
    ensures
        params_of(decls, m) == params_of(decls, n),
    decreases m - n,
{
    if n < m {
        lemma_params_error_stays(decls, n, m - 1);
    }
}

fn read_results(t: &Option<TypeExpr>) -> (r: Result<Vec<Param>, InterfaceError>)
    ensures
        match r {
            Ok(results) => results_of(*t) == Ok::<Seq<ParamView>, InterfaceError>(
                params_view(results@),
            ),
            Err(e) => results_of(*t) == Err::<Seq<ParamView>, InterfaceError>(e),
        },
{
    let mut results: Vec<Param> = Vec::new();
    assert(params_view(results@) =~= Seq::<ParamView>::empty());
    match t {
        None => {},
        Some(t) => {
            match result_type(&mut results, t) {
                Ok(_) => {
                    proof {
                        if let Ok(Some(p)) = result_of(*t) {
                            assert(params_view(results@) =~= seq![p]);
                        } else {
                            assert(params_view(results@) =~= Seq::<ParamView>::empty());
                        }
                    }
                },
                Err(e) => {
                    return Err(e);
                },
            }
        },
    }
    Ok(results)
}

/// The signature that a declared function makes.
pub fn read_signature(f: &FunctionDecl, params_first: bool) -> (r: Result<
    Signature,
    InterfaceError,
>)
    ensures
        match r {
            Ok(sig) => signature_of(*f, params_first) == Ok::<SignatureView, InterfaceError>(sig@),
            Err(e) => signature_of(*f, params_first) == Err::<SignatureView, InterfaceError>(e),
        },
{
    if params_first {
        let params = match read_params(&f.params) {
            Ok(params) => params,
            Err(e) => {
                return Err(e);
            },
        };
        let results = match read_results(&f.return_type) {
            Ok(results) => results,
            Err(e) => {
                return Err(e);
            },
        };
        Ok(Signature { name: f.name.clone(), params, results })
    } else {
        let results = match read_results(&f.return_type) {
            Ok(results) => results,
            Err(e) => {
                return Err(e);
            },
        };
        let params = match read_params(&f.params) {
            Ok(params) => params,
            Err(e) => {
                return Err(e);
            },
        };
        Ok(Signature { name: f.name.clone(), params, results })
    }
}

/// Every parameter has an annotation.
pub open spec fn annotated(f: FunctionDecl) -> bool {
    forall|i: int| 0 <= i < f.params@.len() ==> (#[trigger] f.params@[i]).annotation is Some
}

/// The signatures that the first `n` declared functions make, or the error
/// of the first that makes none.
pub open spec fn signatures_of(fs: Seq<FunctionDecl>, params_first: bool, n: int) -> Result<
    Seq<SignatureView>,
    InterfaceError,
>
    decreases n,
{
    if n <= 0 {
        Ok(Seq::empty())
    } else {
        match signatures_of(fs, params_first, n - 1) {
            Err(e) => Err(e),
            Ok(before) => match signature_of(fs[n - 1], params_first) {
                Err(e) => Err(e),
                Ok(sig) => Ok(before.push(sig)),
            },
        }
    }
}

proof fn lemma_signatures_error_stays(fs: Seq<FunctionDecl>, params_first: bool, n: int, m: int)
    requires
        0 <= n <= m,
        signatures_of(fs, params_first, n) is Err,
    ensures
        signatures_of(fs, params_first, m) == signatures_of(fs, params_first, n),
    decreases m - n,
{
    if n < m {
        lemma_signatures_error_stays(fs, params_first, n, m - 1);
    }
}

/// The interface that a declared interface makes: one function per method,
/// in declaration order.
pub open spec fn user_interface_of(name: Seq<char>, methods: Seq<FunctionDecl>) -> Result<
    InterfaceView,
    InterfaceError,
> {
    match signatures_of(methods, true, methods.len() as int) {
        Err(e) => Err(e),
        Ok(functions) => Ok(InterfaceView { name, functions }),
    }
}

/// What a `Result` of an interface is, mathematically.
pub open spec fn interface_result(r: Result<Interface, InterfaceError>) -> Result<
    InterfaceView,
    InterfaceError,
> {
    match r {
        Ok(i) => Ok(i@),
        Err(e) => Err(e),
    }
}

/// Reads a declared interface. Every parameter of its methods has to be
/// annotated.
pub fn parse_user_interface(name: &str, methods: &Vec<FunctionDecl>) -> (r: Result<
    Interface,
    InterfaceError,
>)
    requires
        forall|i: int| 0 <= i < methods@.len() ==> annotated(#[trigger] methods@[i]),
    ensures
        interface_result(r) == user_interface_of(name@, methods@),
{
    let mut functions: Vec<Signature> = Vec::new();
    let mut i: usize = 0;
    assert(signatures_view(functions@) =~= Seq::<SignatureView>::empty());
    while i < methods.len()
        invariant
            i <= methods.len(),
            signatures_of(methods@, true, i as int) == Ok::<Seq<SignatureView>, InterfaceError>(
                signatures_view(functions@),
            ),
        decreases methods.len() - i,
    {
        let ghost before = signatures_view(functions@);
        match read_signature(&methods[i], true) {
            Ok(sig) => {
                functions.push(sig);
                assert(signatures_view(functions@) =~= before.push(sig@));
            },
            Err(e) => {
                proof {
                    lemma_signatures_error_stays(methods@, true, i + 1, methods@.len() as int);
                }
                return Err(e);
            },
        }
        i += 1;
    }
    Ok(Interface { name: name.to_owned(), functions })
}

/// The position of the first interface at or behind position `from`.
pub open spec fn first_interface(items: Seq<Item>, from: int) -> Option<int>
    decreases items.len() - from,
{
    if from < 0 || from >= items.len() {
        None
    } else if items[from] is Interface {
        Some(from)
    } else {
        first_interface(items, from + 1)
    }
}

/// The name of an imported interface: the name of its module, a slash, and
/// its own name; its own name alone if the module is not named by a string.
pub open spec fn import_name(module: Option<String>, interface: Seq<char>) -> Seq<char> {
    match module {
        Some(m) => m@ + "/"@ + interface,
        None => interface,
    }
}

/// The interface that a module of imports makes: that of the first
/// interface it declares, under the module's name; none if it declares no
/// interface.
pub open spec fn imports_of(module: ModuleDecl) -> Result<Option<InterfaceView>, InterfaceError> {
    match module.body {
        None => Ok(None),
        Some(items) => match first_interface(items@, 0) {
            None => Ok(None),
            Some(i) => match user_interface_of(
                items@[i]->Interface_name@,
                items@[i]->methods@,
            ) {
                Err(e) => Err(e),
                Ok(interface) => Ok(
                    Some(
                        InterfaceView {
                            name: import_name(module.name, interface.name),
                            functions: interface.functions,
                        },
                    ),
                ),
            },
        },
    }
}

/// The methods of the first interface of a module are annotated.
pub open spec fn readable(module: ModuleDecl) -> bool {
    match module.body {
        None => true,
        Some(items) => match first_interface(items@, 0) {
            None => true,
            Some(i) => forall|k: int|
                0 <= k < items@[i]->methods@.len() ==> annotated(#[trigger] items@[i]->methods@[k]),
        },
    }
}

/// Reads a module of imports.
#[verifier::loop_isolation(false)]
pub fn parse_imports(module: &ModuleDecl) -> (r: Result<Option<Interface>, InterfaceError>)
    requires
        readable(*module),
    ensures
        match r {
            Ok(Some(i)) => imports_of(*module) == Ok::<Option<InterfaceView>, InterfaceError>(
                Some(i@),
            ),
            Ok(None) => imports_of(*module) == Ok::<Option<InterfaceView>, InterfaceError>(None),
            Err(e) => imports_of(*module) == Err::<Option<InterfaceView>, InterfaceError>(e),
        },
{
    let items = match &module.body {
        None => {
            return Ok(None);
        },
        Some(items) => items,
    };
    let mut i: usize = 0;
    while i < items.len()
        invariant
            i <= items.len(),
            first_interface(items@, 0) == first_interface(items@, i as int),
        decreases items.len() - i,
    {
        if let Item::Interface { name, methods } = &items[i] {
            let interface = match parse_user_interface(name.as_str(), methods) {
                Ok(interface) => interface,
                Err(e) => {
                    return Err(e);
                },
            };
            let named = match &module.name {
                Some(m) => Interface {
                    name: m.clone().concat("/").concat(name.as_str()),
                    functions: interface.functions,
                },
                None => interface,
            };
            return Ok(Some(named));
        }
        i += 1;
    }
    Ok(None)
}

/// The function that an item of the main module makes, if it makes one, or
/// the error for which the item is turned down.
pub open spec fn main_item(item: Item) -> Result<Option<SignatureView>, InterfaceError> {
    match item {
        Item::ExportedFunction(f) => match signature_of(f, false) {
            Ok(sig) => Ok(Some(sig)),
            Err(e) => Err(e),
        },
        Item::OtherExport => Ok(None),
        _ => Err(InterfaceError::NonExportInMain),
    }
}

/// The functions that the first `n` items of the main module make, or the
/// error of the first item that is turned down.
pub open spec fn main_functions(items: Seq<Item>, n: int) -> Result<
    Seq<SignatureView>,
    InterfaceError,
>
    decreases n,
{
    if n <= 0 {
        Ok(Seq::empty())
    } else {
        match main_functions(items, n - 1) {
            Err(e) => Err(e),
            Ok(before) => match main_item(items[n - 1]) {
                Err(e) => Err(e),
                Ok(None) => Ok(before),
                Ok(Some(sig)) => Ok(before.push(sig)),
            },
        }
    }
}

proof fn lemma_main_error_stays(items: Seq<Item>, n: int, m: int)
    requires
        0 <= n <= m,
        main_functions(items, n) is Err,
    ensures
        main_functions(items, m) == main_functions(items, n),
    decreases m - n,
{
    if n < m {
        lemma_main_error_stays(items, n, m - 1);
    }
}

/// The interface that the main module makes: one export per exported
/// function, in declaration order, under the name of the main module.
pub open spec fn exports_of(module: ModuleDecl) -> Result<InterfaceView, InterfaceError> {
    match module.body {
        None => Ok(InterfaceView { name: main_name(), functions: Seq::empty() }),
        Some(items) => match main_functions(items@, items@.len() as int) {
            Err(e) => Err(e),
            Ok(functions) => Ok(InterfaceView { name: main_name(), functions }),
        },
    }
}

/// Reads the main module, which declares the exports.
#[verifier::loop_isolation(false)]
pub fn parse_module_decl(module: &ModuleDecl) -> (r: Result<Interface, InterfaceError>)
    ensures
        interface_result(r) == exports_of(*module),
{
    let mut functions: Vec<Signature> = Vec::new();
    assert(signatures_view(functions@) =~= Seq::<SignatureView>::empty());
    if let Some(items) = &module.body {
        let mut i: usize = 0;
        while i < items.len()
            invariant
                i <= items.len(),
                main_functions(items@, i as int) == Ok::<Seq<SignatureView>, InterfaceError>(
                    signatures_view(functions@),
                ),
            decreases items.len() - i,
        {
            let ghost before = signatures_view(functions@);
            match &items[i] {
                Item::ExportedFunction(f) => {
                    match read_signature(f, false) {
                        Ok(sig) => {
                            functions.push(sig);
                            assert(signatures_view(functions@) =~= before.push(sig@));
                        },
                        Err(e) => {
                            proof {
                                lemma_main_error_stays(items@, i + 1, items@.len() as int);
                            }
                            return Err(e);
                        },
                    }
                },
                Item::OtherExport => {},
                _ => {
                    proof {
                        lemma_main_error_stays(items@, i + 1, items@.len() as int);
                    }
                    return Err(InterfaceError::NonExportInMain);
                },
            }
            i += 1;
        }
    }
    Ok(Interface { name: "main".to_owned(), functions })
}

/// Whether a module declares the exports: it is named `main`, or it is not
/// named by a string.
pub open spec fn declares_exports(module: ModuleDecl) -> bool {
    match module.name {
        None => true,
        Some(name) => name@ == main_name(),
    }
}

/// The interface that a module makes, if it makes one.
pub open spec fn module_interface(module: ModuleDecl) -> Result<
    Option<InterfaceView>,
    InterfaceError,
> {
    if declares_exports(module) {
        match exports_of(module) {
            Ok(i) => Ok(Some(i)),
            Err(e) => Err(e),
        }
    } else {
        imports_of(module)
    }
}

/// The interfaces that the first `n` modules make, in order, or the error
/// of the first module that is turned down.
pub open spec fn interfaces_of(modules: Seq<ModuleDecl>, n: int) -> Result<
    Seq<InterfaceView>,
    InterfaceError,
>
    decreases n,
{
    if n <= 0 {
        Ok(Seq::empty())
    } else {
        match interfaces_of(modules, n - 1) {
            Err(e) => Err(e),
            Ok(before) => match module_interface(modules[n - 1]) {
                Err(e) => Err(e),
                Ok(None) => Ok(before),
                Ok(Some(i)) => Ok(before.push(i)),
            },
        }
    }
}

proof fn lemma_interfaces_error_stays(modules: Seq<ModuleDecl>, n: int, m: int)
    requires
        0 <= n <= m,
        interfaces_of(modules, n) is Err,
    ensures
        interfaces_of(modules, m) == interfaces_of(modules, n),
    decreases m - n,
{
    if n < m {
        lemma_interfaces_error_stays(modules, n, m - 1);
    }
}

/// Reads the declared modules of a file.
pub fn parse_module(modules: &Vec<ModuleDecl>) -> (r: Result<Vec<Interface>, InterfaceError>)
    requires
        forall|i: int|
            0 <= i < modules@.len() && !declares_exports(#[trigger] modules@[i]) ==> readable(
                modules@[i],
            ),
    ensures
        match r {
            Ok(interfaces) => interfaces_of(modules@, modules@.len() as int) == Ok::<
                Seq<InterfaceView>,
                InterfaceError,
            >(interfaces_view(interfaces@)),
            Err(e) => interfaces_of(modules@, modules@.len() as int) == Err::<
                Seq<InterfaceView>,
                InterfaceError,
            >(e),
        },
{
    proof {
        reveal_strlit("main");
    }
    let mut interfaces: Vec<Interface> = Vec::new();
    let mut i: usize = 0;
    assert(interfaces_view(interfaces@) =~= Seq::<InterfaceView>::empty());
    while i < modules.len()
        invariant
            i <= modules.len(),
            forall|k: int|
                0 <= k < modules@.len() && !declares_exports(#[trigger] modules@[k]) ==> readable(
                    modules@[k],
                ),
            interfaces_of(modules@, i as int) == Ok::<Seq<InterfaceView>, InterfaceError>(
                interfaces_view(interfaces@),
            ),
        decreases modules.len() - i,
    {
        let module = &modules[i];
        let ghost before = interfaces_view(interfaces@);
        let is_main = match &module.name {
            None => true,
            Some(name) => is_main_name(name.as_str()),
        };
        let read = if is_main {
            match parse_module_decl(module) {
                Ok(interface) => Ok(Some(interface)),
                Err(e) => Err(e),
            }
        } else {
            parse_imports(module)
        };
        match read {
            Ok(Some(interface)) => {
                interfaces.push(interface);
                assert(interfaces_view(interfaces@) =~= before.push(interface@));
            },
            Ok(None) => {},
            Err(e) => {
                proof {
                    lemma_interfaces_error_stays(modules@, i + 1, modules@.len() as int);
                }
                return Err(e);
            },
        }
        i += 1;
    }
    Ok(interfaces)
}

/// Whether a name is the name of the main module.
pub fn is_main_name(name: &str) -> (b: bool)
    ensures
        b == (name@ == main_name()),
{
    proof {
        reveal_strlit("main");
    }
    if name.unicode_len() != 4 {
        return false;
    }
    let b = name.get_char(0) == 'm' && name.get_char(1) == 'a' && name.get_char(2) == 'i'
        && name.get_char(3) == 'n';
    assert(b ==> name@ =~= main_name());
    b
}

/// The position of the first interface with the name of the main module, at
/// or behind position `from`.
pub open spec fn first_main(interfaces: Seq<InterfaceView>, from: int) -> Option<int>
    decreases interfaces.len() - from,
{
    if from < 0 || from >= interfaces.len() {
        None
    } else if interfaces[from].name == main_name() {
        Some(from)
    } else {
        first_main(interfaces, from + 1)
    }
}

/// The first `n` interfaces without those that have the name of the main
/// module.
pub open spec fn without_main(interfaces: Seq<InterfaceView>, n: int) -> Seq<InterfaceView>
    decreases n,
{
    if n <= 0 {
        Seq::empty()
    } else if interfaces[n - 1].name == main_name() {
        without_main(interfaces, n - 1)
    } else {
        without_main(interfaces, n - 1).push(interfaces[n - 1])
    }
}

/// The interface of the plugin that the interfaces make: the first one
/// with the name of the main module declares the exports, all those with
/// another name declare imports.
pub open spec fn plugin_of(interfaces: Seq<InterfaceView>) -> Result<
    PluginInterfaceView,
    InterfaceError,
> {
    match first_main(interfaces, 0) {
        None => Err(InterfaceError::MissingMain),
        Some(i) => Ok(
            PluginInterfaceView {
                exports: interfaces[i],
                imports: without_main(interfaces, interfaces.len() as int),
            },
        ),
    }
}

/// Puts the interfaces of a file together to the interface of the plugin.
pub fn plugin_interface(interfaces: Vec<Interface>) -> (r: Result<PluginInterface, InterfaceError>)
    ensures
        match r {
            Ok(plugin) => plugin_of(interfaces_view(interfaces@)) == Ok::<
                PluginInterfaceView,
                InterfaceError,
            >(plugin@),
            Err(e) => plugin_of(interfaces_view(interfaces@)) == Err::<
                PluginInterfaceView,
                InterfaceError,
            >(e),
        },
{
    let ghost view = interfaces_view(interfaces@);
    let mut exports: Option<Interface> = None;
    let mut imports: Vec<Interface> = Vec::new();
    let mut rest = interfaces;
    let ghost mut done: int = 0;
    assert(interfaces_view(imports@) =~= Seq::<InterfaceView>::empty());
    while rest.len() > 0
        invariant
            0 <= done <= view.len(),
            interfaces_view(rest@) == view.skip(done),
            interfaces_view(imports@) == without_main(view, done),
            match exports {
                Some(e) => first_main(view, 0) is Some && view[first_main(view, 0)->0] == e@,
                None => first_main(view, 0) == first_main(view, done),
            },
        decreases rest.len(),
    {
        assert(done < view.len() && rest@[0]@ == view[done]) by {
            assert(interfaces_view(rest@).len() == rest.len());
            assert(interfaces_view(rest@)[0] == rest@[0]@);
        }
        let ghost rest_before = rest@;
        let interface = rest.remove(0);
        proof {
            assert(interfaces_view(rest_before).len() == rest_before.len());
            assert forall|k: int| 0 <= k < rest@.len() implies interfaces_view(rest@)[k]
                == view.skip(done + 1)[k] by {
                assert(rest@[k] == rest_before[k + 1]);
                assert(interfaces_view(rest_before)[k + 1] == rest_before[k + 1]@);
                assert(view.skip(done)[k + 1] == view[done + k + 1]);
            }
            assert(interfaces_view(rest@) =~= view.skip(done + 1));
        }
        if is_main_name(interface.name.as_str()) {
            if exports.is_none() {
                exports = Some(interface);
            }
        } else {
            let ghost before = interfaces_view(imports@);
            imports.push(interface);
            assert(interfaces_view(imports@) =~= before.push(interface@));
        }
        proof {
            done = done + 1;
        }
    }
    match exports {
        Some(exports) => Ok(PluginInterface { exports, imports }),
        None => Err(InterfaceError::MissingMain),
    }
}

/// What is said of an error.
pub open spec fn error_text(error: InterfaceError) -> Seq<char> {
    match error {
        InterfaceError::IllegalParamType => "Illegal param type"@,
        InterfaceError::IllegalReturnType => "Illegal return type"@,
        InterfaceError::NonExportInMain => "Don't know what to do with non export on main module"@,
        InterfaceError::MissingMain => "You need to declare a 'main' module"@,
    }
}

impl InterfaceError {
    /// What is said of the error.
    pub fn message(&self) -> (text: &'static str)
        ensures
            text@ == error_text(*self),
    {
        match self {
            InterfaceError::IllegalParamType => "Illegal param type",
            InterfaceError::IllegalReturnType => "Illegal return type",
            InterfaceError::NonExportInMain => "Don't know what to do with non export on main module",
            InterfaceError::MissingMain => "You need to declare a 'main' module",
        }
    }
}

/// A function that is read from a declaration has at most one result: the
/// rules never make an interface that the generator turns down for a
/// function with several results.
pub proof fn lemma_declared_functions_have_one_result(f: FunctionDecl, params_first: bool)
    ensures
        signature_of(f, params_first) matches Ok(sig) ==> sig.results.len() <= 1 && sig.name
            == f.name@ && sig.params.len() == f.params@.len(),
{
    lemma_params_of_len(f.params@, f.params@.len() as int);
}

proof fn lemma_params_of_len(decls: Seq<ParamDecl>, n: int)
    requires
        0 <= n,
    ensures
        params_of(decls, n) matches Ok(params) ==> params.len() == n,
    decreases n,
{
    if n > 0 {
        lemma_params_of_len(decls, n - 1);
    }
}

} // verus!
