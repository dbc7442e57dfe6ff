use js_pdk::declarations::{
    is_main_name, param_type, parse_imports, parse_module, parse_module_decl,
    parse_user_interface, plugin_interface, read_signature, result_type, val_type, FunctionDecl,
    InterfaceError, Item, ModuleDecl, ParamDecl, TypeExpr,
};
use js_pdk::model::{Interface, ValueKind};

fn named(name: &str) -> Option<TypeExpr> {
    Some(TypeExpr::Named(name.to_string()))
}

fn param(name: &str, annotation: Option<TypeExpr>) -> ParamDecl {
    ParamDecl { name: name.to_string(), annotation }
}

fn function(name: &str, params: Vec<ParamDecl>, return_type: Option<TypeExpr>) -> FunctionDecl {
    FunctionDecl { name: name.to_string(), params, return_type }
}

fn module(name: Option<&str>, items: Vec<Item>) -> ModuleDecl {
    ModuleDecl { name: name.map(|n| n.to_string()), body: Some(items) }
}

fn interface(name: &str) -> Interface {
    Interface { name: name.to_string(), functions: vec![] }
}

#[test]
fn type_names_stand_for_kinds_in_any_case() {
    assert_eq!(val_type("i32"), ValueKind::Int32);
    assert_eq!(val_type("I32"), ValueKind::Int32);
    assert_eq!(val_type("i64"), ValueKind::Int64);
    assert_eq!(val_type("I64"), ValueKind::Int64);
    assert_eq!(val_type("f32"), ValueKind::Float32);
    assert_eq!(val_type("F32"), ValueKind::Float32);
    assert_eq!(val_type("f64"), ValueKind::Float64);
    assert_eq!(val_type("F64"), ValueKind::Float64);
}

#[test]
fn other_type_names_stand_for_handles() {
    for name in ["", "string", "PTR", "i3", "i322", "f16", "u32", "i 32", "İ32", "ｉ32", "f6４"] {
        assert_eq!(val_type(name), ValueKind::Int64, "{}", name);
    }
}

#[test]
fn a_parameter_takes_the_kind_of_its_annotation() {
    let mut params = Vec::new();
    assert_eq!(param_type(&mut params, "a", &TypeExpr::Named("F32".to_string())), Ok(()));
    assert_eq!(param_type(&mut params, "b", &TypeExpr::Other), Ok(()));
    assert_eq!(param_type(&mut params, "c", &TypeExpr::Nothing), Ok(()));
    assert_eq!(param_type(&mut params, "d", &TypeExpr::Named("Thing".to_string())), Ok(()));
    assert_eq!(params.len(), 4);
    assert_eq!((params[0].name.as_str(), params[0].ptype), ("a", ValueKind::Float32));
    assert_eq!((params[1].name.as_str(), params[1].ptype), ("b", ValueKind::Int64));
    assert_eq!((params[2].name.as_str(), params[2].ptype), ("c", ValueKind::Int64));
    assert_eq!((params[3].name.as_str(), params[3].ptype), ("d", ValueKind::Int64));
    assert_eq!(
        param_type(&mut params, "e", &TypeExpr::Qualified),
        Err(InterfaceError::IllegalParamType)
    );
    assert_eq!(params.len(), 4);
}

#[test]
fn a_return_type_makes_a_result_unless_it_is_nothing() {
    let mut results = Vec::new();
    assert_eq!(result_type(&mut results, &TypeExpr::Nothing), Ok(()));
    assert!(results.is_empty());
    assert_eq!(result_type(&mut results, &TypeExpr::Named("f64".to_string())), Ok(()));
    assert_eq!(result_type(&mut results, &TypeExpr::Other), Ok(()));
    assert_eq!(results.len(), 2);
    assert_eq!((results[0].name.as_str(), results[0].ptype), ("result", ValueKind::Float64));
    assert_eq!((results[1].name.as_str(), results[1].ptype), ("result", ValueKind::Int64));
    assert_eq!(
        result_type(&mut results, &TypeExpr::Qualified),
        Err(InterfaceError::IllegalReturnType)
    );
    assert_eq!(results.len(), 2);
}

#[test]
fn a_signature_is_read_from_a_declared_function() {
    let f = function("add", vec![param("a", named("I32")), param("b", None)], named("I32"));
    let sig = read_signature(&f, false).unwrap();
    assert_eq!(sig.name, "add");
    assert_eq!(sig.params.len(), 2);
    assert_eq!((sig.params[0].name.as_str(), sig.params[0].ptype), ("a", ValueKind::Int32));
    assert_eq!((sig.params[1].name.as_str(), sig.params[1].ptype), ("b", ValueKind::Int64));
    assert_eq!(sig.results.len(), 1);
    assert_eq!(sig.results[0].ptype, ValueKind::Int32);
    let procedure = function("run", vec![], None);
    let sig = read_signature(&procedure, true).unwrap();
    assert!(sig.params.is_empty());
    assert!(sig.results.is_empty());
}

#[test]
fn the_part_read_first_decides_which_error_is_reported() {
    let f = function("f", vec![param("a", Some(TypeExpr::Qualified))], Some(TypeExpr::Qualified));
    assert_eq!(read_signature(&f, true).unwrap_err(), InterfaceError::IllegalParamType);
    assert_eq!(read_signature(&f, false).unwrap_err(), InterfaceError::IllegalReturnType);
    let g = function("g", vec![param("a", named("i32")), param("b", Some(TypeExpr::Qualified))], None);
    assert_eq!(read_signature(&g, false).unwrap_err(), InterfaceError::IllegalParamType);
}

#[test]
fn an_interface_has_a_function_per_method() {
    let methods = vec![
        function("myHostFunction1", vec![param("p", named("I64"))], named("I64")),
        function("log", vec![param("level", named("I32")), param("p", named("PTR"))], Some(TypeExpr::Nothing)),
    ];
    let interface = parse_user_interface("user", &methods).unwrap();
    assert_eq!(interface.name, "user");
    assert_eq!(interface.functions.len(), 2);
    assert_eq!(interface.functions[0].name, "myHostFunction1");
    assert_eq!(interface.functions[0].results.len(), 1);
    assert_eq!(interface.functions[1].name, "log");
    assert_eq!(interface.functions[1].params[0].ptype, ValueKind::Int32);
    assert_eq!(interface.functions[1].params[1].ptype, ValueKind::Int64);
    assert!(interface.functions[1].results.is_empty());
    let broken = vec![
        function("ok", vec![], None),
        function("bad", vec![], Some(TypeExpr::Qualified)),
        function("worse", vec![param("p", Some(TypeExpr::Qualified))], None),
    ];
    assert_eq!(
        parse_user_interface("user", &broken).unwrap_err(),
        InterfaceError::IllegalReturnType
    );
}

#[test]
fn imports_are_named_after_module_and_interface() {
    let m = module(
        Some("extism:host"),
        vec![
            Item::Other,
            Item::OtherExport,
            Item::Interface { name: "user".to_string(), methods: vec![function("f", vec![], None)] },
            Item::Interface { name: "ignored".to_string(), methods: vec![] },
        ],
    );
    let interface = parse_imports(&m).unwrap().unwrap();
    assert_eq!(interface.name, "extism:host/user");
    assert_eq!(interface.functions.len(), 1);
    assert_eq!(interface.functions[0].name, "f");
}

#[test]
fn a_module_without_interface_gives_no_imports() {
    assert!(parse_imports(&module(Some("m"), vec![])).unwrap().is_none());
    assert!(parse_imports(&module(Some("m"), vec![Item::Other, Item::OtherExport])).unwrap().is_none());
    assert!(parse_imports(&ModuleDecl { name: Some("m".to_string()), body: None }).unwrap().is_none());
    let broken = module(
        Some("m"),
        vec![Item::Interface {
            name: "user".to_string(),
            methods: vec![function("f", vec![param("p", Some(TypeExpr::Qualified))], None)],
        }],
    );
    assert_eq!(parse_imports(&broken).unwrap_err(), InterfaceError::IllegalParamType);
}

#[test]
fn an_interface_of_an_unnamed_module_keeps_its_own_name() {
    let m = ModuleDecl {
        name: None,
        body: Some(vec![Item::Interface { name: "user".to_string(), methods: vec![] }]),
    };
    assert_eq!(parse_imports(&m).unwrap().unwrap().name, "user");
}

#[test]
fn the_main_module_declares_the_exports() {
    let m = module(
        Some("main"),
        vec![
            Item::ExportedFunction(function("greet", vec![], named("I32"))),
            Item::OtherExport,
            Item::ExportedFunction(function("add", vec![param("a", named("I32")), param("b", None)], None)),
        ],
    );
    let exports = parse_module_decl(&m).unwrap();
    assert_eq!(exports.name, "main");
    assert_eq!(exports.functions.len(), 2);
    assert_eq!(exports.functions[0].name, "greet");
    assert_eq!(exports.functions[1].name, "add");
    assert_eq!(exports.functions[1].params[1].ptype, ValueKind::Int64);
    let empty = parse_module_decl(&ModuleDecl { name: Some("main".to_string()), body: None }).unwrap();
    assert_eq!(empty.name, "main");
    assert!(empty.functions.is_empty());
}

#[test]
fn the_main_module_holds_exports_only() {
    let m = module(
        Some("main"),
        vec![Item::ExportedFunction(function("greet", vec![], None)), Item::Other],
    );
    assert_eq!(parse_module_decl(&m).unwrap_err(), InterfaceError::NonExportInMain);
    let n = module(Some("main"), vec![Item::Interface { name: "i".to_string(), methods: vec![] }]);
    assert_eq!(parse_module_decl(&n).unwrap_err(), InterfaceError::NonExportInMain);
    let first_error_wins = module(
        Some("main"),
        vec![
            Item::ExportedFunction(function("f", vec![], Some(TypeExpr::Qualified))),
            Item::Other,
        ],
    );
    assert_eq!(parse_module_decl(&first_error_wins).unwrap_err(), InterfaceError::IllegalReturnType);
}

#[test]
fn the_modules_of_a_file_make_interfaces_in_order() {
    let modules = vec![
        module(Some("extism:host"), vec![Item::Interface { name: "user".to_string(), methods: vec![] }]),
        module(Some("nothing"), vec![]),
        module(Some("main"), vec![Item::ExportedFunction(function("greet", vec![], None))]),
        module(None, vec![Item::ExportedFunction(function("second", vec![], None))]),
        module(Some("other"), vec![Item::Interface { name: "api".to_string(), methods: vec![] }]),
    ];
    let interfaces = parse_module(&modules).unwrap();
    let names: Vec<&str> = interfaces.iter().map(|i| i.name.as_str()).collect();
    assert_eq!(names, vec!["extism:host/user", "main", "main", "other/api"]);
    assert_eq!(interfaces[1].functions[0].name, "greet");
    assert_eq!(interfaces[2].functions[0].name, "second");
    assert!(parse_module(&vec![]).unwrap().is_empty());
    let broken = vec![module(Some("main"), vec![Item::Other]), module(Some("main"), vec![])];
    assert_eq!(parse_module(&broken).unwrap_err(), InterfaceError::NonExportInMain);
}

#[test]
fn the_name_of_the_main_module_is_main() {
    assert!(is_main_name("main"));
    for name in ["", "Main", "main ", "mai", "mainx", "extism:host/main", "maın"] {
        assert!(!is_main_name(name), "{}", name);
    }
}

#[test]
fn a_plugin_has_the_first_main_interface_as_exports() {
    let mut first = interface("main");
    first.functions.push(read_signature(&function("one", vec![], None), false).unwrap());
    let plugin = plugin_interface(vec![
        interface("a/x"),
        first,
        interface("b/y"),
        interface("main"),
        interface("c/z"),
    ])
    .unwrap();
    assert_eq!(plugin.exports.functions.len(), 1);
    assert_eq!(plugin.exports.functions[0].name, "one");
    let names: Vec<&str> = plugin.imports.iter().map(|i| i.name.as_str()).collect();
    assert_eq!(names, vec!["a/x", "b/y", "c/z"]);
}

#[test]
fn a_plugin_needs_a_main_module() {
    assert_eq!(plugin_interface(vec![]).unwrap_err(), InterfaceError::MissingMain);
    assert_eq!(
        plugin_interface(vec![interface("a/x"), interface("Main")]).unwrap_err(),
        InterfaceError::MissingMain
    );
    let only = plugin_interface(vec![interface("main")]).unwrap();
    assert!(only.imports.is_empty());
}

#[test]
fn every_error_says_what_is_wrong() {
    assert_eq!(InterfaceError::IllegalParamType.message(), "Illegal param type");
    assert_eq!(InterfaceError::IllegalReturnType.message(), "Illegal return type");
    assert_eq!(
        InterfaceError::NonExportInMain.message(),
        "Don't know what to do with non export on main module"
    );
    assert_eq!(InterfaceError::MissingMain.message(), "You need to declare a 'main' module");
}
