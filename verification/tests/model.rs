use js_pdk::model::{
    collect_kinds, duplicate_params, Interface, Param, PluginInterface, Signature, ValueKind,
};
use js_pdk::names::{bytes_precede, name_precedes};
use js_pdk::opt::Optimizer;

#[test]
fn tags_are_one_to_four() {
    assert_eq!(ValueKind::Int32.tag(), 1);
    assert_eq!(ValueKind::Int64.tag(), 2);
    assert_eq!(ValueKind::Float32.tag(), 3);
    assert_eq!(ValueKind::Float64.tag(), 4);
}

#[test]
fn param_new_keeps_name_and_kind() {
    let p = Param::new("count", ValueKind::Float32);
    assert_eq!(p.name, "count");
    assert_eq!(p.ptype, ValueKind::Float32);
    let q = p.duplicate();
    assert_eq!(q.name, "count");
    assert_eq!(q.ptype, ValueKind::Float32);
}

#[test]
fn signatures_are_duplicated_in_full() {
    let sig = Signature {
        name: "f".to_string(),
        params: vec![Param::new("a", ValueKind::Int32), Param::new("b", ValueKind::Float64)],
        results: vec![Param::new("result", ValueKind::Int64)],
    };
    let copy = sig.duplicate();
    assert_eq!(copy.name, "f");
    assert_eq!(copy.params.len(), 2);
    assert_eq!(copy.params[0].name, "a");
    assert_eq!(copy.params[1].ptype, ValueKind::Float64);
    assert_eq!(copy.results[0].name, "result");
    assert_eq!(collect_kinds(&copy.params), vec![ValueKind::Int32, ValueKind::Float64]);
    assert_eq!(duplicate_params(&sig.results)[0].ptype, ValueKind::Int64);
    assert!(collect_kinds(&Vec::new()).is_empty());
}

#[test]
fn a_plugin_interface_holds_exports_and_imports() {
    let plugin = PluginInterface {
        exports: Interface { name: "main".to_string(), functions: vec![] },
        imports: vec![Interface { name: "host/user".to_string(), functions: vec![] }],
    };
    assert_eq!(plugin.exports.name, "main");
    assert_eq!(plugin.imports[0].name, "host/user");
}

#[test]
fn names_are_ordered_byte_by_byte() {
    assert!(name_precedes("a", "b"));
    assert!(!name_precedes("b", "a"));
    assert!(!name_precedes("a", "a"));
    assert!(name_precedes("", "a"));
    assert!(!name_precedes("a", ""));
    assert!(!name_precedes("", ""));
    assert!(name_precedes("ab", "abc"));
    assert!(!name_precedes("abc", "ab"));
    // upper case comes before lower case, digits before both
    assert!(name_precedes("Zeta", "alpha"));
    assert!(name_precedes("a1", "aA"));
    // beyond ASCII the order of the encoded bytes decides
    assert!(name_precedes("z", "é"));
    assert!(name_precedes("é", "日"));
    assert_eq!(name_precedes("é", "z"), "é" < "z");
    assert_eq!(name_precedes("日本", "日"), "日本" < "日");
}

#[test]
fn bytes_are_compared_as_unsigned() {
    assert!(bytes_precede(&[0x7f], &[0x80]));
    assert!(!bytes_precede(&[0xff], &[0x00, 0x01]));
    assert!(bytes_precede(&[1, 2], &[1, 2, 0]));
    assert!(!bytes_precede(&[1, 2, 3], &[1, 2, 3]));
}

#[test]
fn an_optimizer_starts_with_both_steps_off() {
    let wasm = [0u8, 1, 2];
    let o = Optimizer::new(&wasm);
    assert!(!o.is_wizened());
    assert!(!o.is_optimized());
    assert_eq!(o.wasm(), &[0u8, 1, 2]);
}

#[test]
fn the_steps_of_an_optimizer_are_set_one_by_one() {
    let wasm = [7u8];
    let o = Optimizer::new(&wasm).wizen(true);
    assert!(o.is_wizened());
    assert!(!o.is_optimized());
    let o = o.optimize(true);
    assert!(o.is_wizened());
    assert!(o.is_optimized());
    let o = o.wizen(false);
    assert!(!o.is_wizened());
    assert!(o.is_optimized());
    let o = o.optimize(false);
    assert!(!o.is_optimized());
    assert_eq!(o.wasm(), &[7u8]);
}

#[test]
fn options_hold_the_settings_of_a_run() {
    let options = js_pdk::options::Options {
        input_js: std::path::PathBuf::from("plugin.js"),
        interface_file: std::path::PathBuf::from("index.d.ts"),
        output: std::path::PathBuf::from("index.wasm"),
        core: false,
        skip_opt: true,
    };
    assert_eq!(options.input_js.to_str(), Some("plugin.js"));
    assert_eq!(options.interface_file.to_str(), Some("index.d.ts"));
    assert_eq!(options.output.to_str(), Some("index.wasm"));
    assert!(!options.core);
    assert!(options.skip_opt);
}
