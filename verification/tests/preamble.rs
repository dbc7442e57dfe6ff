use js_pdk::model::{Interface, Param, Signature, ValueKind};
use js_pdk::preamble::{decimal_text, describe_table, host_functions_preamble};
use js_pdk::runtime::{
    declared_in_runtime_order, export_names, failure_value, host_call_arguments, resolve_export,
    text_window,
};
use js_pdk::wire::ArgType;
use js_pdk::table::ImportEntry;

fn signature(name: &str, results: usize) -> Signature {
    Signature {
        name: name.to_string(),
        params: vec![Param::new("p", ValueKind::Int64)],
        results: (0..results).map(|_| Param::new("result", ValueKind::Int64)).collect(),
    }
}

fn interface(name: &str, functions: Vec<Signature>) -> Interface {
    Interface { name: name.to_string(), functions }
}

#[test]
fn numbers_are_written_in_decimal() {
    assert_eq!(decimal_text(0), "0");
    assert_eq!(decimal_text(7), "7");
    assert_eq!(decimal_text(10), "10");
    assert_eq!(decimal_text(109), "109");
    assert_eq!(decimal_text(65536), "65536");
    assert_eq!(decimal_text(1234567890), "1234567890");
    assert_eq!(decimal_text(usize::MAX), usize::MAX.to_string());
}

#[test]
fn the_preamble_of_no_imports_is_an_empty_list() {
    assert_eq!(host_functions_preamble(&[]), "Host.__hostFunctions = [];\n");
    assert_eq!(host_functions_preamble(&[interface("a", vec![])]), "Host.__hostFunctions = [];\n");
}

#[test]
fn the_preamble_names_one_function() {
    let imports = [interface("host", vec![signature("f", 1)])];
    assert_eq!(
        host_functions_preamble(&imports),
        "Host.__hostFunctions = [{ name: 'f', results: 1 }];\n"
    );
}

#[test]
fn the_preamble_lists_the_functions_of_all_namespaces_by_name() {
    let imports = [
        interface("second", vec![signature("myHostFunction2", 1), signature("capitalize", 0)]),
        interface("first", vec![signature("floatInputs", 2), signature("Zed", 1)]),
    ];
    assert_eq!(
        host_functions_preamble(&imports),
        "Host.__hostFunctions = [{ name: 'Zed', results: 1 }, { name: 'capitalize', results: 0 }, \
         { name: 'floatInputs', results: 2 }, { name: 'myHostFunction2', results: 1 }];\n"
    );
}

#[test]
fn a_table_is_described_in_the_order_given() {
    let table = vec![
        ImportEntry { name: "b".to_string(), index: 4, params: vec![], results: vec![ValueKind::Int32; 12] },
        ImportEntry { name: "a".to_string(), index: 5, params: vec![ValueKind::Int32], results: vec![] },
    ];
    assert_eq!(
        describe_table(&table),
        "Host.__hostFunctions = [{ name: 'b', results: 12 }, { name: 'a', results: 0 }];\n"
    );
}

#[test]
fn export_names_are_sorted() {
    let keys = vec!["greet".to_string(), "add".to_string(), "Zoo".to_string(), "count".to_string()];
    assert_eq!(export_names(keys), vec!["Zoo", "add", "count", "greet"]);
    assert!(export_names(vec![]).is_empty());
    let mut expected = vec!["b".to_string(), "".to_string(), "ä".to_string(), "a".to_string(), "B".to_string()];
    let sorted = export_names(expected.clone());
    expected.sort();
    assert_eq!(sorted, expected);
}

#[test]
fn an_index_means_the_name_at_its_position() {
    let names = vec!["add".to_string(), "count".to_string()];
    assert_eq!(resolve_export(&names, 0), Some(&"add".to_string()));
    assert_eq!(resolve_export(&names, 1), Some(&"count".to_string()));
    assert_eq!(resolve_export(&names, 2), None);
    assert_eq!(resolve_export(&names, -1), None);
    assert_eq!(resolve_export(&names, i32::MAX), None);
    assert_eq!(resolve_export(&names, i32::MIN), None);
    assert_eq!(resolve_export(&vec![], 0), None);
}

#[test]
fn exports_in_ascending_order_are_in_runtime_order() {
    assert!(declared_in_runtime_order(&interface("main", vec![])));
    assert!(declared_in_runtime_order(&interface("main", vec![signature("add", 1)])));
    assert!(declared_in_runtime_order(&interface(
        "main",
        vec![signature("add", 1), signature("count", 1), signature("greet", 0)]
    )));
    assert!(!declared_in_runtime_order(&interface(
        "main",
        vec![signature("greet", 1), signature("add", 1)]
    )));
    assert!(!declared_in_runtime_order(&interface(
        "main",
        vec![signature("add", 1), signature("add", 1)]
    )));
    assert!(!declared_in_runtime_order(&interface(
        "main",
        vec![signature("a", 1), signature("c", 1), signature("b", 0)]
    )));
}

#[test]
fn the_index_of_a_thunk_means_its_export_when_declared_in_order() {
    let exports = interface("main", vec![signature("add", 1), signature("count", 1), signature("greet", 0)]);
    assert!(declared_in_runtime_order(&exports));
    let names = export_names(vec!["greet".to_string(), "add".to_string(), "count".to_string()]);
    for (i, f) in exports.functions.iter().enumerate() {
        assert_eq!(resolve_export(&names, i as i32), Some(&f.name));
    }
}

#[test]
fn host_call_arguments_are_padded_with_zeros() {
    assert_eq!(host_call_arguments(&vec![]), Some(vec![0, 0, 0, 0, 0]));
    assert_eq!(host_call_arguments(&vec![7, 8]), Some(vec![7, 8, 0, 0, 0]));
    assert_eq!(host_call_arguments(&vec![1, 2, 3, 4, 5]), Some(vec![1, 2, 3, 4, 5]));
    assert_eq!(host_call_arguments(&vec![1, 2, 3, 4, 5, 6]), None);
    assert_eq!(host_call_arguments(&vec![u64::MAX; 9]), None);
}

#[test]
fn the_text_window_is_the_range_asked_for() {
    let buffer = [b'a', b'b', b'c', b'd'];
    assert_eq!(text_window(&buffer, 0, 4, false), Some((0, 4)));
    assert_eq!(text_window(&buffer, 1, 2, false), Some((1, 3)));
    assert_eq!(text_window(&buffer, 4, 0, false), Some((4, 4)));
    assert_eq!(text_window(&buffer, 0, 0, true), Some((0, 0)));
}

#[test]
fn the_text_window_must_lie_in_the_buffer() {
    let buffer = [b'a', b'b', b'c', b'd'];
    assert_eq!(text_window(&buffer, 0, 5, false), None);
    assert_eq!(text_window(&buffer, 5, 0, false), None);
    assert_eq!(text_window(&buffer, 3, 2, true), None);
    assert_eq!(text_window(&buffer, usize::MAX, 1, false), None);
    assert_eq!(text_window(&buffer, 1, usize::MAX, false), None);
    assert_eq!(text_window(&[], 0, 1, false), None);
    assert_eq!(text_window(&[], 0, 0, false), Some((0, 0)));
}

#[test]
fn the_mark_is_skipped_unless_it_is_to_be_kept() {
    let buffer = [b'x', 0xEF, 0xBB, 0xBF, b'h', b'i'];
    assert_eq!(text_window(&buffer, 1, 5, false), Some((4, 6)));
    assert_eq!(text_window(&buffer, 1, 5, true), Some((1, 6)));
    assert_eq!(text_window(&buffer, 1, 3, false), Some((4, 4)));
    // a mark that is cut off, or not at the beginning, is text
    assert_eq!(text_window(&buffer, 1, 2, false), Some((1, 3)));
    assert_eq!(text_window(&buffer, 0, 6, false), Some((0, 6)));
    assert_eq!(text_window(&buffer, 2, 4, false), Some((2, 6)));
}

#[test]
fn a_failed_call_returns_minus_one() {
    assert_eq!(failure_value(ValueKind::Int32), ArgType::I32(-1));
    assert_eq!(failure_value(ValueKind::Int64), ArgType::I64(-1));
    assert_eq!(failure_value(ValueKind::Float32), ArgType::F32((-1.0f32).to_bits()));
    assert_eq!(failure_value(ValueKind::Float64), ArgType::F64((-1.0f64).to_bits()));
}
