use js_pdk::model::{Interface, Param, Signature, ValueKind};
use js_pdk::table::{host_functions, sort_entries, ImportEntry};

fn entry(name: &str, index: u32) -> ImportEntry {
    ImportEntry { name: name.to_string(), index, params: vec![], results: vec![] }
}

fn names(entries: &[ImportEntry]) -> Vec<(String, u32)> {
    entries.iter().map(|e| (e.name.clone(), e.index)).collect()
}

fn signature(name: &str, params: &[ValueKind], results: &[ValueKind]) -> Signature {
    Signature {
        name: name.to_string(),
        params: params.iter().map(|k| Param::new("p", *k)).collect(),
        results: results.iter().map(|k| Param::new("result", *k)).collect(),
    }
}

#[test]
fn entries_are_sorted_by_name() {
    let sorted = sort_entries(vec![entry("delta", 10), entry("alpha", 11), entry("charlie", 12), entry("bravo", 13)]);
    assert_eq!(
        names(&sorted),
        vec![
            ("alpha".to_string(), 11),
            ("bravo".to_string(), 13),
            ("charlie".to_string(), 12),
            ("delta".to_string(), 10)
        ]
    );
}

#[test]
fn entries_of_one_name_keep_their_order() {
    let sorted = sort_entries(vec![entry("b", 1), entry("a", 2), entry("b", 3), entry("a", 4), entry("b", 5)]);
    assert_eq!(
        names(&sorted),
        vec![
            ("a".to_string(), 2),
            ("a".to_string(), 4),
            ("b".to_string(), 1),
            ("b".to_string(), 3),
            ("b".to_string(), 5)
        ]
    );
}

#[test]
fn sorting_agrees_with_the_order_of_strings() {
    let given = ["zeta", "Alpha", "_x", "a", "", "é", "aa", "A", "z1", "10", "9"];
    let sorted = sort_entries(given.iter().enumerate().map(|(i, n)| entry(n, i as u32)).collect());
    let mut expected: Vec<String> = given.iter().map(|s| s.to_string()).collect();
    expected.sort();
    assert_eq!(sorted.iter().map(|e| e.name.clone()).collect::<Vec<_>>(), expected);
}

#[test]
fn sorting_nothing_gives_nothing() {
    assert!(sort_entries(vec![]).is_empty());
    assert_eq!(names(&sort_entries(vec![entry("only", 3)])), vec![("only".to_string(), 3)]);
}

#[test]
fn host_functions_are_listed_in_declaration_order() {
    let imports = vec![
        Interface {
            name: "second/b".to_string(),
            functions: vec![
                signature("y", &[ValueKind::Int32], &[]),
                signature("x", &[], &[ValueKind::Float64]),
            ],
        },
        Interface { name: "empty".to_string(), functions: vec![] },
        Interface {
            name: "first/a".to_string(),
            functions: vec![signature("z", &[ValueKind::Float32, ValueKind::Int64], &[])],
        },
    ];
    let hosts = host_functions(&imports);
    assert_eq!(hosts.len(), 3);
    assert_eq!(hosts[0].namespace, "second/b");
    assert_eq!(hosts[0].name, "y");
    assert_eq!(hosts[0].params, vec![ValueKind::Int32]);
    assert!(hosts[0].results.is_empty());
    assert_eq!(hosts[1].name, "x");
    assert_eq!(hosts[1].results, vec![ValueKind::Float64]);
    assert_eq!(hosts[2].namespace, "first/a");
    assert_eq!(hosts[2].name, "z");
    assert_eq!(hosts[2].params, vec![ValueKind::Float32, ValueKind::Int64]);
    assert!(host_functions(&[]).is_empty());
}
