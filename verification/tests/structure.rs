use js_pdk::model::{Interface, Param, Signature, ValueKind};
use js_pdk::shims::generate_wasm_shims;
use wagen::parser::{
    CompositeInnerType, ElementItems, ElementKind, ExternalKind, Operator, Parser, Payload,
    TypeRef, ValType,
};

#[derive(Default, Debug)]
struct Sections {
    types: Vec<(Vec<ValType>, Vec<ValType>)>,
    imports: Vec<(String, String, u32)>,
    functions: Vec<u32>,
    tables: Vec<(u64, Option<u64>)>,
    exports: Vec<(String, u32)>,
    elements: Vec<(Option<u32>, Vec<u32>)>,
    bodies: Vec<Vec<String>>,
}

fn read(bytes: &[u8]) -> Sections {
    let mut s = Sections::default();
    for payload in Parser::new(0).parse_all(bytes) {
        match payload.unwrap() {
            Payload::TypeSection(reader) => {
                for group in reader {
                    for ty in group.unwrap().into_types() {
                        match ty.composite_type.inner {
                            CompositeInnerType::Func(f) => {
                                s.types.push((f.params().to_vec(), f.results().to_vec()))
                            }
                            other => panic!("unexpected type: {:?}", other),
                        }
                    }
                }
            }
            Payload::ImportSection(reader) => {
                for import in reader {
                    let import = import.unwrap();
                    match import.ty {
                        TypeRef::Func(t) => {
                            s.imports.push((import.module.to_string(), import.name.to_string(), t))
                        }
                        other => panic!("unexpected import: {:?}", other),
                    }
                }
            }
            Payload::FunctionSection(reader) => {
                for f in reader {
                    s.functions.push(f.unwrap());
                }
            }
            Payload::TableSection(reader) => {
                for t in reader {
                    let t = t.unwrap();
                    assert!(t.ty.element_type.is_func_ref());
                    s.tables.push((t.ty.initial, t.ty.maximum));
                }
            }
            Payload::ExportSection(reader) => {
                for e in reader {
                    let e = e.unwrap();
                    assert_eq!(e.kind, ExternalKind::Func);
                    s.exports.push((e.name.to_string(), e.index));
                }
            }
            Payload::ElementSection(reader) => {
                for e in reader {
                    let e = e.unwrap();
                    let table = match e.kind {
                        ElementKind::Active { table_index, offset_expr } => {
                            let mut ops = offset_expr.get_operators_reader();
                            assert!(matches!(ops.read().unwrap(), Operator::I32Const { value: 0 }));
                            table_index
                        }
                        _ => panic!("the segment is not active"),
                    };
                    let functions = match e.items {
                        ElementItems::Functions(items) => items.into_iter().map(|f| f.unwrap()).collect(),
                        _ => panic!("the segment does not hold function indices"),
                    };
                    s.elements.push((table, functions));
                }
            }
            Payload::CodeSectionEntry(body) => {
                assert_eq!(body.get_locals_reader().unwrap().get_count(), 0);
                let ops = body
                    .get_operators_reader()
                    .unwrap()
                    .into_iter()
                    .map(|op| format!("{:?}", op.unwrap()))
                    .collect();
                s.bodies.push(ops);
            }
            _ => {}
        }
    }
    s
}

fn signature(name: &str, params: &[ValueKind], results: &[ValueKind]) -> Signature {
    Signature {
        name: name.to_string(),
        params: params.iter().map(|kind| Param::new("p", *kind)).collect(),
        results: results.iter().map(|kind| Param::new("result", *kind)).collect(),
    }
}

fn sample() -> (Interface, Vec<Interface>) {
    let exports = Interface {
        name: "main".to_string(),
        functions: vec![
            signature("add", &[ValueKind::Int32, ValueKind::Int32], &[ValueKind::Int32]),
            signature("log", &[ValueKind::Float64], &[]),
        ],
    };
    let imports = vec![
        Interface {
            name: "beta/api".to_string(),
            functions: vec![
                signature("zed", &[ValueKind::Float32], &[ValueKind::Float64]),
                signature("alpha", &[ValueKind::Int64, ValueKind::Int32], &[]),
            ],
        },
        Interface {
            name: "alpha/api".to_string(),
            functions: vec![signature("mid", &[], &[ValueKind::Int32])],
        },
    ];
    (exports, imports)
}

const I32: ValType = ValType::I32;
const I64: ValType = ValType::I64;
const F32: ValType = ValType::F32;
const F64: ValType = ValType::F64;

#[test]
fn the_types_follow_the_order_of_the_declarations() {
    let (exports, imports) = sample();
    let s = read(&generate_wasm_shims(&exports, &imports).unwrap());
    let expected: Vec<(Vec<ValType>, Vec<ValType>)> = vec![
        // the protocol
        (vec![], vec![]),
        (vec![I32], vec![]),
        (vec![I64], vec![]),
        (vec![F32], vec![]),
        (vec![F64], vec![]),
        (vec![I32], vec![I32]),
        (vec![I32], vec![I64]),
        (vec![I32], vec![F32]),
        (vec![I32], vec![F64]),
        (vec![I32], vec![]),
        // the host functions as declared: zed, alpha, mid
        (vec![F32], vec![F64]),
        (vec![I64, I32], vec![]),
        (vec![], vec![I32]),
        // the two tables of kinds
        (vec![I32], vec![I32]),
        (vec![I32, I32], vec![I32]),
        // per slot the host function and its converter: alpha, mid, zed
        (vec![I64, I32], vec![]),
        (vec![I32, I64, I64], vec![I64]),
        (vec![], vec![I32]),
        (vec![I32], vec![I64]),
        (vec![F32], vec![F64]),
        (vec![I32, I64], vec![I64]),
        // the router
        (vec![I32, I64, I64, I64, I64, I64], vec![I64]),
        // the thunks
        (vec![I32, I32], vec![I32]),
        (vec![F64], vec![]),
    ];
    assert_eq!(s.types, expected);
}

#[test]
fn the_imports_are_the_protocol_and_the_host_functions() {
    let (exports, imports) = sample();
    let s = read(&generate_wasm_shims(&exports, &imports).unwrap());
    let names: Vec<(&str, &str, u32)> =
        s.imports.iter().map(|(m, n, t)| (m.as_str(), n.as_str(), *t)).collect();
    assert_eq!(
        names,
        vec![
            ("core", "__arg_start", 0),
            ("core", "__arg_i32", 1),
            ("core", "__arg_i64", 2),
            ("core", "__arg_f32", 3),
            ("core", "__arg_f64", 4),
            ("core", "__invoke_i32", 5),
            ("core", "__invoke_i64", 6),
            ("core", "__invoke_f32", 7),
            ("core", "__invoke_f64", 8),
            ("core", "__invoke", 9),
            ("beta/api", "zed", 10),
            ("beta/api", "alpha", 11),
            ("alpha/api", "mid", 12),
        ]
    );
}

#[test]
fn the_functions_are_defined_in_order_and_exported_under_their_names() {
    let (exports, imports) = sample();
    let s = read(&generate_wasm_shims(&exports, &imports).unwrap());
    assert_eq!(s.functions, vec![13, 14, 16, 18, 20, 21, 22, 23]);
    let names: Vec<(&str, u32)> = s.exports.iter().map(|(n, i)| (n.as_str(), *i)).collect();
    assert_eq!(
        names,
        vec![
            ("__get_function_return_type", 13),
            ("__get_function_arg_type", 14),
            ("__conv_alpha", 15),
            ("__conv_mid", 16),
            ("__conv_zed", 17),
            ("__invokeHostFunc", 18),
            ("add", 19),
            ("log", 20),
        ]
    );
    assert_eq!(s.bodies.len(), 8);
}

#[test]
fn the_table_holds_the_host_functions_in_the_order_of_their_names() {
    let (exports, imports) = sample();
    let s = read(&generate_wasm_shims(&exports, &imports).unwrap());
    assert_eq!(s.tables, vec![(3, None)]);
    // alpha is import 11, mid is import 12, zed is import 10
    assert_eq!(s.elements, vec![(Some(0), vec![11, 12, 10])]);
}

#[test]
fn the_bodies_hold_the_instructions_and_a_closing_end() {
    let (exports, imports) = sample();
    let s = read(&generate_wasm_shims(&exports, &imports).unwrap());
    // the thunk of add
    assert_eq!(
        s.bodies[6],
        vec![
            "Call { function_index: 0 }",
            "LocalGet { local_index: 0 }",
            "Call { function_index: 1 }",
            "LocalGet { local_index: 1 }",
            "Call { function_index: 1 }",
            "I32Const { value: 0 }",
            "Call { function_index: 5 }",
            "End",
        ]
    );
    // the thunk of log
    assert_eq!(
        s.bodies[7],
        vec![
            "Call { function_index: 0 }",
            "LocalGet { local_index: 0 }",
            "Call { function_index: 4 }",
            "I32Const { value: 1 }",
            "Call { function_index: 9 }",
            "End",
        ]
    );
    // the converter of zed, slot 2
    assert_eq!(
        s.bodies[4],
        vec![
            "LocalGet { local_index: 1 }",
            "I32WrapI64",
            "F32ReinterpretI32",
            "LocalGet { local_index: 0 }",
            "CallIndirect { type_index: 19, table_index: 0 }",
            "I64ReinterpretF64",
            "End",
        ]
    );
    // the converter of alpha, slot 0
    assert_eq!(
        s.bodies[2],
        vec![
            "LocalGet { local_index: 1 }",
            "LocalGet { local_index: 2 }",
            "I32WrapI64",
            "LocalGet { local_index: 0 }",
            "CallIndirect { type_index: 15, table_index: 0 }",
            "I64Const { value: 0 }",
            "End",
        ]
    );
    // the converter of mid, slot 1
    assert_eq!(
        s.bodies[3],
        vec![
            "LocalGet { local_index: 0 }",
            "CallIndirect { type_index: 17, table_index: 0 }",
            "I64ExtendI32U",
            "End",
        ]
    );
    // the router
    assert_eq!(
        s.bodies[5],
        vec![
            "LocalGet { local_index: 0 }",
            "I32Const { value: 0 }",
            "I32Eq",
            "If { blockty: Empty }",
            "LocalGet { local_index: 0 }",
            "LocalGet { local_index: 1 }",
            "LocalGet { local_index: 2 }",
            "Call { function_index: 15 }",
            "Return",
            "End",
            "LocalGet { local_index: 0 }",
            "I32Const { value: 1 }",
            "I32Eq",
            "If { blockty: Empty }",
            "LocalGet { local_index: 0 }",
            "Call { function_index: 16 }",
            "Return",
            "End",
            "LocalGet { local_index: 0 }",
            "I32Const { value: 2 }",
            "I32Eq",
            "If { blockty: Empty }",
            "LocalGet { local_index: 0 }",
            "LocalGet { local_index: 1 }",
            "Call { function_index: 17 }",
            "Return",
            "End",
            "I64Const { value: 0 }",
            "Return",
            "End",
        ]
    );
    // the table of result kinds: alpha returns nothing
    assert_eq!(
        s.bodies[0],
        vec![
            "LocalGet { local_index: 0 }",
            "I32Const { value: 1 }",
            "I32Eq",
            "If { blockty: Empty }",
            "I32Const { value: 1 }",
            "Return",
            "End",
            "LocalGet { local_index: 0 }",
            "I32Const { value: 2 }",
            "I32Eq",
            "If { blockty: Empty }",
            "I32Const { value: 4 }",
            "Return",
            "End",
            "I32Const { value: 0 }",
            "Return",
            "End",
        ]
    );
}

#[test]
fn generation_gives_the_same_module_every_time() {
    let (exports, imports) = sample();
    let first = generate_wasm_shims(&exports, &imports).unwrap();
    let second = generate_wasm_shims(&exports, &imports).unwrap();
    assert_eq!(first, second);
}
