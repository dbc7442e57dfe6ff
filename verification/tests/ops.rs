use js_pdk::model::ValueKind;
use js_pdk::ops::{
    arg_type_ops, converter_ops, first_kind, return_type_ops, router_ops, thunk_ops, Cast, Op,
    Protocol, MAX_HOST_PARAMS, VOID_TAG,
};
use js_pdk::table::ImportEntry;

fn entry(name: &str, params: &[ValueKind], results: &[ValueKind]) -> ImportEntry {
    ImportEntry { name: name.to_string(), index: 0, params: params.to_vec(), results: results.to_vec() }
}

fn protocol() -> Protocol {
    Protocol {
        arg_start: 0,
        arg_i32: 1,
        arg_i64: 2,
        arg_f32: 3,
        arg_f64: 4,
        invoke_i32: 5,
        invoke_i64: 6,
        invoke_f32: 7,
        invoke_f64: 8,
        invoke: 9,
    }
}

#[test]
fn the_limits_are_five_parameters_and_tag_zero_for_nothing() {
    assert_eq!(MAX_HOST_PARAMS, 5);
    assert_eq!(VOID_TAG, 0);
}

#[test]
fn the_protocol_picks_the_function_for_each_kind() {
    let p = protocol();
    assert_eq!(p.push_function(ValueKind::Int32), 1);
    assert_eq!(p.push_function(ValueKind::Int64), 2);
    assert_eq!(p.push_function(ValueKind::Float32), 3);
    assert_eq!(p.push_function(ValueKind::Float64), 4);
    assert_eq!(p.invoke_function(Some(ValueKind::Int32)), 5);
    assert_eq!(p.invoke_function(Some(ValueKind::Int64)), 6);
    assert_eq!(p.invoke_function(Some(ValueKind::Float32)), 7);
    assert_eq!(p.invoke_function(Some(ValueKind::Float64)), 8);
    assert_eq!(p.invoke_function(None), 9);
}

#[test]
fn first_kind_is_the_first_or_none() {
    assert_eq!(first_kind(&vec![]), None);
    assert_eq!(first_kind(&vec![ValueKind::Float32, ValueKind::Int32]), Some(ValueKind::Float32));
}

#[test]
fn the_thunk_of_add_opens_pushes_and_invokes() {
    let ops = thunk_ops(
        &vec![ValueKind::Int32, ValueKind::Int32],
        Some(ValueKind::Int32),
        0,
        &protocol(),
    );
    assert_eq!(
        ops,
        vec![
            Op::Call(0),
            Op::LocalGet(0),
            Op::Call(1),
            Op::LocalGet(1),
            Op::Call(1),
            Op::I32Const(0),
            Op::Call(5),
        ]
    );
}

#[test]
fn a_thunk_without_parameters_and_result() {
    let ops = thunk_ops(&vec![], None, 7, &protocol());
    assert_eq!(ops, vec![Op::Call(0), Op::I32Const(7), Op::Call(9)]);
}

#[test]
fn a_thunk_pushes_each_kind_through_its_function() {
    let ops = thunk_ops(
        &vec![ValueKind::Float64, ValueKind::Int64, ValueKind::Float32],
        Some(ValueKind::Float32),
        3,
        &protocol(),
    );
    assert_eq!(
        ops,
        vec![
            Op::Call(0),
            Op::LocalGet(0),
            Op::Call(4),
            Op::LocalGet(1),
            Op::Call(2),
            Op::LocalGet(2),
            Op::Call(3),
            Op::I32Const(3),
            Op::Call(7),
        ]
    );
}

#[test]
fn the_result_table_has_a_case_per_function_with_a_result() {
    let table = vec![
        entry("a", &[], &[ValueKind::Float32]),
        entry("b", &[ValueKind::Int32], &[]),
        entry("c", &[], &[ValueKind::Int64]),
    ];
    assert_eq!(
        return_type_ops(&table),
        vec![
            Op::LocalGet(0),
            Op::I32Const(0),
            Op::I32Eq,
            Op::If,
            Op::I32Const(3),
            Op::Return,
            Op::End,
            Op::LocalGet(0),
            Op::I32Const(2),
            Op::I32Eq,
            Op::If,
            Op::I32Const(2),
            Op::Return,
            Op::End,
            Op::I32Const(0),
            Op::Return,
        ]
    );
}

#[test]
fn the_tables_of_no_functions_answer_nothing() {
    assert_eq!(return_type_ops(&vec![]), vec![Op::I32Const(0), Op::Return]);
    assert_eq!(arg_type_ops(&vec![]), vec![Op::I32Const(0), Op::Return]);
    assert_eq!(router_ops(&vec![], &vec![]), vec![Op::I64Const(0), Op::Return]);
}

#[test]
fn the_argument_table_has_a_case_per_parameter() {
    let table = vec![
        entry("a", &[], &[]),
        entry("b", &[ValueKind::Float64, ValueKind::Int32], &[ValueKind::Int32]),
    ];
    assert_eq!(
        arg_type_ops(&table),
        vec![
            Op::LocalGet(0),
            Op::I32Const(1),
            Op::I32Eq,
            Op::LocalGet(1),
            Op::I32Const(0),
            Op::I32Eq,
            Op::I32And,
            Op::If,
            Op::I32Const(4),
            Op::Return,
            Op::End,
            Op::LocalGet(0),
            Op::I32Const(1),
            Op::I32Eq,
            Op::LocalGet(1),
            Op::I32Const(1),
            Op::I32Eq,
            Op::I32And,
            Op::If,
            Op::I32Const(1),
            Op::Return,
            Op::End,
            Op::I32Const(0),
            Op::Return,
        ]
    );
}

#[test]
fn a_converter_narrows_calls_and_widens() {
    let e = entry(
        "f",
        &[ValueKind::Int32, ValueKind::Int64, ValueKind::Float32, ValueKind::Float64],
        &[ValueKind::Float32],
    );
    assert_eq!(
        converter_ops(&e, 21, 0),
        vec![
            Op::LocalGet(1),
            Op::Cast(Cast::I32WrapI64),
            Op::LocalGet(2),
            Op::LocalGet(3),
            Op::Cast(Cast::I32WrapI64),
            Op::Cast(Cast::F32ReinterpretI32),
            Op::LocalGet(4),
            Op::Cast(Cast::F64ReinterpretI64),
            Op::LocalGet(0),
            Op::CallIndirect { type_index: 21, table_index: 0 },
            Op::Cast(Cast::I32ReinterpretF32),
            Op::Cast(Cast::I64ExtendI32U),
        ]
    );
}

#[test]
fn a_converter_widens_each_kind_of_result() {
    let tail = |kind: ValueKind| converter_ops(&entry("f", &[], &[kind]), 1, 2)[2..].to_vec();
    assert_eq!(tail(ValueKind::Int32), vec![Op::Cast(Cast::I64ExtendI32U)]);
    assert_eq!(tail(ValueKind::Int64), vec![]);
    assert_eq!(tail(ValueKind::Float64), vec![Op::Cast(Cast::I64ReinterpretF64)]);
    assert_eq!(
        converter_ops(&entry("f", &[], &[]), 1, 2),
        vec![Op::LocalGet(0), Op::CallIndirect { type_index: 1, table_index: 2 }, Op::I64Const(0)]
    );
}

#[test]
fn the_router_forwards_as_many_arguments_as_the_function_takes() {
    let table = vec![
        entry("a", &[], &[]),
        entry("b", &[ValueKind::Float64, ValueKind::Int32], &[ValueKind::Int32]),
    ];
    assert_eq!(
        router_ops(&table, &vec![40, 41]),
        vec![
            Op::LocalGet(0),
            Op::I32Const(0),
            Op::I32Eq,
            Op::If,
            Op::LocalGet(0),
            Op::Call(40),
            Op::Return,
            Op::End,
            Op::LocalGet(0),
            Op::I32Const(1),
            Op::I32Eq,
            Op::If,
            Op::LocalGet(0),
            Op::LocalGet(1),
            Op::LocalGet(2),
            Op::Call(41),
            Op::Return,
            Op::End,
            Op::I64Const(0),
            Op::Return,
        ]
    );
}
