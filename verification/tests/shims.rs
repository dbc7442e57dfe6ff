use js_pdk::faults::ShimError;
use js_pdk::model::{Interface, Param, PluginInterface, Signature, ValueKind};
use js_pdk::shims::{conclude, create_shims, generate_wasm_shims, interface_fits};
use wasmi::{Caller, Engine, Instance, Linker, Module, Store};

#[derive(Debug, Clone, PartialEq)]
enum Call {
    Start,
    I32(i32),
    I64(i64),
    F32(u32),
    F64(u64),
    InvokeI32(i32),
    InvokeI64(i32),
    InvokeF32(i32),
    InvokeF64(i32),
    Invoke(i32),
}

fn signature(name: &str, params: &[ValueKind], results: &[ValueKind]) -> Signature {
    Signature {
        name: name.to_string(),
        params: params
            .iter()
            .enumerate()
            .map(|(i, kind)| Param::new(&format!("p{}", i), *kind))
            .collect(),
        results: results.iter().map(|kind| Param::new("result", *kind)).collect(),
    }
}

fn interface(name: &str, functions: Vec<Signature>) -> Interface {
    Interface { name: name.to_string(), functions }
}

fn record(linker: &mut Linker<Vec<Call>>) {
    linker
        .func_wrap("core", "__arg_start", |mut c: Caller<'_, Vec<Call>>| {
            c.data_mut().push(Call::Start)
        })
        .unwrap();
    linker
        .func_wrap("core", "__arg_i32", |mut c: Caller<'_, Vec<Call>>, v: i32| {
            c.data_mut().push(Call::I32(v))
        })
        .unwrap();
    linker
        .func_wrap("core", "__arg_i64", |mut c: Caller<'_, Vec<Call>>, v: i64| {
            c.data_mut().push(Call::I64(v))
        })
        .unwrap();
    linker
        .func_wrap("core", "__arg_f32", |mut c: Caller<'_, Vec<Call>>, v: f32| {
            c.data_mut().push(Call::F32(v.to_bits()))
        })
        .unwrap();
    linker
        .func_wrap("core", "__arg_f64", |mut c: Caller<'_, Vec<Call>>, v: f64| {
            c.data_mut().push(Call::F64(v.to_bits()))
        })
        .unwrap();
    linker
        .func_wrap("core", "__invoke_i32", |mut c: Caller<'_, Vec<Call>>, i: i32| -> i32 {
            c.data_mut().push(Call::InvokeI32(i));
            5
        })
        .unwrap();
    linker
        .func_wrap("core", "__invoke_i64", |mut c: Caller<'_, Vec<Call>>, i: i32| -> i64 {
            c.data_mut().push(Call::InvokeI64(i));
            -6
        })
        .unwrap();
    linker
        .func_wrap("core", "__invoke_f32", |mut c: Caller<'_, Vec<Call>>, i: i32| -> f32 {
            c.data_mut().push(Call::InvokeF32(i));
            7.5
        })
        .unwrap();
    linker
        .func_wrap("core", "__invoke_f64", |mut c: Caller<'_, Vec<Call>>, i: i32| -> f64 {
            c.data_mut().push(Call::InvokeF64(i));
            8.25
        })
        .unwrap();
    linker
        .func_wrap("core", "__invoke", |mut c: Caller<'_, Vec<Call>>, i: i32| {
            c.data_mut().push(Call::Invoke(i))
        })
        .unwrap();
}

fn instantiate(bytes: &[u8], linker: &Linker<Vec<Call>>, engine: &Engine) -> (Store<Vec<Call>>, Instance) {
    let module = Module::new(engine, bytes).unwrap();
    let mut store = Store::new(engine, Vec::new());
    let instance = linker.instantiate_and_start(&mut store, &module).unwrap();
    (store, instance)
}

fn host_interface() -> Interface {
    interface(
        "host",
        vec![
            signature("double", &[ValueKind::Float64], &[ValueKind::Float64]),
            signature("beta", &[ValueKind::Int32, ValueKind::Int64], &[]),
            signature("alpha", &[ValueKind::Float32], &[ValueKind::Float32]),
            signature("negate", &[ValueKind::Int32], &[ValueKind::Int32]),
            signature("wide", &[ValueKind::Int64], &[ValueKind::Int64]),
        ],
    )
}

fn host_linker(engine: &Engine) -> Linker<Vec<Call>> {
    let mut linker = <Linker<Vec<Call>>>::new(engine);
    record(&mut linker);
    linker.func_wrap("host", "double", |x: f64| -> f64 { x * 2.0 }).unwrap();
    linker
        .func_wrap("host", "beta", |mut c: Caller<'_, Vec<Call>>, a: i32, b: i64| {
            c.data_mut().push(Call::I32(a));
            c.data_mut().push(Call::I64(b));
        })
        .unwrap();
    linker.func_wrap("host", "alpha", |x: f32| -> f32 { x + 1.0 }).unwrap();
    linker.func_wrap("host", "negate", |x: i32| -> i32 { -x }).unwrap();
    linker.func_wrap("host", "wide", |x: i64| -> i64 { x - 1 }).unwrap();
    linker
}

#[test]
fn thunk_of_add_hands_over_its_arguments_in_order() {
    let exports = interface(
        "main",
        vec![signature("add", &[ValueKind::Int32, ValueKind::Int32], &[ValueKind::Int32])],
    );
    assert!(interface_fits(&exports, &[]));
    let bytes = generate_wasm_shims(&exports, &[]).unwrap();
    let engine = Engine::default();
    let mut linker = <Linker<Vec<Call>>>::new(&engine);
    record(&mut linker);
    let (mut store, instance) = instantiate(&bytes, &linker, &engine);
    let add = instance.get_typed_func::<(i32, i32), i32>(&store, "add").unwrap();
    let result = add.call(&mut store, (2, 3)).unwrap();
    assert_eq!(result, 5);
    assert_eq!(
        store.data().clone(),
        vec![Call::Start, Call::I32(2), Call::I32(3), Call::InvokeI32(0)]
    );
}

#[test]
fn thunks_pass_every_kind_and_use_the_declaration_index() {
    let exports = interface(
        "main",
        vec![
            signature("zeta", &[], &[]),
            signature(
                "mixed",
                &[ValueKind::Float64, ValueKind::Int64, ValueKind::Float32, ValueKind::Int32],
                &[ValueKind::Float64],
            ),
            signature("long", &[ValueKind::Int64], &[ValueKind::Int64]),
            signature("single", &[ValueKind::Float32], &[ValueKind::Float32]),
        ],
    );
    let bytes = generate_wasm_shims(&exports, &[]).unwrap();
    let engine = Engine::default();
    let mut linker = <Linker<Vec<Call>>>::new(&engine);
    record(&mut linker);
    let (mut store, instance) = instantiate(&bytes, &linker, &engine);

    let zeta = instance.get_typed_func::<(), ()>(&store, "zeta").unwrap();
    zeta.call(&mut store, ()).unwrap();
    assert_eq!(store.data().clone(), vec![Call::Start, Call::Invoke(0)]);
    store.data_mut().clear();

    let mixed = instance.get_typed_func::<(f64, i64, f32, i32), f64>(&store, "mixed").unwrap();
    let result = mixed.call(&mut store, (1.5, -2, 2.5, 7)).unwrap();
    assert_eq!(result, 8.25);
    assert_eq!(
        store.data().clone(),
        vec![
            Call::Start,
            Call::F64(1.5f64.to_bits()),
            Call::I64(-2),
            Call::F32(2.5f32.to_bits()),
            Call::I32(7),
            Call::InvokeF64(1)
        ]
    );
    store.data_mut().clear();

    let long = instance.get_typed_func::<i64, i64>(&store, "long").unwrap();
    assert_eq!(long.call(&mut store, i64::MIN).unwrap(), -6);
    assert_eq!(store.data().clone(), vec![Call::Start, Call::I64(i64::MIN), Call::InvokeI64(2)]);
    store.data_mut().clear();

    let single = instance.get_typed_func::<f32, f32>(&store, "single").unwrap();
    assert_eq!(single.call(&mut store, -0.0).unwrap(), 7.5);
    assert_eq!(
        store.data().clone(),
        vec![Call::Start, Call::F32((-0.0f32).to_bits()), Call::InvokeF32(3)]
    );
}

#[test]
fn introspection_reports_the_kinds_of_double() {
    let exports = interface("main", vec![]);
    let imports = vec![host_interface()];
    let bytes = generate_wasm_shims(&exports, &imports).unwrap();
    let engine = Engine::default();
    let linker = host_linker(&engine);
    let (mut store, instance) = instantiate(&bytes, &linker, &engine);
    let arg_kind =
        instance.get_typed_func::<(i32, i32), i32>(&store, "__get_function_arg_type").unwrap();
    let result_kind =
        instance.get_typed_func::<i32, i32>(&store, "__get_function_return_type").unwrap();
    // sorted by name: alpha, beta, double, negate, wide
    assert_eq!(arg_kind.call(&mut store, (2, 0)).unwrap(), 4);
    assert_eq!(result_kind.call(&mut store, 2).unwrap(), 4);
    assert_eq!(arg_kind.call(&mut store, (0, 0)).unwrap(), 3);
    assert_eq!(result_kind.call(&mut store, 0).unwrap(), 3);
    assert_eq!(arg_kind.call(&mut store, (1, 0)).unwrap(), 1);
    assert_eq!(arg_kind.call(&mut store, (1, 1)).unwrap(), 2);
    assert_eq!(result_kind.call(&mut store, 1).unwrap(), 0);
    assert_eq!(arg_kind.call(&mut store, (3, 0)).unwrap(), 1);
    assert_eq!(result_kind.call(&mut store, 3).unwrap(), 1);
    assert_eq!(arg_kind.call(&mut store, (4, 0)).unwrap(), 2);
    assert_eq!(result_kind.call(&mut store, 4).unwrap(), 2);
    // no such parameter, no such function
    assert_eq!(arg_kind.call(&mut store, (2, 1)).unwrap(), 0);
    assert_eq!(arg_kind.call(&mut store, (5, 0)).unwrap(), 0);
    assert_eq!(arg_kind.call(&mut store, (-1, 0)).unwrap(), 0);
    assert_eq!(result_kind.call(&mut store, 5).unwrap(), 0);
}

#[test]
fn router_doubles_through_the_wide_integer() {
    let exports = interface("main", vec![]);
    let imports = vec![host_interface()];
    let bytes = generate_wasm_shims(&exports, &imports).unwrap();
    let engine = Engine::default();
    let linker = host_linker(&engine);
    let (mut store, instance) = instantiate(&bytes, &linker, &engine);
    let router = instance
        .get_typed_func::<(i32, i64, i64, i64, i64, i64), i64>(&store, "__invokeHostFunc")
        .unwrap();
    let wide = 1.5f64.to_bits() as i64;
    let result = router.call(&mut store, (2, wide, 0, 0, 0, 0)).unwrap();
    assert_eq!(result as u64, 3.0f64.to_bits());
    let tiny = f64::MIN_POSITIVE.to_bits() as i64;
    let result = router.call(&mut store, (2, tiny, 0, 0, 0, 0)).unwrap();
    assert_eq!(result as u64, (f64::MIN_POSITIVE * 2.0).to_bits());
}

#[test]
fn router_converts_every_kind() {
    let exports = interface("main", vec![]);
    let imports = vec![host_interface()];
    let bytes = generate_wasm_shims(&exports, &imports).unwrap();
    let engine = Engine::default();
    let linker = host_linker(&engine);
    let (mut store, instance) = instantiate(&bytes, &linker, &engine);
    let router = instance
        .get_typed_func::<(i32, i64, i64, i64, i64, i64), i64>(&store, "__invokeHostFunc")
        .unwrap();
    // alpha: single precision, carried in the low half
    let input = 2.5f32.to_bits() as i64 | (0x1234_5678_i64 << 32);
    let result = router.call(&mut store, (0, input, 0, 0, 0, 0)).unwrap();
    assert_eq!(result as u64, 3.5f32.to_bits() as u64);
    // beta: no result gives zero; the 32-bit argument is the low half
    let result = router.call(&mut store, (1, 0x1_0000_0007, -9, 0, 0, 0)).unwrap();
    assert_eq!(result, 0);
    assert_eq!(store.data().clone(), vec![Call::I32(7), Call::I64(-9)]);
    // negate: a negative 32-bit result comes back without sign extension
    let result = router.call(&mut store, (3, 1, 0, 0, 0, 0)).unwrap();
    assert_eq!(result, 0xFFFF_FFFF);
    // wide: 64-bit integers pass unchanged
    let result = router.call(&mut store, (4, i64::MIN + 1, 0, 0, 0, 0)).unwrap();
    assert_eq!(result, i64::MIN);
    // no such function
    let result = router.call(&mut store, (5, 1, 2, 3, 4, 5)).unwrap();
    assert_eq!(result, 0);
}

#[test]
fn converters_are_exported_under_their_names() {
    let exports = interface("main", vec![]);
    let imports = vec![host_interface()];
    let bytes = generate_wasm_shims(&exports, &imports).unwrap();
    let engine = Engine::default();
    let linker = host_linker(&engine);
    let (mut store, instance) = instantiate(&bytes, &linker, &engine);
    let conv = instance.get_typed_func::<(i32, i64), i64>(&store, "__conv_double").unwrap();
    let result = conv.call(&mut store, (2, 4.0f64.to_bits() as i64)).unwrap();
    assert_eq!(result as u64, 8.0f64.to_bits());
    assert!(instance.get_func(&store, "__conv_beta").is_some());
    assert!(instance.get_func(&store, "__conv_gamma").is_none());
}

#[test]
fn declaration_order_of_imports_does_not_change_the_slots() {
    let exports = interface("main", vec![]);
    let mut reversed = host_interface();
    reversed.functions.reverse();
    let engine = Engine::default();
    let linker = host_linker(&engine);
    for imports in [vec![host_interface()], vec![reversed]] {
        let bytes = generate_wasm_shims(&exports, &imports).unwrap();
        let (mut store, instance) = instantiate(&bytes, &linker, &engine);
        let router = instance
            .get_typed_func::<(i32, i64, i64, i64, i64, i64), i64>(&store, "__invokeHostFunc")
            .unwrap();
        let result = router.call(&mut store, (2, 1.5f64.to_bits() as i64, 0, 0, 0, 0)).unwrap();
        assert_eq!(result as u64, 3.0f64.to_bits());
        let result = router.call(&mut store, (3, 5, 0, 0, 0, 0)).unwrap();
        assert_eq!(result, 0xFFFF_FFFB);
    }
}

#[test]
fn functions_of_several_namespaces_share_one_table() {
    let exports = interface("main", vec![]);
    let imports = vec![
        interface("second", vec![signature("wide", &[ValueKind::Int64], &[ValueKind::Int64])]),
        interface("first", vec![signature("negate", &[ValueKind::Int32], &[ValueKind::Int32])]),
    ];
    let bytes = generate_wasm_shims(&exports, &imports).unwrap();
    let engine = Engine::default();
    let mut linker = <Linker<Vec<Call>>>::new(&engine);
    record(&mut linker);
    linker.func_wrap("second", "wide", |x: i64| -> i64 { x - 1 }).unwrap();
    linker.func_wrap("first", "negate", |x: i32| -> i32 { -x }).unwrap();
    let (mut store, instance) = instantiate(&bytes, &linker, &engine);
    let router = instance
        .get_typed_func::<(i32, i64, i64, i64, i64, i64), i64>(&store, "__invokeHostFunc")
        .unwrap();
    assert_eq!(router.call(&mut store, (0, 2, 0, 0, 0, 0)).unwrap(), 0xFFFF_FFFE);
    assert_eq!(router.call(&mut store, (1, 2, 0, 0, 0, 0)).unwrap(), 1);
}

#[test]
fn five_parameters_are_accepted_and_six_are_not() {
    let exports = interface("main", vec![]);
    let five = vec![interface("host", vec![signature("f", &[ValueKind::Int64; 5], &[])])];
    let bytes = generate_wasm_shims(&exports, &five).unwrap();
    let engine = Engine::default();
    let mut linker = <Linker<Vec<Call>>>::new(&engine);
    record(&mut linker);
    linker
        .func_wrap(
            "host",
            "f",
            |mut c: Caller<'_, Vec<Call>>, a: i64, b: i64, x: i64, d: i64, e: i64| {
                for v in [a, b, x, d, e] {
                    c.data_mut().push(Call::I64(v));
                }
            },
        )
        .unwrap();
    let (mut store, instance) = instantiate(&bytes, &linker, &engine);
    let router = instance
        .get_typed_func::<(i32, i64, i64, i64, i64, i64), i64>(&store, "__invokeHostFunc")
        .unwrap();
    assert_eq!(router.call(&mut store, (0, 1, 2, 3, 4, 5)).unwrap(), 0);
    assert_eq!(
        store.data().clone(),
        vec![Call::I64(1), Call::I64(2), Call::I64(3), Call::I64(4), Call::I64(5)]
    );

    let six = vec![interface("host", vec![signature("g", &[ValueKind::Int64; 6], &[])])];
    match generate_wasm_shims(&exports, &six) {
        Err(ShimError::TooManyParams { function }) => assert_eq!(function, "g"),
        other => panic!("unexpected: {:?}", other),
    }
}

#[test]
fn one_result_is_accepted_and_two_are_not() {
    let one = interface("main", vec![signature("f", &[], &[ValueKind::Int64])]);
    assert!(generate_wasm_shims(&one, &[]).is_ok());
    let two = interface(
        "main",
        vec![
            signature("good", &[], &[ValueKind::Int32]),
            signature("bad", &[], &[ValueKind::Int32, ValueKind::Int32]),
        ],
    );
    match generate_wasm_shims(&two, &[]) {
        Err(ShimError::MultipleResults { function }) => assert_eq!(function, "bad"),
        other => panic!("unexpected: {:?}", other),
    }
}

#[test]
fn faults_of_imports_are_reported_before_those_of_exports() {
    let exports = interface(
        "main",
        vec![signature("bad", &[], &[ValueKind::Int32, ValueKind::Int32])],
    );
    let imports = vec![
        interface("a", vec![signature("fine", &[], &[])]),
        interface(
            "b",
            vec![
                signature("pair", &[], &[ValueKind::Int32, ValueKind::Int64]),
                signature("many", &[ValueKind::Int32; 7], &[]),
            ],
        ),
    ];
    match generate_wasm_shims(&exports, &imports) {
        Err(ShimError::MultipleResults { function }) => assert_eq!(function, "pair"),
        other => panic!("unexpected: {:?}", other),
    }
}

#[test]
fn a_function_with_both_faults_is_reported_for_its_parameters() {
    let exports = interface("main", vec![]);
    let imports = vec![interface(
        "b",
        vec![signature("both", &[ValueKind::Int32; 6], &[ValueKind::Int32, ValueKind::Int64])],
    )];
    match generate_wasm_shims(&exports, &imports) {
        Err(ShimError::TooManyParams { function }) => assert_eq!(function, "both"),
        other => panic!("unexpected: {:?}", other),
    }
}

#[test]
fn an_invalid_module_is_kept_beside_the_diagnostic() {
    // two exports of one name cannot both be exported
    let exports = interface("main", vec![signature("twice", &[], &[]), signature("twice", &[], &[])]);
    match generate_wasm_shims(&exports, &[]) {
        Err(ShimError::Invalid { module, diagnostic }) => {
            assert_eq!(&module[0..4], b"\0asm");
            assert!(!diagnostic.is_empty());
        }
        other => panic!("unexpected: {:?}", other),
    }
}

#[test]
fn conclude_follows_the_verdict() {
    match conclude(vec![1, 2, 3], Ok(())) {
        Ok(bytes) => assert_eq!(bytes, vec![1, 2, 3]),
        other => panic!("unexpected: {:?}", other),
    }
    match conclude(vec![1, 2, 3], Err("broken".to_string())) {
        Err(ShimError::Invalid { module, diagnostic }) => {
            assert_eq!(module, vec![1, 2, 3]);
            assert_eq!(diagnostic, "broken");
        }
        other => panic!("unexpected: {:?}", other),
    }
}

#[test]
fn an_empty_interface_gives_a_valid_module() {
    let exports = interface("main", vec![]);
    let bytes = generate_wasm_shims(&exports, &[]).unwrap();
    assert_eq!(&bytes[0..8], b"\0asm\x01\0\0\0");
    let engine = Engine::default();
    let mut linker = <Linker<Vec<Call>>>::new(&engine);
    record(&mut linker);
    let (mut store, instance) = instantiate(&bytes, &linker, &engine);
    let router = instance
        .get_typed_func::<(i32, i64, i64, i64, i64, i64), i64>(&store, "__invokeHostFunc")
        .unwrap();
    assert_eq!(router.call(&mut store, (0, 1, 2, 3, 4, 5)).unwrap(), 0);
}

#[test]
fn create_shims_generates_for_a_plugin() {
    let plugin = PluginInterface {
        exports: interface("main", vec![signature("run", &[], &[ValueKind::Int32])]),
        imports: vec![host_interface()],
    };
    let bytes = create_shims(&plugin).unwrap();
    let same = generate_wasm_shims(&plugin.exports, &plugin.imports).unwrap();
    assert_eq!(bytes, same);
}

#[test]
fn the_size_check_turns_down_oversized_interfaces() {
    let many: Vec<Signature> = (0..30001).map(|i| signature(&format!("f{}", i), &[], &[])).collect();
    assert!(!interface_fits(&interface("main", vec![]), &[interface("host", many.clone())]));
    assert!(!interface_fits(&interface("main", many), &[]));
    let most: Vec<Signature> = (0..30000).map(|i| signature(&format!("f{}", i), &[], &[])).collect();
    assert!(interface_fits(&interface("main", most.clone()), &[interface("host", most)]));
    let long_name = "n".repeat(4001);
    assert!(!interface_fits(&interface("main", vec![signature(&long_name, &[], &[])]), &[]));
    assert!(!interface_fits(
        &interface("main", vec![]),
        &[interface(&long_name, vec![signature("f", &[], &[])])]
    ));
    assert!(interface_fits(&interface("main", vec![]), &[interface(&long_name, vec![])]));
    let wide = signature("w", &[ValueKind::Int32; 1001], &[]);
    assert!(!interface_fits(&interface("main", vec![wide]), &[]));
    let wide = signature("w", &[ValueKind::Int32; 1001], &[]);
    assert!(interface_fits(&interface("main", vec![]), &[interface("host", vec![wide])]));
}

#[test]
fn every_fault_says_what_is_wrong() {
    let e = ShimError::TooManyParams { function: "g".to_string() };
    assert_eq!(
        e.message(),
        "More than 5 parameters are not supported but used in imported function g"
    );
    let e = ShimError::MultipleResults { function: "bad".to_string() };
    assert_eq!(
        e.message(),
        "Multiple return arguments are not currently supported but used in function bad"
    );
    let e = ShimError::Invalid { module: vec![0], diagnostic: "type mismatch".to_string() };
    assert_eq!(e.message(), "Validation failed: type mismatch");
}

#[test]
fn the_preamble_and_the_module_number_host_functions_alike() {
    let exports = interface("main", vec![]);
    let imports = vec![host_interface()];
    let line = js_pdk::preamble::host_functions_preamble(&imports);
    assert_eq!(
        line,
        "Host.__hostFunctions = [{ name: 'alpha', results: 1 }, { name: 'beta', results: 0 }, \
         { name: 'double', results: 1 }, { name: 'negate', results: 1 }, \
         { name: 'wide', results: 1 }];\n"
    );
    let bytes = generate_wasm_shims(&exports, &imports).unwrap();
    let engine = Engine::default();
    let linker = host_linker(&engine);
    let (mut store, instance) = instantiate(&bytes, &linker, &engine);
    let result_kind =
        instance.get_typed_func::<i32, i32>(&store, "__get_function_return_type").unwrap();
    let kinds: Vec<i32> = (0..5).map(|slot| result_kind.call(&mut store, slot).unwrap()).collect();
    assert_eq!(kinds, vec![3, 0, 4, 1, 2]);
}

#[test]
fn a_malformed_interface_yields_no_module() {
    let exports = interface(
        "main",
        vec![signature("pair", &[], &[ValueKind::Int32, ValueKind::Int32])],
    );
    let result = generate_wasm_shims(&exports, &[host_interface()]);
    assert!(matches!(result, Err(ShimError::MultipleResults { .. })));
}

#[test]
fn a_large_interface_is_generated() {
    let exports: Vec<Signature> = (0..300)
        .map(|i| signature(&format!("export{:03}", i), &[ValueKind::Int64; 3], &[ValueKind::Int64]))
        .collect();
    let hosts: Vec<Signature> = (0..300)
        .map(|i| signature(&format!("host{:03}", 299 - i), &[ValueKind::Int64; 5], &[ValueKind::Int64]))
        .collect();
    let exports = interface("main", exports);
    let imports = vec![interface("host", hosts)];
    assert!(interface_fits(&exports, &imports));
    let bytes = generate_wasm_shims(&exports, &imports).unwrap();
    let engine = Engine::default();
    let mut linker = <Linker<Vec<Call>>>::new(&engine);
    record(&mut linker);
    for i in 0..300i64 {
        linker
            .func_wrap(
                "host",
                &format!("host{:03}", i),
                move |a: i64, _b: i64, _c: i64, _d: i64, e: i64| -> i64 { a + e + i },
            )
            .unwrap();
    }
    let (mut store, instance) = instantiate(&bytes, &linker, &engine);
    let router = instance
        .get_typed_func::<(i32, i64, i64, i64, i64, i64), i64>(&store, "__invokeHostFunc")
        .unwrap();
    assert_eq!(router.call(&mut store, (0, 1, 0, 0, 0, 2)).unwrap(), 3);
    assert_eq!(router.call(&mut store, (299, 1, 0, 0, 0, 2)).unwrap(), 302);
    assert_eq!(router.call(&mut store, (300, 1, 0, 0, 0, 2)).unwrap(), 0);
    let last = instance.get_typed_func::<(i64, i64, i64), i64>(&store, "export299").unwrap();
    assert_eq!(last.call(&mut store, (7, 8, 9)).unwrap(), -6);
    assert_eq!(
        store.data().clone(),
        vec![Call::Start, Call::I64(7), Call::I64(8), Call::I64(9), Call::InvokeI64(299)]
    );
}

#[test]
fn two_host_functions_of_one_name_make_an_invalid_module() {
    let exports = interface("main", vec![]);
    let imports = vec![
        interface("first", vec![signature("f", &[ValueKind::Int32], &[])]),
        interface("second", vec![signature("f", &[ValueKind::Int64], &[])]),
    ];
    match generate_wasm_shims(&exports, &imports) {
        Err(ShimError::Invalid { diagnostic, .. }) => assert!(diagnostic.contains("__conv_f")),
        other => panic!("unexpected: {:?}", other),
    }
}
