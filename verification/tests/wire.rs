use js_pdk::callstack::CallStack;
use js_pdk::model::ValueKind;
use js_pdk::wire::{narrow, widen, ArgType};

#[test]
fn kinds_of_values() {
    assert_eq!(ArgType::I32(1).kind(), ValueKind::Int32);
    assert_eq!(ArgType::I64(1).kind(), ValueKind::Int64);
    assert_eq!(ArgType::F32(1).kind(), ValueKind::Float32);
    assert_eq!(ArgType::F64(1).kind(), ValueKind::Float64);
}

#[test]
fn a_32_bit_integer_is_the_low_half() {
    assert_eq!(narrow(ValueKind::Int32, 0x1234_5678_9abc_def0), ArgType::I32(0x9abc_def0u32 as i32));
    assert_eq!(narrow(ValueKind::Int32, 0xffff_ffff), ArgType::I32(-1));
    assert_eq!(narrow(ValueKind::Int32, 0x1_0000_0000), ArgType::I32(0));
    assert_eq!(narrow(ValueKind::Int32, 7), ArgType::I32(7));
}

#[test]
fn a_32_bit_integer_is_widened_without_its_sign() {
    assert_eq!(widen(ArgType::I32(-1)), 0xffff_ffff);
    assert_eq!(widen(ArgType::I32(i32::MIN)), 0x8000_0000);
    assert_eq!(widen(ArgType::I32(5)), 5);
}

#[test]
fn a_64_bit_integer_keeps_all_its_bits() {
    assert_eq!(narrow(ValueKind::Int64, u64::MAX), ArgType::I64(-1));
    assert_eq!(narrow(ValueKind::Int64, 0x8000_0000_0000_0000), ArgType::I64(i64::MIN));
    assert_eq!(widen(ArgType::I64(-2)), 0xffff_ffff_ffff_fffe);
    assert_eq!(widen(ArgType::I64(i64::MAX)), 0x7fff_ffff_ffff_ffff);
}

#[test]
fn floats_travel_by_their_bits() {
    let single = 1.5f32.to_bits();
    assert_eq!(widen(ArgType::F32(single)), 0x3fc0_0000);
    assert_eq!(narrow(ValueKind::Float32, 0xdead_beef_3fc0_0000), ArgType::F32(single));
    let double = (-2.25f64).to_bits();
    assert_eq!(widen(ArgType::F64(double)), 0xc002_0000_0000_0000);
    assert_eq!(narrow(ValueKind::Float64, double), ArgType::F64(double));
}

#[test]
fn every_float_comes_back_bit_for_bit() {
    let singles = [0.0f32, -0.0, 1.0, f32::MIN_POSITIVE, f32::MAX, f32::INFINITY, f32::NEG_INFINITY, f32::NAN, f32::from_bits(0x7fa0_0001), f32::from_bits(1)];
    for f in singles {
        let value = ArgType::F32(f.to_bits());
        assert_eq!(narrow(ValueKind::Float32, widen(value)), value);
    }
    let doubles = [0.0f64, -0.0, 1.0, f64::MIN_POSITIVE, f64::MAX, f64::INFINITY, f64::NAN, f64::from_bits(0x7ff4_0000_0000_0001), f64::from_bits(1)];
    for f in doubles {
        let value = ArgType::F64(f.to_bits());
        assert_eq!(narrow(ValueKind::Float64, widen(value)), value);
    }
}

#[test]
fn every_integer_comes_back() {
    for v in [0i32, 1, -1, i32::MIN, i32::MAX, 0x1234_5678] {
        assert_eq!(narrow(ValueKind::Int32, widen(ArgType::I32(v))), ArgType::I32(v));
    }
    for v in [0i64, 1, -1, i64::MIN, i64::MAX, 0x1234_5678_9abc_def0] {
        assert_eq!(narrow(ValueKind::Int64, widen(ArgType::I64(v))), ArgType::I64(v));
    }
}

#[test]
fn a_wide_integer_comes_back_from_a_narrow_value_without_its_high_half() {
    let wide = 0xaaaa_bbbb_cccc_ddddu64;
    assert_eq!(widen(narrow(ValueKind::Int32, wide)), 0xcccc_dddd);
    assert_eq!(widen(narrow(ValueKind::Float32, wide)), 0xcccc_dddd);
    assert_eq!(widen(narrow(ValueKind::Int64, wide)), wide);
    assert_eq!(widen(narrow(ValueKind::Float64, wide)), wide);
}

#[test]
fn a_call_is_opened_filled_and_taken() {
    let mut stack = CallStack::new();
    assert_eq!(stack.depth(), 0);
    stack.begin_call();
    assert_eq!(stack.depth(), 1);
    stack.push(ArgType::I32(2));
    stack.push(ArgType::I32(3));
    assert_eq!(stack.take_call(), vec![ArgType::I32(2), ArgType::I32(3)]);
    assert_eq!(stack.depth(), 0);
}

#[test]
fn a_call_without_arguments_is_empty() {
    let mut stack = CallStack::new();
    stack.begin_call();
    assert!(stack.take_call().is_empty());
}

#[test]
fn nested_calls_do_not_disturb_each_other() {
    let mut stack = CallStack::new();
    stack.begin_call();
    stack.push(ArgType::F64(1));
    stack.begin_call();
    stack.push(ArgType::I64(-5));
    stack.push(ArgType::F32(9));
    stack.begin_call();
    assert_eq!(stack.depth(), 3);
    assert!(stack.take_call().is_empty());
    stack.push(ArgType::I32(4));
    assert_eq!(stack.take_call(), vec![ArgType::I64(-5), ArgType::F32(9), ArgType::I32(4)]);
    stack.push(ArgType::I32(8));
    assert_eq!(stack.take_call(), vec![ArgType::F64(1), ArgType::I32(8)]);
    assert_eq!(stack.depth(), 0);
}
