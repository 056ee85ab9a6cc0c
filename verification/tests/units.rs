use wasminspect_vm::address::{ExecutableFuncAddr, FuncAddr, GlobalAddr, MemoryAddr, ModuleIndex, TableAddr};
use wasminspect_vm::float::is_equal_value;
use wasminspect_vm::func::{eq_func_type, FuncType};
use wasminspect_vm::global::{GlobalInstance, GlobalType};
use wasminspect_vm::inst::{
    BlockType, BrTable, FloatRelOp, InstIndex, IntBinOp, IntRelOp, IntUnOp,
};
use wasminspect_vm::memory;
use wasminspect_vm::memory::{le_decode, le_encode, MemoryInstance};
use wasminspect_vm::module::{
    find_export, DefinedModuleInstance, ExportInstance, ExternalValue, ModuleInstance,
};
use wasminspect_vm::numeric::{i32_binary, i32_rel, i32_unary, i64_binary, i64_rel, i64_unary};
use wasminspect_vm::stack;
use wasminspect_vm::stack::{CallFrame, Label, ProgramCounter, Stack, StackValue, StackValueType};
use wasminspect_vm::store::{LinkableCollection, Store};
use wasminspect_vm::table;
use wasminspect_vm::table::DefinedTableInstance;
use wasminspect_vm::value;
use wasminspect_vm::value::{to_i32, to_i64, to_u32, to_u64, NativeValue, Value, ValueType, F32, F64};

fn f32v(x: f32) -> F32 {
    F32(x.to_bits())
}

fn f64v(x: f64) -> F64 {
    F64(x.to_bits())
}

#[test]
fn value_types_and_zeros() {
    assert_eq!(Value::I32(1).value_type(), ValueType::I32);
    assert_eq!(Value::I64(1).value_type(), ValueType::I64);
    assert_eq!(Value::F32(1).value_type(), ValueType::F32);
    assert_eq!(Value::F64(1).value_type(), ValueType::F64);
    assert_eq!(Value::null_value(ValueType::I32), Value::I32(0));
    assert_eq!(Value::null_value(ValueType::I64), Value::I64(0));
    assert_eq!(Value::null_value(ValueType::F32), Value::F32(0));
    assert_eq!(Value::null_value(ValueType::F64), Value::F64(0));
}

#[test]
fn signed_and_unsigned_readings() {
    assert_eq!(to_u32(-1), u32::MAX);
    assert_eq!(to_u32(i32::MIN), 0x8000_0000);
    assert_eq!(to_u32(5), 5);
    assert_eq!(to_i32(u32::MAX), -1);
    assert_eq!(to_i32(0x8000_0000), i32::MIN);
    assert_eq!(to_u64(-1), u64::MAX);
    assert_eq!(to_u64(i64::MIN), 0x8000_0000_0000_0000);
    assert_eq!(to_i64(u64::MAX), -1);
    assert_eq!(to_i64(0x8000_0000_0000_0000), i64::MIN);
    for x in [0i32, 1, -1, i32::MIN, i32::MAX, 123456, -98765] {
        assert_eq!(to_i32(to_u32(x)), x);
        assert_eq!(to_u32(x), x as u32);
    }
    for x in [0i64, 1, -1, i64::MIN, i64::MAX, 1 << 40, -(1 << 41)] {
        assert_eq!(to_i64(to_u64(x)), x);
        assert_eq!(to_u64(x), x as u64);
    }
}

#[test]
fn native_values_match_their_type_only() {
    assert_eq!(<i32 as NativeValue>::from_value(Value::I32(-3)), Some(-3));
    assert_eq!(<i32 as NativeValue>::from_value(Value::I64(-3)), None);
    assert_eq!(<u32 as NativeValue>::from_value(Value::I32(-1)), Some(u32::MAX));
    assert_eq!(<i64 as NativeValue>::from_value(Value::I64(9)), Some(9));
    assert_eq!(<u64 as NativeValue>::from_value(Value::I64(-1)), Some(u64::MAX));
    assert_eq!(<F32 as NativeValue>::from_value(Value::F32(7)), Some(F32(7)));
    assert_eq!(<F32 as NativeValue>::from_value(Value::I32(7)), None);
    assert_eq!(<F64 as NativeValue>::from_value(Value::F64(7)), Some(F64(7)));
    assert_eq!(<u32 as NativeValue>::value_type(), ValueType::I32);
    assert_eq!(<F64 as NativeValue>::value_type(), ValueType::F64);
    assert_eq!(u32::MAX.into_value(), Value::I32(-1));
    assert_eq!(F32(3).into_value(), Value::F32(3));
}

#[test]
fn i32_arithmetic_wraps() {
    assert_eq!(i32_binary(IntBinOp::Add, i32::MAX, 1), Ok(i32::MIN));
    assert_eq!(i32_binary(IntBinOp::Add, 2, 3), Ok(5));
    assert_eq!(i32_binary(IntBinOp::Sub, i32::MIN, 1), Ok(i32::MAX));
    assert_eq!(i32_binary(IntBinOp::Mul, 0x10000, 0x10000), Ok(0));
    assert_eq!(i32_binary(IntBinOp::Mul, i32::MAX, 2), Ok(-2));
    assert_eq!(i32_binary(IntBinOp::Mul, -7, 6), Ok(-42));
}

#[test]
fn i32_division_and_remainder() {
    assert_eq!(i32_binary(IntBinOp::DivS, 7, 2), Ok(3));
    assert_eq!(i32_binary(IntBinOp::DivS, -7, 2), Ok(-3));
    assert_eq!(i32_binary(IntBinOp::DivS, 7, -2), Ok(-3));
    assert_eq!(i32_binary(IntBinOp::DivS, -7, -2), Ok(3));
    assert_eq!(i32_binary(IntBinOp::DivS, i32::MIN, -1), Err(value::Error::IntegerOverflow));
    assert_eq!(i32_binary(IntBinOp::DivS, 1, 0), Err(value::Error::IntegerDivByZero));
    assert_eq!(i32_binary(IntBinOp::DivU, -1, 2), Ok(i32::MAX));
    assert_eq!(i32_binary(IntBinOp::DivU, 1, 0), Err(value::Error::IntegerDivByZero));
    assert_eq!(i32_binary(IntBinOp::RemS, 7, 2), Ok(1));
    assert_eq!(i32_binary(IntBinOp::RemS, -7, 2), Ok(-1));
    assert_eq!(i32_binary(IntBinOp::RemS, 7, -2), Ok(1));
    assert_eq!(i32_binary(IntBinOp::RemS, i32::MIN, -1), Ok(0));
    assert_eq!(i32_binary(IntBinOp::RemS, 1, 0), Err(value::Error::IntegerDivByZero));
    assert_eq!(i32_binary(IntBinOp::RemU, -1, 10), Ok(5));
    assert_eq!(i32_binary(IntBinOp::RemU, 1, 0), Err(value::Error::IntegerDivByZero));
}

#[test]
fn i32_bits_shifts_and_rotations() {
    assert_eq!(i32_binary(IntBinOp::And, 0b1100, 0b1010), Ok(0b1000));
    assert_eq!(i32_binary(IntBinOp::Or, 0b1100, 0b1010), Ok(0b1110));
    assert_eq!(i32_binary(IntBinOp::Xor, 0b1100, 0b1010), Ok(0b0110));
    assert_eq!(i32_binary(IntBinOp::And, -1, i32::MIN), Ok(i32::MIN));
    assert_eq!(i32_binary(IntBinOp::Shl, 1, 31), Ok(i32::MIN));
    assert_eq!(i32_binary(IntBinOp::Shl, 1, 32), Ok(1));
    assert_eq!(i32_binary(IntBinOp::Shl, 1, 33), Ok(2));
    assert_eq!(i32_binary(IntBinOp::Shl, 1, -1), Ok(i32::MIN));
    assert_eq!(i32_binary(IntBinOp::ShrS, -8, 1), Ok(-4));
    assert_eq!(i32_binary(IntBinOp::ShrS, -8, 33), Ok(-4));
    assert_eq!(i32_binary(IntBinOp::ShrU, -8, 1), Ok(0x7FFF_FFFC));
    assert_eq!(i32_binary(IntBinOp::ShrU, -1, 32), Ok(-1));
    assert_eq!(i32_binary(IntBinOp::Rotl, 0x4000_0001, 1), Ok(0x8000_0002_u32 as i32));
    assert_eq!(i32_binary(IntBinOp::Rotl, 0x4000_0001, 33), Ok(0x8000_0002_u32 as i32));
    assert_eq!(i32_binary(IntBinOp::Rotl, 5, 0), Ok(5));
    assert_eq!(i32_binary(IntBinOp::Rotl, 5, 32), Ok(5));
    assert_eq!(i32_binary(IntBinOp::Rotr, 1, 1), Ok(i32::MIN));
    assert_eq!(i32_binary(IntBinOp::Rotr, 0x12345678, 8), Ok(0x78123456));
    for (a, n) in [(0x12345678i32, 5i32), (-1, 17), (i32::MIN, 31), (0, 3), (77, -5)] {
        assert_eq!(i32_binary(IntBinOp::Rotl, a, n), Ok(a.rotate_left(n as u32)));
        assert_eq!(i32_binary(IntBinOp::Rotr, a, n), Ok(a.rotate_right(n as u32)));
        assert_eq!(i32_binary(IntBinOp::Shl, a, n), Ok(a.wrapping_shl(n as u32)));
        assert_eq!(i32_binary(IntBinOp::ShrS, a, n), Ok(a.wrapping_shr(n as u32)));
        assert_eq!(i32_binary(IntBinOp::ShrU, a, n), Ok((a as u32).wrapping_shr(n as u32) as i32));
    }
}

#[test]
fn i32_counts() {
    assert_eq!(i32_unary(IntUnOp::Clz, 0), 32);
    assert_eq!(i32_unary(IntUnOp::Clz, 1), 31);
    assert_eq!(i32_unary(IntUnOp::Clz, -1), 0);
    assert_eq!(i32_unary(IntUnOp::Ctz, 0), 32);
    assert_eq!(i32_unary(IntUnOp::Ctz, 8), 3);
    assert_eq!(i32_unary(IntUnOp::Ctz, i32::MIN), 31);
    assert_eq!(i32_unary(IntUnOp::Popcnt, 0), 0);
    assert_eq!(i32_unary(IntUnOp::Popcnt, -1), 32);
    assert_eq!(i32_unary(IntUnOp::Popcnt, 0b1011), 3);
}

#[test]
fn i32_comparisons() {
    assert!(i32_rel(IntRelOp::Eq, 3, 3));
    assert!(i32_rel(IntRelOp::Ne, 3, 4));
    assert!(i32_rel(IntRelOp::LtS, -1, 1));
    assert!(!i32_rel(IntRelOp::LtU, -1, 1));
    assert!(i32_rel(IntRelOp::GtU, -1, 1));
    assert!(!i32_rel(IntRelOp::GtS, -1, 1));
    assert!(i32_rel(IntRelOp::LeS, 2, 2));
    assert!(i32_rel(IntRelOp::LeU, 1, -1));
    assert!(i32_rel(IntRelOp::GeS, 2, 2));
    assert!(i32_rel(IntRelOp::GeU, -1, i32::MAX));
}

#[test]
fn i64_arithmetic() {
    assert_eq!(i64_binary(IntBinOp::Add, i64::MAX, 1), Ok(i64::MIN));
    assert_eq!(i64_binary(IntBinOp::Sub, i64::MIN, 1), Ok(i64::MAX));
    assert_eq!(i64_binary(IntBinOp::Mul, 1 << 32, 1 << 32), Ok(0));
    assert_eq!(i64_binary(IntBinOp::Mul, 3_000_000_000, 3), Ok(9_000_000_000));
    assert_eq!(i64_binary(IntBinOp::DivS, i64::MIN, -1), Err(value::Error::IntegerOverflow));
    assert_eq!(i64_binary(IntBinOp::DivS, -9, 2), Ok(-4));
    assert_eq!(i64_binary(IntBinOp::DivS, 9, 0), Err(value::Error::IntegerDivByZero));
    assert_eq!(i64_binary(IntBinOp::DivU, -1, 2), Ok(i64::MAX));
    assert_eq!(i64_binary(IntBinOp::DivU, 9, 0), Err(value::Error::IntegerDivByZero));
    assert_eq!(i64_binary(IntBinOp::RemS, -9, 2), Ok(-1));
    assert_eq!(i64_binary(IntBinOp::RemS, i64::MIN, -1), Ok(0));
    assert_eq!(i64_binary(IntBinOp::RemS, 9, 0), Err(value::Error::IntegerDivByZero));
    assert_eq!(i64_binary(IntBinOp::RemU, -1, 10), Ok(5));
    assert_eq!(i64_binary(IntBinOp::RemU, 9, 0), Err(value::Error::IntegerDivByZero));
    assert_eq!(i64_binary(IntBinOp::Shl, 1, 64), Ok(1));
    assert_eq!(i64_binary(IntBinOp::Shl, 1, 63), Ok(i64::MIN));
    assert_eq!(i64_binary(IntBinOp::ShrS, -8, 65), Ok(-4));
    assert_eq!(i64_binary(IntBinOp::ShrU, -1, 60), Ok(15));
    assert_eq!(i64_binary(IntBinOp::Rotl, 1, 64), Ok(1));
    assert_eq!(i64_binary(IntBinOp::Rotr, 1, 1), Ok(i64::MIN));
    assert_eq!(i64_binary(IntBinOp::Xor, -1, 1), Ok(-2));
    for (a, n) in [(0x1234_5678_9abc_def0i64, 5i64), (-1, 17), (i64::MIN, 63), (77, -5)] {
        assert_eq!(i64_binary(IntBinOp::Rotl, a, n), Ok(a.rotate_left(n as u32)));
        assert_eq!(i64_binary(IntBinOp::Rotr, a, n), Ok(a.rotate_right(n as u32)));
        assert_eq!(i64_binary(IntBinOp::Shl, a, n), Ok(a.wrapping_shl(n as u32)));
        assert_eq!(i64_binary(IntBinOp::ShrS, a, n), Ok(a.wrapping_shr(n as u32)));
    }
    assert_eq!(i64_unary(IntUnOp::Clz, 0), 64);
    assert_eq!(i64_unary(IntUnOp::Clz, 1), 63);
    assert_eq!(i64_unary(IntUnOp::Ctz, 0), 64);
    assert_eq!(i64_unary(IntUnOp::Ctz, 1 << 40), 40);
    assert_eq!(i64_unary(IntUnOp::Popcnt, -1), 64);
    assert!(i64_rel(IntRelOp::LtU, 1, -1));
    assert!(i64_rel(IntRelOp::LtS, -1, 1));
    assert!(i64_rel(IntRelOp::GeU, -1, 1));
}

#[test]
fn float_order_on_bit_patterns() {
    let nan = f32v(f32::NAN);
    let cases = [
        (1.0f32, 2.0f32),
        (-1.0, 1.0),
        (-2.0, -1.0),
        (0.0, -0.0),
        (-0.0, 0.0),
        (f32::INFINITY, 1.0),
        (f32::NEG_INFINITY, f32::MIN),
        (1.5, 1.5),
        (f32::MIN_POSITIVE, 0.0),
    ];
    for (a, b) in cases {
        assert_eq!(F32::rel(FloatRelOp::Eq, f32v(a), f32v(b)), a == b, "{} == {}", a, b);
        assert_eq!(F32::rel(FloatRelOp::Ne, f32v(a), f32v(b)), a != b);
        assert_eq!(F32::rel(FloatRelOp::Lt, f32v(a), f32v(b)), a < b, "{} < {}", a, b);
        assert_eq!(F32::rel(FloatRelOp::Gt, f32v(a), f32v(b)), a > b);
        assert_eq!(F32::rel(FloatRelOp::Le, f32v(a), f32v(b)), a <= b);
        assert_eq!(F32::rel(FloatRelOp::Ge, f32v(a), f32v(b)), a >= b);
        let (x, y) = (a as f64, b as f64);
        assert_eq!(F64::rel(FloatRelOp::Eq, f64v(x), f64v(y)), x == y);
        assert_eq!(F64::rel(FloatRelOp::Lt, f64v(x), f64v(y)), x < y);
        assert_eq!(F64::rel(FloatRelOp::Ge, f64v(x), f64v(y)), x >= y);
    }
    for op in [FloatRelOp::Eq, FloatRelOp::Lt, FloatRelOp::Gt, FloatRelOp::Le, FloatRelOp::Ge] {
        assert!(!F32::rel(op, nan, f32v(1.0)));
        assert!(!F32::rel(op, f32v(1.0), nan));
        assert!(!F32::rel(op, nan, nan));
        assert!(!F64::rel(op, f64v(f64::NAN), f64v(1.0)));
    }
    assert!(F32::rel(FloatRelOp::Ne, nan, nan));
    assert!(F64::rel(FloatRelOp::Ne, f64v(f64::NAN), f64v(1.0)));
}

#[test]
fn float_min_and_max_propagate_nan() {
    let nan = f32v(f32::NAN);
    assert!(F32::min(nan, f32v(1.0)).is_nan());
    assert!(F32::max(f32v(1.0), nan).is_nan());
    assert!(F32::min(f32v(1.0), nan).is_nan());
    assert!(F32::max(nan, f32v(1.0)).is_nan());
    assert!(F64::min(f64v(f64::NAN), f64v(1.0)).is_nan());
    assert!(F64::max(f64v(1.0), f64v(f64::NAN)).is_nan());
    assert_eq!(F32::min(f32v(1.0), f32v(2.0)), f32v(1.0));
    assert_eq!(F32::max(f32v(1.0), f32v(2.0)), f32v(2.0));
    assert_eq!(F32::min(f32v(-1.0), f32v(-2.0)), f32v(-2.0));
    assert_eq!(F32::min(f32v(0.0), f32v(-0.0)), f32v(-0.0));
    assert_eq!(F32::min(f32v(-0.0), f32v(0.0)), f32v(-0.0));
    assert_eq!(F32::max(f32v(0.0), f32v(-0.0)), f32v(0.0));
    assert_eq!(F32::max(f32v(-0.0), f32v(0.0)), f32v(0.0));
    assert_eq!(F64::min(f64v(0.0), f64v(-0.0)), f64v(-0.0));
    assert_eq!(F64::max(f64v(-0.0), f64v(0.0)), f64v(0.0));
    assert_eq!(F64::max(f64v(f64::NEG_INFINITY), f64v(-1e300)), f64v(-1e300));
}

#[test]
fn float_sign_operations() {
    assert_eq!(f32v(-1.5).abs(), f32v(1.5));
    assert_eq!(f32v(1.5).abs(), f32v(1.5));
    assert_eq!(f32v(1.5).neg(), f32v(-1.5));
    assert_eq!(f32v(-1.5).neg(), f32v(1.5));
    assert_eq!(f32v(0.0).neg(), f32v(-0.0));
    assert_eq!(F32::copysign(f32v(2.0), f32v(-0.0)), f32v(-2.0));
    assert_eq!(F32::copysign(f32v(-2.0), f32v(3.0)), f32v(2.0));
    assert_eq!(F32::copysign(f32v(-2.0), f32v(-3.0)), f32v(-2.0));
    assert_eq!(f64v(-1.5).abs(), f64v(1.5));
    assert_eq!(f64v(1.5).neg(), f64v(-1.5));
    assert_eq!(F64::copysign(f64v(2.0), f64v(-1.0)), f64v(-2.0));
    assert_eq!(F64::copysign(f64v(-2.0), f64v(1.0)), f64v(2.0));
    // the payload of a NaN survives
    let nan = F32(0x7fc0_1234);
    assert_eq!(nan.neg(), F32(0xffc0_1234));
    assert_eq!(nan.neg().abs(), nan);
    assert!(f32v(-1.0).is_sign_negative());
    assert!(!f32v(1.0).is_sign_negative());
    assert!(!f32v(f32::INFINITY).is_nan());
    assert!(f64v(f64::NAN).is_nan());
}

#[test]
fn float_truncation_to_integers() {
    let invalid = value::Error::InvalidConversionToInt;
    assert_eq!(f32v(0.0).trunc_to_i32(), Ok(0));
    assert_eq!(f32v(-0.0).trunc_to_i32(), Ok(0));
    assert_eq!(f32v(1.9).trunc_to_i32(), Ok(1));
    assert_eq!(f32v(-1.9).trunc_to_i32(), Ok(-1));
    assert_eq!(f32v(0.99).trunc_to_i32(), Ok(0));
    assert_eq!(f32v(1e-40).trunc_to_i32(), Ok(0));
    assert_eq!(f32v(16777216.0).trunc_to_i32(), Ok(16777216));
    assert_eq!(f32v(2147483520.0).trunc_to_i32(), Ok(2147483520));
    assert_eq!(f32v(2147483648.0).trunc_to_i32(), Err(invalid));
    assert_eq!(f32v(-2147483648.0).trunc_to_i32(), Ok(i32::MIN));
    assert_eq!(f32v(-2147483904.0).trunc_to_i32(), Err(invalid));
    assert_eq!(f32v(f32::NAN).trunc_to_i32(), Err(invalid));
    assert_eq!(f32v(f32::INFINITY).trunc_to_i32(), Err(invalid));
    assert_eq!(f32v(f32::NEG_INFINITY).trunc_to_i32(), Err(invalid));
    assert_eq!(f32v(-0.9).trunc_to_u32(), Ok(0));
    assert_eq!(f32v(-1.0).trunc_to_u32(), Err(invalid));
    assert_eq!(f32v(4294967040.0).trunc_to_u32(), Ok(4294967040));
    assert_eq!(f32v(4294967296.0).trunc_to_u32(), Err(invalid));
    assert_eq!(f32v(9223371487098961920.0).trunc_to_i64(), Ok(9223371487098961920));
    assert_eq!(f32v(9223372036854775808.0).trunc_to_i64(), Err(invalid));
    assert_eq!(f32v(-9223372036854775808.0).trunc_to_i64(), Ok(i64::MIN));
    assert_eq!(f32v(18446742974197923840.0).trunc_to_u64(), Ok(18446742974197923840));
    assert_eq!(f32v(18446744073709551616.0).trunc_to_u64(), Err(invalid));
    assert_eq!(f32v(1e30).trunc_to_u64(), Err(invalid));

    assert_eq!(f64v(2147483647.9).trunc_to_i32(), Ok(i32::MAX));
    assert_eq!(f64v(2147483648.0).trunc_to_i32(), Err(invalid));
    assert_eq!(f64v(-2147483648.9).trunc_to_i32(), Ok(i32::MIN));
    assert_eq!(f64v(-2147483649.0).trunc_to_i32(), Err(invalid));
    assert_eq!(f64v(4294967295.5).trunc_to_u32(), Ok(u32::MAX));
    assert_eq!(f64v(4294967296.0).trunc_to_u32(), Err(invalid));
    assert_eq!(f64v(-0.5).trunc_to_u32(), Ok(0));
    assert_eq!(f64v(-1.0).trunc_to_u64(), Err(invalid));
    assert_eq!(f64v(9223372036854774784.0).trunc_to_i64(), Ok(9223372036854774784));
    assert_eq!(f64v(9223372036854775808.0).trunc_to_i64(), Err(invalid));
    assert_eq!(f64v(-9223372036854775808.0).trunc_to_i64(), Ok(i64::MIN));
    assert_eq!(f64v(18446744073709549568.0).trunc_to_u64(), Ok(18446744073709549568));
    assert_eq!(f64v(18446744073709551616.0).trunc_to_u64(), Err(invalid));
    assert_eq!(f64v(f64::NAN).trunc_to_u64(), Err(invalid));
    assert_eq!(f64v(f64::INFINITY).trunc_to_i64(), Err(invalid));
    assert_eq!(f64v(5e-324).trunc_to_i64(), Ok(0));
    assert_eq!(f64v(123456789.987).trunc_to_i64(), Ok(123456789));
    for x in [0.5f64, 1.0, 1.5, 2.5, 1e9, 123.456, 1e15, 4e18] {
        assert_eq!(f64v(x).trunc_to_i64(), Ok(x as i64));
        assert_eq!(f64v(-x).trunc_to_i64(), Ok(-x as i64));
        assert_eq!(f64v(x).trunc_to_u64(), Ok(x as u64));
    }
}

#[test]
fn values_compare_equal_with_nan_matching_nan() {
    assert!(is_equal_value(Value::I32(3), Value::I32(3)));
    assert!(!is_equal_value(Value::I32(3), Value::I32(4)));
    assert!(!is_equal_value(Value::I32(3), Value::I64(3)));
    assert!(is_equal_value(Value::I64(-1), Value::I64(-1)));
    assert!(is_equal_value(Value::F32(f32::NAN.to_bits()), Value::F32(0x7fc0_0001)));
    assert!(is_equal_value(Value::F32(0.0f32.to_bits()), Value::F32((-0.0f32).to_bits())));
    assert!(!is_equal_value(Value::F32(1.0f32.to_bits()), Value::F32(f32::NAN.to_bits())));
    assert!(!is_equal_value(Value::F32(1.0f32.to_bits()), Value::F32(2.0f32.to_bits())));
    assert!(is_equal_value(Value::F64(f64::NAN.to_bits()), Value::F64(f64::NAN.to_bits())));
    assert!(is_equal_value(Value::F64(2.5f64.to_bits()), Value::F64(2.5f64.to_bits())));
    assert!(!is_equal_value(Value::F64(2.5f64.to_bits()), Value::F32(2.5f32.to_bits())));
}

#[test]
fn little_endian_bytes() {
    assert_eq!(le_encode(0xDEADBEEF, 4), vec![0xEF, 0xBE, 0xAD, 0xDE]);
    assert_eq!(le_encode(0xDEADBEEF, 2), vec![0xEF, 0xBE]);
    assert_eq!(le_encode(0xDEADBEEF, 1), vec![0xEF]);
    assert_eq!(le_encode(0x0102030405060708, 8), vec![8, 7, 6, 5, 4, 3, 2, 1]);
    assert_eq!(le_encode(1, 0), Vec::<u8>::new());
    let data = vec![0x10, 0xEF, 0xBE, 0xAD, 0xDE, 0x20];
    assert_eq!(le_decode(&data, 1, 4), 0xDEADBEEF);
    assert_eq!(le_decode(&data, 1, 2), 0xBEEF);
    assert_eq!(le_decode(&data, 0, 1), 0x10);
    assert_eq!(le_decode(&data, 0, 0), 0);
    for v in [0u64, 1, 0xFF, 0x1234, u32::MAX as u64, u64::MAX, 0x8000_0000_0000_0000] {
        assert_eq!(le_decode(&le_encode(v, 8), 0, 8), v);
        assert_eq!(le_encode(v, 8), v.to_le_bytes().to_vec());
        assert_eq!(le_decode(&le_encode(v, 4), 0, 4), v & 0xFFFF_FFFF);
    }
}

#[test]
fn memory_is_paged_and_bounded() {
    let mut mem = MemoryInstance::new(1, Some(3));
    assert_eq!(mem.data_len(), 65536);
    assert_eq!(mem.page_count(), 1);
    assert_eq!(mem.max(), Some(3));
    assert_eq!(mem.load(0, 4), Ok(vec![0, 0, 0, 0]));
    assert_eq!(mem.store(65532, &[1, 2, 3, 4]), Ok(()));
    assert_eq!(mem.load(65532, 4), Ok(vec![1, 2, 3, 4]));
    assert_eq!(mem.load_le(65532, 4), Ok(0x04030201));
    assert_eq!(mem.load_le(65534, 2), Ok(0x0403));
    assert_eq!(mem.store(65533, &[9, 9, 9, 9]), Err(memory::Error::OutOfBounds(Some(65537), 65536)));
    assert_eq!(mem.load(65532, 4), Ok(vec![1, 2, 3, 4]));
    assert_eq!(mem.load(65533, 4), Err(memory::Error::OutOfBounds(Some(65537), 65536)));
    assert_eq!(mem.load_le(65536, 1), Err(memory::Error::OutOfBounds(Some(65537), 65536)));
    assert_eq!(mem.load(usize::MAX, 2), Err(memory::Error::OutOfBounds(None, 65536)));
    assert_eq!(mem.validate_region(65536, 0), Ok(()));
    assert_eq!(mem.validate_region(0, 65536), Ok(()));
    assert_eq!(mem.validate_region(1, 65536), Err(memory::Error::OutOfBounds(Some(65537), 65536)));
    assert_eq!(mem.store(65536, &[]), Ok(()));

    assert_eq!(mem.grow(2), Ok(()));
    assert_eq!(mem.page_count(), 3);
    assert_eq!(mem.data_len(), 3 * 65536);
    assert_eq!(mem.load(65532, 8), Ok(vec![1, 2, 3, 4, 0, 0, 0, 0]));
    assert_eq!(mem.load(3 * 65536 - 1, 1), Ok(vec![0]));
    assert_eq!(mem.grow(1), Err(memory::Error::GrowError { pages: 4, limit: 3 }));
    assert_eq!(mem.page_count(), 3);
    assert_eq!(mem.grow(0), Ok(()));
    assert_eq!(mem.page_count(), 3);

    let mut unbounded = MemoryInstance::new(0, None);
    assert_eq!(unbounded.page_count(), 0);
    assert_eq!(unbounded.load(0, 1), Err(memory::Error::OutOfBounds(Some(1), 0)));
    assert_eq!(unbounded.grow(65537), Err(memory::Error::GrowError { pages: 65537, limit: 65536 }));
    assert_eq!(unbounded.grow(usize::MAX), Err(memory::Error::GrowError { pages: usize::MAX, limit: 65536 }));
    assert_eq!(unbounded.grow(2), Ok(()));
    assert_eq!(unbounded.page_count(), 2);
}

#[test]
fn table_slots() {
    let m = ModuleIndex(1);
    let mut t = DefinedTableInstance::new(3, Some(10));
    assert_eq!(t.buffer_len(), 3);
    assert_eq!(t.get_at(0), Err(table::Error::UninitializedElement(0)));
    assert_eq!(t.get_at(3), Err(table::Error::AccessOutOfBounds(Some(3), 3)));
    assert_eq!(t.initialize(1, vec![FuncAddr(m, 7), FuncAddr(m, 8)]), Ok(()));
    assert_eq!(t.get_at(0), Err(table::Error::UninitializedElement(0)));
    assert_eq!(t.get_at(1), Ok(FuncAddr(m, 7)));
    assert_eq!(t.get_at(2), Ok(FuncAddr(m, 8)));
    assert_eq!(
        t.initialize(2, vec![FuncAddr(m, 1), FuncAddr(m, 2)]),
        Err(table::Error::AccessOutOfBounds(Some(4), 3))
    );
    assert_eq!(t.get_at(2), Ok(FuncAddr(m, 8)));
    assert_eq!(
        t.initialize(usize::MAX, vec![FuncAddr(m, 1)]),
        Err(table::Error::AccessOutOfBounds(None, 3))
    );
    assert_eq!(t.initialize(3, vec![]), Ok(()));
    assert_eq!(t.initialize(0, vec![FuncAddr(m, 5)]), Ok(()));
    assert_eq!(t.get_at(0), Ok(FuncAddr(m, 5)));
    assert_eq!(t.buffer_len(), 3);
    let empty = DefinedTableInstance::new(0, None);
    assert_eq!(empty.buffer_len(), 0);
    assert_eq!(empty.get_at(0), Err(table::Error::AccessOutOfBounds(Some(0), 0)));
}

fn frame(module: u32, locals: Vec<Value>) -> CallFrame {
    CallFrame::new(ModuleIndex(module), ExecutableFuncAddr(0), locals, None)
}

#[test]
fn stack_values_and_labels() {
    let mut s = Stack::default();
    assert_eq!(s.len(), 0);
    assert_eq!(s.pop_value(), Err(stack::Error::Underflow));
    assert_eq!(s.pop_label(), Err(stack::Error::Underflow));
    assert!(s.is_over_top_level());
    assert!(matches!(s.current_frame(), Err(stack::Error::NoCallFrame)));
    assert!(matches!(s.current_frame_labels(), Err(stack::Error::NoCallFrame)));
    assert!(matches!(s.is_func_top_level(), Err(stack::Error::NoCallFrame)));
    assert!(matches!(s.pop_frame(), Err(stack::Error::NoCallFrame)));
    assert_eq!(s.set_local(0, Value::I32(1)), Err(stack::Error::NoCallFrame));

    s.set_frame(frame(1, vec![Value::I32(10), Value::I64(20)]));
    assert!(!s.is_over_top_level());
    s.push_label(Label::Return(1));
    assert_eq!(s.is_func_top_level(), Ok(true));
    s.push_value(Value::I32(1));
    s.push_label(Label::Block(0));
    s.push_value(Value::I32(2));
    s.push_value(Value::I32(3));
    assert_eq!(s.len(), 6);
    assert_eq!(s.latest_type(), Some(StackValueType::Value));
    assert_eq!(s.is_func_top_level(), Ok(false));
    assert_eq!(s.current_frame_labels().unwrap(), vec![Label::Return(1), Label::Block(0)]);
    assert_eq!(
        s.pop_label(),
        Err(stack::Error::TypeMismatch {
            expected: StackValueType::Label,
            actual: StackValueType::Value
        })
    );
    assert_eq!(s.len(), 6);

    assert_eq!(s.current_frame().unwrap().local(1), Ok(Value::I64(20)));
    assert_eq!(s.current_frame().unwrap().local(2), Err(stack::Error::UndefinedLocal(2)));
    assert_eq!(s.set_local(0, Value::I32(99)), Ok(()));
    assert_eq!(s.set_local(2, Value::I32(99)), Err(stack::Error::UndefinedLocal(2)));
    assert_eq!(s.current_frame().unwrap().local(0), Ok(Value::I32(99)));
    assert_eq!(s.len(), 6);

    let popped = s.pop_while(|e| matches!(e, StackValue::Value(_)));
    assert_eq!(popped.len(), 2);
    assert!(matches!(popped[0], StackValue::Value(Value::I32(3))));
    assert!(matches!(popped[1], StackValue::Value(Value::I32(2))));
    assert_eq!(popped[0].as_value(), Ok(Value::I32(3)));
    assert_eq!(
        s.pop_value(),
        Err(stack::Error::TypeMismatch {
            expected: StackValueType::Value,
            actual: StackValueType::Label
        })
    );
    assert_eq!(s.pop_label(), Ok(Label::Block(0)));
    assert_eq!(s.pop_value(), Ok(Value::I32(1)));
    assert_eq!(s.pop_label(), Ok(Label::Return(1)));
    assert_eq!(
        s.pop_value(),
        Err(stack::Error::TypeMismatch {
            expected: StackValueType::Value,
            actual: StackValueType::Activation
        })
    );
    let f = s.pop_frame().unwrap();
    assert_eq!(f.locals, vec![Value::I32(99), Value::I64(20)]);
    assert!(s.is_over_top_level());
    assert_eq!(s.len(), 0);
}

#[test]
fn stack_frames_nest() {
    let mut s = Stack::default();
    s.push_value(Value::I32(0));
    s.set_frame(frame(1, vec![]));
    s.push_label(Label::Return(0));
    s.push_value(Value::I32(1));
    s.set_frame(frame(2, vec![Value::I32(5)]));
    s.push_label(Label::Return(0));
    s.push_label(Label::Loop(stack::LoopLabel { inst_index: InstIndex(4) }));
    s.push_value(Value::I32(2));
    assert_eq!(s.current_frame().unwrap().module_index(), ModuleIndex(2));
    assert_eq!(s.current_frame_labels().unwrap().len(), 2);
    // removing the frame takes all that is above it along
    let f = s.pop_frame().unwrap();
    assert_eq!(f.module_index(), ModuleIndex(2));
    assert_eq!(s.len(), 4);
    assert_eq!(s.current_frame().unwrap().module_index(), ModuleIndex(1));
    assert_eq!(s.is_func_top_level(), Ok(true));
    assert_eq!(s.pop_value(), Ok(Value::I32(1)));
    let everything = s.pop_while(|_| true);
    assert_eq!(everything.len(), 3);
    assert_eq!(s.len(), 0);
    let nothing = s.pop_while(|_| true);
    assert_eq!(nothing.len(), 0);
}

#[test]
fn labels_and_block_types() {
    assert_eq!(Label::Block(1).arity(), 1);
    assert_eq!(Label::If(0).arity(), 0);
    assert_eq!(Label::Return(2).arity(), 2);
    assert_eq!(Label::new_loop(InstIndex(3)).arity(), 0);
    assert_eq!(BlockType::Empty.arity(), 0);
    assert_eq!(BlockType::Value(ValueType::F64).arity(), 1);
    assert_eq!(BlockType::FuncType(3).arity(), 1);
    let mut pc = ProgramCounter::new(ModuleIndex(1), ExecutableFuncAddr(2), InstIndex::zero());
    pc.inc_inst_index();
    assert_eq!(pc.inst_index(), InstIndex(1));
    pc.loop_jump(&stack::LoopLabel { inst_index: InstIndex(9) });
    assert_eq!(pc.inst_index(), InstIndex(9));
    assert_eq!(pc.exec_addr(), ExecutableFuncAddr(2));
    assert_eq!(pc.module_index(), ModuleIndex(1));
}

#[test]
fn br_table_target() {
    let t = BrTable { table: vec![1, 2, 3], default: 0 };
    assert_eq!(t.target(0), 1);
    assert_eq!(t.target(1), 2);
    assert_eq!(t.target(2), 3);
    assert_eq!(t.target(3), 0);
    assert_eq!(t.target(u32::MAX), 0);
    let empty = BrTable { table: vec![], default: 7 };
    assert_eq!(empty.target(0), 7);
}

#[test]
fn function_types_compare_by_content() {
    let a = FuncType { params: vec![ValueType::I32], returns: vec![ValueType::I64] };
    let b = FuncType { params: vec![ValueType::I32], returns: vec![ValueType::I64] };
    let c = FuncType { params: vec![ValueType::I32], returns: vec![] };
    let d = FuncType { params: vec![ValueType::I64], returns: vec![ValueType::I64] };
    assert!(eq_func_type(&a, &b));
    assert!(eq_func_type(&a, &a.clone()));
    assert!(!eq_func_type(&a, &c));
    assert!(!eq_func_type(&a, &d));
}

#[test]
fn globals_keep_their_type() {
    let mut g = GlobalInstance::new(
        Value::I64(1),
        GlobalType { content_type: ValueType::I64, mutable: true },
    );
    assert!(g.is_mutable());
    assert_eq!(g.set_value(Value::I64(5)), Ok(()));
    assert_eq!(g.value(), Value::I64(5));
    assert_eq!(
        g.set_value(Value::I32(5)),
        Err(wasminspect_vm::global::Error::TypeMismatch { expected: ValueType::I64, actual: ValueType::I32 })
    );
    assert_eq!(g.value(), Value::I64(5));
    let mut c = GlobalInstance::new(
        Value::F32(0),
        GlobalType { content_type: ValueType::F32, mutable: false },
    );
    assert_eq!(c.set_value(Value::F32(1)), Err(wasminspect_vm::global::Error::Immutable));
    assert_eq!(c.value(), Value::F32(0));
    assert_eq!(c.ty(), GlobalType { content_type: ValueType::F32, mutable: false });
}

#[test]
fn collection_resolves_through_modules() {
    let mut c: LinkableCollection<u8> = LinkableCollection::new();
    let m1 = ModuleIndex(1);
    let m2 = ModuleIndex(2);
    assert_eq!(c.push(m1, 10), Some(0));
    assert_eq!(c.push(m1, 11), Some(1));
    let slot = c.push_global(12);
    assert_eq!(slot, 2);
    // module 2 imports what module 1 defined first, then defines its own
    assert_eq!(c.link(0, m2), Some(0));
    assert_eq!(c.link(slot, m2), Some(1));
    assert_eq!(c.push(m2, 13), Some(2));
    assert_eq!(c.resolve(m1, 0), Some(0));
    assert_eq!(c.resolve(m1, 1), Some(1));
    assert_eq!(c.resolve(m1, 2), None);
    assert_eq!(c.resolve(m2, 0), Some(0));
    assert_eq!(c.resolve(m2, 1), Some(2));
    assert_eq!(c.resolve(m2, 2), Some(3));
    assert_eq!(c.resolve(ModuleIndex(0), 0), None);
    assert_eq!(c.resolve(ModuleIndex(3), 0), None);
    assert_eq!(c.get(m2, 2), Some((&13, 3)));
    assert_eq!(c.get(m2, 0), Some((&10, 0)));
    assert_eq!(c.get_global(2), Some(&12));
    assert_eq!(c.get_global(4), None);
    assert_eq!(c.link(0, ModuleIndex(0)), None);
    assert_eq!(c.push(ModuleIndex(0), 1), None);
    // a module without a row gets one, and those before it empty ones
    assert_eq!(c.link(9, ModuleIndex(5)), Some(0));
    assert_eq!(c.resolve(ModuleIndex(5), 0), None);
    assert_eq!(c.resolve(ModuleIndex(4), 0), None);
}

#[derive(Clone)]
struct NoHost;

impl wasminspect_vm::host::HostFuncBody for NoHost {
    fn call(
        &self,
        _args: &[Value],
        _results: &mut Vec<Value>,
        _store: &mut Store<Self>,
        _module_index: ModuleIndex,
    ) -> Result<(), wasminspect_vm::host::HostError> {
        Err(wasminspect_vm::host::HostError)
    }
}

#[test]
fn store_addresses_and_names() {
    let mut store: Store<NoHost> = Store::new();
    assert_eq!(store.next_module_index(), Some(ModuleIndex(1)));
    assert!(store.module(ModuleIndex(1)).is_none());
    assert!(store.module(ModuleIndex(0)).is_none());
    let m = ModuleIndex(1);
    store.mems.push(m, MemoryInstance::new(1, None));
    store.tables.push(m, DefinedTableInstance::new(1, None));
    store.globals.push(
        m,
        GlobalInstance::new(Value::I32(3), GlobalType { content_type: ValueType::I32, mutable: false }),
    );
    assert!(store.memory(MemoryAddr(m, 0)).is_some());
    assert!(store.memory(MemoryAddr(m, 1)).is_none());
    assert!(store.table(TableAddr(m, 0)).is_some());
    assert!(store.table(TableAddr(ModuleIndex(2), 0)).is_none());
    assert_eq!(store.global(GlobalAddr(m, 0)).unwrap().value(), Value::I32(3));
    assert!(store.func(FuncAddr(m, 0)).is_none());
    assert!(store.func_global(ExecutableFuncAddr(0)).is_none());
    let first = store.add_module(
        Some("first".to_string()),
        ModuleInstance::Defined(DefinedModuleInstance::new(vec![])),
    );
    assert_eq!(first, Some(m));
    let second = store.add_module(None, ModuleInstance::Defined(DefinedModuleInstance::new(vec![])));
    assert_eq!(second, Some(ModuleIndex(2)));
    let third = store.add_module(
        Some("first".to_string()),
        ModuleInstance::Defined(DefinedModuleInstance::new(vec![])),
    );
    assert_eq!(third, Some(ModuleIndex(3)));
    assert_eq!(store.module_by_name(&"first".to_string()), Some(m));
    assert_eq!(store.module_by_name(&"second".to_string()), None);
    assert!(store.module(ModuleIndex(3)).is_some());
    assert!(store.module(ModuleIndex(4)).is_none());
}

#[test]
fn exports_are_found_by_name() {
    let m = ModuleIndex(1);
    let exports = vec![
        ExportInstance { name: "f".to_string(), value: ExternalValue::Func(FuncAddr(m, 0)) },
        ExportInstance { name: "mem".to_string(), value: ExternalValue::Memory(MemoryAddr(m, 0)) },
        ExportInstance { name: "f".to_string(), value: ExternalValue::Func(FuncAddr(m, 9)) },
        ExportInstance { name: "g".to_string(), value: ExternalValue::Global(GlobalAddr(m, 2)) },
        ExportInstance { name: "t".to_string(), value: ExternalValue::Table(TableAddr(m, 1)) },
    ];
    assert_eq!(find_export(&exports, &"f".to_string()), Some(ExternalValue::Func(FuncAddr(m, 0))));
    assert_eq!(find_export(&exports, &"nope".to_string()), None);
    let module = DefinedModuleInstance { types: vec![], exports, start_func: Some(FuncAddr(m, 4)) };
    assert_eq!(module.exported_func(&"f".to_string()), Ok(Some(FuncAddr(m, 0))));
    assert_eq!(module.exported_func(&"nope".to_string()), Ok(None));
    assert_eq!(
        module.exported_func(&"mem".to_string()),
        Err(wasminspect_vm::module::Error::TypeMismatch(ExternalValue::Memory(MemoryAddr(m, 0))))
    );
    assert_eq!(module.exported_memory(&"mem".to_string()), Ok(Some(MemoryAddr(m, 0))));
    assert_eq!(module.exported_global(&"g".to_string()), Ok(Some(GlobalAddr(m, 2))));
    assert_eq!(module.exported_table(&"t".to_string()), Ok(Some(TableAddr(m, 1))));
    assert!(module.exported_table(&"g".to_string()).is_err());
    assert_eq!(module.start_func_addr(), &Some(FuncAddr(m, 4)));
    assert!(module.get_type(0).is_none());
    let instance = ModuleInstance::Defined(module);
    assert_eq!(instance.export(&"t".to_string()), Some(ExternalValue::Table(TableAddr(m, 1))));
    assert!(instance.defined().is_some());
}

#[test]
fn function_address_resolves_to_code_or_host_body() {
    let mut store: Store<NoHost> = Store::new();
    let m = ModuleIndex(1);
    let ty = FuncType { params: vec![], returns: vec![] };
    store.funcs.push(
        m,
        wasminspect_vm::func::FunctionInstance::Defined(
            wasminspect_vm::func::DefinedFunctionInstance::new("f".to_string(), ty.clone(), m, vec![], vec![]),
        ),
    );
    store.funcs.push(
        m,
        wasminspect_vm::func::FunctionInstance::Host(wasminspect_vm::func::HostFunctionInstance {
            ty,
            module_name: "env".to_string(),
            field_name: "h".to_string(),
            code: NoHost,
        }),
    );
    match wasminspect_vm::store::resolve_func_addr(FuncAddr(m, 0), &store) {
        Ok(wasminspect_vm::store::Either::Left((slot, func))) => {
            assert_eq!(slot, ExecutableFuncAddr(0));
            assert_eq!(func.name(), "f");
        }
        _ => panic!("no defined function"),
    }
    assert!(matches!(
        wasminspect_vm::store::resolve_func_addr(FuncAddr(m, 1), &store),
        Ok(wasminspect_vm::store::Either::Right(_))
    ));
    assert!(matches!(
        wasminspect_vm::store::resolve_func_addr(FuncAddr(m, 2), &store),
        Err(wasminspect_vm::executor::Trap::UndefinedFunc(2))
    ));
}

#[test]
fn module_rows_are_counted_and_cut() {
    let mut c: LinkableCollection<u8> = LinkableCollection::new();
    let m = ModuleIndex(2);
    assert_eq!(c.row_len(m), 0);
    c.push(m, 1);
    c.push(m, 2);
    c.push(ModuleIndex(1), 3);
    assert_eq!(c.row_len(m), 2);
    assert_eq!(c.row_len(ModuleIndex(1)), 1);
    assert_eq!(c.row_len(ModuleIndex(0)), 0);
    c.truncate_row(m, 1);
    assert_eq!(c.row_len(m), 1);
    assert_eq!(c.resolve(m, 0), Some(0));
    assert_eq!(c.resolve(m, 1), None);
    assert_eq!(c.resolve(ModuleIndex(1), 0), Some(2));
    assert_eq!(c.items.len(), 3);
    c.truncate_row(m, 5);
    assert_eq!(c.row_len(m), 1);
    c.truncate_row(ModuleIndex(9), 0);
    c.truncate_row(ModuleIndex(0), 0);
    assert_eq!(c.row_len(m), 1);
}
