//! Typed WebAssembly values.
//!
//! Floating-point values are carried as their IEEE-754 bit patterns, so that
//! every bit of a NaN survives a trip through the stack or through memory.

use vstd::prelude::*;

verus! {

/// The four WebAssembly value types.
#[derive(Clone, Copy, Debug, PartialEq, Eq, Structural)]
pub enum ValueType {
    I32,
    I64,
    F32,
    F64,
}

/// A 32-bit float as its raw bit pattern.
#[derive(Clone, Copy, Debug, PartialEq, Eq, Structural)]
pub struct F32(pub u32);

/// A 64-bit float as its raw bit pattern.
#[derive(Clone, Copy, Debug, PartialEq, Eq, Structural)]
pub struct F64(pub u64);

/// A value together with its type tag.
#[derive(Clone, Copy, Debug, PartialEq, Eq, Structural)]
pub enum Value {
    I32(i32),
    I64(i64),
    F32(u32),
    F64(u64),
}

/// Arithmetic traps.
#[derive(Clone, Copy, Debug, PartialEq, Eq, Structural)]
pub enum Error {
    IntegerDivByZero,
    IntegerOverflow,
    InvalidConversionToInt,
}

/// The unsigned reading of a 32-bit two's complement integer.
pub open spec fn u32_of(v: i32) -> u32 {
    if v >= 0 {
        v as u32
    } else {
        (v + 0x1_0000_0000) as u32
    }
}

/// The signed reading of a 32-bit pattern.
pub open spec fn i32_of(v: u32) -> i32 {
    if v < 0x8000_0000 {
        v as i32
    } else {
        (v - 0x1_0000_0000) as i32
    }
}

/// The unsigned reading of a 64-bit two's complement integer.
pub open spec fn u64_of(v: i64) -> u64 {
    if v >= 0 {
        v as u64
    } else {
        (v + 0x1_0000_0000_0000_0000) as u64
    }
}

/// The signed reading of a 64-bit pattern.
pub open spec fn i64_of(v: u64) -> i64 {
    if v < 0x8000_0000_0000_0000 {
        v as i64
    } else {
        (v - 0x1_0000_0000_0000_0000) as i64
    }
}

#[verifier::when_used_as_spec(u32_of)]
pub fn to_u32(v: i32) -> (r: u32)
    ensures
        r == u32_of(v),
{
    if v >= 0 {
        v as u32
    } else {
        ((v as i64) + 0x1_0000_0000) as u32
    }
}

#[verifier::when_used_as_spec(i32_of)]
pub fn to_i32(v: u32) -> (r: i32)
    ensures
        r == i32_of(v),
{
    if v < 0x8000_0000 {
        v as i32
    } else {
        ((v as i64) - 0x1_0000_0000) as i32
    }
}

#[verifier::when_used_as_spec(u64_of)]
pub fn to_u64(v: i64) -> (r: u64)
    ensures
        r == u64_of(v),
{
    if v >= 0 {
        v as u64
    } else {
        ((v as i128) + 0x1_0000_0000_0000_0000) as u64
    }
}

#[verifier::when_used_as_spec(i64_of)]
pub fn to_i64(v: u64) -> (r: i64)
    ensures
        r == i64_of(v),
{
    if v < 0x8000_0000_0000_0000 {
        v as i64
    } else {
        ((v as i128) - 0x1_0000_0000_0000_0000) as i64
    }
}

/// Reading a pattern as signed and back as unsigned changes nothing, and the
/// other way round.
pub proof fn lemma_sign_round_trip()
    ensures
        forall|v: i32| i32_of(#[trigger] u32_of(v)) == v,
        forall|v: u32| u32_of(#[trigger] i32_of(v)) == v,
        forall|v: i64| i64_of(#[trigger] u64_of(v)) == v,
        forall|v: u64| u64_of(#[trigger] i64_of(v)) == v,
{
}

impl Value {
    pub open spec fn spec_value_type(&self) -> ValueType {
        match self {
            Value::I32(_) => ValueType::I32,
            Value::I64(_) => ValueType::I64,
            Value::F32(_) => ValueType::F32,
            Value::F64(_) => ValueType::F64,
        }
    }

    /// The type tag of the value.
    #[verifier::when_used_as_spec(spec_value_type)]
    pub fn value_type(&self) -> (r: ValueType)
        ensures
            r == self.spec_value_type(),
    {
        match self {
            Value::I32(_) => ValueType::I32,
            Value::I64(_) => ValueType::I64,
            Value::F32(_) => ValueType::F32,
            Value::F64(_) => ValueType::F64,
        }
    }

    pub open spec fn spec_null_value(ty: ValueType) -> Value {
        match ty {
            ValueType::I32 => Value::I32(0),
            ValueType::I64 => Value::I64(0),
            ValueType::F32 => Value::F32(0),
            ValueType::F64 => Value::F64(0),
        }
    }

    /// The all-zero value of a type, with which locals start.
    #[verifier::when_used_as_spec(spec_null_value)]
    pub fn null_value(ty: ValueType) -> (r: Value)
        ensures
            r == Value::spec_null_value(ty),
            r.value_type() == ty,
    {
        match ty {
            ValueType::I32 => Value::I32(0),
            ValueType::I64 => Value::I64(0),
            ValueType::F32 => Value::F32(0),
            ValueType::F64 => Value::F64(0),
        }
    }
}

/// A machine type that one kind of `Value` carries.
pub trait NativeValue: Sized {
    /// The payload of `val` as `Self`, if `val` has the matching type.
    spec fn spec_from_value(val: Value) -> Option<Self>;

    spec fn spec_native_type() -> ValueType;

    spec fn spec_into_value(self) -> Value;

    fn from_value(val: Value) -> (r: Option<Self>)
        ensures
            r == Self::spec_from_value(val),
    ;

    fn value_type() -> (r: ValueType)
        ensures
            r == Self::spec_native_type(),
    ;

    fn into_value(self) -> (r: Value)
        ensures
            r == self.spec_into_value(),
    ;

    /// `from_value` succeeds exactly on the values of `Self`'s type, and
    /// `into_value` is its inverse.
    proof fn lemma_native(val: Value)
        ensures
            Self::spec_from_value(val) is Some <==> val.value_type() == Self::spec_native_type(),
            Self::spec_from_value(val) matches Some(x) ==> x.spec_into_value() == val,
    ;
}

impl NativeValue for i32 {
    open spec fn spec_from_value(val: Value) -> Option<i32> {
        match val {
            Value::I32(v) => Some(v),
            _ => None,
        }
    }

    open spec fn spec_native_type() -> ValueType {
        ValueType::I32
    }

    open spec fn spec_into_value(self) -> Value {
        Value::I32(self)
    }

    fn from_value(val: Value) -> (r: Option<i32>) {
        match val {
            Value::I32(v) => Some(v),
            _ => None,
        }
    }

    fn value_type() -> (r: ValueType) {
        ValueType::I32
    }

    fn into_value(self) -> (r: Value) {
        Value::I32(self)
    }

    proof fn lemma_native(val: Value) {
    }
}

impl NativeValue for i64 {
    open spec fn spec_from_value(val: Value) -> Option<i64> {
        match val {
            Value::I64(v) => Some(v),
            _ => None,
        }
    }

    open spec fn spec_native_type() -> ValueType {
        ValueType::I64
    }

    open spec fn spec_into_value(self) -> Value {
        Value::I64(self)
    }

    fn from_value(val: Value) -> (r: Option<i64>) {
        match val {
            Value::I64(v) => Some(v),
            _ => None,
        }
    }

    fn value_type() -> (r: ValueType) {
        ValueType::I64
    }

    fn into_value(self) -> (r: Value) {
        Value::I64(self)
    }

    proof fn lemma_native(val: Value) {
    }
}

impl NativeValue for u32 {
    open spec fn spec_from_value(val: Value) -> Option<u32> {
        match val {
            Value::I32(v) => Some(u32_of(v)),
            _ => None,
        }
    }

    open spec fn spec_native_type() -> ValueType {
        ValueType::I32
    }

    open spec fn spec_into_value(self) -> Value {
        Value::I32(i32_of(self))
    }

    fn from_value(val: Value) -> (r: Option<u32>) {
        match val {
            Value::I32(v) => Some(to_u32(v)),
            _ => None,
        }
    }

    fn value_type() -> (r: ValueType) {
        ValueType::I32
    }

    fn into_value(self) -> (r: Value) {
        Value::I32(to_i32(self))
    }

    proof fn lemma_native(val: Value) {
    }
}

impl NativeValue for u64 {
    open spec fn spec_from_value(val: Value) -> Option<u64> {
        match val {
            Value::I64(v) => Some(u64_of(v)),
            _ => None,
        }
    }

    open spec fn spec_native_type() -> ValueType {
        ValueType::I64
    }

    open spec fn spec_into_value(self) -> Value {
        Value::I64(i64_of(self))
    }

    fn from_value(val: Value) -> (r: Option<u64>) {
        match val {
            Value::I64(v) => Some(to_u64(v)),
            _ => None,
        }
    }

    fn value_type() -> (r: ValueType) {
        ValueType::I64
    }

    fn into_value(self) -> (r: Value) {
        Value::I64(to_i64(self))
    }

    proof fn lemma_native(val: Value) {
    }
}

impl NativeValue for F32 {
    open spec fn spec_from_value(val: Value) -> Option<F32> {
        match val {
            Value::F32(v) => Some(F32(v)),
            _ => None,
        }
    }

    open spec fn spec_native_type() -> ValueType {
        ValueType::F32
    }

    open spec fn spec_into_value(self) -> Value {
        Value::F32(self.0)
    }

    fn from_value(val: Value) -> (r: Option<F32>) {
        match val {
            Value::F32(v) => Some(F32(v)),
            _ => None,
        }
    }

    fn value_type() -> (r: ValueType) {
        ValueType::F32
    }

    fn into_value(self) -> (r: Value) {
        Value::F32(self.0)
    }

    proof fn lemma_native(val: Value) {
    }
}

impl NativeValue for F64 {
    open spec fn spec_from_value(val: Value) -> Option<F64> {
        match val {
            Value::F64(v) => Some(F64(v)),
            _ => None,
        }
    }

    open spec fn spec_native_type() -> ValueType {
        ValueType::F64
    }

    open spec fn spec_into_value(self) -> Value {
        Value::F64(self.0)
    }

    fn from_value(val: Value) -> (r: Option<F64>) {
        match val {
            Value::F64(v) => Some(F64(v)),
            _ => None,
        }
    }

    fn value_type() -> (r: ValueType) {
        ValueType::F64
    }

    fn into_value(self) -> (r: Value) {
        Value::F64(self.0)
    }

    proof fn lemma_native(val: Value) {
    }
}

} // verus!
