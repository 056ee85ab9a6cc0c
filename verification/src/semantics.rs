//! What each instruction does, as functions on mathematical values.
//!
//! A machine is a program counter and a stack. A step either yields a
//! signal, the next machine and at most one change to the store, or it traps
//! and leaves the stack as it had it when it failed.

use vstd::prelude::*;
use crate::executor::{Machine, Signal, Trap, TrapView};
use crate::float::FloatUnit;
use crate::float::{
    f32_abs_spec, f32_copysign_spec, f32_max_spec, f32_min_spec, f32_neg_spec, f32_rel_spec,
    f32_trunc_spec, f64_abs_spec, f64_copysign_spec, f64_max_spec, f64_min_spec, f64_neg_spec,
    f64_rel_spec, f64_trunc_spec, in_range,
};
use crate::inst::{ConvertOp, FloatBinOp, FloatUnOp, FloatWidth, InstructionKind, IntWidth};
use crate::numeric::{
    i32_binary_spec, i32_rel_spec, i32_unary_spec, i64_binary_spec, i64_rel_spec, i64_unary_spec,
};
use crate::address::{ExecutableFuncAddr, FuncAddr, ModuleIndex};
use crate::func::initial_locals;
use crate::module::ModuleInstance;
use crate::table::table_get;
use crate::func::FunctionInstance;
use crate::global::{set_global_result, GlobalInstance};
use crate::inst::{br_table_target, BlockType, InstIndex, Instruction, LoadKind, StoreKind};
use crate::memory;
use crate::memory::{byte_range, le_bytes, le_value, write_bytes, MemoryInstance, PAGE_SIZE};
use crate::stack;
use crate::stack::{
    current_frame_of, frame_labels, frame_local, pop_label_result, pop_value_result,
    set_local_result, set_local_stack, top_frame, values_on_top, FrameView, Label, LoopLabel,
    ProgramCounter, StackEntry, StackValueType,
};
use crate::store::Store;
use crate::value;
use crate::value::{F32, F64, NativeValue, Value, ValueType, i32_of, i64_of, u32_of, u64_of};

verus! {

/// A trap, and the stack as the trap leaves it: with all that the
/// instruction had done to it before it failed.
pub struct Trapped {
    pub trap: TrapView,
    pub stack: Seq<StackEntry>,
}

/// Taking a value of `T`'s type off the stack: the value and the rest, or the
/// trap where the stack is empty, its top is no value, or the value is of
/// another type. A value of another type is taken off all the same.
pub open spec fn pop_as_spec<T: NativeValue>(s: Seq<StackEntry>) -> Result<(T, Seq<StackEntry>), Trapped> {
    match pop_value_result(s) {
        Err(e) => Err(Trapped { trap: TrapView::Stack(e), stack: s }),
        Ok(v) => match T::spec_from_value(v) {
            Some(x) => Ok((x, s.drop_last())),
            None => Err(
                Trapped {
                    trap: TrapView::UnexpectedStackValueType(T::spec_native_type(), v.value_type()),
                    stack: s.drop_last(),
                },
            ),
        },
    }
}

/// Taking any value off the stack.
pub open spec fn pop_value_spec(s: Seq<StackEntry>) -> Result<(Value, Seq<StackEntry>), Trapped> {
    match pop_value_result(s) {
        Err(e) => Err(Trapped { trap: TrapView::Stack(e), stack: s }),
        Ok(v) => Ok((v, s.drop_last())),
    }
}

/// The stack with `v` on top.
pub open spec fn push_value_spec(s: Seq<StackEntry>, v: Value) -> Seq<StackEntry> {
    s.push(StackEntry::Value(v))
}

/// 1 for true, 0 for false.
pub open spec fn bool_value(b: bool) -> Value {
    Value::I32(
        if b {
            1
        } else {
            0
        },
    )
}

/// An operator of one operand: takes a `T` off the stack and puts the result
/// on it, or traps as the operator says.
pub open spec fn unary_spec<T: NativeValue>(
    s: Seq<StackEntry>,
    f: spec_fn(T) -> Result<Value, value::Error>,
) -> Result<Seq<StackEntry>, Trapped> {
    match pop_as_spec::<T>(s) {
        Err(t) => Err(t),
        Ok((a, rest)) => match f(a) {
            Ok(v) => Ok(push_value_spec(rest, v)),
            Err(e) => Err(Trapped { trap: TrapView::Value(e), stack: rest }),
        },
    }
}

/// An operator of two operands: takes the right one, then the left one, off
/// the stack and puts the result on it, or traps as the operator says.
pub open spec fn binary_spec<T: NativeValue>(
    s: Seq<StackEntry>,
    f: spec_fn(T, T) -> Result<Value, value::Error>,
) -> Result<Seq<StackEntry>, Trapped> {
    match pop_as_spec::<T>(s) {
        Err(t) => Err(t),
        Ok((rhs, s1)) => match pop_as_spec::<T>(s1) {
            Err(t) => Err(t),
            Ok((lhs, rest)) => match f(lhs, rhs) {
                Ok(v) => Ok(push_value_spec(rest, v)),
                Err(e) => Err(Trapped { trap: TrapView::Value(e), stack: rest }),
            },
        },
    }
}

/// How a step that traps ends: with the trap, the program counter where it
/// was and the stack that the trap leaves.
pub open spec fn trapped_step(before: Machine, t: Trapped, r: Result<Signal, Trap>, after: Machine) -> bool {
    r matches Err(e) && e@ == t.trap && after == (Machine { stack: t.stack, ..before })
}

/// How a step that only works on the stack ends: with the stack that the
/// function of the instruction gives and the signal `Next`, or with its trap
/// and the stack that the trap leaves. The program counter stays.
pub open spec fn stack_step(
    before: Machine,
    expected: Result<Seq<StackEntry>, Trapped>,
    r: Result<Signal, Trap>,
    after: Machine,
) -> bool {
    match expected {
        Ok(s) => r == Ok::<Signal, Trap>(Signal::Next) && after == (Machine { stack: s, ..before }),
        Err(t) => trapped_step(before, t, r, after),
    }
}

/// A truncated float as a value of 32 bits, signed or unsigned.
pub open spec fn trunc_i32_value(v: Option<int>, signed: bool) -> Result<Value, value::Error> {
    if signed {
        match in_range(v, i32::MIN as int, i32::MAX as int) {
            Ok(x) => Ok(Value::I32(x as i32)),
            Err(e) => Err(e),
        }
    } else {
        match in_range(v, 0, u32::MAX as int) {
            Ok(x) => Ok(Value::I32(i32_of(x as u32))),
            Err(e) => Err(e),
        }
    }
}

/// A truncated float as a value of 64 bits, signed or unsigned.
pub open spec fn trunc_i64_value(v: Option<int>, signed: bool) -> Result<Value, value::Error> {
    if signed {
        match in_range(v, i64::MIN as int, i64::MAX as int) {
            Ok(x) => Ok(Value::I64(x as i64)),
            Err(e) => Err(e),
        }
    } else {
        match in_range(v, 0, u64::MAX as int) {
            Ok(x) => Ok(Value::I64(i64_of(x as u64))),
            Err(e) => Err(e),
        }
    }
}

/// The type of the result of a numeric instruction that the float unit
/// computes; `None` for every instruction that is computed here.
pub open spec fn delegated(kind: InstructionKind) -> Option<ValueType> {
    match kind {
        InstructionKind::FloatUnary { width, op } => match op {
            FloatUnOp::Abs | FloatUnOp::Neg => None,
            _ => Some(float_type(width)),
        },
        InstructionKind::FloatBinary { width, op } => match op {
            FloatBinOp::Min | FloatBinOp::Max | FloatBinOp::Copysign => None,
            _ => Some(float_type(width)),
        },
        InstructionKind::Convert { op } => match op {
            ConvertOp::F32ConvertI32S | ConvertOp::F32ConvertI32U | ConvertOp::F32ConvertI64S
            | ConvertOp::F32ConvertI64U | ConvertOp::F32DemoteF64 => Some(ValueType::F32),
            ConvertOp::F64ConvertI32S | ConvertOp::F64ConvertI32U | ConvertOp::F64ConvertI64S
            | ConvertOp::F64ConvertI64U | ConvertOp::F64PromoteF32 => Some(ValueType::F64),
            _ => None,
        },
        _ => None,
    }
}

/// The value type of floats of a width.
pub open spec fn float_type(width: FloatWidth) -> ValueType {
    match width {
        FloatWidth::W32 => ValueType::F32,
        FloatWidth::W64 => ValueType::F64,
    }
}

/// Taking one operand of type `ty` off the stack.
pub open spec fn pop_typed(s: Seq<StackEntry>, ty: ValueType) -> Result<Seq<StackEntry>, Trapped> {
    match pop_value_result(s) {
        Err(e) => Err(Trapped { trap: TrapView::Stack(e), stack: s }),
        Ok(v) => if v.value_type() == ty {
            Ok(s.drop_last())
        } else {
            Err(Trapped { trap: TrapView::UnexpectedStackValueType(ty, v.value_type()), stack: s.drop_last() })
        },
    }
}

/// The stack after an instruction that the float unit computes has taken
/// its operands, or the trap that taking them gives.
pub open spec fn delegated_operands(kind: InstructionKind, s: Seq<StackEntry>) -> Result<Seq<StackEntry>, Trapped>
    recommends
        delegated(kind) is Some,
{
    match kind {
        InstructionKind::FloatUnary { width, op } => pop_typed(s, float_type(width)),
        InstructionKind::FloatBinary { width, op } => match pop_typed(s, float_type(width)) {
            Ok(s1) => pop_typed(s1, float_type(width)),
            Err(t) => Err(t),
        },
        InstructionKind::Convert { op } => match op {
            ConvertOp::F32ConvertI32S | ConvertOp::F32ConvertI32U | ConvertOp::F64ConvertI32S
            | ConvertOp::F64ConvertI32U => pop_typed(s, ValueType::I32),
            ConvertOp::F32ConvertI64S | ConvertOp::F32ConvertI64U | ConvertOp::F64ConvertI64S
            | ConvertOp::F64ConvertI64U => pop_typed(s, ValueType::I64),
            ConvertOp::F32DemoteF64 => pop_typed(s, ValueType::F64),
            _ => pop_typed(s, ValueType::F32),
        },
        _ => Ok(s),
    }
}

/// What a numeric instruction that is computed here does to the stack.
pub open spec fn numeric_spec(kind: InstructionKind, s: Seq<StackEntry>) -> Result<Seq<StackEntry>, Trapped>
    recommends
        delegated(kind) is None,
{
    match kind {
        InstructionKind::IntTest { width } => match width {
            IntWidth::W32 => unary_spec::<i32>(s, |a: i32| Ok(bool_value(a == 0))),
            IntWidth::W64 => unary_spec::<i64>(s, |a: i64| Ok(bool_value(a == 0))),
        },
        InstructionKind::IntRel { width, op } => match width {
            IntWidth::W32 => binary_spec::<i32>(
                s,
                |a: i32, b: i32| Ok(bool_value(i32_rel_spec(op, a, b))),
            ),
            IntWidth::W64 => binary_spec::<i64>(
                s,
                |a: i64, b: i64| Ok(bool_value(i64_rel_spec(op, a, b))),
            ),
        },
        InstructionKind::IntUnary { width, op } => match width {
            IntWidth::W32 => unary_spec::<i32>(s, |a: i32| Ok(Value::I32(i32_unary_spec(op, a)))),
            IntWidth::W64 => unary_spec::<i64>(s, |a: i64| Ok(Value::I64(i64_unary_spec(op, a)))),
        },
        InstructionKind::IntBinary { width, op } => match width {
            IntWidth::W32 => binary_spec::<i32>(
                s,
                |a: i32, b: i32|
                    match i32_binary_spec(op, a, b) {
                        Ok(v) => Ok(Value::I32(v)),
                        Err(e) => Err(e),
                    },
            ),
            IntWidth::W64 => binary_spec::<i64>(
                s,
                |a: i64, b: i64|
                    match i64_binary_spec(op, a, b) {
                        Ok(v) => Ok(Value::I64(v)),
                        Err(e) => Err(e),
                    },
            ),
        },
        InstructionKind::FloatRel { width, op } => match width {
            FloatWidth::W32 => binary_spec::<F32>(
                s,
                |a: F32, b: F32| Ok(bool_value(f32_rel_spec(op, a.0, b.0))),
            ),
            FloatWidth::W64 => binary_spec::<F64>(
                s,
                |a: F64, b: F64| Ok(bool_value(f64_rel_spec(op, a.0, b.0))),
            ),
        },
        InstructionKind::FloatUnary { width, op } => match width {
            FloatWidth::W32 => unary_spec::<F32>(
                s,
                |a: F32|
                    Ok(
                        Value::F32(
                            if op == FloatUnOp::Abs {
                                f32_abs_spec(a.0)
                            } else {
                                f32_neg_spec(a.0)
                            },
                        ),
                    ),
            ),
            FloatWidth::W64 => unary_spec::<F64>(
                s,
                |a: F64|
                    Ok(
                        Value::F64(
                            if op == FloatUnOp::Abs {
                                f64_abs_spec(a.0)
                            } else {
                                f64_neg_spec(a.0)
                            },
                        ),
                    ),
            ),
        },
        InstructionKind::FloatBinary { width, op } => match width {
            FloatWidth::W32 => binary_spec::<F32>(
                s,
                |a: F32, b: F32|
                    Ok(
                        Value::F32(
                            if op == FloatBinOp::Min {
                                f32_min_spec(a.0, b.0)
                            } else if op == FloatBinOp::Max {
                                f32_max_spec(a.0, b.0)
                            } else {
                                f32_copysign_spec(a.0, b.0)
                            },
                        ),
                    ),
            ),
            FloatWidth::W64 => binary_spec::<F64>(
                s,
                |a: F64, b: F64|
                    Ok(
                        Value::F64(
                            if op == FloatBinOp::Min {
                                f64_min_spec(a.0, b.0)
                            } else if op == FloatBinOp::Max {
                                f64_max_spec(a.0, b.0)
                            } else {
                                f64_copysign_spec(a.0, b.0)
                            },
                        ),
                    ),
            ),
        },
        InstructionKind::Convert { op } => convert_spec(op, s),
        _ => Ok(s),
    }
}

/// What a conversion that is computed here does to the stack.
pub open spec fn convert_spec(op: ConvertOp, s: Seq<StackEntry>) -> Result<Seq<StackEntry>, Trapped> {
    match op {
        ConvertOp::I32WrapI64 => unary_spec::<i64>(
            s,
            |a: i64| Ok(Value::I32(i32_of((u64_of(a) % 0x1_0000_0000) as u32))),
        ),
        ConvertOp::I32TruncF32S => unary_spec::<F32>(
            s,
            |a: F32| trunc_i32_value(f32_trunc_spec(a.0), true),
        ),
        ConvertOp::I32TruncF32U => unary_spec::<F32>(
            s,
            |a: F32| trunc_i32_value(f32_trunc_spec(a.0), false),
        ),
        ConvertOp::I32TruncF64S => unary_spec::<F64>(
            s,
            |a: F64| trunc_i32_value(f64_trunc_spec(a.0), true),
        ),
        ConvertOp::I32TruncF64U => unary_spec::<F64>(
            s,
            |a: F64| trunc_i32_value(f64_trunc_spec(a.0), false),
        ),
        ConvertOp::I64ExtendI32S => unary_spec::<i32>(s, |a: i32| Ok(Value::I64(a as i64))),
        ConvertOp::I64ExtendI32U => unary_spec::<i32>(s, |a: i32| Ok(Value::I64(u32_of(a) as i64))),
        ConvertOp::I64TruncF32S => unary_spec::<F32>(
            s,
            |a: F32| trunc_i64_value(f32_trunc_spec(a.0), true),
        ),
        ConvertOp::I64TruncF32U => unary_spec::<F32>(
            s,
            |a: F32| trunc_i64_value(f32_trunc_spec(a.0), false),
        ),
        ConvertOp::I64TruncF64S => unary_spec::<F64>(
            s,
            |a: F64| trunc_i64_value(f64_trunc_spec(a.0), true),
        ),
        ConvertOp::I64TruncF64U => unary_spec::<F64>(
            s,
            |a: F64| trunc_i64_value(f64_trunc_spec(a.0), false),
        ),
        ConvertOp::I32ReinterpretF32 => unary_spec::<F32>(s, |a: F32| Ok(Value::I32(i32_of(a.0)))),
        ConvertOp::I64ReinterpretF64 => unary_spec::<F64>(s, |a: F64| Ok(Value::I64(i64_of(a.0)))),
        ConvertOp::F32ReinterpretI32 => unary_spec::<i32>(s, |a: i32| Ok(Value::F32(u32_of(a)))),
        ConvertOp::F64ReinterpretI64 => unary_spec::<i64>(s, |a: i64| Ok(Value::F64(u64_of(a)))),
        _ => Ok(s),
    }
}

/// Whether `result` is what the float unit `unit` gave for the instruction
/// `kind` on the operands `lhs` and `rhs`; on `rhs` alone for an instruction
/// of one operand. The 32-bit and 64-bit integers go to the unit signed or
/// unsigned as the conversion says.
pub open spec fn unit_gave<U: FloatUnit>(
    unit: &U,
    kind: InstructionKind,
    lhs: Value,
    rhs: Value,
    result: Value,
) -> bool {
    match kind {
        InstructionKind::FloatUnary { width, op } => match (rhs, result) {
            (Value::F32(a), Value::F32(r)) => width == FloatWidth::W32 && call_ensures(
                U::f32_unary,
                (unit, op, F32(a)),
                F32(r),
            ),
            (Value::F64(a), Value::F64(r)) => width == FloatWidth::W64 && call_ensures(
                U::f64_unary,
                (unit, op, F64(a)),
                F64(r),
            ),
            _ => false,
        },
        InstructionKind::FloatBinary { width, op } => match (lhs, rhs, result) {
            (Value::F32(a), Value::F32(b), Value::F32(r)) => width == FloatWidth::W32
                && call_ensures(U::f32_binary, (unit, op, F32(a), F32(b)), F32(r)),
            (Value::F64(a), Value::F64(b), Value::F64(r)) => width == FloatWidth::W64
                && call_ensures(U::f64_binary, (unit, op, F64(a), F64(b)), F64(r)),
            _ => false,
        },
        InstructionKind::Convert { op } => match (op, rhs, result) {
            (ConvertOp::F32ConvertI32S, Value::I32(a), Value::F32(r)) => call_ensures(
                U::f32_convert_i32,
                (unit, a),
                F32(r),
            ),
            (ConvertOp::F32ConvertI32U, Value::I32(a), Value::F32(r)) => call_ensures(
                U::f32_convert_u32,
                (unit, u32_of(a)),
                F32(r),
            ),
            (ConvertOp::F32ConvertI64S, Value::I64(a), Value::F32(r)) => call_ensures(
                U::f32_convert_i64,
                (unit, a),
                F32(r),
            ),
            (ConvertOp::F32ConvertI64U, Value::I64(a), Value::F32(r)) => call_ensures(
                U::f32_convert_u64,
                (unit, u64_of(a)),
                F32(r),
            ),
            (ConvertOp::F64ConvertI32S, Value::I32(a), Value::F64(r)) => call_ensures(
                U::f64_convert_i32,
                (unit, a),
                F64(r),
            ),
            (ConvertOp::F64ConvertI32U, Value::I32(a), Value::F64(r)) => call_ensures(
                U::f64_convert_u32,
                (unit, u32_of(a)),
                F64(r),
            ),
            (ConvertOp::F64ConvertI64S, Value::I64(a), Value::F64(r)) => call_ensures(
                U::f64_convert_i64,
                (unit, a),
                F64(r),
            ),
            (ConvertOp::F64ConvertI64U, Value::I64(a), Value::F64(r)) => call_ensures(
                U::f64_convert_u64,
                (unit, u64_of(a)),
                F64(r),
            ),
            (ConvertOp::F32DemoteF64, Value::F64(a), Value::F32(r)) => call_ensures(
                U::f32_demote,
                (unit, F64(a)),
                F32(r),
            ),
            (ConvertOp::F64PromoteF32, Value::F32(a), Value::F64(r)) => call_ensures(
                U::f64_promote,
                (unit, F32(a)),
                F64(r),
            ),
            _ => false,
        },
        _ => false,
    }
}

/// Whether the value on top of `after` is what the float unit gave for the
/// instruction `kind` on the operands on top of `before`.
pub open spec fn unit_computed<U: FloatUnit>(
    unit: &U,
    kind: InstructionKind,
    before: Seq<StackEntry>,
    after: Seq<StackEntry>,
) -> bool {
    match (before.last(), after.last()) {
        (StackEntry::Value(rhs), StackEntry::Value(result)) => unit_gave(
            unit,
            kind,
            match before.drop_last().last() {
                StackEntry::Value(lhs) => lhs,
                _ => rhs,
            },
            rhs,
            result,
        ),
        _ => false,
    }
}

/// How a numeric instruction ends. One that is computed here: as
/// `numeric_spec` says. One that the float unit computes: the operands are
/// gone and a value of the result's type is on top.
pub open spec fn numeric_step(
    before: Machine,
    kind: InstructionKind,
    r: Result<Signal, Trap>,
    after: Machine,
) -> bool {
    match delegated(kind) {
        None => stack_step(before, numeric_spec(kind, before.stack), r, after),
        Some(ty) => delegated_step(before, kind, ty, Signal::Next, r, after),
    }
}

/// How an instruction that the float unit computes ends: its operands are
/// gone, a value of the result's type `ty` is on top, and the signal is
/// `signal`; or it traps as taking the operands does.
pub open spec fn delegated_step(
    before: Machine,
    kind: InstructionKind,
    ty: ValueType,
    signal: Signal,
    r: Result<Signal, Trap>,
    after: Machine,
) -> bool {
    match delegated_operands(kind, before.stack) {
        Ok(rest) => {
            &&& r == Ok::<Signal, Trap>(signal)
            &&& after.pc == before.pc
            &&& after.stack.len() == rest.len() + 1
            &&& after.stack.drop_last() == rest
            &&& after.stack.last() matches StackEntry::Value(v) && v.value_type() == ty
        },
        Err(t) => trapped_step(before, t, r, after),
    }
}

/// The one change that a step makes to the store.
pub enum Effect {
    /// The store is as it was.
    Unchanged,
    /// The bytes of the memory in slot `slot` from `offset` on are `bytes`.
    WriteMemory { slot: usize, offset: nat, bytes: Seq<u8> },
    /// The memory in slot `slot` has `pages` more pages, all zero.
    GrowMemory { slot: usize, pages: usize },
    /// The global in slot `slot` holds `value`.
    SetGlobal { slot: usize, value: Value },
}

/// Whether two memories hold the same bytes and have the same limits.
pub open spec fn same_memory(a: MemoryInstance, b: MemoryInstance) -> bool {
    a@ == b@ && a.max_pages() == b.max_pages() && a.min_pages() == b.min_pages()
}

/// Whether two globals hold the same value and have the same type.
pub open spec fn same_global(a: GlobalInstance, b: GlobalInstance) -> bool {
    a.spec_value() == b.spec_value() && a.spec_ty() == b.spec_ty()
}

/// Whether the memories of `after` are those of `before`, one for one.
pub open spec fn same_memories(before: Seq<MemoryInstance>, after: Seq<MemoryInstance>) -> bool {
    &&& after.len() == before.len()
    &&& forall|j: int| 0 <= j < before.len() ==> same_memory(before[j], #[trigger] after[j])
}

/// Whether the globals of `after` are those of `before`, one for one.
pub open spec fn same_globals(before: Seq<GlobalInstance>, after: Seq<GlobalInstance>) -> bool {
    &&& after.len() == before.len()
    &&& forall|j: int| 0 <= j < before.len() ==> same_global(before[j], #[trigger] after[j])
}

/// Whether `after` is `before` but for the memory in slot `slot`, which holds
/// `data` and has kept its limits.
pub open spec fn memory_replaced(
    before: Seq<MemoryInstance>,
    slot: usize,
    data: Seq<u8>,
    after: Seq<MemoryInstance>,
) -> bool {
    &&& after.len() == before.len()
    &&& slot < before.len()
    &&& after[slot as int]@ == data
    &&& after[slot as int].max_pages() == before[slot as int].max_pages()
    &&& after[slot as int].min_pages() == before[slot as int].min_pages()
    &&& forall|j: int|
        0 <= j < before.len() && j != slot ==> same_memory(before[j], #[trigger] after[j])
}

/// Whether `after` is `before` with `effect` applied and nothing else changed.
/// Memories and globals are compared by what they hold.
pub open spec fn store_after<H>(before: &Store<H>, effect: Effect, after: &Store<H>) -> bool {
    &&& after.funcs == before.funcs
    &&& after.tables == before.tables
    &&& after.modules == before.modules
    &&& after.mems.item_addrs_by_module == before.mems.item_addrs_by_module
    &&& after.globals.item_addrs_by_module == before.globals.item_addrs_by_module
    &&& match effect {
        Effect::Unchanged => same_memories(before.mems.items@, after.mems.items@) && same_globals(
            before.globals.items@,
            after.globals.items@,
        ),
        Effect::WriteMemory { slot, offset, bytes } => same_globals(
            before.globals.items@,
            after.globals.items@,
        ) && memory_replaced(
            before.mems.items@,
            slot,
            write_bytes(before.mems.items@[slot as int]@, offset as int, bytes),
            after.mems.items@,
        ),
        Effect::GrowMemory { slot, pages } => same_globals(
            before.globals.items@,
            after.globals.items@,
        ) && memory_replaced(
            before.mems.items@,
            slot,
            before.mems.items@[slot as int]@ + Seq::new((pages * PAGE_SIZE) as nat, |i: int| 0u8),
            after.mems.items@,
        ),
        Effect::SetGlobal { slot, value } => {
            &&& same_memories(before.mems.items@, after.mems.items@)
            &&& after.globals.items@.len() == before.globals.items@.len()
            &&& slot < before.globals.items@.len()
            &&& after.globals.items@[slot as int].spec_value() == value
            &&& after.globals.items@[slot as int].spec_ty() == before.globals.items@[slot as int].spec_ty()
            &&& forall|j: int|
                0 <= j < before.globals.items@.len() && j != slot ==> same_global(
                    before.globals.items@[j],
                    #[trigger] after.globals.items@[j],
                )
        },
    }
}

/// What a step that does not trap yields.
pub struct Next {
    pub signal: Signal,
    pub machine: Machine,
    pub effect: Effect,
}

/// A step that changes the stack only.
pub open spec fn on_stack(m: Machine, r: Result<Seq<StackEntry>, Trapped>) -> Result<Next, Trapped> {
    match r {
        Ok(s) => Ok(Next { signal: Signal::Next, machine: Machine { stack: s, ..m }, effect: Effect::Unchanged }),
        Err(t) => Err(t),
    }
}

/// A step that changes the machine only.
pub open spec fn on_machine(r: Result<(Signal, Machine), Trapped>) -> Result<Next, Trapped> {
    match r {
        Ok((signal, machine)) => Ok(Next { signal, machine, effect: Effect::Unchanged }),
        Err(t) => Err(t),
    }
}

// ----- memory -----

/// How many bytes a load reads.
pub open spec fn load_width(kind: LoadKind) -> usize {
    match kind {
        LoadKind::I32 | LoadKind::F32 | LoadKind::I64Load32S | LoadKind::I64Load32U => 4,
        LoadKind::I64 | LoadKind::F64 => 8,
        LoadKind::I32Load8S | LoadKind::I32Load8U | LoadKind::I64Load8S | LoadKind::I64Load8U => 1,
        LoadKind::I32Load16S | LoadKind::I32Load16U | LoadKind::I64Load16S | LoadKind::I64Load16U => 2,
    }
}

/// The number that `raw`, read as a two's complement integer of `width` bytes,
/// denotes.
pub open spec fn sign_extend(raw: nat, width: nat) -> int {
    if 2 * raw < byte_range(width) {
        raw as int
    } else {
        raw - byte_range(width)
    }
}

/// The value that a load makes of the bytes it read: the number they denote
/// in little-endian order, widened with or without sign.
pub open spec fn load_value(kind: LoadKind, bytes: Seq<u8>) -> Value {
    let raw = le_value(bytes);
    match kind {
        LoadKind::I32 => Value::I32(i32_of(raw as u32)),
        LoadKind::I64 => Value::I64(i64_of(raw as u64)),
        LoadKind::F32 => Value::F32(raw as u32),
        LoadKind::F64 => Value::F64(raw as u64),
        LoadKind::I32Load8S => Value::I32(sign_extend(raw, 1) as i32),
        LoadKind::I32Load8U => Value::I32(raw as i32),
        LoadKind::I32Load16S => Value::I32(sign_extend(raw, 2) as i32),
        LoadKind::I32Load16U => Value::I32(raw as i32),
        LoadKind::I64Load8S => Value::I64(sign_extend(raw, 1) as i64),
        LoadKind::I64Load8U => Value::I64(raw as i64),
        LoadKind::I64Load16S => Value::I64(sign_extend(raw, 2) as i64),
        LoadKind::I64Load16U => Value::I64(raw as i64),
        LoadKind::I64Load32S => Value::I64(sign_extend(raw, 4) as i64),
        LoadKind::I64Load32U => Value::I64(raw as i64),
    }
}

/// How many bytes a store writes.
pub open spec fn store_width(kind: StoreKind) -> usize {
    match kind {
        StoreKind::I32 | StoreKind::F32 | StoreKind::I64Store32 => 4,
        StoreKind::I64 | StoreKind::F64 => 8,
        StoreKind::I32Store8 | StoreKind::I64Store8 => 1,
        StoreKind::I32Store16 | StoreKind::I64Store16 => 2,
    }
}

/// The type of the value that a store takes.
pub open spec fn store_type(kind: StoreKind) -> ValueType {
    match kind {
        StoreKind::I32 | StoreKind::I32Store8 | StoreKind::I32Store16 => ValueType::I32,
        StoreKind::I64 | StoreKind::I64Store8 | StoreKind::I64Store16 | StoreKind::I64Store32 => ValueType::I64,
        StoreKind::F32 => ValueType::F32,
        StoreKind::F64 => ValueType::F64,
    }
}

/// The bits of a value as an unsigned number.
pub open spec fn value_bits(v: Value) -> nat {
    match v {
        Value::I32(x) => u32_of(x) as nat,
        Value::I64(x) => u64_of(x) as nat,
        Value::F32(b) => b as nat,
        Value::F64(b) => b as nat,
    }
}

/// The bytes that a store writes: the low bytes of the value in
/// little-endian order.
pub open spec fn store_bytes(kind: StoreKind, v: Value) -> Seq<u8> {
    le_bytes(value_bits(v), store_width(kind) as nat)
}

/// The address that an access reaches: base and offset, both unsigned 32-bit
/// numbers, added without wrapping.
pub open spec fn effective_address(base: i32, offset: u32) -> nat {
    (u32_of(base) + offset) as nat
}

/// The error of an access of `width` bytes at `address` that ends past a
/// memory of `len` bytes.
pub open spec fn access_error(len: nat, address: nat, width: nat) -> memory::Error {
    if address + width <= usize::MAX {
        memory::Error::OutOfBounds(Some((address + width) as usize), len as usize)
    } else {
        memory::Error::OutOfBounds(None, len as usize)
    }
}

/// The slot of the memory of the current frame's module.
pub open spec fn current_memory<H>(s: Seq<StackEntry>, store: &Store<H>) -> Result<usize, Trapped> {
    match current_frame_of(s) {
        Err(e) => Err(Trapped { trap: TrapView::Stack(e), stack: s }),
        Ok(frame) => match store.mems.spec_resolve(frame.module_index, 0) {
            Some(slot) => Ok(slot),
            None => Err(Trapped { trap: TrapView::UndefinedMemory(0), stack: s }),
        },
    }
}

/// A load: takes the base off the stack and puts the value read on it.
pub open spec fn load_spec<H>(s: Seq<StackEntry>, store: &Store<H>, kind: LoadKind, offset: u32) -> Result<Seq<StackEntry>, Trapped> {
    match pop_as_spec::<i32>(s) {
        Err(t) => Err(t),
        Ok((base, rest)) => match current_memory(rest, store) {
            Err(t) => Err(t),
            Ok(slot) => {
                let data = store.mems.items@[slot as int]@;
                let address = effective_address(base, offset);
                let width = load_width(kind) as nat;
                if address + width <= data.len() {
                    Ok(
                        push_value_spec(
                            rest,
                            load_value(kind, data.subrange(address as int, (address + width) as int)),
                        ),
                    )
                } else {
                    Err(Trapped { trap: TrapView::Memory(access_error(data.len(), address, width)), stack: rest })
                }
            },
        },
    }
}

/// Taking a value of type `ty` off the stack, whatever it holds.
pub open spec fn pop_of_type(s: Seq<StackEntry>, ty: ValueType) -> Result<(Value, Seq<StackEntry>), Trapped> {
    match pop_value_result(s) {
        Err(e) => Err(Trapped { trap: TrapView::Stack(e), stack: s }),
        Ok(v) => if v.value_type() == ty {
            Ok((v, s.drop_last()))
        } else {
            Err(Trapped { trap: TrapView::UnexpectedStackValueType(ty, v.value_type()), stack: s.drop_last() })
        },
    }
}

/// A store: takes the value, then the base, off the stack and writes the low
/// bytes of the value.
pub open spec fn store_spec<H>(m: Machine, store: &Store<H>, kind: StoreKind, offset: u32) -> Result<Next, Trapped> {
    match pop_of_type(m.stack, store_type(kind)) {
        Err(t) => Err(t),
        Ok((v, s1)) => match pop_as_spec::<i32>(s1) {
            Err(t) => Err(t),
            Ok((base, rest)) => match current_memory(rest, store) {
                Err(t) => Err(t),
                Ok(slot) => {
                    let data = store.mems.items@[slot as int]@;
                    let address = effective_address(base, offset);
                    let width = store_width(kind) as nat;
                    if address + width <= data.len() {
                        Ok(
                            Next {
                                signal: Signal::Next,
                                machine: Machine { stack: rest, ..m },
                                effect: Effect::WriteMemory {
                                    slot,
                                    offset: address,
                                    bytes: store_bytes(kind, v),
                                },
                            },
                        )
                    } else {
                        Err(
                            Trapped {
                                trap: TrapView::Memory(access_error(data.len(), address, width)),
                                stack: rest,
                            },
                        )
                    }
                },
            },
        },
    }
}

/// `memory.size`: puts the number of pages on the stack.
pub open spec fn memory_size_spec<H>(s: Seq<StackEntry>, store: &Store<H>) -> Result<Seq<StackEntry>, Trapped> {
    match current_memory(s, store) {
        Err(t) => Err(t),
        Ok(slot) => Ok(push_value_spec(s, Value::I32(store.mems.items@[slot as int].pages() as i32))),
    }
}

/// `memory.grow`: takes the number of pages off the stack; where the memory
/// can grow by that many it does, and its old size is put on the stack; where
/// it cannot, -1 is, and the memory stays as it was.
pub open spec fn memory_grow_spec<H>(m: Machine, store: &Store<H>) -> Result<Next, Trapped> {
    match pop_as_spec::<i32>(m.stack) {
        Err(t) => Err(t),
        Ok((n, rest)) => match current_memory(rest, store) {
            Err(t) => Err(t),
            Ok(slot) => {
                let mem = store.mems.items@[slot as int];
                if mem.can_grow(u32_of(n) as usize) {
                    Ok(
                        Next {
                            signal: Signal::Next,
                            machine: Machine {
                                stack: push_value_spec(rest, Value::I32(mem.pages() as i32)),
                                ..m
                            },
                            effect: Effect::GrowMemory { slot, pages: u32_of(n) as usize },
                        },
                    )
                } else {
                    Ok(
                        Next {
                            signal: Signal::Next,
                            machine: Machine { stack: push_value_spec(rest, Value::I32(-1i32)), ..m },
                            effect: Effect::Unchanged,
                        },
                    )
                }
            },
        },
    }
}

// ----- locals and globals -----

/// `local.get`: puts the local of the current frame on the stack.
pub open spec fn local_get_spec(s: Seq<StackEntry>, index: u32) -> Result<Seq<StackEntry>, Trapped> {
    match current_frame_of(s) {
        Err(e) => Err(Trapped { trap: TrapView::Stack(e), stack: s }),
        Ok(frame) => match frame_local(frame, index as usize) {
            Ok(v) => Ok(push_value_spec(s, v)),
            Err(e) => Err(Trapped { trap: TrapView::Stack(e), stack: s }),
        },
    }
}

/// `local.set`: takes a value off the stack and sets the local of the
/// current frame to it.
pub open spec fn local_set_spec(s: Seq<StackEntry>, index: u32) -> Result<Seq<StackEntry>, Trapped> {
    match pop_value_spec(s) {
        Err(t) => Err(t),
        Ok((v, rest)) => match set_local_result(rest, index as usize) {
            Ok(_) => Ok(set_local_stack(rest, index as usize, v)),
            Err(e) => Err(Trapped { trap: TrapView::Stack(e), stack: rest }),
        },
    }
}

/// `local.tee`: sets the local to the value on top and leaves the value
/// where it is.
pub open spec fn local_tee_spec(s: Seq<StackEntry>, index: u32) -> Result<Seq<StackEntry>, Trapped> {
    match pop_value_spec(s) {
        Err(t) => Err(t),
        Ok((v, rest)) => match set_local_result(rest, index as usize) {
            Ok(_) => Ok(push_value_spec(set_local_stack(rest, index as usize, v), v)),
            Err(e) => Err(Trapped { trap: TrapView::Stack(e), stack: rest }),
        },
    }
}

/// `global.get`: puts the value of the global on the stack.
pub open spec fn global_get_spec<H>(
    s: Seq<StackEntry>,
    store: &Store<H>,
    module_index: crate::address::ModuleIndex,
    index: u32,
) -> Result<Seq<StackEntry>, Trapped> {
    match store.globals.spec_resolve(module_index, index as usize) {
        Some(slot) => Ok(push_value_spec(s, store.globals.items@[slot as int].spec_value())),
        None => Err(Trapped { trap: TrapView::UndefinedGlobal(index as usize), stack: s }),
    }
}

/// `global.set`: takes a value off the stack and sets the global to it. Traps
/// where the global is immutable or of another type.
pub open spec fn global_set_spec<H>(
    m: Machine,
    store: &Store<H>,
    module_index: crate::address::ModuleIndex,
    index: u32,
) -> Result<Next, Trapped> {
    match pop_value_spec(m.stack) {
        Err(t) => Err(t),
        Ok((v, rest)) => match store.globals.spec_resolve(module_index, index as usize) {
            None => Err(Trapped { trap: TrapView::UndefinedGlobal(index as usize), stack: rest }),
            Some(slot) => match set_global_result(store.globals.items@[slot as int].spec_ty(), v) {
                Err(e) => Err(Trapped { trap: TrapView::Global(e), stack: rest }),
                Ok(_) => Ok(
                    Next {
                        signal: Signal::Next,
                        machine: Machine { stack: rest, ..m },
                        effect: Effect::SetGlobal { slot, value: v },
                    },
                ),
            },
        },
    }
}

/// `select`: takes the condition, the second and the first value off the
/// stack, and puts the first back where the condition is not zero, else the
/// second.
pub open spec fn select_spec(s: Seq<StackEntry>) -> Result<Seq<StackEntry>, Trapped> {
    match pop_as_spec::<i32>(s) {
        Err(t) => Err(t),
        Ok((cond, s1)) => match pop_value_spec(s1) {
            Err(t) => Err(t),
            Ok((val2, s2)) => match pop_value_spec(s2) {
                Err(t) => Err(t),
                Ok((val1, rest)) => Ok(
                    push_value_spec(
                        rest,
                        if cond != 0 {
                            val1
                        } else {
                            val2
                        },
                    ),
                ),
            },
        },
    }
}

/// `drop`: takes a value off the stack.
pub open spec fn drop_spec(s: Seq<StackEntry>) -> Result<Seq<StackEntry>, Trapped> {
    match pop_value_spec(s) {
        Err(t) => Err(t),
        Ok((_, rest)) => Ok(rest),
    }
}

// ----- control -----

/// Taking `n` values off the stack: the values, the topmost first, and the
/// rest.
pub open spec fn pop_values(s: Seq<StackEntry>, n: nat) -> Result<(Seq<Value>, Seq<StackEntry>), Trapped>
    decreases n,
{
    if n == 0 {
        Ok((Seq::<Value>::empty(), s))
    } else {
        match pop_value_spec(s) {
            Err(t) => Err(t),
            Ok((v, s1)) => match pop_values(s1, (n - 1) as nat) {
                Err(t) => Err(t),
                Ok((vs, rest)) => Ok((seq![v] + vs, rest)),
            },
        }
    }
}

/// The stack with the values `vs` on top, the last of them topmost.
pub open spec fn push_values(s: Seq<StackEntry>, vs: Seq<Value>) -> Seq<StackEntry> {
    s + vs.map_values(|v: Value| StackEntry::Value(v))
}

/// The stack without its top entries down to and including the `n`-th label
/// from the top. Values above and between the labels go with them. Fails
/// where an activation or the bottom comes first.
pub open spec fn unwind(s: Seq<StackEntry>, n: nat) -> Result<Seq<StackEntry>, Trapped>
    decreases s.len(),
{
    if s.len() == 0 {
        Err(Trapped { trap: TrapView::Stack(stack::Error::Underflow), stack: s })
    } else {
        match s.last() {
            StackEntry::Value(_) => unwind(s.drop_last(), n),
            StackEntry::Label(_) => if n <= 1 {
                Ok(s.drop_last())
            } else {
                unwind(s.drop_last(), (n - 1) as nat)
            },
            StackEntry::Activation(_) => Err(
                Trapped {
                    trap: TrapView::Stack(
                        stack::Error::TypeMismatch {
                            expected: StackValueType::Label,
                            actual: StackValueType::Activation,
                        },
                    ),
                    stack: s,
                },
            ),
        }
    }
}

/// The index just past the `End` that closes the `n`-th enclosing block,
/// scanning forward from `from`. A `Block`, `Loop` or `If` on the way opens
/// one more block, which its own `End` closes.
pub open spec fn scan_end(insts: Seq<Instruction>, from: int, n: int) -> Option<int>
    decreases insts.len() - from,
{
    if from < 0 || from >= insts.len() {
        None
    } else {
        match insts[from].kind {
            InstructionKind::End => if n <= 1 {
                Some(from + 1)
            } else {
                scan_end(insts, from + 1, n - 1)
            },
            InstructionKind::Block { .. } | InstructionKind::Loop { .. } | InstructionKind::If { .. } => scan_end(
                insts,
                from + 1,
                n + 1,
            ),
            _ => scan_end(insts, from + 1, n),
        }
    }
}

/// Where an `If` whose condition is zero goes on, scanning forward from
/// `from`: just past the `Else` of this `If`, or on the `End` that closes it
/// where it has no `Else`.
pub open spec fn scan_else(insts: Seq<Instruction>, from: int, n: int) -> Option<int>
    decreases insts.len() - from,
{
    if from < 0 || from >= insts.len() {
        None
    } else {
        match insts[from].kind {
            InstructionKind::End => if n <= 1 {
                Some(from)
            } else {
                scan_else(insts, from + 1, n - 1)
            },
            InstructionKind::Block { .. } | InstructionKind::Loop { .. } | InstructionKind::If { .. } => scan_else(
                insts,
                from + 1,
                n + 1,
            ),
            InstructionKind::Else => if n == 1 {
                Some(from + 1)
            } else {
                scan_else(insts, from + 1, n)
            },
            _ => scan_else(insts, from + 1, n),
        }
    }
}

/// The body of the function in slot `addr`.
pub open spec fn func_insts<H>(store: &Store<H>, addr: ExecutableFuncAddr) -> Result<Seq<Instruction>, TrapView> {
    if addr.0 < store.funcs.items@.len() {
        match store.funcs.items@[addr.0 as int] {
            FunctionInstance::Defined(f) => Ok(f.instructions@),
            FunctionInstance::Host(_) => Err(TrapView::UndefinedFunc(addr.0)),
        }
    } else {
        Err(TrapView::UndefinedFunc(addr.0))
    }
}

/// How many values the function in slot `addr` returns.
pub open spec fn func_arity<H>(store: &Store<H>, addr: ExecutableFuncAddr) -> Result<nat, TrapView> {
    if addr.0 < store.funcs.items@.len() {
        Ok(store.funcs.items@[addr.0 as int].spec_ty().returns@.len())
    } else {
        Err(TrapView::UndefinedFunc(addr.0))
    }
}

/// The machine with its program counter at instruction `index` of the same
/// function, where `index` is one.
pub open spec fn jump(pc: ProgramCounter, stack: Seq<StackEntry>, index: Option<int>) -> Result<(Signal, Machine), Trapped> {
    match index {
        Some(i) => if i <= u32::MAX {
            Ok((Signal::Next, Machine { pc: ProgramCounter { inst_index: InstIndex(i as u32), ..pc }, stack }))
        } else {
            Err(Trapped { trap: TrapView::NoMoreInstruction, stack })
        },
        None => Err(Trapped { trap: TrapView::NoMoreInstruction, stack }),
    }
}

/// The label that a branch of depth `depth` aims at: the current frame's
/// label that many levels out from the innermost.
pub open spec fn target_label(s: Seq<StackEntry>, depth: u32) -> Result<Label, Trapped> {
    if top_frame(s) is None {
        Err(Trapped { trap: TrapView::Stack(stack::Error::NoCallFrame), stack: s })
    } else if depth + 1 > frame_labels(s).len() {
        Err(Trapped { trap: TrapView::Stack(stack::Error::UndefinedLabel(depth as usize)), stack: s })
    } else {
        Ok(frame_labels(s)[frame_labels(s).len() - depth - 1])
    }
}

/// Return from the current function: takes as many values as the function
/// returns off the stack, removes the frame with all that is above it, puts
/// the values back (the one that was topmost first), and goes on where the
/// frame says. In the root frame the program counter stays.
pub open spec fn return_spec<H>(m: Machine, store: &Store<H>) -> Result<(Signal, Machine), Trapped> {
    match current_frame_of(m.stack) {
        Err(e) => Err(Trapped { trap: TrapView::Stack(e), stack: m.stack }),
        Ok(frame) => match func_arity(store, m.pc.exec_addr) {
            Err(t) => Err(Trapped { trap: t, stack: m.stack }),
            Ok(arity) => match pop_values(m.stack, arity) {
                Err(t) => Err(t),
                Ok((results, s1)) => match top_frame(s1) {
                    None => Err(Trapped { trap: TrapView::Stack(stack::Error::NoCallFrame), stack: s1 }),
                    Some(p) => Ok(
                        (
                            Signal::Next,
                            Machine {
                                pc: match frame.ret_pc {
                                    Some(ret_pc) => ret_pc,
                                    None => m.pc,
                                },
                                stack: push_values(s1.subrange(0, p), results),
                            },
                        ),
                    ),
                },
            },
        },
    }
}

/// A branch of depth `depth`: takes as many values as the target label
/// carries, unwinds `depth + 1` labels, puts the values back in their order,
/// and goes on at the target: the header of a loop, the return from the
/// function, or just past the end of a block.
pub open spec fn branch_spec<H>(m: Machine, store: &Store<H>, depth: u32) -> Result<(Signal, Machine), Trapped> {
    match target_label(m.stack, depth) {
        Err(t) => Err(t),
        Ok(label) => match pop_values(m.stack, label.arity() as nat) {
            Err(t) => Err(t),
            Ok((carried, s1)) => match unwind(s1, (depth + 1) as nat) {
                Err(t) => Err(t),
                Ok(s2) => {
                    let stack = push_values(s2, carried.reverse());
                    match label {
                        Label::Loop(l) => Ok(
                            (
                                Signal::Next,
                                Machine { pc: ProgramCounter { inst_index: l.inst_index, ..m.pc }, stack },
                            ),
                        ),
                        Label::Return(_) => return_spec(Machine { pc: m.pc, stack }, store),
                        _ => match func_insts(store, m.pc.exec_addr) {
                            Err(t) => Err(Trapped { trap: t, stack }),
                            Ok(insts) => jump(
                                m.pc,
                                stack,
                                scan_end(insts, m.pc.inst_index.0 as int, depth + 1),
                            ),
                        },
                    }
                },
            },
        },
    }
}

/// `if`: takes the condition off the stack and puts the label on it. Where
/// the condition is zero, goes on past the `else` or on the `end`.
pub open spec fn if_spec<H>(m: Machine, store: &Store<H>, ty: BlockType) -> Result<(Signal, Machine), Trapped> {
    match pop_as_spec::<i32>(m.stack) {
        Err(t) => Err(t),
        Ok((cond, rest)) => {
            let stack = rest.push(StackEntry::Label(Label::If(ty.arity())));
            if cond != 0 {
                Ok((Signal::Next, Machine { stack, ..m }))
            } else {
                match func_insts(store, m.pc.exec_addr) {
                    Err(t) => Err(Trapped { trap: t, stack }),
                    Ok(insts) => jump(m.pc, stack, scan_else(insts, m.pc.inst_index.0 as int, 1)),
                }
            }
        },
    }
}

/// `end`. At the top level of a function, where the frame holds one label:
/// takes the results off the stack, then the label, removes the frame, puts
/// the results back (the one that was topmost first), and goes on where the
/// frame says, or signals `End` in the root frame. Inside a block: takes all
/// values on top off, then the label, and puts the values back (the one that
/// was topmost first).
pub open spec fn end_spec<H>(m: Machine, store: &Store<H>) -> Result<(Signal, Machine), Trapped> {
    match current_frame_of(m.stack) {
        Err(e) => Err(Trapped { trap: TrapView::Stack(e), stack: m.stack }),
        Ok(frame) => if frame_labels(m.stack).len() == 1 {
            match func_arity(store, m.pc.exec_addr) {
                Err(t) => Err(Trapped { trap: t, stack: m.stack }),
                Ok(arity) => match pop_values(m.stack, arity) {
                    Err(t) => Err(t),
                    Ok((results, s1)) => match pop_label_result(s1) {
                        Err(e) => Err(Trapped { trap: TrapView::Stack(e), stack: s1 }),
                        Ok(_) => match top_frame(s1.drop_last()) {
                            None => Err(
                                Trapped {
                                    trap: TrapView::Stack(stack::Error::NoCallFrame),
                                    stack: s1.drop_last(),
                                },
                            ),
                            Some(p) => {
                                let stack = push_values(s1.subrange(0, p), results);
                                match frame.ret_pc {
                                    Some(ret_pc) => Ok((Signal::Next, Machine { pc: ret_pc, stack })),
                                    None => Ok((Signal::End, Machine { pc: m.pc, stack })),
                                }
                            },
                        },
                    },
                },
            }
        } else {
            match pop_values(m.stack, values_on_top(m.stack)) {
                Err(t) => Err(t),
                Ok((values, s1)) => match pop_label_result(s1) {
                    Err(e) => Err(Trapped { trap: TrapView::Stack(e), stack: s1 }),
                    Ok(_) => Ok((Signal::Next, Machine { stack: push_values(s1.drop_last(), values), ..m })),
                },
            }
        },
    }
}

/// The values `acc`, which were taken off first, put before those of `r`.
pub open spec fn prepend(
    acc: Seq<Value>,
    r: Result<(Seq<Value>, Seq<StackEntry>), Trapped>,
) -> Result<(Seq<Value>, Seq<StackEntry>), Trapped> {
    match r {
        Ok((vs, rest)) => Ok((acc + vs, rest)),
        Err(t) => Err(t),
    }
}

/// Taking `n` values off is taking one off and then `n - 1`.
pub proof fn lemma_pop_values_step(acc: Seq<Value>, s: Seq<StackEntry>, n: nat)
    requires
        n > 0,
    ensures
        prepend(acc, pop_values(s, n)) == (match pop_value_spec(s) {
            Err(t) => Err(t),
            Ok((v, s1)) => prepend(acc.push(v), pop_values(s1, (n - 1) as nat)),
        }),
{
    match pop_value_spec(s) {
        Err(t) => {},
        Ok((v, s1)) => {
            match pop_values(s1, (n - 1) as nat) {
                Err(t) => {},
                Ok((vs, rest)) => {
                    assert(acc + (seq![v] + vs) =~= acc.push(v) + vs);
                },
            }
        },
    }
}

/// Taking no value off changes nothing.
pub proof fn lemma_pop_values_done(acc: Seq<Value>, s: Seq<StackEntry>)
    ensures
        prepend(acc, pop_values(s, 0)) == Ok::<(Seq<Value>, Seq<StackEntry>), Trapped>((acc, s)),
{
    assert(acc + Seq::<Value>::empty() =~= acc);
}

/// Taking `n` values off succeeds where `n` values are on top, and only
/// there; it then yields them, the topmost first, and the stack below them.
pub proof fn lemma_pop_values(s: Seq<StackEntry>, n: nat)
    ensures
        pop_values(s, n) is Ok <==> n <= values_on_top(s),
        values_on_top(s) <= s.len(),
        pop_values(s, n) matches Ok((vs, rest)) ==> vs.len() == n && rest == s.subrange(
            0,
            s.len() - n,
        ) && forall|j: int| 0 <= j < n ==> s[s.len() - 1 - j] == StackEntry::Value(#[trigger] vs[j]),
    decreases n,
{
    crate::stack::lemma_values_on_top(s);
    if n == 0 {
        assert(s.subrange(0, s.len() as int) =~= s);
    } else {
        match pop_value_spec(s) {
            Err(t) => {},
            Ok((v, s1)) => {
                lemma_pop_values(s1, (n - 1) as nat);
                crate::stack::lemma_values_on_top(s1);
                match pop_values(s1, (n - 1) as nat) {
                    Err(t) => {},
                    Ok((vs, rest)) => {
                        let all = seq![v] + vs;
                        assert(rest =~= s.subrange(0, s.len() - n));
                        assert forall|j: int| 0 <= j < n implies s[s.len() - 1 - j]
                            == StackEntry::Value(#[trigger] all[j]) by {
                            if j > 0 {
                                assert(all[j] == vs[j - 1]);
                                assert(s1[s1.len() - 1 - (j - 1)] == StackEntry::Value(vs[j - 1]));
                            }
                        }
                    },
                }
            },
        }
    }
}

/// Values on top do not change what unwinding gives.
pub proof fn lemma_unwind_values(s: Seq<StackEntry>, m: int, n: nat)
    requires
        0 <= m <= s.len(),
        forall|i: int| m <= i < s.len() ==> (#[trigger] s[i]) is Value,
    ensures
        unwind(s, n) == unwind(s.subrange(0, m), n),
    decreases s.len() - m,
{
    if m < s.len() {
        assert(s.drop_last().subrange(0, m) =~= s.subrange(0, m));
        lemma_unwind_values(s.drop_last(), m, n);
    } else {
        assert(s.subrange(0, m) =~= s);
    }
}


// ----- calls -----

/// The types of the values on top of the stack, the topmost first.
pub open spec fn top_value_types(s: Seq<StackEntry>) -> Seq<ValueType> {
    Seq::new(values_on_top(s), |j: int| s[s.len() - 1 - j]->Value_0.value_type())
}

/// What a call leads to.
pub enum CallTarget {
    /// A defined function: the machine at the entry of its body.
    Entered(Machine),
    /// The host function in slot `slot`, which is to be called with `args`
    /// for the module `module` of the address that was called; `rest` is the
    /// stack without the arguments and `arity` the number of results that
    /// the function's type declares.
    Host { slot: usize, module: ModuleIndex, args: Seq<Value>, rest: Seq<StackEntry>, arity: nat },
}

/// A call of the function that `addr` stands for. The arguments, as many as
/// the function takes, come off the stack, whatever their types. For a
/// defined function a frame with the arguments and zeroed locals goes on the
/// stack, then the label of the return, and execution goes on at the start of
/// its body; the frame keeps the caller's program counter. Where fewer
/// values are on top than the function takes, those that are come off and
/// the call traps.
pub open spec fn invoke_spec<H>(m: Machine, store: &Store<H>, addr: FuncAddr) -> Result<CallTarget, Trapped> {
    match store.funcs.spec_resolve(addr.0, addr.1) {
        None => Err(Trapped { trap: TrapView::UndefinedFunc(addr.1), stack: m.stack }),
        Some(slot) => {
            let func = store.funcs.items@[slot as int];
            let ty = func.spec_ty();
            match pop_values(m.stack, ty.params@.len()) {
                Err(_) => Err(
                    Trapped {
                        trap: TrapView::DirectCallTypeMismatch {
                            func_name: func.spec_name()@,
                            expected: ty.params@,
                            actual: top_value_types(m.stack),
                        },
                        stack: m.stack.subrange(0, m.stack.len() - values_on_top(m.stack)),
                    },
                ),
                Ok((popped, rest)) => match func {
                    FunctionInstance::Defined(f) => Ok(
                        CallTarget::Entered(
                            Machine {
                                pc: ProgramCounter {
                                    module_index: f.module_index,
                                    exec_addr: ExecutableFuncAddr(slot),
                                    inst_index: InstIndex(0),
                                },
                                stack: rest.push(
                                    StackEntry::Activation(
                                        FrameView {
                                            module_index: f.module_index,
                                            locals: initial_locals(popped.reverse(), f.locals@),
                                            ret_pc: Some(m.pc),
                                            exec_addr: ExecutableFuncAddr(slot),
                                        },
                                    ),
                                ).push(StackEntry::Label(Label::Return(ty.returns@.len() as usize))),
                            },
                        ),
                    ),
                    FunctionInstance::Host(_) => Ok(
                        CallTarget::Host {
                            slot,
                            module: addr.0,
                            args: popped.reverse(),
                            rest,
                            arity: ty.returns@.len(),
                        },
                    ),
                },
            }
        },
    }
}

/// `call`: a call of function `function_index` of the current frame's module.
pub open spec fn call_spec<H>(m: Machine, store: &Store<H>, function_index: u32) -> Result<CallTarget, Trapped> {
    match current_frame_of(m.stack) {
        Err(e) => Err(Trapped { trap: TrapView::Stack(e), stack: m.stack }),
        Ok(frame) => invoke_spec(m, store, FuncAddr(frame.module_index, function_index as usize)),
    }
}

/// `call_indirect`: takes an index off the stack, reads the function in that
/// slot of the current module's table, and calls it where its type is the
/// module's type of index `index`.
pub open spec fn call_indirect_spec<H>(m: Machine, store: &Store<H>, index: u32) -> Result<CallTarget, Trapped> {
    match current_frame_of(m.stack) {
        Err(e) => Err(Trapped { trap: TrapView::Stack(e), stack: m.stack }),
        Ok(frame) => if !(1 <= frame.module_index.0 <= store.modules@.len()) {
            Err(Trapped { trap: TrapView::UndefinedType(index as usize), stack: m.stack })
        } else {
            match store.modules@[frame.module_index.0 - 1].instance {
                ModuleInstance::Host(_) => Err(
                    Trapped { trap: TrapView::UndefinedType(index as usize), stack: m.stack },
                ),
                ModuleInstance::Defined(module) => if index >= module.types@.len() {
                    Err(Trapped { trap: TrapView::UndefinedType(index as usize), stack: m.stack })
                } else {
                    let ty = module.types@[index as int];
                    match pop_as_spec::<i32>(m.stack) {
                        Err(t) => Err(t),
                        Ok((buf_index, rest)) => match store.tables.spec_resolve(frame.module_index, 0) {
                            None => Err(Trapped { trap: TrapView::UndefinedTable(0), stack: rest }),
                            Some(table) => match table_get(
                                store.tables.items@[table as int]@,
                                u32_of(buf_index) as usize,
                            ) {
                                Err(e) => Err(Trapped { trap: TrapView::Table(e), stack: rest }),
                                Ok(func_addr) => match store.funcs.spec_resolve(
                                    func_addr.0,
                                    func_addr.1,
                                ) {
                                    None => Err(
                                        Trapped { trap: TrapView::UndefinedFunc(func_addr.1), stack: rest },
                                    ),
                                    Some(slot) => {
                                        let func = store.funcs.items@[slot as int];
                                        if func.spec_ty()@ == ty@ {
                                            invoke_spec(Machine { stack: rest, ..m }, store, func_addr)
                                        } else {
                                            Err(
                                                Trapped {
                                                    trap: TrapView::IndirectCallTypeMismatch(
                                                        func.spec_name()@,
                                                        ty@,
                                                        func.spec_ty()@,
                                                    ),
                                                    stack: rest,
                                                },
                                            )
                                        }
                                    },
                                },
                            },
                        },
                    }
                },
            }
        },
    }
}

/// What an instruction other than a call, and other than one that the float
/// unit computes, does. The program counter of `m` is already past the
/// instruction.
pub open spec fn plain_spec<H>(
    m: Machine,
    store: &Store<H>,
    kind: InstructionKind,
    module_index: ModuleIndex,
) -> Result<Next, Trapped>
    recommends
        !(kind is Call),
        !(kind is CallIndirect),
        delegated(kind) is None,
{
    match kind {
        InstructionKind::Unreachable => Err(Trapped { trap: TrapView::Unreachable, stack: m.stack }),
        InstructionKind::Nop => on_stack(m, Ok(m.stack)),
        InstructionKind::Block { ty } => on_stack(
            m,
            Ok(m.stack.push(StackEntry::Label(Label::Block(ty.arity())))),
        ),
        InstructionKind::Loop { ty } => on_stack(
            m,
            Ok(
                m.stack.push(
                    StackEntry::Label(
                        Label::Loop(LoopLabel { inst_index: InstIndex((m.pc.inst_index.0 - 1) as u32) }),
                    ),
                ),
            ),
        ),
        InstructionKind::If { ty } => on_machine(if_spec(m, store, ty)),
        InstructionKind::Else => on_machine(branch_spec(m, store, 0)),
        InstructionKind::End => on_machine(end_spec(m, store)),
        InstructionKind::Br { relative_depth } => on_machine(branch_spec(m, store, relative_depth)),
        InstructionKind::BrIf { relative_depth } => match pop_as_spec::<i32>(m.stack) {
            Err(t) => Err(t),
            Ok((cond, rest)) => if cond != 0 {
                on_machine(branch_spec(Machine { stack: rest, ..m }, store, relative_depth))
            } else {
                on_stack(m, Ok(rest))
            },
        },
        InstructionKind::BrTable { table } => match pop_as_spec::<i32>(m.stack) {
            Err(t) => Err(t),
            Ok((index, rest)) => on_machine(
                branch_spec(
                    Machine { stack: rest, ..m },
                    store,
                    br_table_target(table.table@, table.default, u32_of(index)),
                ),
            ),
        },
        InstructionKind::Return => on_machine(return_spec(m, store)),
        InstructionKind::Drop => on_stack(m, drop_spec(m.stack)),
        InstructionKind::Select => on_stack(m, select_spec(m.stack)),
        InstructionKind::LocalGet { local_index } => on_stack(m, local_get_spec(m.stack, local_index)),
        InstructionKind::LocalSet { local_index } => on_stack(m, local_set_spec(m.stack, local_index)),
        InstructionKind::LocalTee { local_index } => on_stack(m, local_tee_spec(m.stack, local_index)),
        InstructionKind::GlobalGet { global_index } => on_stack(
            m,
            global_get_spec(m.stack, store, module_index, global_index),
        ),
        InstructionKind::GlobalSet { global_index } => global_set_spec(
            m,
            store,
            module_index,
            global_index,
        ),
        InstructionKind::Load { kind, memarg } => on_stack(
            m,
            load_spec(m.stack, store, kind, memarg.offset),
        ),
        InstructionKind::Store { kind, memarg } => store_spec(m, store, kind, memarg.offset),
        InstructionKind::MemorySize { .. } => on_stack(m, memory_size_spec(m.stack, store)),
        InstructionKind::MemoryGrow { .. } => memory_grow_spec(m, store),
        InstructionKind::I32Const { value } => on_stack(m, Ok(push_value_spec(m.stack, Value::I32(value)))),
        InstructionKind::I64Const { value } => on_stack(m, Ok(push_value_spec(m.stack, Value::I64(value)))),
        InstructionKind::F32Const { bits } => on_stack(m, Ok(push_value_spec(m.stack, Value::F32(bits)))),
        InstructionKind::F64Const { bits } => on_stack(m, Ok(push_value_spec(m.stack, Value::F64(bits)))),
        InstructionKind::Unsupported => Err(Trapped { trap: TrapView::Unimplemented, stack: m.stack }),
        InstructionKind::Call { .. } => Err(Trapped { trap: TrapView::Unimplemented, stack: m.stack }),
        InstructionKind::CallIndirect { .. } => Err(
            Trapped { trap: TrapView::Unimplemented, stack: m.stack },
        ),
        _ => on_stack(m, numeric_spec(kind, m.stack)),
    }
}

/// The program counter one instruction on, unless the index is at its limit.
pub open spec fn advance(pc: ProgramCounter) -> Option<ProgramCounter> {
    if pc.inst_index.0 < u32::MAX {
        Some(ProgramCounter { inst_index: InstIndex((pc.inst_index.0 + 1) as u32), ..pc })
    } else {
        None
    }
}

/// The signal of a step that did not trap: `End` once the stack holds no
/// activation, else the signal of the instruction.
pub open spec fn final_signal(signal: Signal, stack: Seq<StackEntry>) -> Signal {
    if top_frame(stack) is None {
        Signal::End
    } else {
        signal
    }
}

/// A step with its signal made final.
pub open spec fn finish(r: Result<Next, Trapped>) -> Result<Next, Trapped> {
    match r {
        Ok(next) => Ok(Next { signal: final_signal(next.signal, next.machine.stack), ..next }),
        Err(t) => Err(t),
    }
}

/// How the call of a host function ends that gave `outcome` and left the
/// results `left`: where it failed, with the trap of its error; where it
/// left another number of results than `arity`, with the trap that says so;
/// both leave the stack `rest`. Else with `signal` and the results on top of
/// `rest`, the first of them lowest.
pub open spec fn host_results(
    outcome: Result<(), crate::host::HostError>,
    left: Seq<Value>,
    rest: Seq<StackEntry>,
    arity: nat,
    signal: Signal,
    r: Result<Signal, Trap>,
    stack: Seq<StackEntry>,
) -> bool {
    match outcome {
        Err(e) => r matches Err(t) && t@ == TrapView::HostExecution(e) && stack == rest,
        Ok(_) => if left.len() == arity {
            r == Ok::<Signal, Trap>(signal) && stack == push_values(rest, left)
        } else {
            r matches Err(t) && t@ == (TrapView::HostResultCount {
                expected: arity as usize,
                actual: left.len() as usize,
            }) && stack == rest
        },
    }
}

/// What the call of instruction `kind` leads to; `None` for an instruction
/// that is no call and for a call that traps before it is made.
pub open spec fn call_target<H>(m: Machine, store: &Store<H>, kind: InstructionKind) -> Option<
    CallTarget,
> {
    match kind {
        InstructionKind::Call { function_index } => match call_spec(m, store, function_index) {
            Ok(target) => Some(target),
            Err(_) => None,
        },
        InstructionKind::CallIndirect { index, .. } => match call_indirect_spec(m, store, index) {
            Ok(target) => Some(target),
            Err(_) => None,
        },
        _ => None,
    }
}

/// How the call of a host function ends, whatever the function did: with
/// `Next`, the program counter where it was and as many values as the
/// function's type declares on top of what the arguments left; or with the
/// trap of a failed call or of a wrong number of results, the program
/// counter where it was and the stack as the arguments left it.
pub open spec fn host_returned(
    pc: ProgramCounter,
    rest: Seq<StackEntry>,
    arity: nat,
    signal: Signal,
    r: Result<Signal, Trap>,
    after: Machine,
) -> bool {
    match r {
        Ok(s) => {
            &&& s == signal
            &&& after.pc == pc
            &&& after.stack.len() == rest.len() + arity
            &&& after.stack.subrange(0, rest.len() as int) == rest
            &&& forall|j: int| rest.len() <= j < after.stack.len() ==> (#[trigger] after.stack[j]) is Value
        },
        Err(e) => {
            &&& after == (Machine { pc, stack: rest })
            &&& e@ is HostExecution || (e@ matches TrapView::HostResultCount { expected, actual }
                && expected == arity && actual != arity)
        },
    }
}

} // verus!
