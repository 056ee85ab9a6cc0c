//! The numeric instructions: tests, comparisons, operators and conversions.

use vstd::prelude::*;
use crate::executor::{ExecResult, Executor, Signal, Trap, TrapView};
use crate::float::FloatUnit;
use crate::inst::{
    ConvertOp, FloatBinOp, FloatRelOp, FloatUnOp, FloatWidth, InstructionKind, IntBinOp, IntRelOp,
    IntUnOp, IntWidth,
};
use crate::numeric::{i32_binary, i32_rel, i32_unary, i64_binary, i64_rel, i64_unary};
use crate::semantics::{delegated, unit_computed, bool_value, numeric_step, pop_as_spec, push_value_spec, Next};
use crate::stack;
use crate::stack::StackEntry;
use crate::value;
use crate::value::{i32_of, i64_of, to_i32, to_i64, to_u32, to_u64, NativeValue, Value, F32, F64};

verus! {

impl Executor {
    /// Takes a value of `T`'s type off the stack.
    pub fn pop_as<T: NativeValue>(&mut self) -> (r: ExecResult<T>)
        ensures
            final(self).pc == old(self).pc,
            match pop_as_spec::<T>(old(self)@.stack) {
                Ok((x, rest)) => r == Ok::<T, Trap>(x) && final(self)@.stack == rest,
                Err(t) => r matches Err(e) && e@ == t.trap && final(self)@.stack == t.stack,
            },
    {
        let value = match self.stack.pop_value() {
            Ok(v) => v,
            Err(e) => {
                return Err(Trap::Stack(e));
            },
        };
        match T::from_value(value) {
            Some(x) => Ok(x),
            None => Err(Trap::UnexpectedStackValueType(T::value_type(), value.value_type())),
        }
    }

    /// Puts the result of an operator on the stack, or hands on its trap.
    pub(crate) fn push_computed(&mut self, computed: Result<Value, value::Error>) -> (r: ExecResult<Signal>)
        ensures
            final(self).pc == old(self).pc,
            match computed {
                Ok(v) => r == Ok::<Signal, Trap>(Signal::Next) && final(self)@.stack
                    == push_value_spec(old(self)@.stack, v),
                Err(e) => r matches Err(t) && t@ == TrapView::Value(e) && final(self)@.stack
                    == old(self)@.stack,
            },
    {
        match computed {
            Ok(v) => {
                self.stack.push_value(v);
                Ok(Signal::Next)
            },
            Err(e) => Err(Trap::Value(e)),
        }
    }

    /// Puts a value that the float unit computed on the stack.
    pub(crate) fn push_delegated(&mut self, v: Value) -> (r: ExecResult<Signal>)
        ensures
            final(self).pc == old(self).pc,
            r == Ok::<Signal, Trap>(Signal::Next),
            final(self)@.stack.len() == old(self)@.stack.len() + 1,
            final(self)@.stack.drop_last() == old(self)@.stack,
            final(self)@.stack.last() == StackEntry::Value(v),
    {
        self.stack.push_value(v);
        assert(self.stack@.drop_last() =~= old(self).stack@);
        Ok(Signal::Next)
    }

    pub(crate) fn int_test(&mut self, width: IntWidth) -> (r: ExecResult<Signal>)
        ensures
            numeric_step(old(self)@, InstructionKind::IntTest { width }, r, final(self)@),
    {
        match width {
            IntWidth::W32 => {
                let a: i32 = self.pop_as()?;
                self.push_computed(Ok(bool_to_value(a == 0)))
            },
            IntWidth::W64 => {
                let a: i64 = self.pop_as()?;
                self.push_computed(Ok(bool_to_value(a == 0)))
            },
        }
    }

    pub(crate) fn int_rel(&mut self, width: IntWidth, op: IntRelOp) -> (r: ExecResult<Signal>)
        ensures
            numeric_step(old(self)@, InstructionKind::IntRel { width, op }, r, final(self)@),
    {
        match width {
            IntWidth::W32 => {
                let rhs: i32 = self.pop_as()?;
                let lhs: i32 = self.pop_as()?;
                self.push_computed(Ok(bool_to_value(i32_rel(op, lhs, rhs))))
            },
            IntWidth::W64 => {
                let rhs: i64 = self.pop_as()?;
                let lhs: i64 = self.pop_as()?;
                self.push_computed(Ok(bool_to_value(i64_rel(op, lhs, rhs))))
            },
        }
    }

    pub(crate) fn int_unary(&mut self, width: IntWidth, op: IntUnOp) -> (r: ExecResult<Signal>)
        ensures
            numeric_step(old(self)@, InstructionKind::IntUnary { width, op }, r, final(self)@),
    {
        match width {
            IntWidth::W32 => {
                let a: i32 = self.pop_as()?;
                self.push_computed(Ok(Value::I32(i32_unary(op, a))))
            },
            IntWidth::W64 => {
                let a: i64 = self.pop_as()?;
                self.push_computed(Ok(Value::I64(i64_unary(op, a))))
            },
        }
    }

    pub(crate) fn int_binary(&mut self, width: IntWidth, op: IntBinOp) -> (r: ExecResult<Signal>)
        ensures
            numeric_step(old(self)@, InstructionKind::IntBinary { width, op }, r, final(self)@),
    {
        match width {
            IntWidth::W32 => {
                let rhs: i32 = self.pop_as()?;
                let lhs: i32 = self.pop_as()?;
                let computed = match i32_binary(op, lhs, rhs) {
                    Ok(v) => Ok(Value::I32(v)),
                    Err(e) => Err(e),
                };
                self.push_computed(computed)
            },
            IntWidth::W64 => {
                let rhs: i64 = self.pop_as()?;
                let lhs: i64 = self.pop_as()?;
                let computed = match i64_binary(op, lhs, rhs) {
                    Ok(v) => Ok(Value::I64(v)),
                    Err(e) => Err(e),
                };
                self.push_computed(computed)
            },
        }
    }

    pub(crate) fn float_rel(&mut self, width: FloatWidth, op: FloatRelOp) -> (r: ExecResult<Signal>)
        ensures
            numeric_step(old(self)@, InstructionKind::FloatRel { width, op }, r, final(self)@),
    {
        match width {
            FloatWidth::W32 => {
                let rhs: F32 = self.pop_as()?;
                let lhs: F32 = self.pop_as()?;
                self.push_computed(Ok(bool_to_value(F32::rel(op, lhs, rhs))))
            },
            FloatWidth::W64 => {
                let rhs: F64 = self.pop_as()?;
                let lhs: F64 = self.pop_as()?;
                self.push_computed(Ok(bool_to_value(F64::rel(op, lhs, rhs))))
            },
        }
    }

    pub(crate) fn float_unary<U: FloatUnit>(&mut self, width: FloatWidth, op: FloatUnOp, float_unit: &U) -> (r:
        ExecResult<Signal>)
        ensures
            numeric_step(old(self)@, InstructionKind::FloatUnary { width, op }, r, final(self)@),
            r is Ok && delegated(InstructionKind::FloatUnary { width, op }) is Some ==> unit_computed(
                float_unit,
                InstructionKind::FloatUnary { width, op },
                old(self)@.stack,
                final(self)@.stack,
            ),
    {
        match width {
            FloatWidth::W32 => {
                let a: F32 = self.pop_as()?;
                match op {
                    FloatUnOp::Abs => self.push_computed(Ok(Value::F32(a.abs().0))),
                    FloatUnOp::Neg => self.push_computed(Ok(Value::F32(a.neg().0))),
                    _ => self.push_delegated(Value::F32(float_unit.f32_unary(op, a).0)),
                }
            },
            FloatWidth::W64 => {
                let a: F64 = self.pop_as()?;
                match op {
                    FloatUnOp::Abs => self.push_computed(Ok(Value::F64(a.abs().0))),
                    FloatUnOp::Neg => self.push_computed(Ok(Value::F64(a.neg().0))),
                    _ => self.push_delegated(Value::F64(float_unit.f64_unary(op, a).0)),
                }
            },
        }
    }

    pub(crate) fn float_binary<U: FloatUnit>(&mut self, width: FloatWidth, op: FloatBinOp, float_unit: &U) -> (r:
        ExecResult<Signal>)
        ensures
            numeric_step(old(self)@, InstructionKind::FloatBinary { width, op }, r, final(self)@),
            r is Ok && delegated(InstructionKind::FloatBinary { width, op }) is Some ==> unit_computed(
                float_unit,
                InstructionKind::FloatBinary { width, op },
                old(self)@.stack,
                final(self)@.stack,
            ),
    {
        match width {
            FloatWidth::W32 => {
                let rhs: F32 = self.pop_as()?;
                let lhs: F32 = self.pop_as()?;
                match op {
                    FloatBinOp::Min => self.push_computed(Ok(Value::F32(F32::min(lhs, rhs).0))),
                    FloatBinOp::Max => self.push_computed(Ok(Value::F32(F32::max(lhs, rhs).0))),
                    FloatBinOp::Copysign => self.push_computed(
                        Ok(Value::F32(F32::copysign(lhs, rhs).0)),
                    ),
                    _ => self.push_delegated(Value::F32(float_unit.f32_binary(op, lhs, rhs).0)),
                }
            },
            FloatWidth::W64 => {
                let rhs: F64 = self.pop_as()?;
                let lhs: F64 = self.pop_as()?;
                match op {
                    FloatBinOp::Min => self.push_computed(Ok(Value::F64(F64::min(lhs, rhs).0))),
                    FloatBinOp::Max => self.push_computed(Ok(Value::F64(F64::max(lhs, rhs).0))),
                    FloatBinOp::Copysign => self.push_computed(
                        Ok(Value::F64(F64::copysign(lhs, rhs).0)),
                    ),
                    _ => self.push_delegated(Value::F64(float_unit.f64_binary(op, lhs, rhs).0)),
                }
            },
        }
    }

    pub(crate) fn convert<U: FloatUnit>(&mut self, op: ConvertOp, float_unit: &U) -> (r: ExecResult<Signal>)
        ensures
            numeric_step(old(self)@, InstructionKind::Convert { op }, r, final(self)@),
            r is Ok && delegated(InstructionKind::Convert { op }) is Some ==> unit_computed(
                float_unit,
                InstructionKind::Convert { op },
                old(self)@.stack,
                final(self)@.stack,
            ),
    {
        match op {
            ConvertOp::I32WrapI64 => {
                let a: i64 = self.pop_as()?;
                let low: u32 = (to_u64(a) % 0x1_0000_0000) as u32;
                self.push_computed(Ok(Value::I32(to_i32(low))))
            },
            ConvertOp::I32TruncF32S => {
                let a: F32 = self.pop_as()?;
                self.push_computed(signed_32(a.trunc_to_i32()))
            },
            ConvertOp::I32TruncF32U => {
                let a: F32 = self.pop_as()?;
                self.push_computed(unsigned_32(a.trunc_to_u32()))
            },
            ConvertOp::I32TruncF64S => {
                let a: F64 = self.pop_as()?;
                self.push_computed(signed_32(a.trunc_to_i32()))
            },
            ConvertOp::I32TruncF64U => {
                let a: F64 = self.pop_as()?;
                self.push_computed(unsigned_32(a.trunc_to_u32()))
            },
            ConvertOp::I64ExtendI32S => {
                let a: i32 = self.pop_as()?;
                self.push_computed(Ok(Value::I64(a as i64)))
            },
            ConvertOp::I64ExtendI32U => {
                let a: i32 = self.pop_as()?;
                self.push_computed(Ok(Value::I64(to_u32(a) as i64)))
            },
            ConvertOp::I64TruncF32S => {
                let a: F32 = self.pop_as()?;
                self.push_computed(signed_64(a.trunc_to_i64()))
            },
            ConvertOp::I64TruncF32U => {
                let a: F32 = self.pop_as()?;
                self.push_computed(unsigned_64(a.trunc_to_u64()))
            },
            ConvertOp::I64TruncF64S => {
                let a: F64 = self.pop_as()?;
                self.push_computed(signed_64(a.trunc_to_i64()))
            },
            ConvertOp::I64TruncF64U => {
                let a: F64 = self.pop_as()?;
                self.push_computed(unsigned_64(a.trunc_to_u64()))
            },
            ConvertOp::F32ConvertI32S => {
                let a: i32 = self.pop_as()?;
                self.push_delegated(Value::F32(float_unit.f32_convert_i32(a).0))
            },
            ConvertOp::F32ConvertI32U => {
                let a: i32 = self.pop_as()?;
                self.push_delegated(Value::F32(float_unit.f32_convert_u32(to_u32(a)).0))
            },
            ConvertOp::F32ConvertI64S => {
                let a: i64 = self.pop_as()?;
                self.push_delegated(Value::F32(float_unit.f32_convert_i64(a).0))
            },
            ConvertOp::F32ConvertI64U => {
                let a: i64 = self.pop_as()?;
                self.push_delegated(Value::F32(float_unit.f32_convert_u64(to_u64(a)).0))
            },
            ConvertOp::F32DemoteF64 => {
                let a: F64 = self.pop_as()?;
                self.push_delegated(Value::F32(float_unit.f32_demote(a).0))
            },
            ConvertOp::F64ConvertI32S => {
                let a: i32 = self.pop_as()?;
                self.push_delegated(Value::F64(float_unit.f64_convert_i32(a).0))
            },
            ConvertOp::F64ConvertI32U => {
                let a: i32 = self.pop_as()?;
                self.push_delegated(Value::F64(float_unit.f64_convert_u32(to_u32(a)).0))
            },
            ConvertOp::F64ConvertI64S => {
                let a: i64 = self.pop_as()?;
                self.push_delegated(Value::F64(float_unit.f64_convert_i64(a).0))
            },
            ConvertOp::F64ConvertI64U => {
                let a: i64 = self.pop_as()?;
                self.push_delegated(Value::F64(float_unit.f64_convert_u64(to_u64(a)).0))
            },
            ConvertOp::F64PromoteF32 => {
                let a: F32 = self.pop_as()?;
                self.push_delegated(Value::F64(float_unit.f64_promote(a).0))
            },
            ConvertOp::I32ReinterpretF32 => {
                let a: F32 = self.pop_as()?;
                self.push_computed(Ok(Value::I32(to_i32(a.0))))
            },
            ConvertOp::I64ReinterpretF64 => {
                let a: F64 = self.pop_as()?;
                self.push_computed(Ok(Value::I64(to_i64(a.0))))
            },
            ConvertOp::F32ReinterpretI32 => {
                let a: i32 = self.pop_as()?;
                self.push_computed(Ok(Value::F32(to_u32(a))))
            },
            ConvertOp::F64ReinterpretI64 => {
                let a: i64 = self.pop_as()?;
                self.push_computed(Ok(Value::F64(to_u64(a))))
            },
        }
    }
}

pub(crate) fn bool_to_value(b: bool) -> (v: Value)
    ensures
        v == crate::semantics::bool_value(b),
{
    if b {
        Value::I32(1)
    } else {
        Value::I32(0)
    }
}

pub(crate) fn signed_32(r: Result<i32, value::Error>) -> (v: Result<Value, value::Error>)
    ensures
        v == (match r {
            Ok(x) => Ok(Value::I32(x)),
            Err(e) => Err(e),
        }),
{
    match r {
        Ok(x) => Ok(Value::I32(x)),
        Err(e) => Err(e),
    }
}

pub(crate) fn unsigned_32(r: Result<u32, value::Error>) -> (v: Result<Value, value::Error>)
    ensures
        v == (match r {
            Ok(x) => Ok(Value::I32(crate::value::i32_of(x))),
            Err(e) => Err(e),
        }),
{
    match r {
        Ok(x) => Ok(Value::I32(to_i32(x))),
        Err(e) => Err(e),
    }
}

pub(crate) fn signed_64(r: Result<i64, value::Error>) -> (v: Result<Value, value::Error>)
    ensures
        v == (match r {
            Ok(x) => Ok(Value::I64(x)),
            Err(e) => Err(e),
        }),
{
    match r {
        Ok(x) => Ok(Value::I64(x)),
        Err(e) => Err(e),
    }
}

pub(crate) fn unsigned_64(r: Result<u64, value::Error>) -> (v: Result<Value, value::Error>)
    ensures
        v == (match r {
            Ok(x) => Ok(Value::I64(crate::value::i64_of(x))),
            Err(e) => Err(e),
        }),
{
    match r {
        Ok(x) => Ok(Value::I64(to_i64(x))),
        Err(e) => Err(e),
    }
}

} // verus!
