//! Constant expressions in their binary form.
//!
//! A decoder hands over the bytes of a global's initial value or of a
//! segment's offset as it found them. Their first operator is read here and
//! evaluated as `eval_const_expr` evaluates a decoded one.

use vstd::prelude::*;
use wasmparser::{InitExpr, Operator};
use crate::address::ModuleIndex;
use crate::executor::{const_expr_spec, eval_const_expr, ConstExprError};
use crate::inst::{Instruction, InstructionKind};
use crate::store::Store;
use crate::value::Value;

verus! {

/// The first operator of a constant expression, as far as its evaluation
/// tells operators apart.
#[derive(Clone, Copy, Debug, PartialEq, Eq, Structural)]
pub enum ConstOperator {
    I32Const(i32),
    I64Const(i64),
    F32Const(u32),
    F64Const(u64),
    GlobalGet(u32),
    /// Any other operator.
    Other,
}

/// The first operator that `wasmparser` reads from the bytes `data`; `None`
/// where it reads none.
pub uninterp spec fn first_operator(data: Seq<u8>) -> Option<ConstOperator>;

/// Reads the first operator of the bytes of a constant expression.
///
/// Wraps `wasmparser::OperatorsReader::read` on a reader over `data`, which
/// `wasmparser::InitExpr::get_operators_reader` makes. The contract claims
/// that what is read depends on the bytes alone, and gives that a name; of
/// what it is, it claims nothing. An error of the reader becomes `None`.
#[verifier::external_body]
fn read_first_operator(data: &[u8]) -> (r: Option<ConstOperator>)
    ensures
        r == first_operator(data@),
{
    match InitExpr::new(data, 0).get_operators_reader().read() {
        Ok(Operator::I32Const { value }) => Some(ConstOperator::I32Const(value)),
        Ok(Operator::I64Const { value }) => Some(ConstOperator::I64Const(value)),
        Ok(Operator::F32Const { value }) => Some(ConstOperator::F32Const(value.bits())),
        Ok(Operator::F64Const { value }) => Some(ConstOperator::F64Const(value.bits())),
        Ok(Operator::GlobalGet { global_index }) => Some(ConstOperator::GlobalGet(global_index)),
        Ok(_) => Some(ConstOperator::Other),
        Err(_) => None,
    }
}

/// The instruction that stands for an operator of a constant expression.
pub open spec fn operator_kind(op: ConstOperator) -> InstructionKind {
    match op {
        ConstOperator::I32Const(value) => InstructionKind::I32Const { value },
        ConstOperator::I64Const(value) => InstructionKind::I64Const { value },
        ConstOperator::F32Const(bits) => InstructionKind::F32Const { bits },
        ConstOperator::F64Const(bits) => InstructionKind::F64Const { bits },
        ConstOperator::GlobalGet(global_index) => InstructionKind::GlobalGet { global_index },
        ConstOperator::Other => InstructionKind::Unsupported,
    }
}

/// The value of a constant expression whose first operator is `op`; a
/// malformed expression where there is no operator.
pub open spec fn operator_value<H>(op: Option<ConstOperator>, store: &Store<H>, module_index: ModuleIndex) -> Result<
    Value,
    ConstExprError,
> {
    match op {
        Some(op) => const_expr_spec(seq![Instruction { kind: operator_kind(op), offset: 0 }], store, module_index),
        None => Err(ConstExprError::Malformed),
    }
}

/// Evaluates the constant expression whose first operator is `op`.
pub fn eval_operator<H>(op: Option<ConstOperator>, store: &Store<H>, module_index: ModuleIndex) -> (r: Result<
    Value,
    ConstExprError,
>)
    ensures
        r == operator_value(op, store, module_index),
{
    let kind = match op {
        Some(ConstOperator::I32Const(value)) => InstructionKind::I32Const { value },
        Some(ConstOperator::I64Const(value)) => InstructionKind::I64Const { value },
        Some(ConstOperator::F32Const(bits)) => InstructionKind::F32Const { bits },
        Some(ConstOperator::F64Const(bits)) => InstructionKind::F64Const { bits },
        Some(ConstOperator::GlobalGet(global_index)) => InstructionKind::GlobalGet { global_index },
        Some(ConstOperator::Other) => InstructionKind::Unsupported,
        None => {
            return Err(ConstExprError::Malformed);
        },
    };
    let mut init_expr: Vec<Instruction> = Vec::new();
    init_expr.push(Instruction { kind, offset: 0 });
    proof {
        assert(init_expr@[0].kind == operator_kind(op->Some_0));
        assert(init_expr@.len() == 1);
    }
    let r = eval_const_expr(&init_expr, store, module_index);
    proof {
        let expected = seq![Instruction { kind: operator_kind(op->Some_0), offset: 0 }];
        assert(expected[0].kind == init_expr@[0].kind);
    }
    r
}

/// Evaluates a constant expression in its binary form: the value of its
/// first operator as `wasmparser` reads it.
pub fn eval_init_expr<H>(data: &[u8], store: &Store<H>, module_index: ModuleIndex) -> (r: Result<
    Value,
    ConstExprError,
>)
    ensures
        r == operator_value(first_operator(data@), store, module_index),
{
    eval_operator(read_first_operator(data), store, module_index)
}

} // verus!
