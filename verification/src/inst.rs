//! Decoded instructions.
//!
//! Numeric instructions are grouped by shape (test, comparison, unary, binary,
//! conversion) and carry the operand width and the operator, so that the
//! executor treats each shape once.

use vstd::prelude::*;
use crate::value::ValueType;

verus! {

/// The result type of a block, loop or if.
#[derive(Clone, Copy, Debug, PartialEq, Eq, Structural)]
pub enum BlockType {
    Empty,
    Value(ValueType),
    FuncType(u32),
}

impl BlockType {
    pub open spec fn spec_arity(&self) -> usize {
        match self {
            BlockType::Empty => 0,
            _ => 1,
        }
    }

    /// How many values the block leaves: none for the empty type, one for
    /// every other.
    #[verifier::when_used_as_spec(spec_arity)]
    pub fn arity(&self) -> (r: usize)
        ensures
            r == self.spec_arity(),
    {
        match self {
            BlockType::Empty => 0,
            _ => 1,
        }
    }
}

/// The immediate of a memory access.
#[derive(Clone, Copy, Debug, PartialEq, Eq, Structural)]
pub struct MemoryImmediate {
    pub flags: u32,
    pub offset: u32,
}

/// The immediate of `br_table`.
#[derive(Clone, Debug, PartialEq, Eq)]
pub struct BrTable {
    pub table: Vec<u32>,
    pub default: u32,
}

#[derive(Clone, Copy, Debug, PartialEq, Eq, Structural)]
pub enum IntWidth {
    W32,
    W64,
}

#[derive(Clone, Copy, Debug, PartialEq, Eq, Structural)]
pub enum FloatWidth {
    W32,
    W64,
}

#[derive(Clone, Copy, Debug, PartialEq, Eq, Structural)]
pub enum IntRelOp {
    Eq,
    Ne,
    LtS,
    LtU,
    GtS,
    GtU,
    LeS,
    LeU,
    GeS,
    GeU,
}

#[derive(Clone, Copy, Debug, PartialEq, Eq, Structural)]
pub enum IntUnOp {
    Clz,
    Ctz,
    Popcnt,
}

#[derive(Clone, Copy, Debug, PartialEq, Eq, Structural)]
pub enum IntBinOp {
    Add,
    Sub,
    Mul,
    DivS,
    DivU,
    RemS,
    RemU,
    And,
    Or,
    Xor,
    Shl,
    ShrS,
    ShrU,
    Rotl,
    Rotr,
}

#[derive(Clone, Copy, Debug, PartialEq, Eq, Structural)]
pub enum FloatRelOp {
    Eq,
    Ne,
    Lt,
    Gt,
    Le,
    Ge,
}

#[derive(Clone, Copy, Debug, PartialEq, Eq, Structural)]
pub enum FloatUnOp {
    Abs,
    Neg,
    Ceil,
    Floor,
    Trunc,
    Nearest,
    Sqrt,
}

#[derive(Clone, Copy, Debug, PartialEq, Eq, Structural)]
pub enum FloatBinOp {
    Add,
    Sub,
    Mul,
    Div,
    Min,
    Max,
    Copysign,
}

/// The conversions between the four value types.
#[derive(Clone, Copy, Debug, PartialEq, Eq, Structural)]
pub enum ConvertOp {
    I32WrapI64,
    I32TruncF32S,
    I32TruncF32U,
    I32TruncF64S,
    I32TruncF64U,
    I64ExtendI32S,
    I64ExtendI32U,
    I64TruncF32S,
    I64TruncF32U,
    I64TruncF64S,
    I64TruncF64U,
    F32ConvertI32S,
    F32ConvertI32U,
    F32ConvertI64S,
    F32ConvertI64U,
    F32DemoteF64,
    F64ConvertI32S,
    F64ConvertI32U,
    F64ConvertI64S,
    F64ConvertI64U,
    F64PromoteF32,
    I32ReinterpretF32,
    I64ReinterpretF64,
    F32ReinterpretI32,
    F64ReinterpretI64,
}

/// What a load reads and how it widens it.
#[derive(Clone, Copy, Debug, PartialEq, Eq, Structural)]
pub enum LoadKind {
    I32,
    I64,
    F32,
    F64,
    I32Load8S,
    I32Load8U,
    I32Load16S,
    I32Load16U,
    I64Load8S,
    I64Load8U,
    I64Load16S,
    I64Load16U,
    I64Load32S,
    I64Load32U,
}

/// What a store takes from the stack and how many of its bytes it writes.
#[derive(Clone, Copy, Debug, PartialEq, Eq, Structural)]
pub enum StoreKind {
    I32,
    I64,
    F32,
    F64,
    I32Store8,
    I32Store16,
    I64Store8,
    I64Store16,
    I64Store32,
}

/// One decoded instruction.
#[derive(Clone, Debug, PartialEq, Eq)]
#[allow(inconsistent_fields)]
pub enum InstructionKind {
    Unreachable,
    Nop,
    Block { ty: BlockType },
    Loop { ty: BlockType },
    If { ty: BlockType },
    Else,
    End,
    Br { relative_depth: u32 },
    BrIf { relative_depth: u32 },
    BrTable { table: BrTable },
    Return,
    Call { function_index: u32 },
    CallIndirect { index: u32, table_index: u32 },
    Drop,
    Select,
    LocalGet { local_index: u32 },
    LocalSet { local_index: u32 },
    LocalTee { local_index: u32 },
    GlobalGet { global_index: u32 },
    GlobalSet { global_index: u32 },
    Load { kind: LoadKind, memarg: MemoryImmediate },
    Store { kind: StoreKind, memarg: MemoryImmediate },
    MemorySize { reserved: u32 },
    MemoryGrow { reserved: u32 },
    I32Const { value: i32 },
    I64Const { value: i64 },
    F32Const { bits: u32 },
    F64Const { bits: u64 },
    IntTest { width: IntWidth },
    IntRel { width: IntWidth, op: IntRelOp },
    IntUnary { width: IntWidth, op: IntUnOp },
    IntBinary { width: IntWidth, op: IntBinOp },
    FloatRel { width: FloatWidth, op: FloatRelOp },
    FloatUnary { width: FloatWidth, op: FloatUnOp },
    FloatBinary { width: FloatWidth, op: FloatBinOp },
    Convert { op: ConvertOp },
    /// An opcode that this interpreter does not execute.
    Unsupported,
}

/// An instruction and the offset in the module's bytes that it was decoded
/// from.
#[derive(Clone, Debug, PartialEq, Eq)]
pub struct Instruction {
    pub kind: InstructionKind,
    pub offset: usize,
}

/// How deep into a function's body an instruction stands.
#[derive(Clone, Copy, Debug, PartialEq, Eq, Structural)]
pub struct InstIndex(pub u32);

impl InstIndex {
    pub fn zero() -> (r: InstIndex)
        ensures
            r == InstIndex(0),
    {
        InstIndex(0)
    }
}

/// The depth that `br_table` branches to on index `i`: the `i`-th entry of the
/// table, or the default where the table has no such entry.
pub open spec fn br_table_target(table: Seq<u32>, default: u32, i: u32) -> u32 {
    if (i as int) < table.len() {
        table[i as int]
    } else {
        default
    }
}

impl BrTable {
    /// The depth to branch to on index `i`.
    pub fn target(&self, i: u32) -> (depth: u32)
        ensures
            depth == br_table_target(self.table@, self.default, i),
    {
        let at: usize = i as usize;
        if at < self.table.len() {
            self.table[at]
        } else {
            self.default
        }
    }
}

} // verus!
