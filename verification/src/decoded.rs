//! A decoded module: what a decoder hands to the store.

use vstd::prelude::*;
use crate::func::FuncType;
use crate::global::GlobalType;
use crate::inst::Instruction;
use crate::value::ValueType;

verus! {

/// The limits of a table (in slots) or of a memory (in pages).
#[derive(Clone, Copy, Debug, PartialEq, Eq, Structural)]
pub struct Limits {
    pub initial: u32,
    pub maximum: Option<u32>,
}

/// What an import asks for.
#[derive(Clone, Copy, Debug, PartialEq, Eq, Structural)]
pub enum ImportDesc {
    /// A function of the type of this index.
    Func(u32),
    Table(Limits),
    Memory(Limits),
    Global(GlobalType),
}

/// An import: the name of a module and the name of one of its exports.
#[derive(Debug)]
pub struct Import {
    pub module: String,
    pub field: String,
    pub desc: ImportDesc,
}

/// A function of the code section.
#[derive(Debug)]
pub struct FuncBody {
    pub name: String,
    pub type_index: u32,
    pub locals: Vec<ValueType>,
    pub instructions: Vec<Instruction>,
}

/// A global of the global section.
#[derive(Debug)]
pub struct GlobalEntry {
    pub ty: GlobalType,
    pub init_expr: Vec<Instruction>,
}

/// What an export names: an index into one of the module's index spaces.
#[derive(Clone, Copy, Debug, PartialEq, Eq, Structural)]
pub enum ExportDesc {
    Func(u32),
    Table(u32),
    Memory(u32),
    Global(u32),
}

#[derive(Debug)]
pub struct Export {
    pub field: String,
    pub desc: ExportDesc,
}

/// Functions to put into a table from an offset on.
#[derive(Debug)]
pub struct ElementSegment {
    pub table_index: u32,
    pub offset: Vec<Instruction>,
    pub members: Vec<u32>,
}

/// Bytes to put into a memory from an offset on.
#[derive(Debug)]
pub struct DataSegment {
    pub memory_index: u32,
    pub offset: Vec<Instruction>,
    pub value: Vec<u8>,
}

/// A module as the sections of its binary form describe it.
#[derive(Debug)]
pub struct Module {
    pub types: Vec<FuncType>,
    pub imports: Vec<Import>,
    pub functions: Vec<FuncBody>,
    pub tables: Vec<Limits>,
    pub memories: Vec<Limits>,
    pub globals: Vec<GlobalEntry>,
    pub exports: Vec<Export>,
    pub start: Option<u32>,
    pub elements: Vec<ElementSegment>,
    pub data: Vec<DataSegment>,
}

} // verus!
