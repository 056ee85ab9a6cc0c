//! Function types and function instances.

use vstd::prelude::*;
use std::rc::Rc;
use crate::address::{ExecutableFuncAddr, ModuleIndex};
use crate::inst::{InstIndex, Instruction};
use crate::stack::{CallFrame, FrameView, ProgramCounter};
use crate::value::{Value, ValueType};

verus! {

/// The type of a function: what it takes and what it returns.
#[derive(Debug)]
pub struct FuncType {
    pub params: Vec<ValueType>,
    pub returns: Vec<ValueType>,
}

/// A function type as a mathematical value.
pub struct FuncTypeView {
    pub params: Seq<ValueType>,
    pub returns: Seq<ValueType>,
}

impl View for FuncType {
    type V = FuncTypeView;

    open spec fn view(&self) -> FuncTypeView {
        FuncTypeView { params: self.params@, returns: self.returns@ }
    }
}

impl Clone for FuncType {
    fn clone(&self) -> (ty: FuncType)
        ensures
            ty@ == self@,
    {
        let ty = FuncType { params: self.params.clone(), returns: self.returns.clone() };
        assert(ty.params@ =~= self.params@);
        assert(ty.returns@ =~= self.returns@);
        ty
    }
}

/// Compares two sequences of value types.
pub fn eq_value_types(a: &Vec<ValueType>, b: &Vec<ValueType>) -> (same: bool)
    ensures
        same == (a@ == b@),
{
    if a.len() != b.len() {
        return false;
    }
    let n: usize = a.len();
    let mut i: usize = 0;
    while i < n
        invariant
            i <= n == a@.len() == b@.len(),
            a@.subrange(0, i as int) == b@.subrange(0, i as int),
        decreases n - i,
    {
        if a[i] != b[i] {
            return false;
        }
        proof {
            assert(a@.subrange(0, i + 1) =~= a@.subrange(0, i as int).push(a@[i as int]));
            assert(b@.subrange(0, i + 1) =~= b@.subrange(0, i as int).push(b@[i as int]));
        }
        i = i + 1;
    }
    proof {
        assert(a@.subrange(0, n as int) =~= a@);
        assert(b@.subrange(0, n as int) =~= b@);
    }
    true
}

/// Whether two function types take and return the same.
pub fn eq_func_type(a: &FuncType, b: &FuncType) -> (same: bool)
    ensures
        same == (a@ == b@),
{
    eq_value_types(&a.params, &b.params) && eq_value_types(&a.returns, &b.returns)
}

/// A function that a module defines.
#[derive(Debug)]
pub struct DefinedFunctionInstance {
    pub name: String,
    pub ty: FuncType,
    pub module_index: ModuleIndex,
    pub locals: Vec<ValueType>,
    pub instructions: Rc<Vec<Instruction>>,
}

/// A function whose body the embedder supplies.
#[derive(Debug)]
pub struct HostFunctionInstance<H> {
    pub ty: FuncType,
    pub module_name: String,
    pub field_name: String,
    pub code: H,
}

/// A function of the store.
#[derive(Debug)]
pub enum FunctionInstance<H> {
    Defined(DefinedFunctionInstance),
    Host(HostFunctionInstance<H>),
}

/// Hands out a second handle to a shared instruction sequence.
///
/// Wraps `Rc::clone`, which makes another pointer to the same allocation: the
/// result holds the very sequence that the argument holds.
#[verifier::external_body]
fn share_instructions(insts: &Rc<Vec<Instruction>>) -> (shared: Rc<Vec<Instruction>>)
    ensures
        shared == *insts,
{
    Rc::clone(insts)
}

impl DefinedFunctionInstance {
    pub fn new(
        name: String,
        ty: FuncType,
        module_index: ModuleIndex,
        locals: Vec<ValueType>,
        instructions: Vec<Instruction>,
    ) -> (func: DefinedFunctionInstance)
        ensures
            func.name == name,
            func.ty == ty,
            func.module_index == module_index,
            func.locals == locals,
            func.instructions@ == instructions@,
    {
        DefinedFunctionInstance { name, ty, module_index, locals, instructions: Rc::new(instructions) }
    }

    pub fn name(&self) -> (name: &String)
        ensures
            *name == self.name,
    {
        &self.name
    }

    pub fn ty(&self) -> (ty: &FuncType)
        ensures
            *ty == self.ty,
    {
        &self.ty
    }

    pub fn module_index(&self) -> (m: ModuleIndex)
        ensures
            m == self.module_index,
    {
        self.module_index
    }

    /// The body, shared with the instance.
    pub fn instructions(&self) -> (insts: Rc<Vec<Instruction>>)
        ensures
            insts == self.instructions,
    {
        share_instructions(&self.instructions)
    }

    /// The instruction at `index`, if the body is that long.
    pub fn inst(&self, index: InstIndex) -> (inst: Option<&Instruction>)
        ensures
            (index.0 as int) < self.instructions@.len() ==> inst == Some(
                &self.instructions@[index.0 as int],
            ),
            (index.0 as int) >= self.instructions@.len() ==> inst is None,
    {
        let at: usize = index.0 as usize;
        if at < self.instructions.len() {
            Some(&self.instructions[at])
        } else {
            None
        }
    }
}

impl<H> FunctionInstance<H> {
    pub open spec fn spec_ty(&self) -> FuncType {
        match self {
            FunctionInstance::Defined(f) => f.ty,
            FunctionInstance::Host(f) => f.ty,
        }
    }

    /// The type of the function.
    pub fn ty(&self) -> (ty: &FuncType)
        ensures
            *ty == self.spec_ty(),
    {
        match self {
            FunctionInstance::Defined(f) => &f.ty,
            FunctionInstance::Host(f) => &f.ty,
        }
    }

    pub open spec fn spec_name(&self) -> String {
        match self {
            FunctionInstance::Defined(f) => f.name,
            FunctionInstance::Host(f) => f.field_name,
        }
    }

    /// The name of the function: for a host function, the field it was
    /// registered under.
    pub fn name(&self) -> (name: &String)
        ensures
            *name == self.spec_name(),
    {
        match self {
            FunctionInstance::Defined(f) => &f.name,
            FunctionInstance::Host(f) => &f.field_name,
        }
    }

    /// The function as a defined one, if it is.
    pub fn defined(&self) -> (f: Option<&DefinedFunctionInstance>)
        ensures
            self matches FunctionInstance::Defined(d) ==> f == Some(d),
            self is Host ==> f is None,
    {
        match self {
            FunctionInstance::Defined(f) => Some(f),
            FunctionInstance::Host(_) => None,
        }
    }
}

/// The locals that a call starts with: the arguments, then one zero for each
/// declared local.
pub open spec fn initial_locals(args: Seq<Value>, locals: Seq<ValueType>) -> Seq<Value> {
    args + locals.map_values(|t: ValueType| Value::spec_null_value(t))
}

impl CallFrame {
    /// The frame of a call of `func` with the arguments `args`.
    pub fn new_from_func(
        exec_addr: ExecutableFuncAddr,
        func: &DefinedFunctionInstance,
        args: Vec<Value>,
        pc: Option<ProgramCounter>,
    ) -> (frame: CallFrame)
        ensures
            frame@ == (FrameView {
                module_index: func.module_index,
                locals: initial_locals(args@, func.locals@),
                ret_pc: pc,
                exec_addr,
            }),
    {
        let mut locals = args;
        let n: usize = func.locals.len();
        let mut i: usize = 0;
        while i < n
            invariant
                i <= n == func.locals@.len(),
                locals@ =~= initial_locals(args@, func.locals@.subrange(0, i as int)),
            decreases n - i,
        {
            locals.push(Value::null_value(func.locals[i]));
            i = i + 1;
        }
        proof {
            assert(func.locals@.subrange(0, n as int) =~= func.locals@);
        }
        CallFrame { module_index: func.module_index, locals, ret_pc: pc, exec_addr }
    }
}

} // verus!
