//! The executor: a program counter and a stack, stepped one instruction at a
//! time against a store.

use vstd::prelude::*;
use crate::address::{ExecutableFuncAddr, FuncAddr, GlobalAddr, ModuleIndex};
use crate::exec_call::{call_step, interceptor_told};
use crate::exec_memory::step_matches;
use crate::float::FloatUnit;
use crate::func::{FuncType, FuncTypeView, FunctionInstance};
use crate::global;
use crate::host::{host_call, lemma_host_call, HostError, HostFuncBody};
use crate::inst::{InstIndex, Instruction, InstructionKind};
use crate::interceptor::{Interceptor, NopInterceptor};
use crate::memory;
use crate::semantics::{
    advance, call_indirect_spec, call_spec, call_target, delegated, delegated_step, final_signal,
    finish, host_results, plain_spec, store_after, unit_computed, CallTarget, Effect,
};
use crate::stack;
use crate::stack::{CallFrame, Label, ProgramCounter, Stack, StackEntry};
use crate::store::{resolve_func_addr, Either, Store};
use crate::table;
use crate::value;
use crate::value::{to_u32, Value, ValueType};

verus! {

/// An unrecoverable runtime error. Every trap ends the invocation.
#[derive(Debug)]
pub enum Trap {
    /// `unreachable` was executed.
    Unreachable,
    Memory(memory::Error),
    Stack(stack::Error),
    Table(table::Error),
    Value(value::Error),
    Global(global::Error),
    /// An indirect call found a function of another type than the one
    /// declared: the function's name, the declared type, the function's type.
    IndirectCallTypeMismatch(String, FuncType, FuncType),
    /// A call found fewer values on the stack than the function takes.
    DirectCallTypeMismatch { func_name: String, expected: Vec<ValueType>, actual: Vec<ValueType> },
    /// A value of the first type was expected on the stack, one of the second
    /// was found.
    UnexpectedStackValueType(ValueType, ValueType),
    /// No function stands behind this index or slot.
    UndefinedFunc(usize),
    /// The current module has no table of this index.
    UndefinedTable(usize),
    /// The current module has no memory of this index.
    UndefinedMemory(usize),
    /// The current module has no global of this index.
    UndefinedGlobal(usize),
    /// The current module has no type of this index.
    UndefinedType(usize),
    /// The program counter, or a scan for the end of a block, left the
    /// function's body.
    NoMoreInstruction,
    /// The instruction is not one that this interpreter executes.
    Unimplemented,
    /// A host function failed.
    HostExecution(HostError),
    /// A host function left another number of results than its type says.
    HostResultCount { expected: usize, actual: usize },
}

/// A trap as a mathematical value.
pub enum TrapView {
    Unreachable,
    Memory(memory::Error),
    Stack(stack::Error),
    Table(table::Error),
    Value(value::Error),
    Global(global::Error),
    IndirectCallTypeMismatch(Seq<char>, FuncTypeView, FuncTypeView),
    DirectCallTypeMismatch { func_name: Seq<char>, expected: Seq<ValueType>, actual: Seq<ValueType> },
    UnexpectedStackValueType(ValueType, ValueType),
    UndefinedFunc(usize),
    UndefinedTable(usize),
    UndefinedMemory(usize),
    UndefinedGlobal(usize),
    UndefinedType(usize),
    NoMoreInstruction,
    Unimplemented,
    HostExecution(HostError),
    HostResultCount { expected: usize, actual: usize },
}

impl View for Trap {
    type V = TrapView;

    open spec fn view(&self) -> TrapView {
        match self {
            Trap::Unreachable => TrapView::Unreachable,
            Trap::Memory(e) => TrapView::Memory(*e),
            Trap::Stack(e) => TrapView::Stack(*e),
            Trap::Table(e) => TrapView::Table(*e),
            Trap::Value(e) => TrapView::Value(*e),
            Trap::Global(e) => TrapView::Global(*e),
            Trap::IndirectCallTypeMismatch(name, expected, actual) => TrapView::IndirectCallTypeMismatch(
                name@,
                expected@,
                actual@,
            ),
            Trap::DirectCallTypeMismatch { func_name, expected, actual } => TrapView::DirectCallTypeMismatch {
                func_name: func_name@,
                expected: expected@,
                actual: actual@,
            },
            Trap::UnexpectedStackValueType(expected, actual) => TrapView::UnexpectedStackValueType(
                *expected,
                *actual,
            ),
            Trap::UndefinedFunc(i) => TrapView::UndefinedFunc(*i),
            Trap::UndefinedTable(i) => TrapView::UndefinedTable(*i),
            Trap::UndefinedMemory(i) => TrapView::UndefinedMemory(*i),
            Trap::UndefinedGlobal(i) => TrapView::UndefinedGlobal(*i),
            Trap::UndefinedType(i) => TrapView::UndefinedType(*i),
            Trap::NoMoreInstruction => TrapView::NoMoreInstruction,
            Trap::Unimplemented => TrapView::Unimplemented,
            Trap::HostExecution(e) => TrapView::HostExecution(*e),
            Trap::HostResultCount { expected, actual } => TrapView::HostResultCount {
                expected: *expected,
                actual: *actual,
            },
        }
    }
}

/// What a step tells the driver.
#[derive(Clone, Copy, Debug, PartialEq, Eq, Structural)]
pub enum Signal {
    Next,
    Breakpoint,
    End,
}

pub type ExecResult<T> = Result<T, Trap>;

/// Why the values that a function returned could not be taken off the stack.
#[derive(Clone, Copy, Debug, PartialEq, Eq, Structural)]
pub enum ReturnValError {
    TypeMismatchReturnValue(Value, ValueType),
    Stack(stack::Error),
    NoValue(ValueType),
}

pub type ReturnValResult = Result<Vec<Value>, ReturnValError>;

/// Why an invocation failed.
#[derive(Debug)]
pub enum WasmError {
    ExecutionError(Trap),
    EntryFunctionNotFound(String),
    ReturnValueError(ReturnValError),
    HostExecutionError,
    /// The invocation did not end within the number of steps it was given.
    StepLimitReached,
    /// There is no module to take the entry function from.
    NoModuleLoaded,
}

/// Why a constant expression could not be evaluated.
#[derive(Clone, Copy, Debug, PartialEq, Eq, Structural)]
pub enum ConstExprError {
    /// The expression holds no instruction.
    Empty,
    /// The instruction is neither a constant nor a `global.get`.
    NotConstant,
    /// The module has no global of this index.
    UndefinedGlobal(usize),
    /// The global of this index is mutable.
    MutableGlobal(usize),
    /// The bytes of the expression hold no operator.
    Malformed,
}

/// The state of an executor as a mathematical value.
pub struct Machine {
    pub pc: ProgramCounter,
    pub stack: Seq<StackEntry>,
}

/// The executor: where execution stands and the stack it works on.
#[derive(Debug)]
pub struct Executor {
    pub pc: ProgramCounter,
    pub stack: Stack,
}

impl View for Executor {
    type V = Machine;

    open spec fn view(&self) -> Machine {
        Machine { pc: self.pc, stack: self.stack@ }
    }
}

/// What an instruction does before its signal is made final. The program
/// counter of `before` is already past the instruction.
pub open spec fn body_post<H>(
    before: Machine,
    store_before: &Store<H>,
    kind: InstructionKind,
    module_index: ModuleIndex,
    r: Result<Signal, Trap>,
    after: Machine,
    store_now: &Store<H>,
) -> bool {
    match kind {
        InstructionKind::Call { function_index } => call_step(
            before,
            call_spec(before, store_before, function_index),
            Signal::Next,
            r,
            after,
            store_before,
            store_now,
        ),
        InstructionKind::CallIndirect { index, .. } => call_step(
            before,
            call_indirect_spec(before, store_before, index),
            Signal::Next,
            r,
            after,
            store_before,
            store_now,
        ),
        _ => match delegated(kind) {
            Some(ty) => delegated_step(before, kind, ty, Signal::Next, r, after) && store_after(
                store_before,
                Effect::Unchanged,
                store_now,
            ),
            None => step_matches(
                before,
                plain_spec(before, store_before, kind, module_index),
                r,
                after,
                store_before,
                store_now,
            ),
        },
    }
}

/// What the collaborators of a step that did not trap had to say. Where the
/// instruction is one that the float unit computes, the value on top of the
/// stack is what the unit gave for the operands. Where it is a call that
/// entered a defined function, the signal is what the interceptor gave when
/// it was told of the function. The program counter of `before` is already
/// past the instruction.
pub open spec fn collaborators_post<H, I: Interceptor, U: FloatUnit>(
    before: Machine,
    store_before: &Store<H>,
    kind: InstructionKind,
    interceptor: &I,
    float_unit: &U,
    r: Result<Signal, Trap>,
    after: Machine,
) -> bool {
    match kind {
        InstructionKind::Call { function_index } => call_spec(
            before,
            store_before,
            function_index,
        ) matches Ok(CallTarget::Entered(_)) ==> interceptor_told(
            interceptor,
            store_before,
            after,
            r,
        ),
        InstructionKind::CallIndirect { index, .. } => call_indirect_spec(
            before,
            store_before,
            index,
        ) matches Ok(CallTarget::Entered(_)) ==> interceptor_told(
            interceptor,
            store_before,
            after,
            r,
        ),
        _ => delegated(kind) is Some && r is Ok ==> unit_computed(
            float_unit,
            kind,
            before.stack,
            after.stack,
        ),
    }
}

/// What one step does. The program counter moves past the instruction
/// first, so that a branch simply overwrites it. Then the instruction does
/// its work: a call as `call_spec` or `call_indirect_spec` says, an
/// instruction that the float unit computes as `delegated_step` says, every
/// other as `plain_spec` says. A trap ends the step as it is. Otherwise the
/// signal is `End` once the stack holds no activation, else that of the
/// instruction.
pub open spec fn inst_post<H>(
    before: Machine,
    store_before: &Store<H>,
    kind: InstructionKind,
    module_index: ModuleIndex,
    r: Result<Signal, Trap>,
    after: Machine,
    store_now: &Store<H>,
) -> bool {
    match advance(before.pc) {
        None => r matches Err(e) && e@ == TrapView::NoMoreInstruction && after == before
            && store_after(store_before, Effect::Unchanged, store_now),
        Some(pc) => {
            let m = Machine { pc, stack: before.stack };
            match kind {
                InstructionKind::Call { function_index } => call_step(
                    m,
                    call_spec(m, store_before, function_index),
                    final_signal(Signal::Next, after.stack),
                    r,
                    after,
                    store_before,
                    store_now,
                ),
                InstructionKind::CallIndirect { index, .. } => call_step(
                    m,
                    call_indirect_spec(m, store_before, index),
                    final_signal(Signal::Next, after.stack),
                    r,
                    after,
                    store_before,
                    store_now,
                ),
                _ => match delegated(kind) {
                    Some(ty) => delegated_step(
                        m,
                        kind,
                        ty,
                        final_signal(Signal::Next, after.stack),
                        r,
                        after,
                    ) && store_after(store_before, Effect::Unchanged, store_now),
                    None => step_matches(
                        m,
                        finish(plain_spec(m, store_before, kind, module_index)),
                        r,
                        after,
                        store_before,
                        store_now,
                    ),
                },
            }
        },
    }
}

impl Executor {
    /// Does the work of one instruction, the program counter being past it
    /// already.
    fn execute_body<H: HostFuncBody + Clone, I: Interceptor, U: FloatUnit>(
        &mut self,
        inst: &Instruction,
        module_index: ModuleIndex,
        store: &mut Store<H>,
        interceptor: &I,
        float_unit: &U,
    ) -> (r: ExecResult<Signal>)
        requires
            old(self).pc.inst_index.0 >= 1,
        ensures
            body_post(
                old(self)@,
                old(store),
                inst.kind,
                module_index,
                r,
                final(self)@,
                final(store),
            ),
            collaborators_post(
                old(self)@,
                old(store),
                inst.kind,
                interceptor,
                float_unit,
                r,
                final(self)@,
            ),
            match call_target(old(self)@, old(store), inst.kind) {
                Some(CallTarget::Host { slot, module, args, rest, arity }) => exists|
                    code: H,
                    handed: &[Value],
                    left: &mut Vec<Value>,
                    given: &mut Store<H>,
                    outcome: Result<(), HostError>,
                |
                    {
                        &&& cloned(old(store).funcs.items@[slot as int]->Host_0.code, code)
                        &&& #[trigger] host_call(
                            code,
                            handed,
                            left,
                            given,
                            module,
                            outcome,
                            args,
                            *old(store),
                        )
                        &&& mut_ref_future(given) == *final(store)
                        &&& host_results(
                            outcome,
                            mut_ref_future(left)@,
                            rest,
                            arity,
                            Signal::Next,
                            r,
                            final(self)@.stack,
                        )
                    },
                _ => true,
            },
    {
        match &inst.kind {
            InstructionKind::Unreachable => Err(Trap::Unreachable),
            InstructionKind::Nop => Ok(Signal::Next),
            InstructionKind::Block { ty } => self.block(*ty),
            InstructionKind::Loop { ty: _ } => self.enter_loop(),
            InstructionKind::If { ty } => self.enter_if(*ty, store),
            InstructionKind::Else => self.branch(0, store),
            InstructionKind::End => self.end(store),
            InstructionKind::Br { relative_depth } => self.branch(*relative_depth, store),
            InstructionKind::BrIf { relative_depth } => {
                let val: i32 = self.pop_as()?;
                if val != 0 {
                    self.branch(*relative_depth, store)
                } else {
                    Ok(Signal::Next)
                }
            },
            InstructionKind::BrTable { table: payload } => {
                let val: i32 = self.pop_as()?;
                let depth = payload.target(to_u32(val));
                self.branch(depth, store)
            },
            InstructionKind::Return => self.do_return(store),
            InstructionKind::Call { function_index } => self.call(*function_index, store, interceptor),
            InstructionKind::CallIndirect { index, table_index: _ } => self.call_indirect(
                *index,
                store,
                interceptor,
            ),
            InstructionKind::Drop => self.drop_value(),
            InstructionKind::Select => self.select(),
            InstructionKind::LocalGet { local_index } => self.local_get(*local_index),
            InstructionKind::LocalSet { local_index } => self.set_local(*local_index as usize),
            InstructionKind::LocalTee { local_index } => self.local_tee(*local_index),
            InstructionKind::GlobalGet { global_index } => self.global_get(
                module_index,
                *global_index,
                store,
            ),
            InstructionKind::GlobalSet { global_index } => self.global_set(
                module_index,
                *global_index,
                store,
            ),
            InstructionKind::Load { kind, memarg } => self.load(*kind, memarg.offset, store),
            InstructionKind::Store { kind, memarg } => self.store(*kind, memarg.offset, store),
            InstructionKind::MemorySize { reserved: _ } => self.memory_size(store),
            InstructionKind::MemoryGrow { reserved: _ } => self.memory_grow(store),
            InstructionKind::I32Const { value } => self.push_computed(Ok(Value::I32(*value))),
            InstructionKind::I64Const { value } => self.push_computed(Ok(Value::I64(*value))),
            InstructionKind::F32Const { bits } => self.push_computed(Ok(Value::F32(*bits))),
            InstructionKind::F64Const { bits } => self.push_computed(Ok(Value::F64(*bits))),
            InstructionKind::IntTest { width } => self.int_test(*width),
            InstructionKind::IntRel { width, op } => self.int_rel(*width, *op),
            InstructionKind::IntUnary { width, op } => self.int_unary(*width, *op),
            InstructionKind::IntBinary { width, op } => self.int_binary(*width, *op),
            InstructionKind::FloatRel { width, op } => self.float_rel(*width, *op),
            InstructionKind::FloatUnary { width, op } => self.float_unary(*width, *op, float_unit),
            InstructionKind::FloatBinary { width, op } => self.float_binary(*width, *op, float_unit),
            InstructionKind::Convert { op } => self.convert(*op, float_unit),
            InstructionKind::Unsupported => Err(Trap::Unimplemented),
        }
    }

    /// Executes `inst` as the instruction that the program counter is at.
    ///
    /// Where the instruction calls a host function, the step ends as the
    /// call asks: it is made in a clone of the function's body with the
    /// arguments, an empty vector and the store; the store is then as the
    /// call left it, and the stack is as `host_results` says of the outcome
    /// and of the results that the call left.
    pub fn execute_inst<H: HostFuncBody + Clone, I: Interceptor, U: FloatUnit>(
        &mut self,
        inst: &Instruction,
        module_index: ModuleIndex,
        store: &mut Store<H>,
        interceptor: &I,
        float_unit: &U,
    ) -> (r: ExecResult<Signal>)
        ensures
            inst_post(
                old(self)@,
                old(store),
                inst.kind,
                module_index,
                r,
                final(self)@,
                final(store),
            ),
            advance(old(self).pc) matches Some(pc) ==> collaborators_post(
                Machine { pc, stack: old(self)@.stack },
                old(store),
                inst.kind,
                interceptor,
                float_unit,
                r,
                final(self)@,
            ),
            match step_target(old(self)@, old(store), inst.kind) {
                Some(CallTarget::Host { slot, module, args, rest, arity }) => exists|
                    code: H,
                    handed: &[Value],
                    left: &mut Vec<Value>,
                    given: &mut Store<H>,
                    outcome: Result<(), HostError>,
                |
                    {
                        &&& cloned(old(store).funcs.items@[slot as int]->Host_0.code, code)
                        &&& #[trigger] host_call(
                            code,
                            handed,
                            left,
                            given,
                            module,
                            outcome,
                            args,
                            *old(store),
                        )
                        &&& mut_ref_future(given) == *final(store)
                        &&& host_results(
                            outcome,
                            mut_ref_future(left)@,
                            rest,
                            arity,
                            final_signal(Signal::Next, final(self)@.stack),
                            r,
                            final(self)@.stack,
                        )
                    },
                _ => true,
            },
    {
        if self.pc.inst_index().0 == u32::MAX {
            return Err(Trap::NoMoreInstruction);
        }
        self.pc.inc_inst_index();
        let ghost entered = Machine { pc: self.pc, stack: self.stack@ };
        let result = self.execute_body(inst, module_index, store, interceptor, float_unit);
        proof {
            // a call that entered a function left its frame under the top
            match inst.kind {
                InstructionKind::Call { function_index } => {
                    let target = call_spec(entered, old(store), function_index);
                    if target is Ok && target->Ok_0 is Entered {
                        crate::stack::lemma_frame_under_top(target->Ok_0->Entered_0.stack);
                    }
                },
                InstructionKind::CallIndirect { index, .. } => {
                    let target = call_indirect_spec(entered, old(store), index);
                    if target is Ok && target->Ok_0 is Entered {
                        crate::stack::lemma_frame_under_top(target->Ok_0->Entered_0.stack);
                    }
                },
                _ => {},
            }
        }
        match result {
            Ok(signal) => {
                if self.stack.is_over_top_level() {
                    Ok(Signal::End)
                } else {
                    Ok(signal)
                }
            },
            Err(trap) => Err(trap),
        }
    }
}

/// The instruction that the program counter is at, and the module of the
/// function it belongs to.
pub open spec fn fetch<H>(pc: ProgramCounter, store: &Store<H>) -> Result<
    (Instruction, ModuleIndex),
    TrapView,
> {
    if pc.exec_addr.0 < store.funcs.items@.len() {
        match store.funcs.items@[pc.exec_addr.0 as int] {
            FunctionInstance::Defined(f) => if (pc.inst_index.0 as int) < f.instructions@.len() {
                Ok((f.instructions@[pc.inst_index.0 as int], f.module_index))
            } else {
                Err(TrapView::NoMoreInstruction)
            },
            FunctionInstance::Host(_) => Err(TrapView::UndefinedFunc(pc.exec_addr.0)),
        }
    } else {
        Err(TrapView::UndefinedFunc(pc.exec_addr.0))
    }
}

/// What the call of instruction `kind` leads to in a step from `before`,
/// whose program counter moves past the instruction first.
pub open spec fn step_target<H>(before: Machine, store: &Store<H>, kind: InstructionKind) -> Option<
    CallTarget,
> {
    match advance(before.pc) {
        Some(pc) => call_target(Machine { pc, stack: before.stack }, store, kind),
        None => None,
    }
}

/// What the call that a step from `before` makes leads to; `None` where the
/// step makes none.
pub open spec fn fetched_target<H>(before: Machine, store: &Store<H>) -> Option<CallTarget> {
    match fetch(before.pc, store) {
        Ok((inst, _)) => step_target(before, store, inst.kind),
        Err(_) => None,
    }
}

/// What one step of an executor does: it fetches the instruction at the
/// program counter and executes it as `inst_post` says. Where there is no
/// such instruction, it traps and changes nothing.
#[verifier::opaque]
pub open spec fn step_post<H>(
    before: Machine,
    store_before: &Store<H>,
    r: Result<Signal, Trap>,
    after: Machine,
    store_now: &Store<H>,
) -> bool {
    match fetch(before.pc, store_before) {
        Err(t) => r matches Err(e) && e@ == t && after == before && store_after(
            store_before,
            Effect::Unchanged,
            store_now,
        ),
        Ok((inst, module_index)) => inst_post(
            before,
            store_before,
            inst.kind,
            module_index,
            r,
            after,
            store_now,
        ),
    }
}

/// Taking the values that a function returned off the stack, one for each
/// type of `types` in turn: each must be a value of that type.
pub open spec fn pop_result_spec(s: Seq<StackEntry>, types: Seq<ValueType>) -> Result<
    (Seq<Value>, Seq<StackEntry>),
    ReturnValError,
>
    decreases types.len(),
{
    if types.len() == 0 {
        Ok((Seq::<Value>::empty(), s))
    } else {
        match crate::stack::pop_value_result(s) {
            Err(e) => Err(ReturnValError::Stack(e)),
            Ok(v) => if v.value_type() != types[0] {
                Err(ReturnValError::TypeMismatchReturnValue(v, types[0]))
            } else {
                match pop_result_spec(s.drop_last(), types.drop_first()) {
                    Err(e) => Err(e),
                    Ok((vs, rest)) => Ok((seq![v] + vs, rest)),
                }
            },
        }
    }
}

/// The values of `pop_result_spec` are as many as the types, each of its type.
pub proof fn lemma_pop_result_typed(s: Seq<StackEntry>, types: Seq<ValueType>)
    ensures
        pop_result_spec(s, types) matches Ok((vs, rest)) ==> vs.len() == types.len() && forall|i: int|
            0 <= i < types.len() ==> (#[trigger] vs[i]).value_type() == types[i],
    decreases types.len(),
{
    if types.len() > 0 {
        lemma_pop_result_typed(s.drop_last(), types.drop_first());
        if pop_result_spec(s, types) is Ok {
            let v = crate::stack::pop_value_result(s)->Ok_0;
            let vs = pop_result_spec(s.drop_last(), types.drop_first())->Ok_0.0;
            let all = seq![v] + vs;
            assert forall|i: int| 0 <= i < types.len() implies (#[trigger] all[i]).value_type()
                == types[i] by {
                if i > 0 {
                    assert(all[i] == vs[i - 1]);
                    assert(types[i] == types.drop_first()[i - 1]);
                }
            }
        }
    }
}

impl Executor {
    /// An executor at `pc` whose stack holds the root frame and the label of
    /// its return.
    pub fn new(initial_frame: CallFrame, initial_arity: usize, pc: ProgramCounter) -> (executor:
        Executor)
        ensures
            executor@ == (Machine {
                pc,
                stack: seq![
                    StackEntry::Activation(initial_frame@),
                    StackEntry::Label(Label::Return(initial_arity)),
                ],
            }),
    {
        let mut stack = Stack::default();
        stack.set_frame(initial_frame);
        stack.push_label(Label::Return(initial_arity));
        let executor = Executor { pc, stack };
        assert(executor@.stack =~= seq![
            StackEntry::Activation(initial_frame@),
            StackEntry::Label(Label::Return(initial_arity)),
        ]);
        executor
    }

    /// Takes the values that the invoked function returned off the stack,
    /// one for each type of `return_ty` in turn.
    pub fn pop_result(&mut self, return_ty: Vec<ValueType>) -> (r: ReturnValResult)
        ensures
            final(self).pc == old(self).pc,
            match pop_result_spec(old(self)@.stack, return_ty@) {
                Ok((vs, rest)) => r is Ok && r->Ok_0@ == vs && final(self)@.stack == rest,
                Err(e) => r == Err::<Vec<Value>, ReturnValError>(e),
            },
    {
        let mut results: Vec<Value> = Vec::new();
        let n: usize = return_ty.len();
        let mut i: usize = 0;
        proof {
            assert(return_ty@.subrange(0, n as int) =~= return_ty@);
        }
        while i < n
            invariant
                i <= n == return_ty@.len(),
                self.pc == old(self).pc,
                pop_result_spec(old(self)@.stack, return_ty@) == (match pop_result_spec(
                    self.stack@,
                    return_ty@.subrange(i as int, n as int),
                ) {
                    Ok((vs, rest)) => Ok((results@ + vs, rest)),
                    Err(e) => Err(e),
                }),
            decreases n - i,
        {
            let ghost types = return_ty@.subrange(i as int, n as int);
            proof {
                assert(types.drop_first() =~= return_ty@.subrange(i + 1, n as int));
                assert(types[0] == return_ty@[i as int]);
            }
            let ty = return_ty[i];
            let val = match self.stack.pop_value() {
                Ok(val) => val,
                Err(e) => {
                    return Err(ReturnValError::Stack(e));
                },
            };
            if val.value_type() != ty {
                return Err(ReturnValError::TypeMismatchReturnValue(val, ty));
            }
            proof {
                match pop_result_spec(self.stack@, types.drop_first()) {
                    Ok((vs, rest)) => {
                        assert(results@ + (seq![val] + vs) =~= results@.push(val) + vs);
                    },
                    Err(e) => {},
                }
            }
            results.push(val);
            i = i + 1;
        }
        proof {
            assert(results@ + Seq::<Value>::empty() =~= results@);
        }
        Ok(results)
    }

    /// Executes the instruction at the program counter. A call of a host
    /// function ends as `execute_inst` says.
    pub fn execute_step<H: HostFuncBody + Clone, I: Interceptor, U: FloatUnit>(
        &mut self,
        store: &mut Store<H>,
        interceptor: &I,
        float_unit: &U,
    ) -> (r: ExecResult<Signal>)
        ensures
            step_post(old(self)@, old(store), r, final(self)@, final(store)),
            fetch(old(self).pc, old(store)) matches Ok((inst, _)) ==> (advance(old(self).pc) matches Some(
                pc,
            ) ==> collaborators_post(
                Machine { pc, stack: old(self)@.stack },
                old(store),
                inst.kind,
                interceptor,
                float_unit,
                r,
                final(self)@,
            )),
            match fetched_target(old(self)@, old(store)) {
                Some(CallTarget::Host { slot, module, args, rest, arity }) => exists|
                    code: H,
                    handed: &[Value],
                    left: &mut Vec<Value>,
                    given: &mut Store<H>,
                    outcome: Result<(), HostError>,
                |
                    {
                        &&& cloned(old(store).funcs.items@[slot as int]->Host_0.code, code)
                        &&& #[trigger] host_call(
                            code,
                            handed,
                            left,
                            given,
                            module,
                            outcome,
                            args,
                            *old(store),
                        )
                        &&& mut_ref_future(given) == *final(store)
                        &&& host_results(
                            outcome,
                            mut_ref_future(left)@,
                            rest,
                            arity,
                            final_signal(Signal::Next, final(self)@.stack),
                            r,
                            final(self)@.stack,
                        )
                    },
                _ => true,
            },
    {
        proof {
            reveal(step_post);
        }
        let (module_index, insts) = match store.func_global(self.pc.exec_addr()) {
            Some(func) => match func.defined() {
                Some(func) => (func.module_index(), func.instructions()),
                None => {
                    return Err(Trap::UndefinedFunc(self.pc.exec_addr().0));
                },
            },
            None => {
                return Err(Trap::UndefinedFunc(self.pc.exec_addr().0));
            },
        };
        proof {
            reveal(step_post);
        }
        let index: usize = self.pc.inst_index().0 as usize;
        if index >= insts.len() {
            return Err(Trap::NoMoreInstruction);
        }
        self.execute_inst(&insts[index], module_index, store, interceptor, float_unit)
    }
}

/// The value of a constant expression: that of its first instruction, which
/// is a constant or the `global.get` of an immutable global.
pub open spec fn const_expr_spec<H>(
    init_expr: Seq<Instruction>,
    store: &Store<H>,
    module_index: ModuleIndex,
) -> Result<Value, ConstExprError> {
    if init_expr.len() == 0 {
        Err(ConstExprError::Empty)
    } else {
        match init_expr[0].kind {
            InstructionKind::I32Const { value } => Ok(Value::I32(value)),
            InstructionKind::I64Const { value } => Ok(Value::I64(value)),
            InstructionKind::F32Const { bits } => Ok(Value::F32(bits)),
            InstructionKind::F64Const { bits } => Ok(Value::F64(bits)),
            InstructionKind::GlobalGet { global_index } => match store.globals.spec_resolve(
                module_index,
                global_index as usize,
            ) {
                None => Err(ConstExprError::UndefinedGlobal(global_index as usize)),
                Some(slot) => if store.globals.items@[slot as int].spec_ty().mutable {
                    Err(ConstExprError::MutableGlobal(global_index as usize))
                } else {
                    Ok(store.globals.items@[slot as int].spec_value())
                },
            },
            _ => Err(ConstExprError::NotConstant),
        }
    }
}

/// Evaluates the constant expression of a global's initial value or of a
/// segment's offset.
pub fn eval_const_expr<H>(init_expr: &Vec<Instruction>, store: &Store<H>, module_index: ModuleIndex) -> (r:
    Result<Value, ConstExprError>)
    ensures
        r == const_expr_spec(init_expr@, store, module_index),
{
    if init_expr.len() == 0 {
        return Err(ConstExprError::Empty);
    }
    match &init_expr[0].kind {
        InstructionKind::I32Const { value } => Ok(Value::I32(*value)),
        InstructionKind::I64Const { value } => Ok(Value::I64(*value)),
        InstructionKind::F32Const { bits } => Ok(Value::F32(*bits)),
        InstructionKind::F64Const { bits } => Ok(Value::F64(*bits)),
        InstructionKind::GlobalGet { global_index } => {
            let addr = GlobalAddr::new_unsafe(module_index, *global_index as usize);
            match store.global(addr) {
                Some(global) => {
                    if global.is_mutable() {
                        Err(ConstExprError::MutableGlobal(*global_index as usize))
                    } else {
                        Ok(global.value())
                    }
                },
                None => Err(ConstExprError::UndefinedGlobal(*global_index as usize)),
            }
        },
        _ => Err(ConstExprError::NotConstant),
    }
}

/// What the driver does with the outcome of a step.
#[derive(Clone, Copy, Debug, PartialEq, Eq, Structural)]
pub enum Progress {
    /// Take the next step.
    Continue,
    /// The invoked function has returned: take its results off the stack.
    Finished,
}

/// Whether the driver goes on after a step with this outcome.
pub open spec fn continues(outcome: Result<Signal, Trap>) -> bool {
    outcome matches Ok(signal) && signal != Signal::End
}

/// What the driver does with the outcome of a step: it goes on after `Next`
/// and after `Breakpoint`, takes the results after `End`, and gives up with
/// the trap after a trap.
pub fn progress(outcome: ExecResult<Signal>) -> (r: Result<Progress, WasmError>)
    ensures
        continues(outcome) ==> r matches Ok(Progress::Continue),
        outcome matches Ok(Signal::End) ==> r matches Ok(Progress::Finished),
        outcome matches Err(trap) ==> r matches Err(WasmError::ExecutionError(t)) && t == trap,
{
    match outcome {
        Ok(Signal::Next) => Ok(Progress::Continue),
        Ok(Signal::Breakpoint) => Ok(Progress::Continue),
        Ok(Signal::End) => Ok(Progress::Finished),
        Err(trap) => Err(WasmError::ExecutionError(trap)),
    }
}

/// One step of a run: the machine and the store before it, its outcome, and
/// the machine and the store after it.
pub struct StepRecord<H> {
    pub before: Machine,
    pub store_before: Store<H>,
    pub outcome: Result<Signal, Trap>,
    pub after: Machine,
    pub store_after: Store<H>,
}

/// Whether `trace` is a run from the machine `m0` and the store `s0` to the
/// machine `m1` and the store `s1`: every record is a step as `step_post`
/// describes it, each step starts where the one before it ended, and the
/// driver went on after every step but the last.
pub open spec fn is_run<H>(
    trace: Seq<StepRecord<H>>,
    m0: Machine,
    s0: Store<H>,
    m1: Machine,
    s1: Store<H>,
) -> bool {
    &&& forall|i: int|
        0 <= i < trace.len() ==> step_post(
            (#[trigger] trace[i]).before,
            &trace[i].store_before,
            trace[i].outcome,
            trace[i].after,
            &trace[i].store_after,
        )
    &&& forall|i: int|
        0 <= i < trace.len() - 1 ==> continues((#[trigger] trace[i]).outcome) && trace[i + 1].before
            == trace[i].after && trace[i + 1].store_before == trace[i].store_after
    &&& if trace.len() == 0 {
        m1 == m0 && s1 == s0
    } else {
        trace[0].before == m0 && trace[0].store_before == s0 && trace.last().after == m1
            && trace.last().store_after == s1
    }
}

/// How a run of at most `max_steps` steps ends: well where its last step
/// signalled `End`; with the trap of its last step; or at the limit, where
/// `max_steps` steps were done and the driver would have gone on.
pub open spec fn run_result<H>(trace: Seq<StepRecord<H>>, max_steps: u64, r: Result<(), WasmError>) -> bool {
    &&& trace.len() <= max_steps
    &&& match r {
        Ok(_) => trace.len() > 0 && trace.last().outcome == Ok::<Signal, Trap>(Signal::End),
        Err(WasmError::ExecutionError(trap)) => trace.len() > 0 && trace.last().outcome == Err::<
            Signal,
            Trap,
        >(trap),
        Err(WasmError::StepLimitReached) => trace.len() == max_steps && (trace.len() > 0
            ==> continues(trace.last().outcome)),
        Err(_) => false,
    }
}

/// Steps `executor` until a step signals `End`, a step traps, or `max_steps`
/// steps are done.
pub fn run_to_end<H: HostFuncBody + Clone, I: Interceptor, U: FloatUnit>(
    executor: &mut Executor,
    store: &mut Store<H>,
    interceptor: &I,
    float_unit: &U,
    max_steps: u64,
) -> (r: Result<(), WasmError>)
    ensures
        exists|trace: Seq<StepRecord<H>>|
            #[trigger] is_run(trace, old(executor)@, *old(store), final(executor)@, *final(store))
                && run_result(trace, max_steps, r),
{
    let mut steps: u64 = 0;
    let ghost mut trace: Seq<StepRecord<H>> = Seq::empty();
    while steps < max_steps
        invariant
            steps <= max_steps,
            trace.len() == steps,
            is_run(trace, old(executor)@, *old(store), executor@, *store),
            trace.len() > 0 ==> continues(trace.last().outcome),
        decreases max_steps - steps,
    {
        let ghost m = executor@;
        let ghost s = *store;
        let ghost before = trace;
        let outcome = executor.execute_step(store, interceptor, float_unit);
        proof {
            trace = before.push(
                StepRecord {
                    before: m,
                    store_before: s,
                    outcome,
                    after: executor@,
                    store_after: *store,
                },
            );
            assert forall|i: int| 0 <= i < trace.len() implies step_post(
                (#[trigger] trace[i]).before,
                &trace[i].store_before,
                trace[i].outcome,
                trace[i].after,
                &trace[i].store_after,
            ) by {
                if i < before.len() {
                    assert(trace[i] == before[i]);
                }
            }
            assert forall|i: int| 0 <= i < trace.len() - 1 implies continues(
                (#[trigger] trace[i]).outcome,
            ) && trace[i + 1].before == trace[i].after && trace[i + 1].store_before
                == trace[i].store_after by {
                assert(trace[i] == before[i]);
                if i + 1 < before.len() {
                    assert(trace[i + 1] == before[i + 1]);
                }
            }
            if before.len() > 0 {
                assert(trace[0] == before[0]);
            }
            assert(is_run(trace, old(executor)@, *old(store), executor@, *store));
        }
        steps = steps + 1;
        match progress(outcome) {
            Ok(Progress::Continue) => {},
            Ok(Progress::Finished) => {
                proof {
                    assert(run_result(trace, max_steps, Ok::<(), WasmError>(())));
                }
                return Ok(());
            },
            Err(e) => {
                proof {
                    assert(run_result(trace, max_steps, Err::<(), WasmError>(e)));
                }
                return Err(e);
            },
        }
    }
    proof {
        assert(run_result(trace, max_steps, Err::<(), WasmError>(WasmError::StepLimitReached)));
    }
    Err(WasmError::StepLimitReached)
}

/// The machine at the start of an invocation of the defined function `func`
/// in slot `slot` with the arguments `args`: its stack holds the root frame
/// and the label of the return.
pub open spec fn start_machine(
    func: crate::func::DefinedFunctionInstance,
    slot: usize,
    args: Seq<Value>,
) -> Machine {
    Machine {
        pc: ProgramCounter {
            module_index: func.module_index,
            exec_addr: ExecutableFuncAddr(slot),
            inst_index: InstIndex(0),
        },
        stack: seq![
            StackEntry::Activation(
                crate::stack::FrameView {
                    module_index: func.module_index,
                    locals: crate::func::initial_locals(args, func.locals@),
                    ret_pc: None,
                    exec_addr: ExecutableFuncAddr(slot),
                },
            ),
            StackEntry::Label(Label::Return(func.ty.returns@.len() as usize)),
        ],
    }
}

/// How an invocation ends whose run is `trace` and stopped at the machine
/// `end`. Where the last step signalled `End`, the results come off the
/// stack, one of each type that the function returns, or the invocation
/// fails with the error of taking them. Where the last step trapped, the
/// invocation fails with that trap. Where the run reached the limit, it
/// fails with `StepLimitReached`.
pub open spec fn invocation_result<H>(
    trace: Seq<StepRecord<H>>,
    max_steps: u64,
    end: Machine,
    result_types: Seq<ValueType>,
    r: Result<Vec<Value>, WasmError>,
) -> bool {
    &&& trace.len() <= max_steps
    &&& match r {
        Ok(values) => {
            &&& trace.len() > 0
            &&& trace.last().outcome == Ok::<Signal, Trap>(Signal::End)
            &&& pop_result_spec(end.stack, result_types) matches Ok((vs, _)) && values@ == vs
        },
        Err(WasmError::ReturnValueError(e)) => trace.len() > 0 && trace.last().outcome == Ok::<
            Signal,
            Trap,
        >(Signal::End) && pop_result_spec(end.stack, result_types) == Err::<
            (Seq<Value>, Seq<StackEntry>),
            ReturnValError,
        >(e),
        Err(WasmError::ExecutionError(trap)) => trace.len() > 0 && trace.last().outcome == Err::<
            Signal,
            Trap,
        >(trap),
        Err(WasmError::StepLimitReached) => trace.len() == max_steps && (trace.len() > 0
            ==> continues(trace.last().outcome)),
        Err(_) => false,
    }
}

/// What an invocation of the function that `func_addr` stands for gives.
/// Where no function stands behind the address, it fails and changes
/// nothing. A defined function is run from `start_machine` for at most
/// `max_steps` steps. Of a host function this says only how the invocation
/// can end; `invoke_func` states which call its result comes from.
pub open spec fn invocation_post<H>(
    func_addr: FuncAddr,
    args: Seq<Value>,
    store_before: Store<H>,
    max_steps: u64,
    r: Result<Vec<Value>, WasmError>,
    store_now: Store<H>,
) -> bool {
    match store_before.funcs.spec_resolve(func_addr.0, func_addr.1) {
        None => r matches Err(WasmError::ExecutionError(t)) && t@ == TrapView::UndefinedFunc(
            func_addr.1,
        ) && store_now == store_before,
        Some(slot) => match store_before.funcs.items@[slot as int] {
            FunctionInstance::Host(_) => r is Ok || r matches Err(WasmError::HostExecutionError),
            FunctionInstance::Defined(func) => exists|trace: Seq<StepRecord<H>>, end: Machine|
                #[trigger] is_run(trace, start_machine(func, slot, args), store_before, end, store_now)
                    && invocation_result(trace, max_steps, end, func.ty.returns@, r),
        },
    }
}

/// What the invocation of a host function gives: the results that the
/// function left where it succeeded, `HostExecutionError` where it failed.
pub fn host_invocation_result(outcome: Result<(), HostError>, results: Vec<Value>) -> (r: Result<
    Vec<Value>,
    WasmError,
>)
    ensures
        outcome is Ok ==> (r matches Ok(values) && values == results),
        outcome is Err ==> r matches Err(WasmError::HostExecutionError),
{
    match outcome {
        Ok(_) => Ok(results),
        Err(_) => Err(WasmError::HostExecutionError),
    }
}

/// Invokes the function that `func_addr` stands for with `arguments`, and
/// runs it for at most `max_steps` steps.
///
/// A host function is called, in a clone of its body, with the arguments,
/// an empty vector for its results and the store: the invocation gives the
/// results that the call left where it succeeded, `HostExecutionError` where
/// it failed, and the store is as the call left it.
pub fn invoke_func<H: HostFuncBody + Clone, U: FloatUnit>(
    func_addr: FuncAddr,
    arguments: Vec<Value>,
    store: &mut Store<H>,
    float_unit: &U,
    max_steps: u64,
) -> (r: Result<Vec<Value>, WasmError>)
    ensures
        invocation_post(func_addr, arguments@, *old(store), max_steps, r, *final(store)),
        match old(store).funcs.spec_resolve(func_addr.0, func_addr.1) {
            Some(slot) => match old(store).funcs.items@[slot as int] {
                FunctionInstance::Host(host) => exists|
                    code: H,
                    handed: &[Value],
                    left: &mut Vec<Value>,
                    given: &mut Store<H>,
                    outcome: Result<(), HostError>,
                |
                    {
                        &&& cloned(host.code, code)
                        &&& #[trigger] host_call(
                            code,
                            handed,
                            left,
                            given,
                            func_addr.0,
                            outcome,
                            arguments@,
                            *old(store),
                        )
                        &&& mut_ref_future(given) == *final(store)
                        &&& match outcome {
                            Ok(_) => r matches Ok(values) && values@ == mut_ref_future(left)@,
                            Err(_) => r matches Err(WasmError::HostExecutionError),
                        }
                    },
                FunctionInstance::Defined(_) => true,
            },
            None => true,
        },
{
    let resolved = match resolve_func_addr(func_addr, store) {
        Ok(resolved) => resolved,
        Err(trap) => {
            return Err(WasmError::ExecutionError(trap));
        },
    };
    match resolved {
        Either::Right(host_func_body) => {
            let code = host_func_body.clone();
            let mut results: Vec<Value> = Vec::new();
            let outcome = code.call(
                arguments.as_slice(),
                &mut results,
                store,
                func_addr.module_index(),
            );
            proof {
                lemma_host_call::<H>(arguments@, *old(store));
            }
            host_invocation_result(outcome, results)
        },
        Either::Left((exec_addr, func)) => {
            let ret_types = func.ty().returns.clone();
            let frame = CallFrame::new_from_func(exec_addr, func, arguments, None);
            let pc = ProgramCounter::new(func.module_index(), exec_addr, InstIndex::zero());
            let interceptor = NopInterceptor::new();
            let ghost result_types = func.ty.returns@;
            let mut executor = Executor::new(frame, ret_types.len(), pc);
            proof {
                assert(ret_types@ =~= result_types);
            }
            let ghost start = executor@;
            proof {
                assert(start == start_machine(*func, exec_addr.0, arguments@));
            }
            let run = run_to_end(&mut executor, store, &interceptor, float_unit, max_steps);
            let ghost end = executor@;
            let ghost trace = choose|t: Seq<StepRecord<H>>|
                #[trigger] is_run(t, start, *old(store), end, *store) && run_result(t, max_steps, run);
            let r = match run {
                Ok(_) => match executor.pop_result(ret_types) {
                    Ok(values) => Ok(values),
                    Err(err) => Err(WasmError::ReturnValueError(err)),
                },
                Err(err) => Err(err),
            };
            proof {
                assert(is_run(trace, start, *old(store), end, *store) && invocation_result(
                    trace,
                    max_steps,
                    end,
                    result_types,
                    r,
                ));
            }
            r
        },
    }
}

/// Invokes the function that `func_addr` stands for with `arguments` and runs
/// it to its end. A host function is called as `invoke_func` says.
pub fn simple_invoke_func<H: HostFuncBody + Clone, U: FloatUnit>(
    func_addr: FuncAddr,
    arguments: Vec<Value>,
    store: &mut Store<H>,
    float_unit: &U,
) -> (r: Result<Vec<Value>, WasmError>)
    ensures
        invocation_post(func_addr, arguments@, *old(store), u64::MAX, r, *final(store)),
        match old(store).funcs.spec_resolve(func_addr.0, func_addr.1) {
            Some(slot) => match old(store).funcs.items@[slot as int] {
                FunctionInstance::Host(host) => exists|
                    code: H,
                    handed: &[Value],
                    left: &mut Vec<Value>,
                    given: &mut Store<H>,
                    outcome: Result<(), HostError>,
                |
                    {
                        &&& cloned(host.code, code)
                        &&& #[trigger] host_call(
                            code,
                            handed,
                            left,
                            given,
                            func_addr.0,
                            outcome,
                            arguments@,
                            *old(store),
                        )
                        &&& mut_ref_future(given) == *final(store)
                        &&& match outcome {
                            Ok(_) => r matches Ok(values) && values@ == mut_ref_future(left)@,
                            Err(_) => r matches Err(WasmError::HostExecutionError),
                        }
                    },
                FunctionInstance::Defined(_) => true,
            },
            None => true,
        },
{
    invoke_func(func_addr, arguments, store, float_unit, u64::MAX)
}

} // verus!
