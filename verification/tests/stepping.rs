use wasminspect_vm::address::{FuncAddr, ModuleIndex};
use wasminspect_vm::debugger::{
    select_entry, Debugger, EmptySubroutineMap, MainDebugger, SubroutineMap,
};
use wasminspect_vm::executor::{
    eval_const_expr, progress, ConstExprError, Executor, Progress,
    ReturnValError, Signal, Trap, WasmError,
};
use wasminspect_vm::exec_memory::store_with_width;
use wasminspect_vm::float::FloatUnit;
use wasminspect_vm::func::{DefinedFunctionInstance, FuncType, FunctionInstance};
use wasminspect_vm::global::{GlobalInstance, GlobalType};
use wasminspect_vm::host::{HostError, HostFuncBody};
use wasminspect_vm::inst::{
    BlockType, ConvertOp, FloatBinOp, FloatRelOp, FloatUnOp, FloatWidth, InstIndex, Instruction,
    InstructionKind, IntBinOp, IntUnOp, IntWidth, LoadKind, MemoryImmediate, StoreKind,
};
use wasminspect_vm::interceptor::{Interceptor, NopInterceptor};
use wasminspect_vm::memory;
use wasminspect_vm::memory::MemoryInstance;
use wasminspect_vm::module::{DefinedModuleInstance, ExportInstance, ExternalValue, ModuleInstance};
use wasminspect_vm::stack;
use wasminspect_vm::stack::{CallFrame, ProgramCounter};
use wasminspect_vm::store::Store;
use wasminspect_vm::value;
use wasminspect_vm::value::{Value, ValueType, F32, F64};

/// A float unit that answers every question with a fixed pattern.
struct Fixed;

impl FloatUnit for Fixed {
    fn f32_unary(&self, _op: FloatUnOp, _a: F32) -> F32 {
        F32(0x1111)
    }
    fn f32_binary(&self, _op: FloatBinOp, _a: F32, _b: F32) -> F32 {
        F32(0x2222)
    }
    fn f64_unary(&self, _op: FloatUnOp, _a: F64) -> F64 {
        F64(0x3333)
    }
    fn f64_binary(&self, _op: FloatBinOp, _a: F64, _b: F64) -> F64 {
        F64(0x4444)
    }
    fn f32_convert_i32(&self, v: i32) -> F32 {
        F32(v as u32)
    }
    fn f32_convert_u32(&self, v: u32) -> F32 {
        F32(v)
    }
    fn f32_convert_i64(&self, v: i64) -> F32 {
        F32(v as u32)
    }
    fn f32_convert_u64(&self, v: u64) -> F32 {
        F32(v as u32)
    }
    fn f64_convert_i32(&self, v: i32) -> F64 {
        F64(v as u64)
    }
    fn f64_convert_u32(&self, v: u32) -> F64 {
        F64(v as u64)
    }
    fn f64_convert_i64(&self, v: i64) -> F64 {
        F64(v as u64)
    }
    fn f64_convert_u64(&self, v: u64) -> F64 {
        F64(v)
    }
    fn f32_demote(&self, _v: F64) -> F32 {
        F32(0x5555)
    }
    fn f64_promote(&self, _v: F32) -> F64 {
        F64(0x6666)
    }
}

#[derive(Clone)]
struct NoHost;

impl HostFuncBody for NoHost {
    fn call(
        &self,
        _args: &[Value],
        _results: &mut Vec<Value>,
        _store: &mut Store<Self>,
        _module_index: ModuleIndex,
    ) -> Result<(), HostError> {
        Err(HostError)
    }
}

/// An interceptor that stops at every call.
struct BreakAtCalls;

impl Interceptor for BreakAtCalls {
    fn invoke_func(&self, _name: &String) -> Signal {
        Signal::Breakpoint
    }
}

fn body(kinds: Vec<InstructionKind>) -> Vec<Instruction> {
    kinds.into_iter().map(|kind| Instruction { kind, offset: 0 }).collect()
}

/// A store with one module, one memory of one page, and the function `kinds`
/// of the type `ty`; and an executor at the start of that function with the
/// arguments `args`.
fn machine(
    ty: FuncType,
    locals: Vec<ValueType>,
    kinds: Vec<InstructionKind>,
    args: Vec<Value>,
) -> (Store<NoHost>, Executor) {
    let mut store: Store<NoHost> = Store::new();
    let m = store.next_module_index().unwrap();
    store.mems.push(m, MemoryInstance::new(1, None));
    let arity = ty.returns.len();
    let f = DefinedFunctionInstance::new("f".to_string(), ty.clone(), m, locals, body(kinds));
    store.funcs.push(m, FunctionInstance::Defined(f));
    store.add_module(None, ModuleInstance::Defined(DefinedModuleInstance::new(vec![ty])));
    let (func, exec_addr) = store.func(FuncAddr(m, 0)).unwrap();
    let frame = CallFrame::new_from_func(exec_addr, func.defined().unwrap(), args, None);
    let pc = ProgramCounter::new(m, exec_addr, InstIndex::zero());
    let executor = Executor::new(frame, arity, pc);
    (store, executor)
}

fn no_args(returns: Vec<ValueType>) -> FuncType {
    FuncType { params: vec![], returns }
}

/// Runs the instructions `kinds` on an empty operand stack and returns what
/// the last step gave and the values left above the root frame's label.
fn run(kinds: Vec<InstructionKind>) -> (Result<Signal, Trap>, Vec<Value>) {
    let n = kinds.len();
    let (mut store, mut executor) = machine(no_args(vec![]), vec![], kinds, vec![]);
    let mut last = Ok(Signal::Next);
    while (executor.pc.inst_index().0 as usize) < n {
        last = executor.execute_step(&mut store, &NopInterceptor::new(), &Fixed);
        if last.is_err() {
            break;
        }
    }
    let mut values = vec![];
    while let Ok(v) = executor.stack.pop_value() {
        values.push(v);
    }
    values.reverse();
    (last, values)
}

fn i32c(value: i32) -> InstructionKind {
    InstructionKind::I32Const { value }
}

fn i64c(value: i64) -> InstructionKind {
    InstructionKind::I64Const { value }
}

fn f32c(x: f32) -> InstructionKind {
    InstructionKind::F32Const { bits: x.to_bits() }
}

fn f64c(x: f64) -> InstructionKind {
    InstructionKind::F64Const { bits: x.to_bits() }
}

fn convert(op: ConvertOp) -> InstructionKind {
    InstructionKind::Convert { op }
}

#[test]
fn new_executor_holds_the_root_frame_and_its_label() {
    let (_, mut executor) = machine(
        FuncType { params: vec![ValueType::I32], returns: vec![ValueType::I32] },
        vec![ValueType::I64, ValueType::F32],
        vec![InstructionKind::End],
        vec![Value::I32(8)],
    );
    assert_eq!(executor.stack.len(), 2);
    assert_eq!(executor.stack.is_func_top_level(), Ok(true));
    assert_eq!(executor.pc.inst_index(), InstIndex(0));
    let frame = executor.stack.current_frame().unwrap();
    assert_eq!(frame.locals, vec![Value::I32(8), Value::I64(0), Value::F32(0)]);
    assert_eq!(frame.ret_pc, None);
    assert_eq!(executor.stack.pop_label(), Ok(stack::Label::Return(1)));
}

#[test]
fn steps_signal_next_until_the_end() {
    let (mut store, mut executor) = machine(
        no_args(vec![ValueType::I32]),
        vec![],
        vec![i32c(2), i32c(3), InstructionKind::IntBinary { width: IntWidth::W32, op: IntBinOp::Add }, InstructionKind::End],
        vec![],
    );
    let nop = NopInterceptor::new();
    assert_eq!(executor.current_func_insts(&store).unwrap().len(), 4);
    assert!(matches!(executor.execute_step(&mut store, &nop, &Fixed), Ok(Signal::Next)));
    assert_eq!(executor.pc.inst_index(), InstIndex(1));
    assert_eq!(executor.stack.len(), 3);
    assert!(matches!(executor.execute_step(&mut store, &nop, &Fixed), Ok(Signal::Next)));
    assert!(matches!(executor.execute_step(&mut store, &nop, &Fixed), Ok(Signal::Next)));
    assert_eq!(executor.stack.len(), 3);
    assert!(matches!(executor.execute_step(&mut store, &nop, &Fixed), Ok(Signal::End)));
    assert!(executor.stack.is_over_top_level());
    assert_eq!(executor.stack.len(), 1);
    assert_eq!(executor.pop_result(vec![ValueType::I32]), Ok(vec![Value::I32(5)]));
    assert_eq!(executor.pop_result(vec![ValueType::I32]), Err(ReturnValError::Stack(stack::Error::Underflow)));
    // a step past the end finds no instruction
    assert!(matches!(executor.execute_step(&mut store, &nop, &Fixed), Err(Trap::NoMoreInstruction)));
}

#[test]
fn pop_result_checks_each_type() {
    let (_, mut executor) = machine(no_args(vec![]), vec![], vec![], vec![]);
    executor.stack.push_value(Value::I64(1));
    executor.stack.push_value(Value::I32(2));
    assert_eq!(
        executor.pop_result(vec![ValueType::I32, ValueType::I64]),
        Ok(vec![Value::I32(2), Value::I64(1)])
    );
    executor.stack.push_value(Value::I64(1));
    executor.stack.push_value(Value::I32(2));
    assert_eq!(
        executor.pop_result(vec![ValueType::I32, ValueType::I32]),
        Err(ReturnValError::TypeMismatchReturnValue(Value::I64(1), ValueType::I32))
    );
    assert_eq!(executor.pop_result(vec![]), Ok(vec![]));
    assert_eq!(
        executor.pop_result(vec![ValueType::I32]),
        Err(ReturnValError::Stack(stack::Error::TypeMismatch {
            expected: stack::StackValueType::Value,
            actual: stack::StackValueType::Label
        }))
    );
}

#[test]
fn pop_as_reports_the_types() {
    let (_, mut executor) = machine(no_args(vec![]), vec![], vec![], vec![]);
    executor.stack.push_value(Value::I64(1));
    let r: Result<i32, Trap> = executor.pop_as();
    assert!(matches!(r, Err(Trap::UnexpectedStackValueType(ValueType::I32, ValueType::I64))));
    executor.stack.push_value(Value::I32(-1));
    let r: Result<u32, Trap> = executor.pop_as();
    assert!(matches!(r, Ok(u32::MAX)));
    let r: Result<i32, Trap> = executor.pop_as();
    assert!(matches!(
        r,
        Err(Trap::Stack(stack::Error::TypeMismatch {
            expected: stack::StackValueType::Value,
            actual: stack::StackValueType::Label
        }))
    ));
}

#[test]
fn interceptor_decides_the_signal_of_a_call() {
    let mut store: Store<NoHost> = Store::new();
    let m = store.next_module_index().unwrap();
    let ty = no_args(vec![]);
    let callee = DefinedFunctionInstance::new("callee".to_string(), ty.clone(), m, vec![], body(vec![InstructionKind::End]));
    store.funcs.push(m, FunctionInstance::Defined(callee));
    let caller = DefinedFunctionInstance::new(
        "caller".to_string(),
        ty.clone(),
        m,
        vec![],
        body(vec![InstructionKind::Call { function_index: 0 }, InstructionKind::End]),
    );
    store.funcs.push(m, FunctionInstance::Defined(caller));
    store.add_module(None, ModuleInstance::Defined(DefinedModuleInstance::new(vec![ty])));
    let (func, exec_addr) = store.func(FuncAddr(m, 1)).unwrap();
    let frame = CallFrame::new_from_func(exec_addr, func.defined().unwrap(), vec![], None);
    let mut executor = Executor::new(frame, 0, ProgramCounter::new(m, exec_addr, InstIndex::zero()));
    let r = executor.execute_step(&mut store, &BreakAtCalls, &Fixed);
    assert!(matches!(r, Ok(Signal::Breakpoint)));
    // the callee's frame and label are on the stack, and the frame knows the way back
    assert_eq!(executor.stack.len(), 4);
    assert_eq!(executor.pc.inst_index(), InstIndex(0));
    assert_eq!(executor.pc.exec_addr().0, 0);
    let ret_pc = executor.stack.current_frame().unwrap().ret_pc.unwrap();
    assert_eq!(ret_pc.inst_index(), InstIndex(1));
    assert_eq!(ret_pc.exec_addr().0, 1);
    assert!(matches!(executor.execute_step(&mut store, &BreakAtCalls, &Fixed), Ok(Signal::Next)));
    assert_eq!(executor.stack.len(), 2);
    assert_eq!(executor.pc.exec_addr().0, 1);
    assert!(matches!(executor.execute_step(&mut store, &BreakAtCalls, &Fixed), Ok(Signal::End)));
    assert_eq!(executor.stack.len(), 0);
}

#[test]
fn driver_goes_on_after_next_and_breakpoint() {
    assert!(matches!(progress(Ok(Signal::Next)), Ok(Progress::Continue)));
    assert!(matches!(progress(Ok(Signal::Breakpoint)), Ok(Progress::Continue)));
    assert!(matches!(progress(Ok(Signal::End)), Ok(Progress::Finished)));
    assert!(matches!(
        progress(Err(Trap::Unreachable)),
        Err(WasmError::ExecutionError(Trap::Unreachable))
    ));
}

#[test]
fn select_and_drop() {
    let (r, values) = run(vec![i32c(10), i32c(20), i32c(1), InstructionKind::Select]);
    assert!(r.is_ok());
    assert_eq!(values, vec![Value::I32(10)]);
    let (_, values) = run(vec![i32c(10), i32c(20), i32c(0), InstructionKind::Select]);
    assert_eq!(values, vec![Value::I32(20)]);
    let (_, values) = run(vec![i32c(10), i64c(20), InstructionKind::Drop]);
    assert_eq!(values, vec![Value::I32(10)]);
    let (r, _) = run(vec![InstructionKind::Drop]);
    assert!(matches!(r, Err(Trap::Stack(_))));
    let (r, _) = run(vec![i32c(10), i32c(20), i64c(0), InstructionKind::Select]);
    assert!(matches!(r, Err(Trap::UnexpectedStackValueType(ValueType::I32, ValueType::I64))));
}

#[test]
fn conversions_between_integers() {
    let (_, v) = run(vec![i64c(0x1_2345_6789), convert(ConvertOp::I32WrapI64)]);
    assert_eq!(v, vec![Value::I32(0x2345_6789)]);
    let (_, v) = run(vec![i64c(-1), convert(ConvertOp::I32WrapI64)]);
    assert_eq!(v, vec![Value::I32(-1)]);
    let (_, v) = run(vec![i64c(0x8000_0000), convert(ConvertOp::I32WrapI64)]);
    assert_eq!(v, vec![Value::I32(i32::MIN)]);
    let (_, v) = run(vec![i32c(-1), convert(ConvertOp::I64ExtendI32S)]);
    assert_eq!(v, vec![Value::I64(-1)]);
    let (_, v) = run(vec![i32c(-1), convert(ConvertOp::I64ExtendI32U)]);
    assert_eq!(v, vec![Value::I64(0xFFFF_FFFF)]);
    let (r, _) = run(vec![i32c(-1), convert(ConvertOp::I32WrapI64)]);
    assert!(matches!(r, Err(Trap::UnexpectedStackValueType(ValueType::I64, ValueType::I32))));
}

#[test]
fn conversions_from_floats_trap_out_of_range() {
    let (_, v) = run(vec![f32c(-3.9), convert(ConvertOp::I32TruncF32S)]);
    assert_eq!(v, vec![Value::I32(-3)]);
    let (_, v) = run(vec![f32c(3e9), convert(ConvertOp::I32TruncF32U)]);
    assert_eq!(v, vec![Value::I32(3_000_000_000u32 as i32)]);
    let (r, _) = run(vec![f32c(3e9), convert(ConvertOp::I32TruncF32S)]);
    assert!(matches!(r, Err(Trap::Value(value::Error::InvalidConversionToInt))));
    let (r, _) = run(vec![f64c(f64::NAN), convert(ConvertOp::I64TruncF64S)]);
    assert!(matches!(r, Err(Trap::Value(value::Error::InvalidConversionToInt))));
    let (_, v) = run(vec![f64c(1e19), convert(ConvertOp::I64TruncF64U)]);
    assert_eq!(v, vec![Value::I64(10_000_000_000_000_000_000u64 as i64)]);
    let (_, v) = run(vec![f64c(-7.5), convert(ConvertOp::I32TruncF64S)]);
    assert_eq!(v, vec![Value::I32(-7)]);
    let (_, v) = run(vec![f64c(7.5), convert(ConvertOp::I32TruncF64U)]);
    assert_eq!(v, vec![Value::I32(7)]);
    let (_, v) = run(vec![f32c(-7.5), convert(ConvertOp::I64TruncF32S)]);
    assert_eq!(v, vec![Value::I64(-7)]);
    let (_, v) = run(vec![f32c(7.5), convert(ConvertOp::I64TruncF32U)]);
    assert_eq!(v, vec![Value::I64(7)]);
}

#[test]
fn reinterpretation_keeps_the_bits() {
    let (_, v) = run(vec![f32c(1.0), convert(ConvertOp::I32ReinterpretF32)]);
    assert_eq!(v, vec![Value::I32(0x3f80_0000)]);
    let (_, v) = run(vec![i32c(-1), convert(ConvertOp::F32ReinterpretI32)]);
    assert_eq!(v, vec![Value::F32(u32::MAX)]);
    let (_, v) = run(vec![f64c(-0.0), convert(ConvertOp::I64ReinterpretF64)]);
    assert_eq!(v, vec![Value::I64(i64::MIN)]);
    let (_, v) = run(vec![i64c(0x3ff0_0000_0000_0000), convert(ConvertOp::F64ReinterpretI64)]);
    assert_eq!(v, vec![Value::F64(1.0f64.to_bits())]);
}

#[test]
fn float_unit_answers_are_put_on_the_stack() {
    let (_, v) = run(vec![
        f32c(1.0),
        f32c(2.0),
        InstructionKind::FloatBinary { width: FloatWidth::W32, op: FloatBinOp::Add },
    ]);
    assert_eq!(v, vec![Value::F32(0x2222)]);
    let (_, v) = run(vec![f64c(2.0), InstructionKind::FloatUnary { width: FloatWidth::W64, op: FloatUnOp::Sqrt }]);
    assert_eq!(v, vec![Value::F64(0x3333)]);
    let (_, v) = run(vec![f64c(2.0), convert(ConvertOp::F32DemoteF64)]);
    assert_eq!(v, vec![Value::F32(0x5555)]);
    let (_, v) = run(vec![f32c(2.0), convert(ConvertOp::F64PromoteF32)]);
    assert_eq!(v, vec![Value::F64(0x6666)]);
    let (_, v) = run(vec![i32c(-1), convert(ConvertOp::F64ConvertI32U)]);
    assert_eq!(v, vec![Value::F64(0xFFFF_FFFF)]);
    let (_, v) = run(vec![i64c(-1), convert(ConvertOp::F64ConvertI64U)]);
    assert_eq!(v, vec![Value::F64(u64::MAX)]);
    // what is decided on the bits does not go to the float unit
    let (_, v) = run(vec![f32c(-2.0), InstructionKind::FloatUnary { width: FloatWidth::W32, op: FloatUnOp::Abs }]);
    assert_eq!(v, vec![Value::F32(2.0f32.to_bits())]);
    let (_, v) = run(vec![f64c(2.0), InstructionKind::FloatUnary { width: FloatWidth::W64, op: FloatUnOp::Neg }]);
    assert_eq!(v, vec![Value::F64((-2.0f64).to_bits())]);
    let (_, v) = run(vec![
        f32c(f32::NAN),
        f32c(1.0),
        InstructionKind::FloatBinary { width: FloatWidth::W32, op: FloatBinOp::Min },
    ]);
    assert_eq!(v, vec![Value::F32(f32::NAN.to_bits())]);
    let (_, v) = run(vec![
        f64c(1.0),
        f64c(-3.0),
        InstructionKind::FloatBinary { width: FloatWidth::W64, op: FloatBinOp::Copysign },
    ]);
    assert_eq!(v, vec![Value::F64((-1.0f64).to_bits())]);
    let (_, v) = run(vec![
        f32c(1.0),
        f32c(2.0),
        InstructionKind::FloatRel { width: FloatWidth::W32, op: FloatRelOp::Lt },
    ]);
    assert_eq!(v, vec![Value::I32(1)]);
    let (r, _) = run(vec![
        f32c(1.0),
        f64c(2.0),
        InstructionKind::FloatBinary { width: FloatWidth::W32, op: FloatBinOp::Add },
    ]);
    assert!(matches!(r, Err(Trap::UnexpectedStackValueType(ValueType::F32, ValueType::F64))));
}

#[test]
fn integer_unary_and_test() {
    let (_, v) = run(vec![i32c(0), InstructionKind::IntTest { width: IntWidth::W32 }]);
    assert_eq!(v, vec![Value::I32(1)]);
    let (_, v) = run(vec![i64c(5), InstructionKind::IntTest { width: IntWidth::W64 }]);
    assert_eq!(v, vec![Value::I32(0)]);
    let (_, v) = run(vec![i64c(1), InstructionKind::IntUnary { width: IntWidth::W64, op: IntUnOp::Clz }]);
    assert_eq!(v, vec![Value::I64(63)]);
    let (_, v) = run(vec![i32c(12), InstructionKind::IntUnary { width: IntWidth::W32, op: IntUnOp::Ctz }]);
    assert_eq!(v, vec![Value::I32(2)]);
}

fn memarg(offset: u32) -> MemoryImmediate {
    MemoryImmediate { flags: 0, offset }
}

#[test]
fn narrow_stores_write_the_low_bytes_only() {
    let (_, v) = run(vec![
        i32c(16),
        i32c(-1),
        InstructionKind::Store { kind: StoreKind::I32, memarg: memarg(0) },
        i32c(16),
        i32c(0x1234_5600),
        InstructionKind::Store { kind: StoreKind::I32Store8, memarg: memarg(1) },
        i32c(16),
        InstructionKind::Load { kind: LoadKind::I32, memarg: memarg(0) },
    ]);
    assert_eq!(v, vec![Value::I32(0xFFFF_00FF_u32 as i32)]);
    let (_, v) = run(vec![
        i32c(0),
        i64c(-1),
        InstructionKind::Store { kind: StoreKind::I64, memarg: memarg(0) },
        i32c(0),
        i64c(0),
        InstructionKind::Store { kind: StoreKind::I64Store32, memarg: memarg(2) },
        i32c(0),
        InstructionKind::Load { kind: LoadKind::I64, memarg: memarg(0) },
    ]);
    assert_eq!(v, vec![Value::I64(0xFFFF_0000_0000_FFFF_u64 as i64)]);
    assert_eq!(store_with_width(Value::I32(0x0102_0304), 2), vec![4, 3]);
    assert_eq!(store_with_width(Value::I64(-2), 8), vec![0xFE, 0xFF, 0xFF, 0xFF, 0xFF, 0xFF, 0xFF, 0xFF]);
    assert_eq!(store_with_width(Value::F32(1.0f32.to_bits()), 4), vec![0, 0, 0x80, 0x3f]);
    assert_eq!(store_with_width(Value::F64(1.0f64.to_bits()), 8), vec![0, 0, 0, 0, 0, 0, 0xf0, 0x3f]);
}

#[test]
fn loads_extend_with_and_without_sign() {
    let store_then = |kind: LoadKind| {
        run(vec![
            i32c(8),
            i64c(0x8182_8384_8586_87F8_u64 as i64),
            InstructionKind::Store { kind: StoreKind::I64, memarg: memarg(0) },
            i32c(8),
            InstructionKind::Load { kind, memarg: memarg(0) },
        ])
        .1
    };
    assert_eq!(store_then(LoadKind::I32Load8S), vec![Value::I32(-8)]);
    assert_eq!(store_then(LoadKind::I32Load8U), vec![Value::I32(0xF8)]);
    assert_eq!(store_then(LoadKind::I32Load16S), vec![Value::I32(0x87F8 - 0x10000)]);
    assert_eq!(store_then(LoadKind::I32Load16U), vec![Value::I32(0x87F8)]);
    assert_eq!(store_then(LoadKind::I64Load8S), vec![Value::I64(-8)]);
    assert_eq!(store_then(LoadKind::I64Load8U), vec![Value::I64(0xF8)]);
    assert_eq!(store_then(LoadKind::I64Load16S), vec![Value::I64(0x87F8 - 0x10000)]);
    assert_eq!(store_then(LoadKind::I64Load16U), vec![Value::I64(0x87F8)]);
    assert_eq!(store_then(LoadKind::I64Load32S), vec![Value::I64(0x8586_87F8 - 0x1_0000_0000)]);
    assert_eq!(store_then(LoadKind::I64Load32U), vec![Value::I64(0x8586_87F8)]);
    assert_eq!(store_then(LoadKind::I32), vec![Value::I32(0x8586_87F8_u32 as i32)]);
    assert_eq!(store_then(LoadKind::F32), vec![Value::F32(0x8586_87F8)]);
    assert_eq!(store_then(LoadKind::F64), vec![Value::F64(0x8182_8384_8586_87F8)]);
    assert_eq!(store_then(LoadKind::I64), vec![Value::I64(0x8182_8384_8586_87F8_u64 as i64)]);
}

#[test]
fn store_and_load_round_trip_for_every_type() {
    for (value, store_kind, load_kind) in [
        (Value::I32(-123456), StoreKind::I32, LoadKind::I32),
        (Value::I64(i64::MIN + 5), StoreKind::I64, LoadKind::I64),
        (Value::F32(f32::NAN.to_bits() | 0x1234), StoreKind::F32, LoadKind::F32),
        (Value::F64((-0.0f64).to_bits()), StoreKind::F64, LoadKind::F64),
    ] {
        let constant = match value {
            Value::I32(value) => InstructionKind::I32Const { value },
            Value::I64(value) => InstructionKind::I64Const { value },
            Value::F32(bits) => InstructionKind::F32Const { bits },
            Value::F64(bits) => InstructionKind::F64Const { bits },
        };
        let (r, v) = run(vec![
            i32c(100),
            constant,
            InstructionKind::Store { kind: store_kind, memarg: memarg(4) },
            i32c(104),
            InstructionKind::Load { kind: load_kind, memarg: memarg(0) },
        ]);
        assert!(r.is_ok());
        assert_eq!(v, vec![value]);
    }
    for v in [i8::MIN, -1, 0, 1, i8::MAX] {
        let (_, got) = run(vec![
            i32c(0),
            i32c(v as i32),
            InstructionKind::Store { kind: StoreKind::I32Store8, memarg: memarg(0) },
            i32c(0),
            InstructionKind::Load { kind: LoadKind::I32Load8S, memarg: memarg(0) },
        ]);
        assert_eq!(got, vec![Value::I32(v as i32)]);
        let (_, got) = run(vec![
            i32c(0),
            i32c(v as i32),
            InstructionKind::Store { kind: StoreKind::I32Store8, memarg: memarg(0) },
            i32c(0),
            InstructionKind::Load { kind: LoadKind::I32Load8U, memarg: memarg(0) },
        ]);
        assert_eq!(got, vec![Value::I32(v as u8 as i32)]);
    }
}

#[test]
fn store_of_another_type_traps() {
    let (r, _) = run(vec![
        i32c(0),
        i64c(1),
        InstructionKind::Store { kind: StoreKind::I32, memarg: memarg(0) },
    ]);
    assert!(matches!(r, Err(Trap::UnexpectedStackValueType(ValueType::I32, ValueType::I64))));
    let (r, _) = run(vec![
        i64c(0),
        i32c(1),
        InstructionKind::Store { kind: StoreKind::I32, memarg: memarg(0) },
    ]);
    assert!(matches!(r, Err(Trap::UnexpectedStackValueType(ValueType::I32, ValueType::I64))));
}

#[test]
fn locals_are_read_set_and_teed() {
    let (mut store, mut executor) = machine(
        FuncType { params: vec![ValueType::I32], returns: vec![] },
        vec![ValueType::I32],
        vec![
            InstructionKind::LocalGet { local_index: 0 },
            InstructionKind::LocalTee { local_index: 1 },
            InstructionKind::LocalSet { local_index: 0 },
            InstructionKind::LocalGet { local_index: 2 },
        ],
        vec![Value::I32(7)],
    );
    let nop = NopInterceptor::new();
    executor.execute_step(&mut store, &nop, &Fixed).unwrap();
    executor.execute_step(&mut store, &nop, &Fixed).unwrap();
    assert_eq!(executor.stack.len(), 3);
    assert_eq!(executor.stack.current_frame().unwrap().locals, vec![Value::I32(7), Value::I32(7)]);
    executor.execute_step(&mut store, &nop, &Fixed).unwrap();
    assert_eq!(executor.stack.len(), 2);
    let r = executor.execute_step(&mut store, &nop, &Fixed);
    assert!(matches!(r, Err(Trap::Stack(stack::Error::UndefinedLocal(2)))));
}

#[test]
fn branch_deeper_than_the_labels_traps() {
    let (r, _) = run(vec![
        InstructionKind::Block { ty: BlockType::Empty },
        InstructionKind::Br { relative_depth: 2 },
    ]);
    assert!(matches!(r, Err(Trap::Stack(stack::Error::UndefinedLabel(2)))));
}

#[test]
fn branch_without_a_matching_end_traps() {
    let (r, _) = run(vec![
        InstructionKind::Block { ty: BlockType::Empty },
        InstructionKind::Br { relative_depth: 0 },
    ]);
    assert!(matches!(r, Err(Trap::NoMoreInstruction)));
    let (r, _) = run(vec![i32c(0), InstructionKind::If { ty: BlockType::Empty }]);
    assert!(matches!(r, Err(Trap::NoMoreInstruction)));
}

#[test]
fn branch_carries_as_many_values_as_the_label_says() {
    // the block leaves one value; the two values under it go with the block
    let (r, v) = run(vec![
        i32c(1),
        InstructionKind::Block { ty: BlockType::Value(ValueType::I32) },
        i32c(2),
        i32c(3),
        i32c(4),
        InstructionKind::Br { relative_depth: 0 },
        InstructionKind::End,
        InstructionKind::Nop,
    ]);
    assert!(r.is_ok());
    assert_eq!(v, vec![Value::I32(1), Value::I32(4)]);
}

#[test]
fn constant_expressions() {
    let mut store: Store<NoHost> = Store::new();
    let m = store.next_module_index().unwrap();
    store.globals.push(
        m,
        GlobalInstance::new(Value::I64(77), GlobalType { content_type: ValueType::I64, mutable: false }),
    );
    store.globals.push(
        m,
        GlobalInstance::new(Value::I32(1), GlobalType { content_type: ValueType::I32, mutable: true }),
    );
    assert_eq!(eval_const_expr(&body(vec![i32c(5), InstructionKind::End]), &store, m), Ok(Value::I32(5)));
    assert_eq!(eval_const_expr(&body(vec![i64c(-5)]), &store, m), Ok(Value::I64(-5)));
    assert_eq!(
        eval_const_expr(&body(vec![f32c(1.5)]), &store, m),
        Ok(Value::F32(1.5f32.to_bits()))
    );
    assert_eq!(
        eval_const_expr(&body(vec![f64c(-1.5)]), &store, m),
        Ok(Value::F64((-1.5f64).to_bits()))
    );
    assert_eq!(
        eval_const_expr(&body(vec![InstructionKind::GlobalGet { global_index: 0 }]), &store, m),
        Ok(Value::I64(77))
    );
    assert_eq!(
        eval_const_expr(&body(vec![InstructionKind::GlobalGet { global_index: 1 }]), &store, m),
        Err(ConstExprError::MutableGlobal(1))
    );
    assert_eq!(
        eval_const_expr(&body(vec![InstructionKind::GlobalGet { global_index: 2 }]), &store, m),
        Err(ConstExprError::UndefinedGlobal(2))
    );
    assert_eq!(eval_const_expr(&body(vec![InstructionKind::Nop]), &store, m), Err(ConstExprError::NotConstant));
    assert_eq!(eval_const_expr(&body(vec![]), &store, m), Err(ConstExprError::Empty));
}

fn debugger_store() -> (Store<NoHost>, ModuleIndex) {
    let mut store: Store<NoHost> = Store::new();
    let m = store.next_module_index().unwrap();
    let ty = no_args(vec![ValueType::I32]);
    for (name, value) in [("one", 1), ("_start", 2), ("three", 3)] {
        let f = DefinedFunctionInstance::new(
            name.to_string(),
            ty.clone(),
            m,
            vec![],
            body(vec![i32c(value), InstructionKind::End]),
        );
        store.funcs.push(m, FunctionInstance::Defined(f));
    }
    (store, m)
}

fn exports(m: ModuleIndex) -> Vec<ExportInstance> {
    vec![
        ExportInstance { name: "one".to_string(), value: ExternalValue::Func(FuncAddr(m, 0)) },
        ExportInstance { name: "_start".to_string(), value: ExternalValue::Func(FuncAddr(m, 1)) },
        ExportInstance {
            name: "memory".to_string(),
            value: ExternalValue::Memory(wasminspect_vm::address::MemoryAddr(m, 0)),
        },
    ]
}

#[test]
fn entry_is_the_named_export_or_the_start_function_or_start() {
    let m = ModuleIndex(1);
    let ty = no_args(vec![ValueType::I32]);
    let plain = DefinedModuleInstance { types: vec![ty.clone()], exports: exports(m), start_func: None };
    assert!(matches!(select_entry(&plain, Some("one".to_string())), Ok(FuncAddr(_, 0))));
    assert!(matches!(select_entry(&plain, None), Ok(FuncAddr(_, 1))));
    match select_entry(&plain, Some("two".to_string())) {
        Err(WasmError::EntryFunctionNotFound(name)) => assert_eq!(name, "two"),
        other => panic!("unexpected {:?}", other),
    }
    match select_entry(&plain, Some("memory".to_string())) {
        Err(WasmError::EntryFunctionNotFound(name)) => assert_eq!(name, "memory"),
        other => panic!("unexpected {:?}", other),
    }
    let with_start =
        DefinedModuleInstance { types: vec![ty.clone()], exports: exports(m), start_func: Some(FuncAddr(m, 2)) };
    assert!(matches!(select_entry(&with_start, None), Ok(FuncAddr(_, 2))));
    assert!(matches!(select_entry(&with_start, Some("one".to_string())), Ok(FuncAddr(_, 0))));
    let bare = DefinedModuleInstance::new(vec![ty]);
    match select_entry(&bare, None) {
        Err(WasmError::EntryFunctionNotFound(name)) => assert_eq!(name, "_start"),
        other => panic!("unexpected {:?}", other),
    }
}

#[test]
fn debugger_runs_the_entry() {
    let (mut store, m) = debugger_store();
    let ty = no_args(vec![ValueType::I32]);
    store.add_module(
        Some("main".to_string()),
        ModuleInstance::Defined(DefinedModuleInstance {
            types: vec![ty],
            exports: exports(m),
            start_func: None,
        }),
    );
    let mut debugger = MainDebugger::new(store, Some(m), Fixed);
    assert_eq!(debugger.run(Some("one".to_string())).unwrap(), vec![Value::I32(1)]);
    assert_eq!(debugger.run(None).unwrap(), vec![Value::I32(2)]);
    assert!(matches!(
        debugger.run(Some("three".to_string())),
        Err(WasmError::EntryFunctionNotFound(_))
    ));
    let mut none: MainDebugger<NoHost, Fixed> = MainDebugger::new(Store::new(), None, Fixed);
    assert!(matches!(none.run(None), Err(WasmError::NoModuleLoaded)));
    let mut missing: MainDebugger<NoHost, Fixed> = MainDebugger::new(Store::new(), Some(m), Fixed);
    assert!(matches!(missing.run_entry(None), Err(WasmError::NoModuleLoaded)));
}

#[test]
fn empty_subroutine_map_knows_no_variable() {
    let map = EmptySubroutineMap::new();
    assert_eq!(map.variable_name_list(0).unwrap().len(), 0);
    assert_eq!(map.variable_name_list(1234).unwrap().len(), 0);
    assert_eq!(map.display_variable(0, 0, &[1, 2, 3], "x".to_string()), Ok(()));
}

#[test]
fn call_is_prepared_and_finished() {
    let (store, mut executor) = machine(
        FuncType { params: vec![ValueType::I32], returns: vec![ValueType::I32] },
        vec![ValueType::I64],
        vec![InstructionKind::End],
        vec![Value::I32(1)],
    );
    executor.stack.push_value(Value::I32(7));
    let before = executor.pc;
    match executor.prepare_call(FuncAddr(ModuleIndex(1), 0), &store) {
        Ok(wasminspect_vm::exec_call::Prepared::Entered(name)) => assert_eq!(name, "f"),
        _ => panic!("not entered"),
    }
    assert_eq!(executor.stack.len(), 4);
    assert_eq!(executor.pc.inst_index(), InstIndex(0));
    let frame = executor.stack.current_frame().unwrap();
    assert_eq!(frame.locals, vec![Value::I32(7), Value::I64(0)]);
    assert_eq!(frame.ret_pc, Some(before));
    assert!(matches!(
        executor.prepare_call(FuncAddr(ModuleIndex(1), 5), &store),
        Err(Trap::UndefinedFunc(5))
    ));

    let r = executor.finish_host_call(Ok(()), vec![Value::I32(1), Value::I64(2)], 2);
    assert!(matches!(r, Ok(Signal::Next)));
    assert_eq!(executor.stack.pop_value(), Ok(Value::I64(2)));
    assert_eq!(executor.stack.pop_value(), Ok(Value::I32(1)));
    let r = executor.finish_host_call(Ok(()), vec![Value::I32(1)], 2);
    assert!(matches!(r, Err(Trap::HostResultCount { expected: 2, actual: 1 })));
    let r = executor.finish_host_call(Err(HostError), vec![], 0);
    assert!(matches!(r, Err(Trap::HostExecution(_))));
    assert_eq!(executor.stack.len(), 4);
}

#[test]
fn host_invocation_gives_the_results_or_the_error() {
    assert_eq!(wasminspect_vm::executor::host_invocation_result(Ok(()), vec![Value::I32(3)]).unwrap(), vec![Value::I32(3)]);
    assert!(matches!(
        wasminspect_vm::executor::host_invocation_result(Err(HostError), vec![Value::I32(3)]),
        Err(WasmError::HostExecutionError)
    ));
}

#[test]
fn run_stops_at_the_end_a_trap_or_the_limit() {
    let program = vec![
        InstructionKind::Loop { ty: BlockType::Empty },
        InstructionKind::Br { relative_depth: 0 },
        InstructionKind::End,
        InstructionKind::End,
    ];
    let (mut store, mut executor) = machine(no_args(vec![]), vec![], program, vec![]);
    let r = wasminspect_vm::executor::run_to_end(&mut executor, &mut store, &NopInterceptor::new(), &Fixed, 1000);
    assert!(matches!(r, Err(WasmError::StepLimitReached)));
    let r = wasminspect_vm::executor::run_to_end(&mut executor, &mut store, &NopInterceptor::new(), &Fixed, 0);
    assert!(matches!(r, Err(WasmError::StepLimitReached)));

    let (mut store, mut executor) =
        machine(no_args(vec![]), vec![], vec![InstructionKind::Nop, InstructionKind::End], vec![]);
    let r = wasminspect_vm::executor::run_to_end(&mut executor, &mut store, &NopInterceptor::new(), &Fixed, 2);
    assert!(r.is_ok());
    assert!(executor.stack.is_over_top_level());

    let (mut store, mut executor) =
        machine(no_args(vec![]), vec![], vec![InstructionKind::Unreachable], vec![]);
    let r = wasminspect_vm::executor::run_to_end(&mut executor, &mut store, &NopInterceptor::new(), &Fixed, 2);
    assert!(matches!(r, Err(WasmError::ExecutionError(Trap::Unreachable))));
}

#[test]
fn constant_expressions_in_binary_form() {
    let mut store: Store<NoHost> = Store::new();
    let m = store.next_module_index().unwrap();
    store.globals.push(
        m,
        GlobalInstance::new(Value::I64(77), GlobalType { content_type: ValueType::I64, mutable: false }),
    );
    let eval = |bytes: &[u8]| wasminspect_vm::init_expr::eval_init_expr(bytes, &store, m);
    // i32.const 5, end
    assert_eq!(eval(&[0x41, 0x05, 0x0b]), Ok(Value::I32(5)));
    // i32.const -1
    assert_eq!(eval(&[0x41, 0x7f]), Ok(Value::I32(-1)));
    // i32.const 624485 in three bytes
    assert_eq!(eval(&[0x41, 0xe5, 0x8e, 0x26]), Ok(Value::I32(624485)));
    // i64.const -2
    assert_eq!(eval(&[0x42, 0x7e, 0x0b]), Ok(Value::I64(-2)));
    // the constants 1.0 of both widths
    assert_eq!(eval(&[0x43, 0x00, 0x00, 0x80, 0x3f]), Ok(Value::F32(1.0f32.to_bits())));
    assert_eq!(
        eval(&[0x44, 0, 0, 0, 0, 0, 0, 0xf0, 0x3f]),
        Ok(Value::F64(1.0f64.to_bits()))
    );
    // global.get 0 and global.get 3
    assert_eq!(eval(&[0x23, 0x00, 0x0b]), Ok(Value::I64(77)));
    assert_eq!(eval(&[0x23, 0x03]), Err(ConstExprError::UndefinedGlobal(3)));
    // nop is no constant; no bytes and a constant cut short are no expression
    assert_eq!(eval(&[0x01]), Err(ConstExprError::NotConstant));
    assert_eq!(eval(&[]), Err(ConstExprError::Malformed));
    assert_eq!(eval(&[0x41]), Err(ConstExprError::Malformed));
    assert_eq!(eval(&[0x43, 0x00]), Err(ConstExprError::Malformed));
    use_operator(&store, m);
}

fn use_operator(store: &Store<NoHost>, m: ModuleIndex) {
    let eval = |op| wasminspect_vm::init_expr::eval_operator(op, store, m);
    assert_eq!(eval(Some(wasminspect_vm::init_expr::ConstOperator::I32Const(9))), Ok(Value::I32(9)));
    assert_eq!(eval(Some(wasminspect_vm::init_expr::ConstOperator::GlobalGet(0))), Ok(Value::I64(77)));
    assert_eq!(eval(Some(wasminspect_vm::init_expr::ConstOperator::Other)), Err(ConstExprError::NotConstant));
    assert_eq!(eval(None), Err(ConstExprError::Malformed));
}

/// Runs the instructions `kinds` until one traps, and returns the trap, the
/// index that the program counter stands on and the number of entries on the
/// stack.
fn trapped(kinds: Vec<InstructionKind>) -> (Trap, u32, usize) {
    let (mut store, mut executor) = machine(no_args(vec![]), vec![], kinds, vec![]);
    loop {
        match executor.execute_step(&mut store, &NopInterceptor::new(), &Fixed) {
            Ok(Signal::End) => panic!("the function ended"),
            Ok(_) => {}
            Err(trap) => return (trap, executor.pc.inst_index().0, executor.stack.len()),
        }
    }
}

#[test]
fn a_trap_leaves_the_stack_as_the_instruction_had_it() {
    // the root frame and its label are two entries
    let (trap, pc, len) = trapped(vec![i32c(5), InstructionKind::Unreachable]);
    assert!(matches!(trap, Trap::Unreachable));
    assert_eq!((pc, len), (2, 3));

    // both operands of a division are gone
    let (trap, pc, len) = trapped(vec![
        i32c(9),
        i32c(1),
        i32c(0),
        InstructionKind::IntBinary { width: IntWidth::W32, op: IntBinOp::DivS },
    ]);
    assert!(matches!(trap, Trap::Value(value::Error::IntegerDivByZero)));
    assert_eq!((pc, len), (4, 3));

    // an operand of another type is taken off before the trap, the one under it stays
    let (trap, pc, len) = trapped(vec![
        i32c(1),
        i64c(2),
        InstructionKind::IntBinary { width: IntWidth::W32, op: IntBinOp::Add },
    ]);
    assert!(matches!(trap, Trap::UnexpectedStackValueType(ValueType::I32, ValueType::I64)));
    assert_eq!((pc, len), (3, 3));

    // an operand that is missing: nothing is taken off
    let (trap, pc, len) = trapped(vec![InstructionKind::Drop]);
    assert!(matches!(trap, Trap::Stack(stack::Error::TypeMismatch { .. })));
    assert_eq!((pc, len), (1, 2));

    // a load past the memory has taken the base
    let (trap, pc, len) = trapped(vec![
        i32c(7),
        i32c(65533),
        InstructionKind::Load { kind: LoadKind::I32, memarg: memarg(0) },
    ]);
    assert!(matches!(trap, Trap::Memory(memory::Error::OutOfBounds(Some(65537), 65536))));
    assert_eq!((pc, len), (3, 3));

    // a store past the memory has taken the value and the base
    let (trap, pc, len) = trapped(vec![
        i32c(65535),
        i32c(1),
        InstructionKind::Store { kind: StoreKind::I32, memarg: memarg(0) },
    ]);
    assert!(matches!(trap, Trap::Memory(memory::Error::OutOfBounds(Some(65539), 65536))));
    assert_eq!((pc, len), (3, 2));

    // a branch that finds no end has unwound its label; the program counter stays
    let (trap, pc, len) = trapped(vec![
        InstructionKind::Block { ty: BlockType::Empty },
        i32c(1),
        InstructionKind::Br { relative_depth: 0 },
    ]);
    assert!(matches!(trap, Trap::NoMoreInstruction));
    assert_eq!((pc, len), (3, 2));

    // a branch to a label that is not there changes nothing
    let (trap, pc, len) = trapped(vec![i32c(1), InstructionKind::Br { relative_depth: 4 }]);
    assert!(matches!(trap, Trap::Stack(stack::Error::UndefinedLabel(4))));
    assert_eq!((pc, len), (2, 3));

    // a call of a function that is not there changes nothing
    let (trap, pc, len) = trapped(vec![i32c(1), InstructionKind::Call { function_index: 8 }]);
    assert!(matches!(trap, Trap::UndefinedFunc(8)));
    assert_eq!((pc, len), (2, 3));
}

#[test]
fn an_invocation_leaves_its_results_and_nothing_else() {
    // three values are put on the stack; the function returns one
    let (mut store, mut executor) = machine(
        no_args(vec![ValueType::I32]),
        vec![],
        vec![
            i32c(1),
            InstructionKind::Block { ty: BlockType::Empty },
            i32c(2),
            i32c(3),
            InstructionKind::Return,
        ],
        vec![],
    );
    let nop = NopInterceptor::new();
    let mut last = Signal::Next;
    while last != Signal::End {
        last = executor.execute_step(&mut store, &nop, &Fixed).unwrap();
    }
    assert_eq!(executor.stack.len(), 1);
    assert_eq!(executor.pop_result(vec![ValueType::I32]).unwrap(), vec![Value::I32(3)]);
    assert_eq!(executor.stack.len(), 0);

    // a value of another type than declared is the one way to fail
    let (mut store, mut executor) = machine(
        no_args(vec![ValueType::I32]),
        vec![],
        vec![i64c(7), InstructionKind::End],
        vec![],
    );
    let mut last = Signal::Next;
    while last != Signal::End {
        last = executor.execute_step(&mut store, &nop, &Fixed).unwrap();
    }
    assert_eq!(executor.stack.len(), 1);
    assert!(matches!(
        executor.pop_result(vec![ValueType::I32]),
        Err(ReturnValError::TypeMismatchReturnValue(Value::I64(7), ValueType::I32))
    ));
}
