use wasminspect_vm::address::{FuncAddr, ModuleIndex};
use wasminspect_vm::executor::{invoke_func, simple_invoke_func, Trap, WasmError};
use wasminspect_vm::float::FloatUnit;
use wasminspect_vm::global::{GlobalInstance, GlobalType};
use wasminspect_vm::func::{DefinedFunctionInstance, FuncType, FunctionInstance, HostFunctionInstance};
use wasminspect_vm::host::{HostError, HostFuncBody};
use wasminspect_vm::inst::{
    BlockType, BrTable, FloatBinOp, FloatUnOp, FloatWidth, Instruction, InstructionKind, IntBinOp,
    IntRelOp, IntWidth, LoadKind, MemoryImmediate, StoreKind,
};
use wasminspect_vm::memory;
use wasminspect_vm::memory::MemoryInstance;
use wasminspect_vm::module::{DefinedModuleInstance, ModuleInstance};
use wasminspect_vm::store::Store;
use wasminspect_vm::table::DefinedTableInstance;
use wasminspect_vm::value::{Value, ValueType, F32, F64};

struct NativeFloat;

impl FloatUnit for NativeFloat {
    fn f32_unary(&self, op: FloatUnOp, a: F32) -> F32 {
        let x = f32::from_bits(a.0);
        let r = match op {
            FloatUnOp::Abs => x.abs(),
            FloatUnOp::Neg => -x,
            FloatUnOp::Ceil => x.ceil(),
            FloatUnOp::Floor => x.floor(),
            FloatUnOp::Trunc => x.trunc(),
            FloatUnOp::Nearest => x.round(),
            FloatUnOp::Sqrt => x.sqrt(),
        };
        F32(r.to_bits())
    }

    fn f32_binary(&self, op: FloatBinOp, a: F32, b: F32) -> F32 {
        let (x, y) = (f32::from_bits(a.0), f32::from_bits(b.0));
        let r = match op {
            FloatBinOp::Add => x + y,
            FloatBinOp::Sub => x - y,
            FloatBinOp::Mul => x * y,
            FloatBinOp::Div => x / y,
            FloatBinOp::Min => x.min(y),
            FloatBinOp::Max => x.max(y),
            FloatBinOp::Copysign => x.copysign(y),
        };
        F32(r.to_bits())
    }

    fn f64_unary(&self, op: FloatUnOp, a: F64) -> F64 {
        let x = f64::from_bits(a.0);
        let r = match op {
            FloatUnOp::Abs => x.abs(),
            FloatUnOp::Neg => -x,
            FloatUnOp::Ceil => x.ceil(),
            FloatUnOp::Floor => x.floor(),
            FloatUnOp::Trunc => x.trunc(),
            FloatUnOp::Nearest => x.round(),
            FloatUnOp::Sqrt => x.sqrt(),
        };
        F64(r.to_bits())
    }

    fn f64_binary(&self, op: FloatBinOp, a: F64, b: F64) -> F64 {
        let (x, y) = (f64::from_bits(a.0), f64::from_bits(b.0));
        let r = match op {
            FloatBinOp::Add => x + y,
            FloatBinOp::Sub => x - y,
            FloatBinOp::Mul => x * y,
            FloatBinOp::Div => x / y,
            FloatBinOp::Min => x.min(y),
            FloatBinOp::Max => x.max(y),
            FloatBinOp::Copysign => x.copysign(y),
        };
        F64(r.to_bits())
    }

    fn f32_convert_i32(&self, v: i32) -> F32 {
        F32((v as f32).to_bits())
    }

    fn f32_convert_u32(&self, v: u32) -> F32 {
        F32((v as f32).to_bits())
    }

    fn f32_convert_i64(&self, v: i64) -> F32 {
        F32((v as f32).to_bits())
    }

    fn f32_convert_u64(&self, v: u64) -> F32 {
        F32((v as f32).to_bits())
    }

    fn f64_convert_i32(&self, v: i32) -> F64 {
        F64((v as f64).to_bits())
    }

    fn f64_convert_u32(&self, v: u32) -> F64 {
        F64((v as f64).to_bits())
    }

    fn f64_convert_i64(&self, v: i64) -> F64 {
        F64((v as f64).to_bits())
    }

    fn f64_convert_u64(&self, v: u64) -> F64 {
        F64((v as f64).to_bits())
    }

    fn f32_demote(&self, v: F64) -> F32 {
        F32((f64::from_bits(v.0) as f32).to_bits())
    }

    fn f64_promote(&self, v: F32) -> F64 {
        F64((f32::from_bits(v.0) as f64).to_bits())
    }
}

/// Host functions of the tests: one that doubles its argument, one that
/// fails, one that leaves too many results, one that writes to memory.
#[derive(Clone)]
enum TestHost {
    Double,
    Fail,
    TooMany,
    Poke,
}

impl HostFuncBody for TestHost {
    fn call(
        &self,
        args: &[Value],
        results: &mut Vec<Value>,
        store: &mut Store<Self>,
        _module_index: ModuleIndex,
    ) -> Result<(), HostError> {
        match self {
            TestHost::Double => match args[0] {
                Value::I32(x) => {
                    results.push(Value::I32(x.wrapping_mul(2)));
                    Ok(())
                }
                _ => Err(HostError),
            },
            TestHost::Fail => Err(HostError),
            TestHost::TooMany => {
                results.push(Value::I32(1));
                results.push(Value::I32(2));
                Ok(())
            }
            TestHost::Poke => {
                store.mems.items[0].store(8, &[7u8]).map_err(|_| HostError)?;
                Ok(())
            }
        }
    }
}

fn inst(kind: InstructionKind) -> Instruction {
    Instruction { kind, offset: 0 }
}

fn body(kinds: Vec<InstructionKind>) -> Vec<Instruction> {
    kinds.into_iter().map(inst).collect()
}

fn func_type(params: Vec<ValueType>, returns: Vec<ValueType>) -> FuncType {
    FuncType { params, returns }
}

fn memarg(offset: u32) -> MemoryImmediate {
    MemoryImmediate { flags: 0, offset }
}

/// Adds a defined function to module `m` of the store and returns its address.
fn define(
    store: &mut Store<TestHost>,
    m: ModuleIndex,
    name: &str,
    ty: FuncType,
    locals: Vec<ValueType>,
    kinds: Vec<InstructionKind>,
) -> FuncAddr {
    let f = DefinedFunctionInstance::new(name.to_string(), ty, m, locals, body(kinds));
    let index = store.funcs.push(m, FunctionInstance::Defined(f)).unwrap();
    FuncAddr(m, index)
}

/// Ends the definition of module `m` with the types `types`.
fn finish_module(store: &mut Store<TestHost>, m: ModuleIndex, types: Vec<FuncType>) {
    let added = store.add_module(None, ModuleInstance::Defined(DefinedModuleInstance::new(types)));
    assert_eq!(added, Some(m));
}

fn i32_add() -> InstructionKind {
    InstructionKind::IntBinary { width: IntWidth::W32, op: IntBinOp::Add }
}

fn i32_sub() -> InstructionKind {
    InstructionKind::IntBinary { width: IntWidth::W32, op: IntBinOp::Sub }
}

fn i32_mul() -> InstructionKind {
    InstructionKind::IntBinary { width: IntWidth::W32, op: IntBinOp::Mul }
}

fn local_get(i: u32) -> InstructionKind {
    InstructionKind::LocalGet { local_index: i }
}

fn i32_const(value: i32) -> InstructionKind {
    InstructionKind::I32Const { value }
}

#[test]
fn add_two_numbers() {
    let mut store: Store<TestHost> = Store::new();
    let m = store.next_module_index().unwrap();
    let ty = func_type(vec![ValueType::I32, ValueType::I32], vec![ValueType::I32]);
    let add = define(
        &mut store,
        m,
        "add",
        ty.clone(),
        vec![],
        vec![local_get(0), local_get(1), i32_add(), InstructionKind::End],
    );
    finish_module(&mut store, m, vec![ty]);
    let r = simple_invoke_func(add, vec![Value::I32(2), Value::I32(3)], &mut store, &NativeFloat);
    assert_eq!(r.unwrap(), vec![Value::I32(5)]);
}

fn factorial_store() -> (Store<TestHost>, FuncAddr) {
    let mut store: Store<TestHost> = Store::new();
    let m = store.next_module_index().unwrap();
    let ty = func_type(vec![ValueType::I32], vec![ValueType::I32]);
    let fact = define(
        &mut store,
        m,
        "fact",
        ty.clone(),
        vec![],
        vec![
            local_get(0),
            InstructionKind::IntTest { width: IntWidth::W32 },
            InstructionKind::If { ty: BlockType::Value(ValueType::I32) },
            i32_const(1),
            InstructionKind::Else,
            local_get(0),
            local_get(0),
            i32_const(1),
            i32_sub(),
            InstructionKind::Call { function_index: 0 },
            i32_mul(),
            InstructionKind::End,
            InstructionKind::End,
        ],
    );
    finish_module(&mut store, m, vec![ty]);
    (store, fact)
}

#[test]
fn factorial_via_recursion() {
    let (mut store, fact) = factorial_store();
    let r = simple_invoke_func(fact, vec![Value::I32(5)], &mut store, &NativeFloat);
    assert_eq!(r.unwrap(), vec![Value::I32(120)]);
    let r = simple_invoke_func(fact, vec![Value::I32(0)], &mut store, &NativeFloat);
    assert_eq!(r.unwrap(), vec![Value::I32(1)]);
    let r = simple_invoke_func(fact, vec![Value::I32(10)], &mut store, &NativeFloat);
    assert_eq!(r.unwrap(), vec![Value::I32(3628800)]);
}

#[test]
fn step_limit_stops_a_run() {
    let (mut store, fact) = factorial_store();
    let r = invoke_func(fact, vec![Value::I32(5)], &mut store, &NativeFloat, 10);
    assert!(matches!(r, Err(WasmError::StepLimitReached)));
    let r = invoke_func(fact, vec![Value::I32(5)], &mut store, &NativeFloat, 1000);
    assert_eq!(r.unwrap(), vec![Value::I32(120)]);
}

fn memory_store(max: Option<usize>) -> (Store<TestHost>, ModuleIndex) {
    let mut store: Store<TestHost> = Store::new();
    let m = store.next_module_index().unwrap();
    store.mems.push(m, MemoryInstance::new(1, max)).unwrap();
    (store, m)
}

#[test]
fn memory_store_then_load() {
    let (mut store, m) = memory_store(None);
    let ty = func_type(vec![ValueType::I32], vec![ValueType::I32]);
    let f = define(
        &mut store,
        m,
        "poke",
        ty.clone(),
        vec![],
        vec![
            local_get(0),
            i32_const(0xDEADBEEF_u32 as i32),
            InstructionKind::Store { kind: StoreKind::I32, memarg: memarg(0) },
            local_get(0),
            InstructionKind::Load { kind: LoadKind::I32, memarg: memarg(0) },
            InstructionKind::End,
        ],
    );
    finish_module(&mut store, m, vec![ty]);
    let r = simple_invoke_func(f, vec![Value::I32(0)], &mut store, &NativeFloat);
    assert_eq!(r.unwrap(), vec![Value::I32(0xDEADBEEF_u32 as i32)]);
    assert_eq!(store.mems.items[0].load(0, 4).unwrap(), vec![0xEF, 0xBE, 0xAD, 0xDE]);

    let before = store.mems.items[0].load(65532, 4).unwrap();
    let r = simple_invoke_func(f, vec![Value::I32(65533)], &mut store, &NativeFloat);
    match r {
        Err(WasmError::ExecutionError(Trap::Memory(memory::Error::OutOfBounds(end, len)))) => {
            assert_eq!(end, Some(65537));
            assert_eq!(len, 65536);
        }
        other => panic!("unexpected {:?}", other),
    }
    assert_eq!(store.mems.items[0].load(65532, 4).unwrap(), before);

    // the last address at which four bytes fit
    let r = simple_invoke_func(f, vec![Value::I32(65532)], &mut store, &NativeFloat);
    assert_eq!(r.unwrap(), vec![Value::I32(0xDEADBEEF_u32 as i32)]);
    // a base that is negative as a signed number is a large unsigned one
    let r = simple_invoke_func(f, vec![Value::I32(-1)], &mut store, &NativeFloat);
    assert!(matches!(r, Err(WasmError::ExecutionError(Trap::Memory(_)))));
}

#[test]
fn memory_offset_is_added_without_wrapping() {
    let (mut store, m) = memory_store(None);
    let ty = func_type(vec![ValueType::I32], vec![ValueType::I32]);
    let f = define(
        &mut store,
        m,
        "peek",
        ty.clone(),
        vec![],
        vec![
            local_get(0),
            InstructionKind::Load { kind: LoadKind::I32, memarg: memarg(1) },
            InstructionKind::End,
        ],
    );
    finish_module(&mut store, m, vec![ty]);
    let r = simple_invoke_func(f, vec![Value::I32(-1)], &mut store, &NativeFloat);
    assert!(matches!(
        r,
        Err(WasmError::ExecutionError(Trap::Memory(memory::Error::OutOfBounds(_, 65536))))
    ));
}

#[test]
fn indirect_call_checks_the_type() {
    let mut store: Store<TestHost> = Store::new();
    let m = store.next_module_index().unwrap();
    let ty_a = func_type(vec![], vec![ValueType::I32]);
    let ty_b = func_type(vec![ValueType::I32], vec![ValueType::I32]);
    let a = define(&mut store, m, "a", ty_a.clone(), vec![], vec![i32_const(11), InstructionKind::End]);
    let b = define(&mut store, m, "b", ty_b.clone(), vec![], vec![local_get(0), InstructionKind::End]);
    let mut table = DefinedTableInstance::new(2, None);
    table.initialize(0, vec![a, b]).unwrap();
    store.tables.push(m, table).unwrap();
    // calls slot 0 with the declared type 0, which is the type of `a`
    let right = define(
        &mut store,
        m,
        "right",
        ty_a.clone(),
        vec![],
        vec![
            i32_const(0),
            InstructionKind::CallIndirect { index: 0, table_index: 0 },
            InstructionKind::End,
        ],
    );
    // calls slot 0 with the declared type 1, which is the type of `b`
    let wrong = define(
        &mut store,
        m,
        "wrong",
        ty_a.clone(),
        vec![],
        vec![
            i32_const(5),
            i32_const(0),
            InstructionKind::CallIndirect { index: 1, table_index: 0 },
            InstructionKind::End,
        ],
    );
    finish_module(&mut store, m, vec![ty_a, ty_b]);
    let r = simple_invoke_func(right, vec![], &mut store, &NativeFloat);
    assert_eq!(r.unwrap(), vec![Value::I32(11)]);
    let r = simple_invoke_func(wrong, vec![], &mut store, &NativeFloat);
    match r {
        Err(WasmError::ExecutionError(Trap::IndirectCallTypeMismatch(name, expected, actual))) => {
            assert_eq!(name, "a");
            assert_eq!(expected.params, vec![ValueType::I32]);
            assert_eq!(actual.params, vec![]);
            assert_eq!(actual.returns, vec![ValueType::I32]);
        }
        other => panic!("unexpected {:?}", other),
    }
}

#[test]
fn indirect_call_of_an_empty_or_missing_slot_traps() {
    let mut store: Store<TestHost> = Store::new();
    let m = store.next_module_index().unwrap();
    let ty = func_type(vec![ValueType::I32], vec![]);
    store.tables.push(m, DefinedTableInstance::new(2, None)).unwrap();
    let f = define(
        &mut store,
        m,
        "f",
        ty.clone(),
        vec![],
        vec![
            local_get(0),
            InstructionKind::CallIndirect { index: 0, table_index: 0 },
            InstructionKind::End,
        ],
    );
    finish_module(&mut store, m, vec![ty]);
    let r = simple_invoke_func(f, vec![Value::I32(1)], &mut store, &NativeFloat);
    assert!(matches!(
        r,
        Err(WasmError::ExecutionError(Trap::Table(
            wasminspect_vm::table::Error::UninitializedElement(1)
        )))
    ));
    let r = simple_invoke_func(f, vec![Value::I32(2)], &mut store, &NativeFloat);
    assert!(matches!(
        r,
        Err(WasmError::ExecutionError(Trap::Table(
            wasminspect_vm::table::Error::AccessOutOfBounds(Some(2), 2)
        )))
    ));
}

#[test]
fn branch_out_of_nested_blocks() {
    let mut store: Store<TestHost> = Store::new();
    let m = store.next_module_index().unwrap();
    let ty = func_type(vec![], vec![ValueType::I32]);
    let f = define(
        &mut store,
        m,
        "nested",
        ty.clone(),
        vec![],
        vec![
            InstructionKind::Block { ty: BlockType::Value(ValueType::I32) },
            InstructionKind::Block { ty: BlockType::Empty },
            InstructionKind::Block { ty: BlockType::Empty },
            i32_const(7),
            i32_const(42),
            InstructionKind::Br { relative_depth: 2 },
            InstructionKind::End,
            InstructionKind::End,
            InstructionKind::End,
            InstructionKind::End,
        ],
    );
    finish_module(&mut store, m, vec![ty]);
    let r = simple_invoke_func(f, vec![], &mut store, &NativeFloat);
    assert_eq!(r.unwrap(), vec![Value::I32(42)]);
}

#[test]
fn memory_grow_up_to_the_maximum() {
    let (mut store, m) = memory_store(Some(2));
    let ty = func_type(vec![], vec![ValueType::I32]);
    let grow = define(
        &mut store,
        m,
        "grow",
        ty.clone(),
        vec![],
        vec![i32_const(1), InstructionKind::MemoryGrow { reserved: 0 }, InstructionKind::End],
    );
    let size = define(
        &mut store,
        m,
        "size",
        ty.clone(),
        vec![],
        vec![InstructionKind::MemorySize { reserved: 0 }, InstructionKind::End],
    );
    finish_module(&mut store, m, vec![ty]);
    let r = simple_invoke_func(grow, vec![], &mut store, &NativeFloat);
    assert_eq!(r.unwrap(), vec![Value::I32(1)]);
    assert_eq!(store.mems.items[0].page_count(), 2);
    let r = simple_invoke_func(grow, vec![], &mut store, &NativeFloat);
    assert_eq!(r.unwrap(), vec![Value::I32(-1)]);
    assert_eq!(store.mems.items[0].page_count(), 2);
    assert_eq!(store.mems.items[0].data_len(), 2 * 65536);
    let r = simple_invoke_func(size, vec![], &mut store, &NativeFloat);
    assert_eq!(r.unwrap(), vec![Value::I32(2)]);
}

fn br_table_func(store: &mut Store<TestHost>, m: ModuleIndex, ty: FuncType) -> FuncAddr {
    // each block leaves by pushing the depth that was branched to
    define(
        store,
        m,
        "switch",
        ty,
        vec![],
        vec![
            InstructionKind::Block { ty: BlockType::Empty },
            InstructionKind::Block { ty: BlockType::Empty },
            InstructionKind::Block { ty: BlockType::Empty },
            InstructionKind::Block { ty: BlockType::Empty },
            local_get(0),
            InstructionKind::BrTable { table: BrTable { table: vec![1, 2, 3], default: 0 } },
            InstructionKind::End,
            i32_const(0),
            InstructionKind::Return,
            InstructionKind::End,
            i32_const(1),
            InstructionKind::Return,
            InstructionKind::End,
            i32_const(2),
            InstructionKind::Return,
            InstructionKind::End,
            i32_const(3),
            InstructionKind::End,
        ],
    )
}

#[test]
fn br_table_selects_the_depth() {
    let mut store: Store<TestHost> = Store::new();
    let m = store.next_module_index().unwrap();
    let ty = func_type(vec![ValueType::I32], vec![ValueType::I32]);
    let f = br_table_func(&mut store, m, ty.clone());
    finish_module(&mut store, m, vec![ty]);
    for (index, depth) in [(0, 1), (1, 2), (2, 3), (3, 0), (4, 0), (100, 0), (-1, 0)] {
        let r = simple_invoke_func(f, vec![Value::I32(index)], &mut store, &NativeFloat);
        assert_eq!(r.unwrap(), vec![Value::I32(depth)], "index {}", index);
    }
}

#[test]
fn loop_sums_the_numbers_up_to_n() {
    let mut store: Store<TestHost> = Store::new();
    let m = store.next_module_index().unwrap();
    let ty = func_type(vec![ValueType::I32], vec![ValueType::I32]);
    // local 1 is the sum; counts local 0 down to zero
    let f = define(
        &mut store,
        m,
        "sum",
        ty.clone(),
        vec![ValueType::I32],
        vec![
            InstructionKind::Block { ty: BlockType::Empty },
            InstructionKind::Loop { ty: BlockType::Empty },
            local_get(0),
            InstructionKind::IntTest { width: IntWidth::W32 },
            InstructionKind::BrIf { relative_depth: 1 },
            local_get(1),
            local_get(0),
            i32_add(),
            InstructionKind::LocalSet { local_index: 1 },
            local_get(0),
            i32_const(1),
            i32_sub(),
            InstructionKind::LocalSet { local_index: 0 },
            InstructionKind::Br { relative_depth: 0 },
            InstructionKind::End,
            InstructionKind::End,
            local_get(1),
            InstructionKind::End,
        ],
    );
    finish_module(&mut store, m, vec![ty]);
    let r = simple_invoke_func(f, vec![Value::I32(100)], &mut store, &NativeFloat);
    assert_eq!(r.unwrap(), vec![Value::I32(5050)]);
    let r = simple_invoke_func(f, vec![Value::I32(0)], &mut store, &NativeFloat);
    assert_eq!(r.unwrap(), vec![Value::I32(0)]);
}

#[test]
fn if_without_else_skips_to_the_end() {
    let mut store: Store<TestHost> = Store::new();
    let m = store.next_module_index().unwrap();
    let ty = func_type(vec![ValueType::I32], vec![ValueType::I32]);
    let f = define(
        &mut store,
        m,
        "clamp",
        ty.clone(),
        vec![ValueType::I32],
        vec![
            local_get(0),
            InstructionKind::If { ty: BlockType::Empty },
            InstructionKind::Block { ty: BlockType::Empty },
            i32_const(9),
            InstructionKind::LocalSet { local_index: 1 },
            InstructionKind::End,
            InstructionKind::End,
            local_get(1),
            InstructionKind::End,
        ],
    );
    finish_module(&mut store, m, vec![ty]);
    let r = simple_invoke_func(f, vec![Value::I32(1)], &mut store, &NativeFloat);
    assert_eq!(r.unwrap(), vec![Value::I32(9)]);
    let r = simple_invoke_func(f, vec![Value::I32(0)], &mut store, &NativeFloat);
    assert_eq!(r.unwrap(), vec![Value::I32(0)]);
}

#[test]
fn division_traps() {
    let mut store: Store<TestHost> = Store::new();
    let m = store.next_module_index().unwrap();
    let ty = func_type(vec![ValueType::I32, ValueType::I32], vec![ValueType::I32]);
    let div = define(
        &mut store,
        m,
        "div",
        ty.clone(),
        vec![],
        vec![
            local_get(0),
            local_get(1),
            InstructionKind::IntBinary { width: IntWidth::W32, op: IntBinOp::DivS },
            InstructionKind::End,
        ],
    );
    finish_module(&mut store, m, vec![ty]);
    let r = simple_invoke_func(div, vec![Value::I32(i32::MIN), Value::I32(-1)], &mut store, &NativeFloat);
    assert!(matches!(
        r,
        Err(WasmError::ExecutionError(Trap::Value(wasminspect_vm::value::Error::IntegerOverflow)))
    ));
    let r = simple_invoke_func(div, vec![Value::I32(1), Value::I32(0)], &mut store, &NativeFloat);
    assert!(matches!(
        r,
        Err(WasmError::ExecutionError(Trap::Value(wasminspect_vm::value::Error::IntegerDivByZero)))
    ));
    let r = simple_invoke_func(div, vec![Value::I32(-7), Value::I32(2)], &mut store, &NativeFloat);
    assert_eq!(r.unwrap(), vec![Value::I32(-3)]);
}

#[test]
fn unreachable_traps() {
    let mut store: Store<TestHost> = Store::new();
    let m = store.next_module_index().unwrap();
    let ty = func_type(vec![], vec![]);
    let f = define(
        &mut store,
        m,
        "f",
        ty.clone(),
        vec![],
        vec![InstructionKind::Unreachable, InstructionKind::End],
    );
    let g = define(&mut store, m, "g", ty.clone(), vec![], vec![InstructionKind::Unsupported]);
    let h = define(&mut store, m, "h", ty.clone(), vec![], vec![InstructionKind::Nop]);
    finish_module(&mut store, m, vec![ty]);
    let r = simple_invoke_func(f, vec![], &mut store, &NativeFloat);
    assert!(matches!(r, Err(WasmError::ExecutionError(Trap::Unreachable))));
    let r = simple_invoke_func(g, vec![], &mut store, &NativeFloat);
    assert!(matches!(r, Err(WasmError::ExecutionError(Trap::Unimplemented))));
    let r = simple_invoke_func(h, vec![], &mut store, &NativeFloat);
    assert!(matches!(r, Err(WasmError::ExecutionError(Trap::NoMoreInstruction))));
}

#[test]
fn undefined_function_is_reported() {
    let mut store: Store<TestHost> = Store::new();
    let m = store.next_module_index().unwrap();
    let r = simple_invoke_func(FuncAddr(m, 3), vec![], &mut store, &NativeFloat);
    assert!(matches!(r, Err(WasmError::ExecutionError(Trap::UndefinedFunc(3)))));
}

#[test]
fn call_with_too_few_arguments_traps() {
    let mut store: Store<TestHost> = Store::new();
    let m = store.next_module_index().unwrap();
    let ty_two = func_type(vec![ValueType::I32, ValueType::I32], vec![ValueType::I32]);
    let ty_none = func_type(vec![], vec![ValueType::I32]);
    define(
        &mut store,
        m,
        "add",
        ty_two.clone(),
        vec![],
        vec![local_get(0), local_get(1), i32_add(), InstructionKind::End],
    );
    let caller = define(
        &mut store,
        m,
        "caller",
        ty_none.clone(),
        vec![],
        vec![
            InstructionKind::I64Const { value: 4 },
            InstructionKind::Call { function_index: 0 },
            InstructionKind::End,
        ],
    );
    finish_module(&mut store, m, vec![ty_two, ty_none]);
    let r = simple_invoke_func(caller, vec![], &mut store, &NativeFloat);
    match r {
        Err(WasmError::ExecutionError(Trap::DirectCallTypeMismatch { func_name, expected, actual })) => {
            assert_eq!(func_name, "add");
            assert_eq!(expected, vec![ValueType::I32, ValueType::I32]);
            assert_eq!(actual, vec![ValueType::I64]);
        }
        other => panic!("unexpected {:?}", other),
    }
}

fn host_store(code: TestHost, ty: FuncType) -> (Store<TestHost>, ModuleIndex, FuncAddr) {
    let mut store: Store<TestHost> = Store::new();
    let host_module = store.next_module_index().unwrap();
    let host = HostFunctionInstance {
        ty,
        module_name: "env".to_string(),
        field_name: "host".to_string(),
        code,
    };
    let slot = store.funcs.push_global(FunctionInstance::Host(host));
    let host_index = store.funcs.link(slot, host_module).unwrap();
    store.add_module(
        Some("env".to_string()),
        ModuleInstance::Host(wasminspect_vm::module::HostModuleInstance { exports: vec![] }),
    );
    let m = store.next_module_index().unwrap();
    // the host function is function 0 of the defined module: an import
    let imported = store.funcs.link(slot, m).unwrap();
    assert_eq!(imported, 0);
    (store, m, FuncAddr(host_module, host_index))
}

#[test]
fn host_function_is_called_with_the_arguments() {
    let ty = func_type(vec![ValueType::I32], vec![ValueType::I32]);
    let (mut store, m, host) = host_store(TestHost::Double, ty.clone());
    let f = define(
        &mut store,
        m,
        "f",
        ty.clone(),
        vec![],
        vec![
            local_get(0),
            InstructionKind::Call { function_index: 0 },
            i32_const(1),
            i32_add(),
            InstructionKind::End,
        ],
    );
    finish_module(&mut store, m, vec![ty]);
    let r = simple_invoke_func(f, vec![Value::I32(20)], &mut store, &NativeFloat);
    assert_eq!(r.unwrap(), vec![Value::I32(41)]);
    let r = simple_invoke_func(host, vec![Value::I32(4)], &mut store, &NativeFloat);
    assert_eq!(r.unwrap(), vec![Value::I32(8)]);
}

#[test]
fn host_failure_is_a_trap_in_a_step_and_an_error_of_the_driver() {
    let ty = func_type(vec![], vec![]);
    let (mut store, m, host) = host_store(TestHost::Fail, ty.clone());
    let f = define(
        &mut store,
        m,
        "f",
        ty.clone(),
        vec![],
        vec![InstructionKind::Call { function_index: 0 }, InstructionKind::End],
    );
    finish_module(&mut store, m, vec![ty]);
    let r = simple_invoke_func(f, vec![], &mut store, &NativeFloat);
    assert!(matches!(r, Err(WasmError::ExecutionError(Trap::HostExecution(_)))));
    let r = simple_invoke_func(host, vec![], &mut store, &NativeFloat);
    assert!(matches!(r, Err(WasmError::HostExecutionError)));
}

#[test]
fn host_results_are_counted() {
    let ty = func_type(vec![], vec![ValueType::I32]);
    let (mut store, m, _) = host_store(TestHost::TooMany, ty.clone());
    let f = define(
        &mut store,
        m,
        "f",
        ty.clone(),
        vec![],
        vec![InstructionKind::Call { function_index: 0 }, InstructionKind::End],
    );
    finish_module(&mut store, m, vec![ty]);
    let r = simple_invoke_func(f, vec![], &mut store, &NativeFloat);
    assert!(matches!(
        r,
        Err(WasmError::ExecutionError(Trap::HostResultCount { expected: 1, actual: 2 }))
    ));
}

#[test]
fn host_function_may_write_to_memory() {
    let ty = func_type(vec![], vec![]);
    let ty_load = func_type(vec![], vec![ValueType::I32]);
    let (mut store, m, _) = host_store(TestHost::Poke, ty.clone());
    store.mems.push(m, MemoryInstance::new(1, None)).unwrap();
    let f = define(
        &mut store,
        m,
        "f",
        ty_load.clone(),
        vec![],
        vec![
            InstructionKind::Call { function_index: 0 },
            i32_const(8),
            InstructionKind::Load { kind: LoadKind::I32Load8U, memarg: memarg(0) },
            InstructionKind::End,
        ],
    );
    finish_module(&mut store, m, vec![ty, ty_load]);
    let r = simple_invoke_func(f, vec![], &mut store, &NativeFloat);
    assert_eq!(r.unwrap(), vec![Value::I32(7)]);
}

#[test]
fn float_arithmetic_goes_through_the_float_unit() {
    let mut store: Store<TestHost> = Store::new();
    let m = store.next_module_index().unwrap();
    let ty = func_type(vec![ValueType::F32, ValueType::F32], vec![ValueType::F32]);
    let f = define(
        &mut store,
        m,
        "hyp",
        ty.clone(),
        vec![],
        vec![
            local_get(0),
            local_get(0),
            InstructionKind::FloatBinary { width: FloatWidth::W32, op: FloatBinOp::Mul },
            local_get(1),
            local_get(1),
            InstructionKind::FloatBinary { width: FloatWidth::W32, op: FloatBinOp::Mul },
            InstructionKind::FloatBinary { width: FloatWidth::W32, op: FloatBinOp::Add },
            InstructionKind::FloatUnary { width: FloatWidth::W32, op: FloatUnOp::Sqrt },
            InstructionKind::End,
        ],
    );
    finish_module(&mut store, m, vec![ty]);
    let r = simple_invoke_func(
        f,
        vec![Value::F32(3.0f32.to_bits()), Value::F32(4.0f32.to_bits())],
        &mut store,
        &NativeFloat,
    );
    assert_eq!(r.unwrap(), vec![Value::F32(5.0f32.to_bits())]);
}

#[test]
fn result_of_another_type_is_a_return_value_error() {
    let mut store: Store<TestHost> = Store::new();
    let m = store.next_module_index().unwrap();
    let ty = func_type(vec![], vec![ValueType::I32]);
    let f = define(
        &mut store,
        m,
        "f",
        ty.clone(),
        vec![],
        vec![InstructionKind::I64Const { value: 1 }, InstructionKind::End],
    );
    finish_module(&mut store, m, vec![ty]);
    let r = simple_invoke_func(f, vec![], &mut store, &NativeFloat);
    assert!(matches!(
        r,
        Err(WasmError::ReturnValueError(
            wasminspect_vm::executor::ReturnValError::TypeMismatchReturnValue(
                Value::I64(1),
                ValueType::I32
            )
        ))
    ));
}

#[test]
fn globals_are_read_and_set() {
    let mut store: Store<TestHost> = Store::new();
    let m = store.next_module_index().unwrap();
    store
        .globals
        .push(
            m,
            GlobalInstance::new(
                Value::I32(10),
                GlobalType { content_type: ValueType::I32, mutable: true },
            ),
        )
        .unwrap();
    store
        .globals
        .push(
            m,
            GlobalInstance::new(
                Value::I32(1),
                GlobalType { content_type: ValueType::I32, mutable: false },
            ),
        )
        .unwrap();
    let ty = func_type(vec![], vec![ValueType::I32]);
    let bump = define(
        &mut store,
        m,
        "bump",
        ty.clone(),
        vec![],
        vec![
            InstructionKind::GlobalGet { global_index: 0 },
            InstructionKind::GlobalGet { global_index: 1 },
            i32_add(),
            InstructionKind::GlobalSet { global_index: 0 },
            InstructionKind::GlobalGet { global_index: 0 },
            InstructionKind::End,
        ],
    );
    let frozen = define(
        &mut store,
        m,
        "frozen",
        ty.clone(),
        vec![],
        vec![i32_const(5), InstructionKind::GlobalSet { global_index: 1 }, i32_const(0), InstructionKind::End],
    );
    let wrong = define(
        &mut store,
        m,
        "wrong",
        ty.clone(),
        vec![],
        vec![
            InstructionKind::I64Const { value: 5 },
            InstructionKind::GlobalSet { global_index: 0 },
            i32_const(0),
            InstructionKind::End,
        ],
    );
    let missing = define(
        &mut store,
        m,
        "missing",
        ty.clone(),
        vec![],
        vec![InstructionKind::GlobalGet { global_index: 7 }, InstructionKind::End],
    );
    finish_module(&mut store, m, vec![ty]);
    assert_eq!(simple_invoke_func(bump, vec![], &mut store, &NativeFloat).unwrap(), vec![Value::I32(11)]);
    assert_eq!(simple_invoke_func(bump, vec![], &mut store, &NativeFloat).unwrap(), vec![Value::I32(12)]);
    let r = simple_invoke_func(frozen, vec![], &mut store, &NativeFloat);
    assert!(matches!(
        r,
        Err(WasmError::ExecutionError(Trap::Global(wasminspect_vm::global::Error::Immutable)))
    ));
    let r = simple_invoke_func(wrong, vec![], &mut store, &NativeFloat);
    assert!(matches!(
        r,
        Err(WasmError::ExecutionError(Trap::Global(
            wasminspect_vm::global::Error::TypeMismatch { .. }
        )))
    ));
    let r = simple_invoke_func(missing, vec![], &mut store, &NativeFloat);
    assert!(matches!(r, Err(WasmError::ExecutionError(Trap::UndefinedGlobal(7)))));
    assert_eq!(store.globals.items[1].value(), Value::I32(1));
}

#[test]
fn comparison_yields_one_or_zero() {
    let mut store: Store<TestHost> = Store::new();
    let m = store.next_module_index().unwrap();
    let ty = func_type(vec![ValueType::I32, ValueType::I32], vec![ValueType::I32]);
    let lt_u = define(
        &mut store,
        m,
        "lt_u",
        ty.clone(),
        vec![],
        vec![
            local_get(0),
            local_get(1),
            InstructionKind::IntRel { width: IntWidth::W32, op: IntRelOp::LtU },
            InstructionKind::End,
        ],
    );
    finish_module(&mut store, m, vec![ty]);
    let r = simple_invoke_func(lt_u, vec![Value::I32(1), Value::I32(-1)], &mut store, &NativeFloat);
    assert_eq!(r.unwrap(), vec![Value::I32(1)]);
    let r = simple_invoke_func(lt_u, vec![Value::I32(-1), Value::I32(1)], &mut store, &NativeFloat);
    assert_eq!(r.unwrap(), vec![Value::I32(0)]);
}

#[test]
fn indirect_call_without_a_table_or_a_type_traps() {
    let mut store: Store<TestHost> = Store::new();
    let m = store.next_module_index().unwrap();
    let ty = func_type(vec![], vec![]);
    let no_type = define(
        &mut store,
        m,
        "no_type",
        ty.clone(),
        vec![],
        vec![
            i32_const(0),
            InstructionKind::CallIndirect { index: 4, table_index: 0 },
            InstructionKind::End,
        ],
    );
    let no_table = define(
        &mut store,
        m,
        "no_table",
        ty.clone(),
        vec![],
        vec![
            i32_const(0),
            InstructionKind::CallIndirect { index: 0, table_index: 0 },
            InstructionKind::End,
        ],
    );
    finish_module(&mut store, m, vec![ty]);
    let r = simple_invoke_func(no_type, vec![], &mut store, &NativeFloat);
    assert!(matches!(r, Err(WasmError::ExecutionError(Trap::UndefinedType(4)))));
    let r = simple_invoke_func(no_table, vec![], &mut store, &NativeFloat);
    assert!(matches!(r, Err(WasmError::ExecutionError(Trap::UndefinedTable(0)))));
}

#[test]
fn call_and_return_change_the_height_by_results_less_arguments() {
    let mut store: Store<TestHost> = Store::new();
    let m = store.next_module_index().unwrap();
    let ty_add = func_type(vec![ValueType::I32, ValueType::I32], vec![ValueType::I32]);
    let ty_main = func_type(vec![], vec![ValueType::I32]);
    define(
        &mut store,
        m,
        "add",
        ty_add.clone(),
        vec![ValueType::I32],
        vec![
            InstructionKind::Block { ty: BlockType::Value(ValueType::I32) },
            local_get(0),
            local_get(1),
            i32_add(),
            InstructionKind::End,
            InstructionKind::End,
        ],
    );
    let main = define(
        &mut store,
        m,
        "main",
        ty_main.clone(),
        vec![],
        vec![
            i32_const(100),
            i32_const(2),
            i32_const(3),
            InstructionKind::Call { function_index: 0 },
            i32_add(),
            InstructionKind::End,
        ],
    );
    finish_module(&mut store, m, vec![ty_add, ty_main]);
    let (func, exec_addr) = store.func(main).unwrap();
    let frame = wasminspect_vm::stack::CallFrame::new_from_func(
        exec_addr,
        func.defined().unwrap(),
        vec![],
        None,
    );
    let pc = wasminspect_vm::stack::ProgramCounter::new(
        m,
        exec_addr,
        wasminspect_vm::inst::InstIndex::zero(),
    );
    let mut executor = wasminspect_vm::executor::Executor::new(frame, 1, pc);
    let nop = wasminspect_vm::interceptor::NopInterceptor::new();
    for _ in 0..3 {
        executor.execute_step(&mut store, &nop, &NativeFloat).unwrap();
    }
    let before_call = executor.stack.len();
    assert_eq!(before_call, 5);
    // the call, then the six instructions of the callee
    executor.execute_step(&mut store, &nop, &NativeFloat).unwrap();
    assert_eq!(executor.stack.len(), before_call - 2 + 2);
    for _ in 0..6 {
        executor.execute_step(&mut store, &nop, &NativeFloat).unwrap();
    }
    assert_eq!(executor.stack.len(), before_call - 2 + 1);
    assert_eq!(executor.pc.exec_addr(), exec_addr);
    assert_eq!(executor.stack.pop_value(), Ok(Value::I32(5)));
    assert_eq!(executor.stack.pop_value(), Ok(Value::I32(100)));
}
