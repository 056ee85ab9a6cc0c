use wasminspect_vm::address::{FuncAddr, GlobalAddr, MemoryAddr, ModuleIndex, TableAddr};
use wasminspect_vm::decoded::{
    DataSegment, ElementSegment, Export, ExportDesc, FuncBody, GlobalEntry, Import, ImportDesc,
    Limits, Module,
};
use wasminspect_vm::executor::{simple_invoke_func, ConstExprError, Trap, WasmError};
use wasminspect_vm::float::FloatUnit;
use wasminspect_vm::func::{FuncType, FunctionInstance};
use wasminspect_vm::global::{GlobalInstance, GlobalType};
use wasminspect_vm::host::{HostError, HostFuncBody, HostValue};
use wasminspect_vm::inst::{
    FloatBinOp, FloatUnOp, Instruction, InstructionKind, IntBinOp, IntWidth, LoadKind,
    MemoryImmediate,
};
use wasminspect_vm::loader;
use wasminspect_vm::memory;
use wasminspect_vm::memory::MemoryInstance;
use wasminspect_vm::module::{
    DefinedModuleInstance, ExportInstance, ExternalValue, ModuleInstance,
};
use wasminspect_vm::store::Store;
use wasminspect_vm::table;
use wasminspect_vm::table::DefinedTableInstance;
use wasminspect_vm::value::{Value, ValueType, F32, F64};

struct NoFloats;

impl FloatUnit for NoFloats {
    fn f32_unary(&self, _op: FloatUnOp, a: F32) -> F32 {
        a
    }
    fn f32_binary(&self, _op: FloatBinOp, a: F32, _b: F32) -> F32 {
        a
    }
    fn f64_unary(&self, _op: FloatUnOp, a: F64) -> F64 {
        a
    }
    fn f64_binary(&self, _op: FloatBinOp, a: F64, _b: F64) -> F64 {
        a
    }
    fn f32_convert_i32(&self, _v: i32) -> F32 {
        F32(0)
    }
    fn f32_convert_u32(&self, _v: u32) -> F32 {
        F32(0)
    }
    fn f32_convert_i64(&self, _v: i64) -> F32 {
        F32(0)
    }
    fn f32_convert_u64(&self, _v: u64) -> F32 {
        F32(0)
    }
    fn f64_convert_i32(&self, _v: i32) -> F64 {
        F64(0)
    }
    fn f64_convert_u32(&self, _v: u32) -> F64 {
        F64(0)
    }
    fn f64_convert_i64(&self, _v: i64) -> F64 {
        F64(0)
    }
    fn f64_convert_u64(&self, _v: u64) -> F64 {
        F64(0)
    }
    fn f32_demote(&self, _v: F64) -> F32 {
        F32(0)
    }
    fn f64_promote(&self, _v: F32) -> F64 {
        F64(0)
    }
}

/// A host function that returns the sum of its two arguments.
#[derive(Clone)]
struct Sum;

impl HostFuncBody for Sum {
    fn call(
        &self,
        args: &[Value],
        results: &mut Vec<Value>,
        _store: &mut Store<Self>,
        _module_index: ModuleIndex,
    ) -> Result<(), HostError> {
        match (args[0], args[1]) {
            (Value::I32(a), Value::I32(b)) => {
                results.push(Value::I32(a.wrapping_add(b)));
                Ok(())
            }
            _ => Err(HostError),
        }
    }
}

fn code(kinds: Vec<InstructionKind>) -> Vec<Instruction> {
    kinds.into_iter().map(|kind| Instruction { kind, offset: 0 }).collect()
}

fn i32c(value: i32) -> InstructionKind {
    InstructionKind::I32Const { value }
}

fn binary_type() -> FuncType {
    FuncType { params: vec![ValueType::I32, ValueType::I32], returns: vec![ValueType::I32] }
}

fn nullary_type() -> FuncType {
    FuncType { params: vec![], returns: vec![ValueType::I32] }
}

fn empty_module() -> Module {
    Module {
        types: vec![],
        imports: vec![],
        functions: vec![],
        tables: vec![],
        memories: vec![],
        globals: vec![],
        exports: vec![],
        start: None,
        elements: vec![],
        data: vec![],
    }
}

fn host_values() -> Vec<(String, HostValue<Sum>)> {
    vec![
        ("sum".to_string(), HostValue::Func(binary_type(), Sum)),
        (
            "base".to_string(),
            HostValue::Global(GlobalInstance::new(
                Value::I32(16),
                GlobalType { content_type: ValueType::I32, mutable: false },
            )),
        ),
        ("memory".to_string(), HostValue::Mem(MemoryInstance::new(1, Some(1)))),
        ("table".to_string(), HostValue::Table(DefinedTableInstance::new(4, None))),
    ]
}

#[test]
fn host_module_exports_its_values() {
    let mut store: Store<Sum> = Store::new();
    let env = store.load_host_module("env".to_string(), host_values()).unwrap();
    assert_eq!(env, ModuleIndex(1));
    assert_eq!(store.module_by_name(&"env".to_string()), Some(env));
    let module = store.module(env).unwrap();
    assert!(module.defined().is_none());
    assert_eq!(module.export(&"sum".to_string()), Some(ExternalValue::Func(FuncAddr(env, 0))));
    assert_eq!(module.export(&"base".to_string()), Some(ExternalValue::Global(GlobalAddr(env, 0))));
    assert_eq!(module.export(&"memory".to_string()), Some(ExternalValue::Memory(MemoryAddr(env, 0))));
    assert_eq!(module.export(&"table".to_string()), Some(ExternalValue::Table(TableAddr(env, 0))));
    assert_eq!(module.export(&"other".to_string()), None);
    match store.func(FuncAddr(env, 0)) {
        Some((FunctionInstance::Host(f), _)) => {
            assert_eq!(f.module_name, "env");
            assert_eq!(f.field_name, "sum");
            assert_eq!(f.ty.params.len(), 2);
        }
        _ => panic!("no host function"),
    }
    assert_eq!(store.global(GlobalAddr(env, 0)).unwrap().value(), Value::I32(16));
    assert_eq!(store.memory(MemoryAddr(env, 0)).unwrap().page_count(), 1);
    assert_eq!(store.table(TableAddr(env, 0)).unwrap().buffer_len(), 4);
    let r = simple_invoke_func(FuncAddr(env, 0), vec![Value::I32(4), Value::I32(5)], &mut store, &NoFloats);
    assert_eq!(r.unwrap(), vec![Value::I32(9)]);
    // a second host module gets the next index and its own index spaces
    let more = store.load_host_module("more".to_string(), host_values()).unwrap();
    assert_eq!(more, ModuleIndex(2));
    assert!(store.func(FuncAddr(more, 0)).is_some());
    assert!(store.func(FuncAddr(more, 1)).is_none());
    assert_eq!(store.funcs.items.len(), 2);
}

/// A module that imports everything that the host module exports, defines
/// one function more, one global more, and writes to the table and the
/// memory that it imported.
fn importing_module() -> Module {
    Module {
        types: vec![binary_type(), nullary_type()],
        imports: vec![
            Import { module: "env".to_string(), field: "sum".to_string(), desc: ImportDesc::Func(0) },
            Import {
                module: "env".to_string(),
                field: "memory".to_string(),
                desc: ImportDesc::Memory(Limits { initial: 1, maximum: Some(1) }),
            },
            Import {
                module: "env".to_string(),
                field: "base".to_string(),
                desc: ImportDesc::Global(GlobalType { content_type: ValueType::I32, mutable: false }),
            },
            Import {
                module: "env".to_string(),
                field: "table".to_string(),
                desc: ImportDesc::Table(Limits { initial: 4, maximum: None }),
            },
        ],
        functions: vec![
            // main: sum(mem[base], own) where own is global 1
            FuncBody {
                name: "main".to_string(),
                type_index: 1,
                locals: vec![],
                instructions: code(vec![
                    InstructionKind::GlobalGet { global_index: 0 },
                    InstructionKind::Load {
                        kind: LoadKind::I32,
                        memarg: MemoryImmediate { flags: 0, offset: 0 },
                    },
                    InstructionKind::GlobalGet { global_index: 1 },
                    InstructionKind::Call { function_index: 0 },
                    InstructionKind::End,
                ]),
            },
            // via_table: calls slot 2 of the table, which holds `main`
            FuncBody {
                name: "via_table".to_string(),
                type_index: 1,
                locals: vec![],
                instructions: code(vec![
                    i32c(2),
                    InstructionKind::CallIndirect { index: 1, table_index: 0 },
                    i32c(1),
                    InstructionKind::IntBinary { width: IntWidth::W32, op: IntBinOp::Add },
                    InstructionKind::End,
                ]),
            },
        ],
        tables: vec![],
        memories: vec![],
        globals: vec![GlobalEntry {
            ty: GlobalType { content_type: ValueType::I32, mutable: true },
            init_expr: code(vec![InstructionKind::GlobalGet { global_index: 0 }, InstructionKind::End]),
        }],
        exports: vec![
            Export { field: "main".to_string(), desc: ExportDesc::Func(1) },
            Export { field: "via_table".to_string(), desc: ExportDesc::Func(2) },
            Export { field: "own".to_string(), desc: ExportDesc::Global(1) },
        ],
        start: Some(1),
        elements: vec![ElementSegment {
            table_index: 0,
            offset: code(vec![i32c(2)]),
            members: vec![1],
        }],
        data: vec![DataSegment {
            memory_index: 0,
            offset: code(vec![InstructionKind::GlobalGet { global_index: 0 }]),
            value: vec![100, 0, 0, 0],
        }],
    }
}

#[test]
fn module_is_loaded_with_imports_first() {
    let mut store: Store<Sum> = Store::new();
    let env = store.load_host_module("env".to_string(), host_values()).unwrap();
    let m = store.load_module(Some("main".to_string()), importing_module()).unwrap();
    assert_eq!(m, ModuleIndex(2));
    assert_eq!(store.module_by_name(&"main".to_string()), Some(m));
    // the import stands for the slot of the host function, not for a copy
    assert_eq!(store.funcs.items.len(), 3);
    assert_eq!(store.funcs.resolve(m, 0), store.funcs.resolve(env, 0));
    assert_eq!(store.mems.items.len(), 1);
    assert_eq!(store.mems.resolve(m, 0), store.mems.resolve(env, 0));
    assert_eq!(store.tables.resolve(m, 0), store.tables.resolve(env, 0));
    assert_eq!(store.globals.resolve(m, 0), store.globals.resolve(env, 0));
    assert_eq!(store.globals.items.len(), 2);
    assert_eq!(store.global(GlobalAddr(m, 1)).unwrap().value(), Value::I32(16));
    assert!(store.global(GlobalAddr(m, 1)).unwrap().is_mutable());
    match store.func(FuncAddr(m, 1)) {
        Some((FunctionInstance::Defined(f), slot)) => {
            assert_eq!(f.name(), "main");
            assert_eq!(f.module_index(), m);
            assert_eq!(f.instructions().len(), 5);
            assert_eq!(slot.0, 1);
        }
        _ => panic!("no defined function"),
    }
    // the segments were written
    assert_eq!(store.memory(MemoryAddr(env, 0)).unwrap().load(16, 4).unwrap(), vec![100, 0, 0, 0]);
    assert_eq!(store.table(TableAddr(env, 0)).unwrap().get_at(2), Ok(FuncAddr(m, 1)));
    assert_eq!(
        store.table(TableAddr(env, 0)).unwrap().get_at(1),
        Err(table::Error::UninitializedElement(1))
    );
    let module = store.module(m).unwrap().defined().unwrap();
    assert_eq!(module.exported_func(&"main".to_string()), Ok(Some(FuncAddr(m, 1))));
    assert_eq!(module.exported_global(&"own".to_string()), Ok(Some(GlobalAddr(m, 1))));
    assert_eq!(module.start_func_addr(), &Some(FuncAddr(m, 1)));
    assert_eq!(module.types.len(), 2);

    let r = simple_invoke_func(FuncAddr(m, 1), vec![], &mut store, &NoFloats);
    assert_eq!(r.unwrap(), vec![Value::I32(116)]);
    let r = simple_invoke_func(FuncAddr(m, 2), vec![], &mut store, &NoFloats);
    assert_eq!(r.unwrap(), vec![Value::I32(117)]);
}

#[test]
fn module_imports_from_a_defined_module() {
    let mut store: Store<Sum> = Store::new();
    let mut lib = empty_module();
    lib.types = vec![nullary_type()];
    lib.functions = vec![FuncBody {
        name: "seven".to_string(),
        type_index: 0,
        locals: vec![],
        instructions: code(vec![i32c(7), InstructionKind::End]),
    }];
    lib.memories = vec![Limits { initial: 2, maximum: None }];
    lib.tables = vec![Limits { initial: 3, maximum: Some(5) }];
    lib.exports = vec![
        Export { field: "seven".to_string(), desc: ExportDesc::Func(0) },
        Export { field: "mem".to_string(), desc: ExportDesc::Memory(0) },
    ];
    let lib_index = store.load_module(Some("lib".to_string()), lib).unwrap();
    assert_eq!(store.memory(MemoryAddr(lib_index, 0)).unwrap().page_count(), 2);
    assert_eq!(store.table(TableAddr(lib_index, 0)).unwrap().buffer_len(), 3);

    let mut user = empty_module();
    user.types = vec![nullary_type()];
    user.imports = vec![Import {
        module: "lib".to_string(),
        field: "seven".to_string(),
        desc: ImportDesc::Func(0),
    }];
    user.functions = vec![FuncBody {
        name: "fourteen".to_string(),
        type_index: 0,
        locals: vec![],
        instructions: code(vec![
            InstructionKind::Call { function_index: 0 },
            InstructionKind::Call { function_index: 0 },
            InstructionKind::IntBinary { width: IntWidth::W32, op: IntBinOp::Add },
            InstructionKind::End,
        ]),
    }];
    let user_index = store.load_module(None, user).unwrap();
    assert_eq!(user_index, ModuleIndex(2));
    let r = simple_invoke_func(FuncAddr(user_index, 1), vec![], &mut store, &NoFloats);
    assert_eq!(r.unwrap(), vec![Value::I32(14)]);
    // a function without a memory in its module traps on a load
    let mut loader = empty_module();
    loader.types = vec![nullary_type()];
    loader.functions = vec![FuncBody {
        name: "peek".to_string(),
        type_index: 0,
        locals: vec![],
        instructions: code(vec![
            i32c(0),
            InstructionKind::Load { kind: LoadKind::I32, memarg: MemoryImmediate { flags: 0, offset: 0 } },
            InstructionKind::End,
        ]),
    }];
    let loader_index = store.load_module(None, loader).unwrap();
    let r = simple_invoke_func(FuncAddr(loader_index, 0), vec![], &mut store, &NoFloats);
    assert!(matches!(r, Err(WasmError::ExecutionError(Trap::UndefinedMemory(0)))));
}

fn with_import(module: &str, field: &str, desc: ImportDesc) -> Module {
    let mut m = empty_module();
    m.types = vec![binary_type(), nullary_type()];
    m.imports = vec![Import { module: module.to_string(), field: field.to_string(), desc }];
    m
}

#[test]
fn imports_that_do_not_fit_are_refused() {
    let mut store: Store<Sum> = Store::new();
    store.load_host_module("env".to_string(), host_values()).unwrap();
    let r = store.load_module(None, with_import("nowhere", "sum", ImportDesc::Func(0)));
    assert_eq!(r, Err(loader::Error::UnknownImportModule(0)));
    let r = store.load_module(None, with_import("env", "nothing", ImportDesc::Func(0)));
    assert_eq!(r, Err(loader::Error::UnknownImportField(0)));
    let r = store.load_module(None, with_import("env", "memory", ImportDesc::Func(0)));
    assert_eq!(r, Err(loader::Error::IncompatibleImportKind(0)));
    let r = store.load_module(None, with_import("env", "sum", ImportDesc::Func(1)));
    assert_eq!(r, Err(loader::Error::IncompatibleImportFuncType(0)));
    let r = store.load_module(None, with_import("env", "sum", ImportDesc::Func(2)));
    assert_eq!(r, Err(loader::Error::UnknownType(0)));
    let r = store.load_module(
        None,
        with_import(
            "env",
            "base",
            ImportDesc::Global(GlobalType { content_type: ValueType::I32, mutable: true }),
        ),
    );
    assert_eq!(r, Err(loader::Error::IncompatibleImportGlobalType(0)));
    // none of the failures added a module
    assert_eq!(store.next_module_index(), Some(ModuleIndex(2)));
    let r = store.load_module(None, with_import("env", "sum", ImportDesc::Func(0)));
    assert_eq!(r, Ok(ModuleIndex(2)));
}

#[test]
fn definitions_that_do_not_fit_are_refused() {
    let mut store: Store<Sum> = Store::new();
    let mut m = empty_module();
    m.functions = vec![FuncBody { name: "f".to_string(), type_index: 0, locals: vec![], instructions: vec![] }];
    assert_eq!(store.load_module(None, m), Err(loader::Error::UnknownType(0)));

    let mut m = empty_module();
    m.memories = vec![Limits { initial: 2, maximum: Some(1) }];
    assert_eq!(store.load_module(None, m), Err(loader::Error::InvalidMemoryLimits(0)));
    let mut m = empty_module();
    m.memories = vec![Limits { initial: 65537, maximum: None }];
    assert_eq!(store.load_module(None, m), Err(loader::Error::InvalidMemoryLimits(0)));

    let mut m = empty_module();
    m.globals = vec![GlobalEntry {
        ty: GlobalType { content_type: ValueType::I32, mutable: false },
        init_expr: code(vec![InstructionKind::Nop]),
    }];
    assert_eq!(
        store.load_module(None, m),
        Err(loader::Error::InvalidGlobalInit(0, ConstExprError::NotConstant))
    );
    let mut m = empty_module();
    m.globals = vec![GlobalEntry {
        ty: GlobalType { content_type: ValueType::I32, mutable: false },
        init_expr: code(vec![InstructionKind::I64Const { value: 1 }]),
    }];
    assert_eq!(store.load_module(None, m), Err(loader::Error::GlobalTypeMismatch(0)));

    let mut m = empty_module();
    m.memories = vec![Limits { initial: 1, maximum: None }];
    m.data = vec![DataSegment {
        memory_index: 0,
        offset: code(vec![i32c(65535)]),
        value: vec![1, 2],
    }];
    assert_eq!(
        store.load_module(None, m),
        Err(loader::Error::InvalidDataSegments(memory::Error::OutOfBounds(Some(65537), 65536)))
    );
    let mut m = empty_module();
    m.data = vec![DataSegment { memory_index: 0, offset: code(vec![i32c(0)]), value: vec![] }];
    assert_eq!(store.load_module(None, m), Err(loader::Error::UndefinedMemory(0)));
    let mut m = empty_module();
    m.memories = vec![Limits { initial: 1, maximum: None }];
    m.data = vec![DataSegment {
        memory_index: 0,
        offset: code(vec![InstructionKind::I64Const { value: 0 }]),
        value: vec![],
    }];
    assert_eq!(store.load_module(None, m), Err(loader::Error::InvalidOffset));

    let mut m = empty_module();
    m.tables = vec![Limits { initial: 1, maximum: None }];
    m.elements = vec![ElementSegment { table_index: 0, offset: code(vec![i32c(1)]), members: vec![0] }];
    assert_eq!(
        store.load_module(None, m),
        Err(loader::Error::InvalidElementSegments(table::Error::AccessOutOfBounds(Some(2), 1)))
    );
    let mut m = empty_module();
    m.elements = vec![ElementSegment { table_index: 3, offset: code(vec![i32c(0)]), members: vec![] }];
    assert_eq!(store.load_module(None, m), Err(loader::Error::UndefinedTable(0)));

    assert_eq!(store.next_module_index(), Some(ModuleIndex(1)));
    assert_eq!(store.load_module(None, empty_module()), Ok(ModuleIndex(1)));
    assert!(matches!(store.module(ModuleIndex(1)), Some(ModuleInstance::Defined(_))));
}

#[test]
fn failed_load_leaves_no_index_behind() {
    let mut store: Store<Sum> = Store::new();
    let mut m = empty_module();
    m.types = vec![nullary_type()];
    m.memories = vec![Limits { initial: 1, maximum: None }];
    m.functions = vec![
        FuncBody { name: "f".to_string(), type_index: 0, locals: vec![], instructions: vec![] },
        FuncBody { name: "g".to_string(), type_index: 9, locals: vec![], instructions: vec![] },
    ];
    assert_eq!(store.load_module(None, m), Err(loader::Error::UnknownType(1)));
    let next = store.next_module_index().unwrap();
    assert_eq!(store.funcs.row_len(next), 0);
    assert!(store.func(FuncAddr(next, 0)).is_none());
    assert!(store.memory(MemoryAddr(next, 0)).is_none());
}

fn immutable_i32() -> GlobalType {
    GlobalType { content_type: ValueType::I32, mutable: false }
}

#[test]
fn constant_expressions_read_only_imported_globals() {
    let mut store: Store<Sum> = Store::new();
    store.load_host_module("env".to_string(), host_values()).unwrap();

    // the second global reads the first, which the module defines itself
    let mut m = empty_module();
    m.globals = vec![
        GlobalEntry { ty: immutable_i32(), init_expr: code(vec![i32c(5)]) },
        GlobalEntry {
            ty: immutable_i32(),
            init_expr: code(vec![InstructionKind::GlobalGet { global_index: 0 }]),
        },
    ];
    assert_eq!(
        store.load_module(None, m),
        Err(loader::Error::InvalidGlobalInit(1, ConstExprError::UndefinedGlobal(0)))
    );

    // an offset that reads a global of the module's own
    let mut m = empty_module();
    m.memories = vec![Limits { initial: 1, maximum: None }];
    m.globals = vec![GlobalEntry { ty: immutable_i32(), init_expr: code(vec![i32c(5)]) }];
    m.data = vec![DataSegment {
        memory_index: 0,
        offset: code(vec![InstructionKind::GlobalGet { global_index: 0 }]),
        value: vec![1],
    }];
    assert_eq!(store.load_module(None, m), Err(loader::Error::InvalidOffset));

    // the imported global comes first: index 0 is the import, index 1 the
    // module's own global, which takes the import's value
    let mut m = with_import("env", "base", ImportDesc::Global(immutable_i32()));
    m.memories = vec![Limits { initial: 1, maximum: None }];
    m.globals = vec![GlobalEntry {
        ty: immutable_i32(),
        init_expr: code(vec![InstructionKind::GlobalGet { global_index: 0 }]),
    }];
    m.data = vec![DataSegment {
        memory_index: 0,
        offset: code(vec![InstructionKind::GlobalGet { global_index: 0 }]),
        value: vec![7, 8],
    }];
    let index = store.load_module(None, m).unwrap();
    assert_eq!(store.global(GlobalAddr(index, 1)).unwrap().value(), Value::I32(16));
    let bytes = store.memory(MemoryAddr(index, 0)).unwrap().load(16, 2).unwrap();
    assert_eq!(bytes, vec![7, 8]);

    // an offset may not read the module's own global behind the import
    let mut m = with_import("env", "base", ImportDesc::Global(immutable_i32()));
    m.tables = vec![Limits { initial: 1, maximum: None }];
    m.globals = vec![GlobalEntry { ty: immutable_i32(), init_expr: code(vec![i32c(0)]) }];
    m.elements = vec![ElementSegment {
        table_index: 0,
        offset: code(vec![InstructionKind::GlobalGet { global_index: 1 }]),
        members: vec![],
    }];
    assert_eq!(store.load_module(None, m), Err(loader::Error::InvalidOffset));
}

fn bad_function() -> FuncBody {
    FuncBody { name: "f".to_string(), type_index: 7, locals: vec![], instructions: vec![] }
}

fn bad_global() -> GlobalEntry {
    GlobalEntry { ty: immutable_i32(), init_expr: code(vec![]) }
}

fn bad_data() -> DataSegment {
    DataSegment { memory_index: 4, offset: code(vec![i32c(0)]), value: vec![] }
}

fn bad_element() -> ElementSegment {
    ElementSegment { table_index: 4, offset: code(vec![i32c(0)]), members: vec![] }
}

#[test]
fn the_first_fault_in_loading_order_is_reported() {
    let mut store: Store<Sum> = Store::new();
    store.load_host_module("env".to_string(), host_values()).unwrap();

    // two imports at fault: the first one; imports before functions
    let mut m = with_import("nowhere", "sum", ImportDesc::Func(0));
    m.imports.insert(0, Import {
        module: "env".to_string(),
        field: "nothing".to_string(),
        desc: ImportDesc::Func(0),
    });
    m.functions = vec![bad_function()];
    assert_eq!(store.load_module(None, m), Err(loader::Error::UnknownImportField(0)));

    // functions before memories
    let mut m = empty_module();
    m.functions = vec![bad_function()];
    m.memories = vec![Limits { initial: 2, maximum: Some(1) }];
    assert_eq!(store.load_module(None, m), Err(loader::Error::UnknownType(0)));

    // memories before globals
    let mut m = empty_module();
    m.memories = vec![Limits { initial: 1, maximum: None }, Limits { initial: 2, maximum: Some(1) }];
    m.globals = vec![bad_global()];
    assert_eq!(store.load_module(None, m), Err(loader::Error::InvalidMemoryLimits(1)));

    // globals before element segments
    let mut m = empty_module();
    m.globals = vec![bad_global()];
    m.elements = vec![bad_element()];
    assert_eq!(
        store.load_module(None, m),
        Err(loader::Error::InvalidGlobalInit(0, ConstExprError::Empty))
    );

    // element segments before data segments, and the first of two
    let mut m = empty_module();
    m.tables = vec![Limits { initial: 1, maximum: None }];
    m.elements = vec![
        ElementSegment { table_index: 0, offset: code(vec![i32c(0)]), members: vec![] },
        bad_element(),
    ];
    m.data = vec![bad_data()];
    assert_eq!(store.load_module(None, m), Err(loader::Error::UndefinedTable(1)));

    let mut m = empty_module();
    m.data = vec![bad_data()];
    assert_eq!(store.load_module(None, m), Err(loader::Error::UndefinedMemory(0)));
}

#[test]
fn an_import_finds_nothing_in_the_module_that_is_being_loaded() {
    let mut store: Store<Sum> = Store::new();
    store.load_host_module("env".to_string(), host_values()).unwrap();
    // a module that exports, as its own, a function of the module that comes next
    let forward = DefinedModuleInstance {
        types: vec![],
        exports: vec![ExportInstance {
            name: "ahead".to_string(),
            value: ExternalValue::Func(FuncAddr(ModuleIndex(3), 0)),
        }],
        start_func: None,
    };
    assert_eq!(
        store.add_module(Some("forward".to_string()), ModuleInstance::Defined(forward)),
        Some(ModuleIndex(2))
    );
    let mut m = with_import("env", "sum", ImportDesc::Func(0));
    m.imports.push(Import {
        module: "forward".to_string(),
        field: "ahead".to_string(),
        desc: ImportDesc::Func(0),
    });
    assert_eq!(store.load_module(None, m), Err(loader::Error::UnknownImportField(1)));
    assert_eq!(store.next_module_index(), Some(ModuleIndex(3)));
}

#[test]
fn bounded_constant_expressions_stop_at_the_limit() {
    let mut store: Store<Sum> = Store::new();
    store.load_host_module("env".to_string(), host_values()).unwrap();
    let mut m = with_import("env", "base", ImportDesc::Global(immutable_i32()));
    m.globals = vec![GlobalEntry { ty: immutable_i32(), init_expr: code(vec![i32c(3)]) }];
    let index = store.load_module(None, m).unwrap();
    // slot 0 holds the global of the host module, slot 1 the module's own
    let imported = code(vec![InstructionKind::GlobalGet { global_index: 0 }]);
    let own = code(vec![InstructionKind::GlobalGet { global_index: 1 }]);
    assert_eq!(loader::eval_bounded_const(&imported, &store, index, 1), Ok(Value::I32(16)));
    assert_eq!(
        loader::eval_bounded_const(&own, &store, index, 1),
        Err(ConstExprError::UndefinedGlobal(1))
    );
    assert_eq!(loader::eval_bounded_const(&own, &store, index, 2), Ok(Value::I32(3)));
    assert_eq!(
        loader::eval_bounded_const(&imported, &store, index, 0),
        Err(ConstExprError::UndefinedGlobal(0))
    );
    assert_eq!(loader::eval_bounded_const(&code(vec![]), &store, index, 2), Err(ConstExprError::Empty));
    assert_eq!(
        loader::eval_bounded_const(&code(vec![InstructionKind::Nop]), &store, index, 2),
        Err(ConstExprError::NotConstant)
    );

    assert_eq!(loader::eval_offset(&imported, &store, index, 1), Ok(16));
    assert_eq!(loader::eval_offset(&own, &store, index, 1), Err(loader::Error::InvalidOffset));
    assert_eq!(loader::eval_offset(&code(vec![i32c(-1)]), &store, index, 0), Ok(4294967295));
    assert_eq!(
        loader::eval_offset(&code(vec![InstructionKind::I64Const { value: 0 }]), &store, index, 0),
        Err(loader::Error::InvalidOffset)
    );
}
