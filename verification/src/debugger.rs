//! The debugger's side of the interpreter: the choice of the function to run,
//! and the interface through which a front end asks for variables.

use vstd::prelude::*;
use crate::address::{FuncAddr, ModuleIndex};
use crate::executor::{invocation_post, simple_invoke_func, WasmError};
use crate::float::FloatUnit;
use crate::func::FunctionInstance;
use crate::host::{host_call, HostError, HostFuncBody};
use crate::module::{export_of, DefinedModuleInstance, ExternalValue, ModuleInstance};
use crate::store::Store;
use crate::value::Value;

verus! {

/// What a front end drives.
pub trait Debugger {
    /// Runs the function named `name`, or the module's entry where no name is
    /// given.
    fn run(&mut self, name: Option<String>) -> (r: Result<Vec<Value>, WasmError>);
}

/// A variable of the program being debugged.
#[derive(Clone, Debug)]
pub struct Variable {
    pub name: String,
    pub ty_name: String,
}

/// Why a subroutine map could not answer.
#[derive(Clone, Copy, Debug, PartialEq, Eq, Structural)]
pub enum SubroutineError {
    /// No subroutine covers the code offset.
    NotFound,
    /// The subroutine has no variable of the name.
    UnknownVariable,
}

/// The variables of the subroutines of a program, by code offset.
pub trait SubroutineMap {
    /// The variables in scope at `code_offset`.
    fn variable_name_list(&self, code_offset: usize) -> (r: Result<Vec<Variable>, SubroutineError>);

    /// Shows the variable `name` of the subroutine at `code_offset`, whose
    /// frame starts at `rbp` in `memory`.
    fn display_variable(&self, code_offset: usize, rbp: u32, memory: &[u8], name: String) -> (r:
        Result<(), SubroutineError>);
}

/// The map of a program without debug information: it knows no variable.
#[derive(Clone, Copy, Debug)]
pub struct EmptySubroutineMap {}

impl EmptySubroutineMap {
    pub fn new() -> (map: EmptySubroutineMap) {
        EmptySubroutineMap {  }
    }
}

impl SubroutineMap for EmptySubroutineMap {
    fn variable_name_list(&self, _code_offset: usize) -> (r: Result<Vec<Variable>, SubroutineError>)
        ensures
            r is Ok,
            r->Ok_0@.len() == 0,
    {
        Ok(Vec::new())
    }

    fn display_variable(&self, _code_offset: usize, _rbp: u32, _memory: &[u8], _name: String) -> (r:
        Result<(), SubroutineError>)
        ensures
            r is Ok,
    {
        Ok(())
    }
}

/// The name of the entry that a module is run from where it has no start
/// function and no name is given.
pub open spec fn default_entry() -> Seq<char> {
    seq!['_', 's', 't', 'a', 'r', 't']
}

/// The function to run: the export of the given name; or, where no name is
/// given, the module's start function, or else its export `_start`. An
/// export counts only where it is a function.
pub open spec fn entry_of(module: DefinedModuleInstance, name: Option<String>) -> Result<
    FuncAddr,
    Seq<char>,
> {
    match name {
        Some(func_name) => match export_of(module.exports@, func_name@) {
            Some(ExternalValue::Func(addr)) => Ok(addr),
            _ => Err(func_name@),
        },
        None => match module.start_func {
            Some(addr) => Ok(addr),
            None => match export_of(module.exports@, default_entry()) {
                Some(ExternalValue::Func(addr)) => Ok(addr),
                _ => Err(default_entry()),
            },
        },
    }
}

/// Chooses the function to run.
pub fn select_entry(module: &DefinedModuleInstance, name: Option<String>) -> (r: Result<
    FuncAddr,
    WasmError,
>)
    ensures
        match entry_of(*module, name) {
            Ok(addr) => r matches Ok(a) && a == addr,
            Err(missing) => r matches Err(WasmError::EntryFunctionNotFound(n)) && n@ == missing,
        },
{
    match name {
        Some(func_name) => match module.exported_func(&func_name) {
            Ok(Some(func_addr)) => Ok(func_addr),
            _ => Err(WasmError::EntryFunctionNotFound(func_name)),
        },
        None => match module.start_func_addr() {
            Some(start_func_addr) => Ok(*start_func_addr),
            None => {
                let entry = "_start".to_string();
                proof {
                    reveal_strlit("_start");
                    assert(entry@ =~= default_entry());
                }
                match module.exported_func(&entry) {
                    Ok(Some(func_addr)) => Ok(func_addr),
                    _ => Err(WasmError::EntryFunctionNotFound(entry)),
                }
            },
        },
    }
}

/// A debugger over one store and, once a module is loaded, that module.
pub struct MainDebugger<H, U> {
    pub store: Store<H>,
    pub module_index: Option<ModuleIndex>,
    pub float_unit: U,
}

/// The defined module that a debugger runs.
pub open spec fn loaded_module<H>(store: Store<H>, module_index: Option<ModuleIndex>) -> Option<
    DefinedModuleInstance,
> {
    match module_index {
        Some(index) => if 1 <= index.0 <= store.modules@.len() {
            match store.modules@[index.0 - 1].instance {
                ModuleInstance::Defined(module) => Some(module),
                ModuleInstance::Host(_) => None,
            }
        } else {
            None
        },
        None => None,
    }
}

impl<H: HostFuncBody + Clone, U: FloatUnit> MainDebugger<H, U> {
    /// A debugger over `store` that runs the module `module_index`.
    pub fn new(store: Store<H>, module_index: Option<ModuleIndex>, float_unit: U) -> (debugger:
        MainDebugger<H, U>)
        ensures
            debugger.store == store,
            debugger.module_index == module_index,
            debugger.float_unit == float_unit,
    {
        MainDebugger { store, module_index, float_unit }
    }

    /// Runs the entry that `select_entry` chooses, without arguments, to its
    /// end. Fails with `NoModuleLoaded` where the debugger has no defined
    /// module, and with `EntryFunctionNotFound` where the module has no such
    /// entry. An entry that is a host function is called as `invoke_func`
    /// says.
    pub fn run_entry(&mut self, name: Option<String>) -> (r: Result<Vec<Value>, WasmError>)
        ensures
            final(self).module_index == old(self).module_index,
            match loaded_module(old(self).store, old(self).module_index) {
                None => r matches Err(WasmError::NoModuleLoaded) && final(self).store == old(self).store,
                Some(module) => match entry_of(module, name) {
                    Err(missing) => r matches Err(WasmError::EntryFunctionNotFound(n)) && n@
                        == missing && final(self).store == old(self).store,
                    Ok(addr) => invocation_post(
                        addr,
                        Seq::<Value>::empty(),
                        old(self).store,
                        u64::MAX,
                        r,
                        final(self).store,
                    ),
                },
            },
            match loaded_module(old(self).store, old(self).module_index) {
                Some(module) => match entry_of(module, name) {
                    Ok(addr) => match old(self).store.funcs.spec_resolve(addr.0, addr.1) {
                        Some(slot) => match old(self).store.funcs.items@[slot as int] {
                            FunctionInstance::Host(host) => exists|
                    code: H,
                    handed: &[Value],
                    left: &mut Vec<Value>,
                    given: &mut Store<H>,
                    outcome: Result<(), HostError>,
                |
                    {
                        &&& cloned(host.code, code)
                        &&& #[trigger] host_call(
                            code,
                            handed,
                            left,
                            given,
                            addr.0,
                            outcome,
                            Seq::<Value>::empty(),
                            old(self).store,
                        )
                                    &&& mut_ref_future(given) == final(self).store
                                    &&& match outcome {
                                        Ok(_) => r matches Ok(values) && values@ == mut_ref_future(
                                            left,
                                        )@,
                                        Err(_) => r matches Err(WasmError::HostExecutionError),
                                    }
                                },
                            FunctionInstance::Defined(_) => true,
                        },
                        None => true,
                    },
                    Err(_) => true,
                },
                None => true,
            },
    {
        let module_index = match self.module_index {
            Some(module_index) => module_index,
            None => {
                return Err(WasmError::NoModuleLoaded);
            },
        };
        let func_addr = match self.store.module(module_index) {
            Some(module) => match module.defined() {
                Some(module) => select_entry(module, name)?,
                None => {
                    return Err(WasmError::NoModuleLoaded);
                },
            },
            None => {
                return Err(WasmError::NoModuleLoaded);
            },
        };
        let arguments: Vec<Value> = Vec::new();
        simple_invoke_func(func_addr, arguments, &mut self.store, &self.float_unit)
    }
}

impl<H: HostFuncBody + Clone, U: FloatUnit> Debugger for MainDebugger<H, U> {
    /// Runs the entry as `run_entry` does.
    fn run(&mut self, name: Option<String>) -> (r: Result<Vec<Value>, WasmError>)
        ensures
            final(self).module_index == old(self).module_index,
            match loaded_module(old(self).store, old(self).module_index) {
                None => r matches Err(WasmError::NoModuleLoaded) && final(self).store == old(self).store,
                Some(module) => match entry_of(module, name) {
                    Err(missing) => r matches Err(WasmError::EntryFunctionNotFound(n)) && n@
                        == missing && final(self).store == old(self).store,
                    Ok(addr) => invocation_post(
                        addr,
                        Seq::<Value>::empty(),
                        old(self).store,
                        u64::MAX,
                        r,
                        final(self).store,
                    ),
                },
            },
            match loaded_module(old(self).store, old(self).module_index) {
                Some(module) => match entry_of(module, name) {
                    Ok(addr) => match old(self).store.funcs.spec_resolve(addr.0, addr.1) {
                        Some(slot) => match old(self).store.funcs.items@[slot as int] {
                            FunctionInstance::Host(host) => exists|
                    code: H,
                    handed: &[Value],
                    left: &mut Vec<Value>,
                    given: &mut Store<H>,
                    outcome: Result<(), HostError>,
                |
                    {
                        &&& cloned(host.code, code)
                        &&& #[trigger] host_call(
                            code,
                            handed,
                            left,
                            given,
                            addr.0,
                            outcome,
                            Seq::<Value>::empty(),
                            old(self).store,
                        )
                                    &&& mut_ref_future(given) == final(self).store
                                    &&& match outcome {
                                        Ok(_) => r matches Ok(values) && values@ == mut_ref_future(
                                            left,
                                        )@,
                                        Err(_) => r matches Err(WasmError::HostExecutionError),
                                    }
                                },
                            FunctionInstance::Defined(_) => true,
                        },
                        None => true,
                    },
                    Err(_) => true,
                },
                None => true,
            },
    {
        self.run_entry(name)
    }
}

} // verus!
