//! Module instances: the types and exports of a loaded module.

use vstd::prelude::*;
use crate::address::{FuncAddr, GlobalAddr, MemoryAddr, TableAddr};
use crate::func::FuncType;

verus! {

/// What an export stands for.
#[derive(Clone, Copy, Debug, PartialEq, Eq, Structural)]
pub enum ExternalValue {
    Func(FuncAddr),
    Global(GlobalAddr),
    Memory(MemoryAddr),
    Table(TableAddr),
}

/// A name and what the module exports under it.
#[derive(Debug)]
pub struct ExportInstance {
    pub name: String,
    pub value: ExternalValue,
}

/// A module whose functions are WebAssembly code.
#[derive(Debug)]
pub struct DefinedModuleInstance {
    pub types: Vec<FuncType>,
    pub exports: Vec<ExportInstance>,
    pub start_func: Option<FuncAddr>,
}

/// A module of host values.
#[derive(Debug)]
pub struct HostModuleInstance {
    pub exports: Vec<ExportInstance>,
}

/// A module of the store.
#[derive(Debug)]
pub enum ModuleInstance {
    Defined(DefinedModuleInstance),
    Host(HostModuleInstance),
}

/// A module of the store and the name that it was added under, if any.
#[derive(Debug)]
pub struct LoadedModule {
    pub name: Option<String>,
    pub instance: ModuleInstance,
}

/// Why an export could not be had.
#[derive(Clone, Copy, Debug, PartialEq, Eq, Structural)]
pub enum Error {
    /// The export is of another kind than the one asked for.
    TypeMismatch(ExternalValue),
}

/// The position of the first export named `name`.
pub open spec fn export_position(exports: Seq<ExportInstance>, name: Seq<char>) -> Option<int>
    decreases exports.len(),
{
    if exports.len() == 0 {
        None
    } else if exports[0].name@ == name {
        Some(0)
    } else {
        match export_position(exports.drop_first(), name) {
            Some(i) => Some(i + 1),
            None => None,
        }
    }
}

/// What the first export named `name` stands for.
pub open spec fn export_of(exports: Seq<ExportInstance>, name: Seq<char>) -> Option<ExternalValue> {
    match export_position(exports, name) {
        Some(i) => Some(exports[i].value),
        None => None,
    }
}

/// `export_position` gives the first position whose export has the name.
pub proof fn lemma_export_position(exports: Seq<ExportInstance>, name: Seq<char>)
    ensures
        export_position(exports, name) matches Some(i) ==> 0 <= i < exports.len()
            && exports[i].name@ == name && forall|j: int|
            0 <= j < i ==> (#[trigger] exports[j]).name@ != name,
        export_position(exports, name) is None ==> forall|j: int|
            0 <= j < exports.len() ==> (#[trigger] exports[j]).name@ != name,
    decreases exports.len(),
{
    if exports.len() > 0 && exports[0].name@ != name {
        let rest = exports.drop_first();
        lemma_export_position(rest, name);
        assert forall|j: int| 0 <= j < rest.len() implies rest[j] == exports[j + 1] by {}
        if export_position(rest, name) is Some {
            let i = export_position(rest, name)->Some_0 + 1;
            assert forall|j: int| 0 <= j < i implies (#[trigger] exports[j]).name@ != name by {
                if j > 0 {
                    assert(rest[j - 1].name@ != name);
                }
            }
        } else {
            assert forall|j: int| 0 <= j < exports.len() implies (#[trigger] exports[j]).name@
                != name by {
                if j > 0 {
                    assert(rest[j - 1].name@ != name);
                }
            }
        }
    }
}

/// Looks an export up by its name.
pub fn find_export(exports: &Vec<ExportInstance>, name: &String) -> (found: Option<ExternalValue>)
    ensures
        found == export_of(exports@, name@),
{
    let n: usize = exports.len();
    let mut i: usize = 0;
    while i < n
        invariant
            i <= n == exports@.len(),
            forall|j: int| 0 <= j < i ==> (#[trigger] exports@[j]).name@ != name@,
        decreases n - i,
    {
        if exports[i].name == *name {
            proof {
                lemma_export_position(exports@, name@);
                assert(exports@[i as int].name@ == name@);
            }
            return Some(exports[i].value);
        }
        i = i + 1;
    }
    proof {
        lemma_export_position(exports@, name@);
        if export_position(exports@, name@) is Some {
            let p = export_position(exports@, name@)->Some_0;
            assert(exports@[p].name@ != name@);
        }
    }
    None
}

impl DefinedModuleInstance {
    /// A module with these types, nothing exported and no start function.
    pub fn new(types: Vec<FuncType>) -> (module: DefinedModuleInstance)
        ensures
            module.types == types,
            module.exports@.len() == 0,
            module.start_func is None,
    {
        DefinedModuleInstance { types, exports: Vec::new(), start_func: None }
    }

    /// The type of index `index`, if the module has that many.
    pub fn get_type(&self, index: usize) -> (ty: Option<&FuncType>)
        ensures
            index < self.types@.len() ==> ty == Some(&self.types@[index as int]),
            index >= self.types@.len() ==> ty is None,
    {
        if index < self.types.len() {
            Some(&self.types[index])
        } else {
            None
        }
    }

    pub fn start_func_addr(&self) -> (addr: &Option<FuncAddr>)
        ensures
            *addr == self.start_func,
    {
        &self.start_func
    }

    /// The function exported as `name`: `None` where nothing has that name,
    /// an error where the export of that name is no function.
    pub fn exported_func(&self, name: &String) -> (r: Result<Option<FuncAddr>, Error>)
        ensures
            r == (match export_of(self.exports@, name@) {
                Some(ExternalValue::Func(addr)) => Ok(Some(addr)),
                Some(other) => Err(Error::TypeMismatch(other)),
                None => Ok(None),
            }),
    {
        match find_export(&self.exports, name) {
            Some(ExternalValue::Func(addr)) => Ok(Some(addr)),
            Some(other) => Err(Error::TypeMismatch(other)),
            None => Ok(None),
        }
    }

    /// The table exported as `name`.
    pub fn exported_table(&self, name: &String) -> (r: Result<Option<TableAddr>, Error>)
        ensures
            r == (match export_of(self.exports@, name@) {
                Some(ExternalValue::Table(addr)) => Ok(Some(addr)),
                Some(other) => Err(Error::TypeMismatch(other)),
                None => Ok(None),
            }),
    {
        match find_export(&self.exports, name) {
            Some(ExternalValue::Table(addr)) => Ok(Some(addr)),
            Some(other) => Err(Error::TypeMismatch(other)),
            None => Ok(None),
        }
    }

    /// The memory exported as `name`.
    pub fn exported_memory(&self, name: &String) -> (r: Result<Option<MemoryAddr>, Error>)
        ensures
            r == (match export_of(self.exports@, name@) {
                Some(ExternalValue::Memory(addr)) => Ok(Some(addr)),
                Some(other) => Err(Error::TypeMismatch(other)),
                None => Ok(None),
            }),
    {
        match find_export(&self.exports, name) {
            Some(ExternalValue::Memory(addr)) => Ok(Some(addr)),
            Some(other) => Err(Error::TypeMismatch(other)),
            None => Ok(None),
        }
    }

    /// The global exported as `name`.
    pub fn exported_global(&self, name: &String) -> (r: Result<Option<GlobalAddr>, Error>)
        ensures
            r == (match export_of(self.exports@, name@) {
                Some(ExternalValue::Global(addr)) => Ok(Some(addr)),
                Some(other) => Err(Error::TypeMismatch(other)),
                None => Ok(None),
            }),
    {
        match find_export(&self.exports, name) {
            Some(ExternalValue::Global(addr)) => Ok(Some(addr)),
            Some(other) => Err(Error::TypeMismatch(other)),
            None => Ok(None),
        }
    }
}

impl ModuleInstance {
    /// The module as a defined one, if it is.
    pub fn defined(&self) -> (m: Option<&DefinedModuleInstance>)
        ensures
            self matches ModuleInstance::Defined(d) ==> m == Some(d),
            self is Host ==> m is None,
    {
        match self {
            ModuleInstance::Defined(d) => Some(d),
            ModuleInstance::Host(_) => None,
        }
    }

    pub open spec fn spec_exports(&self) -> Seq<ExportInstance> {
        match self {
            ModuleInstance::Defined(d) => d.exports@,
            ModuleInstance::Host(h) => h.exports@,
        }
    }

    /// What the module exports as `name`.
    pub fn export(&self, name: &String) -> (found: Option<ExternalValue>)
        ensures
            found == export_of(self.spec_exports(), name@),
    {
        match self {
            ModuleInstance::Defined(d) => find_export(&d.exports, name),
            ModuleInstance::Host(h) => find_export(&h.exports, name),
        }
    }
}

} // verus!
