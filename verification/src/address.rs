//! Addresses: a module and an index into one of its index spaces.

use vstd::prelude::*;

verus! {

/// Identifies a module of a store. The store hands them out from 1 on, so
/// that none is zero.
#[derive(Clone, Copy, Debug, PartialEq, Eq, Hash, Structural)]
pub struct ModuleIndex(pub u32);

/// A function of a module, by its index in the module's function index space.
#[derive(Clone, Copy, Debug, PartialEq, Eq, Hash, Structural)]
pub struct FuncAddr(pub ModuleIndex, pub usize);

/// A table of a module.
#[derive(Clone, Copy, Debug, PartialEq, Eq, Hash, Structural)]
pub struct TableAddr(pub ModuleIndex, pub usize);

/// A memory of a module.
#[derive(Clone, Copy, Debug, PartialEq, Eq, Hash, Structural)]
pub struct MemoryAddr(pub ModuleIndex, pub usize);

/// A global of a module.
#[derive(Clone, Copy, Debug, PartialEq, Eq, Hash, Structural)]
pub struct GlobalAddr(pub ModuleIndex, pub usize);

/// A resolved function: its slot in the store's flat list of functions.
#[derive(Clone, Copy, Debug, PartialEq, Eq, Hash, Structural)]
pub struct ExecutableFuncAddr(pub usize);

impl FuncAddr {
    /// An address that nothing has resolved yet.
    pub fn new_unsafe(module: ModuleIndex, index: usize) -> (addr: FuncAddr)
        ensures
            addr == FuncAddr(module, index),
    {
        FuncAddr(module, index)
    }

    pub fn module_index(&self) -> (m: ModuleIndex)
        ensures
            m == self.0,
    {
        self.0
    }
}

impl TableAddr {
    /// An address that nothing has resolved yet.
    pub fn new_unsafe(module: ModuleIndex, index: usize) -> (addr: TableAddr)
        ensures
            addr == TableAddr(module, index),
    {
        TableAddr(module, index)
    }

    pub fn module_index(&self) -> (m: ModuleIndex)
        ensures
            m == self.0,
    {
        self.0
    }
}

impl MemoryAddr {
    /// An address that nothing has resolved yet.
    pub fn new_unsafe(module: ModuleIndex, index: usize) -> (addr: MemoryAddr)
        ensures
            addr == MemoryAddr(module, index),
    {
        MemoryAddr(module, index)
    }

    pub fn module_index(&self) -> (m: ModuleIndex)
        ensures
            m == self.0,
    {
        self.0
    }
}

impl GlobalAddr {
    /// An address that nothing has resolved yet.
    pub fn new_unsafe(module: ModuleIndex, index: usize) -> (addr: GlobalAddr)
        ensures
            addr == GlobalAddr(module, index),
    {
        GlobalAddr(module, index)
    }

    pub fn module_index(&self) -> (m: ModuleIndex)
        ensures
            m == self.0,
    {
        self.0
    }
}

} // verus!
