//! The store: every function, table, memory and global of every module in four
//! flat lists, and for each module the slots that its own indices stand for.
//!
//! An import is a redirection: the importing module's index leads to the slot
//! of the instance that the exporting module defined. No instance is held
//! twice.

use vstd::prelude::*;
use crate::address::{ExecutableFuncAddr, FuncAddr, GlobalAddr, MemoryAddr, ModuleIndex, TableAddr};
use crate::executor::{Trap, TrapView};
use crate::func::{DefinedFunctionInstance, FunctionInstance, HostFunctionInstance};
use crate::host::HostValue;
use crate::global::GlobalInstance;
use crate::memory::MemoryInstance;
use crate::module::{
    ExportInstance, ExternalValue, HostModuleInstance, LoadedModule, ModuleInstance,
};
use crate::table::DefinedTableInstance;

verus! {

/// The slot that index `index` of module `module` stands for.
pub open spec fn resolve_addr(rows: Seq<Vec<usize>>, module: ModuleIndex, index: usize) -> Option<
    usize,
> {
    if 1 <= module.0 <= rows.len() && index < rows[module.0 - 1]@.len() {
        Some(rows[module.0 - 1]@[index as int])
    } else {
        None
    }
}

/// A flat list of instances, and for each module the list of the slots that
/// its indices stand for. The row of module `m` is at position `m - 1`.
#[derive(Debug)]
pub struct LinkableCollection<T> {
    pub items: Vec<T>,
    pub item_addrs_by_module: Vec<Vec<usize>>,
}

impl<T> LinkableCollection<T> {
    /// A collection without instances and without rows.
    pub fn new() -> (c: LinkableCollection<T>)
        ensures
            c.items@.len() == 0,
            c.item_addrs_by_module@.len() == 0,
    {
        LinkableCollection { items: Vec::new(), item_addrs_by_module: Vec::new() }
    }

    /// The slot that `index` of `module` stands for, if the module has such an
    /// index and the slot holds an instance.
    pub open spec fn spec_resolve(&self, module: ModuleIndex, index: usize) -> Option<usize> {
        match resolve_addr(self.item_addrs_by_module@, module, index) {
            Some(slot) => if slot < self.items@.len() {
                Some(slot)
            } else {
                None
            },
            None => None,
        }
    }

    /// Resolves an index of a module to a slot of the flat list.
    pub fn resolve(&self, module: ModuleIndex, index: usize) -> (slot: Option<usize>)
        ensures
            slot == self.spec_resolve(module, index),
    {
        if module.0 == 0 {
            return None;
        }
        let row_at: usize = (module.0 - 1) as usize;
        if row_at >= self.item_addrs_by_module.len() {
            return None;
        }
        let row = &self.item_addrs_by_module[row_at];
        if index >= row.len() {
            return None;
        }
        let slot: usize = row[index];
        if slot < self.items.len() {
            Some(slot)
        } else {
            None
        }
    }

    /// The instance in slot `slot`.
    pub fn get_global(&self, slot: usize) -> (item: Option<&T>)
        ensures
            slot < self.items@.len() ==> item == Some(&self.items@[slot as int]),
            slot >= self.items@.len() ==> item is None,
    {
        if slot < self.items.len() {
            Some(&self.items[slot])
        } else {
            None
        }
    }

    /// The instance that `index` of `module` stands for, and its slot.
    pub fn get(&self, module: ModuleIndex, index: usize) -> (found: Option<(&T, usize)>)
        ensures
            found == (match self.spec_resolve(module, index) {
                Some(slot) => Some((&self.items@[slot as int], slot)),
                None => None,
            }),
    {
        match self.resolve(module, index) {
            Some(slot) => Some((&self.items[slot], slot)),
            None => None,
        }
    }

    /// How many indices module `module` has.
    pub open spec fn spec_row_len(&self, module: ModuleIndex) -> nat {
        if 1 <= module.0 <= self.item_addrs_by_module@.len() {
            self.item_addrs_by_module@[module.0 - 1]@.len()
        } else {
            0
        }
    }

    /// How many indices module `module` has.
    pub fn row_len(&self, module: ModuleIndex) -> (len: usize)
        ensures
            len == self.spec_row_len(module),
    {
        if module.0 == 0 {
            return 0;
        }
        let row_at: usize = (module.0 - 1) as usize;
        if row_at < self.item_addrs_by_module.len() {
            self.item_addrs_by_module[row_at].len()
        } else {
            0
        }
    }

    /// Takes from module `module` the indices from `len` on. The instances
    /// that they stood for stay in their slots.
    pub fn truncate_row(&mut self, module: ModuleIndex, len: usize)
        ensures
            final(self).items == old(self).items,
            final(self).item_addrs_by_module@.len() == old(self).item_addrs_by_module@.len(),
            forall|i: int|
                0 <= i < old(self).item_addrs_by_module@.len() ==> (#[trigger] final(self).item_addrs_by_module@[i])@ == (if i == module.0 - 1 && len <= old(self).item_addrs_by_module@[i]@.len() {
                    old(self).item_addrs_by_module@[i]@.subrange(0, len as int)
                } else {
                    old(self).item_addrs_by_module@[i]@
                }),
    {
        if module.0 == 0 {
            return ;
        }
        let row_at: usize = (module.0 - 1) as usize;
        if row_at < self.item_addrs_by_module.len() {
            self.item_addrs_by_module[row_at].truncate(len);
        }
    }

    /// Appends an instance that no module refers to yet, and returns its slot.
    pub fn push_global(&mut self, item: T) -> (slot: usize)
        ensures
            slot == old(self).items@.len(),
            final(self).items@ == old(self).items@.push(item),
            final(self).item_addrs_by_module == old(self).item_addrs_by_module,
    {
        let slot: usize = self.items.len();
        self.items.push(item);
        slot
    }

    /// The rows after `module` got one more index, which stands for `slot`.
    /// Modules up to `module` that had no row yet get an empty one.
    pub open spec fn linked(rows: Seq<Vec<usize>>, slot: usize, module: ModuleIndex) -> Seq<
        Seq<usize>,
    > {
        Seq::new(
            if rows.len() >= module.0 {
                rows.len()
            } else {
                module.0 as nat
            },
            |i: int|
                {
                    let row = if i < rows.len() {
                        rows[i]@
                    } else {
                        Seq::<usize>::empty()
                    };
                    if i == module.0 - 1 {
                        row.push(slot)
                    } else {
                        row
                    }
                },
        )
    }

    /// Gives `module` one more index, which stands for `slot`, and returns
    /// that index. Does nothing for the module index 0, which no module has.
    pub fn link(&mut self, slot: usize, module: ModuleIndex) -> (index: Option<usize>)
        ensures
            final(self).items == old(self).items,
            module.0 == 0 ==> index is None && final(self).item_addrs_by_module == old(self).item_addrs_by_module,
            module.0 != 0 ==> index == Some(
                (if module.0 <= old(self).item_addrs_by_module@.len() {
                    old(self).item_addrs_by_module@[module.0 - 1]@.len()
                } else {
                    0
                }) as usize,
            ) && final(self).item_addrs_by_module@.map_values(|r: Vec<usize>| r@) == Self::linked(
                old(self).item_addrs_by_module@,
                slot,
                module,
            ),
            module.0 != 0 ==> index->Some_0 == (if module.0 <= old(self).item_addrs_by_module@.len() {
                old(self).item_addrs_by_module@[module.0 - 1]@.len()
            } else {
                0
            }),
    {
        if module.0 == 0 {
            return None;
        }
        let row_at: usize = (module.0 - 1) as usize;
        while self.item_addrs_by_module.len() <= row_at
            invariant
                self.items == old(self).items,
                row_at == module.0 - 1,
                self.item_addrs_by_module@.len() >= old(self).item_addrs_by_module@.len(),
                self.item_addrs_by_module@.len() > old(self).item_addrs_by_module@.len()
                    ==> self.item_addrs_by_module@.len() <= module.0,
                forall|i: int|
                    0 <= i < self.item_addrs_by_module@.len() ==> (
                    #[trigger] self.item_addrs_by_module@[i])@ == (if i < old(self).item_addrs_by_module@.len() {
                        old(self).item_addrs_by_module@[i]@
                    } else {
                        Seq::<usize>::empty()
                    }),
            decreases row_at + 1 - self.item_addrs_by_module@.len(),
        {
            self.item_addrs_by_module.push(Vec::new());
        }
        let index: usize = self.item_addrs_by_module[row_at].len();
        let ghost before = self.item_addrs_by_module@;
        self.item_addrs_by_module[row_at].push(slot);
        proof {
            assert(self.item_addrs_by_module@.map_values(|r: Vec<usize>| r@) =~= Self::linked(
                old(self).item_addrs_by_module@,
                slot,
                module,
            ));
        }
        Some(index)
    }

    /// Appends an instance and gives `module` an index for it.
    pub fn push(&mut self, module: ModuleIndex, item: T) -> (index: Option<usize>)
        ensures
            final(self).items@ == old(self).items@.push(item),
            module.0 == 0 ==> index is None && final(self).item_addrs_by_module == old(self).item_addrs_by_module,
            module.0 != 0 ==> index == Some(
                (if module.0 <= old(self).item_addrs_by_module@.len() {
                    old(self).item_addrs_by_module@[module.0 - 1]@.len()
                } else {
                    0
                }) as usize,
            ) && final(self).item_addrs_by_module@.map_values(|r: Vec<usize>| r@) == Self::linked(
                old(self).item_addrs_by_module@,
                old(self).items@.len() as usize,
                module,
            ),
            old(self).items@.len() <= usize::MAX,
            module.0 != 0 ==> index is Some && extends(*old(self), *final(self)) && final(self).spec_resolve(module, index->Some_0) == Some(old(self).items@.len() as usize) && final(self).items@[old(self).items@.len() as int] == item,
    {
        let slot = self.push_global(item);
        let index = self.link(slot, module);
        proof {
            if module.0 != 0 {
                lemma_push_extends(*old(self), *self, item, module, index->Some_0);
            }
        }
        index
    }
}


/// Whether `after` holds all that `before` held, in the same slots and under
/// the same indices, and maybe more.
pub open spec fn extends<T>(before: LinkableCollection<T>, after: LinkableCollection<T>) -> bool {
    &&& before.items@.len() <= after.items@.len()
    &&& after.items@.subrange(0, before.items@.len() as int) == before.items@
    &&& forall|module: ModuleIndex, index: usize|
        (#[trigger] before.spec_resolve(module, index)) is Some ==> after.spec_resolve(module, index)
            == before.spec_resolve(module, index)
    &&& forall|module: ModuleIndex|
        before.spec_row_len(module) <= #[trigger] after.spec_row_len(module)
}

/// A collection holds all that it held before an instance was appended and
/// given an index, and the new index stands for the new instance.
pub proof fn lemma_push_extends<T>(
    before: LinkableCollection<T>,
    after: LinkableCollection<T>,
    item: T,
    module: ModuleIndex,
    index: usize,
)
    requires
        after.items@ == before.items@.push(item),
        before.items@.len() <= usize::MAX,
        module.0 != 0,
        index == (if module.0 <= before.item_addrs_by_module@.len() {
            before.item_addrs_by_module@[module.0 - 1]@.len()
        } else {
            0
        }),
        after.item_addrs_by_module@.map_values(|r: Vec<usize>| r@) == LinkableCollection::<T>::linked(
            before.item_addrs_by_module@,
            before.items@.len() as usize,
            module,
        ),
    ensures
        extends(before, after),
        after.spec_resolve(module, index) == Some(before.items@.len() as usize),
        after.items@[before.items@.len() as int] == item,
{
    let rows = after.item_addrs_by_module@.map_values(|r: Vec<usize>| r@);
    assert(rows.len() == after.item_addrs_by_module@.len());
    assert(after.items@.subrange(0, before.items@.len() as int) =~= before.items@);
    assert forall|m: ModuleIndex, i: usize| (#[trigger] before.spec_resolve(m, i)) is Some implies after.spec_resolve(
        m,
        i,
    ) == before.spec_resolve(m, i) by {
        assert(rows[m.0 - 1] == after.item_addrs_by_module@[m.0 - 1]@);
    }
    assert forall|m: ModuleIndex| before.spec_row_len(m) <= #[trigger] after.spec_row_len(m) by {
        if 1 <= m.0 <= before.item_addrs_by_module@.len() {
            assert(rows[m.0 - 1] == after.item_addrs_by_module@[m.0 - 1]@);
        }
    }
    assert(rows[module.0 - 1] == after.item_addrs_by_module@[module.0 - 1]@);
}

/// A collection holds all that it holds.
pub proof fn lemma_extends_refl<T>(a: LinkableCollection<T>)
    ensures
        extends(a, a),
{
    assert(a.items@.subrange(0, a.items@.len() as int) =~= a.items@);
}

/// `extends` is transitive.
pub proof fn lemma_extends_trans<T>(
    a: LinkableCollection<T>,
    b: LinkableCollection<T>,
    c: LinkableCollection<T>,
)
    requires
        extends(a, b),
        extends(b, c),
    ensures
        extends(a, c),
{
    assert(c.items@.subrange(0, a.items@.len() as int) =~= a.items@) by {
        assert forall|i: int| 0 <= i < a.items@.len() implies c.items@[i] == a.items@[i] by {
            assert(b.items@.subrange(0, a.items@.len() as int)[i] == a.items@[i]);
            assert(c.items@.subrange(0, b.items@.len() as int)[i] == b.items@[i]);
        }
    }
    assert forall|m: ModuleIndex| a.spec_row_len(m) <= #[trigger] c.spec_row_len(m) by {
        assert(a.spec_row_len(m) <= b.spec_row_len(m));
    }
}

/// The central owner of every runtime instance.
pub struct Store<H> {
    pub funcs: LinkableCollection<FunctionInstance<H>>,
    pub tables: LinkableCollection<DefinedTableInstance>,
    pub mems: LinkableCollection<MemoryInstance>,
    pub globals: LinkableCollection<GlobalInstance>,
    pub modules: Vec<LoadedModule>,
}

/// The position of the first module named `name`.
pub open spec fn name_position(modules: Seq<LoadedModule>, name: Seq<char>, from: int) -> Option<int>
    decreases modules.len() - from,
{
    if from < 0 || from >= modules.len() {
        None
    } else if modules[from].name matches Some(n) && n@ == name {
        Some(from)
    } else {
        name_position(modules, name, from + 1)
    }
}

impl<H> Store<H> {
    /// A store without modules.
    pub fn new() -> (store: Store<H>)
        ensures
            store.funcs.items@.len() == 0,
            store.tables.items@.len() == 0,
            store.mems.items@.len() == 0,
            store.globals.items@.len() == 0,
            store.funcs.item_addrs_by_module@.len() == 0,
            store.tables.item_addrs_by_module@.len() == 0,
            store.mems.item_addrs_by_module@.len() == 0,
            store.globals.item_addrs_by_module@.len() == 0,
            store.modules@.len() == 0,
    {
        Store {
            funcs: LinkableCollection::new(),
            tables: LinkableCollection::new(),
            mems: LinkableCollection::new(),
            globals: LinkableCollection::new(),
            modules: Vec::new(),
        }
    }

    /// The function in slot `addr`.
    pub fn func_global(&self, addr: ExecutableFuncAddr) -> (func: Option<&FunctionInstance<H>>)
        ensures
            addr.0 < self.funcs.items@.len() ==> func == Some(&self.funcs.items@[addr.0 as int]),
            addr.0 >= self.funcs.items@.len() ==> func is None,
    {
        self.funcs.get_global(addr.0)
    }

    /// The function that `addr` stands for, and its slot.
    pub fn func(&self, addr: FuncAddr) -> (found: Option<(&FunctionInstance<H>, ExecutableFuncAddr)>)
        ensures
            found == (match self.funcs.spec_resolve(addr.0, addr.1) {
                Some(slot) => Some((&self.funcs.items@[slot as int], ExecutableFuncAddr(slot))),
                None => None,
            }),
    {
        match self.funcs.get(addr.0, addr.1) {
            Some((func, slot)) => Some((func, ExecutableFuncAddr(slot))),
            None => None,
        }
    }

    /// The table that `addr` stands for.
    pub fn table(&self, addr: TableAddr) -> (found: Option<&DefinedTableInstance>)
        ensures
            found == (match self.tables.spec_resolve(addr.0, addr.1) {
                Some(slot) => Some(&self.tables.items@[slot as int]),
                None => None,
            }),
    {
        match self.tables.get(addr.0, addr.1) {
            Some((table, _)) => Some(table),
            None => None,
        }
    }

    /// The memory that `addr` stands for.
    pub fn memory(&self, addr: MemoryAddr) -> (found: Option<&MemoryInstance>)
        ensures
            found == (match self.mems.spec_resolve(addr.0, addr.1) {
                Some(slot) => Some(&self.mems.items@[slot as int]),
                None => None,
            }),
    {
        match self.mems.get(addr.0, addr.1) {
            Some((mem, _)) => Some(mem),
            None => None,
        }
    }

    /// The global that `addr` stands for.
    pub fn global(&self, addr: GlobalAddr) -> (found: Option<&GlobalInstance>)
        ensures
            found == (match self.globals.spec_resolve(addr.0, addr.1) {
                Some(slot) => Some(&self.globals.items@[slot as int]),
                None => None,
            }),
    {
        match self.globals.get(addr.0, addr.1) {
            Some((global, _)) => Some(global),
            None => None,
        }
    }

    /// The module of index `index`.
    pub fn module(&self, index: ModuleIndex) -> (found: Option<&ModuleInstance>)
        ensures
            1 <= index.0 <= self.modules@.len() ==> found == Some(
                &self.modules@[index.0 - 1].instance,
            ),
            !(1 <= index.0 <= self.modules@.len()) ==> found is None,
    {
        if index.0 == 0 {
            return None;
        }
        let at: usize = (index.0 - 1) as usize;
        if at < self.modules.len() {
            Some(&self.modules[at].instance)
        } else {
            None
        }
    }

    /// The index that the next module will get, unless the store is full.
    pub fn next_module_index(&self) -> (index: Option<ModuleIndex>)
        ensures
            self.modules@.len() < u32::MAX ==> index == Some(
                ModuleIndex((self.modules@.len() + 1) as u32),
            ),
            self.modules@.len() >= u32::MAX ==> index is None,
    {
        let n: usize = self.modules.len();
        if n < u32::MAX as usize {
            Some(ModuleIndex((n + 1) as u32))
        } else {
            None
        }
    }

    /// Adds a module under an optional name and returns its index; does
    /// nothing where the store is full.
    pub fn add_module(&mut self, name: Option<String>, module: ModuleInstance) -> (index: Option<
        ModuleIndex,
    >)
        ensures
            final(self).funcs == old(self).funcs,
            final(self).tables == old(self).tables,
            final(self).mems == old(self).mems,
            final(self).globals == old(self).globals,
            old(self).modules@.len() < u32::MAX ==> index == Some(
                ModuleIndex((old(self).modules@.len() + 1) as u32),
            ) && final(self).modules@ == old(self).modules@.push(
                LoadedModule { name, instance: module },
            ),
            old(self).modules@.len() >= u32::MAX ==> index is None && final(self).modules == old(self).modules,
    {
        match self.next_module_index() {
            Some(index) => {
                self.modules.push(LoadedModule { name, instance: module });
                Some(index)
            },
            None => None,
        }
    }

    /// The index of the first module that was added under the name `name`.
    pub fn module_by_name(&self, name: &String) -> (index: Option<ModuleIndex>)
        ensures
            index == (match name_position(self.modules@, name@, 0) {
                Some(p) => if p < u32::MAX {
                    Some(ModuleIndex((p + 1) as u32))
                } else {
                    None
                },
                None => None,
            }),
    {
        let n: usize = self.modules.len();
        let mut i: usize = 0;
        while i < n
            invariant
                i <= n == self.modules@.len(),
                name_position(self.modules@, name@, 0) == name_position(
                    self.modules@,
                    name@,
                    i as int,
                ),
            decreases n - i,
        {
            let hit = match &self.modules[i].name {
                Some(n) => *n == *name,
                None => false,
            };
            if hit {
                if i < u32::MAX as usize {
                    return Some(ModuleIndex((i + 1) as u32));
                } else {
                    return None;
                }
            }
            i = i + 1;
        }
        None
    }
}

/// Whether the export `value` of the host module `module` stands for the
/// host value `host` that was given under the name `field`.
pub open spec fn holds_host_value<H>(
    store: Store<H>,
    module: ModuleIndex,
    module_name: Seq<char>,
    field: String,
    host: HostValue<H>,
    value: ExternalValue,
) -> bool {
    match (host, value) {
        (HostValue::Func(ty, code), ExternalValue::Func(addr)) => addr.0 == module && (
        match store.funcs.spec_resolve(module, addr.1) {
            Some(slot) => match store.funcs.items@[slot as int] {
                FunctionInstance::Host(f) => f.ty == ty && f.code == code && f.field_name == field
                    && f.module_name@ == module_name,
                _ => false,
            },
            None => false,
        }),
        (HostValue::Global(g), ExternalValue::Global(addr)) => addr.0 == module && (
        match store.globals.spec_resolve(module, addr.1) {
            Some(slot) => store.globals.items@[slot as int] == g,
            None => false,
        }),
        (HostValue::Mem(mem), ExternalValue::Memory(addr)) => addr.0 == module && (
        match store.mems.spec_resolve(module, addr.1) {
            Some(slot) => store.mems.items@[slot as int] == mem,
            None => false,
        }),
        (HostValue::Table(table), ExternalValue::Table(addr)) => addr.0 == module && (
        match store.tables.spec_resolve(module, addr.1) {
            Some(slot) => store.tables.items@[slot as int] == table,
            None => false,
        }),
        _ => false,
    }
}

/// Whether every instance of `before` is in `after`, in its slot and under
/// its indices.
pub open spec fn store_extends<H>(before: Store<H>, after: Store<H>) -> bool {
    &&& extends(before.funcs, after.funcs)
    &&& extends(before.tables, after.tables)
    &&& extends(before.mems, after.mems)
    &&& extends(before.globals, after.globals)
}

/// An export that stands for a host value still does after the store has
/// got more instances.
pub proof fn lemma_host_value_kept<H>(
    before: Store<H>,
    after: Store<H>,
    module: ModuleIndex,
    module_name: Seq<char>,
    field: String,
    host: HostValue<H>,
    value: ExternalValue,
)
    requires
        store_extends(before, after),
        holds_host_value(before, module, module_name, field, host, value),
    ensures
        holds_host_value(after, module, module_name, field, host, value),
{
    match value {
        ExternalValue::Func(addr) => {
            let slot = before.funcs.spec_resolve(module, addr.1)->Some_0;
            assert(after.funcs.items@.subrange(0, before.funcs.items@.len() as int)[slot as int]
                == before.funcs.items@[slot as int]);
        },
        ExternalValue::Global(addr) => {
            let slot = before.globals.spec_resolve(module, addr.1)->Some_0;
            assert(after.globals.items@.subrange(0, before.globals.items@.len() as int)[slot as int]
                == before.globals.items@[slot as int]);
        },
        ExternalValue::Memory(addr) => {
            let slot = before.mems.spec_resolve(module, addr.1)->Some_0;
            assert(after.mems.items@.subrange(0, before.mems.items@.len() as int)[slot as int]
                == before.mems.items@[slot as int]);
        },
        ExternalValue::Table(addr) => {
            let slot = before.tables.spec_resolve(module, addr.1)->Some_0;
            assert(after.tables.items@.subrange(0, before.tables.items@.len() as int)[slot as int]
                == before.tables.items@[slot as int]);
        },
    }
}

impl<H> Store<H> {
    /// Adds a module of host values under the name `name`: each value goes
    /// into the store, and the module exports it under the name it was given
    /// with. Does nothing where the store is full.
    pub fn load_host_module(&mut self, name: String, module: Vec<(String, HostValue<H>)>) -> (index:
        Option<ModuleIndex>)
        ensures
            old(self).modules@.len() >= u32::MAX ==> index is None && *final(self) == *old(self),
            old(self).modules@.len() < u32::MAX ==> {
                &&& index == Some(ModuleIndex((old(self).modules@.len() + 1) as u32))
                &&& store_extends(*old(self), *final(self))
                &&& final(self).modules@.len() == old(self).modules@.len() + 1
                &&& final(self).modules@.subrange(0, old(self).modules@.len() as int) == old(self).modules@
                &&& final(self).modules@.last().name == Some(name)
                &&& final(self).modules@.last().instance is Host
                &&& final(self).modules@.last().instance.spec_exports().len() == module@.len()
                &&& forall|i: int|
                    0 <= i < module@.len() ==> (#[trigger] final(self).modules@.last().instance.spec_exports()[i]).name == module@[i].0
                        && holds_host_value(
                        *final(self),
                        index->Some_0,
                        name@,
                        module@[i].0,
                        module@[i].1,
                        final(self).modules@.last().instance.spec_exports()[i].value,
                    )
            },
    {
        let module_index = match self.next_module_index() {
            Some(module_index) => module_index,
            None => {
                return None;
            },
        };
        let ghost given = module@;
        let n: usize = module.len();
        let mut module = module;
        let mut exports: Vec<ExportInstance> = Vec::new();
        let mut i: usize = 0;
        proof {
            lemma_extends_refl(self.funcs);
            lemma_extends_refl(self.tables);
            lemma_extends_refl(self.mems);
            lemma_extends_refl(self.globals);
            assert(module@ =~= given.subrange(0, n as int));
        }
        while i < n
            invariant
                i <= n == given.len(),
                module_index.0 >= 1,
                module@ == given.subrange(i as int, n as int),
                self.modules == old(self).modules,
                store_extends(*old(self), *self),
                exports@.len() == i,
                forall|j: int|
                    0 <= j < i ==> (#[trigger] exports@[j]).name == given[j].0 && holds_host_value(
                        *self,
                        module_index,
                        name@,
                        given[j].0,
                        given[j].1,
                        exports@[j].value,
                    ),
            decreases n - i,
        {
            let ghost before = *self;
            let ghost done = exports@;
            let (field, value) = module.remove(0);
            proof {
                assert(module@ =~= given.subrange(i + 1, n as int));
                assert(given.subrange(i as int, n as int)[0] == given[i as int]);
            }
            let export_name = field.clone();
            let exported = match value {
                HostValue::Func(ty, code) => {
                    let func = FunctionInstance::Host(
                        HostFunctionInstance {
                            ty,
                            module_name: name.clone(),
                            field_name: field,
                            code,
                        },
                    );
                    let index = self.funcs.push(module_index, func);
                    ExternalValue::Func(FuncAddr(module_index, unwrap_index(index)))
                },
                HostValue::Global(global) => {
                    let index = self.globals.push(module_index, global);
                    ExternalValue::Global(GlobalAddr(module_index, unwrap_index(index)))
                },
                HostValue::Mem(mem) => {
                    let index = self.mems.push(module_index, mem);
                    ExternalValue::Memory(MemoryAddr(module_index, unwrap_index(index)))
                },
                HostValue::Table(table) => {
                    let index = self.tables.push(module_index, table);
                    ExternalValue::Table(TableAddr(module_index, unwrap_index(index)))
                },
            };
            exports.push(ExportInstance { name: export_name, value: exported });
            proof {
                lemma_extends_refl(before.funcs);
                lemma_extends_refl(before.tables);
                lemma_extends_refl(before.mems);
                lemma_extends_refl(before.globals);
                assert(store_extends(before, *self));
                lemma_extends_trans(old(self).funcs, before.funcs, self.funcs);
                lemma_extends_trans(old(self).tables, before.tables, self.tables);
                lemma_extends_trans(old(self).mems, before.mems, self.mems);
                lemma_extends_trans(old(self).globals, before.globals, self.globals);
                assert forall|j: int| 0 <= j < i + 1 implies (#[trigger] exports@[j]).name
                    == given[j].0 && holds_host_value(
                    *self,
                    module_index,
                    name@,
                    given[j].0,
                    given[j].1,
                    exports@[j].value,
                ) by {
                    if j < i {
                        assert(exports@[j] == done[j]);
                        lemma_host_value_kept(
                            before,
                            *self,
                            module_index,
                            name@,
                            given[j].0,
                            given[j].1,
                            done[j].value,
                        );
                    }
                }
            }
            i = i + 1;
        }
        let added = self.add_module(Some(name), ModuleInstance::Host(HostModuleInstance { exports }));
        proof {
            assert(self.modules@.subrange(0, old(self).modules@.len() as int) =~= old(self).modules@);
        }
        added
    }
}

/// One of two things.
#[derive(Debug)]
pub enum Either<L, R> {
    Left(L),
    Right(R),
}

/// The function that `addr` stands for: a defined function with its slot, or
/// the body of a host function, which a caller may call without an executor.
/// Fails with `UndefinedFunc` where nothing stands behind the address.
pub fn resolve_func_addr<'a, H>(addr: FuncAddr, store: &'a Store<H>) -> (r: Result<
    Either<(ExecutableFuncAddr, &'a DefinedFunctionInstance), &'a H>,
    Trap,
>)
    ensures
        match store.funcs.spec_resolve(addr.0, addr.1) {
            None => r matches Err(t) && t@ == TrapView::UndefinedFunc(addr.1),
            Some(slot) => match store.funcs.items@[slot as int] {
                FunctionInstance::Defined(f) => r matches Ok(Either::Left((exec_addr, func)))
                    && exec_addr == ExecutableFuncAddr(slot) && *func == f,
                FunctionInstance::Host(f) => r matches Ok(Either::Right(code)) && *code == f.code,
            },
        },
{
    match store.func(addr) {
        Some((FunctionInstance::Defined(func), exec_addr)) => Ok(Either::Left((exec_addr, func))),
        Some((FunctionInstance::Host(func), _)) => Ok(Either::Right(&func.code)),
        None => Err(Trap::UndefinedFunc(addr.1)),
    }
}

/// The index that a collection gave; 0 where it gave none, which it does
/// only for the module index 0.
fn unwrap_index(index: Option<usize>) -> (i: usize)
    ensures
        index matches Some(x) ==> i == x,
{
    match index {
        Some(i) => i,
        None => 0,
    }
}

} // verus!
