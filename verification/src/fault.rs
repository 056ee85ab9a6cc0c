//! When the loading of a module fails, and with which error.
//!
//! The steps of loading are taken in their order, and each step takes the
//! parts of the module in theirs; the first fault that is met is the error.
//! What a step reads of the store it reads of the store as it was before the
//! loading, and of the rows that the module has got by then.

use vstd::prelude::*;
use crate::address::ModuleIndex;
use crate::decoded::{
    DataSegment, ElementSegment, FuncBody, GlobalEntry, Import, ImportDesc, Limits, Module,
};
use crate::executor::ConstExprError;
use crate::func::FuncType;
use crate::inst::{Instruction, InstructionKind};
use crate::loader::{Error, Kind};
use crate::memory;
use crate::memory::{MAX_PAGES, PAGE_SIZE};
use crate::module::{export_of, ExternalValue};
use crate::store::{name_position, LinkableCollection, Store};
use crate::table;
use crate::value::{u32_of, Value};

verus! {

/// The slots that the indices of module `module` stand for, in their order;
/// none for a module without a row.
pub open spec fn row_of<T>(c: LinkableCollection<T>, module: ModuleIndex) -> Seq<usize> {
    if 1 <= module.0 <= c.item_addrs_by_module@.len() {
        c.item_addrs_by_module@[module.0 - 1]@
    } else {
        Seq::<usize>::empty()
    }
}

/// Resolution reads the row of the module: an index stands for the slot at
/// its place in the row, where that slot holds an instance.
pub proof fn lemma_resolve_row<T>(c: LinkableCollection<T>, module: ModuleIndex, index: usize)
    ensures
        c.spec_resolve(module, index) == (if index < row_of(c, module).len() && row_of(
            c,
            module,
        )[index as int] < c.items@.len() {
            Some(row_of(c, module)[index as int])
        } else {
            None
        }),
        c.spec_row_len(module) == row_of(c, module).len(),
{
}

/// Whether every module but `module` has the row in `after` that it has in
/// `before`.
pub open spec fn others_same<T>(
    before: LinkableCollection<T>,
    after: LinkableCollection<T>,
    module: ModuleIndex,
) -> bool {
    forall|e: ModuleIndex| e != module ==> #[trigger] row_of(after, e) == row_of(before, e)
}

/// Whether the row of `module` in `after` is its row in `before` with the
/// slots `added` after it, and every other row is as it was.
pub open spec fn row_grew<T>(
    before: LinkableCollection<T>,
    after: LinkableCollection<T>,
    module: ModuleIndex,
    added: Seq<usize>,
) -> bool {
    row_of(after, module) == row_of(before, module) + added && others_same(before, after, module)
}

/// A row that grew twice grew by both.
pub proof fn lemma_row_grew<T>(
    a: LinkableCollection<T>,
    b: LinkableCollection<T>,
    c: LinkableCollection<T>,
    module: ModuleIndex,
    first: Seq<usize>,
    second: Seq<usize>,
)
    requires
        row_grew(a, b, module, first),
        row_grew(b, c, module, second),
    ensures
        row_grew(a, c, module, first + second),
{
    assert(row_of(a, module) + (first + second) =~= (row_of(a, module) + first) + second);
    assert forall|e: ModuleIndex| e != module implies #[trigger] row_of(c, e) == row_of(a, e) by {
        assert(row_of(b, e) == row_of(a, e));
    }
}

/// A row is itself grown by nothing.
pub proof fn lemma_row_same<T>(a: LinkableCollection<T>, module: ModuleIndex)
    ensures
        row_grew(a, a, module, Seq::<usize>::empty()),
{
    assert(row_of(a, module) + Seq::<usize>::empty() =~= row_of(a, module));
}

/// The rows of a collection after `module` got an index for `slot`.
pub proof fn lemma_link_rows<T>(
    before: LinkableCollection<T>,
    after: LinkableCollection<T>,
    slot: usize,
    module: ModuleIndex,
)
    requires
        module.0 != 0,
        after.item_addrs_by_module@.map_values(|r: Vec<usize>| r@) == LinkableCollection::<T>::linked(
            before.item_addrs_by_module@,
            slot,
            module,
        ),
    ensures
        row_grew(before, after, module, seq![slot]),
{
    let rows = after.item_addrs_by_module@.map_values(|r: Vec<usize>| r@);
    assert(rows.len() == after.item_addrs_by_module@.len());
    assert(rows[module.0 - 1] == after.item_addrs_by_module@[module.0 - 1]@);
    assert(row_of(after, module) =~= row_of(before, module) + seq![slot]);
    assert forall|e: ModuleIndex| e != module implies #[trigger] row_of(after, e) == row_of(
        before,
        e,
    ) by {
        if 1 <= e.0 <= after.item_addrs_by_module@.len() {
            assert(rows[e.0 - 1] == after.item_addrs_by_module@[e.0 - 1]@);
        }
    }
}

/// What import `at` adds to the module's row of kind `kind`.
pub open spec fn import_adds<H>(
    store: Store<H>,
    loading: ModuleIndex,
    types: Seq<FuncType>,
    import: Import,
    at: usize,
    kind: Kind,
) -> Seq<usize> {
    match import_check(store, loading, types, import, at) {
        Ok((k, slot)) => if k == kind {
            seq![slot]
        } else {
            Seq::<usize>::empty()
        },
        Err(_) => Seq::<usize>::empty(),
    }
}

/// Whether two stores give every import the same: they hold the same
/// modules and the same instances, and all rows but those of the module that
/// is being loaded are the same.
pub open spec fn same_for_imports<H>(a: Store<H>, b: Store<H>, loading: ModuleIndex) -> bool {
    &&& a.modules == b.modules
    &&& a.funcs.items == b.funcs.items
    &&& a.tables.items == b.tables.items
    &&& a.mems.items == b.mems.items
    &&& a.globals.items == b.globals.items
    &&& others_same(a.funcs, b.funcs, loading)
    &&& others_same(a.tables, b.tables, loading)
    &&& others_same(a.mems, b.mems, loading)
    &&& others_same(a.globals, b.globals, loading)
}

/// An import finds the same in two stores that give every import the same.
pub proof fn lemma_import_check_same<H>(
    a: Store<H>,
    b: Store<H>,
    loading: ModuleIndex,
    types: Seq<FuncType>,
    import: Import,
    at: usize,
)
    requires
        same_for_imports(a, b, loading),
    ensures
        import_check(b, loading, types, import, at) == import_check(a, loading, types, import, at),
{
    assert forall|module: ModuleIndex, index: usize| module != loading implies (
    #[trigger] b.funcs.spec_resolve(module, index)) == a.funcs.spec_resolve(module, index) by {
        lemma_resolve_row(a.funcs, module, index);
        lemma_resolve_row(b.funcs, module, index);
        assert(row_of(b.funcs, module) == row_of(a.funcs, module));
    }
    assert forall|module: ModuleIndex, index: usize| module != loading implies (
    #[trigger] b.tables.spec_resolve(module, index)) == a.tables.spec_resolve(module, index) by {
        lemma_resolve_row(a.tables, module, index);
        lemma_resolve_row(b.tables, module, index);
        assert(row_of(b.tables, module) == row_of(a.tables, module));
    }
    assert forall|module: ModuleIndex, index: usize| module != loading implies (
    #[trigger] b.mems.spec_resolve(module, index)) == a.mems.spec_resolve(module, index) by {
        lemma_resolve_row(a.mems, module, index);
        lemma_resolve_row(b.mems, module, index);
        assert(row_of(b.mems, module) == row_of(a.mems, module));
    }
    assert forall|module: ModuleIndex, index: usize| module != loading implies (
    #[trigger] b.globals.spec_resolve(module, index)) == a.globals.spec_resolve(module, index) by {
        lemma_resolve_row(a.globals, module, index);
        lemma_resolve_row(b.globals, module, index);
        assert(row_of(b.globals, module) == row_of(a.globals, module));
    }
}

/// The slot that an address found by an import stands for. An address of
/// the module that is being loaded stands for nothing: a module imports
/// from the modules that are in the store.
pub open spec fn exported_slot<T>(
    c: LinkableCollection<T>,
    loading: ModuleIndex,
    module: ModuleIndex,
    index: usize,
) -> Option<usize> {
    if module == loading {
        None
    } else {
        c.spec_resolve(module, index)
    }
}

/// What import `at` links: the kind of thing and its slot; or the fault of
/// the import. The faults, in the order in which they are looked for: no
/// module of the name; no export of the name; an export of another kind; an
/// address that stands for nothing; for a function, a type index that the
/// module does not have, then a type other than the function's; for a
/// global, a type other than the global's.
pub open spec fn import_check<H>(
    store: Store<H>,
    loading: ModuleIndex,
    types: Seq<FuncType>,
    import: Import,
    at: usize,
) -> Result<(Kind, usize), Error> {
    match name_position(store.modules@, import.module@, 0) {
        None => Err(Error::UnknownImportModule(at)),
        Some(p) => if p >= u32::MAX || p >= store.modules@.len() {
            Err(Error::UnknownImportModule(at))
        } else {
            match export_of(store.modules@[p].instance.spec_exports(), import.field@) {
                None => Err(Error::UnknownImportField(at)),
                Some(value) => match (import.desc, value) {
                    (ImportDesc::Func(type_index), ExternalValue::Func(addr)) => match exported_slot(
                        store.funcs,
                        loading,
                        addr.0,
                        addr.1,
                    ) {
                        None => Err(Error::UnknownImportField(at)),
                        Some(slot) => if type_index >= types.len() {
                            Err(Error::UnknownType(at))
                        } else if store.funcs.items@[slot as int].spec_ty()@
                            != types[type_index as int]@ {
                            Err(Error::IncompatibleImportFuncType(at))
                        } else {
                            Ok((Kind::Func, slot))
                        },
                    },
                    (ImportDesc::Table(_), ExternalValue::Table(addr)) => match exported_slot(
                        store.tables,
                        loading,
                        addr.0,
                        addr.1,
                    ) {
                        None => Err(Error::UnknownImportField(at)),
                        Some(slot) => Ok((Kind::Table, slot)),
                    },
                    (ImportDesc::Memory(_), ExternalValue::Memory(addr)) => match exported_slot(
                        store.mems,
                        loading,
                        addr.0,
                        addr.1,
                    ) {
                        None => Err(Error::UnknownImportField(at)),
                        Some(slot) => Ok((Kind::Memory, slot)),
                    },
                    (ImportDesc::Global(ty), ExternalValue::Global(addr)) => match exported_slot(
                        store.globals,
                        loading,
                        addr.0,
                        addr.1,
                    ) {
                        None => Err(Error::UnknownImportField(at)),
                        Some(slot) => if store.globals.items@[slot as int].spec_ty() != ty {
                            Err(Error::IncompatibleImportGlobalType(at))
                        } else {
                            Ok((Kind::Global, slot))
                        },
                    },
                    _ => Err(Error::IncompatibleImportKind(at)),
                },
            }
        },
    }
}

/// The first fault among the first `n` imports.
pub open spec fn imports_fault<H>(
    store: Store<H>,
    loading: ModuleIndex,
    types: Seq<FuncType>,
    imports: Seq<Import>,
    n: int,
) -> Option<Error>
    decreases n,
{
    if n <= 0 {
        None
    } else {
        match imports_fault(store, loading, types, imports, n - 1) {
            Some(e) => Some(e),
            None => match import_check(store, loading, types, imports[n - 1], (n - 1) as usize) {
                Err(e) => Some(e),
                Ok(_) => None,
            },
        }
    }
}

/// The slots that the first `n` imports link of kind `kind`, in their order.
pub open spec fn import_row<H>(
    store: Store<H>,
    loading: ModuleIndex,
    types: Seq<FuncType>,
    imports: Seq<Import>,
    n: int,
    kind: Kind,
) -> Seq<usize>
    decreases n,
{
    if n <= 0 {
        Seq::<usize>::empty()
    } else {
        let before = import_row(store, loading, types, imports, n - 1, kind);
        match import_check(store, loading, types, imports[n - 1], (n - 1) as usize) {
            Ok((k, slot)) => if k == kind {
                before.push(slot)
            } else {
                before
            },
            Err(_) => before,
        }
    }
}

/// The first fault among the first `n` functions: a type index that the
/// module does not have.
pub open spec fn functions_fault(types: nat, functions: Seq<FuncBody>, n: int) -> Option<Error>
    decreases n,
{
    if n <= 0 {
        None
    } else {
        match functions_fault(types, functions, n - 1) {
            Some(e) => Some(e),
            None => if functions[n - 1].type_index >= types {
                Some(Error::UnknownType((n - 1) as usize))
            } else {
                None
            },
        }
    }
}

/// Whether limits are those of a memory: no more pages than a memory can
/// have or a `usize` can address, and no more than the maximum.
pub open spec fn memory_limits_valid(limits: Limits) -> bool {
    &&& limits.initial <= MAX_PAGES
    &&& limits.initial <= usize::MAX / PAGE_SIZE
    &&& limits.maximum matches Some(m) ==> limits.initial <= m
}

/// The first fault among the first `n` memories: limits that are not those
/// of a memory.
pub open spec fn memories_fault(memories: Seq<Limits>, n: int) -> Option<Error>
    decreases n,
{
    if n <= 0 {
        None
    } else {
        match memories_fault(memories, n - 1) {
            Some(e) => Some(e),
            None => if !memory_limits_valid(memories[n - 1]) {
                Some(Error::InvalidMemoryLimits((n - 1) as usize))
            } else {
                None
            },
        }
    }
}

/// The slot of the global that a constant expression of the module reads by
/// index `index`: that at its place in `row`, the module's row of globals
/// after its imports, where the store held that global before the loading.
pub open spec fn imported_global<H>(store: Store<H>, row: Seq<usize>, index: usize) -> Option<usize> {
    if index < row.len() && row[index as int] < store.globals.items@.len() {
        Some(row[index as int])
    } else {
        None
    }
}

/// The value of a constant expression of a module that is being loaded: that
/// of its first instruction, which is a constant or the `global.get` of an
/// immutable global that the module imports.
pub open spec fn const_value<H>(store: Store<H>, row: Seq<usize>, expr: Seq<Instruction>) -> Result<
    Value,
    ConstExprError,
> {
    if expr.len() == 0 {
        Err(ConstExprError::Empty)
    } else {
        match expr[0].kind {
            InstructionKind::I32Const { value } => Ok(Value::I32(value)),
            InstructionKind::I64Const { value } => Ok(Value::I64(value)),
            InstructionKind::F32Const { bits } => Ok(Value::F32(bits)),
            InstructionKind::F64Const { bits } => Ok(Value::F64(bits)),
            InstructionKind::GlobalGet { global_index } => match imported_global(
                store,
                row,
                global_index as usize,
            ) {
                None => Err(ConstExprError::UndefinedGlobal(global_index as usize)),
                Some(slot) => if store.globals.items@[slot as int].spec_ty().mutable {
                    Err(ConstExprError::MutableGlobal(global_index as usize))
                } else {
                    Ok(store.globals.items@[slot as int].spec_value())
                },
            },
            _ => Err(ConstExprError::NotConstant),
        }
    }
}

/// The fault of one global: an initial value that is no constant expression,
/// or one of another type than the global's.
pub open spec fn global_fault<H>(store: Store<H>, row: Seq<usize>, entry: GlobalEntry, at: usize) -> Option<
    Error,
> {
    match const_value(store, row, entry.init_expr@) {
        Err(e) => Some(Error::InvalidGlobalInit(at, e)),
        Ok(v) => if v.value_type() != entry.ty.content_type {
            Some(Error::GlobalTypeMismatch(at))
        } else {
            None
        },
    }
}

/// The first fault among the first `n` globals.
pub open spec fn globals_fault<H>(store: Store<H>, row: Seq<usize>, globals: Seq<GlobalEntry>, n: int) -> Option<
    Error,
>
    decreases n,
{
    if n <= 0 {
        None
    } else {
        match globals_fault(store, row, globals, n - 1) {
            Some(e) => Some(e),
            None => global_fault(store, row, globals[n - 1], (n - 1) as usize),
        }
    }
}

/// The offset of a segment: the value of its constant expression, which
/// must be of type `i32`, read as unsigned.
pub open spec fn offset_value<H>(store: Store<H>, row: Seq<usize>, expr: Seq<Instruction>) -> Result<
    usize,
    Error,
> {
    match const_value(store, row, expr) {
        Ok(Value::I32(v)) => Ok(u32_of(v) as usize),
        _ => Err(Error::InvalidOffset),
    }
}

/// The slot that index `index` of the module that is being loaded stands
/// for, in a row `row` of a collection of `items` instances.
pub open spec fn own_slot(row: Seq<usize>, items: nat, index: usize) -> Option<usize> {
    if index < row.len() && row[index as int] < items {
        Some(row[index as int])
    } else {
        None
    }
}

/// The row of the module after it has defined `defined` instances of its
/// own: the row after its imports, then the slots from `items` on.
pub open spec fn full_row(row: Seq<usize>, items: nat, defined: nat) -> Seq<usize> {
    row + Seq::new(defined, |j: int| (items + j) as usize)
}

/// The number of slots of the table in slot `slot`: that of the table as the
/// store held it, or the initial size of a table that the module defines.
pub open spec fn table_len_of<H>(store: Store<H>, tables: Seq<Limits>, slot: usize) -> nat {
    if slot < store.tables.items@.len() {
        store.tables.items@[slot as int]@.len()
    } else {
        tables[slot - store.tables.items@.len()].initial as nat
    }
}

/// The number of bytes of the memory in slot `slot`.
pub open spec fn memory_len_of<H>(store: Store<H>, memories: Seq<Limits>, slot: usize) -> nat {
    if slot < store.mems.items@.len() {
        store.mems.items@[slot as int]@.len()
    } else {
        (memories[slot - store.mems.items@.len()].initial * PAGE_SIZE) as nat
    }
}

/// The error of writing `count` entries at `offset` into `len` slots or
/// bytes where they do not fit: the end that was asked for, as far as a
/// `usize` holds it, and the length.
pub open spec fn end_of(offset: usize, count: nat) -> Option<usize> {
    if offset + count <= usize::MAX {
        Some((offset + count) as usize)
    } else {
        None
    }
}

/// The fault of one element segment: an offset that is no constant `i32`; a
/// table that the module does not have; members that do not fit the table.
pub open spec fn element_fault<H>(
    store: Store<H>,
    globals_row: Seq<usize>,
    tables_row: Seq<usize>,
    tables: Seq<Limits>,
    segment: ElementSegment,
    at: usize,
) -> Option<Error> {
    match offset_value(store, globals_row, segment.offset@) {
        Err(e) => Some(e),
        Ok(offset) => match own_slot(
            tables_row,
            store.tables.items@.len() + tables.len(),
            segment.table_index as usize,
        ) {
            None => Some(Error::UndefinedTable(at)),
            Some(slot) => if offset + segment.members@.len() > table_len_of(store, tables, slot) {
                Some(
                    Error::InvalidElementSegments(
                        table::Error::AccessOutOfBounds(
                            end_of(offset, segment.members@.len()),
                            table_len_of(store, tables, slot) as usize,
                        ),
                    ),
                )
            } else {
                None
            },
        },
    }
}

/// The first fault among the first `n` element segments.
pub open spec fn elements_fault<H>(
    store: Store<H>,
    globals_row: Seq<usize>,
    tables_row: Seq<usize>,
    tables: Seq<Limits>,
    elements: Seq<ElementSegment>,
    n: int,
) -> Option<Error>
    decreases n,
{
    if n <= 0 {
        None
    } else {
        match elements_fault(store, globals_row, tables_row, tables, elements, n - 1) {
            Some(e) => Some(e),
            None => element_fault(
                store,
                globals_row,
                tables_row,
                tables,
                elements[n - 1],
                (n - 1) as usize,
            ),
        }
    }
}

/// The fault of one data segment: an offset that is no constant `i32`; a
/// memory that the module does not have; bytes that do not fit the memory.
pub open spec fn datum_fault<H>(
    store: Store<H>,
    globals_row: Seq<usize>,
    mems_row: Seq<usize>,
    memories: Seq<Limits>,
    segment: DataSegment,
    at: usize,
) -> Option<Error> {
    match offset_value(store, globals_row, segment.offset@) {
        Err(e) => Some(e),
        Ok(offset) => match own_slot(
            mems_row,
            store.mems.items@.len() + memories.len(),
            segment.memory_index as usize,
        ) {
            None => Some(Error::UndefinedMemory(at)),
            Some(slot) => if offset + segment.value@.len() > memory_len_of(store, memories, slot) {
                Some(
                    Error::InvalidDataSegments(
                        memory::Error::OutOfBounds(
                            end_of(offset, segment.value@.len()),
                            memory_len_of(store, memories, slot) as usize,
                        ),
                    ),
                )
            } else {
                None
            },
        },
    }
}

/// The first fault among the first `n` data segments.
pub open spec fn data_fault<H>(
    store: Store<H>,
    globals_row: Seq<usize>,
    mems_row: Seq<usize>,
    memories: Seq<Limits>,
    data: Seq<DataSegment>,
    n: int,
) -> Option<Error>
    decreases n,
{
    if n <= 0 {
        None
    } else {
        match data_fault(store, globals_row, mems_row, memories, data, n - 1) {
            Some(e) => Some(e),
            None => datum_fault(store, globals_row, mems_row, memories, data[n - 1], (n - 1) as usize),
        }
    }
}

/// The first fault among some imports is the first fault among more.
pub proof fn lemma_imports_fault_stays<H>(
    store: Store<H>,
    loading: ModuleIndex,
    types: Seq<FuncType>,
    imports: Seq<Import>,
    i: int,
    n: int,
)
    requires
        i <= n,
        imports_fault(store, loading, types, imports, i) is Some,
    ensures
        imports_fault(store, loading, types, imports, n) == imports_fault(
            store,
            loading,
            types,
            imports,
            i,
        ),
    decreases n - i,
{
    if i < n {
        lemma_imports_fault_stays(store, loading, types, imports, i, n - 1);
    }
}

/// The first fault among some functions is the first fault among more.
pub proof fn lemma_functions_fault_stays(types: nat, functions: Seq<FuncBody>, i: int, n: int)
    requires
        i <= n,
        functions_fault(types, functions, i) is Some,
    ensures
        functions_fault(types, functions, n) == functions_fault(types, functions, i),
    decreases n - i,
{
    if i < n {
        lemma_functions_fault_stays(types, functions, i, n - 1);
    }
}

/// The first fault among some memories is the first fault among more.
pub proof fn lemma_memories_fault_stays(memories: Seq<Limits>, i: int, n: int)
    requires
        i <= n,
        memories_fault(memories, i) is Some,
    ensures
        memories_fault(memories, n) == memories_fault(memories, i),
    decreases n - i,
{
    if i < n {
        lemma_memories_fault_stays(memories, i, n - 1);
    }
}

/// The first fault among some globals is the first fault among more.
pub proof fn lemma_globals_fault_stays<H>(
    store: Store<H>,
    row: Seq<usize>,
    globals: Seq<GlobalEntry>,
    i: int,
    n: int,
)
    requires
        i <= n,
        globals_fault(store, row, globals, i) is Some,
    ensures
        globals_fault(store, row, globals, n) == globals_fault(store, row, globals, i),
    decreases n - i,
{
    if i < n {
        lemma_globals_fault_stays(store, row, globals, i, n - 1);
    }
}

/// The first fault among some element segments is the first fault among
/// more.
pub proof fn lemma_elements_fault_stays<H>(
    store: Store<H>,
    globals_row: Seq<usize>,
    tables_row: Seq<usize>,
    tables: Seq<Limits>,
    elements: Seq<ElementSegment>,
    i: int,
    n: int,
)
    requires
        i <= n,
        elements_fault(store, globals_row, tables_row, tables, elements, i) is Some,
    ensures
        elements_fault(store, globals_row, tables_row, tables, elements, n) == elements_fault(
            store,
            globals_row,
            tables_row,
            tables,
            elements,
            i,
        ),
    decreases n - i,
{
    if i < n {
        lemma_elements_fault_stays(store, globals_row, tables_row, tables, elements, i, n - 1);
    }
}

/// The first fault among some data segments is the first fault among more.
pub proof fn lemma_data_fault_stays<H>(
    store: Store<H>,
    globals_row: Seq<usize>,
    mems_row: Seq<usize>,
    memories: Seq<Limits>,
    data: Seq<DataSegment>,
    i: int,
    n: int,
)
    requires
        i <= n,
        data_fault(store, globals_row, mems_row, memories, data, i) is Some,
    ensures
        data_fault(store, globals_row, mems_row, memories, data, n) == data_fault(
            store,
            globals_row,
            mems_row,
            memories,
            data,
            i,
        ),
    decreases n - i,
{
    if i < n {
        lemma_data_fault_stays(store, globals_row, mems_row, memories, data, i, n - 1);
    }
}

/// The module's row of kind-`kind` things after its imports: what the row
/// held before the loading, then the slots that the imports link.
pub open spec fn linked_row<H, T>(
    store: Store<H>,
    c: LinkableCollection<T>,
    loading: ModuleIndex,
    module: Module,
    kind: Kind,
) -> Seq<usize> {
    row_of(c, loading) + import_row(
        store,
        loading,
        module.types@,
        module.imports@,
        module.imports@.len() as int,
        kind,
    )
}

/// The first fault of loading `module` into `store` as module `loading`:
/// of its imports, then of its functions, its memories, its globals, its
/// element segments and its data segments. `None` where the module loads.
pub open spec fn parts_fault<H>(store: Store<H>, loading: ModuleIndex, module: Module) -> Option<Error> {
    let globals_row = linked_row(store, store.globals, loading, module, Kind::Global);
    let tables_row = full_row(
        linked_row(store, store.tables, loading, module, Kind::Table),
        store.tables.items@.len(),
        module.tables@.len(),
    );
    let mems_row = full_row(
        linked_row(store, store.mems, loading, module, Kind::Memory),
        store.mems.items@.len(),
        module.memories@.len(),
    );
    let of_imports = imports_fault(
        store,
        loading,
        module.types@,
        module.imports@,
        module.imports@.len() as int,
    );
    let of_functions = functions_fault(
        module.types@.len(),
        module.functions@,
        module.functions@.len() as int,
    );
    let of_memories = memories_fault(module.memories@, module.memories@.len() as int);
    let of_globals = globals_fault(store, globals_row, module.globals@, module.globals@.len() as int);
    let of_elements = elements_fault(
        store,
        globals_row,
        tables_row,
        module.tables@,
        module.elements@,
        module.elements@.len() as int,
    );
    let of_data = data_fault(
        store,
        globals_row,
        mems_row,
        module.memories@,
        module.data@,
        module.data@.len() as int,
    );
    if of_imports is Some {
        of_imports
    } else if of_functions is Some {
        of_functions
    } else if of_memories is Some {
        of_memories
    } else if of_globals is Some {
        of_globals
    } else if of_elements is Some {
        of_elements
    } else {
        of_data
    }
}

/// The fault of loading `module` into `store`: a full store, or the first
/// fault of the module's parts. `None` where the module loads.
pub open spec fn load_fault<H>(store: Store<H>, module: Module) -> Option<Error> {
    if store.modules@.len() >= u32::MAX {
        Some(Error::StoreFull)
    } else {
        parts_fault(store, ModuleIndex((store.modules@.len() + 1) as u32), module)
    }
}

} // verus!
