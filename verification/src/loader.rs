//! Loading a decoded module into the store.
//!
//! The imports come first in each index space: an import is an index of the
//! new module that stands for the slot of what another module exports. Then
//! the module's own functions, tables, memories and globals are defined, and
//! its element and data segments are written.

use vstd::prelude::*;
use crate::address::{FuncAddr, GlobalAddr, MemoryAddr, ModuleIndex, TableAddr};
use crate::decoded::{
    DataSegment, ElementSegment, Export, ExportDesc, FuncBody, GlobalEntry, Import, ImportDesc,
    Limits, Module,
};
use crate::executor::{const_expr_spec, eval_const_expr, ConstExprError};
use crate::fault::{
    const_value, data_fault, datum_fault, element_fault, elements_fault, full_row, functions_fault,
    global_fault, globals_fault, import_adds, import_check, import_row, imports_fault,
    lemma_data_fault_stays, lemma_elements_fault_stays, lemma_functions_fault_stays,
    lemma_globals_fault_stays, lemma_import_check_same, lemma_imports_fault_stays, lemma_link_rows,
    lemma_memories_fault_stays, lemma_resolve_row, lemma_row_grew, lemma_row_same, linked_row,
    load_fault, memories_fault, memory_len_of, others_same, parts_fault, row_grew, row_of,
    same_for_imports, table_len_of,
};
use crate::func::{eq_func_type, DefinedFunctionInstance, FuncType, FunctionInstance};
use crate::global::GlobalInstance;
use crate::inst::{Instruction, InstructionKind};
use crate::memory;
use crate::memory::{MemoryInstance, MAX_PAGES, PAGE_SIZE};
use crate::module::{
    export_of, DefinedModuleInstance, ExportInstance, ExternalValue, LoadedModule, ModuleInstance,
};
use crate::store::{
    extends, lemma_extends_refl, lemma_extends_trans, name_position, LinkableCollection, Store,
};
use crate::table;
use crate::table::DefinedTableInstance;
use crate::value::{to_u32, Value};

verus! {

/// Why a module could not be loaded.
#[derive(Clone, Copy, Debug, PartialEq, Eq, Structural)]
pub enum Error {
    /// The store holds as many modules as it can.
    StoreFull,
    /// No module of the store has the name that import `0` asks for.
    UnknownImportModule(usize),
    /// The module that import `0` names exports nothing under the field's
    /// name, or what it exports stands for nothing.
    UnknownImportField(usize),
    /// What import `0` finds is of another kind than it asks for.
    IncompatibleImportKind(usize),
    /// The function that import `0` finds is of another type than it asks for.
    IncompatibleImportFuncType(usize),
    /// The global that import `0` finds is of another type than it asks for.
    IncompatibleImportGlobalType(usize),
    /// Function `0` is of a type that the module does not have.
    UnknownType(usize),
    /// The limits of memory `0` are not those of a memory.
    InvalidMemoryLimits(usize),
    /// The initial value of global `0` is no constant expression.
    InvalidGlobalInit(usize, ConstExprError),
    /// The initial value of global `0` is not of the global's type.
    GlobalTypeMismatch(usize),
    /// The offset of a segment is no constant expression of type `i32`.
    InvalidOffset,
    /// Element segment `0` names a table that the module does not have.
    UndefinedTable(usize),
    /// Data segment `0` names a memory that the module does not have.
    UndefinedMemory(usize),
    /// An element segment does not fit its table.
    InvalidElementSegments(table::Error),
    /// A data segment does not fit its memory.
    InvalidDataSegments(memory::Error),
}

/// Whether `after` has the slots of `before` and resolves every index that
/// `before` resolves to the same slot. What the slots hold may have changed.
pub open spec fn same_addresses<T>(before: LinkableCollection<T>, after: LinkableCollection<T>) -> bool {
    &&& before.items@.len() <= after.items@.len()
    &&& forall|module: ModuleIndex, index: usize|
        (#[trigger] before.spec_resolve(module, index)) is Some ==> after.spec_resolve(module, index)
            == before.spec_resolve(module, index)
    &&& forall|module: ModuleIndex|
        before.spec_row_len(module) <= #[trigger] after.spec_row_len(module)
}

/// Whether `after` is `before` grown: its modules are the same, its functions
/// and globals are all there as they were, and its tables and memories are
/// all there, with contents that may have changed.
pub open spec fn grown<H>(before: Store<H>, after: Store<H>) -> bool {
    &&& after.modules == before.modules
    &&& changed(before, after)
}

/// Whether `after` has every instance of `before` in its slot and under its
/// indices: the functions and globals as they were, the tables with their
/// lengths and the memories with their sizes and limits. What the tables and
/// memories hold may have changed.
pub open spec fn changed<H>(before: Store<H>, after: Store<H>) -> bool {
    &&& extends(before.funcs, after.funcs)
    &&& extends(before.globals, after.globals)
    &&& same_addresses(before.tables, after.tables)
    &&& same_addresses(before.mems, after.mems)
    &&& forall|slot: int|
        0 <= slot < before.tables.items@.len() ==> (#[trigger] after.tables.items@[slot])@.len()
            == before.tables.items@[slot]@.len() && after.tables.items@[slot].max_len()
            == before.tables.items@[slot].max_len()
    &&& forall|slot: int|
        0 <= slot < before.mems.items@.len() ==> (#[trigger] after.mems.items@[slot])@.len()
            == before.mems.items@[slot]@.len() && after.mems.items@[slot].max_pages()
            == before.mems.items@[slot].max_pages()
}

/// A store is itself grown, and growing twice is growing.
pub proof fn lemma_grown<H>(a: Store<H>, b: Store<H>, c: Store<H>)
    requires
        grown(a, b),
        grown(b, c),
    ensures
        grown(a, c),
{
    lemma_changed(a, b, c);
}

/// Changing twice is changing.
pub proof fn lemma_changed<H>(a: Store<H>, b: Store<H>, c: Store<H>)
    requires
        changed(a, b),
        changed(b, c),
    ensures
        changed(a, c),
{
    lemma_extends_trans(a.funcs, b.funcs, c.funcs);
    lemma_extends_trans(a.globals, b.globals, c.globals);
    assert forall|m: ModuleIndex| a.tables.spec_row_len(m) <= #[trigger] c.tables.spec_row_len(m) by {
        assert(a.tables.spec_row_len(m) <= b.tables.spec_row_len(m));
    }
    assert forall|m: ModuleIndex| a.mems.spec_row_len(m) <= #[trigger] c.mems.spec_row_len(m) by {
        assert(a.mems.spec_row_len(m) <= b.mems.spec_row_len(m));
    }
    assert forall|slot: int| 0 <= slot < a.tables.items@.len() implies (
    #[trigger] c.tables.items@[slot])@.len() == a.tables.items@[slot]@.len()
        && c.tables.items@[slot].max_len() == a.tables.items@[slot].max_len() by {
        assert(b.tables.items@[slot]@.len() == a.tables.items@[slot]@.len());
    }
    assert forall|slot: int| 0 <= slot < a.mems.items@.len() implies (
    #[trigger] c.mems.items@[slot])@.len() == a.mems.items@[slot]@.len()
        && c.mems.items@[slot].max_pages() == a.mems.items@[slot].max_pages() by {
        assert(b.mems.items@[slot]@.len() == a.mems.items@[slot]@.len());
    }
}

pub proof fn lemma_grown_refl<H>(a: Store<H>)
    ensures
        grown(a, a),
{
    lemma_extends_refl(a.funcs);
    lemma_extends_refl(a.globals);
}

/// How many indices module `module` has in a collection.
pub open spec fn row_len<T>(c: LinkableCollection<T>, module: ModuleIndex) -> nat {
    c.spec_row_len(module)
}

/// The four kinds of thing that a module imports, exports and defines.
#[derive(Clone, Copy, Debug, PartialEq, Eq, Structural)]
pub enum Kind {
    Func,
    Table,
    Memory,
    Global,
}

/// The kind of thing that an import asks for.
pub open spec fn import_kind(desc: ImportDesc) -> Kind {
    match desc {
        ImportDesc::Func(_) => Kind::Func,
        ImportDesc::Table(_) => Kind::Table,
        ImportDesc::Memory(_) => Kind::Memory,
        ImportDesc::Global(_) => Kind::Global,
    }
}

/// How many of the first `i` imports ask for a thing of kind `kind`.
pub open spec fn imports_before(imports: Seq<Import>, i: int, kind: Kind) -> nat
    decreases i,
{
    if i <= 0 {
        0
    } else {
        imports_before(imports, i - 1, kind) + (if import_kind(imports[i - 1].desc) == kind {
            1nat
        } else {
            0nat
        })
    }
}

/// How many indices of each kind a module had before its imports were
/// linked.
pub struct Bases {
    pub funcs: nat,
    pub tables: nat,
    pub mems: nat,
    pub globals: nat,
}

/// How many indices of each kind module `module` has in the store.
pub open spec fn bases_of<H>(store: Store<H>, module: ModuleIndex) -> Bases {
    Bases {
        funcs: row_len(store.funcs, module),
        tables: row_len(store.tables, module),
        mems: row_len(store.mems, module),
        globals: row_len(store.globals, module),
    }
}

/// How many indices of each kind a module has after the first `i` imports
/// were linked.
pub open spec fn after_imports(bases: Bases, imports: Seq<Import>, i: int) -> Bases {
    Bases {
        funcs: bases.funcs + imports_before(imports, i, Kind::Func),
        tables: bases.tables + imports_before(imports, i, Kind::Table),
        mems: bases.mems + imports_before(imports, i, Kind::Memory),
        globals: bases.globals + imports_before(imports, i, Kind::Global),
    }
}

/// Whether import `i` is linked in `after`: what the import finds in
/// `origin` is of the kind it asks for, and the index that the import got in
/// module `module` stands for the same slot as the address that it found.
/// The imports of a kind get the module's indices of that kind in their
/// order, from `bases` on.
pub open spec fn import_linked<H>(
    origin: Store<H>,
    after: Store<H>,
    module: ModuleIndex,
    imports: Seq<Import>,
    i: int,
    bases: Bases,
) -> bool {
    match (imports[i].desc, import_target(origin, imports[i])) {
        (ImportDesc::Func(_), Ok(ExternalValue::Func(addr))) => after.funcs.spec_resolve(
            addr.0,
            addr.1,
        ) is Some && after.funcs.spec_resolve(
            module,
            (bases.funcs + imports_before(imports, i, Kind::Func)) as usize,
        ) == after.funcs.spec_resolve(addr.0, addr.1),
        (ImportDesc::Table(_), Ok(ExternalValue::Table(addr))) => after.tables.spec_resolve(
            addr.0,
            addr.1,
        ) is Some && after.tables.spec_resolve(
            module,
            (bases.tables + imports_before(imports, i, Kind::Table)) as usize,
        ) == after.tables.spec_resolve(addr.0, addr.1),
        (ImportDesc::Memory(_), Ok(ExternalValue::Memory(addr))) => after.mems.spec_resolve(
            addr.0,
            addr.1,
        ) is Some && after.mems.spec_resolve(
            module,
            (bases.mems + imports_before(imports, i, Kind::Memory)) as usize,
        ) == after.mems.spec_resolve(addr.0, addr.1),
        (ImportDesc::Global(_), Ok(ExternalValue::Global(addr))) => after.globals.spec_resolve(
            addr.0,
            addr.1,
        ) is Some && after.globals.spec_resolve(
            module,
            (bases.globals + imports_before(imports, i, Kind::Global)) as usize,
        ) == after.globals.spec_resolve(addr.0, addr.1),
        _ => false,
    }
}

/// An import that is linked stays linked in a store that has grown.
pub proof fn lemma_import_linked_kept<H>(
    origin: Store<H>,
    before: Store<H>,
    after: Store<H>,
    module: ModuleIndex,
    imports: Seq<Import>,
    i: int,
    bases: Bases,
)
    requires
        import_linked(origin, before, module, imports, i, bases),
        changed(before, after),
    ensures
        import_linked(origin, after, module, imports, i, bases),
{
}

/// Whether index `index` of module `module` stands for the defined function
/// that was made of `body`.
pub open spec fn function_defined<H>(
    store: Store<H>,
    module: ModuleIndex,
    index: nat,
    body: FuncBody,
    types: Seq<FuncType>,
) -> bool {
    match store.funcs.spec_resolve(module, index as usize) {
        Some(slot) => match store.funcs.items@[slot as int] {
            FunctionInstance::Defined(f) => f.name == body.name && body.type_index < types.len()
                && f.ty@ == types[body.type_index as int]@ && f.module_index == module && f.locals
                == body.locals && f.instructions@ == body.instructions@,
            _ => false,
        },
        None => false,
    }
}

/// The limit of a table or a memory as a number of slots or pages.
pub open spec fn limit_of(maximum: Option<u32>) -> Option<usize> {
    match maximum {
        Some(m) => Some(m as usize),
        None => None,
    }
}

/// Whether index `index` of module `module` stands for a table of the size
/// and the limit of `limits`.
pub open spec fn table_defined<H>(store: Store<H>, module: ModuleIndex, index: nat, limits: Limits) -> bool {
    match store.tables.spec_resolve(module, index as usize) {
        Some(slot) => store.tables.items@[slot as int]@.len() == limits.initial
            && store.tables.items@[slot as int].max_len() == limit_of(limits.maximum),
        None => false,
    }
}

/// Whether index `index` of module `module` stands for a memory of the size
/// and the limit of `limits`.
pub open spec fn memory_defined<H>(store: Store<H>, module: ModuleIndex, index: nat, limits: Limits) -> bool {
    match store.mems.spec_resolve(module, index as usize) {
        Some(slot) => store.mems.items@[slot as int]@.len() == limits.initial * PAGE_SIZE
            && store.mems.items@[slot as int].max_pages() == limit_of(limits.maximum),
        None => false,
    }
}

/// Whether index `index` of module `module` stands for a global of the type
/// of `entry` that holds the value of the entry's constant expression.
pub open spec fn global_defined<H>(
    store: Store<H>,
    module: ModuleIndex,
    index: nat,
    entry: GlobalEntry,
) -> bool {
    match store.globals.spec_resolve(module, index as usize) {
        Some(slot) => store.globals.items@[slot as int].spec_ty() == entry.ty && const_expr_spec(
            entry.init_expr@,
            &store,
            module,
        ) == Ok::<Value, ConstExprError>(store.globals.items@[slot as int].spec_value()),
        None => false,
    }
}

/// The value of a constant expression stays what it is when the store gets
/// more globals.
pub proof fn lemma_const_expr_kept<H>(
    before: Store<H>,
    after: Store<H>,
    expr: Seq<Instruction>,
    module: ModuleIndex,
)
    requires
        extends(before.globals, after.globals),
        const_expr_spec(expr, &before, module) is Ok,
    ensures
        const_expr_spec(expr, &after, module) == const_expr_spec(expr, &before, module),
{
    match expr[0].kind {
        crate::inst::InstructionKind::GlobalGet { global_index } => {
            let slot = before.globals.spec_resolve(module, global_index as usize)->Some_0;
            assert(after.globals.items@.subrange(0, before.globals.items@.len() as int)[slot as int]
                == before.globals.items@[slot as int]);
        },
        _ => {},
    }
}

/// What of a module is in the store: its imports are linked, and the
/// functions, tables, memories and globals that it defines stand behind the
/// indices after those of the imports, in their order.
pub open spec fn parts_loaded<H>(
    origin: Store<H>,
    store: Store<H>,
    module: ModuleIndex,
    bases: Bases,
    types: Seq<FuncType>,
    imports: Seq<Import>,
    functions: Seq<FuncBody>,
    tables: Seq<Limits>,
    memories: Seq<Limits>,
    globals: Seq<GlobalEntry>,
) -> bool {
    let own = after_imports(bases, imports, imports.len() as int);
    &&& forall|i: int|
        0 <= i < imports.len() ==> #[trigger] import_linked(origin, store, module, imports, i, bases)
    &&& forall|k: int|
        0 <= k < functions.len() ==> #[trigger] function_defined(
            store,
            module,
            (own.funcs + k) as nat,
            functions[k],
            types,
        )
    &&& forall|k: int|
        0 <= k < tables.len() ==> #[trigger] table_defined(
            store,
            module,
            (own.tables + k) as nat,
            tables[k],
        )
    &&& forall|k: int|
        0 <= k < memories.len() ==> #[trigger] memory_defined(
            store,
            module,
            (own.mems + k) as nat,
            memories[k],
        )
    &&& forall|k: int|
        0 <= k < globals.len() ==> #[trigger] global_defined(
            store,
            module,
            (own.globals + k) as nat,
            globals[k],
        )
}

/// What of a module is in the store stays there when the store changes.
pub proof fn lemma_parts_kept<H>(
    origin: Store<H>,
    before: Store<H>,
    after: Store<H>,
    module: ModuleIndex,
    bases: Bases,
    types: Seq<FuncType>,
    imports: Seq<Import>,
    functions: Seq<FuncBody>,
    tables: Seq<Limits>,
    memories: Seq<Limits>,
    globals: Seq<GlobalEntry>,
)
    requires
        parts_loaded(origin, before, module, bases, types, imports, functions, tables, memories, globals),
        changed(before, after),
    ensures
        parts_loaded(origin, after, module, bases, types, imports, functions, tables, memories, globals),
{
    let own = after_imports(bases, imports, imports.len() as int);
    assert forall|i: int| 0 <= i < imports.len() implies #[trigger] import_linked(
        origin,
        after,
        module,
        imports,
        i,
        bases,
    ) by {
        lemma_import_linked_kept(origin, before, after, module, imports, i, bases);
    }
    assert forall|k: int| 0 <= k < functions.len() implies #[trigger] function_defined(
        after,
        module,
        (own.funcs + k) as nat,
        functions[k],
        types,
    ) by {
        assert(function_defined(before, module, (own.funcs + k) as nat, functions[k], types));
        let slot = before.funcs.spec_resolve(module, (own.funcs + k) as usize)->Some_0;
        assert(after.funcs.items@.subrange(0, before.funcs.items@.len() as int)[slot as int]
            == before.funcs.items@[slot as int]);
    }
    assert forall|k: int| 0 <= k < tables.len() implies #[trigger] table_defined(
        after,
        module,
        (own.tables + k) as nat,
        tables[k],
    ) by {
        assert(table_defined(before, module, (own.tables + k) as nat, tables[k]));
    }
    assert forall|k: int| 0 <= k < memories.len() implies #[trigger] memory_defined(
        after,
        module,
        (own.mems + k) as nat,
        memories[k],
    ) by {
        assert(memory_defined(before, module, (own.mems + k) as nat, memories[k]));
    }
    assert forall|k: int| 0 <= k < globals.len() implies #[trigger] global_defined(
        after,
        module,
        (own.globals + k) as nat,
        globals[k],
    ) by {
        assert(global_defined(before, module, (own.globals + k) as nat, globals[k]));
        let slot = before.globals.spec_resolve(module, (own.globals + k) as usize)->Some_0;
        assert(after.globals.items@.subrange(0, before.globals.items@.len() as int)[slot as int]
            == before.globals.items@[slot as int]);
        lemma_const_expr_kept(before, after, globals[k].init_expr@, module);
    }
}

/// Where a data segment goes: the slot of its memory and its offset. `None`
/// where the offset is no constant of type `i32` or the module has no such
/// memory.
pub open spec fn data_target<H>(store: Store<H>, module: ModuleIndex, segment: DataSegment) -> Option<
    (usize, usize),
> {
    match (
        const_expr_spec(segment.offset@, &store, module),
        store.mems.spec_resolve(module, segment.memory_index as usize),
    ) {
        (Ok(Value::I32(v)), Some(slot)) => Some((slot, crate::value::u32_of(v) as usize)),
        _ => None,
    }
}

/// The bytes of the memory in slot `slot` after the first `n` data segments
/// were written, in their order, into a memory that held `initial`.
pub open spec fn data_written<H>(
    store: Store<H>,
    module: ModuleIndex,
    segments: Seq<DataSegment>,
    n: int,
    slot: usize,
    initial: Seq<u8>,
) -> Seq<u8>
    decreases n,
{
    if n <= 0 {
        initial
    } else {
        let before = data_written(store, module, segments, n - 1, slot, initial);
        match data_target(store, module, segments[n - 1]) {
            Some((target, offset)) => if target == slot {
                crate::memory::write_bytes(before, offset as int, segments[n - 1].value@)
            } else {
                before
            },
            None => before,
        }
    }
}

/// Where an element segment goes: the slot of its table and its offset.
pub open spec fn element_target<H>(store: Store<H>, module: ModuleIndex, segment: ElementSegment) -> Option<
    (usize, usize),
> {
    match (
        const_expr_spec(segment.offset@, &store, module),
        store.tables.spec_resolve(module, segment.table_index as usize),
    ) {
        (Ok(Value::I32(v)), Some(slot)) => Some((slot, crate::value::u32_of(v) as usize)),
        _ => None,
    }
}

/// The functions that an element segment of module `module` names.
pub open spec fn members_of(module: ModuleIndex, segment: ElementSegment) -> Seq<FuncAddr> {
    segment.members@.map_values(|i: u32| FuncAddr(module, i as usize))
}

/// The slots of the table in slot `slot` after the first `n` element segments
/// were written, in their order, into a table that held `initial`.
pub open spec fn elements_written<H>(
    store: Store<H>,
    module: ModuleIndex,
    segments: Seq<ElementSegment>,
    n: int,
    slot: usize,
    initial: Seq<Option<FuncAddr>>,
) -> Seq<Option<FuncAddr>>
    decreases n,
{
    if n <= 0 {
        initial
    } else {
        let before = elements_written(store, module, segments, n - 1, slot, initial);
        match element_target(store, module, segments[n - 1]) {
            Some((target, offset)) => if target == slot {
                table::initialized(before, offset as int, members_of(module, segments[n - 1]))
            } else {
                before
            },
            None => before,
        }
    }
}

/// A memory of `len` zero bytes.
pub open spec fn zeroed(len: nat) -> Seq<u8> {
    Seq::new(len, |i: int| 0u8)
}

/// A table of `len` empty slots.
pub open spec fn empty_table(len: nat) -> Seq<Option<FuncAddr>> {
    Seq::new(len, |i: int| None::<FuncAddr>)
}

/// What the memory in slot `slot` of `after` held before the data segments
/// were written: what it held in `before`, or zeros where the module
/// defined it.
pub open spec fn initial_bytes<H>(before: Store<H>, after: Store<H>, slot: usize) -> Seq<u8> {
    if slot < before.mems.items@.len() {
        before.mems.items@[slot as int]@
    } else {
        zeroed(after.mems.items@[slot as int]@.len())
    }
}

/// What the table in slot `slot` of `after` held before the element segments
/// were written: what it held in `before`, or nothing where the module
/// defined it.
pub open spec fn initial_slots<H>(before: Store<H>, after: Store<H>, slot: usize) -> Seq<
    Option<FuncAddr>,
> {
    if slot < before.tables.items@.len() {
        before.tables.items@[slot as int]@
    } else {
        empty_table(after.tables.items@[slot as int]@.len())
    }
}

/// Whether the tables and memories of `after` hold what the segments of a
/// module wrote, in their order, into what they held in `before`; a table or
/// memory that the module defined started empty or zeroed.
pub open spec fn segments_written<H>(
    before: Store<H>,
    after: Store<H>,
    module: ModuleIndex,
    elements: Seq<ElementSegment>,
    data: Seq<DataSegment>,
) -> bool {
    &&& forall|slot: usize|
        slot < after.tables.items@.len() ==> (#[trigger] after.tables.items@[slot as int])@
            == elements_written(
            after,
            module,
            elements,
            elements.len() as int,
            slot,
            initial_slots(before, after, slot),
        )
    &&& forall|slot: usize|
        slot < after.mems.items@.len() ==> (#[trigger] after.mems.items@[slot as int])@
            == data_written(
            after,
            module,
            data,
            data.len() as int,
            slot,
            initial_bytes(before, after, slot),
        )
}

/// Whether two stores resolve the addresses of tables, memories and globals
/// alike and hold the same globals, so that segments go to the same places
/// in both.
pub open spec fn same_targets<H>(a: Store<H>, b: Store<H>) -> bool {
    &&& a.globals == b.globals
    &&& a.mems.item_addrs_by_module == b.mems.item_addrs_by_module
    &&& a.mems.items@.len() == b.mems.items@.len()
    &&& a.tables.item_addrs_by_module == b.tables.item_addrs_by_module
    &&& a.tables.items@.len() == b.tables.items@.len()
}

/// Segments write the same into stores in which they go to the same places.
pub proof fn lemma_same_targets<H>(
    a: Store<H>,
    b: Store<H>,
    module: ModuleIndex,
    data: Seq<DataSegment>,
    elements: Seq<ElementSegment>,
    n: int,
    slot: usize,
    bytes: Seq<u8>,
    slots: Seq<Option<FuncAddr>>,
)
    requires
        same_targets(a, b),
    ensures
        data_written(a, module, data, n, slot, bytes) == data_written(b, module, data, n, slot, bytes),
        elements_written(a, module, elements, n, slot, slots) == elements_written(
            b,
            module,
            elements,
            n,
            slot,
            slots,
        ),
    decreases n,
{
    if n > 0 {
        lemma_same_targets(a, b, module, data, elements, n - 1, slot, bytes, slots);
        assert(data_target(a, module, data[n - 1]) == data_target(b, module, data[n - 1]));
        assert(element_target(a, module, elements[n - 1]) == element_target(
            b,
            module,
            elements[n - 1],
        ));
    }
}

/// What an import finds: the export of the field's name of the first module
/// of the module's name.
pub open spec fn import_target<H>(store: Store<H>, import: Import) -> Result<ExternalValue, ()> {
    match name_position(store.modules@, import.module@, 0) {
        Some(p) => if p < u32::MAX {
            match export_of(store.modules@[p].instance.spec_exports(), import.field@) {
                Some(value) => Ok(value),
                None => Err(()),
            }
        } else {
            Err(())
        },
        None => Err(()),
    }
}

/// The address of export `desc` of module `module`.
pub open spec fn export_value(module: ModuleIndex, desc: ExportDesc) -> ExternalValue {
    match desc {
        ExportDesc::Func(i) => ExternalValue::Func(FuncAddr(module, i as usize)),
        ExportDesc::Table(i) => ExternalValue::Table(TableAddr(module, i as usize)),
        ExportDesc::Memory(i) => ExternalValue::Memory(MemoryAddr(module, i as usize)),
        ExportDesc::Global(i) => ExternalValue::Global(GlobalAddr(module, i as usize)),
    }
}

/// The exports of a module instance, made of those of the decoded module.
pub fn make_exports(module: ModuleIndex, exports: &Vec<Export>) -> (made: Vec<ExportInstance>)
    ensures
        made@.len() == exports@.len(),
        forall|i: int|
            0 <= i < exports@.len() ==> (#[trigger] made@[i]).name == exports@[i].field
                && made@[i].value == export_value(module, exports@[i].desc),
{
    let n: usize = exports.len();
    let mut made: Vec<ExportInstance> = Vec::new();
    let mut i: usize = 0;
    while i < n
        invariant
            i <= n == exports@.len(),
            made@.len() == i,
            forall|j: int|
                0 <= j < i ==> (#[trigger] made@[j]).name == exports@[j].field && made@[j].value
                    == export_value(module, exports@[j].desc),
        decreases n - i,
    {
        let value = match exports[i].desc {
            ExportDesc::Func(index) => ExternalValue::Func(FuncAddr(module, index as usize)),
            ExportDesc::Table(index) => ExternalValue::Table(TableAddr(module, index as usize)),
            ExportDesc::Memory(index) => ExternalValue::Memory(MemoryAddr(module, index as usize)),
            ExportDesc::Global(index) => ExternalValue::Global(GlobalAddr(module, index as usize)),
        };
        made.push(ExportInstance { name: exports[i].field.clone(), value });
        i = i + 1;
    }
    made
}

/// The value of a constant expression of a module that is being loaded,
/// which may read only the globals that the store held before: that of
/// `const_expr_spec`, but for a `global.get` of a global in a slot from
/// `limit` on, which is undefined.
pub open spec fn bounded_const_spec<H>(
    expr: Seq<Instruction>,
    store: &Store<H>,
    module: ModuleIndex,
    limit: usize,
) -> Result<Value, ConstExprError> {
    if expr.len() == 0 {
        Err(ConstExprError::Empty)
    } else {
        match expr[0].kind {
            InstructionKind::GlobalGet { global_index } => match store.globals.spec_resolve(
                module,
                global_index as usize,
            ) {
                Some(slot) => if slot < limit {
                    const_expr_spec(expr, store, module)
                } else {
                    Err(ConstExprError::UndefinedGlobal(global_index as usize))
                },
                None => Err(ConstExprError::UndefinedGlobal(global_index as usize)),
            },
            _ => const_expr_spec(expr, store, module),
        }
    }
}

/// Evaluates a constant expression of a module that is being loaded. The
/// expression may read the globals in the slots below `limit`, those that
/// the store held before the module came.
pub fn eval_bounded_const<H>(expr: &Vec<Instruction>, store: &Store<H>, module: ModuleIndex, limit: usize) -> (r:
    Result<Value, ConstExprError>)
    ensures
        r == bounded_const_spec(expr@, store, module, limit),
        r is Ok ==> r == const_expr_spec(expr@, store, module),
{
    if expr.len() > 0 {
        match &expr[0].kind {
            InstructionKind::GlobalGet { global_index } => {
                match store.globals.resolve(module, *global_index as usize) {
                    Some(slot) => {
                        if slot >= limit {
                            return Err(ConstExprError::UndefinedGlobal(*global_index as usize));
                        }
                    },
                    None => {
                        return Err(ConstExprError::UndefinedGlobal(*global_index as usize));
                    },
                }
            },
            _ => {},
        }
    }
    eval_const_expr(expr, store, module)
}

/// Whether `current` holds the globals of `origin` and `defined` more,
/// which module `module` has defined and has indices for behind those of
/// `row`.
pub open spec fn globals_settled<H>(
    origin: Store<H>,
    current: Store<H>,
    module: ModuleIndex,
    row: Seq<usize>,
    defined: nat,
) -> bool {
    &&& current.globals.items@.len() == origin.globals.items@.len() + defined
    &&& current.globals.items@.len() <= usize::MAX
    &&& current.globals.items@.subrange(0, origin.globals.items@.len() as int)
        == origin.globals.items@
    &&& row_of(current.globals, module) == full_row(row, origin.globals.items@.len(), defined)
}

/// Whether `current` holds the tables of `origin` and those of `tables`
/// behind them, each as long as it was made, and module `module` has the
/// row `row` of indices for tables.
pub open spec fn tables_settled<H>(
    origin: Store<H>,
    current: Store<H>,
    module: ModuleIndex,
    row: Seq<usize>,
    tables: Seq<Limits>,
) -> bool {
    &&& row_of(current.tables, module) == row
    &&& current.tables.items@.len() == origin.tables.items@.len() + tables.len()
    &&& forall|slot: usize|
        slot < current.tables.items@.len() ==> (#[trigger] current.tables.items@[slot as int])@.len()
            == table_len_of(origin, tables, slot)
}

/// Whether `current` holds the memories of `origin` and those of `memories`
/// behind them, each as long as it was made, and module `module` has the
/// row `row` of indices for memories.
pub open spec fn memories_settled<H>(
    origin: Store<H>,
    current: Store<H>,
    module: ModuleIndex,
    row: Seq<usize>,
    memories: Seq<Limits>,
) -> bool {
    &&& row_of(current.mems, module) == row
    &&& current.mems.items@.len() == origin.mems.items@.len() + memories.len()
    &&& forall|slot: usize|
        slot < current.mems.items@.len() ==> (#[trigger] current.mems.items@[slot as int])@.len()
            == memory_len_of(origin, memories, slot)
}

/// A constant expression of a module that is being loaded has the value
/// that the store gave it before the module defined anything: the globals
/// that the module defines stand behind those that it imports, in slots
/// that the expression may not read.
pub proof fn lemma_bounded_const<H>(
    origin: Store<H>,
    current: Store<H>,
    module: ModuleIndex,
    row: Seq<usize>,
    defined: nat,
    expr: Seq<Instruction>,
)
    requires
        globals_settled(origin, current, module, row, defined),
    ensures
        bounded_const_spec(expr, &current, module, origin.globals.items@.len() as usize)
            == const_value(origin, row, expr),
{
    if expr.len() > 0 {
        match expr[0].kind {
            InstructionKind::GlobalGet { global_index } => {
                let index = global_index as usize;
                let limit = origin.globals.items@.len();
                lemma_resolve_row(current.globals, module, index);
                let full = full_row(row, limit, defined);
                if index < row.len() {
                    assert(full[index as int] == row[index as int]);
                    if row[index as int] < limit {
                        assert(current.globals.items@.subrange(0, limit as int)[row[index as int] as int]
                            == current.globals.items@[row[index as int] as int]);
                    }
                } else if index < full.len() {
                    assert(full[index as int] == (limit + (index - row.len())) as usize);
                }
            },
            _ => {},
        }
    }
}

/// The offset of a segment of a module that is being loaded: the value of
/// its constant expression, which must be of type `i32`, read as unsigned.
pub fn eval_offset<H>(offset: &Vec<Instruction>, store: &Store<H>, module: ModuleIndex, limit: usize) -> (r:
    Result<usize, Error>)
    ensures
        match bounded_const_spec(offset@, store, module, limit) {
            Ok(Value::I32(v)) => r == Ok::<usize, Error>(crate::value::u32_of(v) as usize),
            _ => r == Err::<usize, Error>(Error::InvalidOffset),
        },
        r is Ok ==> const_expr_spec(offset@, store, module) == bounded_const_spec(
            offset@,
            store,
            module,
            limit,
        ),
{
    match eval_bounded_const(offset, store, module, limit) {
        Ok(Value::I32(v)) => Ok(to_u32(v) as usize),
        _ => Err(Error::InvalidOffset),
    }
}

impl<H> Store<H> {
    /// What `import` finds in the store.
    pub fn import_target(&self, import: &Import) -> (r: Result<ExternalValue, ()>)
        ensures
            r == import_target(*self, *import),
    {
        proof {
            lemma_name_position(self.modules@, import.module@, 0);
        }
        match self.module_by_name(&import.module) {
            Some(exporter) => match self.module(exporter) {
                Some(module) => match module.export(&import.field) {
                    Some(value) => Ok(value),
                    None => Err(()),
                },
                None => Err(()),
            },
            None => Err(()),
        }
    }

    /// Gives module `module` an index for what import `at` finds.
    fn link_import(&mut self, module: ModuleIndex, import: &Import, types: &Vec<FuncType>, at: usize) -> (r:
        Result<(), Error>)
        requires
            module.0 != 0,
        ensures
            grown(*old(self), *final(self)),
            final(self).funcs.items == old(self).funcs.items,
            final(self).tables.items == old(self).tables.items,
            final(self).mems.items == old(self).mems.items,
            final(self).globals.items == old(self).globals.items,
            r is Err ==> *final(self) == *old(self),
            r == (match import_check(*old(self), module, types@, *import, at) {
                Ok(_) => Ok::<(), Error>(()),
                Err(e) => Err::<(), Error>(e),
            }),
            row_grew(
                old(self).funcs,
                final(self).funcs,
                module,
                import_adds(*old(self), module, types@, *import, at, Kind::Func),
            ),
            row_grew(
                old(self).tables,
                final(self).tables,
                module,
                import_adds(*old(self), module, types@, *import, at, Kind::Table),
            ),
            row_grew(
                old(self).mems,
                final(self).mems,
                module,
                import_adds(*old(self), module, types@, *import, at, Kind::Memory),
            ),
            row_grew(
                old(self).globals,
                final(self).globals,
                module,
                import_adds(*old(self), module, types@, *import, at, Kind::Global),
            ),
            r is Ok ==> import_linked(
                *old(self),
                *final(self),
                module,
                seq![*import],
                0,
                bases_of(*old(self), module),
            ) && bases_of(*final(self), module) == (match import_kind(import.desc) {
                Kind::Func => Bases {
                    funcs: bases_of(*old(self), module).funcs + 1,
                    ..bases_of(*old(self), module)
                },
                Kind::Table => Bases {
                    tables: bases_of(*old(self), module).tables + 1,
                    ..bases_of(*old(self), module)
                },
                Kind::Memory => Bases {
                    mems: bases_of(*old(self), module).mems + 1,
                    ..bases_of(*old(self), module)
                },
                Kind::Global => Bases {
                    globals: bases_of(*old(self), module).globals + 1,
                    ..bases_of(*old(self), module)
                },
            }),
    {
        proof {
            lemma_name_position(self.modules@, import.module@, 0);
            reveal_with_fuel(imports_before, 2);
        }
        proof {
            lemma_grown_refl(*self);
            lemma_row_same(self.funcs, module);
            lemma_row_same(self.tables, module);
            lemma_row_same(self.mems, module);
            lemma_row_same(self.globals, module);
        }
        let target = match self.module_by_name(&import.module) {
            Some(exporter) => match self.module(exporter) {
                Some(found) => match found.export(&import.field) {
                    Some(value) => value,
                    None => {
                        return Err(Error::UnknownImportField(at));
                    },
                },
                None => {
                    return Err(Error::UnknownImportModule(at));
                },
            },
            None => {
                return Err(Error::UnknownImportModule(at));
            },
        };
        match (import.desc, target) {
            (ImportDesc::Func(type_index), ExternalValue::Func(addr)) => {
                if addr.0 == module {
                    return Err(Error::UnknownImportField(at));
                }
                let slot = match self.funcs.resolve(addr.0, addr.1) {
                    Some(slot) => slot,
                    None => {
                        return Err(Error::UnknownImportField(at));
                    },
                };
                if type_index as usize >= types.len() {
                    return Err(Error::UnknownType(at));
                }
                if !eq_func_type(self.funcs.items[slot].ty(), &types[type_index as usize]) {
                    return Err(Error::IncompatibleImportFuncType(at));
                }
                let ghost before = self.funcs;
                let _ = self.funcs.link(slot, module);
                proof {
                    lemma_link_extends(before, self.funcs, slot, module);
                    lemma_link_rows(before, self.funcs, slot, module);
                }
                Ok(())
            },
            (ImportDesc::Table(_), ExternalValue::Table(addr)) => {
                if addr.0 == module {
                    return Err(Error::UnknownImportField(at));
                }
                let slot = match self.tables.resolve(addr.0, addr.1) {
                    Some(slot) => slot,
                    None => {
                        return Err(Error::UnknownImportField(at));
                    },
                };
                let ghost before = self.tables;
                let _ = self.tables.link(slot, module);
                proof {
                    lemma_link_extends(before, self.tables, slot, module);
                    lemma_link_rows(before, self.tables, slot, module);
                }
                Ok(())
            },
            (ImportDesc::Memory(_), ExternalValue::Memory(addr)) => {
                if addr.0 == module {
                    return Err(Error::UnknownImportField(at));
                }
                let slot = match self.mems.resolve(addr.0, addr.1) {
                    Some(slot) => slot,
                    None => {
                        return Err(Error::UnknownImportField(at));
                    },
                };
                let ghost before = self.mems;
                let _ = self.mems.link(slot, module);
                proof {
                    lemma_link_extends(before, self.mems, slot, module);
                    lemma_link_rows(before, self.mems, slot, module);
                }
                Ok(())
            },
            (ImportDesc::Global(ty), ExternalValue::Global(addr)) => {
                if addr.0 == module {
                    return Err(Error::UnknownImportField(at));
                }
                let slot = match self.globals.resolve(addr.0, addr.1) {
                    Some(slot) => slot,
                    None => {
                        return Err(Error::UnknownImportField(at));
                    },
                };
                if self.globals.items[slot].ty() != ty {
                    return Err(Error::IncompatibleImportGlobalType(at));
                }
                let ghost before = self.globals;
                let _ = self.globals.link(slot, module);
                proof {
                    lemma_link_extends(before, self.globals, slot, module);
                    lemma_link_rows(before, self.globals, slot, module);
                }
                Ok(())
            },
            _ => Err(Error::IncompatibleImportKind(at)),
        }
    }

    /// Gives module `module` an index for each import, in their order, and
    /// stops at the first import that has a fault.
    fn link_imports(&mut self, module: ModuleIndex, imports: &Vec<Import>, types: &Vec<FuncType>) -> (r:
        Result<(), Error>)
        requires
            module.0 != 0,
        ensures
            grown(*old(self), *final(self)),
            final(self).funcs.items == old(self).funcs.items,
            final(self).tables.items == old(self).tables.items,
            final(self).mems.items == old(self).mems.items,
            final(self).globals.items == old(self).globals.items,
            r == (match imports_fault(
                *old(self),
                module,
                types@,
                imports@,
                imports@.len() as int,
            ) {
                Some(e) => Err::<(), Error>(e),
                None => Ok::<(), Error>(()),
            }),
            r is Ok ==> imports_rows(*old(self), *final(self), module, types@, imports@, imports@.len() as int),
            r is Ok ==> bases_of(*final(self), module) == after_imports(
                bases_of(*old(self), module),
                imports@,
                imports@.len() as int,
            ) && forall|i: int|
                0 <= i < imports@.len() ==> #[trigger] import_linked(
                    *old(self),
                    *final(self),
                    module,
                    imports@,
                    i,
                    bases_of(*old(self), module),
                ),
    {
        let n: usize = imports.len();
        let mut i: usize = 0;
        let ghost bases = bases_of(*self, module);
        proof {
            lemma_grown_refl(*self);
            lemma_row_same(self.funcs, module);
            lemma_row_same(self.tables, module);
            lemma_row_same(self.mems, module);
            lemma_row_same(self.globals, module);
        }
        while i < n
            invariant
                i <= n == imports@.len(),
                module.0 != 0,
                bases == bases_of(*old(self), module),
                grown(*old(self), *self),
                self.funcs.items == old(self).funcs.items,
                self.tables.items == old(self).tables.items,
                self.mems.items == old(self).mems.items,
                self.globals.items == old(self).globals.items,
                imports_fault(*old(self), module, types@, imports@, i as int) is None,
                imports_rows(*old(self), *self, module, types@, imports@, i as int),
                bases_of(*self, module) == after_imports(bases, imports@, i as int),
                forall|j: int|
                    0 <= j < i ==> #[trigger] import_linked(
                        *old(self),
                        *self,
                        module,
                        imports@,
                        j,
                        bases,
                    ),
            decreases n - i,
        {
            let ghost before = *self;
            proof {
                lemma_import_check_same(*old(self), before, module, types@, imports@[i as int], i);
            }
            let linked = self.link_import(module, &imports[i], types, i);
            proof {
                lemma_grown(*old(self), before, *self);
            }
            match linked {
                Ok(_) => {},
                Err(e) => {
                    proof {
                        lemma_imports_fault_stays(
                            *old(self),
                            module,
                            types@,
                            imports@,
                            i + 1,
                            n as int,
                        );
                    }
                    return Err(e);
                },
            }
            proof {
                reveal_with_fuel(imports_before, 2);
                assert(import_target(before, imports@[i as int]) == import_target(
                    *old(self),
                    imports@[i as int],
                ));
                assert(seq![imports@[i as int]][0] == imports@[i as int]);
                assert(import_linked(*old(self), *self, module, imports@, i as int, bases));
                assert forall|j: int| 0 <= j < i + 1 implies #[trigger] import_linked(
                    *old(self),
                    *self,
                    module,
                    imports@,
                    j,
                    bases,
                ) by {
                    if j < i {
                        lemma_import_linked_kept(*old(self), before, *self, module, imports@, j, bases);
                    }
                }
                lemma_imports_rows_step(*old(self), before, *self, module, types@, imports@, i as int);
            }
            i = i + 1;
        }
        Ok(())
    }

    /// Defines the functions of the code section.
    fn define_functions(&mut self, module: ModuleIndex, types: &Vec<FuncType>, functions: Vec<FuncBody>) -> (r:
        Result<(), Error>)
        requires
            module.0 != 0,
        ensures
            grown(*old(self), *final(self)),
            final(self).tables == old(self).tables,
            final(self).mems == old(self).mems,
            final(self).globals == old(self).globals,
            r == (match functions_fault(types@.len(), functions@, functions@.len() as int) {
                Some(e) => Err::<(), Error>(e),
                None => Ok::<(), Error>(()),
            }),
            r is Ok ==> forall|k: int|
                0 <= k < functions@.len() ==> #[trigger] function_defined(
                    *final(self),
                    module,
                    (row_len(old(self).funcs, module) + k) as nat,
                    functions@[k],
                    types@,
                ),
    {
        let ghost given = functions@;
        let ghost base = row_len(self.funcs, module);
        let n: usize = functions.len();
        let mut rest = functions;
        let mut i: usize = 0;
        proof {
            lemma_grown_refl(*self);
            assert(rest@ =~= given.subrange(0, n as int));
        }
        while i < n
            invariant
                i <= n == given.len(),
                given == functions@,
                rest@ == given.subrange(i as int, n as int),
                module.0 != 0,
                base == row_len(old(self).funcs, module),
                grown(*old(self), *self),
                self.tables == old(self).tables,
                self.mems == old(self).mems,
                self.globals == old(self).globals,
                row_len(self.funcs, module) == base + i,
                functions_fault(types@.len(), given, i as int) is None,
                forall|k: int|
                    0 <= k < i ==> #[trigger] function_defined(
                        *self,
                        module,
                        (base + k) as nat,
                        given[k],
                        types@,
                    ),
            decreases n - i,
        {
            let body = rest.remove(0);
            proof {
                assert(rest@ =~= given.subrange(i + 1, n as int));
                assert(given.subrange(i as int, n as int)[0] == given[i as int]);
            }
            if body.type_index as usize >= types.len() {
                proof {
                    assert(body == given[i as int]);
                    assert(functions_fault(types@.len(), given, i + 1) == Some(
                        Error::UnknownType(i),
                    ));
                    lemma_functions_fault_stays(types@.len(), given, i + 1, n as int);
                }
                return Err(Error::UnknownType(i));
            }
            let ty = types[body.type_index as usize].clone();
            let func = DefinedFunctionInstance::new(
                body.name,
                ty,
                module,
                body.locals,
                body.instructions,
            );
            let ghost before = *self;
            let _ = self.funcs.push(module, FunctionInstance::Defined(func));
            proof {
                lemma_grown_refl(before);
                lemma_grown(*old(self), before, *self);
                lemma_link_extends_rows(before.funcs, self.funcs, before.funcs.items@.len() as usize, module);
                assert forall|k: int| 0 <= k < i + 1 implies #[trigger] function_defined(
                    *self,
                    module,
                    (base + k) as nat,
                    given[k],
                    types@,
                ) by {
                    if k < i {
                        assert(function_defined(before, module, (base + k) as nat, given[k], types@));
                        let slot = before.funcs.spec_resolve(module, (base + k) as usize)->Some_0;
                        assert(self.funcs.items@.subrange(0, before.funcs.items@.len() as int)[slot as int]
                            == before.funcs.items@[slot as int]);
                    }
                }
            }
            i = i + 1;
        }
        Ok(())
    }

    /// Defines the tables of the table section, all slots empty.
    fn define_tables(&mut self, module: ModuleIndex, tables: &Vec<Limits>)
        requires
            module.0 != 0,
        ensures
            grown(*old(self), *final(self)),
            final(self).funcs == old(self).funcs,
            final(self).mems == old(self).mems,
            final(self).globals == old(self).globals,
            forall|k: int|
                0 <= k < tables@.len() ==> #[trigger] table_defined(
                    *final(self),
                    module,
                    (row_len(old(self).tables, module) + k) as nat,
                    tables@[k],
                ),
            extends(old(self).tables, final(self).tables),
            forall|slot: int|
                old(self).tables.items@.len() <= slot < final(self).tables.items@.len() ==> (
                #[trigger] final(self).tables.items@[slot])@ == empty_table(
                    final(self).tables.items@[slot]@.len(),
                ),
            defined_rows(old(self).tables, final(self).tables, module, tables@.len()),
            forall|j: int|
                0 <= j < tables@.len() ==> (#[trigger] final(self).tables.items@[old(self).tables.items@.len() + j])@.len() == tables@[j].initial,
    {
        let ghost base = row_len(self.tables, module);
        proof {
            lemma_extends_refl(self.tables);
            lemma_defined_none(self.tables, module);
        }
        let n: usize = tables.len();
        let mut i: usize = 0;
        proof {
            lemma_grown_refl(*self);
        }
        while i < n
            invariant
                i <= n == tables@.len(),
                module.0 != 0,
                base == row_len(old(self).tables, module),
                grown(*old(self), *self),
                self.funcs == old(self).funcs,
                self.mems == old(self).mems,
                self.globals == old(self).globals,
                row_len(self.tables, module) == base + i,
                extends(old(self).tables, self.tables),
                defined_rows(old(self).tables, self.tables, module, i as nat),
                forall|j: int|
                    0 <= j < i ==> (#[trigger] self.tables.items@[old(self).tables.items@.len()
                        + j])@.len() == tables@[j].initial,
                forall|slot: int|
                    old(self).tables.items@.len() <= slot < self.tables.items@.len() ==> (
                    #[trigger] self.tables.items@[slot])@ == empty_table(
                        self.tables.items@[slot]@.len(),
                    ),
                forall|k: int|
                    0 <= k < i ==> #[trigger] table_defined(
                        *self,
                        module,
                        (base + k) as nat,
                        tables@[k],
                    ),
            decreases n - i,
        {
            let maximum = match tables[i].maximum {
                Some(m) => Some(m as usize),
                None => None,
            };
            let table = DefinedTableInstance::new(tables[i].initial as usize, maximum);
            let ghost before = *self;
            let _ = self.tables.push(module, table);
            proof {
                lemma_extends_refl(before.funcs);
                lemma_extends_refl(before.tables);
                lemma_extends_refl(before.mems);
                lemma_extends_refl(before.globals);
                lemma_push_changed(before, *self);
                lemma_grown(*old(self), before, *self);
                lemma_extends_trans(old(self).tables, before.tables, self.tables);
                lemma_defined_one(old(self).tables, before.tables, self.tables, module, i as nat);
                assert forall|j: int| 0 <= j < i + 1 implies (
                #[trigger] self.tables.items@[old(self).tables.items@.len() + j])@.len()
                    == tables@[j].initial by {
                    if j < i {
                        assert(self.tables.items@[old(self).tables.items@.len() + j]
                            == before.tables.items@[old(self).tables.items@.len() + j]);
                    }
                }
                assert forall|slot: int|
                    old(self).tables.items@.len() <= slot < self.tables.items@.len() implies (
                #[trigger] self.tables.items@[slot])@ == empty_table(
                    self.tables.items@[slot]@.len(),
                ) by {
                    if slot < before.tables.items@.len() {
                        assert(self.tables.items@[slot] == before.tables.items@[slot]);
                    }
                }
                lemma_link_extends_rows(before.tables, self.tables, before.tables.items@.len() as usize, module);
                assert forall|k: int| 0 <= k < i + 1 implies #[trigger] table_defined(
                    *self,
                    module,
                    (base + k) as nat,
                    tables@[k],
                ) by {
                    if k < i {
                        assert(table_defined(before, module, (base + k) as nat, tables@[k]));
                    }
                }
            }
            i = i + 1;
        }
    }

    /// Defines the memories of the memory section, all bytes zero.
    fn define_memories(&mut self, module: ModuleIndex, memories: &Vec<Limits>) -> (r: Result<(), Error>)
        requires
            module.0 != 0,
        ensures
            grown(*old(self), *final(self)),
            final(self).funcs == old(self).funcs,
            final(self).tables == old(self).tables,
            final(self).globals == old(self).globals,
            r is Ok ==> forall|k: int|
                0 <= k < memories@.len() ==> #[trigger] memory_defined(
                    *final(self),
                    module,
                    (row_len(old(self).mems, module) + k) as nat,
                    memories@[k],
                ),
            extends(old(self).mems, final(self).mems),
            forall|slot: int|
                old(self).mems.items@.len() <= slot < final(self).mems.items@.len() ==> (
                #[trigger] final(self).mems.items@[slot])@ == zeroed(
                    final(self).mems.items@[slot]@.len(),
                ),
            r == (match memories_fault(memories@, memories@.len() as int) {
                Some(e) => Err::<(), Error>(e),
                None => Ok::<(), Error>(()),
            }),
            r is Ok ==> defined_rows(old(self).mems, final(self).mems, module, memories@.len()),
            r is Ok ==> forall|j: int|
                0 <= j < memories@.len() ==> (#[trigger] final(self).mems.items@[old(self).mems.items@.len() + j])@.len() == memories@[j].initial * PAGE_SIZE,
    {
        let ghost base = row_len(self.mems, module);
        proof {
            lemma_extends_refl(self.mems);
            lemma_defined_none(self.mems, module);
        }
        let n: usize = memories.len();
        let mut i: usize = 0;
        proof {
            lemma_grown_refl(*self);
        }
        while i < n
            invariant
                i <= n == memories@.len(),
                module.0 != 0,
                base == row_len(old(self).mems, module),
                grown(*old(self), *self),
                self.funcs == old(self).funcs,
                self.tables == old(self).tables,
                self.globals == old(self).globals,
                row_len(self.mems, module) == base + i,
                extends(old(self).mems, self.mems),
                memories_fault(memories@, i as int) is None,
                defined_rows(old(self).mems, self.mems, module, i as nat),
                forall|j: int|
                    0 <= j < i ==> (#[trigger] self.mems.items@[old(self).mems.items@.len() + j])@.len()
                        == memories@[j].initial * PAGE_SIZE,
                forall|slot: int|
                    old(self).mems.items@.len() <= slot < self.mems.items@.len() ==> (
                    #[trigger] self.mems.items@[slot])@ == zeroed(self.mems.items@[slot]@.len()),
                forall|k: int|
                    0 <= k < i ==> #[trigger] memory_defined(
                        *self,
                        module,
                        (base + k) as nat,
                        memories@[k],
                    ),
            decreases n - i,
        {
            let initial: usize = memories[i].initial as usize;
            let maximum = match memories[i].maximum {
                Some(m) => Some(m as usize),
                None => None,
            };
            let fits = match maximum {
                Some(m) => initial <= m,
                None => true,
            };
            if initial > MAX_PAGES || initial > usize::MAX / PAGE_SIZE || !fits {
                proof {
                    lemma_memories_fault_stays(memories@, i + 1, n as int);
                }
                return Err(Error::InvalidMemoryLimits(i));
            }
            assert(initial * PAGE_SIZE <= usize::MAX) by (nonlinear_arith)
                requires
                    initial <= usize::MAX / PAGE_SIZE,
                    PAGE_SIZE == 65536,
            ;
            let mem = MemoryInstance::new(initial, maximum);
            let ghost before = *self;
            let _ = self.mems.push(module, mem);
            proof {
                lemma_extends_refl(before.funcs);
                lemma_extends_refl(before.tables);
                lemma_extends_refl(before.mems);
                lemma_extends_refl(before.globals);
                lemma_push_changed(before, *self);
                lemma_grown(*old(self), before, *self);
                lemma_extends_trans(old(self).mems, before.mems, self.mems);
                lemma_defined_one(old(self).mems, before.mems, self.mems, module, i as nat);
                assert forall|j: int| 0 <= j < i + 1 implies (
                #[trigger] self.mems.items@[old(self).mems.items@.len() + j])@.len()
                    == memories@[j].initial * PAGE_SIZE by {
                    if j < i {
                        assert(self.mems.items@[old(self).mems.items@.len() + j]
                            == before.mems.items@[old(self).mems.items@.len() + j]);
                    }
                }
                assert forall|slot: int|
                    old(self).mems.items@.len() <= slot < self.mems.items@.len() implies (
                #[trigger] self.mems.items@[slot])@ == zeroed(self.mems.items@[slot]@.len()) by {
                    if slot < before.mems.items@.len() {
                        assert(self.mems.items@[slot] == before.mems.items@[slot]);
                    }
                }
                lemma_link_extends_rows(before.mems, self.mems, before.mems.items@.len() as usize, module);
                assert forall|k: int| 0 <= k < i + 1 implies #[trigger] memory_defined(
                    *self,
                    module,
                    (base + k) as nat,
                    memories@[k],
                ) by {
                    if k < i {
                        assert(memory_defined(before, module, (base + k) as nat, memories@[k]));
                    }
                }
            }
            i = i + 1;
        }
        Ok(())
    }

    /// Defines the globals of the global section, each with the value of its
    /// constant expression.
    fn define_globals(
        &mut self,
        module: ModuleIndex,
        globals: &Vec<GlobalEntry>,
        Ghost(origin): Ghost<Store<H>>,
    ) -> (r: Result<(), Error>)
        requires
            module.0 != 0,
            old(self).globals.items@ == origin.globals.items@,
        ensures
            r == (match globals_fault(
                origin,
                row_of(old(self).globals, module),
                globals@,
                globals@.len() as int,
            ) {
                Some(e) => Err::<(), Error>(e),
                None => Ok::<(), Error>(()),
            }),
            r is Ok ==> defined_rows(old(self).globals, final(self).globals, module, globals@.len()),
            grown(*old(self), *final(self)),
            final(self).funcs == old(self).funcs,
            final(self).tables == old(self).tables,
            final(self).mems == old(self).mems,
            r is Ok ==> forall|k: int|
                0 <= k < globals@.len() ==> #[trigger] global_defined(
                    *final(self),
                    module,
                    (row_len(old(self).globals, module) + k) as nat,
                    globals@[k],
                ),
    {
        let ghost base = row_len(self.globals, module);
        let ghost row = row_of(self.globals, module);
        let limit: usize = self.globals.items.len();
        let n: usize = globals.len();
        let mut i: usize = 0;
        proof {
            lemma_grown_refl(*self);
            lemma_defined_none(self.globals, module);
        }
        while i < n
            invariant
                i <= n == globals@.len(),
                limit == origin.globals.items@.len(),
                old(self).globals.items@ == origin.globals.items@,
                row == row_of(old(self).globals, module),
                defined_rows(old(self).globals, self.globals, module, i as nat),
                globals_fault(origin, row, globals@, i as int) is None,
                module.0 != 0,
                base == row_len(old(self).globals, module),
                grown(*old(self), *self),
                self.funcs == old(self).funcs,
                self.tables == old(self).tables,
                self.mems == old(self).mems,
                row_len(self.globals, module) == base + i,
                forall|k: int|
                    0 <= k < i ==> #[trigger] global_defined(
                        *self,
                        module,
                        (base + k) as nat,
                        globals@[k],
                    ),
            decreases n - i,
        {
            proof {
                assert(extends(old(self).globals, self.globals));
                assert(self.globals.items@.len() == self.globals.items.len());
                assert(globals_settled(origin, *self, module, row, i as nat));
                lemma_bounded_const(origin, *self, module, row, i as nat, globals@[i as int].init_expr@);
                assert(globals_fault(origin, row, globals@, i + 1) == global_fault(
                    origin,
                    row,
                    globals@[i as int],
                    i,
                ));
            }
            let value = match eval_bounded_const(&globals[i].init_expr, self, module, limit) {
                Ok(value) => value,
                Err(e) => {
                    proof {
                        lemma_globals_fault_stays(origin, row, globals@, i + 1, n as int);
                    }
                    return Err(Error::InvalidGlobalInit(i, e));
                },
            };
            if value.value_type() != globals[i].ty.content_type {
                proof {
                    lemma_globals_fault_stays(origin, row, globals@, i + 1, n as int);
                }
                return Err(Error::GlobalTypeMismatch(i));
            }
            let global = GlobalInstance::new(value, globals[i].ty);
            let ghost before = *self;
            let _ = self.globals.push(module, global);
            proof {
                lemma_grown_refl(before);
                lemma_grown(*old(self), before, *self);
                lemma_defined_one(old(self).globals, before.globals, self.globals, module, i as nat);
                lemma_link_extends_rows(before.globals, self.globals, before.globals.items@.len() as usize, module);
                lemma_const_expr_kept(before, *self, globals@[i as int].init_expr@, module);
                assert forall|k: int| 0 <= k < i + 1 implies #[trigger] global_defined(
                    *self,
                    module,
                    (base + k) as nat,
                    globals@[k],
                ) by {
                    if k < i {
                        assert(global_defined(before, module, (base + k) as nat, globals@[k]));
                        let slot = before.globals.spec_resolve(module, (base + k) as usize)->Some_0;
                        assert(self.globals.items@.subrange(0, before.globals.items@.len() as int)[slot as int]
                            == before.globals.items@[slot as int]);
                        lemma_const_expr_kept(before, *self, globals@[k].init_expr@, module);
                    }
                }
            }
            i = i + 1;
        }
        Ok(())
    }

    /// Writes the element segments into their tables.
    fn init_elements(
        &mut self,
        module: ModuleIndex,
        elements: &Vec<ElementSegment>,
        limit: usize,
        Ghost(origin): Ghost<Store<H>>,
        Ghost(globals_row): Ghost<Seq<usize>>,
        Ghost(defined): Ghost<nat>,
        Ghost(tables_row): Ghost<Seq<usize>>,
        Ghost(tables): Ghost<Seq<Limits>>,
    ) -> (r: Result<(), Error>)
        requires
            limit == origin.globals.items@.len(),
            globals_settled(origin, *old(self), module, globals_row, defined),
            tables_settled(origin, *old(self), module, tables_row, tables),
        ensures
            r == (match elements_fault(
                origin,
                globals_row,
                tables_row,
                tables,
                elements@,
                elements@.len() as int,
            ) {
                Some(e) => Err::<(), Error>(e),
                None => Ok::<(), Error>(()),
            }),
            grown(*old(self), *final(self)),
            same_targets(*old(self), *final(self)),
            final(self).funcs == old(self).funcs,
            final(self).mems == old(self).mems,
            r is Ok ==> forall|slot: usize|
                slot < old(self).tables.items@.len() ==> (#[trigger] final(self).tables.items@[slot as int])@ == elements_written(
                    *old(self),
                    module,
                    elements@,
                    elements@.len() as int,
                    slot,
                    old(self).tables.items@[slot as int]@,
                ),
    {
        let n: usize = elements.len();
        let mut i: usize = 0;
        proof {
            lemma_grown_refl(*self);
        }
        while i < n
            invariant
                i <= n == elements@.len(),
                limit == origin.globals.items@.len(),
                globals_settled(origin, *self, module, globals_row, defined),
                tables_settled(origin, *self, module, tables_row, tables),
                elements_fault(origin, globals_row, tables_row, tables, elements@, i as int) is None,
                grown(*old(self), *self),
                same_targets(*old(self), *self),
                self.funcs == old(self).funcs,
                self.mems == old(self).mems,
                forall|slot: usize|
                    slot < old(self).tables.items@.len() ==> (
                    #[trigger] self.tables.items@[slot as int])@ == elements_written(
                        *old(self),
                        module,
                        elements@,
                        i as int,
                        slot,
                        old(self).tables.items@[slot as int]@,
                    ),
            decreases n - i,
        {
            let segment = &elements[i];
            proof {
                lemma_bounded_const(origin, *self, module, globals_row, defined, segment.offset@);
                lemma_resolve_row(self.tables, module, segment.table_index as usize);
                assert(elements_fault(origin, globals_row, tables_row, tables, elements@, i + 1)
                    == element_fault(origin, globals_row, tables_row, tables, *segment, i));
            }
            let offset = match eval_offset(&segment.offset, self, module, limit) {
                Ok(offset) => offset,
                Err(e) => {
                    proof {
                        lemma_elements_fault_stays(
                            origin, globals_row, tables_row, tables, elements@, i + 1, n as int,
                        );
                    }
                    return Err(e);
                },
            };
            let slot = match self.tables.resolve(module, segment.table_index as usize) {
                Some(slot) => slot,
                None => {
                    proof {
                        lemma_elements_fault_stays(
                            origin, globals_row, tables_row, tables, elements@, i + 1, n as int,
                        );
                    }
                    return Err(Error::UndefinedTable(i));
                },
            };
            let count: usize = segment.members.len();
            let mut data: Vec<FuncAddr> = Vec::new();
            let mut k: usize = 0;
            while k < count
                invariant
                    k <= count == segment.members@.len(),
                    data@.len() == k,
                    forall|j: int|
                        0 <= j < k ==> #[trigger] data@[j] == FuncAddr(
                            module,
                            segment.members@[j] as usize,
                        ),
                decreases count - k,
            {
                data.push(FuncAddr::new_unsafe(module, segment.members[k] as usize));
                k = k + 1;
            }
            let ghost before = *self;
            proof {
                assert(data@ =~= members_of(module, *segment));
                assert(element_target(before, module, *segment) == element_target(
                    *old(self),
                    module,
                    *segment,
                ));
            }
            let written = self.tables.items[slot].initialize(offset, data);
            proof {
                lemma_grown_refl(before);
                assert(same_addresses(before.tables, self.tables));
                lemma_grown(*old(self), before, *self);
                assert forall|other: usize| other < self.tables.items@.len() implies (
                #[trigger] self.tables.items@[other as int])@.len() == table_len_of(
                    origin,
                    tables,
                    other,
                ) by {
                    assert(before.tables.items@[other as int]@.len() == table_len_of(
                        origin,
                        tables,
                        other,
                    ));
                }
            }
            match written {
                Ok(_) => {},
                Err(e) => {
                    proof {
                        lemma_elements_fault_stays(
                            origin, globals_row, tables_row, tables, elements@, i + 1, n as int,
                        );
                    }
                    return Err(Error::InvalidElementSegments(e));
                },
            }
            i = i + 1;
        }
        Ok(())
    }

    /// Writes the data segments into their memories.
    fn init_data(
        &mut self,
        module: ModuleIndex,
        data: &Vec<DataSegment>,
        limit: usize,
        Ghost(origin): Ghost<Store<H>>,
        Ghost(globals_row): Ghost<Seq<usize>>,
        Ghost(defined): Ghost<nat>,
        Ghost(mems_row): Ghost<Seq<usize>>,
        Ghost(memories): Ghost<Seq<Limits>>,
    ) -> (r: Result<(), Error>)
        requires
            limit == origin.globals.items@.len(),
            globals_settled(origin, *old(self), module, globals_row, defined),
            memories_settled(origin, *old(self), module, mems_row, memories),
        ensures
            r == (match data_fault(
                origin,
                globals_row,
                mems_row,
                memories,
                data@,
                data@.len() as int,
            ) {
                Some(e) => Err::<(), Error>(e),
                None => Ok::<(), Error>(()),
            }),
            grown(*old(self), *final(self)),
            same_targets(*old(self), *final(self)),
            final(self).funcs == old(self).funcs,
            final(self).tables == old(self).tables,
            r is Ok ==> forall|slot: usize|
                slot < old(self).mems.items@.len() ==> (#[trigger] final(self).mems.items@[slot as int])@ == data_written(
                    *old(self),
                    module,
                    data@,
                    data@.len() as int,
                    slot,
                    old(self).mems.items@[slot as int]@,
                ),
    {
        let n: usize = data.len();
        let mut i: usize = 0;
        proof {
            lemma_grown_refl(*self);
        }
        while i < n
            invariant
                i <= n == data@.len(),
                limit == origin.globals.items@.len(),
                globals_settled(origin, *self, module, globals_row, defined),
                memories_settled(origin, *self, module, mems_row, memories),
                data_fault(origin, globals_row, mems_row, memories, data@, i as int) is None,
                grown(*old(self), *self),
                same_targets(*old(self), *self),
                self.funcs == old(self).funcs,
                self.tables == old(self).tables,
                forall|slot: usize|
                    slot < old(self).mems.items@.len() ==> (
                    #[trigger] self.mems.items@[slot as int])@ == data_written(
                        *old(self),
                        module,
                        data@,
                        i as int,
                        slot,
                        old(self).mems.items@[slot as int]@,
                    ),
            decreases n - i,
        {
            let segment = &data[i];
            proof {
                lemma_bounded_const(origin, *self, module, globals_row, defined, segment.offset@);
                lemma_resolve_row(self.mems, module, segment.memory_index as usize);
                assert(data_fault(origin, globals_row, mems_row, memories, data@, i + 1)
                    == datum_fault(origin, globals_row, mems_row, memories, *segment, i));
            }
            let offset = match eval_offset(&segment.offset, self, module, limit) {
                Ok(offset) => offset,
                Err(e) => {
                    proof {
                        lemma_data_fault_stays(
                            origin, globals_row, mems_row, memories, data@, i + 1, n as int,
                        );
                    }
                    return Err(e);
                },
            };
            let slot = match self.mems.resolve(module, segment.memory_index as usize) {
                Some(slot) => slot,
                None => {
                    proof {
                        lemma_data_fault_stays(
                            origin, globals_row, mems_row, memories, data@, i + 1, n as int,
                        );
                    }
                    return Err(Error::UndefinedMemory(i));
                },
            };
            let ghost before = *self;
            proof {
                assert(data_target(before, module, *segment) == data_target(
                    *old(self),
                    module,
                    *segment,
                ));
            }
            let len: usize = segment.value.len();
            let written = self.mems.items[slot].store(offset, segment.value.as_slice());
            proof {
                lemma_grown_refl(before);
                assert(same_addresses(before.mems, self.mems));
                if written is Ok {
                    crate::memory::lemma_write_then_read(
                        before.mems.items@[slot as int]@,
                        offset as int,
                        segment.value@,
                    );
                }
                lemma_grown(*old(self), before, *self);
                assert forall|other: usize| other < self.mems.items@.len() implies (
                #[trigger] self.mems.items@[other as int])@.len() == memory_len_of(
                    origin,
                    memories,
                    other,
                ) by {
                    assert(before.mems.items@[other as int]@.len() == memory_len_of(
                        origin,
                        memories,
                        other,
                    ));
                }
            }
            match written {
                Ok(_) => {},
                Err(e) => {
                    proof {
                        lemma_data_fault_stays(
                            origin, globals_row, mems_row, memories, data@, i + 1, n as int,
                        );
                    }
                    return Err(Error::InvalidDataSegments(e));
                },
            }
            i = i + 1;
        }
        Ok(())
    }

    /// Puts the parts of a decoded module into the store as those of module
    /// `module_index`, and returns the module instance.
    fn load_parts(&mut self, module_index: ModuleIndex, module: Module) -> (r: Result<
        DefinedModuleInstance,
        Error,
    >)
        requires
            module_index.0 != 0,
        ensures
            grown(*old(self), *final(self)),
            match r {
                Ok(_) => parts_fault(*old(self), module_index, module) is None,
                Err(e) => parts_fault(*old(self), module_index, module) == Some(e),
            },
            r matches Ok(loaded) ==> {
                &&& loaded.types == module.types
                &&& loaded.start_func == (match module.start {
                    Some(start) => Some(FuncAddr(module_index, start as usize)),
                    None => None,
                })
                &&& loaded.exports@.len() == module.exports@.len()
                &&& forall|i: int|
                    0 <= i < module.exports@.len() ==> (#[trigger] loaded.exports@[i]).name
                        == module.exports@[i].field && loaded.exports@[i].value == export_value(
                        module_index,
                        module.exports@[i].desc,
                    )
                &&& parts_loaded(
                    *old(self),
                    *final(self),
                    module_index,
                    bases_of(*old(self), module_index),
                    module.types@,
                    module.imports@,
                    module.functions@,
                    module.tables@,
                    module.memories@,
                    module.globals@,
                )
                &&& segments_written(
                    *old(self),
                    *final(self),
                    module_index,
                    module.elements@,
                    module.data@,
                )
            },
    {
        let ghost whole = module;
        let limit: usize = self.globals.items.len();
        let Module {
            types,
            imports,
            functions,
            tables,
            memories,
            globals,
            exports,
            start,
            elements,
            data,
        } = module;
        let ghost s0 = *self;
        let ghost bases = bases_of(s0, module_index);
        let ghost own = after_imports(bases, imports@, imports@.len() as int);
        let ghost fs = functions@;
        let ghost no_funcs = Seq::<FuncBody>::empty();
        let ghost no_limits = Seq::<Limits>::empty();
        let ghost no_globals = Seq::<GlobalEntry>::empty();
        let ghost globals_row = linked_row(s0, s0.globals, module_index, whole, Kind::Global);
        let ghost linked_tables = linked_row(s0, s0.tables, module_index, whole, Kind::Table);
        let ghost linked_mems = linked_row(s0, s0.mems, module_index, whole, Kind::Memory);
        let ghost tables_row = full_row(linked_tables, s0.tables.items@.len(), tables@.len());
        let ghost mems_row = full_row(linked_mems, s0.mems.items@.len(), memories@.len());

        self.link_imports(module_index, &imports, &types)?;
        let ghost s1 = *self;
        proof {
            assert(imports_rows(s0, s1, module_index, types@, imports@, imports@.len() as int));
            assert(row_of(s1.globals, module_index) == globals_row);
            assert(row_of(s1.tables, module_index) == linked_tables);
            assert(row_of(s1.mems, module_index) == linked_mems);
            assert(parts_loaded(
                s0, s1, module_index, bases, types@, imports@, no_funcs, no_limits, no_limits, no_globals,
            ));
        }

        let defined = self.define_functions(module_index, &types, functions);
        proof {
            lemma_grown(s0, s1, *self);
        }
        defined?;
        let ghost s2 = *self;
        proof {
            lemma_parts_kept(
                s0, s1, s2, module_index, bases, types@, imports@, no_funcs, no_limits, no_limits, no_globals,
            );
            assert(parts_loaded(
                s0, s2, module_index, bases, types@, imports@, fs, no_limits, no_limits, no_globals,
            ));
        }

        self.define_tables(module_index, &tables);
        let ghost s3 = *self;
        proof {
            lemma_grown(s0, s2, s3);
            lemma_parts_kept(
                s0, s2, s3, module_index, bases, types@, imports@, fs, no_limits, no_limits, no_globals,
            );
            assert(parts_loaded(
                s0, s3, module_index, bases, types@, imports@, fs, tables@, no_limits, no_globals,
            ));
        }

        let defined = self.define_memories(module_index, &memories);
        proof {
            lemma_grown(s0, s3, *self);
        }
        defined?;
        let ghost s4 = *self;
        proof {
            lemma_parts_kept(
                s0, s3, s4, module_index, bases, types@, imports@, fs, tables@, no_limits, no_globals,
            );
            assert(parts_loaded(
                s0, s4, module_index, bases, types@, imports@, fs, tables@, memories@, no_globals,
            ));
        }

        let defined = self.define_globals(module_index, &globals, Ghost(s0));
        proof {
            lemma_grown(s0, s4, *self);
        }
        defined?;
        let ghost s5 = *self;
        proof {
            assert(s5.globals.items@.len() == s5.globals.items.len());
            assert(extends(s4.globals, s5.globals));
            assert(globals_settled(s0, s5, module_index, globals_row, globals@.len()));
            assert(row_of(s3.tables, module_index) == tables_row);
            assert forall|slot: usize| slot < s5.tables.items@.len() implies (
            #[trigger] s5.tables.items@[slot as int])@.len() == table_len_of(
                s0,
                tables@,
                slot,
            ) by {
                if slot < s0.tables.items@.len() {
                    assert(s3.tables.items@.subrange(0, s2.tables.items@.len() as int)[slot as int]
                        == s3.tables.items@[slot as int]);
                } else {
                    let j = slot - s0.tables.items@.len();
                    assert(s3.tables.items@[s2.tables.items@.len() + j]@.len()
                        == tables@[j].initial);
                }
            }
            assert(tables_settled(s0, s5, module_index, tables_row, tables@));
            assert(row_of(s4.mems, module_index) == mems_row);
            assert forall|slot: usize| slot < s5.mems.items@.len() implies (
            #[trigger] s5.mems.items@[slot as int])@.len() == memory_len_of(
                s0,
                memories@,
                slot,
            ) by {
                if slot < s0.mems.items@.len() {
                    assert(s4.mems.items@.subrange(0, s3.mems.items@.len() as int)[slot as int]
                        == s4.mems.items@[slot as int]);
                } else {
                    let j = slot - s0.mems.items@.len();
                    assert(s4.mems.items@[s3.mems.items@.len() + j]@.len() == memories@[j].initial
                        * PAGE_SIZE);
                }
            }
            assert(memories_settled(s0, s5, module_index, mems_row, memories@));
            lemma_parts_kept(
                s0, s4, s5, module_index, bases, types@, imports@, fs, tables@, memories@, no_globals,
            );
            assert(parts_loaded(
                s0, s5, module_index, bases, types@, imports@, fs, tables@, memories@, globals@,
            ));
        }

        let written = self.init_elements(
            module_index,
            &elements,
            limit,
            Ghost(s0),
            Ghost(globals_row),
            Ghost(globals@.len()),
            Ghost(tables_row),
            Ghost(tables@),
        );
        proof {
            lemma_grown(s0, s5, *self);
        }
        written?;
        let ghost s6 = *self;
        proof {
            assert(globals_settled(s0, s6, module_index, globals_row, globals@.len()));
            assert(memories_settled(s0, s6, module_index, mems_row, memories@));
        }
        let written = self.init_data(
            module_index,
            &data,
            limit,
            Ghost(s0),
            Ghost(globals_row),
            Ghost(globals@.len()),
            Ghost(mems_row),
            Ghost(memories@),
        );
        proof {
            lemma_grown(s0, s6, *self);
        }
        written?;
        let ghost s7 = *self;
        proof {
            lemma_changed(s5, s6, s7);
            lemma_parts_kept(
                s0, s5, s7, module_index, bases, types@, imports@, fs, tables@, memories@, globals@,
            );
            // up to the segments, what the store held before is as it was,
            // and what the module defined is empty
            assert forall|slot: usize| slot < s7.tables.items@.len() implies (
            #[trigger] s7.tables.items@[slot as int])@ == elements_written(
                s7,
                module_index,
                elements@,
                elements@.len() as int,
                slot,
                initial_slots(s0, s7, slot),
            ) by {
                lemma_same_targets(
                    s5,
                    s7,
                    module_index,
                    data@,
                    elements@,
                    elements@.len() as int,
                    slot,
                    Seq::<u8>::empty(),
                    s5.tables.items@[slot as int]@,
                );
                if slot < s0.tables.items@.len() {
                    assert(s3.tables.items@.subrange(0, s2.tables.items@.len() as int)[slot as int]
                        == s2.tables.items@[slot as int]);
                } else {
                    assert(s5.tables.items@[slot as int] == s3.tables.items@[slot as int]);
                }
            }
            assert forall|slot: usize| slot < s7.mems.items@.len() implies (
            #[trigger] s7.mems.items@[slot as int])@ == data_written(
                s7,
                module_index,
                data@,
                data@.len() as int,
                slot,
                initial_bytes(s0, s7, slot),
            ) by {
                lemma_same_targets(
                    s6,
                    s7,
                    module_index,
                    data@,
                    elements@,
                    data@.len() as int,
                    slot,
                    s6.mems.items@[slot as int]@,
                    Seq::<Option<FuncAddr>>::empty(),
                );
                if slot < s0.mems.items@.len() {
                    assert(s4.mems.items@.subrange(0, s3.mems.items@.len() as int)[slot as int]
                        == s3.mems.items@[slot as int]);
                } else {
                    assert(s6.mems.items@[slot as int] == s4.mems.items@[slot as int]);
                }
            }
        }

        let made = make_exports(module_index, &exports);
        let start_func = match start {
            Some(start) => Some(FuncAddr::new_unsafe(module_index, start as usize)),
            None => None,
        };
        Ok(DefinedModuleInstance { types, exports: made, start_func })
    }

    /// Takes from module `module` the indices that it got since it had as
    /// many as `bases` says.
    fn unlink(&mut self, module: ModuleIndex, funcs: usize, tables: usize, mems: usize, globals: usize)
        ensures
            final(self).modules == old(self).modules,
            final(self).funcs.items == old(self).funcs.items,
            final(self).tables.items == old(self).tables.items,
            final(self).mems.items == old(self).mems.items,
            final(self).globals.items == old(self).globals.items,
            unlinked(old(self).funcs, final(self).funcs, module, funcs),
            unlinked(old(self).tables, final(self).tables, module, tables),
            unlinked(old(self).mems, final(self).mems, module, mems),
            unlinked(old(self).globals, final(self).globals, module, globals),
    {
        self.funcs.truncate_row(module, funcs);
        self.tables.truncate_row(module, tables);
        self.mems.truncate_row(module, mems);
        self.globals.truncate_row(module, globals);
    }

    /// Loads a decoded module under an optional name and returns its index.
    ///
    /// The imports are linked first, then the module's own functions, tables,
    /// memories and globals are defined, then its element and data segments
    /// are written, and last the module instance is added. Where a step
    /// fails, no module is added and the indices that the module had got are
    /// taken from it again; the instances that were made stay in their slots,
    /// and what the segments wrote stays written.
    ///
    /// The module loads exactly where `load_fault` finds no fault in it, and
    /// fails with the first fault otherwise. An import finds only what an
    /// earlier module exports, and a constant expression reads only a global
    /// that the module imports.
    pub fn load_module(&mut self, name: Option<String>, module: Module) -> (r: Result<
        ModuleIndex,
        Error,
    >)
        ensures
            match r {
                Ok(_) => load_fault(*old(self), module) is None,
                Err(e) => load_fault(*old(self), module) == Some(e),
            },
            old(self).modules@.len() >= u32::MAX ==> r == Err::<ModuleIndex, Error>(
                Error::StoreFull,
            ) && *final(self) == *old(self),
            r is Err ==> final(self).modules == old(self).modules,
            r is Err && old(self).modules@.len() < u32::MAX ==> bases_of(
                *final(self),
                ModuleIndex((old(self).modules@.len() + 1) as u32),
            ) == bases_of(*old(self), ModuleIndex((old(self).modules@.len() + 1) as u32)),
            changed(*old(self), *final(self)),
            r matches Ok(index) ==> {
                &&& index == ModuleIndex((old(self).modules@.len() + 1) as u32)
                &&& final(self).modules@.len() == old(self).modules@.len() + 1
                &&& final(self).modules@.subrange(0, old(self).modules@.len() as int) == old(self).modules@
                &&& final(self).modules@.last().name == name
                &&& final(self).modules@.last().instance matches ModuleInstance::Defined(loaded)
                    && loaded.types == module.types && loaded.start_func == (match module.start {
                    Some(start) => Some(FuncAddr(index, start as usize)),
                    None => None,
                }) && loaded.exports@.len() == module.exports@.len() && forall|i: int|
                    0 <= i < module.exports@.len() ==> (#[trigger] loaded.exports@[i]).name
                        == module.exports@[i].field && loaded.exports@[i].value == export_value(
                        index,
                        module.exports@[i].desc,
                    )
                &&& parts_loaded(
                    *old(self),
                    *final(self),
                    index,
                    bases_of(*old(self), index),
                    module.types@,
                    module.imports@,
                    module.functions@,
                    module.tables@,
                    module.memories@,
                    module.globals@,
                )
                &&& segments_written(
                    *old(self),
                    *final(self),
                    index,
                    module.elements@,
                    module.data@,
                )
            },
    {
        proof {
            lemma_grown_refl(*self);
        }
        let module_index = match self.next_module_index() {
            Some(module_index) => module_index,
            None => {
                return Err(Error::StoreFull);
            },
        };
        let funcs = self.funcs.row_len(module_index);
        let tables = self.tables.row_len(module_index);
        let mems = self.mems.row_len(module_index);
        let globals = self.globals.row_len(module_index);
        let ghost types = module.types@;
        let ghost imports = module.imports@;
        let ghost functions = module.functions@;
        let ghost table_limits = module.tables@;
        let ghost memory_limits = module.memories@;
        let ghost global_entries = module.globals@;
        let ghost elements = module.elements@;
        let ghost data = module.data@;
        match self.load_parts(module_index, module) {
            Ok(instance) => {
                let ghost loaded = *self;
                let _ = self.add_module(name, ModuleInstance::Defined(instance));
                proof {
                    assert(self.modules@.subrange(0, old(self).modules@.len() as int) =~= old(self).modules@);
                    lemma_grown_refl(loaded);
                    assert(changed(loaded, *self));
                    lemma_changed(*old(self), loaded, *self);
                    lemma_parts_kept(
                        *old(self),
                        loaded,
                        *self,
                        module_index,
                        bases_of(*old(self), module_index),
                        types,
                        imports,
                        functions,
                        table_limits,
                        memory_limits,
                        global_entries,
                    );
                    assert forall|slot: usize| slot < self.tables.items@.len() implies (
                    #[trigger] self.tables.items@[slot as int])@ == elements_written(
                        *self,
                        module_index,
                        elements,
                        elements.len() as int,
                        slot,
                        initial_slots(*old(self), *self, slot),
                    ) by {
                        lemma_same_targets(
                            loaded,
                            *self,
                            module_index,
                            data,
                            elements,
                            elements.len() as int,
                            slot,
                            Seq::<u8>::empty(),
                            initial_slots(*old(self), loaded, slot),
                        );
                    }
                    assert forall|slot: usize| slot < self.mems.items@.len() implies (
                    #[trigger] self.mems.items@[slot as int])@ == data_written(
                        *self,
                        module_index,
                        data,
                        data.len() as int,
                        slot,
                        initial_bytes(*old(self), *self, slot),
                    ) by {
                        lemma_same_targets(
                            loaded,
                            *self,
                            module_index,
                            data,
                            elements,
                            data.len() as int,
                            slot,
                            initial_bytes(*old(self), loaded, slot),
                            Seq::<Option<FuncAddr>>::empty(),
                        );
                    }
                }
                Ok(module_index)
            },
            Err(e) => {
                let ghost failed = *self;
                self.unlink(module_index, funcs, tables, mems, globals);
                proof {
                    lemma_unlinked(old(self).funcs, failed.funcs, self.funcs, module_index, funcs);
                    lemma_unlinked(old(self).tables, failed.tables, self.tables, module_index, tables);
                    lemma_unlinked(old(self).mems, failed.mems, self.mems, module_index, mems);
                    lemma_unlinked(old(self).globals, failed.globals, self.globals, module_index, globals);
                    assert(old(self).funcs.items@ =~= self.funcs.items@.subrange(
                        0,
                        old(self).funcs.items@.len() as int,
                    ));
                    assert(old(self).globals.items@ =~= self.globals.items@.subrange(
                        0,
                        old(self).globals.items@.len() as int,
                    ));
                }
                Err(e)
            },
        }
    }
}

/// Whether the rows of module `module` in `after` are its rows in `before`
/// with the slots that the first `n` imports link after them, kind by kind,
/// and nothing else of what imports read has changed.
pub open spec fn imports_rows<H>(
    before: Store<H>,
    after: Store<H>,
    module: ModuleIndex,
    types: Seq<FuncType>,
    imports: Seq<Import>,
    n: int,
) -> bool {
    &&& same_for_imports(before, after, module)
    &&& row_grew(
        before.funcs,
        after.funcs,
        module,
        import_row(before, module, types, imports, n, Kind::Func),
    )
    &&& row_grew(
        before.tables,
        after.tables,
        module,
        import_row(before, module, types, imports, n, Kind::Table),
    )
    &&& row_grew(
        before.mems,
        after.mems,
        module,
        import_row(before, module, types, imports, n, Kind::Memory),
    )
    &&& row_grew(
        before.globals,
        after.globals,
        module,
        import_row(before, module, types, imports, n, Kind::Global),
    )
}

/// The rows after one more import was linked.
pub proof fn lemma_imports_rows_step<H>(
    origin: Store<H>,
    before: Store<H>,
    after: Store<H>,
    module: ModuleIndex,
    types: Seq<FuncType>,
    imports: Seq<Import>,
    i: int,
)
    requires
        0 <= i < imports.len(),
        imports_rows(origin, before, module, types, imports, i),
        import_check(before, module, types, imports[i], i as usize) == import_check(
            origin,
            module,
            types,
            imports[i],
            i as usize,
        ),
        after.modules == before.modules,
        after.funcs.items == before.funcs.items,
        after.tables.items == before.tables.items,
        after.mems.items == before.mems.items,
        after.globals.items == before.globals.items,
        row_grew(
            before.funcs,
            after.funcs,
            module,
            import_adds(before, module, types, imports[i], i as usize, Kind::Func),
        ),
        row_grew(
            before.tables,
            after.tables,
            module,
            import_adds(before, module, types, imports[i], i as usize, Kind::Table),
        ),
        row_grew(
            before.mems,
            after.mems,
            module,
            import_adds(before, module, types, imports[i], i as usize, Kind::Memory),
        ),
        row_grew(
            before.globals,
            after.globals,
            module,
            import_adds(before, module, types, imports[i], i as usize, Kind::Global),
        ),
    ensures
        imports_rows(origin, after, module, types, imports, i + 1),
{
    let at = i as usize;
    lemma_row_grew(
        origin.funcs,
        before.funcs,
        after.funcs,
        module,
        import_row(origin, module, types, imports, i, Kind::Func),
        import_adds(before, module, types, imports[i], at, Kind::Func),
    );
    lemma_row_grew(
        origin.tables,
        before.tables,
        after.tables,
        module,
        import_row(origin, module, types, imports, i, Kind::Table),
        import_adds(before, module, types, imports[i], at, Kind::Table),
    );
    lemma_row_grew(
        origin.mems,
        before.mems,
        after.mems,
        module,
        import_row(origin, module, types, imports, i, Kind::Memory),
        import_adds(before, module, types, imports[i], at, Kind::Memory),
    );
    lemma_row_grew(
        origin.globals,
        before.globals,
        after.globals,
        module,
        import_row(origin, module, types, imports, i, Kind::Global),
        import_adds(before, module, types, imports[i], at, Kind::Global),
    );
    lemma_import_row_step(origin, module, types, imports, i, Kind::Func);
    lemma_import_row_step(origin, module, types, imports, i, Kind::Table);
    lemma_import_row_step(origin, module, types, imports, i, Kind::Memory);
    lemma_import_row_step(origin, module, types, imports, i, Kind::Global);
}

/// The slots of one more import: those before it, then what it adds.
pub proof fn lemma_import_row_step<H>(
    store: Store<H>,
    module: ModuleIndex,
    types: Seq<FuncType>,
    imports: Seq<Import>,
    i: int,
    kind: Kind,
)
    requires
        0 <= i,
    ensures
        import_row(store, module, types, imports, i + 1, kind) == import_row(
            store,
            module,
            types,
            imports,
            i,
            kind,
        ) + import_adds(store, module, types, imports[i], i as usize, kind),
{
    let before = import_row(store, module, types, imports, i, kind);
    assert(before + Seq::<usize>::empty() =~= before);
    match import_check(store, module, types, imports[i], i as usize) {
        Ok((k, slot)) => {
            assert(before + seq![slot] =~= before.push(slot));
        },
        Err(_) => {},
    }
}

/// Whether `after` is `before` with `defined` instances more, which module
/// `module` has got indices for, in their order.
pub open spec fn defined_rows<T>(
    before: LinkableCollection<T>,
    after: LinkableCollection<T>,
    module: ModuleIndex,
    defined: nat,
) -> bool {
    &&& after.items@.len() == before.items@.len() + defined
    &&& row_of(after, module) == full_row(row_of(before, module), before.items@.len(), defined)
    &&& others_same(before, after, module)
}

/// A collection is itself with nothing defined.
pub proof fn lemma_defined_none<T>(c: LinkableCollection<T>, module: ModuleIndex)
    ensures
        defined_rows(c, c, module, 0),
{
    assert(full_row(row_of(c, module), c.items@.len(), 0) =~= row_of(c, module));
}

/// The rows after one more instance was defined.
pub proof fn lemma_defined_one<T>(
    origin: LinkableCollection<T>,
    before: LinkableCollection<T>,
    after: LinkableCollection<T>,
    module: ModuleIndex,
    defined: nat,
)
    requires
        module.0 != 0,
        defined_rows(origin, before, module, defined),
        after.items@.len() == before.items@.len() + 1,
        before.items@.len() <= usize::MAX,
        after.item_addrs_by_module@.map_values(|r: Vec<usize>| r@) == LinkableCollection::<T>::linked(
            before.item_addrs_by_module@,
            before.items@.len() as usize,
            module,
        ),
    ensures
        defined_rows(origin, after, module, defined + 1),
{
    lemma_link_rows(before, after, before.items@.len() as usize, module);
    assert(row_of(after, module) =~= full_row(
        row_of(origin, module),
        origin.items@.len(),
        defined + 1,
    ));
    assert forall|e: ModuleIndex| e != module implies #[trigger] row_of(after, e) == row_of(
        origin,
        e,
    ) by {
        assert(row_of(before, e) == row_of(origin, e));
    }
}

/// `name_position` gives a position of the sequence.
pub proof fn lemma_name_position(modules: Seq<LoadedModule>, name: Seq<char>, from: int)
    requires
        0 <= from,
    ensures
        name_position(modules, name, from) matches Some(p) ==> from <= p < modules.len(),
    decreases modules.len() - from,
{
    if from < modules.len() {
        lemma_name_position(modules, name, from + 1);
    }
}

/// Whether `after` is `before` but for module `module`, which has the first
/// `len` of its indices only, where it had more.
pub open spec fn unlinked<T>(
    before: LinkableCollection<T>,
    after: LinkableCollection<T>,
    module: ModuleIndex,
    len: usize,
) -> bool {
    &&& after.items == before.items
    &&& after.item_addrs_by_module@.len() == before.item_addrs_by_module@.len()
    &&& forall|i: int|
        0 <= i < before.item_addrs_by_module@.len() ==> (#[trigger] after.item_addrs_by_module@[i])@
            == (if i == module.0 - 1 && len <= before.item_addrs_by_module@[i]@.len() {
            before.item_addrs_by_module@[i]@.subrange(0, len as int)
        } else {
            before.item_addrs_by_module@[i]@
        })
}

/// A collection whose module got indices and lost them again resolves what
/// it resolved before, and the module has as many indices as before.
pub proof fn lemma_unlinked<T>(
    origin: LinkableCollection<T>,
    grown: LinkableCollection<T>,
    after: LinkableCollection<T>,
    module: ModuleIndex,
    len: usize,
)
    requires
        same_addresses(origin, grown),
        len == row_len(origin, module),
        unlinked(grown, after, module, len),
    ensures
        same_addresses(origin, after),
        row_len(after, module) == row_len(origin, module),
{
    assert(origin.spec_row_len(module) <= grown.spec_row_len(module));
    assert forall|m: ModuleIndex, index: usize| (#[trigger] origin.spec_resolve(m, index)) is Some implies after.spec_resolve(
        m,
        index,
    ) == origin.spec_resolve(m, index) by {
        assert(grown.spec_resolve(m, index) == origin.spec_resolve(m, index));
        assert(origin.spec_row_len(m) <= grown.spec_row_len(m));
        let row = after.item_addrs_by_module@[m.0 - 1];
    }
    assert forall|m: ModuleIndex| origin.spec_row_len(m) <= #[trigger] after.spec_row_len(m) by {
        assert(origin.spec_row_len(m) <= grown.spec_row_len(m));
        if 1 <= m.0 <= after.item_addrs_by_module@.len() {
            let row = after.item_addrs_by_module@[m.0 - 1];
        }
    }
    if 1 <= module.0 <= after.item_addrs_by_module@.len() {
        let row = after.item_addrs_by_module@[module.0 - 1];
    }
}

/// The rows of a collection after an instance was appended to it and given an
/// index: the module has one more index, which stands for the new slot.
pub proof fn lemma_link_extends_rows<T>(
    before: LinkableCollection<T>,
    after: LinkableCollection<T>,
    slot: usize,
    module: ModuleIndex,
)
    requires
        module.0 != 0,
        slot < after.items@.len(),
        after.item_addrs_by_module@.map_values(|r: Vec<usize>| r@) == LinkableCollection::<T>::linked(
            before.item_addrs_by_module@,
            slot,
            module,
        ),
    ensures
        row_len(after, module) == row_len(before, module) + 1,
        row_len(after, module) <= usize::MAX,
        after.spec_resolve(module, row_len(before, module) as usize) == Some(slot),
{
    let rows = after.item_addrs_by_module@.map_values(|r: Vec<usize>| r@);
    assert(rows.len() == after.item_addrs_by_module@.len());
    assert(rows[module.0 - 1] == after.item_addrs_by_module@[module.0 - 1]@);
    let row = after.item_addrs_by_module@[module.0 - 1];
    assert(row@.len() <= usize::MAX) by {
        vstd::std_specs::vec::axiom_spec_len(&row);
    }
}

/// A store to which an instance was appended has changed.
pub proof fn lemma_push_changed<H>(before: Store<H>, after: Store<H>)
    requires
        after.modules == before.modules,
        extends(before.funcs, after.funcs),
        extends(before.tables, after.tables),
        extends(before.mems, after.mems),
        extends(before.globals, after.globals),
    ensures
        grown(before, after),
{
    assert forall|slot: int| 0 <= slot < before.tables.items@.len() implies (
    #[trigger] after.tables.items@[slot]) == before.tables.items@[slot] by {
        assert(after.tables.items@.subrange(0, before.tables.items@.len() as int)[slot]
            == before.tables.items@[slot]);
    }
    assert forall|slot: int| 0 <= slot < before.mems.items@.len() implies (
    #[trigger] after.mems.items@[slot]) == before.mems.items@[slot] by {
        assert(after.mems.items@.subrange(0, before.mems.items@.len() as int)[slot]
            == before.mems.items@[slot]);
    }
}

/// A collection holds all that it held before a module got one more index.
pub proof fn lemma_link_extends<T>(
    before: LinkableCollection<T>,
    after: LinkableCollection<T>,
    slot: usize,
    module: ModuleIndex,
)
    requires
        after.items == before.items,
        module.0 == 0 ==> after.item_addrs_by_module == before.item_addrs_by_module,
        module.0 != 0 ==> after.item_addrs_by_module@.map_values(|r: Vec<usize>| r@)
            == LinkableCollection::<T>::linked(before.item_addrs_by_module@, slot, module),
    ensures
        extends(before, after),
        same_addresses(before, after),
        module.0 != 0 ==> row_len(after, module) == row_len(before, module) + 1,
        module.0 != 0 && slot < before.items@.len() && row_len(before, module) <= usize::MAX
            ==> after.spec_resolve(module, row_len(before, module) as usize) == Some(slot),
        forall|m: ModuleIndex| m != module ==> row_len(after, m) == row_len(before, m),
{
    assert(after.items@.subrange(0, before.items@.len() as int) =~= before.items@);
    if module.0 != 0 {
        let rows = after.item_addrs_by_module@.map_values(|r: Vec<usize>| r@);
        assert(rows.len() == after.item_addrs_by_module@.len());
        assert(rows[module.0 - 1] == after.item_addrs_by_module@[module.0 - 1]@);
        assert forall|m: ModuleIndex| m != module implies row_len(after, m) == row_len(before, m) by {
            if 1 <= m.0 <= after.item_addrs_by_module@.len() {
                assert(rows[m.0 - 1] == after.item_addrs_by_module@[m.0 - 1]@);
            }
        }
        assert forall|m: ModuleIndex| before.spec_row_len(m) <= #[trigger] after.spec_row_len(m) by {
            if m != module {
                assert(row_len(after, m) == row_len(before, m));
            }
        }
        assert forall|m: ModuleIndex, i: usize| (#[trigger] before.spec_resolve(m, i)) is Some implies after.spec_resolve(
            m,
            i,
        ) == before.spec_resolve(m, i) by {
            assert(rows[m.0 - 1] == after.item_addrs_by_module@[m.0 - 1]@);
        }
    }
}

} // verus!
