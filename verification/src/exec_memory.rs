//! The instructions on memory, on locals and globals, and `drop` and `select`.

use vstd::prelude::*;
use crate::address::{GlobalAddr, MemoryAddr, ModuleIndex};
use crate::executor::{ExecResult, Executor, Machine, Signal, Trap};
use crate::inst::{LoadKind, StoreKind};
use crate::memory;
use crate::memory::{le_encode, le_value, lemma_byte_ranges, lemma_le_value_bound};
use crate::semantics::{
    current_memory, drop_spec, global_get_spec, global_set_spec, load_spec, load_value, load_width,
    local_get_spec, local_set_spec, local_tee_spec, memory_grow_spec, memory_size_spec,
    pop_of_type, pop_value_spec, select_spec, stack_step, store_after, store_spec, store_type, trapped_step, Trapped,
    store_width, value_bits, Effect, Next,
};
use crate::stack;
use crate::store::Store;
use crate::value;
use crate::value::{to_i32, to_i64, to_u32, to_u64, Value, ValueType, F32, F64};

verus! {

/// How a step ends: with the signal, the machine and the change to the store
/// that the instruction's function gives; or with its trap, the stack that
/// the trap leaves, the program counter of `before`, and the store as it was.
pub open spec fn step_matches<H>(
    before: Machine,
    expected: Result<Next, Trapped>,
    r: Result<Signal, Trap>,
    after: Machine,
    store_before: &Store<H>,
    store_now: &Store<H>,
) -> bool {
    match expected {
        Ok(next) => r == Ok::<Signal, Trap>(next.signal) && after == next.machine && store_after(
            store_before,
            next.effect,
            store_now,
        ),
        Err(t) => trapped_step(before, t, r, after) && store_after(
            store_before,
            Effect::Unchanged,
            store_now,
        ),
    }
}

pub(crate) fn load_width_of(kind: LoadKind) -> (w: usize)
    ensures
        w == load_width(kind),
        w <= 8,
{
    match kind {
        LoadKind::I32 | LoadKind::F32 | LoadKind::I64Load32S | LoadKind::I64Load32U => 4,
        LoadKind::I64 | LoadKind::F64 => 8,
        LoadKind::I32Load8S | LoadKind::I32Load8U | LoadKind::I64Load8S | LoadKind::I64Load8U => 1,
        LoadKind::I32Load16S | LoadKind::I32Load16U | LoadKind::I64Load16S | LoadKind::I64Load16U => 2,
    }
}

pub(crate) fn store_width_of(kind: StoreKind) -> (w: usize)
    ensures
        w == store_width(kind),
        w <= 8,
{
    match kind {
        StoreKind::I32 | StoreKind::F32 | StoreKind::I64Store32 => 4,
        StoreKind::I64 | StoreKind::F64 => 8,
        StoreKind::I32Store8 | StoreKind::I64Store8 => 1,
        StoreKind::I32Store16 | StoreKind::I64Store16 => 2,
    }
}

pub(crate) fn store_type_of(kind: StoreKind) -> (ty: ValueType)
    ensures
        ty == store_type(kind),
{
    match kind {
        StoreKind::I32 | StoreKind::I32Store8 | StoreKind::I32Store16 => ValueType::I32,
        StoreKind::I64 | StoreKind::I64Store8 | StoreKind::I64Store16 | StoreKind::I64Store32 => ValueType::I64,
        StoreKind::F32 => ValueType::F32,
        StoreKind::F64 => ValueType::F64,
    }
}

/// Makes the value of a load of the number that its bytes denote: widens it,
/// with or without sign, to the type that the load yields.
pub(crate) fn load_extend(kind: LoadKind, raw: u64, Ghost(bytes): Ghost<Seq<u8>>) -> (v: Value)
    requires
        bytes.len() == load_width(kind),
        raw == le_value(bytes),
    ensures
        v == load_value(kind, bytes),
{
    proof {
        lemma_byte_ranges();
        lemma_le_value_bound(bytes);
    }
    match kind {
        LoadKind::I32 => Value::I32(to_i32(raw as u32)),
        LoadKind::I64 => Value::I64(to_i64(raw)),
        LoadKind::F32 => Value::F32(raw as u32),
        LoadKind::F64 => Value::F64(raw),
        LoadKind::I32Load8S => Value::I32(
            if raw < 0x80 {
                raw as i32
            } else {
                (raw as i64 - 0x100) as i32
            },
        ),
        LoadKind::I32Load8U => Value::I32(raw as i32),
        LoadKind::I32Load16S => Value::I32(
            if raw < 0x8000 {
                raw as i32
            } else {
                (raw as i64 - 0x1_0000) as i32
            },
        ),
        LoadKind::I32Load16U => Value::I32(raw as i32),
        LoadKind::I64Load8S => Value::I64(
            if raw < 0x80 {
                raw as i64
            } else {
                raw as i64 - 0x100
            },
        ),
        LoadKind::I64Load8U => Value::I64(raw as i64),
        LoadKind::I64Load16S => Value::I64(
            if raw < 0x8000 {
                raw as i64
            } else {
                raw as i64 - 0x1_0000
            },
        ),
        LoadKind::I64Load16U => Value::I64(raw as i64),
        LoadKind::I64Load32S => Value::I64(
            if raw < 0x8000_0000 {
                raw as i64
            } else {
                raw as i64 - 0x1_0000_0000
            },
        ),
        LoadKind::I64Load32U => Value::I64(raw as i64),
    }
}

/// The `width` low bytes of a value in little-endian order.
pub fn store_with_width(value: Value, width: usize) -> (bytes: Vec<u8>)
    requires
        width <= 8,
    ensures
        bytes@ == crate::memory::le_bytes(value_bits(value), width as nat),
        bytes@.len() == width,
{
    let bits: u64 = match value {
        Value::I32(x) => to_u32(x) as u64,
        Value::I64(x) => to_u64(x),
        Value::F32(b) => b as u64,
        Value::F64(b) => b,
    };
    le_encode(bits, width)
}

impl Executor {
    /// Takes a value of type `ty` off the stack.
    pub(crate) fn pop_of_type(&mut self, ty: ValueType) -> (r: ExecResult<Value>)
        ensures
            final(self).pc == old(self).pc,
            match pop_of_type(old(self)@.stack, ty) {
                Ok((v, rest)) => r == Ok::<Value, Trap>(v) && final(self)@.stack == rest,
                Err(t) => r matches Err(e) && e@ == t.trap && final(self)@.stack == t.stack,
            },
    {
        let value = match self.stack.pop_value() {
            Ok(v) => v,
            Err(e) => {
                return Err(Trap::Stack(e));
            },
        };
        if value.value_type() == ty {
            Ok(value)
        } else {
            Err(Trap::UnexpectedStackValueType(ty, value.value_type()))
        }
    }

    /// Takes any value off the stack.
    pub(crate) fn pop_value(&mut self) -> (r: ExecResult<Value>)
        ensures
            final(self).pc == old(self).pc,
            match pop_value_spec(old(self)@.stack) {
                Ok((v, rest)) => r == Ok::<Value, Trap>(v) && final(self)@.stack == rest,
                Err(t) => r matches Err(e) && e@ == t.trap && final(self)@.stack == t.stack,
            },
    {
        match self.stack.pop_value() {
            Ok(v) => Ok(v),
            Err(e) => Err(Trap::Stack(e)),
        }
    }

    /// The slot of the memory of the current frame's module.
    pub(crate) fn memory<H>(&self, store: &Store<H>) -> (r: ExecResult<usize>)
        ensures
            match current_memory(self@.stack, store) {
                Ok(slot) => r == Ok::<usize, Trap>(slot) && slot < store.mems.items@.len(),
                Err(t) => r matches Err(e) && e@ == t.trap,
            },
    {
        let frame = match self.stack.current_frame() {
            Ok(frame) => frame,
            Err(e) => {
                return Err(Trap::Stack(e));
            },
        };
        let mem_addr = MemoryAddr::new_unsafe(frame.module_index(), 0);
        match store.mems.resolve(mem_addr.0, mem_addr.1) {
            Some(slot) => Ok(slot),
            None => Err(Trap::UndefinedMemory(0)),
        }
    }

    pub(crate) fn load<H>(&mut self, kind: LoadKind, offset: u32, store: &Store<H>) -> (r: ExecResult<Signal>)
        ensures
            stack_step(old(self)@, load_spec(old(self)@.stack, store, kind, offset), r, final(self)@),
    {
        let base: i32 = self.pop_as()?;
        let slot = self.memory(store)?;
        let mem = &store.mems.items[slot];
        let address: u64 = to_u32(base) as u64 + offset as u64;
        let width = load_width_of(kind);
        if address > usize::MAX as u64 {
            return Err(Trap::Memory(memory::Error::OutOfBounds(None, mem.data_len())));
        }
        proof {
            if address + width <= mem@.len() {
                lemma_byte_ranges();
                lemma_le_value_bound(mem@.subrange(address as int, address + width));
            }
        }
        match mem.load_le(address as usize, width) {
            Ok(raw) => {
                let v = load_extend(
                    kind,
                    raw,
                    Ghost(mem@.subrange(address as int, address + width)),
                );
                self.stack.push_value(v);
                Ok(Signal::Next)
            },
            Err(e) => Err(Trap::Memory(e)),
        }
    }

    pub(crate) fn store<H>(&mut self, kind: StoreKind, offset: u32, store: &mut Store<H>) -> (r: ExecResult<
        Signal,
    >)
        ensures
            step_matches(
                old(self)@,
                store_spec(old(self)@, old(store), kind, offset),
                r,
                final(self)@,
                old(store),
                final(store),
            ),
    {
        let value = self.pop_of_type(store_type_of(kind))?;
        let base: i32 = self.pop_as()?;
        let slot = self.memory(store)?;
        let address: u64 = to_u32(base) as u64 + offset as u64;
        let width = store_width_of(kind);
        if address > usize::MAX as u64 {
            return Err(Trap::Memory(memory::Error::OutOfBounds(None, store.mems.items[slot].data_len())));
        }
        let bytes = store_with_width(value, width);
        match store.mems.items[slot].store(address as usize, bytes.as_slice()) {
            Ok(_) => Ok(Signal::Next),
            Err(e) => Err(Trap::Memory(e)),
        }
    }

    pub(crate) fn memory_size<H>(&mut self, store: &Store<H>) -> (r: ExecResult<Signal>)
        ensures
            stack_step(old(self)@, memory_size_spec(old(self)@.stack, store), r, final(self)@),
    {
        let slot = self.memory(store)?;
        let pages: usize = store.mems.items[slot].page_count();
        self.stack.push_value(Value::I32(pages as i32));
        Ok(Signal::Next)
    }

    pub(crate) fn memory_grow<H>(&mut self, store: &mut Store<H>) -> (r: ExecResult<Signal>)
        ensures
            step_matches(
                old(self)@,
                memory_grow_spec(old(self)@, old(store)),
                r,
                final(self)@,
                old(store),
                final(store),
            ),
    {
        let grow_page: i32 = self.pop_as()?;
        let slot = self.memory(store)?;
        let size: usize = store.mems.items[slot].page_count();
        match store.mems.items[slot].grow(to_u32(grow_page) as usize) {
            Ok(_) => {
                self.stack.push_value(Value::I32(size as i32));
            },
            Err(_) => {
                self.stack.push_value(Value::I32(-1));
            },
        }
        Ok(Signal::Next)
    }

    pub(crate) fn drop_value(&mut self) -> (r: ExecResult<Signal>)
        ensures
            stack_step(old(self)@, drop_spec(old(self)@.stack), r, final(self)@),
    {
        self.pop_value()?;
        Ok(Signal::Next)
    }

    pub(crate) fn select(&mut self) -> (r: ExecResult<Signal>)
        ensures
            stack_step(old(self)@, select_spec(old(self)@.stack), r, final(self)@),
    {
        let cond: i32 = self.pop_as()?;
        let val2 = self.pop_value()?;
        let val1 = self.pop_value()?;
        if cond != 0 {
            self.stack.push_value(val1);
        } else {
            self.stack.push_value(val2);
        }
        Ok(Signal::Next)
    }

    pub(crate) fn local_get(&mut self, index: u32) -> (r: ExecResult<Signal>)
        ensures
            stack_step(old(self)@, local_get_spec(old(self)@.stack, index), r, final(self)@),
    {
        let value = match self.stack.current_frame() {
            Ok(frame) => match frame.local(index as usize) {
                Ok(v) => v,
                Err(e) => {
                    return Err(Trap::Stack(e));
                },
            },
            Err(e) => {
                return Err(Trap::Stack(e));
            },
        };
        self.stack.push_value(value);
        Ok(Signal::Next)
    }

    pub(crate) fn set_local(&mut self, index: usize) -> (r: ExecResult<Signal>)
        requires
            index <= u32::MAX,
        ensures
            stack_step(old(self)@, local_set_spec(old(self)@.stack, index as u32), r, final(self)@),
    {
        let value = self.pop_value()?;
        match self.stack.set_local(index, value) {
            Ok(_) => Ok(Signal::Next),
            Err(e) => Err(Trap::Stack(e)),
        }
    }

    pub(crate) fn local_tee(&mut self, index: u32) -> (r: ExecResult<Signal>)
        ensures
            stack_step(old(self)@, local_tee_spec(old(self)@.stack, index), r, final(self)@),
    {
        let value = self.pop_value()?;
        match self.stack.set_local(index as usize, value) {
            Ok(_) => {
                self.stack.push_value(value);
                Ok(Signal::Next)
            },
            Err(e) => Err(Trap::Stack(e)),
        }
    }

    pub(crate) fn global_get<H>(&mut self, module_index: ModuleIndex, index: u32, store: &Store<H>) -> (r:
        ExecResult<Signal>)
        ensures
            stack_step(
                old(self)@,
                global_get_spec(old(self)@.stack, store, module_index, index),
                r,
                final(self)@,
            ),
    {
        let addr = GlobalAddr::new_unsafe(module_index, index as usize);
        match store.global(addr) {
            Some(global) => {
                self.stack.push_value(global.value());
                Ok(Signal::Next)
            },
            None => Err(Trap::UndefinedGlobal(index as usize)),
        }
    }

    pub(crate) fn global_set<H>(&mut self, module_index: ModuleIndex, index: u32, store: &mut Store<H>) -> (r:
        ExecResult<Signal>)
        ensures
            step_matches(
                old(self)@,
                global_set_spec(old(self)@, old(store), module_index, index),
                r,
                final(self)@,
                old(store),
                final(store),
            ),
    {
        let value = self.pop_value()?;
        let slot = match store.globals.resolve(module_index, index as usize) {
            Some(slot) => slot,
            None => {
                return Err(Trap::UndefinedGlobal(index as usize));
            },
        };
        match store.globals.items[slot].set_value(value) {
            Ok(_) => Ok(Signal::Next),
            Err(e) => Err(Trap::Global(e)),
        }
    }
}

} // verus!
