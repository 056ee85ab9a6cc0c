//! What holds of the interpreter as a whole, proved from the definitions of
//! its instructions.

use vstd::prelude::*;
use crate::address::FuncAddr;
use crate::executor::{
    continues, fetch, invocation_result, is_run, step_post, Machine, Signal, StepRecord, Trap,
    TrapView, WasmError,
};
use crate::inst::{InstructionKind, IntBinOp, IntWidth, LoadKind, StoreKind};
use crate::memory;
use crate::memory::{
    byte_range, lemma_byte_ranges, lemma_le_bytes_len, lemma_le_round_trip, lemma_write_then_read,
    write_bytes,
};
use crate::numeric::{i32_binary_spec, i64_binary_spec};
use crate::semantics::{
    access_error, advance, branch_spec, call_indirect_spec, current_memory, effective_address,
    end_spec,
    func_arity, invoke_spec, lemma_pop_values, load_spec, load_value, load_width, numeric_spec,
    pop_as_spec, pop_values,
    push_value_spec, push_values, return_spec, store_bytes, store_spec, store_type, store_width,
    target_label, unwind, value_bits, CallTarget, Effect, Trapped,
};
use crate::stack::{
    current_frame_of, frame_labels, lemma_top_frame, lemma_top_frame_skip, top_frame, StackEntry,
};
use crate::table::table_get;
use crate::store::Store;
use crate::value;
use crate::value::{Value, ValueType};

verus! {

/// The load that reads back what a store of the full width wrote.
pub open spec fn load_of(kind: StoreKind) -> LoadKind {
    match kind {
        StoreKind::I32 => LoadKind::I32,
        StoreKind::I64 => LoadKind::I64,
        StoreKind::F32 => LoadKind::F32,
        StoreKind::F64 => LoadKind::F64,
        StoreKind::I32Store8 => LoadKind::I32Load8U,
        StoreKind::I32Store16 => LoadKind::I32Load16U,
        StoreKind::I64Store8 => LoadKind::I64Load8U,
        StoreKind::I64Store16 => LoadKind::I64Load16U,
        StoreKind::I64Store32 => LoadKind::I64Load32U,
    }
}

/// A load yields the value of the bytes of the memory from the effective
/// address on, as many as its width; an access that ends past the memory
/// traps with `OutOfBounds`, and leaves the stack without the base.
pub proof fn theorem_load_reads_memory<H>(
    s: Seq<StackEntry>,
    store: &Store<H>,
    kind: LoadKind,
    offset: u32,
)
    requires
        pop_as_spec::<i32>(s) is Ok,
        current_memory(pop_as_spec::<i32>(s)->Ok_0.1, store) is Ok,
    ensures
        ({
            let (base, rest) = pop_as_spec::<i32>(s)->Ok_0;
            let slot = current_memory(rest, store)->Ok_0;
            let data = store.mems.items@[slot as int]@;
            let address = effective_address(base, offset);
            let width = load_width(kind) as nat;
            &&& address == crate::value::u32_of(base) + offset
            &&& address + width <= data.len() ==> load_spec(s, store, kind, offset) == Ok::<
                Seq<StackEntry>,
                Trapped,
            >(push_value_spec(rest, load_value(kind, data.subrange(address as int, (address + width) as int))))
            &&& address + width > data.len() ==> load_spec(s, store, kind, offset) == Err::<
                Seq<StackEntry>,
                Trapped,
            >(Trapped { trap: TrapView::Memory(access_error(data.len(), address, width)), stack: rest })
            &&& access_error(data.len(), address, width) is OutOfBounds
        }),
{
}

/// A store that ends past the memory traps with `OutOfBounds`; one that does
/// not writes exactly the bytes of the value from the effective address on.
pub proof fn theorem_store_writes_memory<H>(
    m: Machine,
    store: &Store<H>,
    kind: StoreKind,
    offset: u32,
)
    ensures
        store_spec(m, store, kind, offset) matches Ok(next) ==> (next.effect matches Effect::WriteMemory {
            slot,
            offset: address,
            bytes,
        } && slot < store.mems.items@.len() && bytes.len() == store_width(kind) && address
            + bytes.len() <= store.mems.items@[slot as int]@.len()),
        store_spec(m, store, kind, offset) matches Err(t) ==> (t.trap matches TrapView::Memory(e)
            ==> e is OutOfBounds),
{
    if store_spec(m, store, kind, offset) is Ok {
        let next = store_spec(m, store, kind, offset)->Ok_0;
        match next.effect {
            Effect::WriteMemory { slot, offset: address, bytes } => {
                lemma_le_bytes_len(
                    value_bits(crate::semantics::pop_of_type(m.stack, store_type(kind))->Ok_0.0),
                    store_width(kind) as nat,
                );
            },
            _ => {},
        }
    }
}

/// The bits of a value are below the range of its type's width.
proof fn lemma_value_bits_bound(v: Value)
    ensures
        match v.value_type() {
            ValueType::I32 | ValueType::F32 => value_bits(v) < byte_range(4),
            _ => value_bits(v) < byte_range(8),
        },
{
    lemma_byte_ranges();
}

/// Storing a value of any of the four types and loading the same type from
/// the same address yields the value, bit for bit.
pub proof fn theorem_store_load_round_trip(data: Seq<u8>, address: nat, kind: StoreKind, v: Value)
    requires
        kind == StoreKind::I32 || kind == StoreKind::I64 || kind == StoreKind::F32 || kind
            == StoreKind::F64,
        v.value_type() == store_type(kind),
        address + store_width(kind) <= data.len(),
    ensures
        load_width(load_of(kind)) == store_width(kind),
        load_value(
            load_of(kind),
            write_bytes(data, address as int, store_bytes(kind, v)).subrange(
                address as int,
                address + store_width(kind),
            ),
        ) == v,
{
    let width = store_width(kind) as nat;
    let bytes = store_bytes(kind, v);
    lemma_le_bytes_len(value_bits(v), width);
    lemma_write_then_read(data, address as int, bytes);
    lemma_le_round_trip(value_bits(v), width);
    lemma_value_bits_bound(v);
    lemma_byte_ranges();
    vstd::arithmetic::div_mod::lemma_small_mod(value_bits(v), byte_range(width));
    crate::value::lemma_sign_round_trip();
}

/// The low byte, two bytes or four bytes of an integer, stored by a narrow
/// store and loaded with sign extension, yield the integer where it fits
/// the narrow width as a signed number.
pub proof fn theorem_signed_narrow_round_trip(data: Seq<u8>, address: nat, kind: StoreKind, v: Value)
    requires
        address + store_width(kind) <= data.len(),
        match (kind, v) {
            (StoreKind::I32Store8, Value::I32(x)) => -0x80 <= x < 0x80,
            (StoreKind::I32Store16, Value::I32(x)) => -0x8000 <= x < 0x8000,
            (StoreKind::I64Store8, Value::I64(x)) => -0x80 <= x < 0x80,
            (StoreKind::I64Store16, Value::I64(x)) => -0x8000 <= x < 0x8000,
            (StoreKind::I64Store32, Value::I64(x)) => -0x8000_0000 <= x < 0x8000_0000,
            _ => false,
        },
    ensures
        load_value(
            signed_load_of(kind),
            write_bytes(data, address as int, store_bytes(kind, v)).subrange(
                address as int,
                address + store_width(kind),
            ),
        ) == v,
{
    let width = store_width(kind) as nat;
    let bytes = store_bytes(kind, v);
    lemma_le_bytes_len(value_bits(v), width);
    lemma_write_then_read(data, address as int, bytes);
    lemma_le_round_trip(value_bits(v), width);
    lemma_byte_ranges();
    let bits = value_bits(v);
    let range = byte_range(width);
    let q: int = match kind {
        StoreKind::I32Store8 => 0x100_0000,
        StoreKind::I32Store16 => 0x1_0000,
        StoreKind::I64Store8 => 0x100_0000_0000_0000,
        StoreKind::I64Store16 => 0x1_0000_0000_0000,
        _ => 0x1_0000_0000,
    };
    match v {
        Value::I32(x) => {
            if x >= 0 {
                vstd::arithmetic::div_mod::lemma_small_mod(bits, range);
            } else {
                // the bits are 2^32 + x, and 2^32 is a multiple of the range
                assert(bits == (q - 1) * range + (range + x)) by (nonlinear_arith)
                    requires
                        bits == 0x1_0000_0000 + x,
                        (q == 0x100_0000 && range == 0x100) || (q == 0x1_0000 && range == 0x1_0000),
                ;
                vstd::arithmetic::div_mod::lemma_mod_multiples_vanish(q - 1, range + x, range as int);
                vstd::arithmetic::div_mod::lemma_small_mod((range + x) as nat, range);
            }
        },
        Value::I64(x) => {
            if x >= 0 {
                vstd::arithmetic::div_mod::lemma_small_mod(bits, range);
            } else {
                assert(bits == (q - 1) * range + (range + x)) by (nonlinear_arith)
                    requires
                        bits == 0x1_0000_0000_0000_0000 + x,
                        (q == 0x100_0000_0000_0000 && range == 0x100) || (q == 0x1_0000_0000_0000
                            && range == 0x1_0000) || (q == 0x1_0000_0000 && range == 0x1_0000_0000),
                ;
                vstd::arithmetic::div_mod::lemma_mod_multiples_vanish(q - 1, range + x, range as int);
                vstd::arithmetic::div_mod::lemma_small_mod((range + x) as nat, range);
            }
        },
        _ => {},
    }
}

/// The load with sign extension that goes with a narrow store.
pub open spec fn signed_load_of(kind: StoreKind) -> LoadKind {
    match kind {
        StoreKind::I32Store8 => LoadKind::I32Load8S,
        StoreKind::I32Store16 => LoadKind::I32Load16S,
        StoreKind::I64Store8 => LoadKind::I64Load8S,
        StoreKind::I64Store16 => LoadKind::I64Load16S,
        StoreKind::I64Store32 => LoadKind::I64Load32S,
        _ => load_of(kind),
    }
}

/// The low byte, two bytes or four bytes of an integer, stored by a narrow
/// store and loaded with zero extension, yield the integer where it fits
/// the narrow width as an unsigned number.
pub proof fn theorem_unsigned_narrow_round_trip(data: Seq<u8>, address: nat, kind: StoreKind, v: Value)
    requires
        address + store_width(kind) <= data.len(),
        match (kind, v) {
            (StoreKind::I32Store8, Value::I32(x)) => 0 <= x < 0x100,
            (StoreKind::I32Store16, Value::I32(x)) => 0 <= x < 0x1_0000,
            (StoreKind::I64Store8, Value::I64(x)) => 0 <= x < 0x100,
            (StoreKind::I64Store16, Value::I64(x)) => 0 <= x < 0x1_0000,
            (StoreKind::I64Store32, Value::I64(x)) => 0 <= x < 0x1_0000_0000,
            _ => false,
        },
    ensures
        load_value(
            load_of(kind),
            write_bytes(data, address as int, store_bytes(kind, v)).subrange(
                address as int,
                address + store_width(kind),
            ),
        ) == v,
{
    let width = store_width(kind) as nat;
    let bytes = store_bytes(kind, v);
    lemma_le_bytes_len(value_bits(v), width);
    lemma_write_then_read(data, address as int, bytes);
    lemma_le_round_trip(value_bits(v), width);
    lemma_byte_ranges();
    vstd::arithmetic::div_mod::lemma_small_mod(value_bits(v), byte_range(width));
}

/// Signed division of the least integer by -1 traps with `IntegerOverflow`,
/// and every division and remainder by zero traps with `IntegerDivByZero`.
pub proof fn theorem_division_traps(op: IntBinOp, a: i32, b: i64)
    ensures
        i32_binary_spec(IntBinOp::DivS, i32::MIN, -1i32) == Err::<i32, value::Error>(
            value::Error::IntegerOverflow,
        ),
        i64_binary_spec(IntBinOp::DivS, i64::MIN, -1i64) == Err::<i64, value::Error>(
            value::Error::IntegerOverflow,
        ),
        op == IntBinOp::DivS || op == IntBinOp::DivU || op == IntBinOp::RemS || op == IntBinOp::RemU
            ==> i32_binary_spec(op, a, 0) == Err::<i32, value::Error>(
            value::Error::IntegerDivByZero,
        ) && i64_binary_spec(op, b, 0) == Err::<i64, value::Error>(value::Error::IntegerDivByZero),
{
}

/// A division that traps has taken both operands off the stack and has put
/// nothing on it.
pub proof fn theorem_division_trap_leaves_no_value(rest: Seq<StackEntry>, op: IntBinOp, a: i32, b: i64)
    ensures
        numeric_spec(
            InstructionKind::IntBinary { width: IntWidth::W32, op: IntBinOp::DivS },
            rest.push(StackEntry::Value(Value::I32(i32::MIN))).push(StackEntry::Value(Value::I32(-1i32))),
        ) == Err::<Seq<StackEntry>, Trapped>(
            Trapped { trap: TrapView::Value(value::Error::IntegerOverflow), stack: rest },
        ),
        numeric_spec(
            InstructionKind::IntBinary { width: IntWidth::W64, op: IntBinOp::DivS },
            rest.push(StackEntry::Value(Value::I64(i64::MIN))).push(StackEntry::Value(Value::I64(-1i64))),
        ) == Err::<Seq<StackEntry>, Trapped>(
            Trapped { trap: TrapView::Value(value::Error::IntegerOverflow), stack: rest },
        ),
        op == IntBinOp::DivS || op == IntBinOp::DivU || op == IntBinOp::RemS || op == IntBinOp::RemU
            ==> numeric_spec(
            InstructionKind::IntBinary { width: IntWidth::W32, op },
            rest.push(StackEntry::Value(Value::I32(a))).push(StackEntry::Value(Value::I32(0))),
        ) == Err::<Seq<StackEntry>, Trapped>(
            Trapped { trap: TrapView::Value(value::Error::IntegerDivByZero), stack: rest },
        ) && numeric_spec(
            InstructionKind::IntBinary { width: IntWidth::W64, op },
            rest.push(StackEntry::Value(Value::I64(b))).push(StackEntry::Value(Value::I64(0))),
        ) == Err::<Seq<StackEntry>, Trapped>(
            Trapped { trap: TrapView::Value(value::Error::IntegerDivByZero), stack: rest },
        ),
{
    lemma_two_on_top(rest, Value::I32(i32::MIN), Value::I32(-1i32));
    lemma_two_on_top(rest, Value::I64(i64::MIN), Value::I64(-1i64));
    lemma_two_on_top(rest, Value::I32(a), Value::I32(0));
    lemma_two_on_top(rest, Value::I64(b), Value::I64(0));
}

/// Under two values that were put on a stack lies the stack.
proof fn lemma_two_on_top(rest: Seq<StackEntry>, lhs: Value, rhs: Value)
    ensures
        rest.push(StackEntry::Value(lhs)).push(StackEntry::Value(rhs)).drop_last() == rest.push(
            StackEntry::Value(lhs),
        ),
        rest.push(StackEntry::Value(lhs)).drop_last() == rest,
{
    assert(rest.push(StackEntry::Value(lhs)).push(StackEntry::Value(rhs)).drop_last() =~= rest.push(
        StackEntry::Value(lhs),
    ));
    assert(rest.push(StackEntry::Value(lhs)).drop_last() =~= rest);
}

/// A call that traps enters nothing: the program counter stays, no frame
/// goes on the stack, and the stack is what it was, but for the values on
/// top that a call with too few arguments has taken off. A call of a
/// function that is not there leaves the stack as it was.
pub proof fn theorem_failed_call_enters_nothing<H>(m: Machine, store: &Store<H>, addr: FuncAddr)
    requires
        invoke_spec(m, store, addr) is Err,
    ensures
        ({
            let t = invoke_spec(m, store, addr)->Err_0;
            &&& t.stack.len() <= m.stack.len()
            &&& t.stack == m.stack.subrange(0, t.stack.len() as int)
            &&& forall|j: int| t.stack.len() <= j < m.stack.len() ==> (#[trigger] m.stack[j]) is Value
            &&& store.funcs.spec_resolve(addr.0, addr.1) is None ==> t.trap == TrapView::UndefinedFunc(
                addr.1,
            ) && t.stack == m.stack
        }),
{
    crate::stack::lemma_values_on_top(m.stack);
    assert(m.stack.subrange(0, m.stack.len() as int) =~= m.stack);
}

/// An indirect call takes the index off the stack and reads the function in
/// that slot of the table. Where the function has the declared type, the
/// call is a call of that function. Where it has another type, the call
/// traps with the function's name, the declared type and the function's
/// type, and enters nothing.
pub proof fn theorem_indirect_call<H>(m: Machine, store: &Store<H>, index: u32)
    requires
        top_frame(m.stack) is Some,
        1 <= current_frame_of(m.stack)->Ok_0.module_index.0 <= store.modules@.len(),
        store.modules@[current_frame_of(m.stack)->Ok_0.module_index.0 - 1].instance is Defined,
        index < store.modules@[current_frame_of(m.stack)->Ok_0.module_index.0
            - 1].instance->Defined_0.types@.len(),
        pop_as_spec::<i32>(m.stack) is Ok,
        store.tables.spec_resolve(current_frame_of(m.stack)->Ok_0.module_index, 0) is Some,
        table_get(
            store.tables.items@[store.tables.spec_resolve(
                current_frame_of(m.stack)->Ok_0.module_index,
                0,
            )->Some_0 as int]@,
            crate::value::u32_of(pop_as_spec::<i32>(m.stack)->Ok_0.0) as usize,
        ) is Ok,
    ensures
        ({
            let frame = current_frame_of(m.stack)->Ok_0;
            let declared = store.modules@[frame.module_index.0 - 1].instance->Defined_0.types@[index as int];
            let (slot_index, rest) = pop_as_spec::<i32>(m.stack)->Ok_0;
            let table = store.tables.spec_resolve(frame.module_index, 0)->Some_0;
            let func_addr = table_get(
                store.tables.items@[table as int]@,
                crate::value::u32_of(slot_index) as usize,
            )->Ok_0;
            match store.funcs.spec_resolve(func_addr.0, func_addr.1) {
                None => call_indirect_spec(m, store, index) == Err::<CallTarget, Trapped>(
                    Trapped { trap: TrapView::UndefinedFunc(func_addr.1), stack: rest },
                ),
                Some(slot) => {
                    let func = store.funcs.items@[slot as int];
                    if func.spec_ty()@ == declared@ {
                        call_indirect_spec(m, store, index) == invoke_spec(
                            Machine { stack: rest, ..m },
                            store,
                            func_addr,
                        )
                    } else {
                        call_indirect_spec(m, store, index) == Err::<CallTarget, Trapped>(
                            Trapped {
                                trap: TrapView::IndirectCallTypeMismatch(
                                    func.spec_name()@,
                                    declared@,
                                    func.spec_ty()@,
                                ),
                                stack: rest,
                            },
                        )
                    }
                },
            }
        }),
{
}

/// A step that traps is the last of its run, and the invocation fails with
/// its trap.
pub proof fn theorem_trap_ends_invocation<H>(
    trace: Seq<StepRecord<H>>,
    start: Machine,
    store_before: Store<H>,
    end: Machine,
    store_now: Store<H>,
    max_steps: u64,
    result_types: Seq<ValueType>,
    r: Result<Vec<Value>, WasmError>,
    k: int,
)
    requires
        is_run(trace, start, store_before, end, store_now),
        invocation_result(trace, max_steps, end, result_types, r),
        0 <= k < trace.len(),
        trace[k].outcome is Err,
    ensures
        k == trace.len() - 1,
        end == trace[k].after,
        store_now == trace[k].store_after,
        r matches Err(WasmError::ExecutionError(trap)) && trace[k].outcome == Err::<Signal, Trap>(
            trap,
        ),
{
    if k < trace.len() - 1 {
        assert(continues(trace[k].outcome));
    }
}

/// An invocation whose run comes to an indirect call that traps fails with
/// the trap of the call, and the call is the last step of the run: it has
/// entered no function. The machine is then past the call, with the stack
/// that the trap leaves; `theorem_indirect_call` says what the trap is where
/// the function in the table is of another type than the declared one.
pub proof fn theorem_indirect_call_trap_ends_invocation<H>(
    trace: Seq<StepRecord<H>>,
    start: Machine,
    store_before: Store<H>,
    end: Machine,
    store_now: Store<H>,
    max_steps: u64,
    result_types: Seq<ValueType>,
    r: Result<Vec<Value>, WasmError>,
    k: int,
    index: u32,
)
    requires
        is_run(trace, start, store_before, end, store_now),
        invocation_result(trace, max_steps, end, result_types, r),
        0 <= k < trace.len(),
        fetch(trace[k].before.pc, &trace[k].store_before) matches Ok((inst, _)) && (
        inst.kind matches InstructionKind::CallIndirect { index: declared, .. } && declared == index),
        advance(trace[k].before.pc) is Some,
        call_indirect_spec(
            Machine { pc: advance(trace[k].before.pc)->Some_0, stack: trace[k].before.stack },
            &trace[k].store_before,
            index,
        ) is Err,
    ensures
        ({
            let called = Machine {
                pc: advance(trace[k].before.pc)->Some_0,
                stack: trace[k].before.stack,
            };
            let t = call_indirect_spec(called, &trace[k].store_before, index)->Err_0;
            &&& k == trace.len() - 1
            &&& r matches Err(WasmError::ExecutionError(trap)) && trap@ == t.trap
            &&& end == (Machine { pc: called.pc, stack: t.stack })
        }),
{
    reveal(step_post);
    assert(step_post(
        trace[k].before,
        &trace[k].store_before,
        trace[k].outcome,
        trace[k].after,
        &trace[k].store_after,
    ));
    theorem_trap_ends_invocation(
        trace,
        start,
        store_before,
        end,
        store_now,
        max_steps,
        result_types,
        r,
        k,
    );
}

/// Putting values on a stack adds as many entries as there are values, and
/// leaves what was there.
pub proof fn lemma_push_values(s: Seq<StackEntry>, vs: Seq<Value>)
    ensures
        push_values(s, vs).len() == s.len() + vs.len(),
        push_values(s, vs).subrange(0, s.len() as int) == s,
        forall|j: int| s.len() <= j < s.len() + vs.len() ==> (#[trigger] push_values(s, vs)[j]) is Value,
{
    assert(push_values(s, vs).subrange(0, s.len() as int) =~= s);
}

/// A call of a defined function takes the arguments off the stack and puts
/// the frame and the label of the return on it; the frame is then the
/// current one.
pub proof fn theorem_call_enters<H>(m: Machine, store: &Store<H>, addr: FuncAddr)
    requires
        invoke_spec(m, store, addr) matches Ok(CallTarget::Entered(_)),
    ensures
        ({
            let entered = invoke_spec(m, store, addr)->Ok_0->Entered_0;
            let slot = store.funcs.spec_resolve(addr.0, addr.1)->Some_0;
            let params = store.funcs.items@[slot as int].spec_ty().params@.len();
            &&& params <= m.stack.len()
            &&& entered.stack.len() == m.stack.len() - params + 2
            &&& entered.stack.subrange(0, m.stack.len() - params) == m.stack.subrange(
                0,
                m.stack.len() - params,
            )
            &&& top_frame(entered.stack) == Some(m.stack.len() - params)
            &&& frame_labels(entered.stack).len() == 1
            &&& func_arity(store, entered.pc.exec_addr) == Ok::<nat, TrapView>(
                store.funcs.items@[slot as int].spec_ty().returns@.len(),
            )
        }),
{
    let slot = store.funcs.spec_resolve(addr.0, addr.1)->Some_0;
    let params = store.funcs.items@[slot as int].spec_ty().params@.len();
    let entered = invoke_spec(m, store, addr)->Ok_0->Entered_0;
    lemma_pop_values(m.stack, params);
    let rest = pop_values(m.stack, params)->Ok_0.1;
    let s = entered.stack;
    assert(s.subrange(0, m.stack.len() - params) =~= m.stack.subrange(0, m.stack.len() - params));
    assert(s.drop_last().last() is Activation);
    assert(s.drop_last().drop_last() =~= rest);
    // the label is the only entry above the frame
    assert(s.subrange(rest.len() as int + 1, s.len() as int) =~= seq![s.last()]);
    assert(seq![s.last()].drop_last() =~= Seq::<StackEntry>::empty());
    reveal_with_fuel(crate::stack::labels_of, 3);
    reveal_with_fuel(crate::stack::top_frame, 3);
}

/// A return leaves the stack as high as it was below the frame plus the
/// number of values that the function returns, and leaves what was below
/// the frame as it was.
pub proof fn theorem_return_balance<H>(m: Machine, store: &Store<H>)
    requires
        return_spec(m, store) is Ok,
    ensures
        ({
            let after = return_spec(m, store)->Ok_0.1;
            let frame = top_frame(m.stack)->Some_0;
            let arity = func_arity(store, m.pc.exec_addr)->Ok_0;
            &&& top_frame(m.stack) is Some
            &&& after.stack.len() == frame + arity
            &&& after.stack.subrange(0, frame) == m.stack.subrange(0, frame)
        }),
{
    let arity = func_arity(store, m.pc.exec_addr)->Ok_0;
    lemma_pop_values(m.stack, arity);
    let (results, s1) = pop_values(m.stack, arity)->Ok_0;
    lemma_top_frame(m.stack);
    lemma_top_frame(s1);
    crate::stack::lemma_values_on_top(m.stack);
    // the values that went were above the frame
    assert forall|i: int| s1.len() <= i < m.stack.len() implies !(
    #[trigger] m.stack[i] is Activation) by {}
    lemma_top_frame_skip(m.stack, s1.len() as int);
    let p = top_frame(s1)->Some_0;
    lemma_push_values(s1.subrange(0, p), results);
    assert(s1.subrange(0, p) =~= m.stack.subrange(0, p));
}

/// The end of a function's body, reached at the top level of the function,
/// leaves the stack as a return does: as high as it was below the frame plus
/// the number of values that the function returns.
pub proof fn theorem_end_balance<H>(m: Machine, store: &Store<H>)
    requires
        end_spec(m, store) is Ok,
        frame_labels(m.stack).len() == 1,
    ensures
        ({
            let after = end_spec(m, store)->Ok_0.1;
            let frame = top_frame(m.stack)->Some_0;
            let arity = func_arity(store, m.pc.exec_addr)->Ok_0;
            &&& top_frame(m.stack) is Some
            &&& after.stack.len() == frame + arity
            &&& after.stack.subrange(0, frame) == m.stack.subrange(0, frame)
        }),
{
    let arity = func_arity(store, m.pc.exec_addr)->Ok_0;
    lemma_pop_values(m.stack, arity);
    let (results, s1) = pop_values(m.stack, arity)->Ok_0;
    let s2 = s1.drop_last();
    lemma_top_frame(m.stack);
    lemma_top_frame(s2);
    assert forall|i: int| s2.len() <= i < m.stack.len() implies !(
    #[trigger] m.stack[i] is Activation) by {
        if i > s2.len() {
            assert(m.stack[m.stack.len() - 1 - (m.stack.len() - 1 - i)] == StackEntry::Value(
                results[m.stack.len() - 1 - i],
            ));
        } else {
            assert(m.stack[i] == s1.last());
        }
    }
    assert(m.stack.subrange(0, s2.len() as int) =~= s2);
    lemma_top_frame_skip(m.stack, s2.len() as int);
    let p = top_frame(s2)->Some_0;
    lemma_push_values(s1.subrange(0, p), results);
    assert(s1.subrange(0, p) =~= m.stack.subrange(0, p));
}

/// A stack of values holds no label.
proof fn lemma_values_hold_no_label(s: Seq<StackEntry>)
    requires
        forall|j: int| 0 <= j < s.len() ==> (#[trigger] s[j]) is Value,
    ensures
        crate::stack::labels_of(s).len() == 0,
    decreases s.len(),
{
    if s.len() > 0 {
        assert(s.last() is Value);
        assert forall|j: int| 0 <= j < s.drop_last().len() implies (#[trigger] s.drop_last()[j]) is Value by {
            assert(s.drop_last()[j] == s[j]);
        }
        lemma_values_hold_no_label(s.drop_last());
    }
}

/// The end of a block, reached inside a function whose frame holds the
/// label of the block above that of the function, succeeds with `Next` and
/// removes the label of the block and nothing else: the program counter
/// stays, the stack is one entry lower, what was below the label is as it
/// was, and the values that were above it are above it still, the one that
/// was topmost now lowest. One value, or none, is where it was.
pub proof fn theorem_block_end_balance<H>(m: Machine, store: &Store<H>)
    requires
        top_frame(m.stack) is Some,
        frame_labels(m.stack).len() >= 2,
    ensures
        end_spec(m, store) matches Ok((signal, after)) && ({
            let values = crate::stack::values_on_top(m.stack);
            let label = m.stack.len() - values - 1;
            &&& signal == Signal::Next
            &&& values < m.stack.len()
            &&& m.stack[label] is Label
            &&& after.pc == m.pc
            &&& after.stack.len() == m.stack.len() - 1
            &&& after.stack.subrange(0, label) == m.stack.subrange(0, label)
            &&& forall|j: int|
                0 <= j < values ==> #[trigger] after.stack[label + j] == m.stack[m.stack.len() - 1 - j]
            &&& values <= 1 ==> after.stack == m.stack.subrange(0, label) + m.stack.subrange(
                label + 1,
                m.stack.len() as int,
            )
        }),
{
    let s = m.stack;
    let values = crate::stack::values_on_top(s);
    crate::stack::lemma_values_on_top(s);
    lemma_top_frame(s);
    lemma_pop_values(s, values);
    let p = top_frame(s)->Some_0;
    // the activation lies below the values on top
    assert(values < s.len()) by {
        if values >= s.len() {
            assert(s[p] is Value);
        }
    }
    let label = s.len() - values - 1;
    assert(p <= label) by {
        if p > label {
            assert(s[p] is Value);
        }
    }
    // what lies under the values is a label: an activation there would leave
    // the frame without labels
    assert(s[label] is Label) by {
        if s[label] is Activation {
            assert(p == label);
            let above = s.subrange(p + 1, s.len() as int);
            assert forall|j: int| 0 <= j < above.len() implies (#[trigger] above[j]) is Value by {
                assert(above[j] == s[p + 1 + j]);
            }
            lemma_values_hold_no_label(above);
        }
    }
    let (popped, s1) = pop_values(s, values)->Ok_0;
    assert(s1.last() == s[label]);
    lemma_push_values(s1.drop_last(), popped);
    let after = end_spec(m, store)->Ok_0.1;
    assert(after.stack.subrange(0, label) =~= s.subrange(0, label));
    assert forall|j: int| 0 <= j < values implies #[trigger] after.stack[label + j] == s[s.len() - 1
        - j] by {
        assert(after.stack[label + j] == StackEntry::Value(popped[j]));
    }
    if values <= 1 {
        assert(after.stack =~= s.subrange(0, label) + s.subrange(label + 1, s.len() as int));
    }
}

/// From a call to the return: where a defined function is called on the
/// stack `caller.stack`, and its body returns from a machine whose current
/// frame is still the one that the call made, the stack is then higher than
/// before the call by the number of values that the function returns less
/// the number that it takes.
pub proof fn theorem_call_return_balance<H>(
    caller: Machine,
    store: &Store<H>,
    addr: FuncAddr,
    body_end: Machine,
)
    requires
        invoke_spec(caller, store, addr) matches Ok(CallTarget::Entered(_)),
        body_end.pc.exec_addr == invoke_spec(caller, store, addr)->Ok_0->Entered_0.pc.exec_addr,
        top_frame(body_end.stack) == top_frame(invoke_spec(caller, store, addr)->Ok_0->Entered_0.stack),
        return_spec(body_end, store) is Ok,
    ensures
        ({
            let slot = store.funcs.spec_resolve(addr.0, addr.1)->Some_0;
            let ty = store.funcs.items@[slot as int].spec_ty();
            return_spec(body_end, store)->Ok_0.1.stack.len() - caller.stack.len() == ty.returns@.len()
                - ty.params@.len()
        }),
{
    theorem_call_enters(caller, store, addr);
    theorem_return_balance(body_end, store);
}

/// Unwinding leaves a prefix of the stack.
pub proof fn lemma_unwind_prefix(s: Seq<StackEntry>, n: nat)
    ensures
        unwind(s, n) matches Ok(rest) ==> rest.len() < s.len() && rest == s.subrange(
            0,
            rest.len() as int,
        ),
    decreases s.len(),
{
    if s.len() > 0 {
        lemma_unwind_prefix(s.drop_last(), n);
        lemma_unwind_prefix(s.drop_last(), (n - 1) as nat);
        if unwind(s, n) is Ok {
            let rest = unwind(s, n)->Ok_0;
            assert(rest =~= s.subrange(0, rest.len() as int));
        }
    }
}

/// A branch to a block, an if or a loop leaves the stack as high as it was
/// below the target label plus the number of values that the label carries,
/// and the carried values are those that were on top, in their order.
pub proof fn theorem_branch_balance<H>(m: Machine, store: &Store<H>, depth: u32)
    requires
        branch_spec(m, store, depth) is Ok,
        !(target_label(m.stack, depth)->Ok_0 is Return),
    ensures
        ({
            let after = branch_spec(m, store, depth)->Ok_0.1;
            let label = target_label(m.stack, depth)->Ok_0;
            let arity = label.arity() as int;
            let below = after.stack.len() - arity;
            &&& 0 <= below < m.stack.len() - arity
            &&& after.stack.subrange(0, below) == m.stack.subrange(0, below)
            &&& after.stack.subrange(below, after.stack.len() as int) == m.stack.subrange(
                m.stack.len() - arity,
                m.stack.len() as int,
            )
        }),
{
    let label = target_label(m.stack, depth)->Ok_0;
    let arity = label.arity() as nat;
    lemma_pop_values(m.stack, arity);
    let (carried, s1) = pop_values(m.stack, arity)->Ok_0;
    lemma_unwind_prefix(s1, (depth + 1) as nat);
    let s2 = unwind(s1, (depth + 1) as nat)->Ok_0;
    let stack = push_values(s2, carried.reverse());
    lemma_push_values(s2, carried.reverse());
    let after = branch_spec(m, store, depth)->Ok_0.1;
    assert(after.stack == stack);
    assert(stack.subrange(0, s2.len() as int) =~= m.stack.subrange(0, s2.len() as int));
    assert(stack.subrange(s2.len() as int, stack.len() as int) =~= m.stack.subrange(
        m.stack.len() - arity,
        m.stack.len() as int,
    )) by {
        assert forall|j: int| 0 <= j < arity implies stack[s2.len() + j] == #[trigger] m.stack[m.stack.len()
            - arity + j] by {
            assert(carried.reverse()[j] == carried[arity - 1 - j]);
            assert(m.stack[m.stack.len() - 1 - (arity - 1 - j)] == StackEntry::Value(
                carried[arity - 1 - j],
            ));
        }
    }
}

} // verus!
