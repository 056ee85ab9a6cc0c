//! The balance of a whole invocation: what a function that was invoked
//! leaves on the stack when its run ends.

use vstd::prelude::*;
use crate::address::{ExecutableFuncAddr, FuncAddr, ModuleIndex};
use crate::exec_call::call_step;
use crate::executor::{
    Machine, ReturnValError, Signal, StepRecord, Trap, TrapView, WasmError, continues, fetch,
    invocation_result, is_run, lemma_pop_result_typed, pop_result_spec, start_machine, step_post,
};
use crate::func::DefinedFunctionInstance;
use crate::inst::{BlockType, InstructionKind, br_table_target};
use crate::semantics::{
    CallTarget, advance, binary_spec, branch_spec, call_indirect_spec, delegated,
    delegated_operands, end_spec, final_signal, func_arity, if_spec, invoke_spec, lemma_pop_values,
    numeric_spec, plain_spec, pop_as_spec, pop_values, push_values, return_spec, target_label,
    unary_spec, unwind,
};
use crate::stack::{
    FrameView, Label, StackEntry, current_frame_of, frame_labels, lemma_top_frame,
    lemma_top_frame_skip, set_local_stack, top_frame, values_on_top,
};
use crate::store::Store;
use crate::table::table_get;
use crate::theorems::{
    lemma_push_values, lemma_unwind_prefix, theorem_call_enters, theorem_end_balance,
    theorem_return_balance,
};
use crate::value;
use crate::value::{F32, F64, NativeValue, Value, ValueType};

verus! {

/// Whether the stack `t` has its current frame where `s` has it, with all
/// that lies below it, and with the same function and return address in it.
pub open spec fn keeps_frame(s: Seq<StackEntry>, t: Seq<StackEntry>) -> bool {
    &&& top_frame(s) is Some
    &&& top_frame(t) == top_frame(s)
    &&& t.subrange(0, top_frame(s)->Some_0) == s.subrange(0, top_frame(s)->Some_0)
    &&& t[top_frame(s)->Some_0]->Activation_0.ret_pc == s[top_frame(s)->Some_0]->Activation_0.ret_pc
    &&& t[top_frame(s)->Some_0]->Activation_0.exec_addr
        == s[top_frame(s)->Some_0]->Activation_0.exec_addr
}

/// A stack that is `s` up to `n`, above its current frame, and holds no
/// activation from there on keeps the frame.
pub proof fn lemma_keeps_frame(s: Seq<StackEntry>, t: Seq<StackEntry>, n: int)
    requires
        top_frame(s) is Some,
        0 <= n <= s.len(),
        n <= t.len(),
        t.subrange(0, n) == s.subrange(0, n),
        forall|i: int| n <= i < s.len() ==> !(#[trigger] s[i] is Activation),
        forall|i: int| n <= i < t.len() ==> !(#[trigger] t[i] is Activation),
    ensures
        keeps_frame(s, t),
{
    lemma_top_frame(s);
    lemma_top_frame_skip(s, n);
    lemma_top_frame_skip(t, n);
    let p = top_frame(s)->Some_0;
    assert(p < n);
    assert forall|i: int| 0 <= i < n implies t[i] == s[i] by {
        assert(t.subrange(0, n)[i] == t[i]);
        assert(s.subrange(0, n)[i] == s[i]);
    }
    assert(t.subrange(0, p) =~= s.subrange(0, p));
}

/// Setting a local keeps the frame.
pub proof fn lemma_set_local_keeps_frame(s: Seq<StackEntry>, index: usize, val: Value)
    requires
        top_frame(s) is Some,
    ensures
        keeps_frame(s, set_local_stack(s, index, val)),
{
    lemma_top_frame(s);
    let p = top_frame(s)->Some_0;
    let t = set_local_stack(s, index, val);
    lemma_top_frame_skip(t, p + 1);
    assert(t.subrange(0, p + 1).last() == t[p]);
    assert(t.subrange(0, p) =~= s.subrange(0, p));
}

/// One value taken off, where there is one, keeps the frame.
pub proof fn lemma_pop_keeps_frame(s: Seq<StackEntry>)
    requires
        top_frame(s) is Some,
        s.len() > 0,
        s.last() is Value,
    ensures
        keeps_frame(s, s.drop_last()),
        top_frame(s.drop_last()) is Some,
{
    lemma_top_frame(s);
    assert(s.drop_last().subrange(0, s.len() - 1) =~= s.subrange(0, s.len() - 1));
    lemma_keeps_frame(s, s.drop_last(), s.len() - 1);
}

/// An entry put on that is no activation keeps the frame.
pub proof fn lemma_push_keeps_frame(s: Seq<StackEntry>, e: StackEntry)
    requires
        top_frame(s) is Some,
        !(e is Activation),
    ensures
        keeps_frame(s, s.push(e)),
        top_frame(s.push(e)) is Some,
{
    assert(s.push(e).subrange(0, s.len() as int) =~= s.subrange(0, s.len() as int));
    lemma_keeps_frame(s, s.push(e), s.len() as int);
}

/// An operator of one operand keeps the frame.
pub proof fn lemma_unary_keeps_frame<T: NativeValue>(s: Seq<StackEntry>)
    requires
        top_frame(s) is Some,
    ensures
        forall|f: spec_fn(T) -> Result<Value, value::Error>|
            (#[trigger] unary_spec::<T>(s, f)) is Ok ==> keeps_frame(s, unary_spec::<T>(s, f)->Ok_0),
{
    assert forall|f: spec_fn(T) -> Result<Value, value::Error>|
        (#[trigger] unary_spec::<T>(s, f)) is Ok implies keeps_frame(
        s,
        unary_spec::<T>(s, f)->Ok_0,
    ) by {
        let t = unary_spec::<T>(s, f)->Ok_0;
        lemma_pop_keeps_frame(s);
        lemma_push_keeps_frame(s.drop_last(), t.last());
        assert(t =~= s.drop_last().push(t.last()));
    }
}

/// An operator of two operands keeps the frame.
pub proof fn lemma_binary_keeps_frame<T: NativeValue>(s: Seq<StackEntry>)
    requires
        top_frame(s) is Some,
    ensures
        forall|f: spec_fn(T, T) -> Result<Value, value::Error>|
            (#[trigger] binary_spec::<T>(s, f)) is Ok ==> keeps_frame(
                s,
                binary_spec::<T>(s, f)->Ok_0,
            ),
{
    assert forall|f: spec_fn(T, T) -> Result<Value, value::Error>|
        (#[trigger] binary_spec::<T>(s, f)) is Ok implies keeps_frame(
        s,
        binary_spec::<T>(s, f)->Ok_0,
    ) by {
        let t = binary_spec::<T>(s, f)->Ok_0;
        lemma_pop_keeps_frame(s);
        lemma_pop_keeps_frame(s.drop_last());
        lemma_push_keeps_frame(s.drop_last().drop_last(), t.last());
        assert(t =~= s.drop_last().drop_last().push(t.last()));
    }
}

/// A numeric instruction that is computed here keeps the frame.
pub proof fn lemma_numeric_keeps_frame(kind: InstructionKind, s: Seq<StackEntry>)
    requires
        top_frame(s) is Some,
        numeric_spec(kind, s) is Ok,
    ensures
        keeps_frame(s, numeric_spec(kind, s)->Ok_0),
{
    lemma_unary_keeps_frame::<i32>(s);
    lemma_unary_keeps_frame::<i64>(s);
    lemma_unary_keeps_frame::<F32>(s);
    lemma_unary_keeps_frame::<F64>(s);
    lemma_binary_keeps_frame::<i32>(s);
    lemma_binary_keeps_frame::<i64>(s);
    lemma_binary_keeps_frame::<F32>(s);
    lemma_binary_keeps_frame::<F64>(s);
}

/// Whether a step from `m` to `n` stayed in the function and kept its frame.
pub open spec fn stays(m: Machine, n: Machine) -> bool {
    keeps_frame(m.stack, n.stack) && n.pc.exec_addr == m.pc.exec_addr
}

/// An instruction that neither calls nor branches nor returns, and that
/// is computed here, stays in the function and keeps its frame.
pub proof fn lemma_plain_stays<H>(
    m: Machine,
    store: &Store<H>,
    kind: InstructionKind,
    module_index: ModuleIndex,
)
    requires
        top_frame(m.stack) is Some,
        plain_spec(m, store, kind, module_index) is Ok,
        !(kind is If),
        !(kind is Else),
        !(kind is End),
        !(kind is Br),
        !(kind is BrIf),
        !(kind is BrTable),
        !(kind is Return),
    ensures
        stays(m, plain_spec(m, store, kind, module_index)->Ok_0.machine),
{
    let s = m.stack;
    let n = plain_spec(m, store, kind, module_index)->Ok_0.machine;
    lemma_top_frame(s);
    assert(s.subrange(0, s.len() as int) =~= s);
    match kind {
        InstructionKind::Nop => {
            lemma_keeps_frame(s, s, s.len() as int);
        },
        InstructionKind::Block { .. } | InstructionKind::Loop { .. } => {
            lemma_push_keeps_frame(s, n.stack.last());
            assert(n.stack =~= s.push(n.stack.last()));
        },
        InstructionKind::I32Const { .. } | InstructionKind::I64Const { .. } | InstructionKind::F32Const {
            ..
        } | InstructionKind::F64Const { .. } | InstructionKind::MemorySize { .. } | InstructionKind::LocalGet {
            ..
        } | InstructionKind::GlobalGet { .. } => {
            lemma_push_keeps_frame(s, n.stack.last());
            assert(n.stack =~= s.push(n.stack.last()));
        },
        InstructionKind::Drop => {
            lemma_pop_keeps_frame(s);
        },
        InstructionKind::Select => {
            lemma_pop_keeps_frame(s);
            lemma_pop_keeps_frame(s.drop_last());
            lemma_pop_keeps_frame(s.drop_last().drop_last());
            let rest = s.drop_last().drop_last().drop_last();
            lemma_push_keeps_frame(rest, n.stack.last());
            assert(n.stack =~= rest.push(n.stack.last()));
        },
        InstructionKind::LocalSet { local_index } => {
            lemma_pop_keeps_frame(s);
            let v = s.last()->Value_0;
            lemma_set_local_keeps_frame(s.drop_last(), local_index as usize, v);
        },
        InstructionKind::LocalTee { local_index } => {
            lemma_pop_keeps_frame(s);
            let v = s.last()->Value_0;
            let t = set_local_stack(s.drop_last(), local_index as usize, v);
            lemma_set_local_keeps_frame(s.drop_last(), local_index as usize, v);
            lemma_push_keeps_frame(t, StackEntry::Value(v));
        },
        InstructionKind::GlobalSet { .. } => {
            lemma_pop_keeps_frame(s);
        },
        InstructionKind::Load { .. } | InstructionKind::MemoryGrow { .. } => {
            lemma_pop_keeps_frame(s);
            lemma_push_keeps_frame(s.drop_last(), n.stack.last());
            assert(n.stack =~= s.drop_last().push(n.stack.last()));
        },
        InstructionKind::Store { .. } => {
            lemma_pop_keeps_frame(s);
            lemma_pop_keeps_frame(s.drop_last());
        },
        InstructionKind::Unreachable | InstructionKind::Unsupported | InstructionKind::Call { .. }
        | InstructionKind::CallIndirect { .. } => {},
        _ => {
            lemma_numeric_keeps_frame(kind, s);
        },
    }
}

/// An instruction that the float unit computes keeps the frame.
pub proof fn lemma_delegated_keeps_frame(kind: InstructionKind, s: Seq<StackEntry>, t: Seq<StackEntry>)
    requires
        top_frame(s) is Some,
        delegated_operands(kind, s) matches Ok(rest) && t.len() == rest.len() + 1 && t.drop_last()
            == rest && t.last() is Value,
    ensures
        keeps_frame(s, t),
{
    let rest = delegated_operands(kind, s)->Ok_0;
    lemma_top_frame(s);
    assert(s.subrange(0, s.len() as int) =~= s);
    if rest == s {
        lemma_keeps_frame(s, s, s.len() as int);
    } else if rest == s.drop_last() {
        lemma_pop_keeps_frame(s);
    } else {
        lemma_pop_keeps_frame(s);
        lemma_pop_keeps_frame(s.drop_last());
        assert(rest == s.drop_last().drop_last());
    }
    lemma_push_keeps_frame(rest, t.last());
    assert(t =~= rest.push(t.last()));
}

/// Whether the frames of a stack are linked as the calls of an invocation
/// of the function in slot `root` link them. `frame` is a frame and `below`
/// what lies below it. The frame without a return address is that of the
/// function that was invoked, and lies at the bottom. Every other frame
/// returns into the function of the frame that is the next one below it.
pub open spec fn linked(below: Seq<StackEntry>, frame: FrameView, root: ExecutableFuncAddr) -> bool
    decreases below.len(),
{
    match frame.ret_pc {
        None => below.len() == 0 && frame.exec_addr == root,
        Some(ret_pc) => match top_frame(below) {
            Some(q) => 0 <= q < below.len() && below[q] is Activation && below[q]->Activation_0.exec_addr
                == ret_pc.exec_addr && linked(below.subrange(0, q), below[q]->Activation_0, root),
            None => false,
        },
    }
}

/// Whether the machine `m` is inside an invocation of the function in slot
/// `root`: it has a current frame, which is that of the function that it
/// executes, and its frames are linked.
pub open spec fn inside(m: Machine, root: ExecutableFuncAddr) -> bool {
    top_frame(m.stack) matches Some(p) && 0 <= p < m.stack.len() && m.stack[p] is Activation
        && m.stack[p]->Activation_0.exec_addr == m.pc.exec_addr && linked(
        m.stack.subrange(0, p),
        m.stack[p]->Activation_0,
        root,
    )
}

/// A machine that stays where a machine inside an invocation was is inside it.
pub proof fn lemma_stays_inside(m: Machine, n: Machine, root: ExecutableFuncAddr)
    requires
        inside(m, root),
        stays(m, n),
    ensures
        inside(n, root),
{
    lemma_top_frame(n.stack);
    let p = top_frame(m.stack)->Some_0;
    let f = m.stack[p]->Activation_0;
    let g = n.stack[p]->Activation_0;
    assert(linked(m.stack.subrange(0, p), f, root) == linked(n.stack.subrange(0, p), g, root));
}

/// Whether a step from `m` to `n` left the current function with `arity`
/// values: the frame and all above it are gone, the values lie where the
/// frame was, and execution goes on where the frame says, or stays where it
/// is after the function that was invoked.
pub open spec fn leaves(m: Machine, n: Machine, arity: nat) -> bool {
    &&& top_frame(m.stack) matches Some(p) && 0 <= p < m.stack.len() && m.stack[p] is Activation
        && n.stack.len() == p + arity && n.stack.subrange(0, p) == m.stack.subrange(0, p) && (forall|
        i: int,
    |
        p <= i < n.stack.len() ==> (#[trigger] n.stack[i]) is Value) && n.pc == (
    match m.stack[p]->Activation_0.ret_pc {
        Some(ret_pc) => ret_pc,
        None => m.pc,
    })
}

/// Leaving a function inside an invocation leads back into the caller; leaving
/// the function that was invoked leaves its results, as many as `arity`,
/// and nothing else.
pub proof fn lemma_leaves_inside(m: Machine, n: Machine, arity: nat, root: ExecutableFuncAddr)
    requires
        inside(m, root),
        leaves(m, n, arity),
    ensures
        top_frame(n.stack) is Some ==> inside(n, root),
        top_frame(n.stack) is None ==> m.pc.exec_addr == root && n.stack.len() == arity && forall|
            i: int,
        |
            0 <= i < n.stack.len() ==> (#[trigger] n.stack[i]) is Value,
{
    let p = top_frame(m.stack)->Some_0;
    let frame = m.stack[p]->Activation_0;
    let below = m.stack.subrange(0, p);
    lemma_top_frame_skip(n.stack, p);
    lemma_top_frame(below);
    match frame.ret_pc {
        None => {
            assert(below.len() == 0);
        },
        Some(ret_pc) => {
            let q = top_frame(below)->Some_0;
            assert(n.stack[q] == n.stack.subrange(0, p)[q]);
            assert(n.stack.subrange(0, q) =~= below.subrange(0, q));
        },
    }
}

/// Taking values off keeps the frame.
pub proof fn lemma_pop_values_keeps_frame(s: Seq<StackEntry>, n: nat)
    requires
        top_frame(s) is Some,
        pop_values(s, n) is Ok,
    ensures
        keeps_frame(s, pop_values(s, n)->Ok_0.1),
{
    lemma_pop_values(s, n);
    let (vs, rest) = pop_values(s, n)->Ok_0;
    assert forall|i: int| rest.len() <= i < s.len() implies !(#[trigger] s[i] is Activation) by {
        assert(s[s.len() - 1 - (s.len() - 1 - i)] == StackEntry::Value(vs[s.len() - 1 - i]));
    }
    assert(rest.subrange(0, rest.len() as int) =~= s.subrange(0, rest.len() as int));
    lemma_keeps_frame(s, rest, rest.len() as int);
}

/// Putting values on keeps the frame.
pub proof fn lemma_push_values_keeps_frame(s: Seq<StackEntry>, vs: Seq<Value>)
    requires
        top_frame(s) is Some,
    ensures
        keeps_frame(s, push_values(s, vs)),
{
    lemma_push_values(s, vs);
    assert(s.subrange(0, s.len() as int) =~= s);
    lemma_keeps_frame(s, push_values(s, vs), s.len() as int);
}

/// Unwinding takes no activation off.
pub proof fn lemma_unwind_takes_no_frame(s: Seq<StackEntry>, n: nat)
    ensures
        unwind(s, n) matches Ok(rest) ==> rest.len() < s.len() && rest == s.subrange(
            0,
            rest.len() as int,
        ) && forall|i: int| rest.len() <= i < s.len() ==> !(#[trigger] s[i] is Activation),
    decreases s.len(),
{
    lemma_unwind_prefix(s, n);
    if s.len() > 0 && unwind(s, n) is Ok {
        let rest = unwind(s, n)->Ok_0;
        lemma_unwind_takes_no_frame(s.drop_last(), n);
        lemma_unwind_takes_no_frame(s.drop_last(), (n - 1) as nat);
        assert forall|i: int| rest.len() <= i < s.len() implies !(#[trigger] s[i] is Activation) by {
            if i < s.len() - 1 {
                assert(s.drop_last()[i] == s[i]);
            }
        }
    }
}

/// Unwinding keeps the frame.
pub proof fn lemma_unwind_keeps_frame(s: Seq<StackEntry>, n: nat)
    requires
        top_frame(s) is Some,
        unwind(s, n) is Ok,
    ensures
        keeps_frame(s, unwind(s, n)->Ok_0),
{
    lemma_unwind_takes_no_frame(s, n);
    let rest = unwind(s, n)->Ok_0;
    assert(rest.subrange(0, rest.len() as int) =~= s.subrange(0, rest.len() as int));
    lemma_keeps_frame(s, rest, rest.len() as int);
}

/// A return leaves the function with as many values as it returns.
pub proof fn lemma_return_leaves<H>(m: Machine, store: &Store<H>)
    requires
        return_spec(m, store) is Ok,
    ensures
        return_spec(m, store)->Ok_0.0 == Signal::Next,
        leaves(m, return_spec(m, store)->Ok_0.1, func_arity(store, m.pc.exec_addr)->Ok_0),
{
    let arity = func_arity(store, m.pc.exec_addr)->Ok_0;
    let n = return_spec(m, store)->Ok_0.1;
    theorem_return_balance(m, store);
    lemma_pop_values(m.stack, arity);
    let (results, s1) = pop_values(m.stack, arity)->Ok_0;
    lemma_top_frame(m.stack);
    lemma_pop_values_keeps_frame(m.stack, arity);
    let p = top_frame(s1)->Some_0;
    lemma_push_values(s1.subrange(0, p), results);
}

/// The end of a function's body leaves the function with as many values as
/// it returns.
pub proof fn lemma_end_leaves<H>(m: Machine, store: &Store<H>)
    requires
        end_spec(m, store) is Ok,
        frame_labels(m.stack).len() == 1,
    ensures
        leaves(m, end_spec(m, store)->Ok_0.1, func_arity(store, m.pc.exec_addr)->Ok_0),
{
    let arity = func_arity(store, m.pc.exec_addr)->Ok_0;
    theorem_end_balance(m, store);
    lemma_pop_values(m.stack, arity);
    let (results, s1) = pop_values(m.stack, arity)->Ok_0;
    lemma_top_frame(m.stack);
    lemma_pop_values_keeps_frame(m.stack, arity);
    lemma_top_frame(s1);
    let s2 = s1.drop_last();
    assert(s2.subrange(0, s2.len() as int) =~= s1.subrange(0, s2.len() as int));
    lemma_keeps_frame(s1, s2, s2.len() as int);
    let p = top_frame(s2)->Some_0;
    lemma_push_values(s2.subrange(0, p), results);
    assert(s2.subrange(0, p) =~= s1.subrange(0, p));
}

/// The end of a block stays in the function and keeps its frame.
pub proof fn lemma_end_stays<H>(m: Machine, store: &Store<H>)
    requires
        end_spec(m, store) is Ok,
        frame_labels(m.stack).len() != 1,
    ensures
        stays(m, end_spec(m, store)->Ok_0.1),
{
    let s = m.stack;
    let k = values_on_top(s);
    lemma_top_frame(s);
    lemma_pop_values_keeps_frame(s, k);
    let (values, s1) = pop_values(s, k)->Ok_0;
    lemma_top_frame(s1);
    let s2 = s1.drop_last();
    assert(s2.subrange(0, s2.len() as int) =~= s1.subrange(0, s2.len() as int));
    lemma_keeps_frame(s1, s2, s2.len() as int);
    lemma_push_values_keeps_frame(s2, values);
}

/// An `if` stays in the function and keeps its frame.
pub proof fn lemma_if_stays<H>(m: Machine, store: &Store<H>, ty: BlockType)
    requires
        top_frame(m.stack) is Some,
        if_spec(m, store, ty) is Ok,
    ensures
        stays(m, if_spec(m, store, ty)->Ok_0.1),
{
    let s = m.stack;
    lemma_pop_keeps_frame(s);
    lemma_push_keeps_frame(s.drop_last(), StackEntry::Label(Label::If(ty.arity())));
}

/// Whether the machine `n`, which a step inside an invocation of the
/// function in slot `root` led to, is inside the invocation still, or holds
/// the results of the function and nothing else.
pub open spec fn goes_on<H>(n: Machine, store: &Store<H>, root: ExecutableFuncAddr) -> bool {
    if top_frame(n.stack) is Some {
        inside(n, root)
    } else {
        &&& func_arity(store, root) is Ok
        &&& n.stack.len() == func_arity(store, root)->Ok_0
        &&& forall|i: int| 0 <= i < n.stack.len() ==> (#[trigger] n.stack[i]) is Value
    }
}

/// A return inside an invocation goes on in the caller, or ends the
/// invocation with the results.
pub proof fn lemma_return_goes_on<H>(m: Machine, store: &Store<H>, root: ExecutableFuncAddr)
    requires
        inside(m, root),
        return_spec(m, store) is Ok,
    ensures
        goes_on(return_spec(m, store)->Ok_0.1, store, root),
{
    lemma_return_leaves(m, store);
    lemma_leaves_inside(
        m,
        return_spec(m, store)->Ok_0.1,
        func_arity(store, m.pc.exec_addr)->Ok_0,
        root,
    );
}

/// A branch inside an invocation stays in the function, or returns from it.
pub proof fn lemma_branch_goes_on<H>(m: Machine, store: &Store<H>, depth: u32, root: ExecutableFuncAddr)
    requires
        inside(m, root),
        branch_spec(m, store, depth) is Ok,
    ensures
        goes_on(branch_spec(m, store, depth)->Ok_0.1, store, root),
{
    let label = target_label(m.stack, depth)->Ok_0;
    let (carried, s1) = pop_values(m.stack, label.arity() as nat)->Ok_0;
    lemma_pop_values_keeps_frame(m.stack, label.arity() as nat);
    let s2 = unwind(s1, (depth + 1) as nat)->Ok_0;
    lemma_unwind_keeps_frame(s1, (depth + 1) as nat);
    let stack = push_values(s2, carried.reverse());
    lemma_push_values_keeps_frame(s2, carried.reverse());
    let unwound = Machine { pc: m.pc, stack };
    lemma_stays_inside(m, unwound, root);
    match label {
        Label::Return(_) => {
            lemma_return_goes_on(unwound, store, root);
        },
        _ => {
            let n = branch_spec(m, store, depth)->Ok_0.1;
            assert(stays(unwound, n)) by {
                lemma_top_frame(stack);
                assert(stack.subrange(0, stack.len() as int) =~= stack);
                lemma_keeps_frame(stack, stack, stack.len() as int);
            }
            lemma_stays_inside(unwound, n, root);
        },
    }
}

/// A call that enters a function inside an invocation is inside it.
pub proof fn lemma_call_goes_on<H>(m: Machine, store: &Store<H>, addr: FuncAddr, root: ExecutableFuncAddr)
    requires
        inside(m, root),
        invoke_spec(m, store, addr) is Ok,
    ensures
        invoke_spec(m, store, addr) matches Ok(CallTarget::Entered(n)) ==> inside(n, root),
        invoke_spec(m, store, addr) matches Ok(CallTarget::Host { rest, .. }) ==> keeps_frame(
            m.stack,
            rest,
        ),
{
    let slot = store.funcs.spec_resolve(addr.0, addr.1)->Some_0;
    let params = store.funcs.items@[slot as int].spec_ty().params@.len();
    lemma_pop_values_keeps_frame(m.stack, params);
    let rest = pop_values(m.stack, params)->Ok_0.1;
    match invoke_spec(m, store, addr)->Ok_0 {
        CallTarget::Entered(n) => {
            theorem_call_enters(m, store, addr);
            lemma_pop_values(m.stack, params);
            lemma_stays_inside(m, Machine { pc: m.pc, stack: rest }, root);
            assert(n.stack.subrange(0, rest.len() as int) =~= rest);
            assert(n.stack[rest.len() as int] == n.stack.drop_last().last());
        },
        CallTarget::Host { .. } => {},
    }
}

/// A step that does not trap, taken inside an invocation of the function in
/// slot `root`, goes on inside it or ends it with the results of the
/// function and nothing else on the stack. A step whose signal is not `End`
/// goes on inside it.
pub proof fn lemma_step_goes_on<H>(
    before: Machine,
    store_before: &Store<H>,
    r: Result<Signal, Trap>,
    after: Machine,
    store_now: &Store<H>,
    root: ExecutableFuncAddr,
)
    requires
        inside(before, root),
        step_post(before, store_before, r, after, store_now),
        r is Ok,
    ensures
        goes_on(after, store_before, root),
        r->Ok_0 != Signal::End ==> top_frame(after.stack) is Some,
{
    reveal(step_post);
    let (inst, module_index) = fetch(before.pc, store_before)->Ok_0;
    let m = Machine { pc: advance(before.pc)->Some_0, stack: before.stack };
    assert(stays(before, m)) by {
        lemma_top_frame(before.stack);
        assert(before.stack.subrange(0, before.stack.len() as int) =~= before.stack);
        lemma_keeps_frame(before.stack, before.stack, before.stack.len() as int);
    }
    lemma_stays_inside(before, m, root);
    match inst.kind {
        InstructionKind::Call { function_index } => {
            let frame = current_frame_of(m.stack)->Ok_0;
            let addr = FuncAddr(frame.module_index, function_index as usize);
            lemma_call_goes_on(m, store_before, addr, root);
            lemma_called_goes_on(m, m, store_before, addr, r, after, store_now, root);
        },
        InstructionKind::CallIndirect { index, .. } => {
            lemma_pop_keeps_frame(m.stack);
            let popped = Machine { stack: m.stack.drop_last(), ..m };
            lemma_stays_inside(m, popped, root);
            let frame = current_frame_of(m.stack)->Ok_0;
            let table = store_before.tables.spec_resolve(frame.module_index, 0)->Some_0;
            let func_addr = table_get(
                store_before.tables.items@[table as int]@,
                crate::value::u32_of(pop_as_spec::<i32>(m.stack)->Ok_0.0) as usize,
            )->Ok_0;
            lemma_call_goes_on(popped, store_before, func_addr, root);
            lemma_called_goes_on(m, popped, store_before, func_addr, r, after, store_now, root);
        },
        InstructionKind::If { ty } => {
            lemma_if_stays(m, store_before, ty);
            lemma_stays_inside(m, after, root);
        },
        InstructionKind::Else => {
            lemma_branch_goes_on(m, store_before, 0, root);
        },
        InstructionKind::Br { relative_depth } => {
            lemma_branch_goes_on(m, store_before, relative_depth, root);
        },
        InstructionKind::BrIf { relative_depth } => {
            lemma_pop_keeps_frame(m.stack);
            let popped = Machine { stack: m.stack.drop_last(), ..m };
            lemma_stays_inside(m, popped, root);
            if pop_as_spec::<i32>(m.stack)->Ok_0.0 != 0 {
                lemma_branch_goes_on(popped, store_before, relative_depth, root);
            }
        },
        InstructionKind::BrTable { table } => {
            lemma_pop_keeps_frame(m.stack);
            let popped = Machine { stack: m.stack.drop_last(), ..m };
            lemma_stays_inside(m, popped, root);
            lemma_branch_goes_on(
                popped,
                store_before,
                br_table_target(
                    table.table@,
                    table.default,
                    crate::value::u32_of(pop_as_spec::<i32>(m.stack)->Ok_0.0),
                ),
                root,
            );
        },
        InstructionKind::Return => {
            lemma_return_goes_on(m, store_before, root);
        },
        InstructionKind::End => {
            if frame_labels(m.stack).len() == 1 {
                lemma_end_leaves(m, store_before);
                lemma_leaves_inside(m, after, func_arity(store_before, m.pc.exec_addr)->Ok_0, root);
            } else {
                lemma_end_stays(m, store_before);
                lemma_stays_inside(m, after, root);
            }
        },
        _ => match delegated(inst.kind) {
            Some(_) => {
                lemma_delegated_keeps_frame(inst.kind, m.stack, after.stack);
                lemma_stays_inside(m, after, root);
            },
            None => {
                lemma_plain_stays(m, store_before, inst.kind, module_index);
                lemma_stays_inside(m, after, root);
            },
        },
    }
}

/// A call from `m` that did not trap goes on inside the invocation. It was
/// made on the machine `called`, which is `m` without what the call took off
/// before.
proof fn lemma_called_goes_on<H>(
    m: Machine,
    called: Machine,
    store: &Store<H>,
    addr: FuncAddr,
    r: Result<Signal, Trap>,
    after: Machine,
    now: &Store<H>,
    root: ExecutableFuncAddr,
)
    requires
        inside(called, root),
        called.pc == m.pc,
        invoke_spec(called, store, addr) is Ok,
        invoke_spec(called, store, addr) matches Ok(CallTarget::Entered(n)) ==> inside(n, root),
        invoke_spec(called, store, addr) matches Ok(CallTarget::Host { rest, .. }) ==> keeps_frame(
            called.stack,
            rest,
        ),
        r is Ok,
        call_step(
            m,
            invoke_spec(called, store, addr),
            final_signal(Signal::Next, after.stack),
            r,
            after,
            store,
            now,
        ),
    ensures
        inside(after, root),
        top_frame(after.stack) is Some,
{
    match invoke_spec(called, store, addr)->Ok_0 {
        CallTarget::Entered(n) => {},
        CallTarget::Host { rest, .. } => {
            lemma_top_frame(rest);
            assert(after.stack.subrange(0, rest.len() as int) =~= rest.subrange(0, rest.len() as int));
            lemma_keeps_frame(rest, after.stack, rest.len() as int);
            lemma_stays_inside(called, after, root);
        },
    }
}

/// Every step of a run that starts inside an invocation starts inside it.
pub proof fn lemma_run_inside<H>(
    trace: Seq<StepRecord<H>>,
    start: Machine,
    store_before: Store<H>,
    end: Machine,
    store_now: Store<H>,
    root: ExecutableFuncAddr,
    k: int,
)
    requires
        is_run(trace, start, store_before, end, store_now),
        inside(start, root),
        0 <= k < trace.len(),
    ensures
        inside(trace[k].before, root),
    decreases k,
{
    if k > 0 {
        lemma_run_inside(trace, start, store_before, end, store_now, root, k - 1);
        let step = trace[k - 1];
        assert(continues(step.outcome));
        lemma_step_goes_on(
            step.before,
            &step.store_before,
            step.outcome,
            step.after,
            &step.store_after,
            root,
        );
    }
}

/// The balance of a whole invocation. A run of the defined function `func`
/// in slot `slot` that no trap ended has come to a machine that is inside
/// the invocation still, or whose stack holds as many values as the
/// function returns and nothing else: whatever the function took and put
/// on the stack on the way is gone. This is said of a run whose steps found
/// the type of the function in the store as the first step found it.
pub proof fn theorem_invocation_balance<H>(
    trace: Seq<StepRecord<H>>,
    func: DefinedFunctionInstance,
    slot: usize,
    args: Seq<Value>,
    store_before: Store<H>,
    end: Machine,
    store_now: Store<H>,
)
    requires
        is_run(trace, start_machine(func, slot, args), store_before, end, store_now),
        trace.len() > 0,
        trace.last().outcome is Ok,
        func_arity(&trace.last().store_before, ExecutableFuncAddr(slot)) == Ok::<nat, TrapView>(
            func.ty.returns@.len(),
        ),
    ensures
        top_frame(end.stack) is Some ==> inside(end, ExecutableFuncAddr(slot)),
        top_frame(end.stack) is None ==> end.stack.len() == func.ty.returns@.len() && forall|i: int|
            0 <= i < end.stack.len() ==> (#[trigger] end.stack[i]) is Value,
{
    let root = ExecutableFuncAddr(slot);
    let start = start_machine(func, slot, args);
    assert(inside(start, root)) by {
        reveal_with_fuel(top_frame, 3);
        assert(start.stack.drop_last().last() == start.stack[0]);
        assert(start.stack.subrange(0, 0) =~= Seq::<StackEntry>::empty());
    }
    lemma_run_inside(trace, start, store_before, end, store_now, root, trace.len() - 1);
    let step = trace.last();
    lemma_step_goes_on(
        step.before,
        &step.store_before,
        step.outcome,
        step.after,
        &step.store_after,
        root,
    );
}

/// Taking the results off a stack that holds one value for each type and
/// nothing else fails only where a value is of another type than declared.
pub proof fn lemma_pop_result_of_values(s: Seq<StackEntry>, types: Seq<ValueType>)
    requires
        s.len() == types.len(),
        forall|i: int| 0 <= i < s.len() ==> (#[trigger] s[i]) is Value,
    ensures
        pop_result_spec(s, types) matches Err(e) ==> e is TypeMismatchReturnValue,
    decreases types.len(),
{
    if types.len() > 0 {
        assert(s.last() is Value);
        assert forall|i: int| 0 <= i < s.drop_last().len() implies (#[trigger] s.drop_last()[i]) is Value by {
            assert(s.drop_last()[i] == s[i]);
        }
        lemma_pop_result_typed(s, types);
        lemma_pop_result_of_values(s.drop_last(), types.drop_first());
    }
}

/// An invocation of the defined function `func` whose run ended outside
/// every function gives one value of each type that the function returns,
/// or fails because a value that the function left is of another type than
/// declared: the stack then holds no more and no less than the results.
pub proof fn theorem_invocation_results<H>(
    trace: Seq<StepRecord<H>>,
    func: DefinedFunctionInstance,
    slot: usize,
    args: Seq<Value>,
    store_before: Store<H>,
    end: Machine,
    store_now: Store<H>,
    max_steps: u64,
    r: Result<Vec<Value>, WasmError>,
)
    requires
        is_run(trace, start_machine(func, slot, args), store_before, end, store_now),
        invocation_result(trace, max_steps, end, func.ty.returns@, r),
        trace.len() > 0,
        trace.last().outcome == Ok::<Signal, Trap>(Signal::End),
        top_frame(end.stack) is None,
        func_arity(&trace.last().store_before, ExecutableFuncAddr(slot)) == Ok::<nat, TrapView>(
            func.ty.returns@.len(),
        ),
    ensures
        match r {
            Ok(values) => values@.len() == func.ty.returns@.len() && forall|i: int|
                0 <= i < values@.len() ==> (#[trigger] values@[i]).value_type() == func.ty.returns@[i],
            Err(e) => e matches WasmError::ReturnValueError(
                ReturnValError::TypeMismatchReturnValue(_, _),
            ),
        },
{
    theorem_invocation_balance(trace, func, slot, args, store_before, end, store_now);
    lemma_pop_result_of_values(end.stack, func.ty.returns@);
    lemma_pop_result_typed(end.stack, func.ty.returns@);
}

} // verus!
