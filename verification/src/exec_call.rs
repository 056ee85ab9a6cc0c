//! Calls of defined functions and of host functions.

use vstd::prelude::*;
use crate::address::{FuncAddr, TableAddr};
use crate::executor::{ExecResult, Executor, Machine, Signal, Trap, TrapView};
use crate::func::{eq_func_type, FunctionInstance};
use crate::host::{host_call, lemma_host_call, HostError, HostFuncBody};
use crate::inst::InstIndex;
use crate::interceptor::Interceptor;
use crate::semantics::{
    call_indirect_spec, call_spec, host_returned, invoke_spec, lemma_pop_values, pop_values,
    host_results, push_values, store_after, top_value_types, trapped_step, CallTarget, Effect, Next,
    Trapped,
};
use crate::stack;
use crate::stack::{lemma_count_values, values_on_top, CallFrame, Label, ProgramCounter, StackEntry};
use crate::store::Store;
use crate::value::{to_u32, Value, ValueType};

verus! {

/// What a call is ready for once its arguments are off the stack.
pub enum Prepared<'a, H> {
    /// A defined function was entered; its name is for the interceptor.
    Entered(&'a String),
    /// A host function is to be called with `args`; its type declares
    /// `arity` results.
    Host { code: H, args: Vec<Value>, arity: usize },
}

/// Whether the signal of a call that entered a defined function is what the
/// interceptor gave when it was told of the function, by its name. `after`
/// is the machine at the entry of the function's body.
pub open spec fn interceptor_told<H, I: Interceptor>(
    interceptor: &I,
    store: &Store<H>,
    after: Machine,
    r: Result<Signal, Trap>,
) -> bool {
    &&& after.pc.exec_addr.0 < store.funcs.items@.len()
    &&& r matches Ok(signal) && call_ensures(
        I::invoke_func,
        (interceptor, &store.funcs.items@[after.pc.exec_addr.0 as int].spec_name()),
        signal,
    )
}

/// How a call ends. One that traps: with the trap, the stack that the trap
/// leaves, the program counter of `before` and the store as it was.
/// One of a defined function: with the machine at the entry of its body, the
/// store as it was, and the signal that the interceptor gave. One of a host
/// function: as `host_returned` says.
pub open spec fn call_step<H>(
    before: Machine,
    target: Result<CallTarget, Trapped>,
    signal: Signal,
    r: Result<Signal, Trap>,
    after: Machine,
    store_before: &Store<H>,
    store_now: &Store<H>,
) -> bool {
    match target {
        Err(t) => trapped_step(before, t, r, after) && store_after(
            store_before,
            Effect::Unchanged,
            store_now,
        ),
        Ok(CallTarget::Entered(machine)) => r is Ok && after == machine && store_after(
            store_before,
            Effect::Unchanged,
            store_now,
        ),
        Ok(CallTarget::Host { slot, module, args, rest, arity }) => host_returned(
            before.pc,
            rest,
            arity,
            signal,
            r,
            after,
        ),
    }
}

impl Executor {
    /// Takes the `n` arguments of a call off the stack and returns them, the
    /// first argument first. Where fewer than `n` values are on top, returns
    /// the types of those that are, the topmost first.
    pub(crate) fn pop_args(&mut self, n: usize) -> (r: Result<Vec<Value>, Vec<ValueType>>)
        ensures
            final(self).pc == old(self).pc,
            match pop_values(old(self)@.stack, n as nat) {
                Ok((popped, rest)) => r is Ok && r->Ok_0@ == popped.reverse() && final(self)@.stack
                    == rest,
                Err(_) => r is Err && r->Err_0@ == top_value_types(old(self)@.stack)
                    && final(self)@.stack == old(self)@.stack.subrange(
                    0,
                    old(self)@.stack.len() - values_on_top(old(self)@.stack),
                ),
            },
    {
        let ghost s0 = self.stack@;
        let mut values: Vec<Value> = Vec::new();
        let mut i: usize = 0;
        let mut found_mismatch = false;
        proof {
            assert(s0.subrange(0, s0.len() as int) =~= s0);
        }
        while i < n && !found_mismatch
            invariant
                i <= n,
                self.pc == old(self).pc,
                s0 == old(self)@.stack,
                values@.len() == i <= s0.len(),
                self.stack@ == s0.subrange(0, s0.len() - i),
                forall|j: int| 0 <= j < i ==> s0[s0.len() - 1 - j] == StackEntry::Value(#[trigger] values@[j]),
                found_mismatch ==> i < n && (i < s0.len() ==> !(s0[s0.len() - i - 1] is Value)),
            decreases n - i + (if found_mismatch { 0int } else { 1int }),
        {
            match self.stack.pop_value() {
                Ok(val) => {
                    values.push(val);
                    i = i + 1;
                    proof {
                        assert(self.stack@ =~= s0.subrange(0, s0.len() - i));
                    }
                },
                Err(_) => {
                    found_mismatch = true;
                },
            }
        }
        proof {
            lemma_pop_values(s0, n as nat);
            assert forall|j: int| s0.len() - i <= j < s0.len() implies (#[trigger] s0[j]) is Value by {
                assert(s0[s0.len() - 1 - (s0.len() - 1 - j)] == StackEntry::Value(
                    values@[s0.len() - 1 - j],
                ));
            }
            if found_mismatch {
                lemma_count_values(s0, i as nat);
            } else {
                crate::stack::lemma_values_on_top(s0);
                if values_on_top(s0) < n {
                    assert(s0[s0.len() - values_on_top(s0) - 1] is Value);
                }
            }
        }
        if found_mismatch {
            let mut actual: Vec<ValueType> = Vec::new();
            let mut k: usize = 0;
            while k < i
                invariant
                    k <= i == values@.len(),
                    actual@.len() == k,
                    forall|j: int| 0 <= j < k ==> #[trigger] actual@[j] == values@[j].value_type(),
                decreases i - k,
            {
                actual.push(values[k].value_type());
                k = k + 1;
            }
            proof {
                assert(actual@ =~= top_value_types(s0));
            }
            Err(actual)
        } else {
            let mut args: Vec<Value> = Vec::new();
            let mut k: usize = 0;
            while k < n
                invariant
                    k <= n == values@.len(),
                    args@.len() == k,
                    forall|j: int| 0 <= j < k ==> #[trigger] args@[j] == values@[n - 1 - j],
                decreases n - k,
            {
                args.push(values[n - 1 - k]);
                k = k + 1;
            }
            proof {
                let popped = pop_values(s0, n as nat)->Ok_0.0;
                assert(values@ =~= popped);
                assert(args@ =~= popped.reverse());
            }
            Ok(args)
        }
    }

    /// Ends the call of a host function: puts its results on the stack where
    /// the call succeeded and left as many of them as the function's type
    /// declares.
    pub fn finish_host_call(
        &mut self,
        outcome: Result<(), crate::host::HostError>,
        results: Vec<Value>,
        arity: usize,
    ) -> (r: ExecResult<Signal>)
        ensures
            final(self).pc == old(self).pc,
            match outcome {
                Err(e) => r matches Err(t) && t@ == TrapView::HostExecution(e) && final(self)@.stack
                    == old(self)@.stack,
                Ok(_) => if results@.len() == arity {
                    r == Ok::<Signal, Trap>(Signal::Next) && final(self)@.stack == push_values(
                        old(self)@.stack,
                        results@,
                    )
                } else {
                    r matches Err(t) && t@ == (TrapView::HostResultCount {
                        expected: arity,
                        actual: results@.len() as usize,
                    }) && final(self)@.stack == old(self)@.stack
                },
            },
            host_returned(old(self).pc, old(self)@.stack, arity as nat, Signal::Next, r, final(self)@),
            host_results(
                outcome,
                results@,
                old(self)@.stack,
                arity as nat,
                Signal::Next,
                r,
                final(self)@.stack,
            ),
    {
        match outcome {
            Err(e) => Err(Trap::HostExecution(e)),
            Ok(_) => {
                if results.len() != arity {
                    return Err(Trap::HostResultCount { expected: arity, actual: results.len() });
                }
                self.push_values(&results);
                proof {
                    assert(self.stack@.subrange(0, old(self)@.stack.len() as int) =~= old(self)@.stack);
                }
                Ok(Signal::Next)
            },
        }
    }

    /// Does what of a call comes before the callee runs. The arguments come
    /// off the stack. For a defined function the frame and the label of the
    /// return go on the stack and the program counter moves to the start of
    /// its body; the function's name is returned, for the interceptor. For a
    /// host function its body is returned with the arguments, the first
    /// argument first, and the number of results that its type declares.
    pub fn prepare_call<'a, H: Clone>(&mut self, addr: FuncAddr, store: &'a Store<H>) -> (r:
        ExecResult<Prepared<'a, H>>)
        ensures
            match invoke_spec(old(self)@, store, addr) {
                Err(t) => r matches Err(e) && e@ == t.trap && final(self)@ == (Machine {
                    stack: t.stack,
                    ..old(self)@
                }),
                Ok(CallTarget::Entered(machine)) => r matches Ok(Prepared::Entered(name))
                    && final(self)@ == machine && *name == store.funcs.items@[store.funcs.spec_resolve(
                    addr.0,
                    addr.1,
                )->Some_0 as int].spec_name(),
                Ok(CallTarget::Host { slot, module, args, rest, arity }) => r matches Ok(
                    Prepared::Host { code, args: handed, arity: declared },
                ) && handed@ == args && declared == arity && final(self)@ == (Machine {
                    stack: rest,
                    ..old(self)@
                }) && cloned(store.funcs.items@[slot as int]->Host_0.code, code),
            },
    {
        let (func, exec_addr) = match store.func(addr) {
            Some(found) => found,
            None => {
                return Err(Trap::UndefinedFunc(addr.1));
            },
        };
        let args = match self.pop_args(func.ty().params.len()) {
            Ok(args) => args,
            Err(actual) => {
                return Err(
                    Trap::DirectCallTypeMismatch {
                        func_name: func.name().clone(),
                        actual,
                        expected: func.ty().params.clone(),
                    },
                );
            },
        };
        let arity: usize = func.ty().returns.len();
        match func {
            FunctionInstance::Defined(func) => {
                let pc = ProgramCounter::new(func.module_index(), exec_addr, InstIndex::zero());
                let frame = CallFrame::new_from_func(exec_addr, func, args, Some(self.pc));
                self.stack.set_frame(frame);
                self.stack.push_label(Label::Return(arity));
                self.pc = pc;
                Ok(Prepared::Entered(func.name()))
            },
            FunctionInstance::Host(func) => Ok(
                Prepared::Host { code: func.code.clone(), args, arity },
            ),
        }
    }

    /// Calls the function that `addr` stands for: a defined function is
    /// entered, and the interceptor is told of it; a host function is called
    /// with what `prepare_call` hands out, and `finish_host_call` does the
    /// rest: the store is then as the call left it, and the stack is as
    /// `host_results` says of the outcome and of the results that it left.
    pub(crate) fn invoke<H: HostFuncBody + Clone, I: Interceptor>(
        &mut self,
        addr: FuncAddr,
        store: &mut Store<H>,
        interceptor: &I,
    ) -> (r: ExecResult<Signal>)
        ensures
            call_step(
                old(self)@,
                invoke_spec(old(self)@, old(store), addr),
                Signal::Next,
                r,
                final(self)@,
                old(store),
                final(store),
            ),
            invoke_spec(old(self)@, old(store), addr) matches Ok(CallTarget::Entered(_))
                ==> interceptor_told(interceptor, old(store), final(self)@, r),
            match invoke_spec(old(self)@, old(store), addr) {
                Ok(CallTarget::Host { slot, module, args, rest, arity }) => exists|
                    code: H,
                    handed: &[Value],
                    left: &mut Vec<Value>,
                    given: &mut Store<H>,
                    outcome: Result<(), HostError>,
                |
                    {
                        &&& cloned(old(store).funcs.items@[slot as int]->Host_0.code, code)
                        &&& #[trigger] host_call(
                            code,
                            handed,
                            left,
                            given,
                            module,
                            outcome,
                            args,
                            *old(store),
                        )
                        &&& mut_ref_future(given) == *final(store)
                        &&& host_results(
                            outcome,
                            mut_ref_future(left)@,
                            rest,
                            arity,
                            Signal::Next,
                            r,
                            final(self)@.stack,
                        )
                    },
                _ => true,
            },
    {
        match self.prepare_call(addr, store)? {
            Prepared::Entered(name) => Ok(interceptor.invoke_func(name)),
            Prepared::Host { code, args, arity } => {
                let mut results: Vec<Value> = Vec::new();
                let outcome = code.call(args.as_slice(), &mut results, store, addr.module_index());
                proof {
                    lemma_host_call::<H>(args@, *old(store));
                }
                let ghost rest = self@.stack;
                let r = self.finish_host_call(outcome, results, arity);
                proof {
                    // the call that was made is the one that the target names
                    let target = invoke_spec(old(self)@, old(store), addr);
                    assert(target->Ok_0->Host_module == addr.0);
                    assert(target->Ok_0->Host_args == args@);
                    assert(target->Ok_0->Host_rest == rest);
                }
                r
            },
        }
    }

    /// `call`: calls function `function_index` of the current frame's module.
    pub(crate) fn call<H: HostFuncBody + Clone, I: Interceptor>(
        &mut self,
        function_index: u32,
        store: &mut Store<H>,
        interceptor: &I,
    ) -> (r: ExecResult<Signal>)
        ensures
            call_step(
                old(self)@,
                call_spec(old(self)@, old(store), function_index),
                Signal::Next,
                r,
                final(self)@,
                old(store),
                final(store),
            ),
            call_spec(old(self)@, old(store), function_index) matches Ok(CallTarget::Entered(_))
                ==> interceptor_told(interceptor, old(store), final(self)@, r),
            match call_spec(old(self)@, old(store), function_index) {
                Ok(CallTarget::Host { slot, module, args, rest, arity }) => exists|
                    code: H,
                    handed: &[Value],
                    left: &mut Vec<Value>,
                    given: &mut Store<H>,
                    outcome: Result<(), HostError>,
                |
                    {
                        &&& cloned(old(store).funcs.items@[slot as int]->Host_0.code, code)
                        &&& #[trigger] host_call(
                            code,
                            handed,
                            left,
                            given,
                            module,
                            outcome,
                            args,
                            *old(store),
                        )
                        &&& mut_ref_future(given) == *final(store)
                        &&& host_results(
                            outcome,
                            mut_ref_future(left)@,
                            rest,
                            arity,
                            Signal::Next,
                            r,
                            final(self)@.stack,
                        )
                    },
                _ => true,
            },
    {
        let module_index = match self.stack.current_frame() {
            Ok(frame) => frame.module_index(),
            Err(e) => {
                return Err(Trap::Stack(e));
            },
        };
        let addr = FuncAddr::new_unsafe(module_index, function_index as usize);
        self.invoke(addr, store, interceptor)
    }

    /// `call_indirect`: calls the function in the table slot that the stack
    /// names, where it has the declared type.
    pub(crate) fn call_indirect<H: HostFuncBody + Clone, I: Interceptor>(
        &mut self,
        index: u32,
        store: &mut Store<H>,
        interceptor: &I,
    ) -> (r: ExecResult<Signal>)
        ensures
            call_step(
                old(self)@,
                call_indirect_spec(old(self)@, old(store), index),
                Signal::Next,
                r,
                final(self)@,
                old(store),
                final(store),
            ),
            call_indirect_spec(old(self)@, old(store), index) matches Ok(CallTarget::Entered(_))
                ==> interceptor_told(interceptor, old(store), final(self)@, r),
            match call_indirect_spec(old(self)@, old(store), index) {
                Ok(CallTarget::Host { slot, module, args, rest, arity }) => exists|
                    code: H,
                    handed: &[Value],
                    left: &mut Vec<Value>,
                    given: &mut Store<H>,
                    outcome: Result<(), HostError>,
                |
                    {
                        &&& cloned(old(store).funcs.items@[slot as int]->Host_0.code, code)
                        &&& #[trigger] host_call(
                            code,
                            handed,
                            left,
                            given,
                            module,
                            outcome,
                            args,
                            *old(store),
                        )
                        &&& mut_ref_future(given) == *final(store)
                        &&& host_results(
                            outcome,
                            mut_ref_future(left)@,
                            rest,
                            arity,
                            Signal::Next,
                            r,
                            final(self)@.stack,
                        )
                    },
                _ => true,
            },
    {
        let module_index = match self.stack.current_frame() {
            Ok(frame) => frame.module_index(),
            Err(e) => {
                return Err(Trap::Stack(e));
            },
        };
        let addr = TableAddr::new_unsafe(module_index, 0);
        let ty = match store.module(module_index) {
            Some(module) => match module.defined() {
                Some(defined) => match defined.get_type(index as usize) {
                    Some(ty) => ty,
                    None => {
                        return Err(Trap::UndefinedType(index as usize));
                    },
                },
                None => {
                    return Err(Trap::UndefinedType(index as usize));
                },
            },
            None => {
                return Err(Trap::UndefinedType(index as usize));
            },
        };
        let buf_index: i32 = self.pop_as()?;
        let table = match store.table(addr) {
            Some(table) => table,
            None => {
                return Err(Trap::UndefinedTable(0));
            },
        };
        let buf_index: usize = to_u32(buf_index) as usize;
        let func_addr = match table.get_at(buf_index) {
            Ok(func_addr) => func_addr,
            Err(e) => {
                return Err(Trap::Table(e));
            },
        };
        let (func, _) = match store.func(func_addr) {
            Some(found) => found,
            None => {
                return Err(Trap::UndefinedFunc(func_addr.1));
            },
        };
        if eq_func_type(func.ty(), ty) {
            self.invoke(func_addr, store, interceptor)
        } else {
            Err(Trap::IndirectCallTypeMismatch(func.name().clone(), ty.clone(), func.ty().clone()))
        }
    }
}

} // verus!
