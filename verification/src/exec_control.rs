//! Control: blocks, branches and returns.

use vstd::prelude::*;
use std::rc::Rc;
use crate::executor::{ExecResult, Executor, Machine, Signal, Trap, TrapView};
use crate::inst::{BlockType, InstIndex, Instruction, InstructionKind};
use crate::semantics::{
    branch_spec, end_spec, func_arity, func_insts, if_spec, lemma_pop_values,
    lemma_pop_values_done, lemma_pop_values_step, lemma_unwind_values, pop_values, prepend,
    push_values, return_spec, scan_else, scan_end, trapped_step, unwind, Next, Trapped,
};
use crate::stack;
use crate::stack::{
    lemma_count_values, values_on_top, Label, LoopLabel, ProgramCounter, StackEntry, StackValue,
};
use crate::store::Store;
use crate::value;
use crate::value::Value;

verus! {

/// How a step that changes the machine only ends: with the signal and the
/// machine that the instruction's function gives; or with its trap, the
/// stack that the trap leaves and the program counter of `before`.
pub open spec fn machine_step(
    before: Machine,
    expected: Result<(Signal, Machine), Trapped>,
    r: Result<Signal, Trap>,
    after: Machine,
) -> bool {
    match expected {
        Ok((signal, machine)) => r == Ok::<Signal, Trap>(signal) && after == machine,
        Err(t) => trapped_step(before, t, r, after),
    }
}

/// Scans forward from `from` for the `End` that closes the `depth`-th
/// enclosing block, and returns the index just past it.
pub(crate) fn scan_to_end(insts: &Vec<Instruction>, from: u32, depth: u64) -> (r: Option<u32>)
    requires
        1 <= depth <= 0x1_0000_0000,
    ensures
        r == (match scan_end(insts@, from as int, depth as int) {
            Some(i) => if i <= u32::MAX {
                Some(i as u32)
            } else {
                None
            },
            None => None,
        }),
{
    let len: usize = insts.len();
    let mut index: usize = from as usize;
    let mut n: u128 = depth as u128;
    while index < len
        invariant
            len == insts@.len(),
            from <= index,
            1 <= n <= depth + (index - from),
            depth <= 0x1_0000_0000,
            scan_end(insts@, index as int, n as int) == scan_end(insts@, from as int, depth as int),
        decreases len - index,
    {
        match &insts[index].kind {
            InstructionKind::End => {
                if n <= 1 {
                    if index < u32::MAX as usize {
                        return Some((index + 1) as u32);
                    } else {
                        return None;
                    }
                }
                n = n - 1;
            },
            InstructionKind::Block { .. } | InstructionKind::Loop { .. } | InstructionKind::If { .. } => {
                n = n + 1;
            },
            _ => {},
        }
        index = index + 1;
    }
    None
}

/// Scans forward from `from` for where an `If` whose condition is zero goes
/// on: just past its `Else`, or on its `End`.
pub(crate) fn scan_to_else(insts: &Vec<Instruction>, from: u32) -> (r: Option<u32>)
    ensures
        r == (match scan_else(insts@, from as int, 1) {
            Some(i) => if i <= u32::MAX {
                Some(i as u32)
            } else {
                None
            },
            None => None,
        }),
{
    let len: usize = insts.len();
    let mut index: usize = from as usize;
    let mut n: u128 = 1;
    while index < len
        invariant
            len == insts@.len(),
            from <= index,
            1 <= n <= 1 + (index - from),
            scan_else(insts@, index as int, n as int) == scan_else(insts@, from as int, 1),
        decreases len - index,
    {
        match &insts[index].kind {
            InstructionKind::End => {
                if n <= 1 {
                    if index <= u32::MAX as usize {
                        return Some(index as u32);
                    } else {
                        return None;
                    }
                }
                n = n - 1;
            },
            InstructionKind::Block { .. } | InstructionKind::Loop { .. } | InstructionKind::If { .. } => {
                n = n + 1;
            },
            InstructionKind::Else => {
                if n == 1 {
                    if index < u32::MAX as usize {
                        return Some((index + 1) as u32);
                    } else {
                        return None;
                    }
                }
            },
            _ => {},
        }
        index = index + 1;
    }
    None
}

impl Executor {
    /// The body of the function that is being executed.
    pub fn current_func_insts<H>(&self, store: &Store<H>) -> (r: ExecResult<Rc<Vec<Instruction>>>)
        ensures
            match func_insts(store, self.pc.exec_addr) {
                Ok(insts) => r is Ok && r->Ok_0@ == insts,
                Err(t) => r matches Err(e) && e@ == t,
            },
    {
        match store.func_global(self.pc.exec_addr()) {
            Some(func) => match func.defined() {
                Some(defined) => Ok(defined.instructions()),
                None => Err(Trap::UndefinedFunc(self.pc.exec_addr().0)),
            },
            None => Err(Trap::UndefinedFunc(self.pc.exec_addr().0)),
        }
    }

    /// How many values the function that is being executed returns.
    pub(crate) fn current_func_arity<H>(&self, store: &Store<H>) -> (r: ExecResult<usize>)
        ensures
            match func_arity(store, self.pc.exec_addr) {
                Ok(arity) => r matches Ok(n) && n == arity,
                Err(t) => r matches Err(e) && e@ == t,
            },
    {
        match store.func_global(self.pc.exec_addr()) {
            Some(func) => Ok(func.ty().returns.len()),
            None => Err(Trap::UndefinedFunc(self.pc.exec_addr().0)),
        }
    }

    /// Takes `n` values off the stack; the first of the result was topmost.
    pub(crate) fn pop_values(&mut self, n: usize) -> (r: ExecResult<Vec<Value>>)
        ensures
            final(self).pc == old(self).pc,
            match pop_values(old(self)@.stack, n as nat) {
                Ok((vs, rest)) => r is Ok && r->Ok_0@ == vs && final(self)@.stack == rest,
                Err(t) => r matches Err(e) && e@ == t.trap && final(self)@.stack == t.stack,
            },
    {
        let mut values: Vec<Value> = Vec::new();
        let mut i: usize = 0;
        proof {
            assert(Seq::<Value>::empty() + pop_values(old(self)@.stack, n as nat)->Ok_0.0
                =~= pop_values(old(self)@.stack, n as nat)->Ok_0.0);
        }
        while i < n
            invariant
                i <= n,
                self.pc == old(self).pc,
                prepend(values@, pop_values(self.stack@, (n - i) as nat)) == pop_values(
                    old(self)@.stack,
                    n as nat,
                ),
            decreases n - i,
        {
            proof {
                lemma_pop_values_step(values@, self.stack@, (n - i) as nat);
            }
            let v = self.pop_value()?;
            values.push(v);
            i = i + 1;
        }
        proof {
            lemma_pop_values_done(values@, self.stack@);
        }
        Ok(values)
    }

    /// Puts `values` on the stack, the first of them first.
    pub(crate) fn push_values(&mut self, values: &Vec<Value>)
        ensures
            final(self).pc == old(self).pc,
            final(self)@.stack == push_values(old(self)@.stack, values@),
    {
        let n: usize = values.len();
        let mut i: usize = 0;
        proof {
            assert(self.stack@ =~= push_values(old(self)@.stack, values@.subrange(0, 0)));
        }
        while i < n
            invariant
                i <= n == values@.len(),
                self.pc == old(self).pc,
                self.stack@ == push_values(old(self)@.stack, values@.subrange(0, i as int)),
            decreases n - i,
        {
            self.stack.push_value(values[i]);
            proof {
                assert(self.stack@ =~= push_values(
                    old(self)@.stack,
                    values@.subrange(0, i + 1),
                ));
            }
            i = i + 1;
        }
        proof {
            assert(values@.subrange(0, n as int) =~= values@);
        }
    }

    /// Puts `values` on the stack, the last of them first.
    pub(crate) fn push_values_reversed(&mut self, values: &Vec<Value>)
        ensures
            final(self).pc == old(self).pc,
            final(self)@.stack == push_values(old(self)@.stack, values@.reverse()),
    {
        let n: usize = values.len();
        let mut i: usize = 0;
        proof {
            assert(self.stack@ =~= push_values(
                old(self)@.stack,
                values@.reverse().subrange(0, 0),
            ));
        }
        while i < n
            invariant
                i <= n == values@.len(),
                self.pc == old(self).pc,
                self.stack@ == push_values(
                    old(self)@.stack,
                    values@.reverse().subrange(0, i as int),
                ),
            decreases n - i,
        {
            self.stack.push_value(values[n - 1 - i]);
            proof {
                assert(self.stack@ =~= push_values(
                    old(self)@.stack,
                    values@.reverse().subrange(0, i + 1),
                ));
            }
            i = i + 1;
        }
        proof {
            assert(values@.reverse().subrange(0, n as int) =~= values@.reverse());
        }
    }

    /// Takes every value on top of the stack off it.
    pub(crate) fn pop_top_values(&mut self) -> (r: ExecResult<Vec<Value>>)
        ensures
            final(self).pc == old(self).pc,
            match pop_values(old(self)@.stack, values_on_top(old(self)@.stack)) {
                Ok((vs, rest)) => r is Ok && r->Ok_0@ == vs && final(self)@.stack == rest,
                Err(t) => r matches Err(e) && e@ == t.trap && final(self)@.stack == t.stack,
            },
            final(self)@.stack.len() > 0 ==> !(final(self)@.stack.last() is Value),
    {
        let popped = self.stack.pop_while(entry_is_value);
        let n: usize = popped.len();
        let mut values: Vec<Value> = Vec::new();
        let mut i: usize = 0;
        proof {
            let s = old(self)@.stack;
            old(self).stack.lemma_view();
            self.stack.lemma_view();
            crate::stack::lemma_values_on_top(s);
            // the entries that went are the values on top, all of them
            assert forall|j: int| s.len() - n <= j < s.len() implies (#[trigger] s[j]) is Value by {
                assert(popped@[s.len() - 1 - j] == old(self).stack.entries()[j]);
            }
            if n < s.len() {
                assert(self.stack@.last() == s[s.len() - n - 1]);
                assert(self.stack.entries().last()@ == self.stack@.last());
            }
            lemma_count_values(s, n as nat);
            lemma_pop_values(s, n as nat);
        }
        while i < n
            invariant
                i <= n == popped@.len(),
                values@.len() == i,
                forall|j: int| 0 <= j < i ==> StackEntry::Value(#[trigger] values@[j]) == popped@[j]@,
                forall|j: int| 0 <= j < n ==> (#[trigger] popped@[j]) is Value,
            decreases n - i,
        {
            match &popped[i] {
                StackValue::Value(v) => {
                    values.push(*v);
                },
                _ => {},
            }
            i = i + 1;
        }
        proof {
            let s = old(self)@.stack;
            old(self).stack.lemma_view();
            let expected = pop_values(s, n as nat)->Ok_0.0;
            assert forall|j: int| 0 <= j < n implies values@[j] == expected[j] by {
                assert(popped@[j] == old(self).stack.entries()[s.len() - 1 - j]);
                assert(s[s.len() - 1 - j] == StackEntry::Value(expected[j]));
            }
            assert(values@ =~= expected);
        }
        Ok(values)
    }

    /// Takes the top entries off the stack down to and including the `n`-th
    /// label from the top.
    pub(crate) fn unwind(&mut self, n: u64) -> (r: ExecResult<()>)
        requires
            n >= 1,
        ensures
            final(self).pc == old(self).pc,
            match unwind(old(self)@.stack, n as nat) {
                Ok(s) => r is Ok && final(self)@.stack == s,
                Err(e) => r matches Err(t) && t@ == e.trap && final(self)@.stack == e.stack,
            },
    {
        let mut i: u64 = 0;
        while i < n
            invariant
                i <= n,
                n >= 1,
                self.pc == old(self).pc,
                i < n ==> unwind(self.stack@, (n - i) as nat) == unwind(old(self)@.stack, n as nat),
                i == n ==> unwind(old(self)@.stack, n as nat) == Ok::<Seq<StackEntry>, Trapped>(
                    self.stack@,
                ),
            decreases n - i,
        {
            let ghost before = self.stack@;
            let _ = self.pop_top_values();
            proof {
                lemma_pop_values(before, values_on_top(before));
                crate::stack::lemma_values_on_top(before);
                lemma_unwind_values(before, before.len() - values_on_top(before), (n - i) as nat);
            }
            match self.stack.pop_label() {
                Ok(_) => {},
                Err(e) => {
                    return Err(Trap::Stack(e));
                },
            }
            i = i + 1;
        }
        Ok(())
    }
}

impl Executor {
    /// Moves the program counter to instruction `index` of the same function.
    pub(crate) fn jump_to(&mut self, index: Option<u32>) -> (r: ExecResult<Signal>)
        ensures
            final(self).stack == old(self).stack,
            match index {
                Some(i) => r == Ok::<Signal, Trap>(Signal::Next) && final(self).pc == (
                ProgramCounter { inst_index: InstIndex(i), ..old(self).pc }),
                None => r matches Err(e) && e@ == TrapView::NoMoreInstruction && final(self).pc == old(
                    self,
                ).pc,
            },
    {
        match index {
            Some(i) => {
                self.pc.inst_index = InstIndex(i);
                Ok(Signal::Next)
            },
            None => Err(Trap::NoMoreInstruction),
        }
    }

    /// Returns from the current function.
    pub(crate) fn do_return<H>(&mut self, store: &Store<H>) -> (r: ExecResult<Signal>)
        ensures
            machine_step(old(self)@, return_spec(old(self)@, store), r, final(self)@),
    {
        let ret_pc = match self.stack.current_frame() {
            Ok(frame) => frame.ret_pc,
            Err(e) => {
                return Err(Trap::Stack(e));
            },
        };
        let arity = self.current_func_arity(store)?;
        let result = self.pop_values(arity)?;
        match self.stack.pop_frame() {
            Ok(_) => {},
            Err(e) => {
                return Err(Trap::Stack(e));
            },
        }
        self.push_values(&result);
        match ret_pc {
            Some(ret_pc) => {
                self.pc = ret_pc;
            },
            None => {},
        }
        Ok(Signal::Next)
    }

    /// Branches `depth` labels outward.
    pub(crate) fn branch<H>(&mut self, depth: u32, store: &Store<H>) -> (r: ExecResult<Signal>)
        ensures
            machine_step(old(self)@, branch_spec(old(self)@, store, depth), r, final(self)@),
    {
        let label = {
            let labels = match self.stack.current_frame_labels() {
                Ok(labels) => labels,
                Err(e) => {
                    return Err(Trap::Stack(e));
                },
            };
            let labels_len: usize = labels.len();
            if depth as usize >= labels_len {
                return Err(Trap::Stack(stack::Error::UndefinedLabel(depth as usize)));
            }
            labels[labels_len - depth as usize - 1]
        };
        let arity = label.arity();
        let results = self.pop_values(arity)?;
        self.unwind(depth as u64 + 1)?;
        self.push_values_reversed(&results);
        // Jump to the continuation
        match label {
            Label::Loop(loop_label) => {
                self.pc.loop_jump(&loop_label);
                Ok(Signal::Next)
            },
            Label::Return(_) => self.do_return(store),
            Label::If(_) | Label::Block(_) => {
                let insts = self.current_func_insts(store)?;
                let target = scan_to_end(&insts, self.pc.inst_index().0, depth as u64 + 1);
                self.jump_to(target)
            },
        }
    }

    pub(crate) fn block(&mut self, ty: BlockType) -> (r: ExecResult<Signal>)
        ensures
            r == Ok::<Signal, Trap>(Signal::Next),
            final(self)@ == (Machine {
                stack: old(self)@.stack.push(StackEntry::Label(Label::Block(ty.arity()))),
                ..old(self)@
            }),
    {
        self.stack.push_label(Label::Block(ty.arity()));
        Ok(Signal::Next)
    }

    pub(crate) fn enter_loop(&mut self) -> (r: ExecResult<Signal>)
        requires
            old(self).pc.inst_index.0 >= 1,
        ensures
            r == Ok::<Signal, Trap>(Signal::Next),
            final(self)@ == (Machine {
                stack: old(self)@.stack.push(
                    StackEntry::Label(
                        Label::Loop(
                            LoopLabel {
                                inst_index: InstIndex((old(self).pc.inst_index.0 - 1) as u32),
                            },
                        ),
                    ),
                ),
                ..old(self)@
            }),
    {
        let start_loop = InstIndex(self.pc.inst_index().0 - 1);
        self.stack.push_label(Label::new_loop(start_loop));
        Ok(Signal::Next)
    }

    pub(crate) fn enter_if<H>(&mut self, ty: BlockType, store: &Store<H>) -> (r: ExecResult<Signal>)
        ensures
            machine_step(old(self)@, if_spec(old(self)@, store, ty), r, final(self)@),
    {
        let val: i32 = self.pop_as()?;
        self.stack.push_label(Label::If(ty.arity()));
        if val == 0 {
            let insts = self.current_func_insts(store)?;
            let target = scan_to_else(&insts, self.pc.inst_index().0);
            self.jump_to(target)
        } else {
            Ok(Signal::Next)
        }
    }

    /// The end of a function or of a block, reached without a jump.
    pub(crate) fn end<H>(&mut self, store: &Store<H>) -> (r: ExecResult<Signal>)
        ensures
            machine_step(old(self)@, end_spec(old(self)@, store), r, final(self)@),
    {
        let top_level = match self.stack.is_func_top_level() {
            Ok(top_level) => top_level,
            Err(e) => {
                return Err(Trap::Stack(e));
            },
        };
        if top_level {
            // When the end of a function is reached without a jump
            let ret_pc = match self.stack.current_frame() {
                Ok(frame) => frame.ret_pc,
                Err(e) => {
                    return Err(Trap::Stack(e));
                },
            };
            let arity = self.current_func_arity(store)?;
            let result = self.pop_values(arity)?;
            let ghost s1 = self.stack@;
            match self.stack.pop_label() {
                Ok(_) => {},
                Err(e) => {
                    return Err(Trap::Stack(e));
                },
            }
            match self.stack.pop_frame() {
                Ok(_) => {},
                Err(e) => {
                    return Err(Trap::Stack(e));
                },
            }
            proof {
                let p = crate::stack::top_frame(s1.drop_last())->Some_0;
                crate::stack::lemma_top_frame(s1.drop_last());
                assert(s1.drop_last().subrange(0, p) =~= s1.subrange(0, p));
            }
            self.push_values(&result);
            match ret_pc {
                Some(ret_pc) => {
                    self.pc = ret_pc;
                    Ok(Signal::Next)
                },
                None => Ok(Signal::End),
            }
        } else {
            // When the end of a block is reached without a jump
            let results = self.pop_top_values()?;
            match self.stack.pop_label() {
                Ok(_) => {},
                Err(e) => {
                    return Err(Trap::Stack(e));
                },
            }
            self.push_values(&results);
            Ok(Signal::Next)
        }
    }
}

pub(crate) fn entry_is_value(e: &StackValue) -> (b: bool)
    ensures
        b == (e is Value),
{
    match e {
        StackValue::Value(_) => true,
        _ => false,
    }
}

} // verus!
