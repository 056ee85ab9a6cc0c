//! The stack: values, labels and activations in one sequence.
//!
//! Keeping the three kinds of entry in a single sequence lets a branch unwind
//! by discarding entries until the label it aims at is uncovered.

use vstd::prelude::*;
use crate::address::{ExecutableFuncAddr, ModuleIndex};
use crate::inst::InstIndex;
use crate::value::Value;

verus! {

/// The three kinds of stack entry.
#[derive(Clone, Copy, Debug, PartialEq, Eq, Structural)]
pub enum StackValueType {
    Label,
    Value,
    Activation,
}

/// Why a stack operation failed.
#[derive(Clone, Copy, Debug, PartialEq, Eq, Structural)]
pub enum Error {
    /// The stack is empty.
    Underflow,
    /// The top entry is of another kind than the operation takes.
    TypeMismatch { expected: StackValueType, actual: StackValueType },
    /// The stack holds no activation.
    NoCallFrame,
    /// The current frame has no local of this index.
    UndefinedLocal(usize),
    /// The current frame has fewer labels than a branch of this depth needs.
    UndefinedLabel(usize),
}

/// Where execution stands: a function and an instruction of its body.
#[derive(Clone, Copy, Debug, PartialEq, Eq, Structural)]
pub struct ProgramCounter {
    pub module_index: ModuleIndex,
    pub exec_addr: ExecutableFuncAddr,
    pub inst_index: InstIndex,
}

impl ProgramCounter {
    pub fn new(module_index: ModuleIndex, exec_addr: ExecutableFuncAddr, inst_index: InstIndex) -> (pc:
        ProgramCounter)
        ensures
            pc == (ProgramCounter { module_index, exec_addr, inst_index }),
    {
        ProgramCounter { module_index, exec_addr, inst_index }
    }

    pub fn module_index(&self) -> (m: ModuleIndex)
        ensures
            m == self.module_index,
    {
        self.module_index
    }

    pub fn exec_addr(&self) -> (a: ExecutableFuncAddr)
        ensures
            a == self.exec_addr,
    {
        self.exec_addr
    }

    pub fn inst_index(&self) -> (i: InstIndex)
        ensures
            i == self.inst_index,
    {
        self.inst_index
    }

    /// Moves to the next instruction.
    pub fn inc_inst_index(&mut self)
        requires
            old(self).inst_index.0 < u32::MAX,
        ensures
            *final(self) == (ProgramCounter {
                inst_index: InstIndex((old(self).inst_index.0 + 1) as u32),
                ..*old(self)
            }),
    {
        self.inst_index = InstIndex(self.inst_index.0 + 1);
    }

    /// Moves to the header of a loop in the same function.
    pub fn loop_jump(&mut self, loop_label: &LoopLabel)
        ensures
            *final(self) == (ProgramCounter { inst_index: loop_label.inst_index, ..*old(self) }),
    {
        self.inst_index = loop_label.inst_index;
    }
}

/// The label of a loop: the index of the `loop` instruction itself.
#[derive(Clone, Copy, Debug, PartialEq, Eq, Structural)]
pub struct LoopLabel {
    pub inst_index: InstIndex,
}

/// A control marker: the continuation of a block, a loop, an if or a call.
#[derive(Clone, Copy, Debug, PartialEq, Eq, Structural)]
pub enum Label {
    If(usize),
    Block(usize),
    Loop(LoopLabel),
    Return(usize),
}

impl Label {
    pub fn new_loop(inst_index: InstIndex) -> (label: Label)
        ensures
            label == Label::Loop(LoopLabel { inst_index }),
    {
        Label::Loop(LoopLabel { inst_index })
    }

    pub open spec fn spec_arity(&self) -> usize {
        match self {
            Label::If(arity) => *arity,
            Label::Block(arity) => *arity,
            Label::Loop(_) => 0,
            Label::Return(arity) => *arity,
        }
    }

    /// How many values a branch to the label carries; none for a loop.
    #[verifier::when_used_as_spec(spec_arity)]
    pub fn arity(&self) -> (n: usize)
        ensures
            n == self.spec_arity(),
    {
        match self {
            Label::If(arity) => *arity,
            Label::Block(arity) => *arity,
            Label::Loop(_) => 0,
            Label::Return(arity) => *arity,
        }
    }
}

/// The record of one call: the function, its locals (parameters first), and
/// where to go on after it. The root frame has no such place.
#[derive(Debug)]
pub struct CallFrame {
    pub module_index: ModuleIndex,
    pub locals: Vec<Value>,
    pub ret_pc: Option<ProgramCounter>,
    pub exec_addr: ExecutableFuncAddr,
}

/// A call frame as a mathematical value.
pub struct FrameView {
    pub module_index: ModuleIndex,
    pub locals: Seq<Value>,
    pub ret_pc: Option<ProgramCounter>,
    pub exec_addr: ExecutableFuncAddr,
}

impl View for CallFrame {
    type V = FrameView;

    open spec fn view(&self) -> FrameView {
        FrameView {
            module_index: self.module_index,
            locals: self.locals@,
            ret_pc: self.ret_pc,
            exec_addr: self.exec_addr,
        }
    }
}

impl CallFrame {
    /// A frame whose locals are `locals` as they stand.
    pub fn new(
        module_index: ModuleIndex,
        exec_addr: ExecutableFuncAddr,
        locals: Vec<Value>,
        ret_pc: Option<ProgramCounter>,
    ) -> (frame: CallFrame)
        ensures
            frame@ == (FrameView { module_index, locals: locals@, ret_pc, exec_addr }),
    {
        CallFrame { module_index, locals, ret_pc, exec_addr }
    }

    pub fn module_index(&self) -> (m: ModuleIndex)
        ensures
            m == self@.module_index,
    {
        self.module_index
    }

    /// The local of index `index`.
    pub fn local(&self, index: usize) -> (r: Result<Value, Error>)
        ensures
            r == frame_local(self@, index),
    {
        if index < self.locals.len() {
            Ok(self.locals[index])
        } else {
            Err(Error::UndefinedLocal(index))
        }
    }

    /// Sets the local of index `index`.
    pub fn set_local(&mut self, index: usize, value: Value) -> (r: Result<(), Error>)
        ensures
            index < old(self)@.locals.len() ==> r == Ok::<(), Error>(()) && final(self)@ == (
            FrameView { locals: old(self)@.locals.update(index as int, value), ..old(self)@ }),
            index >= old(self)@.locals.len() ==> r == Err::<(), Error>(
                Error::UndefinedLocal(index),
            ) && final(self)@ == old(self)@,
    {
        if index < self.locals.len() {
            self.locals[index] = value;
            Ok(())
        } else {
            Err(Error::UndefinedLocal(index))
        }
    }
}

/// What reading local `index` of a frame gives.
pub open spec fn frame_local(frame: FrameView, index: usize) -> Result<Value, Error> {
    if index < frame.locals.len() {
        Ok(frame.locals[index as int])
    } else {
        Err(Error::UndefinedLocal(index))
    }
}

/// One entry of the stack.
#[derive(Debug)]
pub enum StackValue {
    Value(Value),
    Label(Label),
    Activation(CallFrame),
}

/// A stack entry as a mathematical value.
pub enum StackEntry {
    Value(Value),
    Label(Label),
    Activation(FrameView),
}

impl View for StackValue {
    type V = StackEntry;

    open spec fn view(&self) -> StackEntry {
        match self {
            StackValue::Value(v) => StackEntry::Value(*v),
            StackValue::Label(l) => StackEntry::Label(*l),
            StackValue::Activation(f) => StackEntry::Activation(f@),
        }
    }
}

impl StackEntry {
    pub open spec fn value_type(self) -> StackValueType {
        match self {
            StackEntry::Value(_) => StackValueType::Value,
            StackEntry::Label(_) => StackValueType::Label,
            StackEntry::Activation(_) => StackValueType::Activation,
        }
    }
}

impl StackValue {
    /// The kind of the entry.
    pub fn value_type(&self) -> (t: StackValueType)
        ensures
            t == self@.value_type(),
    {
        match self {
            StackValue::Value(_) => StackValueType::Value,
            StackValue::Label(_) => StackValueType::Label,
            StackValue::Activation(_) => StackValueType::Activation,
        }
    }

    /// The value that the entry holds, if it holds one.
    pub fn as_value(&self) -> (r: Result<Value, Error>)
        ensures
            r == entry_as_value(self@),
    {
        match self {
            StackValue::Value(v) => Ok(*v),
            StackValue::Label(_) => Err(
                Error::TypeMismatch {
                    expected: StackValueType::Value,
                    actual: StackValueType::Label,
                },
            ),
            StackValue::Activation(_) => Err(
                Error::TypeMismatch {
                    expected: StackValueType::Value,
                    actual: StackValueType::Activation,
                },
            ),
        }
    }
}

/// The value that an entry holds, or the mismatch between a value and what it
/// is.
pub open spec fn entry_as_value(e: StackEntry) -> Result<Value, Error> {
    match e {
        StackEntry::Value(v) => Ok(v),
        _ => Err(Error::TypeMismatch { expected: StackValueType::Value, actual: e.value_type() }),
    }
}

/// The position of the topmost activation of `s`.
pub open spec fn top_frame(s: Seq<StackEntry>) -> Option<int>
    decreases s.len(),
{
    if s.len() == 0 {
        None
    } else if s.last() is Activation {
        Some(s.len() - 1)
    } else {
        top_frame(s.drop_last())
    }
}

/// The labels among the entries of `s`, bottom first.
pub open spec fn labels_of(s: Seq<StackEntry>) -> Seq<Label>
    decreases s.len(),
{
    if s.len() == 0 {
        Seq::<Label>::empty()
    } else {
        match s.last() {
            StackEntry::Label(l) => labels_of(s.drop_last()).push(l),
            _ => labels_of(s.drop_last()),
        }
    }
}

/// The entries above the topmost activation; all of `s` where it has none.
pub open spec fn above_frame(s: Seq<StackEntry>) -> Seq<StackEntry> {
    match top_frame(s) {
        Some(p) => s.subrange(p + 1, s.len() as int),
        None => s,
    }
}

/// The labels of the current frame, outermost first.
pub open spec fn frame_labels(s: Seq<StackEntry>) -> Seq<Label> {
    labels_of(above_frame(s))
}

/// The current frame.
pub open spec fn current_frame_of(s: Seq<StackEntry>) -> Result<FrameView, Error> {
    match top_frame(s) {
        Some(p) => Ok(s[p]->Activation_0),
        None => Err(Error::NoCallFrame),
    }
}

/// How many entries at the top of `s` are values.
pub open spec fn values_on_top(s: Seq<StackEntry>) -> nat
    decreases s.len(),
{
    if s.len() > 0 && s.last() is Value {
        1 + values_on_top(s.drop_last())
    } else {
        0
    }
}

/// `top_frame` finds an activation, the topmost one.
pub proof fn lemma_top_frame(s: Seq<StackEntry>)
    ensures
        top_frame(s) matches Some(p) ==> 0 <= p < s.len() && s[p] is Activation && forall|i: int|
            p < i < s.len() ==> !(#[trigger] s[i] is Activation),
        top_frame(s) is None ==> forall|i: int| 0 <= i < s.len() ==> !(#[trigger] s[i] is Activation),
    decreases s.len(),
{
    if s.len() > 0 && !(s.last() is Activation) {
        let t = s.drop_last();
        lemma_top_frame(t);
        assert forall|i: int| 0 <= i < t.len() implies t[i] == s[i] by {}
        if top_frame(s) is Some {
            let p = top_frame(s)->Some_0;
            assert forall|i: int| p < i < s.len() implies !(#[trigger] s[i] is Activation) by {
                if i < t.len() {
                    assert(!(t[i] is Activation));
                }
            }
        } else {
            assert forall|i: int| 0 <= i < s.len() implies !(#[trigger] s[i] is Activation) by {
                if i < t.len() {
                    assert(!(t[i] is Activation));
                }
            }
        }
    }
}

/// A stack whose entry under the top is an activation has a current frame.
pub proof fn lemma_frame_under_top(s: Seq<StackEntry>)
    requires
        s.len() >= 2,
        s[s.len() - 2] is Activation,
    ensures
        top_frame(s) is Some,
{
    reveal_with_fuel(top_frame, 3);
    assert(s.drop_last().last() == s[s.len() - 2]);
}

/// Entries that hold no activation do not change which activation is topmost.
pub proof fn lemma_top_frame_skip(s: Seq<StackEntry>, k: int)
    requires
        0 <= k <= s.len(),
        forall|i: int| k <= i < s.len() ==> !(#[trigger] s[i] is Activation),
    ensures
        top_frame(s) == top_frame(s.subrange(0, k)),
    decreases s.len() - k,
{
    if k < s.len() {
        assert(s.drop_last().subrange(0, k) =~= s.subrange(0, k));
        lemma_top_frame_skip(s.drop_last(), k);
    } else {
        assert(s.subrange(0, k) =~= s);
    }
}

/// There are no more values on top than entries, and the entry under them, if
/// there is one, is no value.
pub proof fn lemma_values_on_top(s: Seq<StackEntry>)
    ensures
        values_on_top(s) <= s.len(),
        forall|i: int| s.len() - values_on_top(s) <= i < s.len() ==> (#[trigger] s[i]) is Value,
        values_on_top(s) < s.len() ==> !(s[s.len() - values_on_top(s) - 1] is Value),
    decreases s.len(),
{
    if s.len() > 0 && s.last() is Value {
        let t = s.drop_last();
        lemma_values_on_top(t);
        assert forall|i: int| s.len() - values_on_top(s) <= i < s.len() implies (#[trigger] s[i]) is Value by {
            if i < t.len() {
                assert(t[i] is Value);
            }
        }
        if values_on_top(s) < s.len() {
            assert(t[t.len() - values_on_top(t) - 1] == s[s.len() - values_on_top(s) - 1]);
        }
    }
}

/// The number of values on top is the length of the longest run of values
/// at the top.
pub proof fn lemma_count_values(s: Seq<StackEntry>, n: nat)
    requires
        n <= s.len(),
        forall|j: int| s.len() - n <= j < s.len() ==> (#[trigger] s[j]) is Value,
        n < s.len() ==> !(s[s.len() - n - 1] is Value),
    ensures
        values_on_top(s) == n,
    decreases n,
{
    if n > 0 {
        let t = s.drop_last();
        assert forall|j: int| t.len() - (n - 1) <= j < t.len() implies (#[trigger] t[j]) is Value by {
            assert(t[j] == s[j]);
        }
        if n - 1 < t.len() {
            assert(t[t.len() - (n - 1) - 1] == s[s.len() - n - 1]);
        }
        lemma_count_values(t, (n - 1) as nat);
    }
}

/// The stack of an executor.
#[derive(Debug)]
pub struct Stack {
    stack: Vec<StackValue>,
}

impl View for Stack {
    type V = Seq<StackEntry>;

    closed spec fn view(&self) -> Seq<StackEntry> {
        self.stack@.map_values(|e: StackValue| e@)
    }
}

impl Default for Stack {
    fn default() -> (stack: Stack)
        ensures
            stack@ == Seq::<StackEntry>::empty(),
    {
        let stack = Stack { stack: Vec::new() };
        assert(stack@ =~= Seq::<StackEntry>::empty());
        stack
    }
}

impl Stack {
    /// The entries as they are stored.
    pub closed spec fn entries(&self) -> Seq<StackValue> {
        self.stack@
    }

    /// The view is the entries, each by its own view.
    pub proof fn lemma_view(&self)
        ensures
            self@.len() == self.entries().len(),
            forall|i: int| 0 <= i < self@.len() ==> #[trigger] self@[i] == self.entries()[i]@,
    {
    }

    /// The number of entries.
    pub fn len(&self) -> (n: usize)
        ensures
            n == self@.len(),
    {
        self.stack.len()
    }

    /// The kind of the top entry, if there is one.
    pub fn latest_type(&self) -> (t: Option<StackValueType>)
        ensures
            self@.len() == 0 ==> t is None,
            self@.len() > 0 ==> t == Some(self@.last().value_type()),
    {
        let n: usize = self.stack.len();
        if n == 0 {
            None
        } else {
            Some(self.stack[n - 1].value_type())
        }
    }

    fn push(&mut self, entry: StackValue)
        ensures
            final(self)@ == old(self)@.push(entry@),
            final(self).entries() == old(self).entries().push(entry),
    {
        self.stack.push(entry);
        assert(self@ =~= old(self)@.push(entry@));
    }

    /// Puts a value on top.
    pub fn push_value(&mut self, val: Value)
        ensures
            final(self)@ == old(self)@.push(StackEntry::Value(val)),
    {
        self.push(StackValue::Value(val));
    }

    /// Puts a label on top.
    pub fn push_label(&mut self, label: Label)
        ensures
            final(self)@ == old(self)@.push(StackEntry::Label(label)),
    {
        self.push(StackValue::Label(label));
    }

    /// Puts an activation on top; its frame is the current one from then on.
    pub fn set_frame(&mut self, frame: CallFrame)
        ensures
            final(self)@ == old(self)@.push(StackEntry::Activation(frame@)),
    {
        self.push(StackValue::Activation(frame));
    }

    /// Takes the value on top. Fails, and leaves the stack as it was, where
    /// the stack is empty or its top entry is no value.
    pub fn pop_value(&mut self) -> (r: Result<Value, Error>)
        ensures
            r == pop_value_result(old(self)@),
            final(self)@ == (if r is Ok {
                old(self)@.drop_last()
            } else {
                old(self)@
            }),
    {
        let n: usize = self.stack.len();
        if n == 0 {
            return Err(Error::Underflow);
        }
        let top = self.stack[n - 1].as_value();
        match top {
            Ok(v) => {
                let _ = self.stack.pop();
                assert(self@ =~= old(self)@.drop_last());
                Ok(v)
            },
            Err(e) => Err(e),
        }
    }

    /// Takes the label on top. Fails, and leaves the stack as it was, where
    /// the stack is empty or its top entry is no label.
    pub fn pop_label(&mut self) -> (r: Result<Label, Error>)
        ensures
            r == pop_label_result(old(self)@),
            final(self)@ == (if r is Ok {
                old(self)@.drop_last()
            } else {
                old(self)@
            }),
    {
        let n: usize = self.stack.len();
        if n == 0 {
            return Err(Error::Underflow);
        }
        let popped = match &self.stack[n - 1] {
            StackValue::Label(l) => Ok(*l),
            StackValue::Value(_) => Err(
                Error::TypeMismatch {
                    expected: StackValueType::Label,
                    actual: StackValueType::Value,
                },
            ),
            StackValue::Activation(_) => Err(
                Error::TypeMismatch {
                    expected: StackValueType::Label,
                    actual: StackValueType::Activation,
                },
            ),
        };
        if popped.is_ok() {
            let _ = self.stack.pop();
            assert(self@ =~= old(self)@.drop_last());
        }
        popped
    }

    /// The position of the topmost activation.
    fn top_frame_index(&self) -> (r: Option<usize>)
        ensures
            r is Some <==> top_frame(self@) is Some,
            r matches Some(p) ==> top_frame(self@) == Some(p as int) && p < self@.len()
                && self.entries()[p as int] is Activation,
    {
        let mut i: usize = self.stack.len();
        proof {
            assert(self@.subrange(0, i as int) =~= self@);
        }
        while i > 0
            invariant
                i <= self.stack@.len(),
                top_frame(self@) == top_frame(self@.subrange(0, i as int)),
            decreases i,
        {
            match &self.stack[i - 1] {
                StackValue::Activation(_) => {
                    return Some(i - 1);
                },
                _ => {},
            }
            proof {
                assert(self@.subrange(0, i as int).drop_last() =~= self@.subrange(0, i - 1));
            }
            i = i - 1;
        }
        None
    }

    /// Whether the root activation is gone, that is, the stack holds no
    /// activation at all.
    pub fn is_over_top_level(&self) -> (over: bool)
        ensures
            over == (top_frame(self@) is None),
    {
        self.top_frame_index().is_none()
    }

    /// The current frame: that of the topmost activation.
    pub fn current_frame(&self) -> (r: Result<&CallFrame, Error>)
        ensures
            r matches Ok(frame) ==> current_frame_of(self@) == Ok::<FrameView, Error>(frame@),
            r matches Err(e) ==> current_frame_of(self@) == Err::<FrameView, Error>(e),
    {
        match self.top_frame_index() {
            Some(p) => {
                match &self.stack[p] {
                    StackValue::Activation(frame) => Ok(frame),
                    _ => Err(Error::NoCallFrame),
                }
            },
            None => Err(Error::NoCallFrame),
        }
    }

    /// The labels of the current frame, outermost first.
    pub fn current_frame_labels(&self) -> (r: Result<Vec<Label>, Error>)
        ensures
            top_frame(self@) is Some ==> r is Ok && r->Ok_0@ == frame_labels(self@),
            top_frame(self@) is None ==> r == Err::<Vec<Label>, Error>(Error::NoCallFrame),
    {
        let p: usize = match self.top_frame_index() {
            Some(p) => p,
            None => {
                return Err(Error::NoCallFrame);
            },
        };
        let n: usize = self.stack.len();
        let mut labels: Vec<Label> = Vec::new();
        let mut j: usize = p + 1;
        proof {
            assert(self@.subrange(p + 1, p + 1) =~= Seq::<StackEntry>::empty());
        }
        while j < n
            invariant
                p + 1 <= j <= n == self.stack@.len(),
                labels@ == labels_of(self@.subrange(p + 1, j as int)),
            decreases n - j,
        {
            proof {
                assert(self@.subrange(p + 1, j + 1).drop_last() =~= self@.subrange(p + 1, j as int));
            }
            match &self.stack[j] {
                StackValue::Label(l) => {
                    labels.push(*l);
                },
                _ => {},
            }
            j = j + 1;
        }
        Ok(labels)
    }

    /// Whether the current frame holds exactly one label, the one that the
    /// call put there.
    pub fn is_func_top_level(&self) -> (r: Result<bool, Error>)
        ensures
            top_frame(self@) is Some ==> r == Ok::<bool, Error>(frame_labels(self@).len() == 1),
            top_frame(self@) is None ==> r == Err::<bool, Error>(Error::NoCallFrame),
    {
        match self.current_frame_labels() {
            Ok(labels) => Ok(labels.len() == 1),
            Err(e) => Err(e),
        }
    }

    /// Removes the topmost activation and everything above it, and returns its
    /// frame. Fails, and leaves the stack as it was, where there is none.
    pub fn pop_frame(&mut self) -> (r: Result<CallFrame, Error>)
        ensures
            top_frame(old(self)@) matches Some(p) ==> r is Ok && StackEntry::Activation(r->Ok_0@)
                == old(self)@[p] && final(self)@ == old(self)@.subrange(0, p),
            top_frame(old(self)@) is None ==> r is Err && r->Err_0 == Error::NoCallFrame && final(self)@ == old(self)@,
    {
        let p: usize = match self.top_frame_index() {
            Some(p) => p,
            None => {
                return Err(Error::NoCallFrame);
            },
        };
        let n: usize = self.stack.len();
        assert(p < n);
        self.stack.truncate(p + 1);
        let top = self.stack.pop();
        assert(self@ =~= old(self)@.subrange(0, p as int));
        match top {
            Some(StackValue::Activation(frame)) => Ok(frame),
            _ => Err(Error::NoCallFrame),
        }
    }

    /// Takes entries off the top for as long as `f` holds of the top entry,
    /// and returns them, the topmost first.
    pub fn pop_while<F: Fn(&StackValue) -> bool>(&mut self, f: F) -> (popped: Vec<StackValue>)
        requires
            forall|e: &StackValue| call_requires(f, (e,)),
        ensures
            popped@.len() <= old(self).entries().len(),
            final(self).entries() == old(self).entries().subrange(
                0,
                old(self).entries().len() - popped@.len(),
            ),
            final(self)@ == old(self)@.subrange(0, old(self)@.len() - popped@.len()),
            forall|j: int|
                0 <= j < popped@.len() ==> #[trigger] popped@[j] == old(self).entries()[old(self).entries().len() - 1 - j],
            forall|j: int| 0 <= j < popped@.len() ==> call_ensures(f, (&#[trigger] popped@[j],), true),
            final(self).entries().len() > 0 ==> call_ensures(
                f,
                (&final(self).entries().last(),),
                false,
            ),
    {
        let mut popped: Vec<StackValue> = Vec::new();
        while self.stack.len() > 0
            invariant
                forall|e: &StackValue| call_requires(f, (e,)),
                popped@.len() + self.stack@.len() == old(self).stack@.len(),
                self.stack@ == old(self).stack@.subrange(0, self.stack@.len() as int),
                forall|j: int|
                    0 <= j < popped@.len() ==> #[trigger] popped@[j] == old(self).stack@[old(self).stack@.len() - 1 - j],
                forall|j: int|
                    0 <= j < popped@.len() ==> call_ensures(f, (&#[trigger] popped@[j],), true),
            ensures
                popped@.len() + self.stack@.len() == old(self).stack@.len(),
                self.stack@ == old(self).stack@.subrange(0, self.stack@.len() as int),
                forall|j: int|
                    0 <= j < popped@.len() ==> #[trigger] popped@[j] == old(self).stack@[old(self).stack@.len() - 1 - j],
                forall|j: int|
                    0 <= j < popped@.len() ==> call_ensures(f, (&#[trigger] popped@[j],), true),
                self.stack@.len() > 0 ==> call_ensures(f, (&self.stack@.last(),), false),
            decreases self.stack@.len(),
        {
            let keep = f(&self.stack[self.stack.len() - 1]);
            if !keep {
                break ;
            }
            let ghost before = self.stack@;
            let entry = self.stack.pop().unwrap();
            popped.push(entry);
            proof {
                assert(self.stack@ =~= old(self).stack@.subrange(0, self.stack@.len() as int));
            }
        }
        assert(self@ =~= old(self)@.subrange(0, old(self)@.len() - popped@.len()));
        popped
    }

    /// Sets local `index` of the current frame.
    pub fn set_local(&mut self, index: usize, val: Value) -> (r: Result<(), Error>)
        ensures
            r == set_local_result(old(self)@, index),
            r is Ok ==> final(self)@ == set_local_stack(old(self)@, index, val),
            r is Err ==> final(self)@ == old(self)@,
    {
        let p: usize = match self.top_frame_index() {
            Some(p) => p,
            None => {
                return Err(Error::NoCallFrame);
            },
        };
        let r = match &mut self.stack[p] {
            StackValue::Activation(frame) => frame.set_local(index, val),
            _ => Err(Error::NoCallFrame),
        };
        proof {
            if r is Ok {
                assert(self@ =~= set_local_stack(old(self)@, index, val));
            } else {
                assert(self@ =~= old(self)@);
            }
        }
        r
    }
}

/// What `pop_value` returns on the stack `s`.
pub open spec fn pop_value_result(s: Seq<StackEntry>) -> Result<Value, Error> {
    if s.len() == 0 {
        Err(Error::Underflow)
    } else {
        entry_as_value(s.last())
    }
}

/// What `pop_label` returns on the stack `s`.
pub open spec fn pop_label_result(s: Seq<StackEntry>) -> Result<Label, Error> {
    if s.len() == 0 {
        Err(Error::Underflow)
    } else {
        match s.last() {
            StackEntry::Label(l) => Ok(l),
            e => Err(Error::TypeMismatch { expected: StackValueType::Label, actual: e.value_type() }),
        }
    }
}

/// What `set_local` returns on the stack `s`.
pub open spec fn set_local_result(s: Seq<StackEntry>, index: usize) -> Result<(), Error> {
    match current_frame_of(s) {
        Ok(frame) => if index < frame.locals.len() {
            Ok(())
        } else {
            Err(Error::UndefinedLocal(index))
        },
        Err(e) => Err(e),
    }
}

/// The stack `s` with local `index` of its current frame set to `val`.
pub open spec fn set_local_stack(s: Seq<StackEntry>, index: usize, val: Value) -> Seq<StackEntry>
    recommends
        set_local_result(s, index) is Ok,
{
    let p = top_frame(s)->Some_0;
    let frame = s[p]->Activation_0;
    s.update(
        p,
        StackEntry::Activation(FrameView { locals: frame.locals.update(index as int, val), ..frame }),
    )
}

} // verus!
