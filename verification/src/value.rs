//! Abstract values: what is statically known of one stack or local slot.

use std::collections::HashMap;
use vstd::prelude::*;

verus! {

broadcast use vstd::std_specs::hash::group_hash_axioms;

/// The content of one operand-stack slot or local, as far as it is known.
#[derive(Clone, Copy, Debug, PartialEq, Eq, Structural)]
pub enum AbstractValue {
    /// An exactly known 32-bit integer.
    Known(i32),
    /// Anything else.
    Unknown,
}

/// The 32-bit two's-complement sum of two integers.
pub open spec fn wrapping_sum(x: int, y: int) -> int {
    let s = x + y;
    if s > i32::MAX {
        s - 0x1_0000_0000
    } else if s < i32::MIN {
        s + 0x1_0000_0000
    } else {
        s
    }
}

impl AbstractValue {
    /// The sum of two abstract values: exact where both are known.
    pub open spec fn spec_plus(self, other: AbstractValue) -> AbstractValue {
        match (self, other) {
            (AbstractValue::Known(x), AbstractValue::Known(y)) => AbstractValue::Known(
                wrapping_sum(x as int, y as int) as i32,
            ),
            _ => AbstractValue::Unknown,
        }
    }

    /// Adds two abstract values with 32-bit wrap-around.
    pub fn plus(self, other: AbstractValue) -> (r: AbstractValue)
        ensures
            r == self.spec_plus(other),
    {
        match (self, other) {
            (AbstractValue::Known(x), AbstractValue::Known(y)) => AbstractValue::Known(
                x.wrapping_add(y),
            ),
            _ => AbstractValue::Unknown,
        }
    }
}

/// The abstract state of one function body under interpretation: an operand
/// stack, whose top is its last element, and the locals written so far.
pub struct StackFrame {
    stack: Vec<AbstractValue>,
    locals: HashMap<u32, AbstractValue>,
}

/// What `pop` leaves of a stack: all but the top, and the empty stack as it is.
pub open spec fn without_top(stack: Seq<AbstractValue>) -> Seq<AbstractValue> {
    if stack.len() > 0 {
        stack.drop_last()
    } else {
        stack
    }
}

/// The slot `depth` places below the top, `Unknown` where the stack is too shallow.
pub open spec fn slot_below_top(stack: Seq<AbstractValue>, depth: int) -> AbstractValue {
    if 0 <= depth < stack.len() {
        stack[stack.len() - 1 - depth]
    } else {
        AbstractValue::Unknown
    }
}

/// The value of a local: `Unknown` until it has been written.
pub open spec fn local_value(locals: Map<u32, AbstractValue>, index: u32) -> AbstractValue {
    if locals.dom().contains(index) {
        locals[index]
    } else {
        AbstractValue::Unknown
    }
}

/// The content of a frame: the operand stack, bottom first, and the locals
/// that have been written, by index.
pub struct FrameState {
    pub stack: Seq<AbstractValue>,
    pub locals: Map<u32, AbstractValue>,
}

impl FrameState {
    /// The state in which the interpretation of a function body starts.
    pub open spec fn initial() -> FrameState {
        FrameState { stack: Seq::empty(), locals: Map::empty() }
    }
}

impl View for StackFrame {
    type V = FrameState;

    closed spec fn view(&self) -> FrameState {
        FrameState { stack: self.stack@, locals: self.locals@ }
    }
}

impl StackFrame {
    /// A frame with an empty stack and no local written.
    pub fn new() -> (frame: StackFrame)
        ensures
            frame@ == FrameState::initial(),
    {
        StackFrame { stack: Vec::new(), locals: HashMap::new() }
    }

    /// Pushes `val` on the operand stack.
    pub fn push(&mut self, val: AbstractValue)
        ensures
            final(self)@.stack == old(self)@.stack.push(val),
            final(self)@.locals == old(self)@.locals,
    {
        self.stack.push(val);
    }

    /// Takes the top of the operand stack; an empty stack yields `Unknown` and stays empty.
    pub fn pop(&mut self) -> (val: AbstractValue)
        ensures
            val == slot_below_top(old(self)@.stack, 0),
            final(self)@.stack == without_top(old(self)@.stack),
            final(self)@.locals == old(self)@.locals,
    {
        match self.stack.pop() {
            Some(v) => v,
            None => AbstractValue::Unknown,
        }
    }

    /// Reads the slot `depth` places below the top without removing it.
    pub fn peek(&self, depth: usize) -> (val: AbstractValue)
        ensures
            val == slot_below_top(self@.stack, depth as int),
    {
        let len = self.stack.len();
        if depth < len {
            self.stack[len - 1 - depth]
        } else {
            AbstractValue::Unknown
        }
    }

    /// Empties the operand stack; the locals stay.
    pub fn clear(&mut self)
        ensures
            final(self)@.stack == Seq::<AbstractValue>::empty(),
            final(self)@.locals == old(self)@.locals,
    {
        self.stack.clear();
    }

    /// Reads a local; one never written is `Unknown`.
    pub fn get_local(&self, index: u32) -> (val: AbstractValue)
        ensures
            val == local_value(self@.locals, index),
    {
        match self.locals.get(&index) {
            Some(v) => *v,
            None => AbstractValue::Unknown,
        }
    }

    /// Writes a local.
    pub fn set_local(&mut self, index: u32, val: AbstractValue)
        ensures
            final(self)@.locals == old(self)@.locals.insert(index, val),
            final(self)@.stack == old(self)@.stack,
    {
        self.locals.insert(index, val);
    }
}

} // verus!
