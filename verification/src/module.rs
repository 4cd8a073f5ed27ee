//! A decoded module: what the analysis reads of it.

use crate::instr::Instr;
use crate::memory::{segments_of, DataSegment, Segment};
use crate::value::AbstractValue;
use vstd::prelude::*;

verus! {

/// The parts of a module that the analysis reads.
#[derive(Debug, Clone)]
pub struct Module {
    /// The active data segments with a constant offset, in the order of the module.
    pub segments: Vec<DataSegment>,
    /// The globals by index: `Known` where the initial value is a constant
    /// 32-bit integer, `Unknown` for any other.
    pub globals: Vec<AbstractValue>,
    /// The function bodies that could be decoded, each as its instructions.
    pub functions: Vec<Vec<Instr>>,
}

/// A module as a value: its segments, its global table and the
/// instructions of its function bodies.
pub struct ModuleView {
    pub segments: Seq<Segment>,
    pub globals: Seq<AbstractValue>,
    pub functions: Seq<Seq<Instr>>,
}

impl View for Module {
    type V = ModuleView;

    open spec fn view(&self) -> ModuleView {
        ModuleView {
            segments: segments_of(self.segments@),
            globals: self.globals@,
            functions: Seq::new(self.functions@.len(), |f: int| self.functions@[f]@),
        }
    }
}

/// The integer of a constant expression that is a single 32-bit constant,
/// which is to say `i32.const` and the closing `end`.
pub open spec fn constant_of(code: Seq<Instr>) -> Option<i32> {
    if code.len() == 2 && code[0] is I32Const && code[1] == Instr::End {
        Some(code[0]->I32Const_0)
    } else {
        None
    }
}

/// The entry of the global table for an initial-value expression.
pub open spec fn global_of(code: Seq<Instr>) -> AbstractValue {
    match constant_of(code) {
        Some(value) => AbstractValue::Known(value),
        None => AbstractValue::Unknown,
    }
}

/// The value of a constant expression, if it is a single 32-bit constant.
pub fn extract_i32_const(code: &[Instr]) -> (value: Option<i32>)
    ensures
        value == constant_of(code@),
{
    if code.len() != 2 {
        return None;
    }
    match (code[0], code[1]) {
        (Instr::I32Const(value), Instr::End) => Some(value),
        _ => None,
    }
}

/// The entry of the global table for an initial-value expression.
pub fn global_entry(init: &[Instr]) -> (entry: AbstractValue)
    ensures
        entry == global_of(init@),
{
    match extract_i32_const(init) {
        Some(value) => AbstractValue::Known(value),
        None => AbstractValue::Unknown,
    }
}

} // verus!
