//! Instructions, as far as the analysis tells them apart, and what each
//! does to the operand stack.

use vstd::prelude::*;

verus! {

/// One instruction of a function body or of a constant expression.
#[derive(Clone, Copy, Debug, PartialEq, Eq, Structural)]
pub enum Instr {
    I32Const(i32),
    I64Const,
    F32Const,
    F64Const,
    GlobalGet(u32),
    LocalGet(u32),
    LocalSet(u32),
    LocalTee(u32),
    I32Add,
    I32Sub,
    I32Mul,
    I32DivS,
    I32DivU,
    I32RemS,
    I32RemU,
    I32Eqz,
    I32Eq,
    I32Ne,
    I32LtS,
    I32LtU,
    I32GtS,
    I32GtU,
    I32LeS,
    I32LeU,
    I32GeS,
    I32GeU,
    I32And,
    I32Or,
    I32Xor,
    I32Shl,
    I32ShrS,
    I32ShrU,
    I32Rotl,
    I32Rotr,
    I32Load,
    I64Load,
    F32Load,
    F64Load,
    I32Load8S,
    I32Load8U,
    I32Load16S,
    I32Load16U,
    I64Load8S,
    I64Load8U,
    I64Load16S,
    I64Load16U,
    I64Load32S,
    I64Load32U,
    I32Store,
    I64Store,
    F32Store,
    F64Store,
    I32Store8,
    I32Store16,
    I64Store8,
    I64Store16,
    I64Store32,
    Call,
    CallIndirect,
    Drop,
    Select,
    Return,
    End,
    /// Any other instruction: blocks, branches and whatever the analysis does not model.
    Other,
}

/// What an instruction does to the abstract state.
#[derive(Clone, Copy, Debug, PartialEq, Eq, Structural)]
pub enum Effect {
    /// Pushes a known integer.
    PushKnown(i32),
    /// Pushes a value that is not tracked.
    PushUnknown,
    /// Pushes the value of a global.
    PushGlobal(u32),
    /// Pushes the value of a local.
    PushLocal(u32),
    /// Pops a value into a local.
    SetLocal(u32),
    /// Copies the top of the stack into a local.
    TeeLocal(u32),
    /// Pops two values and pushes their sum.
    Add,
    /// Pops two values and pushes one that is not tracked.
    Binary,
    /// Pops one value and pushes one that is not tracked.
    Unary,
    /// Pops two values.
    Store,
    /// Pops one value.
    Discard,
    /// Offers the two topmost values as pointer and length, then replaces
    /// the stack by one value that is not tracked.
    Call,
    /// Pops a condition and two values, and pushes the value if both are the same.
    Select,
    /// Ends the function body.
    Return,
    /// Leaves the state as it is.
    Nothing,
}

impl Instr {
    /// The effect of each instruction. Of the integer arithmetic only the
    /// 32-bit addition is followed; every other 32-bit operation on two
    /// operands, comparison and bit operation yields an untracked value, and
    /// so does a load of any width.
    pub open spec fn spec_effect(self) -> Effect {
        match self {
            Instr::I32Const(value) => Effect::PushKnown(value),
            Instr::I64Const | Instr::F32Const | Instr::F64Const => Effect::PushUnknown,
            Instr::GlobalGet(index) => Effect::PushGlobal(index),
            Instr::LocalGet(index) => Effect::PushLocal(index),
            Instr::LocalSet(index) => Effect::SetLocal(index),
            Instr::LocalTee(index) => Effect::TeeLocal(index),
            Instr::I32Add => Effect::Add,
            Instr::I32Sub
            | Instr::I32Mul
            | Instr::I32DivS
            | Instr::I32DivU
            | Instr::I32RemS
            | Instr::I32RemU
            | Instr::I32Eq
            | Instr::I32Ne
            | Instr::I32LtS
            | Instr::I32LtU
            | Instr::I32GtS
            | Instr::I32GtU
            | Instr::I32LeS
            | Instr::I32LeU
            | Instr::I32GeS
            | Instr::I32GeU
            | Instr::I32And
            | Instr::I32Or
            | Instr::I32Xor
            | Instr::I32Shl
            | Instr::I32ShrS
            | Instr::I32ShrU
            | Instr::I32Rotl
            | Instr::I32Rotr => Effect::Binary,
            Instr::I32Eqz
            | Instr::I32Load
            | Instr::I64Load
            | Instr::F32Load
            | Instr::F64Load
            | Instr::I32Load8S
            | Instr::I32Load8U
            | Instr::I32Load16S
            | Instr::I32Load16U
            | Instr::I64Load8S
            | Instr::I64Load8U
            | Instr::I64Load16S
            | Instr::I64Load16U
            | Instr::I64Load32S
            | Instr::I64Load32U => Effect::Unary,
            Instr::I32Store
            | Instr::I64Store
            | Instr::F32Store
            | Instr::F64Store
            | Instr::I32Store8
            | Instr::I32Store16
            | Instr::I64Store8
            | Instr::I64Store16
            | Instr::I64Store32 => Effect::Store,
            Instr::Call | Instr::CallIndirect => Effect::Call,
            Instr::Drop => Effect::Discard,
            Instr::Select => Effect::Select,
            Instr::Return => Effect::Return,
            Instr::End | Instr::Other => Effect::Nothing,
        }
    }

    /// The effect of this instruction.
    #[verifier::when_used_as_spec(spec_effect)]
    pub fn effect(self) -> (e: Effect)
        ensures
            e == self.spec_effect(),
    {
        match self {
            Instr::I32Const(value) => Effect::PushKnown(value),
            Instr::I64Const | Instr::F32Const | Instr::F64Const => Effect::PushUnknown,
            Instr::GlobalGet(index) => Effect::PushGlobal(index),
            Instr::LocalGet(index) => Effect::PushLocal(index),
            Instr::LocalSet(index) => Effect::SetLocal(index),
            Instr::LocalTee(index) => Effect::TeeLocal(index),
            Instr::I32Add => Effect::Add,
            Instr::I32Sub
            | Instr::I32Mul
            | Instr::I32DivS
            | Instr::I32DivU
            | Instr::I32RemS
            | Instr::I32RemU
            | Instr::I32Eq
            | Instr::I32Ne
            | Instr::I32LtS
            | Instr::I32LtU
            | Instr::I32GtS
            | Instr::I32GtU
            | Instr::I32LeS
            | Instr::I32LeU
            | Instr::I32GeS
            | Instr::I32GeU
            | Instr::I32And
            | Instr::I32Or
            | Instr::I32Xor
            | Instr::I32Shl
            | Instr::I32ShrS
            | Instr::I32ShrU
            | Instr::I32Rotl
            | Instr::I32Rotr => Effect::Binary,
            Instr::I32Eqz
            | Instr::I32Load
            | Instr::I64Load
            | Instr::F32Load
            | Instr::F64Load
            | Instr::I32Load8S
            | Instr::I32Load8U
            | Instr::I32Load16S
            | Instr::I32Load16U
            | Instr::I64Load8S
            | Instr::I64Load8U
            | Instr::I64Load16S
            | Instr::I64Load16U
            | Instr::I64Load32S
            | Instr::I64Load32U => Effect::Unary,
            Instr::I32Store
            | Instr::I64Store
            | Instr::F32Store
            | Instr::F64Store
            | Instr::I32Store8
            | Instr::I32Store16
            | Instr::I64Store8
            | Instr::I64Store16
            | Instr::I64Store32 => Effect::Store,
            Instr::Call | Instr::CallIndirect => Effect::Call,
            Instr::Drop => Effect::Discard,
            Instr::Select => Effect::Select,
            Instr::Return => Effect::Return,
            Instr::End | Instr::Other => Effect::Nothing,
        }
    }
}

} // verus!
