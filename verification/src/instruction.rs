//! The instruction set: the wire format between the compiler and the
//! virtual machine.

use vstd::prelude::*;
use crate::value::{RawValue, TypeKind};

verus! {

/// One compiled unit of work for the virtual machine.
#[derive(Debug, PartialEq)]
pub enum Instruction {
    /// Push a new, not-yet-active call frame for the function with this id.
    MakeNewFrame(u64),
    /// Push a text literal onto the newest frame's evaluation stack.
    PushMainStr(String),
    /// Push an integer literal onto the newest frame's evaluation stack.
    PushMainInt(i64),
    /// Push a floating-point literal (as its bit pattern) onto the newest
    /// frame's evaluation stack.
    PushMainNum(u64),
    /// Fail unless the top of the newest frame's evaluation stack is
    /// type-compatible with this tag. Peeks; never pops.
    AssertMainTopTypeCompatible(TypeKind),
    /// Pop the top of the newest frame's evaluation stack into the variable
    /// slot with this id in that same frame. A frame binds an id on its
    /// first write — the machine holds no symbol table, so a write cannot
    /// tell a fresh id from one whose variable a closed block reclaimed.
    WriteToVarWithId(u64),
    /// Pop the top of the newest frame's evaluation stack into the global
    /// variable store under this id.
    WriteToGlobalVarWithId(u64),
    /// Promote the most recently begun frame to be the execution target.
    SetLastFrameReady,
    /// Pop the current frame, which must be the newest one (no begun frame
    /// may still await activation); ends the program if it was the
    /// outermost frame.
    Return,
}

impl Clone for Instruction {
    /// An exact copy: the clone equals the original.
    fn clone(&self) -> (r: Self)
        ensures
            r == *self,
    {
        match self {
            Instruction::MakeNewFrame(id) => Instruction::MakeNewFrame(*id),
            Instruction::PushMainStr(s) => Instruction::PushMainStr(s.clone()),
            Instruction::PushMainInt(i) => Instruction::PushMainInt(*i),
            Instruction::PushMainNum(b) => Instruction::PushMainNum(*b),
            Instruction::AssertMainTopTypeCompatible(t) => Instruction::AssertMainTopTypeCompatible(
                *t,
            ),
            Instruction::WriteToVarWithId(id) => Instruction::WriteToVarWithId(*id),
            Instruction::WriteToGlobalVarWithId(id) => Instruction::WriteToGlobalVarWithId(*id),
            Instruction::SetLastFrameReady => Instruction::SetLastFrameReady,
            Instruction::Return => Instruction::Return,
        }
    }
}

/// The instruction that pushes a given literal onto the evaluation stack.
pub open spec fn push_of(v: RawValue) -> Instruction {
    match v {
        RawValue::Text(s) => Instruction::PushMainStr(s),
        RawValue::Integer(i) => Instruction::PushMainInt(i),
        RawValue::Number(b) => Instruction::PushMainNum(b),
    }
}

/// Builds the push instruction for a literal, consuming it.
pub fn push_instruction_for(v: RawValue) -> (r: Instruction)
    ensures
        r == push_of(v),
{
    match v {
        RawValue::Text(s) => Instruction::PushMainStr(s),
        RawValue::Integer(i) => Instruction::PushMainInt(i),
        RawValue::Number(b) => Instruction::PushMainNum(b),
    }
}

} // verus!
