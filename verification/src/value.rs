//! Runtime values and their type tags.

use vstd::prelude::*;

verus! {

/// The closed set of runtime types a value can have.
#[derive(Clone, Copy, PartialEq, Eq, Structural, Debug)]
pub enum TypeKind {
    Text,
    Integer,
    Number,
}

/// A literal value: passed as a call argument, pushed onto a frame's
/// evaluation stack, or stored in a variable slot.
///
/// `Number` carries the bit pattern of an IEEE 754 double. The verified core
/// only tags, moves and stores such payloads; arithmetic on them is not part
/// of the frame protocol and lives outside the library.
#[derive(Debug, PartialEq)]
pub enum RawValue {
    Text(String),
    Integer(i64),
    Number(u64),
}

impl RawValue {
    /// The type tag of this value.
    pub open spec fn kind(self) -> TypeKind {
        match self {
            RawValue::Text(_) => TypeKind::Text,
            RawValue::Integer(_) => TypeKind::Integer,
            RawValue::Number(_) => TypeKind::Number,
        }
    }

    /// Reports the type tag of this value.
    pub fn kind_of(&self) -> (k: TypeKind)
        ensures
            k == self.kind(),
    {
        match self {
            RawValue::Text(_) => TypeKind::Text,
            RawValue::Integer(_) => TypeKind::Integer,
            RawValue::Number(_) => TypeKind::Number,
        }
    }
}

impl Clone for RawValue {
    /// An exact copy: the clone equals the original.
    fn clone(&self) -> (r: Self)
        ensures
            r == *self,
    {
        match self {
            RawValue::Text(s) => RawValue::Text(s.clone()),
            RawValue::Integer(i) => RawValue::Integer(*i),
            RawValue::Number(b) => RawValue::Number(*b),
        }
    }
}

/// Whether a value of tag `actual` may bind a slot that expects `expected`:
/// the tags must match, except that an integer is accepted where a
/// floating-point number is expected.
pub open spec fn compatible(actual: TypeKind, expected: TypeKind) -> bool {
    actual == expected || (actual == TypeKind::Integer && expected == TypeKind::Number)
}

/// Decides `compatible`.
pub fn is_compatible(actual: TypeKind, expected: TypeKind) -> (r: bool)
    ensures
        r == compatible(actual, expected),
{
    actual == expected || (matches!(actual, TypeKind::Integer) && matches!(
        expected,
        TypeKind::Number,
    ))
}

} // verus!
