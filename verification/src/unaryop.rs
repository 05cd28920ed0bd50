//! The unary operators of the expression graph.

use vstd::prelude::*;

verus! {

/// A unary operator of the source language.
///
/// `Negate` acts on integer operands.  `Not` is logical negation on
/// boolean operands and bitwise complement on integer operands.
#[derive(Debug, Clone, Copy, PartialEq, Eq, Structural)]
pub enum UnaryOp {
    Negate,
    Not,
}

impl UnaryOp {
    /// The operator's source spelling.
    pub fn symbol(&self) -> &'static str {
        match self {
            UnaryOp::Negate => "-",
            UnaryOp::Not => "!",
        }
    }
}

} // verus!
