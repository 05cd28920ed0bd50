//! The binary operators of the expression graph.

use vstd::prelude::*;

verus! {

/// A binary operator of the source language.
///
/// Arithmetic, bitwise, shift and comparison operators act on integer
/// operands; the short-circuit logical operators act on boolean
/// operands.
#[derive(Debug, Clone, Copy, PartialEq, Eq, Structural)]
pub enum BinaryOp {
    Add,
    Subtract,
    Multiply,
    Divide,
    Modulo,
    And,
    Or,
    Xor,
    LogicalAnd,
    LogicalOr,
    ShiftLeft,
    ShiftRight,
    Equal,
    NotEqual,
    LessThan,
    GreaterThan,
    LessThanOrEqual,
    GreaterThanOrEqual,
}

impl BinaryOp {
    /// The operator's source spelling.
    pub fn symbol(&self) -> &'static str {
        match self {
            BinaryOp::Add => "+",
            BinaryOp::Subtract => "-",
            BinaryOp::Multiply => "*",
            BinaryOp::Divide => "/",
            BinaryOp::Modulo => "%",
            BinaryOp::And => "&",
            BinaryOp::Or => "|",
            BinaryOp::Xor => "^",
            BinaryOp::LogicalAnd => "&&",
            BinaryOp::LogicalOr => "||",
            BinaryOp::ShiftLeft => "<<",
            BinaryOp::ShiftRight => ">>",
            BinaryOp::Equal => "==",
            BinaryOp::NotEqual => "!=",
            BinaryOp::LessThan => "<",
            BinaryOp::GreaterThan => ">",
            BinaryOp::LessThanOrEqual => "<=",
            BinaryOp::GreaterThanOrEqual => ">=",
        }
    }
}

/// True of the operators whose local rewrite rules act on integer-typed
/// operands: the arithmetic family.
pub open spec fn is_int_rewrite_op(op: BinaryOp) -> bool {
    match op {
        BinaryOp::Add => true,
        BinaryOp::Subtract => true,
        BinaryOp::Multiply => true,
        BinaryOp::Divide => true,
        BinaryOp::Modulo => true,
        _ => false,
    }
}

/// True of the comparison operators, whose identity rewrites fire when
/// both operand identifiers are the same.
pub open spec fn is_comparison_op(op: BinaryOp) -> bool {
    match op {
        BinaryOp::Equal => true,
        BinaryOp::NotEqual => true,
        BinaryOp::LessThan => true,
        BinaryOp::GreaterThan => true,
        BinaryOp::LessThanOrEqual => true,
        BinaryOp::GreaterThanOrEqual => true,
        _ => false,
    }
}

} // verus!
