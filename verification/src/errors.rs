//! The recoverable error kinds of the construction core.

use vstd::prelude::*;

use crate::binaryop::BinaryOp;
use crate::unaryop::UnaryOp;
use crate::value::Value;

verus! {

/// The abstract type of an operand, as reported in type-mismatch
/// errors.
#[derive(Debug, Clone, Copy, PartialEq, Eq, Structural)]
pub enum OperandKind {
    All,
    Bool,
    Int,
    Any,
}

/// The operand kind of an abstract value.
pub open spec fn spec_kind_of(v: Value) -> OperandKind {
    match v {
        Value::All => OperandKind::All,
        Value::Bool(_) => OperandKind::Bool,
        Value::Int(_) => OperandKind::Int,
        Value::Any => OperandKind::Any,
    }
}

pub fn kind_of(v: &Value) -> (k: OperandKind)
    ensures
        k == spec_kind_of(*v),
{
    match v {
        Value::All => OperandKind::All,
        Value::Bool(_) => OperandKind::Bool,
        Value::Int(_) => OperandKind::Int,
        Value::Any => OperandKind::Any,
    }
}

/// An error of the construction core.
///
/// Every construction step that can fail aborts with one of these and
/// propagates it to the driver as a result value; the core never
/// substitutes a silent fallback.  Constant division or modulo by a
/// constant zero is reported as `DivisionByZero`: the core deliberately
/// treats it as a failure rather than folding to a sentinel value.
#[derive(Debug, Clone, PartialEq, Eq)]
pub enum BuildError {
    /// A name lookup found no binding in any enclosing scope.
    UndefinedSymbol(String),
    /// An assignment to a name that no enclosing scope declares.
    RebindWithoutDeclare(String),
    /// A binary operator applied to operands of the wrong or
    /// inconsistent abstract type.
    OperatorTypeMismatch { op: BinaryOp, lhs: OperandKind, rhs: OperandKind },
    /// A unary operator applied to an operand of the wrong abstract
    /// type.
    UnaryTypeMismatch { op: UnaryOp, operand: OperandKind },
    /// A lattice join or meet across an integer and a boolean value.
    LatticeJoinMismatch,
    /// Folding a constant division or modulo whose divisor is zero.
    DivisionByZero,
    /// A scope pop with no matching push.
    ScopeUnderflow,
    /// The parser met a token that no rule of the grammar allows here.
    UnexpectedToken,
    /// The parser met the end of the source in the middle of a
    /// construct.
    UnexpectedEnd,
    /// The parsed program ended without a return statement.
    MissingReturn,
}

/// True of the errors the abstract evaluator itself can produce:
/// the type mismatches, the lattice mismatch, and constant division
/// by zero.
pub open spec fn eval_error(e: BuildError) -> bool {
    ||| e is OperatorTypeMismatch
    ||| e is UnaryTypeMismatch
    ||| e is LatticeJoinMismatch
    ||| e is DivisionByZero
}

/// True of every error a statement or expression parse can produce:
/// an evaluation error, a grammar error, or a name error.  Notably
/// absent: `MissingReturn`, which only the whole-program parse
/// reports, and only after the source parsed cleanly to its end.
pub open spec fn parse_error(e: BuildError) -> bool {
    ||| eval_error(e)
    ||| e is UnexpectedToken
    ||| e is UnexpectedEnd
    ||| e is UndefinedSymbol
    ||| e is RebindWithoutDeclare
    ||| e is ScopeUnderflow
}

impl BuildError {
    /// A short, fixed description of the error kind.
    pub fn describe(&self) -> &'static str {
        match self {
            BuildError::UndefinedSymbol(_) => "undefined symbol",
            BuildError::RebindWithoutDeclare(_) => "assignment to undeclared symbol",
            BuildError::OperatorTypeMismatch { .. } => "operator applied to operands of the wrong type",
            BuildError::UnaryTypeMismatch { .. } => "unary operator applied to an operand of the wrong type",
            BuildError::LatticeJoinMismatch => "lattice join across integer and boolean values",
            BuildError::DivisionByZero => "constant division by zero",
            BuildError::ScopeUnderflow => "scope pop with no matching push",
            BuildError::UnexpectedToken => "unexpected token",
            BuildError::UnexpectedEnd => "unexpected end of source",
            BuildError::MissingReturn => "missing return statement",
        }
    }
}

} // verus!
