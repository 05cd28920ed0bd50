//! The abstract-value lattice used for constant propagation.
//!
//! Each primitive type has a three-level lattice
//! `All ⊑ Constant(v) ⊑ Any`: `All` means "no information yet",
//! a constant is exact knowledge, and `Any` means "statically
//! unknowable, but type-consistent".  `join` is the least upper bound
//! (used when merging the values flowing into a `Phi`); `meet` is the
//! greatest lower bound, kept for completeness and symmetry.  Joining
//! or meeting an integer value with a boolean value is a reportable
//! type error, never a silent coercion.

use vstd::prelude::*;

use crate::errors::BuildError;

verus! {

/// Abstract knowledge about a boolean: nothing yet, an exact constant,
/// or unknowable.
#[derive(Debug, Clone, Copy, PartialEq, Eq, Structural)]
pub enum BoolValue {
    All,
    Constant(bool),
    Any,
}

impl BoolValue {
    /// Greatest lower bound: `All` absorbs, `Any` is the identity, and
    /// two different constants contradict each other down to `All`.
    pub open spec fn spec_meet(self, other: BoolValue) -> BoolValue {
        match (self, other) {
            (BoolValue::All, _) => BoolValue::All,
            (_, BoolValue::All) => BoolValue::All,
            (BoolValue::Any, _) => other,
            (_, BoolValue::Any) => self,
            (BoolValue::Constant(a), BoolValue::Constant(b)) => if a == b {
                self
            } else {
                BoolValue::All
            },
        }
    }

    /// Least upper bound: `All` is the identity, `Any` absorbs, and two
    /// different constants lose precision up to `Any`.
    pub open spec fn spec_join(self, other: BoolValue) -> BoolValue {
        match (self, other) {
            (BoolValue::All, _) => other,
            (_, BoolValue::All) => self,
            (BoolValue::Any, _) => BoolValue::Any,
            (_, BoolValue::Any) => BoolValue::Any,
            (BoolValue::Constant(a), BoolValue::Constant(b)) => if a == b {
                self
            } else {
                BoolValue::Any
            },
        }
    }

    pub fn meet(&self, other: &BoolValue) -> (r: BoolValue)
        ensures
            r == self.spec_meet(*other),
    {
        match (self, other) {
            (BoolValue::All, _) => BoolValue::All,
            (_, BoolValue::All) => BoolValue::All,
            (BoolValue::Any, _) => *other,
            (_, BoolValue::Any) => *self,
            (BoolValue::Constant(a), BoolValue::Constant(b)) => if a == b {
                *self
            } else {
                BoolValue::All
            },
        }
    }

    pub fn join(&self, other: &BoolValue) -> (r: BoolValue)
        ensures
            r == self.spec_join(*other),
    {
        match (self, other) {
            (BoolValue::All, _) => *other,
            (_, BoolValue::All) => *self,
            (BoolValue::Any, _) => BoolValue::Any,
            (_, BoolValue::Any) => BoolValue::Any,
            (BoolValue::Constant(a), BoolValue::Constant(b)) => if a == b {
                *self
            } else {
                BoolValue::Any
            },
        }
    }
}

/// The boolean join is commutative.
pub proof fn lemma_bool_join_commutative(a: BoolValue, b: BoolValue)
    ensures
        a.spec_join(b) == b.spec_join(a),
{
}

/// The boolean join is associative.
pub proof fn lemma_bool_join_associative(a: BoolValue, b: BoolValue, c: BoolValue)
    ensures
        a.spec_join(b).spec_join(c) == a.spec_join(b.spec_join(c)),
{
}

/// Abstract knowledge about an integer: nothing yet, an exact constant,
/// or unknowable.
#[derive(Debug, Clone, Copy, PartialEq, Eq, Structural)]
pub enum IntValue {
    All,
    Constant(i64),
    Any,
}

impl IntValue {
    /// Greatest lower bound: `All` absorbs, `Any` is the identity, and
    /// two different constants contradict each other down to `All`.
    pub open spec fn spec_meet(self, other: IntValue) -> IntValue {
        match (self, other) {
            (IntValue::All, _) => IntValue::All,
            (_, IntValue::All) => IntValue::All,
            (IntValue::Any, _) => other,
            (_, IntValue::Any) => self,
            (IntValue::Constant(a), IntValue::Constant(b)) => if a == b {
                self
            } else {
                IntValue::All
            },
        }
    }

    /// Least upper bound: `All` is the identity, `Any` absorbs, and two
    /// different constants lose precision up to `Any`.
    pub open spec fn spec_join(self, other: IntValue) -> IntValue {
        match (self, other) {
            (IntValue::All, _) => other,
            (_, IntValue::All) => self,
            (IntValue::Any, _) => IntValue::Any,
            (_, IntValue::Any) => IntValue::Any,
            (IntValue::Constant(a), IntValue::Constant(b)) => if a == b {
                self
            } else {
                IntValue::Any
            },
        }
    }

    pub fn meet(&self, other: &IntValue) -> (r: IntValue)
        ensures
            r == self.spec_meet(*other),
    {
        match (self, other) {
            (IntValue::All, _) => IntValue::All,
            (_, IntValue::All) => IntValue::All,
            (IntValue::Any, _) => *other,
            (_, IntValue::Any) => *self,
            (IntValue::Constant(a), IntValue::Constant(b)) => if a == b {
                *self
            } else {
                IntValue::All
            },
        }
    }

    pub fn join(&self, other: &IntValue) -> (r: IntValue)
        ensures
            r == self.spec_join(*other),
    {
        match (self, other) {
            (IntValue::All, _) => *other,
            (_, IntValue::All) => *self,
            (IntValue::Any, _) => IntValue::Any,
            (_, IntValue::Any) => IntValue::Any,
            (IntValue::Constant(a), IntValue::Constant(b)) => if a == b {
                *self
            } else {
                IntValue::Any
            },
        }
    }
}

/// The integer join is commutative.
pub proof fn lemma_int_join_commutative(a: IntValue, b: IntValue)
    ensures
        a.spec_join(b) == b.spec_join(a),
{
}

/// The integer join is associative.
pub proof fn lemma_int_join_associative(a: IntValue, b: IntValue, c: IntValue)
    ensures
        a.spec_join(b).spec_join(c) == a.spec_join(b.spec_join(c)),
{
}

/// An abstract value of either primitive type, with a shared top
/// (`All`) and bottom (`Any`) across types.
#[derive(Debug, Clone, Copy, PartialEq, Eq, Structural)]
pub enum Value {
    All,
    Bool(BoolValue),
    Int(IntValue),
    Any,
}

impl Value {
    /// True of exact constants: the only values a `Constant` node may
    /// carry.
    pub open spec fn is_concrete(self) -> bool {
        match self {
            Value::Bool(BoolValue::Constant(_)) => true,
            Value::Int(IntValue::Constant(_)) => true,
            _ => false,
        }
    }

    /// Greatest lower bound across the typed lattices; meeting an
    /// integer with a boolean reports `LatticeJoinMismatch`.
    pub open spec fn spec_meet(self, other: Value) -> Result<Value, BuildError> {
        match (self, other) {
            (Value::All, _) => Ok(Value::All),
            (_, Value::All) => Ok(Value::All),
            (Value::Any, _) => Ok(other),
            (_, Value::Any) => Ok(self),
            (Value::Bool(a), Value::Bool(b)) => Ok(Value::Bool(a.spec_meet(b))),
            (Value::Int(a), Value::Int(b)) => Ok(Value::Int(a.spec_meet(b))),
            _ => Err(BuildError::LatticeJoinMismatch),
        }
    }

    /// Least upper bound across the typed lattices; joining an integer
    /// with a boolean reports `LatticeJoinMismatch`.
    pub open spec fn spec_join(self, other: Value) -> Result<Value, BuildError> {
        match (self, other) {
            (Value::All, _) => Ok(other),
            (_, Value::All) => Ok(self),
            (Value::Any, _) => Ok(Value::Any),
            (_, Value::Any) => Ok(Value::Any),
            (Value::Bool(a), Value::Bool(b)) => Ok(Value::Bool(a.spec_join(b))),
            (Value::Int(a), Value::Int(b)) => Ok(Value::Int(a.spec_join(b))),
            _ => Err(BuildError::LatticeJoinMismatch),
        }
    }

    pub fn meet(&self, other: &Value) -> (r: Result<Value, BuildError>)
        ensures
            r == self.spec_meet(*other),
    {
        match (self, other) {
            (Value::All, _) => Ok(Value::All),
            (_, Value::All) => Ok(Value::All),
            (Value::Any, _) => Ok(*other),
            (_, Value::Any) => Ok(*self),
            (Value::Bool(a), Value::Bool(b)) => Ok(Value::Bool(a.meet(b))),
            (Value::Int(a), Value::Int(b)) => Ok(Value::Int(a.meet(b))),
            _ => Err(BuildError::LatticeJoinMismatch),
        }
    }

    pub fn join(&self, other: &Value) -> (r: Result<Value, BuildError>)
        ensures
            r == self.spec_join(*other),
    {
        match (self, other) {
            (Value::All, _) => Ok(*other),
            (_, Value::All) => Ok(*self),
            (Value::Any, _) => Ok(Value::Any),
            (_, Value::Any) => Ok(Value::Any),
            (Value::Bool(a), Value::Bool(b)) => Ok(Value::Bool(a.join(b))),
            (Value::Int(a), Value::Int(b)) => Ok(Value::Int(a.join(b))),
            _ => Err(BuildError::LatticeJoinMismatch),
        }
    }
}

} // verus!
