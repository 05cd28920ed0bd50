//! The primitive types of the source language, and plain runtime
//! values of those types.

use vstd::prelude::*;

verus! {

/// A primitive type of the source language: the two-value type system
/// behind the abstract-value lattice.
#[derive(Debug, Clone, Copy, PartialEq, Eq, Structural)]
pub enum Ty {
    Bool,
    Int,
}

impl Ty {
    /// The type's source spelling.
    pub fn name(&self) -> &'static str {
        match self {
            Ty::Bool => "bool",
            Ty::Int => "int",
        }
    }
}

/// A concrete runtime value of one primitive type.
#[derive(Debug, Clone, Copy, PartialEq, Eq, Structural)]
pub enum Data {
    Bool(bool),
    Int(i64),
}

impl Data {
    /// The primitive type this value belongs to.
    pub fn ty(&self) -> (t: Ty)
        ensures
            t == (match *self {
                Data::Bool(_) => Ty::Bool,
                Data::Int(_) => Ty::Int,
            }),
    {
        match self {
            Data::Bool(_) => Ty::Bool,
            Data::Int(_) => Ty::Int,
        }
    }
}

} // verus!
