//! Construction and optimization core of a small compiler front end.
//!
//! The library builds an in-memory program representation in the
//! "sea of nodes" style: control-flow nodes and value-producing nodes
//! live in two append-only arenas and refer to each other by opaque
//! identifiers.  Every value node is folded and simplified as it is
//! built, using a three-level abstract-value lattice per primitive
//! type, so the identifiers handed back to the caller always refer to
//! the final, already-optimized node.

pub mod arena;
pub mod binaryop;
pub mod ctrl;
pub mod errors;
pub mod expr;
pub mod laws;
pub mod parser;
pub mod symbols;
pub mod text;
pub mod token;
pub mod tokenizer;
pub mod ty;
pub mod unaryop;
pub mod value;
pub mod visualize;

pub use arena::{Arena, Id};
pub use binaryop::BinaryOp;
pub use ctrl::Ctrl;
pub use errors::{BuildError, OperandKind};
pub use expr::Expr;
pub use parser::Parser;
pub use symbols::Symbols;
pub use token::Token;
pub use tokenizer::Tokenizer;
pub use ty::{Data, Ty};
pub use unaryop::UnaryOp;
pub use value::{BoolValue, IntValue, Value};
pub use visualize::{VisEdge, VisNode, Visualizer};
