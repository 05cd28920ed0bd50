//! The laws of the peephole optimizer, stated and proved over the
//! folding model.
//!
//! Each law quantifies over every well-formed expression arena of the
//! given shape: the proofs rest only on the specification functions
//! that the executable builders are verified against.

use vstd::prelude::*;

use crate::binaryop::{is_comparison_op, BinaryOp};
use crate::errors::BuildError;
use crate::expr::{
    comparison_identity_value, const_int_of, expr_wf_at, exprs_wf, fold_step, value_of, Expr,
    FoldStep,
};
use crate::value::{BoolValue, IntValue, Value};

verus! {

/// The constant-boolean result of comparing two constant integers.
pub open spec fn comparison_value(op: BinaryOp, a: i64, b: i64) -> bool {
    match op {
        BinaryOp::Equal => a == b,
        BinaryOp::NotEqual => a != b,
        BinaryOp::LessThan => a < b,
        BinaryOp::GreaterThan => a > b,
        BinaryOp::LessThanOrEqual => a <= b,
        BinaryOp::GreaterThanOrEqual => a >= b,
        _ => false,
    }
}

/// Constant folding of addition: a sum of two constant nodes that does
/// not overflow folds to the constant sum.
pub proof fn lemma_fold_add_constants(nodes: Seq<Expr>, i: int, l: int, r: int, a: i64, b: i64)
    requires
        exprs_wf(nodes),
        0 <= i < nodes.len(),
        nodes[i] matches Expr::Binary { lhs_id, op: BinaryOp::Add, rhs_id } && lhs_id@ == l
            && rhs_id@ == r,
        nodes[l] == (Expr::Constant { value: Value::Int(IntValue::Constant(a)) }),
        nodes[r] == (Expr::Constant { value: Value::Int(IntValue::Constant(b)) }),
        i64::MIN <= a + b <= i64::MAX,
    ensures
        fold_step(nodes, i) == Ok::<FoldStep, BuildError>(
            FoldStep::Fresh(Expr::Constant { value: Value::Int(IntValue::Constant((a + b) as i64)) }),
        ),
{
    assert(expr_wf_at(nodes, i));
    assert(value_of(nodes, l) == Ok::<Value, BuildError>(Value::Int(IntValue::Constant(a))));
    assert(value_of(nodes, r) == Ok::<Value, BuildError>(Value::Int(IntValue::Constant(b))));
}

/// Constant folding of subtraction, in the same way.
pub proof fn lemma_fold_sub_constants(nodes: Seq<Expr>, i: int, l: int, r: int, a: i64, b: i64)
    requires
        exprs_wf(nodes),
        0 <= i < nodes.len(),
        nodes[i] matches Expr::Binary { lhs_id, op: BinaryOp::Subtract, rhs_id } && lhs_id@ == l
            && rhs_id@ == r,
        nodes[l] == (Expr::Constant { value: Value::Int(IntValue::Constant(a)) }),
        nodes[r] == (Expr::Constant { value: Value::Int(IntValue::Constant(b)) }),
        i64::MIN <= a - b <= i64::MAX,
    ensures
        fold_step(nodes, i) == Ok::<FoldStep, BuildError>(
            FoldStep::Fresh(Expr::Constant { value: Value::Int(IntValue::Constant((a - b) as i64)) }),
        ),
{
    assert(expr_wf_at(nodes, i));
    assert(value_of(nodes, l) == Ok::<Value, BuildError>(Value::Int(IntValue::Constant(a))));
    assert(value_of(nodes, r) == Ok::<Value, BuildError>(Value::Int(IntValue::Constant(b))));
}

/// Constant folding of multiplication, in the same way.
pub proof fn lemma_fold_mul_constants(nodes: Seq<Expr>, i: int, l: int, r: int, a: i64, b: i64)
    requires
        exprs_wf(nodes),
        0 <= i < nodes.len(),
        nodes[i] matches Expr::Binary { lhs_id, op: BinaryOp::Multiply, rhs_id } && lhs_id@ == l
            && rhs_id@ == r,
        nodes[l] == (Expr::Constant { value: Value::Int(IntValue::Constant(a)) }),
        nodes[r] == (Expr::Constant { value: Value::Int(IntValue::Constant(b)) }),
        i64::MIN <= a * b <= i64::MAX,
    ensures
        fold_step(nodes, i) == Ok::<FoldStep, BuildError>(
            FoldStep::Fresh(Expr::Constant { value: Value::Int(IntValue::Constant((a * b) as i64)) }),
        ),
{
    assert(expr_wf_at(nodes, i));
    assert(value_of(nodes, l) == Ok::<Value, BuildError>(Value::Int(IntValue::Constant(a))));
    assert(value_of(nodes, r) == Ok::<Value, BuildError>(Value::Int(IntValue::Constant(b))));
}

/// Constant folding of the comparison family: comparing two constant
/// nodes folds to the constant boolean result of the comparison, by
/// generic constant evaluation and regardless of whether the two
/// operand identifiers are the same node.
pub proof fn lemma_fold_compare_constants(
    nodes: Seq<Expr>,
    i: int,
    l: int,
    r: int,
    a: i64,
    b: i64,
    op: BinaryOp,
)
    requires
        exprs_wf(nodes),
        0 <= i < nodes.len(),
        nodes[i] matches Expr::Binary { lhs_id, op: node_op, rhs_id } && node_op == op && lhs_id@
            == l && rhs_id@ == r,
        is_comparison_op(op),
        nodes[l] == (Expr::Constant { value: Value::Int(IntValue::Constant(a)) }),
        nodes[r] == (Expr::Constant { value: Value::Int(IntValue::Constant(b)) }),
    ensures
        fold_step(nodes, i) == Ok::<FoldStep, BuildError>(
            FoldStep::Fresh(
                Expr::Constant { value: Value::Bool(BoolValue::Constant(comparison_value(op, a, b))) },
            ),
        ),
{
    assert(expr_wf_at(nodes, i));
    assert(value_of(nodes, l) == Ok::<Value, BuildError>(Value::Int(IntValue::Constant(a))));
    assert(value_of(nodes, r) == Ok::<Value, BuildError>(Value::Int(IntValue::Constant(b))));
}

/// A node that is not a `Constant` as far as the rewrite rules are
/// concerned: a node whose abstract value is the unknowable integer
/// can never carry a constant, so the constant-operand tests of the
/// rewrite rules see `None`.
proof fn lemma_unknown_is_not_const(nodes: Seq<Expr>, e: int)
    requires
        exprs_wf(nodes),
        0 <= e < nodes.len(),
        value_of(nodes, e) == Ok::<Value, BuildError>(Value::Int(IntValue::Any)),
    ensures
        const_int_of(nodes, e) is None,
{
    if const_int_of(nodes, e) is Some {
        assert(value_of(nodes, e) == Ok::<Value, BuildError>(
            Value::Int(IntValue::Constant(const_int_of(nodes, e).unwrap())),
        ));
    }
}

/// Identity elimination for addition: `e + 0` folds to the identifier
/// `e` itself, with no new node, whenever `e` is an
/// unknown-integer-valued node.  (When `e` is itself constant-valued
/// the sum solidifies to a fresh `Constant` node instead.)
pub proof fn lemma_fold_add_zero(nodes: Seq<Expr>, i: int, e: int, z: int)
    requires
        exprs_wf(nodes),
        0 <= i < nodes.len(),
        nodes[i] matches Expr::Binary { lhs_id, op: BinaryOp::Add, rhs_id } && lhs_id@ == e
            && rhs_id@ == z,
        nodes[z] == (Expr::Constant { value: Value::Int(IntValue::Constant(0)) }),
        value_of(nodes, e) == Ok::<Value, BuildError>(Value::Int(IntValue::Any)),
    ensures
        fold_step(nodes, i) == Ok::<FoldStep, BuildError>(FoldStep::Reuse(e)),
{
    assert(expr_wf_at(nodes, i));
    assert(value_of(nodes, z) == Ok::<Value, BuildError>(Value::Int(IntValue::Constant(0))));
    lemma_unknown_is_not_const(nodes, e);
}

/// Identity elimination for subtraction: `e - 0` folds to `e` itself.
pub proof fn lemma_fold_sub_zero(nodes: Seq<Expr>, i: int, e: int, z: int)
    requires
        exprs_wf(nodes),
        0 <= i < nodes.len(),
        nodes[i] matches Expr::Binary { lhs_id, op: BinaryOp::Subtract, rhs_id } && lhs_id@ == e
            && rhs_id@ == z,
        nodes[z] == (Expr::Constant { value: Value::Int(IntValue::Constant(0)) }),
        value_of(nodes, e) == Ok::<Value, BuildError>(Value::Int(IntValue::Any)),
    ensures
        fold_step(nodes, i) == Ok::<FoldStep, BuildError>(FoldStep::Reuse(e)),
{
    assert(expr_wf_at(nodes, i));
    assert(value_of(nodes, z) == Ok::<Value, BuildError>(Value::Int(IntValue::Constant(0))));
    lemma_unknown_is_not_const(nodes, e);
}

/// Identity elimination for multiplication: `1 * e` folds to `e`
/// itself.
pub proof fn lemma_fold_one_times(nodes: Seq<Expr>, i: int, o: int, e: int)
    requires
        exprs_wf(nodes),
        0 <= i < nodes.len(),
        nodes[i] matches Expr::Binary { lhs_id, op: BinaryOp::Multiply, rhs_id } && lhs_id@ == o
            && rhs_id@ == e,
        nodes[o] == (Expr::Constant { value: Value::Int(IntValue::Constant(1)) }),
        value_of(nodes, e) == Ok::<Value, BuildError>(Value::Int(IntValue::Any)),
    ensures
        fold_step(nodes, i) == Ok::<FoldStep, BuildError>(FoldStep::Reuse(e)),
{
    assert(expr_wf_at(nodes, i));
    assert(value_of(nodes, o) == Ok::<Value, BuildError>(Value::Int(IntValue::Constant(1))));
}

/// Identity elimination for division: `e / 1` folds to `e` itself.
pub proof fn lemma_fold_div_one(nodes: Seq<Expr>, i: int, e: int, o: int)
    requires
        exprs_wf(nodes),
        0 <= i < nodes.len(),
        nodes[i] matches Expr::Binary { lhs_id, op: BinaryOp::Divide, rhs_id } && lhs_id@ == e
            && rhs_id@ == o,
        nodes[o] == (Expr::Constant { value: Value::Int(IntValue::Constant(1)) }),
        value_of(nodes, e) == Ok::<Value, BuildError>(Value::Int(IntValue::Any)),
    ensures
        fold_step(nodes, i) == Ok::<FoldStep, BuildError>(FoldStep::Reuse(e)),
{
    assert(expr_wf_at(nodes, i));
    assert(value_of(nodes, o) == Ok::<Value, BuildError>(Value::Int(IntValue::Constant(1))));
    lemma_unknown_is_not_const(nodes, e);
}

/// Self-comparison: a comparison whose two operand edges are the same
/// identifier folds to the constant truth value of that comparison on
/// equal operands, by node identity alone, whenever the shared
/// operand's abstract value is not a constant.
pub proof fn lemma_fold_self_comparison(nodes: Seq<Expr>, i: int, e: int, op: BinaryOp)
    requires
        exprs_wf(nodes),
        0 <= i < nodes.len(),
        nodes[i] matches Expr::Binary { lhs_id, op: node_op, rhs_id } && node_op == op && lhs_id@
            == e && rhs_id@ == e,
        is_comparison_op(op),
        value_of(nodes, e) matches Ok(v) && !v.is_concrete(),
    ensures
        fold_step(nodes, i) == Ok::<FoldStep, BuildError>(
            FoldStep::Fresh(
                Expr::Constant {
                    value: Value::Bool(BoolValue::Constant(comparison_identity_value(op))),
                },
            ),
        ),
{
    assert(expr_wf_at(nodes, i));
}

/// Boundary law: dividing the constant zero by an unknown-valued node
/// folds to the identifier of that very zero node.
pub proof fn lemma_fold_zero_div(nodes: Seq<Expr>, i: int, z: int, e: int)
    requires
        exprs_wf(nodes),
        0 <= i < nodes.len(),
        nodes[i] matches Expr::Binary { lhs_id, op: BinaryOp::Divide, rhs_id } && lhs_id@ == z
            && rhs_id@ == e,
        nodes[z] == (Expr::Constant { value: Value::Int(IntValue::Constant(0)) }),
        value_of(nodes, e) == Ok::<Value, BuildError>(Value::Int(IntValue::Any)),
    ensures
        fold_step(nodes, i) == Ok::<FoldStep, BuildError>(FoldStep::Reuse(z)),
{
    assert(expr_wf_at(nodes, i));
    assert(value_of(nodes, z) == Ok::<Value, BuildError>(Value::Int(IntValue::Constant(0))));
}

/// Boundary law: `e % 1` folds to a fresh constant-zero node.
pub proof fn lemma_fold_mod_one(nodes: Seq<Expr>, i: int, e: int, o: int)
    requires
        exprs_wf(nodes),
        0 <= i < nodes.len(),
        nodes[i] matches Expr::Binary { lhs_id, op: BinaryOp::Modulo, rhs_id } && lhs_id@ == e
            && rhs_id@ == o,
        nodes[o] == (Expr::Constant { value: Value::Int(IntValue::Constant(1)) }),
        value_of(nodes, e) == Ok::<Value, BuildError>(Value::Int(IntValue::Any)),
    ensures
        fold_step(nodes, i) == Ok::<FoldStep, BuildError>(
            FoldStep::Fresh(Expr::Constant { value: Value::Int(IntValue::Constant(0)) }),
        ),
{
    assert(expr_wf_at(nodes, i));
    assert(value_of(nodes, o) == Ok::<Value, BuildError>(Value::Int(IntValue::Constant(1))));
    lemma_unknown_is_not_const(nodes, e);
}

} // verus!
