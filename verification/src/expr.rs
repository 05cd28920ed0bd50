//! The value-producing half of the graph, its abstract evaluator and
//! the peephole optimizer.
//!
//! Every expression node is folded as it is built: the abstract value
//! of the node is computed over the lattice, a node whose value is an
//! exact constant is replaced by a `Constant` node, and otherwise the
//! operator-specific local rewrites run.  Identifiers handed back to
//! callers always refer to the final, already-folded node.
//!
//! Folding policy for partial operations, stated once and used
//! throughout: a constant division or modulo by a constant zero is the
//! reportable error `DivisionByZero`; a constant operation whose exact
//! result does not fit in 64 bits (overflow on add, subtract, multiply,
//! negate, or divide of the minimum value by minus one) folds to the
//! unknowable value `Any` instead of a constant; a constant shift by an
//! amount outside `0..64` likewise folds to `Any`.

use vstd::prelude::*;

use crate::arena::{lemma_id_is_spec_id, spec_id, Arena, Id};
use crate::binaryop::{is_comparison_op, is_int_rewrite_op, BinaryOp};
use crate::ctrl::Ctrl;
use crate::errors::{BuildError, OperandKind};
use crate::unaryop::UnaryOp;
use crate::value::{BoolValue, IntValue, Value};

verus! {

broadcast use crate::arena::lemma_id_view_nonneg;

/// A value-producing node.
///
/// Operand edges are identifiers into the same arena; a `Phi`
/// additionally names the control node at whose merge point it joins
/// its operands.
#[derive(Debug, Clone)]
pub enum Expr {
    /// The join of the values flowing from several control predecessors
    /// into one merge point.
    Phi { ctrl: Id<Ctrl>, expr_ids: Vec<Id<Expr>> },
    /// An exact constant; the carried value is never `All` or `Any`.
    Constant { value: Value },
    Binary { lhs_id: Id<Expr>, op: BinaryOp, rhs_id: Id<Expr> },
    Unary { op: UnaryOp, expr_id: Id<Expr> },
}

/// Well-formedness of one slot: every operand edge points strictly
/// below the node, and a `Constant` carries an exact constant.
pub open spec fn expr_wf_at(nodes: Seq<Expr>, i: int) -> bool {
    match nodes[i] {
        Expr::Phi { expr_ids, .. } => forall|k: int|
            0 <= k < expr_ids@.len() ==> 0 <= (#[trigger] expr_ids@[k])@ < i,
        Expr::Constant { value } => value.is_concrete(),
        Expr::Binary { lhs_id, rhs_id, .. } => 0 <= lhs_id@ < i && 0 <= rhs_id@ < i,
        Expr::Unary { expr_id, .. } => 0 <= expr_id@ < i,
    }
}

/// Well-formedness of the whole expression arena.  It holds throughout
/// construction: nodes are appended after their operands, and no edge
/// is ever redirected.
pub open spec fn exprs_wf(nodes: Seq<Expr>) -> bool {
    forall|i: int| 0 <= i < nodes.len() ==> #[trigger] expr_wf_at(nodes, i)
}

/// A constant integer result, or `Any` when the exact result does not
/// fit in 64 bits.
pub open spec fn int_result(o: Option<i64>) -> Value {
    match o {
        Some(c) => Value::Int(IntValue::Constant(c)),
        None => Value::Int(IntValue::Any),
    }
}

/// The concrete evaluation of a binary operator on two constant
/// integers.  The short-circuit logical operators are undefined on
/// integers.
pub open spec fn eval_int_binary(op: BinaryOp, a: i64, b: i64) -> Result<Value, BuildError> {
    match op {
        BinaryOp::Add => Ok(int_result(a.checked_add(b))),
        BinaryOp::Subtract => Ok(int_result(a.checked_sub(b))),
        BinaryOp::Multiply => Ok(int_result(a.checked_mul(b))),
        BinaryOp::Divide => if b == 0 {
            Err(BuildError::DivisionByZero)
        } else {
            Ok(int_result(a.checked_div(b)))
        },
        BinaryOp::Modulo => if b == 0 {
            Err(BuildError::DivisionByZero)
        } else {
            Ok(int_result(a.checked_rem(b)))
        },
        BinaryOp::And => Ok(Value::Int(IntValue::Constant(a & b))),
        BinaryOp::Or => Ok(Value::Int(IntValue::Constant(a | b))),
        BinaryOp::Xor => Ok(Value::Int(IntValue::Constant(a ^ b))),
        BinaryOp::ShiftLeft => if 0 <= b && b < 64 {
            Ok(Value::Int(IntValue::Constant(((a as u64) << (b as u64)) as i64)))
        } else {
            Ok(Value::Int(IntValue::Any))
        },
        BinaryOp::ShiftRight => if 0 <= b && b < 64 {
            Ok(Value::Int(IntValue::Constant(a >> (b as u64))))
        } else {
            Ok(Value::Int(IntValue::Any))
        },
        BinaryOp::Equal => Ok(Value::Bool(BoolValue::Constant(a == b))),
        BinaryOp::NotEqual => Ok(Value::Bool(BoolValue::Constant(a != b))),
        BinaryOp::LessThan => Ok(Value::Bool(BoolValue::Constant(a < b))),
        BinaryOp::GreaterThan => Ok(Value::Bool(BoolValue::Constant(a > b))),
        BinaryOp::LessThanOrEqual => Ok(Value::Bool(BoolValue::Constant(a <= b))),
        BinaryOp::GreaterThanOrEqual => Ok(Value::Bool(BoolValue::Constant(a >= b))),
        BinaryOp::LogicalAnd => Err(BuildError::OperatorTypeMismatch {
            op,
            lhs: OperandKind::Int,
            rhs: OperandKind::Int,
        }),
        BinaryOp::LogicalOr => Err(BuildError::OperatorTypeMismatch {
            op,
            lhs: OperandKind::Int,
            rhs: OperandKind::Int,
        }),
    }
}

/// The concrete evaluation of a binary operator on two constant
/// booleans.  Only the short-circuit logical operators are defined.
pub open spec fn eval_bool_binary(op: BinaryOp, a: bool, b: bool) -> Result<Value, BuildError> {
    match op {
        BinaryOp::LogicalAnd => Ok(Value::Bool(BoolValue::Constant(a && b))),
        BinaryOp::LogicalOr => Ok(Value::Bool(BoolValue::Constant(a || b))),
        _ => Err(BuildError::OperatorTypeMismatch {
            op,
            lhs: OperandKind::Bool,
            rhs: OperandKind::Bool,
        }),
    }
}

/// The abstract value of a binary node: concrete evaluation when both
/// operands are constants of one type, else the lattice join, which
/// reports mixing integers with booleans.
pub open spec fn eval_binary(op: BinaryOp, va: Value, vb: Value) -> Result<Value, BuildError> {
    match (va, vb) {
        (Value::Int(IntValue::Constant(a)), Value::Int(IntValue::Constant(b))) => eval_int_binary(
            op,
            a,
            b,
        ),
        (Value::Bool(BoolValue::Constant(a)), Value::Bool(BoolValue::Constant(b))) => eval_bool_binary(
            op,
            a,
            b,
        ),
        _ => va.spec_join(vb),
    }
}

/// The abstract value of a unary node: concrete evaluation on a
/// constant operand, the operand's own value otherwise.  Negating a
/// boolean is a type error.
pub open spec fn eval_unary(op: UnaryOp, v: Value) -> Result<Value, BuildError> {
    match v {
        Value::Int(IntValue::Constant(a)) => match op {
            UnaryOp::Negate => if a == i64::MIN {
                Ok(Value::Int(IntValue::Any))
            } else {
                Ok(Value::Int(IntValue::Constant((-a) as i64)))
            },
            UnaryOp::Not => Ok(Value::Int(IntValue::Constant(a ^ -1i64))),
        },
        Value::Bool(BoolValue::Constant(a)) => match op {
            UnaryOp::Not => Ok(Value::Bool(BoolValue::Constant(!a))),
            UnaryOp::Negate => Err(BuildError::UnaryTypeMismatch {
                op,
                operand: OperandKind::Bool,
            }),
        },
        _ => Ok(v),
    }
}

/// The abstract value of the node at `i`, by structural evaluation:
/// a `Constant` is its own value, a `Phi` is the lattice join of its
/// operand values starting from `All`, and operator nodes evaluate as
/// [`eval_binary`] and [`eval_unary`] say.
pub open spec fn value_of(nodes: Seq<Expr>, i: int) -> Result<Value, BuildError>
    decreases i, 1int, 0int,
        when exprs_wf(nodes) && 0 <= i < nodes.len()
{
    match nodes[i] {
        Expr::Constant { value } => Ok(value),
        Expr::Phi { expr_ids, .. } => {
            proof {
                assert(expr_wf_at(nodes, i));
            }
            phi_value(nodes, i, expr_ids@, 0, Value::All)
        },
        Expr::Binary { lhs_id, op, rhs_id } => {
            proof {
                assert(expr_wf_at(nodes, i));
            }
            match (value_of(nodes, lhs_id@), value_of(nodes, rhs_id@)) {
                (Ok(va), Ok(vb)) => eval_binary(op, va, vb),
                (Err(e), _) => Err(e),
                (_, Err(e)) => Err(e),
            }
        },
        Expr::Unary { op, expr_id } => {
            proof {
                assert(expr_wf_at(nodes, i));
            }
            match value_of(nodes, expr_id@) {
                Ok(v) => eval_unary(op, v),
                Err(e) => Err(e),
            }
        },
    }
}

/// The running join of the operand values of the `Phi` at `i`, from
/// operand `j` on, starting at `acc`.
pub open spec fn phi_value(
    nodes: Seq<Expr>,
    i: int,
    ids: Seq<Id<Expr>>,
    j: int,
    acc: Value,
) -> Result<Value, BuildError>
    decreases i, 0int, ids.len() - j,
        when exprs_wf(nodes) && 0 <= i < nodes.len() && 0 <= j <= ids.len() && (forall|k: int|
            j <= k < ids.len() ==> 0 <= (#[trigger] ids[k])@ < i)
{
    if j == ids.len() {
        Ok(acc)
    } else {
        proof {
            assert(0 <= ids[j]@ < i);
        }
        match value_of(nodes, ids[j]@) {
            Err(e) => Err(e),
            Ok(v) => match acc.spec_join(v) {
                Err(e) => Err(e),
                Ok(acc2) => phi_value(nodes, i, ids, j + 1, acc2),
            },
        }
    }
}

/// The constant integer carried by the node at `i`, when it is such a
/// `Constant`.
pub open spec fn const_int_of(nodes: Seq<Expr>, i: int) -> Option<i64> {
    match nodes[i] {
        Expr::Constant { value: Value::Int(IntValue::Constant(c)) } => Some(c),
        _ => None,
    }
}

/// The constant boolean carried by the node at `i`, when it is such a
/// `Constant`.
pub open spec fn const_bool_of(nodes: Seq<Expr>, i: int) -> Option<bool> {
    match nodes[i] {
        Expr::Constant { value: Value::Bool(BoolValue::Constant(c)) } => Some(c),
        _ => None,
    }
}

/// What one folding step does: hand back an existing identifier, or
/// append one fresh node and hand back its identifier.
pub enum FoldStep {
    Reuse(int),
    Fresh(Expr),
}

/// The constant-boolean value of a comparison whose two operand
/// identifiers are the same node.
pub open spec fn comparison_identity_value(op: BinaryOp) -> bool {
    match op {
        BinaryOp::Equal => true,
        BinaryOp::NotEqual => false,
        BinaryOp::LessThan => false,
        BinaryOp::GreaterThan => false,
        BinaryOp::LessThanOrEqual => true,
        BinaryOp::GreaterThanOrEqual => true,
        _ => false,
    }
}

/// The operator-specific local rewrites of a binary node whose
/// abstract value `v` is not a constant, or `None` when no rule
/// applies.
///
/// The arithmetic rules fire on integer-valued nodes, the
/// short-circuit rules on boolean-valued nodes, and the identity
/// comparisons whenever the two operand identifiers are the same node;
/// that identity check is by node identity only, never by structural
/// equality of two different nodes.
pub open spec fn rewrite_binary(
    nodes: Seq<Expr>,
    v: Value,
    l: int,
    op: BinaryOp,
    r: int,
) -> Option<FoldStep> {
    if is_int_rewrite_op(op) && v is Int {
        match op {
            BinaryOp::Add => if const_int_of(nodes, l) == Some(0i64) {
                Some(FoldStep::Reuse(r))
            } else if const_int_of(nodes, l) is Some {
                Some(
                    FoldStep::Fresh(
                        Expr::Binary {
                            lhs_id: spec_id(r),
                            op: BinaryOp::Add,
                            rhs_id: spec_id(l),
                        },
                    ),
                )
            } else if const_int_of(nodes, r) == Some(0i64) {
                Some(FoldStep::Reuse(l))
            } else {
                None
            },
            BinaryOp::Subtract => if const_int_of(nodes, l) == Some(0i64) {
                Some(FoldStep::Fresh(Expr::Unary { op: UnaryOp::Negate, expr_id: spec_id(r) }))
            } else if const_int_of(nodes, r) == Some(0i64) {
                Some(FoldStep::Reuse(l))
            } else if l == r {
                Some(FoldStep::Fresh(Expr::Constant { value: Value::Int(IntValue::Constant(0)) }))
            } else {
                None
            },
            BinaryOp::Multiply => match const_int_of(nodes, l) {
                Some(c) => if c == 0 {
                    Some(
                        FoldStep::Fresh(Expr::Constant { value: Value::Int(IntValue::Constant(0)) }),
                    )
                } else if c == 1 {
                    Some(FoldStep::Reuse(r))
                } else if c == -1 {
                    Some(FoldStep::Fresh(Expr::Unary { op: UnaryOp::Negate, expr_id: spec_id(r) }))
                } else {
                    Some(
                        FoldStep::Fresh(
                            Expr::Binary {
                                lhs_id: spec_id(r),
                                op: BinaryOp::Multiply,
                                rhs_id: spec_id(l),
                            },
                        ),
                    )
                },
                None => None,
            },
            BinaryOp::Divide => if const_int_of(nodes, l) == Some(0i64) {
                Some(FoldStep::Reuse(l))
            } else if const_int_of(nodes, r) == Some(1i64) {
                Some(FoldStep::Reuse(l))
            } else {
                None
            },
            BinaryOp::Modulo => if const_int_of(nodes, l) == Some(0i64) {
                Some(FoldStep::Reuse(l))
            } else if const_int_of(nodes, r) == Some(1i64) {
                Some(FoldStep::Fresh(Expr::Constant { value: Value::Int(IntValue::Constant(0)) }))
            } else {
                None
            },
            _ => None,
        }
    } else if (op == BinaryOp::LogicalAnd || op == BinaryOp::LogicalOr) && v is Bool {
        match op {
            BinaryOp::LogicalAnd => if const_bool_of(nodes, l) == Some(false) {
                Some(FoldStep::Reuse(l))
            } else if const_bool_of(nodes, r) == Some(false) {
                Some(FoldStep::Reuse(r))
            } else {
                None
            },
            BinaryOp::LogicalOr => if const_bool_of(nodes, l) == Some(true) {
                Some(FoldStep::Reuse(l))
            } else if const_bool_of(nodes, r) == Some(true) {
                Some(FoldStep::Reuse(r))
            } else {
                None
            },
            _ => None,
        }
    } else if is_comparison_op(op) && l == r {
        Some(
            FoldStep::Fresh(
                Expr::Constant {
                    value: Value::Bool(BoolValue::Constant(comparison_identity_value(op))),
                },
            ),
        )
    } else {
        None
    }
}

/// The double-negation rewrite of a unary node: applying the same
/// unary operator twice hands back the innermost operand.
pub open spec fn rewrite_unary(nodes: Seq<Expr>, op: UnaryOp, e: int) -> Option<FoldStep> {
    match nodes[e] {
        Expr::Unary { op: inner, expr_id } => if inner == op {
            Some(FoldStep::Reuse(expr_id@))
        } else {
            None
        },
        _ => None,
    }
}

/// What building a folded binary node over operands `l` and `r` does:
/// evaluate; solidify a constant; else rewrite; else append the raw
/// binary node.
pub open spec fn fold_binary(nodes: Seq<Expr>, l: int, op: BinaryOp, r: int) -> Result<
    FoldStep,
    BuildError,
> {
    match (value_of(nodes, l), value_of(nodes, r)) {
        (Ok(va), Ok(vb)) => match eval_binary(op, va, vb) {
            Err(e) => Err(e),
            Ok(v) => if v.is_concrete() {
                Ok(FoldStep::Fresh(Expr::Constant { value: v }))
            } else {
                match rewrite_binary(nodes, v, l, op, r) {
                    Some(step) => Ok(step),
                    None => Ok(
                        FoldStep::Fresh(
                            Expr::Binary { lhs_id: spec_id(l), op, rhs_id: spec_id(r) },
                        ),
                    ),
                }
            },
        },
        (Err(e), _) => Err(e),
        (_, Err(e)) => Err(e),
    }
}

/// What building a folded unary node over operand `e` does.
pub open spec fn fold_unary(nodes: Seq<Expr>, op: UnaryOp, e: int) -> Result<
    FoldStep,
    BuildError,
> {
    match value_of(nodes, e) {
        Err(e0) => Err(e0),
        Ok(v0) => match eval_unary(op, v0) {
            Err(e1) => Err(e1),
            Ok(v) => if v.is_concrete() {
                Ok(FoldStep::Fresh(Expr::Constant { value: v }))
            } else {
                match rewrite_unary(nodes, op, e) {
                    Some(step) => Ok(step),
                    None => Ok(FoldStep::Fresh(Expr::Unary { op, expr_id: spec_id(e) })),
                }
            },
        },
    }
}

/// What the peephole optimizer does to the already-allocated node at
/// `i`: solidify a constant-valued node into a `Constant`, else apply
/// the local rewrites, else keep the node.
pub open spec fn fold_step(nodes: Seq<Expr>, i: int) -> Result<FoldStep, BuildError> {
    match value_of(nodes, i) {
        Err(e) => Err(e),
        Ok(v) => if v.is_concrete() {
            if nodes[i] is Constant {
                Ok(FoldStep::Reuse(i))
            } else {
                Ok(FoldStep::Fresh(Expr::Constant { value: v }))
            }
        } else {
            match nodes[i] {
                Expr::Binary { lhs_id, op, rhs_id } => match rewrite_binary(
                    nodes,
                    v,
                    lhs_id@,
                    op,
                    rhs_id@,
                ) {
                    Some(step) => Ok(step),
                    None => Ok(FoldStep::Reuse(i)),
                },
                Expr::Unary { op, expr_id } => match rewrite_unary(nodes, op, expr_id@) {
                    Some(step) => Ok(step),
                    None => Ok(FoldStep::Reuse(i)),
                },
                _ => Ok(FoldStep::Reuse(i)),
            }
        },
    }
}

/// A node's abstract value only depends on the slots at and below it,
/// so appending nodes never changes it.
pub proof fn lemma_value_of_grow(nodes1: Seq<Expr>, nodes2: Seq<Expr>, i: int)
    requires
        exprs_wf(nodes1),
        exprs_wf(nodes2),
        nodes1.len() <= nodes2.len(),
        forall|k: int| 0 <= k < nodes1.len() ==> nodes2[k] == nodes1[k],
        0 <= i < nodes1.len(),
    ensures
        value_of(nodes2, i) == value_of(nodes1, i),
    decreases i, 1int, 0int,
{
    assert(nodes2[i] == nodes1[i]);
    assert(expr_wf_at(nodes1, i));
    assert(expr_wf_at(nodes2, i));
    match nodes1[i] {
        Expr::Constant { .. } => {},
        Expr::Phi { expr_ids, .. } => {
            lemma_phi_value_grow(nodes1, nodes2, i, expr_ids@, 0, Value::All);
        },
        Expr::Binary { lhs_id, rhs_id, .. } => {
            lemma_value_of_grow(nodes1, nodes2, lhs_id@);
            lemma_value_of_grow(nodes1, nodes2, rhs_id@);
        },
        Expr::Unary { expr_id, .. } => {
            lemma_value_of_grow(nodes1, nodes2, expr_id@);
        },
    }
}

proof fn lemma_phi_value_grow(
    nodes1: Seq<Expr>,
    nodes2: Seq<Expr>,
    i: int,
    ids: Seq<Id<Expr>>,
    j: int,
    acc: Value,
)
    requires
        exprs_wf(nodes1),
        exprs_wf(nodes2),
        nodes1.len() <= nodes2.len(),
        forall|k: int| 0 <= k < nodes1.len() ==> nodes2[k] == nodes1[k],
        0 <= i < nodes1.len(),
        0 <= j <= ids.len(),
        forall|k: int| j <= k < ids.len() ==> 0 <= (#[trigger] ids[k])@ < i,
    ensures
        phi_value(nodes2, i, ids, j, acc) == phi_value(nodes1, i, ids, j, acc),
    decreases i, 0int, ids.len() - j,
{
    if j == ids.len() {
    } else {
        assert(0 <= ids[j]@ < i);
        lemma_value_of_grow(nodes1, nodes2, ids[j]@);
        match value_of(nodes1, ids[j]@) {
            Err(_) => {},
            Ok(v) => match acc.spec_join(v) {
                Err(_) => {},
                Ok(acc2) => {
                    lemma_phi_value_grow(nodes1, nodes2, i, ids, j + 1, acc2);
                },
            },
        }
    }
}

/// The abstract evaluator only ever fails with an evaluation error:
/// a type mismatch, a lattice mismatch, or constant division by zero.
pub proof fn lemma_value_of_error_kind(nodes: Seq<Expr>, i: int)
    requires
        exprs_wf(nodes),
        0 <= i < nodes.len(),
    ensures
        value_of(nodes, i) matches Err(e) ==> crate::errors::eval_error(e),
    decreases i, 1int, 0int,
{
    assert(expr_wf_at(nodes, i));
    match nodes[i] {
        Expr::Constant { .. } => {},
        Expr::Phi { expr_ids, .. } => {
            lemma_phi_value_error_kind(nodes, i, expr_ids@, 0, Value::All);
        },
        Expr::Binary { lhs_id, rhs_id, .. } => {
            lemma_value_of_error_kind(nodes, lhs_id@);
            lemma_value_of_error_kind(nodes, rhs_id@);
        },
        Expr::Unary { expr_id, .. } => {
            lemma_value_of_error_kind(nodes, expr_id@);
        },
    }
}

proof fn lemma_phi_value_error_kind(
    nodes: Seq<Expr>,
    i: int,
    ids: Seq<Id<Expr>>,
    j: int,
    acc: Value,
)
    requires
        exprs_wf(nodes),
        0 <= i < nodes.len(),
        0 <= j <= ids.len(),
        forall|k: int| j <= k < ids.len() ==> 0 <= (#[trigger] ids[k])@ < i,
    ensures
        phi_value(nodes, i, ids, j, acc) matches Err(e) ==> crate::errors::eval_error(e),
    decreases i, 0int, ids.len() - j,
{
    if j == ids.len() {
    } else {
        assert(0 <= ids[j]@ < i);
        lemma_value_of_error_kind(nodes, ids[j]@);
        match value_of(nodes, ids[j]@) {
            Err(_) => {},
            Ok(v) => match acc.spec_join(v) {
                Err(_) => {},
                Ok(acc2) => {
                    lemma_phi_value_error_kind(nodes, i, ids, j + 1, acc2);
                },
            },
        }
    }
}

/// Concrete binary evaluation only ever fails with an evaluation
/// error.
pub proof fn lemma_eval_binary_error_kind(op: BinaryOp, va: Value, vb: Value)
    ensures
        eval_binary(op, va, vb) matches Err(e) ==> crate::errors::eval_error(e),
{
}

/// Concrete unary evaluation only ever fails with an evaluation
/// error.
pub proof fn lemma_eval_unary_error_kind(op: UnaryOp, v: Value)
    ensures
        eval_unary(op, v) matches Err(e) ==> crate::errors::eval_error(e),
{
}

/// Why joining the two bindings `t` and `e` of one name fails, if it
/// does: one of them has no value, or their values mix integer with
/// boolean.
pub open spec fn phi_join_error(nodes: Seq<Expr>, t: int, e: int) -> Option<BuildError> {
    match value_of(nodes, t) {
        Err(er) => Some(er),
        Ok(vt) => match value_of(nodes, e) {
            Err(er) => Some(er),
            Ok(ve) => match vt.spec_join(ve) {
                Err(er) => Some(er),
                Ok(_) => None,
            },
        },
    }
}

/// When folding a two-operand `Phi` over `t` and `e` fails, the
/// failure is exactly the pair's join error over the base arena the
/// operands live in.
pub proof fn lemma_phi_fold_error(
    base: Seq<Expr>,
    nodes: Seq<Expr>,
    pid: int,
    t: int,
    e: int,
    err: BuildError,
)
    requires
        exprs_wf(base),
        exprs_wf(nodes),
        base.len() <= nodes.len(),
        forall|k: int| 0 <= k < base.len() ==> nodes[k] == base[k],
        0 <= pid < nodes.len(),
        nodes[pid] matches Expr::Phi { expr_ids, .. } && expr_ids@.len() == 2 && expr_ids@[0]@
            == t && expr_ids@[1]@ == e,
        0 <= t < base.len(),
        0 <= e < base.len(),
        value_of(nodes, pid) == Err::<Value, BuildError>(err),
    ensures
        phi_join_error(base, t, e) == Some(err),
{
    assert(expr_wf_at(nodes, pid));
    lemma_value_of_grow(base, nodes, t);
    lemma_value_of_grow(base, nodes, e);
    let ids = (match nodes[pid] {
        Expr::Phi { expr_ids, .. } => expr_ids@,
        _ => Seq::empty(),
    });
    assert(ids.len() == 2 && ids[0]@ == t && ids[1]@ == e);
    assert(0 <= ids[0]@ < pid && 0 <= ids[1]@ < pid);
    assert(value_of(nodes, pid) == phi_value(nodes, pid, ids, 0, Value::All));
    match value_of(nodes, t) {
        Err(er) => {
            assert(phi_value(nodes, pid, ids, 0, Value::All) == Err::<Value, BuildError>(er));
        },
        Ok(vt) => {
            assert(Value::All.spec_join(vt) == Ok::<Value, BuildError>(vt));
            assert(phi_value(nodes, pid, ids, 0, Value::All) == phi_value(
                nodes,
                pid,
                ids,
                1,
                vt,
            ));
            match value_of(nodes, e) {
                Err(er) => {
                    assert(phi_value(nodes, pid, ids, 1, vt) == Err::<Value, BuildError>(er));
                },
                Ok(ve) => {
                    match vt.spec_join(ve) {
                        Err(er) => {
                            assert(phi_value(nodes, pid, ids, 1, vt) == Err::<
                                Value,
                                BuildError,
                            >(er));
                        },
                        Ok(acc2) => {
                            assert(phi_value(nodes, pid, ids, 2, acc2) == Ok::<
                                Value,
                                BuildError,
                            >(acc2));
                            assert(phi_value(nodes, pid, ids, 1, vt) == Ok::<
                                Value,
                                BuildError,
                            >(acc2));
                        },
                    }
                },
            }
        },
    }
}

/// The shape of a reconciled binding: either a `Phi` whose two
/// operands are exactly the two arms' bindings, or the constant their
/// values agree on after folding.
pub open spec fn merged_binding_ok(nodes: Seq<Expr>, b: int, t: int, e: int) -> bool {
    0 <= b < nodes.len() && match nodes[b] {
        Expr::Phi { expr_ids, .. } => expr_ids@.len() == 2 && expr_ids@[0]@ == t && expr_ids@[1]@
            == e,
        Expr::Constant { value } => value.is_concrete(),
        _ => false,
    }
}

/// A reconciled binding keeps its shape while the arena grows.
pub proof fn lemma_merged_binding_ok_grow(
    nodes1: Seq<Expr>,
    nodes2: Seq<Expr>,
    b: int,
    t: int,
    e: int,
)
    requires
        merged_binding_ok(nodes1, b, t, e),
        nodes1.len() <= nodes2.len(),
        forall|k: int| 0 <= k < nodes1.len() ==> nodes2[k] == nodes1[k],
    ensures
        merged_binding_ok(nodes2, b, t, e),
{
    assert(nodes2[b] == nodes1[b]);
}

/// Appending a node whose own slot is well-formed keeps the arena
/// well-formed.
pub proof fn lemma_exprs_wf_push(nodes: Seq<Expr>, e: Expr)
    requires
        exprs_wf(nodes),
        expr_wf_at(nodes.push(e), nodes.len() as int),
    ensures
        exprs_wf(nodes.push(e)),
{
    let grown = nodes.push(e);
    assert forall|i: int| 0 <= i < grown.len() implies expr_wf_at(grown, i) by {
        if i < nodes.len() {
            assert(grown[i] == nodes[i]);
            assert(expr_wf_at(nodes, i));
        }
    }
}

fn eval_int_binary_exec(op: BinaryOp, a: i64, b: i64) -> (r: Result<Value, BuildError>)
    ensures
        r == eval_int_binary(op, a, b),
{
    match op {
        BinaryOp::Add => match a.checked_add(b) {
            Some(c) => Ok(Value::Int(IntValue::Constant(c))),
            None => Ok(Value::Int(IntValue::Any)),
        },
        BinaryOp::Subtract => match a.checked_sub(b) {
            Some(c) => Ok(Value::Int(IntValue::Constant(c))),
            None => Ok(Value::Int(IntValue::Any)),
        },
        BinaryOp::Multiply => match a.checked_mul(b) {
            Some(c) => Ok(Value::Int(IntValue::Constant(c))),
            None => Ok(Value::Int(IntValue::Any)),
        },
        BinaryOp::Divide => if b == 0 {
            Err(BuildError::DivisionByZero)
        } else {
            match a.checked_div(b) {
                Some(c) => Ok(Value::Int(IntValue::Constant(c))),
                None => Ok(Value::Int(IntValue::Any)),
            }
        },
        BinaryOp::Modulo => if b == 0 {
            Err(BuildError::DivisionByZero)
        } else {
            match a.checked_rem(b) {
                Some(c) => Ok(Value::Int(IntValue::Constant(c))),
                None => Ok(Value::Int(IntValue::Any)),
            }
        },
        BinaryOp::And => Ok(Value::Int(IntValue::Constant(a & b))),
        BinaryOp::Or => Ok(Value::Int(IntValue::Constant(a | b))),
        BinaryOp::Xor => Ok(Value::Int(IntValue::Constant(a ^ b))),
        BinaryOp::ShiftLeft => if 0 <= b && b < 64 {
            Ok(Value::Int(IntValue::Constant(((a as u64) << (b as u64)) as i64)))
        } else {
            Ok(Value::Int(IntValue::Any))
        },
        BinaryOp::ShiftRight => if 0 <= b && b < 64 {
            Ok(Value::Int(IntValue::Constant(a >> (b as u64))))
        } else {
            Ok(Value::Int(IntValue::Any))
        },
        BinaryOp::Equal => Ok(Value::Bool(BoolValue::Constant(a == b))),
        BinaryOp::NotEqual => Ok(Value::Bool(BoolValue::Constant(a != b))),
        BinaryOp::LessThan => Ok(Value::Bool(BoolValue::Constant(a < b))),
        BinaryOp::GreaterThan => Ok(Value::Bool(BoolValue::Constant(a > b))),
        BinaryOp::LessThanOrEqual => Ok(Value::Bool(BoolValue::Constant(a <= b))),
        BinaryOp::GreaterThanOrEqual => Ok(Value::Bool(BoolValue::Constant(a >= b))),
        BinaryOp::LogicalAnd => Err(BuildError::OperatorTypeMismatch {
            op,
            lhs: OperandKind::Int,
            rhs: OperandKind::Int,
        }),
        BinaryOp::LogicalOr => Err(BuildError::OperatorTypeMismatch {
            op,
            lhs: OperandKind::Int,
            rhs: OperandKind::Int,
        }),
    }
}

fn eval_binary_exec(op: BinaryOp, va: Value, vb: Value) -> (r: Result<Value, BuildError>)
    ensures
        r == eval_binary(op, va, vb),
{
    match (va, vb) {
        (Value::Int(IntValue::Constant(a)), Value::Int(IntValue::Constant(b))) => {
            eval_int_binary_exec(op, a, b)
        },
        (Value::Bool(BoolValue::Constant(a)), Value::Bool(BoolValue::Constant(b))) => {
            match op {
                BinaryOp::LogicalAnd => Ok(Value::Bool(BoolValue::Constant(a && b))),
                BinaryOp::LogicalOr => Ok(Value::Bool(BoolValue::Constant(a || b))),
                _ => Err(BuildError::OperatorTypeMismatch {
                    op,
                    lhs: OperandKind::Bool,
                    rhs: OperandKind::Bool,
                }),
            }
        },
        _ => va.join(&vb),
    }
}

fn eval_unary_exec(op: UnaryOp, v: Value) -> (r: Result<Value, BuildError>)
    ensures
        r == eval_unary(op, v),
{
    match v {
        Value::Int(IntValue::Constant(a)) => match op {
            UnaryOp::Negate => if a == i64::MIN {
                Ok(Value::Int(IntValue::Any))
            } else {
                Ok(Value::Int(IntValue::Constant(-a)))
            },
            UnaryOp::Not => Ok(Value::Int(IntValue::Constant(a ^ -1i64))),
        },
        Value::Bool(BoolValue::Constant(a)) => match op {
            UnaryOp::Not => Ok(Value::Bool(BoolValue::Constant(!a))),
            UnaryOp::Negate => Err(BuildError::UnaryTypeMismatch {
                op,
                operand: OperandKind::Bool,
            }),
        },
        _ => Ok(v),
    }
}

impl Arena<Expr> {
    /// Appends a node after checking that its own slot is well-formed.
    fn allocate_expr(&mut self, e: Expr) -> (id: Id<Expr>)
        requires
            exprs_wf(old(self)@),
            expr_wf_at(old(self)@.push(e), old(self)@.len() as int),
        ensures
            final(self)@ == old(self)@.push(e),
            id@ == old(self)@.len(),
            exprs_wf(final(self)@),
    {
        proof {
            lemma_exprs_wf_push(self@, e);
        }
        self.allocate(e)
    }

    /// The constant integer carried by the node at `i`, when it is such
    /// a `Constant`.
    fn const_int_at(&self, i: Id<Expr>) -> (r: Option<i64>)
        requires
            i@ < self@.len(),
        ensures
            r == const_int_of(self@, i@),
    {
        match self.get(&i) {
            Expr::Constant { value: Value::Int(IntValue::Constant(c)) } => Some(*c),
            _ => None,
        }
    }

    /// The constant boolean carried by the node at `i`, when it is such
    /// a `Constant`.
    fn const_bool_at(&self, i: Id<Expr>) -> (r: Option<bool>)
        requires
            i@ < self@.len(),
        ensures
            r == const_bool_of(self@, i@),
    {
        match self.get(&i) {
            Expr::Constant { value: Value::Bool(BoolValue::Constant(c)) } => Some(*c),
            _ => None,
        }
    }

    /// Computes the abstract value of the node at `expr_id` by
    /// structural evaluation over the lattice.
    pub fn compute(&self, expr_id: Id<Expr>) -> (r: Result<Value, BuildError>)
        requires
            exprs_wf(self@),
            expr_id@ < self@.len(),
        ensures
            r == value_of(self@, expr_id@),
        decreases expr_id@,
    {
        proof {
            assert(expr_wf_at(self@, expr_id@));
        }
        let ghost i = expr_id@;
        match self.get(&expr_id) {
            Expr::Constant { value } => Ok(*value),
            Expr::Phi { expr_ids, .. } => {
                let ghost ids = expr_ids@;
                let n = expr_ids.len();
                let mut value = Value::All;
                let mut j: usize = 0;
                while j < n
                    invariant
                        exprs_wf(self@),
                        0 <= i < self@.len(),
                        i == expr_id@,
                        self@[i] matches Expr::Phi { expr_ids: eids, .. } && eids@ == ids,
                        expr_ids@ == ids,
                        n == ids.len(),
                        0 <= j <= n,
                        phi_value(self@, i, ids, 0, Value::All) == phi_value(
                            self@,
                            i,
                            ids,
                            j as int,
                            value,
                        ),
                    decreases n - j,
                {
                    proof {
                        assert(expr_wf_at(self@, i));
                        assert(0 <= ids[j as int]@ < i);
                    }
                    let oid = expr_ids[j];
                    let vj = match self.compute(oid) {
                        Ok(v) => v,
                        Err(e) => {
                            proof {
                                assert(phi_value(self@, i, ids, j as int, value) == Err::<
                                    Value,
                                    BuildError,
                                >(e));
                            }
                            return Err(e);
                        },
                    };
                    let joined = match value.join(&vj) {
                        Ok(v) => v,
                        Err(e) => {
                            proof {
                                assert(phi_value(self@, i, ids, j as int, value) == Err::<
                                    Value,
                                    BuildError,
                                >(e));
                            }
                            return Err(e);
                        },
                    };
                    value = joined;
                    j = j + 1;
                }
                proof {
                    assert(phi_value(self@, i, ids, j as int, value) == Ok::<Value, BuildError>(
                        value,
                    ));
                }
                Ok(value)
            },
            Expr::Binary { lhs_id, op, rhs_id } => {
                let l = *lhs_id;
                let op = *op;
                let r = *rhs_id;
                let va = match self.compute(l) {
                    Ok(v) => v,
                    Err(e) => return Err(e),
                };
                let vb = match self.compute(r) {
                    Ok(v) => v,
                    Err(e) => return Err(e),
                };
                eval_binary_exec(op, va, vb)
            },
            Expr::Unary { op, expr_id: operand } => {
                let op = *op;
                let e = *operand;
                let v = match self.compute(e) {
                    Ok(v) => v,
                    Err(err) => return Err(err),
                };
                eval_unary_exec(op, v)
            },
        }
    }

    /// Applies the operator-specific local rewrites to a binary node
    /// whose abstract value `v` is not a constant; hands back `None`
    /// when no rule applies.
    fn apply_binary_rewrite(&mut self, v: &Value, l: Id<Expr>, op: BinaryOp, r: Id<Expr>) -> (res:
        Option<Id<Expr>>)
        requires
            exprs_wf(old(self)@),
            l@ < old(self)@.len(),
            r@ < old(self)@.len(),
        ensures
            exprs_wf(final(self)@),
            old(self)@.len() <= final(self)@.len(),
            match (res, rewrite_binary(old(self)@, *v, l@, op, r@)) {
                (None, None) => final(self)@ == old(self)@,
                (Some(rid), Some(FoldStep::Reuse(k))) => final(self)@ == old(self)@ && rid@ == k,
                (Some(rid), Some(FoldStep::Fresh(e))) => final(self)@ == old(self)@.push(e)
                    && rid@ == old(self)@.len(),
                _ => false,
            },
    {
        proof {
            lemma_id_is_spec_id(l);
            lemma_id_is_spec_id(r);
        }
        let int_class = matches!(v, Value::Int(_));
        let bool_class = matches!(v, Value::Bool(_));
        let int_rule = matches!(
            op,
            BinaryOp::Add
                | BinaryOp::Subtract
                | BinaryOp::Multiply
                | BinaryOp::Divide
                | BinaryOp::Modulo
        );
        let logical = matches!(op, BinaryOp::LogicalAnd | BinaryOp::LogicalOr);
        let comparison = matches!(
            op,
            BinaryOp::Equal
                | BinaryOp::NotEqual
                | BinaryOp::LessThan
                | BinaryOp::GreaterThan
                | BinaryOp::LessThanOrEqual
                | BinaryOp::GreaterThanOrEqual
        );
        if int_rule && int_class {
            match op {
                BinaryOp::Add => {
                    if let Some(c) = self.const_int_at(l) {
                        if c == 0 {
                            Some(r)
                        } else {
                            Some(
                                self.allocate_expr(
                                    Expr::Binary { lhs_id: r, op: BinaryOp::Add, rhs_id: l },
                                ),
                            )
                        }
                    } else if let Some(c) = self.const_int_at(r) {
                        if c == 0 {
                            Some(l)
                        } else {
                            None
                        }
                    } else {
                        None
                    }
                },
                BinaryOp::Subtract => {
                    if let Some(c) = self.const_int_at(l) {
                        if c == 0 {
                            Some(
                                self.allocate_expr(
                                    Expr::Unary { op: UnaryOp::Negate, expr_id: r },
                                ),
                            )
                        } else if let Some(c2) = self.const_int_at(r) {
                            if c2 == 0 {
                                Some(l)
                            } else if l == r {
                                Some(
                                    self.allocate_expr(
                                        Expr::Constant { value: Value::Int(IntValue::Constant(0)) },
                                    ),
                                )
                            } else {
                                None
                            }
                        } else if l == r {
                            Some(
                                self.allocate_expr(
                                    Expr::Constant { value: Value::Int(IntValue::Constant(0)) },
                                ),
                            )
                        } else {
                            None
                        }
                    } else if let Some(c2) = self.const_int_at(r) {
                        if c2 == 0 {
                            Some(l)
                        } else if l == r {
                            Some(
                                self.allocate_expr(
                                    Expr::Constant { value: Value::Int(IntValue::Constant(0)) },
                                ),
                            )
                        } else {
                            None
                        }
                    } else if l == r {
                        Some(
                            self.allocate_expr(
                                Expr::Constant { value: Value::Int(IntValue::Constant(0)) },
                            ),
                        )
                    } else {
                        None
                    }
                },
                BinaryOp::Multiply => {
                    if let Some(c) = self.const_int_at(l) {
                        if c == 0 {
                            Some(
                                self.allocate_expr(
                                    Expr::Constant { value: Value::Int(IntValue::Constant(0)) },
                                ),
                            )
                        } else if c == 1 {
                            Some(r)
                        } else if c == -1 {
                            Some(
                                self.allocate_expr(
                                    Expr::Unary { op: UnaryOp::Negate, expr_id: r },
                                ),
                            )
                        } else {
                            Some(
                                self.allocate_expr(
                                    Expr::Binary { lhs_id: r, op: BinaryOp::Multiply, rhs_id: l },
                                ),
                            )
                        }
                    } else {
                        None
                    }
                },
                BinaryOp::Divide => {
                    if let Some(c) = self.const_int_at(l) {
                        if c == 0 {
                            Some(l)
                        } else if let Some(c2) = self.const_int_at(r) {
                            if c2 == 1 {
                                Some(l)
                            } else {
                                None
                            }
                        } else {
                            None
                        }
                    } else if let Some(c2) = self.const_int_at(r) {
                        if c2 == 1 {
                            Some(l)
                        } else {
                            None
                        }
                    } else {
                        None
                    }
                },
                BinaryOp::Modulo => {
                    if let Some(c) = self.const_int_at(l) {
                        if c == 0 {
                            Some(l)
                        } else if let Some(c2) = self.const_int_at(r) {
                            if c2 == 1 {
                                Some(
                                    self.allocate_expr(
                                        Expr::Constant { value: Value::Int(IntValue::Constant(0)) },
                                    ),
                                )
                            } else {
                                None
                            }
                        } else {
                            None
                        }
                    } else if let Some(c2) = self.const_int_at(r) {
                        if c2 == 1 {
                            Some(
                                self.allocate_expr(
                                    Expr::Constant { value: Value::Int(IntValue::Constant(0)) },
                                ),
                            )
                        } else {
                            None
                        }
                    } else {
                        None
                    }
                },
                _ => None,
            }
        } else if logical && bool_class {
            match op {
                BinaryOp::LogicalAnd => {
                    if let Some(c) = self.const_bool_at(l) {
                        if !c {
                            Some(l)
                        } else if let Some(c2) = self.const_bool_at(r) {
                            if !c2 {
                                Some(r)
                            } else {
                                None
                            }
                        } else {
                            None
                        }
                    } else if let Some(c2) = self.const_bool_at(r) {
                        if !c2 {
                            Some(r)
                        } else {
                            None
                        }
                    } else {
                        None
                    }
                },
                BinaryOp::LogicalOr => {
                    if let Some(c) = self.const_bool_at(l) {
                        if c {
                            Some(l)
                        } else if let Some(c2) = self.const_bool_at(r) {
                            if c2 {
                                Some(r)
                            } else {
                                None
                            }
                        } else {
                            None
                        }
                    } else if let Some(c2) = self.const_bool_at(r) {
                        if c2 {
                            Some(r)
                        } else {
                            None
                        }
                    } else {
                        None
                    }
                },
                _ => None,
            }
        } else if comparison && l == r {
            let value = match op {
                BinaryOp::Equal => true,
                BinaryOp::NotEqual => false,
                BinaryOp::LessThan => false,
                BinaryOp::GreaterThan => false,
                BinaryOp::LessThanOrEqual => true,
                _ => true,
            };
            Some(
                self.allocate_expr(
                    Expr::Constant { value: Value::Bool(BoolValue::Constant(value)) },
                ),
            )
        } else {
            None
        }
    }

    /// Applies the double-negation rewrite to a unary node; hands back
    /// `None` when it does not apply.
    fn apply_unary_rewrite(&self, op: UnaryOp, e: Id<Expr>) -> (res: Option<Id<Expr>>)
        requires
            e@ < self@.len(),
        ensures
            match (res, rewrite_unary(self@, op, e@)) {
                (None, None) => true,
                (Some(rid), Some(FoldStep::Reuse(k))) => rid@ == k,
                _ => false,
            },
    {
        match self.get(&e) {
            Expr::Unary { op: inner, expr_id } => if *inner == op {
                Some(*expr_id)
            } else {
                None
            },
            _ => None,
        }
    }

    /// Runs the peephole optimizer on the already-allocated node at
    /// `id` and hands back the identifier of the folded node, which is
    /// `id` itself when nothing applies.
    pub fn peephole(&mut self, id: Id<Expr>) -> (res: Result<Id<Expr>, BuildError>)
        requires
            exprs_wf(old(self)@),
            id@ < old(self)@.len(),
        ensures
            exprs_wf(final(self)@),
            old(self)@.len() <= final(self)@.len(),
            match res {
                Ok(rid) => rid@ < final(self)@.len() && match fold_step(old(self)@, id@) {
                    Ok(FoldStep::Reuse(k)) => final(self)@ == old(self)@ && rid@ == k,
                    Ok(FoldStep::Fresh(e)) => final(self)@ == old(self)@.push(e) && rid@ == old(
                        self,
                    )@.len(),
                    Err(_) => false,
                },
                Err(e) => final(self)@ == old(self)@ && fold_step(old(self)@, id@) == Err::<
                    FoldStep,
                    BuildError,
                >(e),
            },
    {
        let v = match self.compute(id) {
            Ok(v) => v,
            Err(e) => return Err(e),
        };
        if matches!(v, Value::Int(IntValue::Constant(_)) | Value::Bool(BoolValue::Constant(_))) {
            if matches!(self.get(&id), Expr::Constant { .. }) {
                return Ok(id);
            }
            return Ok(self.allocate_expr(Expr::Constant { value: v }));
        }
        let summary_bin: Option<(Id<Expr>, BinaryOp, Id<Expr>)> = match self.get(&id) {
            Expr::Binary { lhs_id, op, rhs_id } => Some((*lhs_id, *op, *rhs_id)),
            _ => None,
        };
        if let Some((l, op, r)) = summary_bin {
            proof {
                assert(expr_wf_at(self@, id@));
            }
            return match self.apply_binary_rewrite(&v, l, op, r) {
                Some(rid) => Ok(rid),
                None => Ok(id),
            };
        }
        let summary_un: Option<(UnaryOp, Id<Expr>)> = match self.get(&id) {
            Expr::Unary { op, expr_id } => Some((*op, *expr_id)),
            _ => None,
        };
        if let Some((op, e)) = summary_un {
            proof {
                assert(expr_wf_at(self@, id@));
                assert(expr_wf_at(self@, e@));
            }
            return match self.apply_unary_rewrite(op, e) {
                Some(rid) => Ok(rid),
                None => Ok(id),
            };
        }
        Ok(id)
    }

    /// Appends a `Constant` node carrying the exact constant `value`
    /// and hands back its identifier.
    pub fn constant(&mut self, value: Value) -> (id: Id<Expr>)
        requires
            exprs_wf(old(self)@),
            value.is_concrete(),
        ensures
            final(self)@ == old(self)@.push(Expr::Constant { value }),
            id@ == old(self)@.len(),
            exprs_wf(final(self)@),
            value_of(final(self)@, id@) == Ok::<Value, BuildError>(value),
    {
        let id = self.allocate_expr(Expr::Constant { value });
        proof {
            assert(value_of(self@, id@) == Ok::<Value, BuildError>(value));
        }
        id
    }

    /// Builds the folded form of `lhs_id op rhs_id`: the binary node
    /// is evaluated, solidified or rewritten before anything is
    /// allocated, so an identity rewrite hands back an existing
    /// identifier without growing the arena.
    pub fn binary(&mut self, op: BinaryOp, lhs_id: Id<Expr>, rhs_id: Id<Expr>) -> (res: Result<
        Id<Expr>,
        BuildError,
    >)
        requires
            exprs_wf(old(self)@),
            lhs_id@ < old(self)@.len(),
            rhs_id@ < old(self)@.len(),
        ensures
            exprs_wf(final(self)@),
            old(self)@.len() <= final(self)@.len(),
            match res {
                Ok(rid) => rid@ < final(self)@.len() && match fold_binary(
                    old(self)@,
                    lhs_id@,
                    op,
                    rhs_id@,
                ) {
                    Ok(FoldStep::Reuse(k)) => final(self)@ == old(self)@ && rid@ == k,
                    Ok(FoldStep::Fresh(e)) => final(self)@ == old(self)@.push(e) && rid@ == old(
                        self,
                    )@.len(),
                    Err(_) => false,
                },
                Err(e) => final(self)@ == old(self)@ && fold_binary(old(self)@, lhs_id@, op, rhs_id@)
                    == Err::<FoldStep, BuildError>(e),
            },
            res matches Err(e) ==> crate::errors::eval_error(e),
    {
        proof {
            lemma_id_is_spec_id(lhs_id);
            lemma_id_is_spec_id(rhs_id);
        }
        let va = match self.compute(lhs_id) {
            Ok(v) => v,
            Err(e) => {
                proof {
                    lemma_value_of_error_kind(self@, lhs_id@);
                }
                return Err(e);
            },
        };
        let vb = match self.compute(rhs_id) {
            Ok(v) => v,
            Err(e) => {
                proof {
                    lemma_value_of_error_kind(self@, rhs_id@);
                }
                return Err(e);
            },
        };
        let v = match eval_binary_exec(op, va, vb) {
            Ok(v) => v,
            Err(e) => {
                proof {
                    lemma_eval_binary_error_kind(op, va, vb);
                }
                return Err(e);
            },
        };
        if matches!(v, Value::Int(IntValue::Constant(_)) | Value::Bool(BoolValue::Constant(_))) {
            return Ok(self.allocate_expr(Expr::Constant { value: v }));
        }
        match self.apply_binary_rewrite(&v, lhs_id, op, rhs_id) {
            Some(rid) => Ok(rid),
            None => Ok(self.allocate_expr(Expr::Binary { lhs_id, op, rhs_id })),
        }
    }

    /// Builds the folded form of a `Phi` over `expr_ids` at the merge
    /// point `ctrl`: the raw node is allocated and then solidified into
    /// a `Constant` when the lattice join of its operands is exact.
    pub fn phi(&mut self, ctrl: Id<Ctrl>, expr_ids: Vec<Id<Expr>>) -> (res: Result<
        Id<Expr>,
        BuildError,
    >)
        requires
            exprs_wf(old(self)@),
            forall|k: int|
                0 <= k < expr_ids@.len() ==> (#[trigger] expr_ids@[k])@ < old(self)@.len(),
        ensures
            exprs_wf(final(self)@),
            old(self)@.len() < final(self)@.len(),
            forall|k: int| 0 <= k < old(self)@.len() ==> final(self)@[k] == old(self)@[k],
            res matches Ok(rid) ==> rid@ < final(self)@.len() && ((final(self)@[rid@] matches
                Expr::Phi { expr_ids: eids, .. } && eids@ == expr_ids@) || (final(self)@[rid@]
                matches Expr::Constant { value } && value.is_concrete())),
            ({
                let grown = old(self)@.push(Expr::Phi { ctrl, expr_ids });
                match res {
                    Ok(rid) => match fold_step(grown, old(self)@.len() as int) {
                        Ok(FoldStep::Reuse(k)) => final(self)@ == grown && rid@ == k,
                        Ok(FoldStep::Fresh(e)) => final(self)@ == grown.push(e) && rid@
                            == grown.len(),
                        Err(_) => false,
                    },
                    Err(e) => final(self)@ == grown && fold_step(grown, old(self)@.len() as int)
                        == Err::<FoldStep, BuildError>(e),
                }
            }),
    {
        let id = self.allocate_expr(Expr::Phi { ctrl, expr_ids });
        let ghost grown = self@;
        let ghost pid = id@;
        let res = self.peephole(id);
        proof {
            if let Ok(v) = value_of(grown, pid) {
                if !v.is_concrete() {
                    assert(fold_step(grown, pid) == Ok::<FoldStep, BuildError>(
                        FoldStep::Reuse(pid),
                    ));
                }
            }
        }
        res
    }

    /// Builds the folded form of `op expr_id`, as [`Self::binary`]
    /// does for binary nodes.
    pub fn unary(&mut self, op: UnaryOp, expr_id: Id<Expr>) -> (res: Result<Id<Expr>, BuildError>)
        requires
            exprs_wf(old(self)@),
            expr_id@ < old(self)@.len(),
        ensures
            exprs_wf(final(self)@),
            old(self)@.len() <= final(self)@.len(),
            match res {
                Ok(rid) => rid@ < final(self)@.len() && match fold_unary(old(self)@, op, expr_id@) {
                    Ok(FoldStep::Reuse(k)) => final(self)@ == old(self)@ && rid@ == k,
                    Ok(FoldStep::Fresh(e)) => final(self)@ == old(self)@.push(e) && rid@ == old(
                        self,
                    )@.len(),
                    Err(_) => false,
                },
                Err(e) => final(self)@ == old(self)@ && fold_unary(old(self)@, op, expr_id@) == Err::<
                    FoldStep,
                    BuildError,
                >(e),
            },
            res matches Err(e) ==> crate::errors::eval_error(e),
    {
        proof {
            lemma_id_is_spec_id(expr_id);
        }
        let v0 = match self.compute(expr_id) {
            Ok(v) => v,
            Err(e) => {
                proof {
                    lemma_value_of_error_kind(self@, expr_id@);
                }
                return Err(e);
            },
        };
        let v = match eval_unary_exec(op, v0) {
            Ok(v) => v,
            Err(e) => {
                proof {
                    lemma_eval_unary_error_kind(op, v0);
                }
                return Err(e);
            },
        };
        if matches!(v, Value::Int(IntValue::Constant(_)) | Value::Bool(BoolValue::Constant(_))) {
            return Ok(self.allocate_expr(Expr::Constant { value: v }));
        }
        proof {
            assert(expr_wf_at(self@, expr_id@));
        }
        match self.apply_unary_rewrite(op, expr_id) {
            Some(rid) => Ok(rid),
            None => Ok(self.allocate_expr(Expr::Unary { op, expr_id })),
        }
    }
}

} // verus!
