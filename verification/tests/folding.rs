use ramhas::{
    Arena, BinaryOp, BoolValue, BuildError, Ctrl, Expr, Id, IntValue, OperandKind, UnaryOp, Value,
};

fn int_const(exprs: &mut Arena<Expr>, v: i64) -> Id<Expr> {
    exprs.constant(Value::Int(IntValue::Constant(v)))
}

/// A node whose abstract value is the unknowable integer: a phi over
/// two different constants.
fn unknown_int(exprs: &mut Arena<Expr>, ctrls: &mut Arena<Ctrl>) -> Id<Expr> {
    let ctrl = ctrls.start();
    let a = int_const(exprs, 1);
    let b = int_const(exprs, 2);
    exprs.allocate(Expr::Phi { ctrl, expr_ids: vec![a, b] })
}

fn expect_int_constant(exprs: &Arena<Expr>, id: Id<Expr>) -> i64 {
    match exprs.get(&id) {
        Expr::Constant { value: Value::Int(IntValue::Constant(c)) } => *c,
        other => panic!("expected an integer constant node, got {:?}", other),
    }
}

fn expect_bool_constant(exprs: &Arena<Expr>, id: Id<Expr>) -> bool {
    match exprs.get(&id) {
        Expr::Constant { value: Value::Bool(BoolValue::Constant(c)) } => *c,
        other => panic!("expected a boolean constant node, got {:?}", other),
    }
}

#[test]
fn fold_add_constants() {
    let mut exprs: Arena<Expr> = Arena::new();
    let a = int_const(&mut exprs, 40);
    let b = int_const(&mut exprs, 2);
    let r = exprs.binary(BinaryOp::Add, a, b).unwrap();
    assert_eq!(expect_int_constant(&exprs, r), 42);
}

#[test]
fn fold_sub_and_mul_constants() {
    let mut exprs: Arena<Expr> = Arena::new();
    let a = int_const(&mut exprs, 40);
    let b = int_const(&mut exprs, 2);
    let d = exprs.binary(BinaryOp::Subtract, a, b).unwrap();
    assert_eq!(expect_int_constant(&exprs, d), 38);
    let m = exprs.binary(BinaryOp::Multiply, a, b).unwrap();
    assert_eq!(expect_int_constant(&exprs, m), 80);
    let q = exprs.binary(BinaryOp::Divide, a, b).unwrap();
    assert_eq!(expect_int_constant(&exprs, q), 20);
    let rem = exprs.binary(BinaryOp::Modulo, a, b).unwrap();
    assert_eq!(expect_int_constant(&exprs, rem), 0);
}

#[test]
fn fold_comparisons_of_constants() {
    let mut exprs: Arena<Expr> = Arena::new();
    let a = int_const(&mut exprs, 1);
    let b = int_const(&mut exprs, 2);
    let lt = exprs.binary(BinaryOp::LessThan, a, b).unwrap();
    assert!(expect_bool_constant(&exprs, lt));
    let ge = exprs.binary(BinaryOp::GreaterThanOrEqual, a, b).unwrap();
    assert!(!expect_bool_constant(&exprs, ge));
    let ne = exprs.binary(BinaryOp::NotEqual, a, b).unwrap();
    assert!(expect_bool_constant(&exprs, ne));
}

#[test]
fn equal_constants_in_distinct_nodes_fold_by_evaluation() {
    // two *different* identifiers holding equal constants: the result
    // comes from generic constant evaluation, not the identity rule
    let mut exprs: Arena<Expr> = Arena::new();
    let a = int_const(&mut exprs, 3);
    let b = int_const(&mut exprs, 3);
    assert_ne!(a, b);
    let eq = exprs.binary(BinaryOp::Equal, a, b).unwrap();
    assert!(expect_bool_constant(&exprs, eq));
    let lt = exprs.binary(BinaryOp::LessThan, a, b).unwrap();
    assert!(!expect_bool_constant(&exprs, lt));
}

#[test]
fn identity_add_zero_returns_same_identifier() {
    let mut exprs: Arena<Expr> = Arena::new();
    let mut ctrls: Arena<Ctrl> = Arena::new();
    let e = unknown_int(&mut exprs, &mut ctrls);
    let z = int_const(&mut exprs, 0);
    let before = exprs.len();
    let r = exprs.binary(BinaryOp::Add, e, z).unwrap();
    assert_eq!(r, e);
    assert_eq!(exprs.len(), before);
}

#[test]
fn identity_sub_zero_returns_same_identifier() {
    let mut exprs: Arena<Expr> = Arena::new();
    let mut ctrls: Arena<Ctrl> = Arena::new();
    let e = unknown_int(&mut exprs, &mut ctrls);
    let z = int_const(&mut exprs, 0);
    let r = exprs.binary(BinaryOp::Subtract, e, z).unwrap();
    assert_eq!(r, e);
}

#[test]
fn identity_one_times_returns_same_identifier() {
    let mut exprs: Arena<Expr> = Arena::new();
    let mut ctrls: Arena<Ctrl> = Arena::new();
    let e = unknown_int(&mut exprs, &mut ctrls);
    let one = int_const(&mut exprs, 1);
    let before = exprs.len();
    let r = exprs.binary(BinaryOp::Multiply, one, e).unwrap();
    assert_eq!(r, e);
    assert_eq!(exprs.len(), before);
}

#[test]
fn identity_div_one_returns_same_identifier() {
    let mut exprs: Arena<Expr> = Arena::new();
    let mut ctrls: Arena<Ctrl> = Arena::new();
    let e = unknown_int(&mut exprs, &mut ctrls);
    let one = int_const(&mut exprs, 1);
    let r = exprs.binary(BinaryOp::Divide, e, one).unwrap();
    assert_eq!(r, e);
}

#[test]
fn self_comparison_folds_by_node_identity() {
    let mut exprs: Arena<Expr> = Arena::new();
    let mut ctrls: Arena<Ctrl> = Arena::new();
    let e = unknown_int(&mut exprs, &mut ctrls);
    let eq = exprs.binary(BinaryOp::Equal, e, e).unwrap();
    assert!(expect_bool_constant(&exprs, eq));
    let lt = exprs.binary(BinaryOp::LessThan, e, e).unwrap();
    assert!(!expect_bool_constant(&exprs, lt));
    let le = exprs.binary(BinaryOp::LessThanOrEqual, e, e).unwrap();
    assert!(expect_bool_constant(&exprs, le));
    let ne = exprs.binary(BinaryOp::NotEqual, e, e).unwrap();
    assert!(!expect_bool_constant(&exprs, ne));
}

#[test]
fn self_subtraction_folds_to_zero() {
    let mut exprs: Arena<Expr> = Arena::new();
    let mut ctrls: Arena<Ctrl> = Arena::new();
    let e = unknown_int(&mut exprs, &mut ctrls);
    let r = exprs.binary(BinaryOp::Subtract, e, e).unwrap();
    assert_eq!(expect_int_constant(&exprs, r), 0);
}

#[test]
fn boundary_zero_divided_by_unknown_folds_to_the_zero_node() {
    let mut exprs: Arena<Expr> = Arena::new();
    let mut ctrls: Arena<Ctrl> = Arena::new();
    let e = unknown_int(&mut exprs, &mut ctrls);
    let z = int_const(&mut exprs, 0);
    let r = exprs.binary(BinaryOp::Divide, z, e).unwrap();
    assert_eq!(r, z);
    assert_eq!(expect_int_constant(&exprs, r), 0);
}

#[test]
fn boundary_unknown_modulo_one_folds_to_zero() {
    let mut exprs: Arena<Expr> = Arena::new();
    let mut ctrls: Arena<Ctrl> = Arena::new();
    let e = unknown_int(&mut exprs, &mut ctrls);
    let one = int_const(&mut exprs, 1);
    let r = exprs.binary(BinaryOp::Modulo, e, one).unwrap();
    assert_eq!(expect_int_constant(&exprs, r), 0);
}

#[test]
fn zero_minus_unknown_folds_to_negation() {
    let mut exprs: Arena<Expr> = Arena::new();
    let mut ctrls: Arena<Ctrl> = Arena::new();
    let e = unknown_int(&mut exprs, &mut ctrls);
    let z = int_const(&mut exprs, 0);
    let r = exprs.binary(BinaryOp::Subtract, z, e).unwrap();
    match exprs.get(&r) {
        Expr::Unary { op: UnaryOp::Negate, expr_id } => assert_eq!(*expr_id, e),
        other => panic!("expected a negation node, got {:?}", other),
    }
}

#[test]
fn constant_plus_unknown_canonicalizes_to_the_right() {
    let mut exprs: Arena<Expr> = Arena::new();
    let mut ctrls: Arena<Ctrl> = Arena::new();
    let e = unknown_int(&mut exprs, &mut ctrls);
    let c = int_const(&mut exprs, 5);
    let r = exprs.binary(BinaryOp::Add, c, e).unwrap();
    match exprs.get(&r) {
        Expr::Binary { lhs_id, op: BinaryOp::Add, rhs_id } => {
            assert_eq!(*lhs_id, e);
            assert_eq!(*rhs_id, c);
        },
        other => panic!("expected a canonicalized addition, got {:?}", other),
    }
}

#[test]
fn double_negation_returns_innermost_identifier() {
    let mut exprs: Arena<Expr> = Arena::new();
    let mut ctrls: Arena<Ctrl> = Arena::new();
    let e = unknown_int(&mut exprs, &mut ctrls);
    let n = exprs.unary(UnaryOp::Negate, e).unwrap();
    let nn = exprs.unary(UnaryOp::Negate, n).unwrap();
    assert_eq!(nn, e);
}

#[test]
fn negate_constant_folds() {
    let mut exprs: Arena<Expr> = Arena::new();
    let c = int_const(&mut exprs, 17);
    let r = exprs.unary(UnaryOp::Negate, c).unwrap();
    assert_eq!(expect_int_constant(&exprs, r), -17);
}

#[test]
fn bitwise_not_constant_folds() {
    let mut exprs: Arena<Expr> = Arena::new();
    let c = int_const(&mut exprs, 0);
    let r = exprs.unary(UnaryOp::Not, c).unwrap();
    assert_eq!(expect_int_constant(&exprs, r), -1);
}

#[test]
fn overflow_folds_to_unknowable() {
    let mut exprs: Arena<Expr> = Arena::new();
    let a = int_const(&mut exprs, i64::MAX);
    let b = int_const(&mut exprs, 1);
    let r = exprs.binary(BinaryOp::Add, a, b).unwrap();
    assert_eq!(exprs.compute(r), Ok(Value::Int(IntValue::Any)));
}

#[test]
fn constant_division_by_zero_is_an_error() {
    let mut exprs: Arena<Expr> = Arena::new();
    let a = int_const(&mut exprs, 1);
    let z = int_const(&mut exprs, 0);
    assert_eq!(
        exprs.binary(BinaryOp::Divide, a, z),
        Err(BuildError::DivisionByZero)
    );
    assert_eq!(
        exprs.binary(BinaryOp::Modulo, a, z),
        Err(BuildError::DivisionByZero)
    );
}

#[test]
fn logical_and_on_integers_is_a_type_error() {
    let mut exprs: Arena<Expr> = Arena::new();
    let a = int_const(&mut exprs, 1);
    let b = int_const(&mut exprs, 2);
    assert_eq!(
        exprs.binary(BinaryOp::LogicalAnd, a, b),
        Err(BuildError::OperatorTypeMismatch {
            op: BinaryOp::LogicalAnd,
            lhs: OperandKind::Int,
            rhs: OperandKind::Int,
        })
    );
}

#[test]
fn negating_a_boolean_is_a_type_error() {
    let mut exprs: Arena<Expr> = Arena::new();
    let t = exprs.constant(Value::Bool(BoolValue::Constant(true)));
    assert_eq!(
        exprs.unary(UnaryOp::Negate, t),
        Err(BuildError::UnaryTypeMismatch {
            op: UnaryOp::Negate,
            operand: OperandKind::Bool,
        })
    );
}

#[test]
fn mixing_types_in_addition_reports_join_mismatch() {
    let mut exprs: Arena<Expr> = Arena::new();
    let mut ctrls: Arena<Ctrl> = Arena::new();
    let e = unknown_int(&mut exprs, &mut ctrls);
    let t = exprs.constant(Value::Bool(BoolValue::Constant(true)));
    assert_eq!(
        exprs.binary(BinaryOp::Add, e, t),
        Err(BuildError::LatticeJoinMismatch)
    );
}

#[test]
fn logical_and_absorbs_constant_false() {
    let mut exprs: Arena<Expr> = Arena::new();
    let mut ctrls: Arena<Ctrl> = Arena::new();
    // a phi over two different boolean constants: unknowable boolean
    let ctrl = ctrls.start();
    let t = exprs.constant(Value::Bool(BoolValue::Constant(true)));
    let f = exprs.constant(Value::Bool(BoolValue::Constant(false)));
    let b = exprs.allocate(Expr::Phi { ctrl, expr_ids: vec![t, f] });
    let r = exprs.binary(BinaryOp::LogicalAnd, f, b).unwrap();
    assert_eq!(r, f);
    let r2 = exprs.binary(BinaryOp::LogicalOr, b, t).unwrap();
    assert_eq!(r2, t);
}

#[test]
fn peephole_solidifies_a_constant_valued_node() {
    let mut exprs: Arena<Expr> = Arena::new();
    let a = int_const(&mut exprs, 2);
    let b = int_const(&mut exprs, 3);
    // allocate a raw, unfolded node and run the optimizer on it
    let raw = exprs.allocate(Expr::Binary { lhs_id: a, op: BinaryOp::Multiply, rhs_id: b });
    let folded = exprs.peephole(raw).unwrap();
    assert_ne!(folded, raw);
    assert_eq!(expect_int_constant(&exprs, folded), 6);
}

#[test]
fn peephole_keeps_a_constant_node() {
    let mut exprs: Arena<Expr> = Arena::new();
    let a = int_const(&mut exprs, 2);
    let before = exprs.len();
    let r = exprs.peephole(a).unwrap();
    assert_eq!(r, a);
    assert_eq!(exprs.len(), before);
}

#[test]
fn compute_evaluates_a_phi_as_the_join_of_its_operands() {
    let mut exprs: Arena<Expr> = Arena::new();
    let mut ctrls: Arena<Ctrl> = Arena::new();
    let ctrl = ctrls.start();
    let a = int_const(&mut exprs, 4);
    let b = int_const(&mut exprs, 4);
    let same = exprs.allocate(Expr::Phi { ctrl, expr_ids: vec![a, b] });
    assert_eq!(exprs.compute(same), Ok(Value::Int(IntValue::Constant(4))));
    let c = int_const(&mut exprs, 5);
    let diff = exprs.allocate(Expr::Phi { ctrl, expr_ids: vec![a, c] });
    assert_eq!(exprs.compute(diff), Ok(Value::Int(IntValue::Any)));
}

#[test]
fn shift_folding_and_out_of_range_shift() {
    let mut exprs: Arena<Expr> = Arena::new();
    let a = int_const(&mut exprs, 3);
    let b = int_const(&mut exprs, 4);
    let r = exprs.binary(BinaryOp::ShiftLeft, a, b).unwrap();
    assert_eq!(expect_int_constant(&exprs, r), 48);
    let big = int_const(&mut exprs, 64);
    let o = exprs.binary(BinaryOp::ShiftLeft, a, big).unwrap();
    assert_eq!(exprs.compute(o), Ok(Value::Int(IntValue::Any)));
}

#[test]
fn bitwise_folding_on_constants() {
    let mut exprs: Arena<Expr> = Arena::new();
    let a = int_const(&mut exprs, 12);
    let b = int_const(&mut exprs, 10);
    let and = exprs.binary(BinaryOp::And, a, b).unwrap();
    assert_eq!(expect_int_constant(&exprs, and), 8);
    let or = exprs.binary(BinaryOp::Or, a, b).unwrap();
    assert_eq!(expect_int_constant(&exprs, or), 14);
    let xor = exprs.binary(BinaryOp::Xor, a, b).unwrap();
    assert_eq!(expect_int_constant(&exprs, xor), 6);
}

#[test]
fn arena_clear_resets_everything() {
    let mut exprs: Arena<Expr> = Arena::new();
    int_const(&mut exprs, 1);
    int_const(&mut exprs, 2);
    assert_eq!(exprs.len(), 2);
    exprs.clear();
    assert_eq!(exprs.len(), 0);
}
