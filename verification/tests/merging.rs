use ramhas::{Arena, BoolValue, BuildError, Ctrl, Expr, IntValue, Value};

#[test]
fn merge_keeps_agreed_bindings_and_joins_disagreements() {
    let mut exprs: Arena<Expr> = Arena::new();
    let mut ctrls: Arena<Ctrl> = Arena::new();
    let start = ctrls.start();
    ctrls.push_scope(start);
    let one = exprs.constant(Value::Int(IntValue::Constant(1)));
    let x = String::from("x");
    let y = String::from("y");
    ctrls.declare(start, &x, one);
    ctrls.declare(start, &y, one);
    let then_id = ctrls.then_arm(start);
    let else_id = ctrls.else_arm(start);
    let two = exprs.constant(Value::Int(IntValue::Constant(2)));
    // the taken arm rebinds x; the other arm leaves it alone
    ctrls.set(then_id, &x, two).unwrap();
    let m = ctrls.merge(&mut exprs, then_id, else_id).unwrap();
    // y was written by neither arm: the binding carries over unchanged
    assert_eq!(ctrls.get_symbol(m, &y), Some(one));
    // x disagrees: it is bound to a phi joining the two arms' values
    let xm = ctrls.get_symbol(m, &x).unwrap();
    match exprs.get(&xm) {
        Expr::Phi { expr_ids, .. } => {
            assert_eq!(expr_ids.len(), 2);
            assert_eq!(expr_ids[0], two);
            assert_eq!(expr_ids[1], one);
        },
        other => panic!("expected a phi for the disagreeing binding, got {:?}", other),
    }
    assert_eq!(exprs.compute(xm), Ok(Value::Int(IntValue::Any)));
}

#[test]
fn merge_solidifies_a_join_of_equal_constants() {
    let mut exprs: Arena<Expr> = Arena::new();
    let mut ctrls: Arena<Ctrl> = Arena::new();
    let start = ctrls.start();
    ctrls.push_scope(start);
    let zero = exprs.constant(Value::Int(IntValue::Constant(0)));
    let x = String::from("x");
    ctrls.declare(start, &x, zero);
    let then_id = ctrls.then_arm(start);
    let else_id = ctrls.else_arm(start);
    // both arms rebind x to five, through two distinct constant nodes
    let five_a = exprs.constant(Value::Int(IntValue::Constant(5)));
    let five_b = exprs.constant(Value::Int(IntValue::Constant(5)));
    assert_ne!(five_a, five_b);
    ctrls.set(then_id, &x, five_a).unwrap();
    ctrls.set(else_id, &x, five_b).unwrap();
    let m = ctrls.merge(&mut exprs, then_id, else_id).unwrap();
    // the phi of two equal constants folds to that constant
    let xm = ctrls.get_symbol(m, &x).unwrap();
    match exprs.get(&xm) {
        Expr::Constant { value } => assert_eq!(*value, Value::Int(IntValue::Constant(5))),
        other => panic!("expected the join to solidify, got {:?}", other),
    }
}

#[test]
fn merge_reports_a_lattice_mismatch_across_arms() {
    let mut exprs: Arena<Expr> = Arena::new();
    let mut ctrls: Arena<Ctrl> = Arena::new();
    let start = ctrls.start();
    ctrls.push_scope(start);
    let one = exprs.constant(Value::Int(IntValue::Constant(1)));
    let x = String::from("x");
    ctrls.declare(start, &x, one);
    let then_id = ctrls.then_arm(start);
    let else_id = ctrls.else_arm(start);
    // the taken arm rebinds x to a boolean while the other arm keeps
    // the integer: their join cannot exist
    let t = exprs.constant(Value::Bool(BoolValue::Constant(true)));
    ctrls.set(then_id, &x, t).unwrap();
    assert_eq!(
        ctrls.merge(&mut exprs, then_id, else_id),
        Err(BuildError::LatticeJoinMismatch)
    );
}

#[test]
fn arm_snapshots_keep_writes_private() {
    let mut exprs: Arena<Expr> = Arena::new();
    let mut ctrls: Arena<Ctrl> = Arena::new();
    let start = ctrls.start();
    ctrls.push_scope(start);
    let one = exprs.constant(Value::Int(IntValue::Constant(1)));
    let x = String::from("x");
    ctrls.declare(start, &x, one);
    let then_id = ctrls.then_arm(start);
    let two = exprs.constant(Value::Int(IntValue::Constant(2)));
    ctrls.set(then_id, &x, two).unwrap();
    // the write in the arm is invisible to the branch point and to the
    // other arm's later snapshot
    assert_eq!(ctrls.get_symbol(start, &x), Some(one));
    let else_id = ctrls.else_arm(start);
    assert_eq!(ctrls.get_symbol(else_id, &x), Some(one));
}
