use ramhas::{BoolValue, BuildError, IntValue, Value};

#[test]
fn int_join_identity_and_absorption() {
    let c = IntValue::Constant(7);
    assert_eq!(IntValue::All.join(&c), c);
    assert_eq!(c.join(&IntValue::All), c);
    assert_eq!(IntValue::Any.join(&c), IntValue::Any);
    assert_eq!(c.join(&IntValue::Any), IntValue::Any);
    assert_eq!(c.join(&IntValue::Constant(7)), c);
    assert_eq!(c.join(&IntValue::Constant(8)), IntValue::Any);
}

#[test]
fn int_meet_identity_and_absorption() {
    let c = IntValue::Constant(7);
    assert_eq!(IntValue::Any.meet(&c), c);
    assert_eq!(c.meet(&IntValue::Any), c);
    assert_eq!(IntValue::All.meet(&c), IntValue::All);
    assert_eq!(c.meet(&IntValue::All), IntValue::All);
    assert_eq!(c.meet(&IntValue::Constant(7)), c);
    assert_eq!(c.meet(&IntValue::Constant(8)), IntValue::All);
}

#[test]
fn bool_join_and_meet() {
    let t = BoolValue::Constant(true);
    let f = BoolValue::Constant(false);
    assert_eq!(BoolValue::All.join(&t), t);
    assert_eq!(t.join(&f), BoolValue::Any);
    assert_eq!(t.join(&t), t);
    assert_eq!(BoolValue::Any.join(&f), BoolValue::Any);
    assert_eq!(t.meet(&f), BoolValue::All);
    assert_eq!(BoolValue::Any.meet(&t), t);
}

#[test]
fn int_join_commutative_on_samples() {
    let elems = [
        IntValue::All,
        IntValue::Constant(1),
        IntValue::Constant(2),
        IntValue::Any,
    ];
    for a in elems.iter() {
        for b in elems.iter() {
            assert_eq!(a.join(b), b.join(a));
        }
    }
}

#[test]
fn int_join_associative_on_samples() {
    let elems = [
        IntValue::All,
        IntValue::Constant(1),
        IntValue::Constant(2),
        IntValue::Any,
    ];
    for a in elems.iter() {
        for b in elems.iter() {
            for c in elems.iter() {
                assert_eq!(a.join(b).join(c), a.join(&b.join(c)));
            }
        }
    }
}

#[test]
fn bool_join_commutative_and_associative_on_samples() {
    let elems = [
        BoolValue::All,
        BoolValue::Constant(false),
        BoolValue::Constant(true),
        BoolValue::Any,
    ];
    for a in elems.iter() {
        for b in elems.iter() {
            assert_eq!(a.join(b), b.join(a));
            for c in elems.iter() {
                assert_eq!(a.join(b).join(c), a.join(&b.join(c)));
            }
        }
    }
}

#[test]
fn value_join_respects_types() {
    let i = Value::Int(IntValue::Constant(1));
    let b = Value::Bool(BoolValue::Constant(true));
    assert_eq!(i.join(&i), Ok(i));
    assert_eq!(Value::All.join(&b), Ok(b));
    assert_eq!(Value::Any.join(&i), Ok(Value::Any));
    assert_eq!(i.join(&b), Err(BuildError::LatticeJoinMismatch));
    assert_eq!(b.meet(&i), Err(BuildError::LatticeJoinMismatch));
}
