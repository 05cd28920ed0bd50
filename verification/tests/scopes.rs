use ramhas::{Arena, BuildError, Expr, Id, IntValue, Symbols, Value};

fn two_ids(exprs: &mut Arena<Expr>) -> (Id<Expr>, Id<Expr>) {
    let a = exprs.constant(Value::Int(IntValue::Constant(1)));
    let b = exprs.constant(Value::Int(IntValue::Constant(2)));
    (a, b)
}

#[test]
fn shadowing_round_trip_restores_outer_binding() {
    let mut exprs: Arena<Expr> = Arena::new();
    let (v1, v2) = two_ids(&mut exprs);
    let mut symbols = Symbols::new();
    symbols.push_scope();
    let x = String::from("x");
    symbols.declare(&x, v1);
    symbols.push_scope();
    symbols.declare(&x, v2);
    assert_eq!(symbols.get(&x), Some(v2));
    symbols.pop_scope().unwrap();
    assert_eq!(symbols.get(&x), Some(v1));
}

#[test]
fn declare_shadows_within_one_scope() {
    let mut exprs: Arena<Expr> = Arena::new();
    let (v1, v2) = two_ids(&mut exprs);
    let mut symbols = Symbols::new();
    symbols.push_scope();
    let x = String::from("x");
    symbols.declare(&x, v1);
    symbols.declare(&x, v2);
    assert_eq!(symbols.get(&x), Some(v2));
}

#[test]
fn get_walks_outward_and_misses_cleanly() {
    let mut exprs: Arena<Expr> = Arena::new();
    let (v1, _) = two_ids(&mut exprs);
    let mut symbols = Symbols::new();
    symbols.push_scope();
    symbols.declare(&String::from("outer"), v1);
    symbols.push_scope();
    assert_eq!(symbols.get(&String::from("outer")), Some(v1));
    assert_eq!(symbols.get(&String::from("missing")), None);
}

#[test]
fn set_rebinds_the_nearest_binding() {
    let mut exprs: Arena<Expr> = Arena::new();
    let (v1, v2) = two_ids(&mut exprs);
    let mut symbols = Symbols::new();
    symbols.push_scope();
    let x = String::from("x");
    symbols.declare(&x, v1);
    symbols.push_scope();
    // the binding lives in the outer scope; set reaches it from the
    // inner one
    symbols.set(&x, v2).unwrap();
    symbols.pop_scope().unwrap();
    assert_eq!(symbols.get(&x), Some(v2));
}

#[test]
fn set_without_declare_is_an_error() {
    let mut exprs: Arena<Expr> = Arena::new();
    let (v1, _) = two_ids(&mut exprs);
    let mut symbols = Symbols::new();
    symbols.push_scope();
    assert_eq!(
        symbols.set(&String::from("ghostly"), v1),
        Err(BuildError::RebindWithoutDeclare(String::from("ghostly")))
    );
}

#[test]
fn pop_without_push_is_scope_underflow() {
    let mut symbols = Symbols::new();
    assert_eq!(symbols.pop_scope(), Err(BuildError::ScopeUnderflow));
}
