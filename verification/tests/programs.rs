use ramhas::{BuildError, Ctrl, Expr, IntValue, Parser, Value};

fn returned_constant(source: &str) -> i64 {
    let mut parser = Parser::new(source);
    let rid = parser.parse_program().unwrap();
    let expr_id = match parser.ctrls.get(&rid) {
        Ctrl::Return { expr_id, .. } => *expr_id,
        other => panic!("expected the program to end in a return, got {:?}", other),
    };
    match parser.exprs.get(&expr_id) {
        Expr::Constant { value: Value::Int(IntValue::Constant(c)) } => *c,
        other => panic!("expected the result to fold to a constant, got {:?}", other),
    }
}

fn program_error(source: &str) -> BuildError {
    let mut parser = Parser::new(source);
    parser.parse_program().unwrap_err()
}

#[test]
fn scenario_sum_of_declared_variables() {
    assert_eq!(
        returned_constant("int a = 1; int b = 2; int c = a + b; return c;"),
        3
    );
}

#[test]
fn scenario_precedence_and_grouping() {
    assert_eq!(returned_constant("return 12 + 19 * 2 - (27 - 4) + 2;"), 29);
}

#[test]
fn scenario_block_scope_restores_outer_binding() {
    assert_eq!(
        returned_constant("int a=1; int b=2; { int b=5; } return a+b;"),
        3
    );
}

#[test]
fn left_to_right_for_equal_precedence() {
    assert_eq!(returned_constant("return 10 - 4 - 3;"), 3);
    assert_eq!(returned_constant("return 100 / 10 / 5;"), 2);
}

#[test]
fn unary_operators_in_programs() {
    assert_eq!(returned_constant("return -3 + 5;"), 2);
    assert_eq!(returned_constant("return 1 - -1;"), 2);
}

#[test]
fn assignment_rebinds_a_declared_variable() {
    assert_eq!(returned_constant("int a = 1; a = a + 10; return a;"), 11);
}

#[test]
fn inner_block_assignment_reaches_outer_variable() {
    assert_eq!(
        returned_constant("int c = 0; { int e = 6; c = 1 + e; } return c;"),
        7
    );
}

#[test]
fn undefined_identifier_is_reported() {
    assert_eq!(
        program_error("return x;"),
        BuildError::UndefinedSymbol(String::from("x"))
    );
}

#[test]
fn assignment_without_declaration_is_reported() {
    assert_eq!(
        program_error("x = 1; return x;"),
        BuildError::RebindWithoutDeclare(String::from("x"))
    );
}

#[test]
fn program_without_return_is_reported() {
    assert_eq!(program_error("int a = 1;"), BuildError::MissingReturn);
}

#[test]
fn truncated_source_is_reported() {
    assert_eq!(program_error("return 1"), BuildError::UnexpectedEnd);
}

#[test]
fn stray_token_is_reported() {
    assert_eq!(program_error("int 5 = 3; return 0;"), BuildError::UnexpectedToken);
}

#[test]
fn constant_division_by_zero_in_a_program() {
    assert_eq!(program_error("return 1 / 0;"), BuildError::DivisionByZero);
}

#[test]
fn logical_operator_on_integers_in_a_program() {
    match program_error("return 1 && 2;") {
        BuildError::OperatorTypeMismatch { .. } => {},
        other => panic!("expected an operator type mismatch, got {:?}", other),
    }
}

#[test]
fn comparison_results_mix_with_integers_as_an_error() {
    assert_eq!(
        program_error("return (1 < 2) + 3;"),
        BuildError::LatticeJoinMismatch
    );
}

#[test]
fn conditional_program_builds_a_split() {
    let mut parser = Parser::new(
        "int arg = 9; int a = 1; if (arg == 1) a = arg + 2; else a = arg - 3; return a;",
    );
    let rid = parser.parse_program().unwrap();
    // arg is a constant, so the condition folds to false; the program
    // still builds both arms and the result binding is untouched by
    // either arm's private copy
    match parser.ctrls.get(&rid) {
        Ctrl::Return { .. } => {},
        other => panic!("expected the program to end in a return, got {:?}", other),
    }
}

#[test]
fn branch_writes_reconcile_through_a_merge() {
    let mut parser = Parser::new(
        "int arg = 9; int a = 1; if (arg == 1) a = 2; else a = 3; return a;",
    );
    let rid = parser.parse_program().unwrap();
    let expr_id = match parser.ctrls.get(&rid) {
        Ctrl::Return { expr_id, .. } => *expr_id,
        other => panic!("expected the program to end in a return, got {:?}", other),
    };
    // after the branch, `a` resolves to the phi joining the two arms'
    // bindings, whose abstract value is the join of two different
    // constants
    match parser.exprs.get(&expr_id) {
        Expr::Phi { expr_ids, .. } => assert_eq!(expr_ids.len(), 2),
        other => panic!("expected a reconciling phi, got {:?}", other),
    }
    assert_eq!(
        parser.exprs.compute(expr_id),
        Ok(Value::Int(IntValue::Any))
    );
}

#[test]
fn agreeing_branch_writes_solidify_after_the_merge() {
    assert_eq!(
        returned_constant("int a = 1; if (1 == 1) a = 7; else a = 7; return a;"),
        7
    );
}

#[test]
fn names_unwritten_by_either_arm_survive_a_branch() {
    assert_eq!(
        returned_constant("int a = 1; int b = 2; if (a == 1) a = 5; return b;"),
        2
    );
}

#[test]
fn division_folds_inside_programs() {
    assert_eq!(returned_constant("return 0 / 3;"), 0);
    assert_eq!(returned_constant("return 7 % 1;"), 0);
}
