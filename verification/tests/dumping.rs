use ramhas::visualize::visualize;
use ramhas::{Arena, Ctrl, Expr, IntValue, Parser, Value};

#[test]
fn dump_lists_the_reachable_graph() {
    let mut parser = Parser::new("int a = 1; int b = 2; int c = a + b; return c;");
    let rid = parser.parse_program().unwrap();
    let dump = visualize(&parser.ctrls, &parser.exprs, rid, "sum");
    assert_eq!(dump.title, "sum");
    // the reachable graph is the return, its start predecessor, and
    // the folded constant
    assert_eq!(dump.nodes.len(), 3);
    assert_eq!(dump.edges.len(), 2);
    assert_eq!(dump.nodes[0].label, "Return");
    assert!(dump.nodes[0].control);
    let labels: Vec<&str> = dump.nodes.iter().map(|n| n.label.as_str()).collect();
    assert!(labels.contains(&"Start"));
    assert!(labels.contains(&"3"));
}

#[test]
fn dump_emits_a_shared_node_once() {
    let mut exprs: Arena<Expr> = Arena::new();
    let mut ctrls: Arena<Ctrl> = Arena::new();
    let start = ctrls.start();
    let seven = exprs.constant(Value::Int(IntValue::Constant(7)));
    // two exit paths return the same expression node
    let r1 = ctrls.ret(start, seven);
    let r2 = ctrls.ret(start, seven);
    let stop = ctrls.stop(vec![r1, r2]);
    let dump = visualize(&ctrls, &exprs, stop, "shared");
    let sevens = dump.nodes.iter().filter(|n| n.label == "7").count();
    assert_eq!(sevens, 1);
    let starts = dump.nodes.iter().filter(|n| n.label == "Start").count();
    assert_eq!(starts, 1);
    // Stop, two Returns, one Start, one constant
    assert_eq!(dump.nodes.len(), 5);
}

#[test]
fn dump_covers_a_reconciled_branch() {
    let mut parser = Parser::new(
        "int arg = 9; int a = 1; if (arg == 1) a = 2; else a = 3; return a;",
    );
    let rid = parser.parse_program().unwrap();
    let dump = visualize(&parser.ctrls, &parser.exprs, rid, "branch");
    let labels: Vec<&str> = dump.nodes.iter().map(|n| n.label.as_str()).collect();
    assert!(labels.contains(&"Return"));
    assert!(labels.contains(&"Merge"));
    assert!(labels.contains(&"Then"));
    assert!(labels.contains(&"Else"));
    assert!(labels.contains(&"Phi"));
    assert!(labels.contains(&"Start"));
}

#[test]
fn dump_covers_a_conditional_split() {
    let mut exprs: Arena<Expr> = Arena::new();
    let mut ctrls: Arena<Ctrl> = Arena::new();
    let start = ctrls.start();
    ctrls.push_scope(start);
    let cond = exprs.constant(Value::Int(IntValue::Constant(0)));
    let then_id = ctrls.then_arm(start);
    let else_id = ctrls.else_arm(start);
    let if_id = ctrls.if_(start, cond, then_id, Some(else_id));
    let dump = visualize(&ctrls, &exprs, if_id, "split");
    let labels: Vec<&str> = dump.nodes.iter().map(|n| n.label.as_str()).collect();
    assert!(labels.contains(&"If"));
    assert!(labels.contains(&"Then"));
    assert!(labels.contains(&"Else"));
    assert!(labels.contains(&"0"));
    // the two arms share one start predecessor, emitted once
    let starts = dump.nodes.iter().filter(|n| n.label == "Start").count();
    assert_eq!(starts, 1);
}

#[test]
fn dump_labels_negative_constants() {
    let mut exprs: Arena<Expr> = Arena::new();
    let mut ctrls: Arena<Ctrl> = Arena::new();
    let start = ctrls.start();
    let c = exprs.constant(Value::Int(IntValue::Constant(-205)));
    let r = ctrls.ret(start, c);
    let dump = visualize(&ctrls, &exprs, r, "negative");
    let labels: Vec<&str> = dump.nodes.iter().map(|n| n.label.as_str()).collect();
    assert!(labels.contains(&"-205"));
}
