//! Read-only graph traversal for external rendering.
//!
//! Given a root control node, the traversal produces a plain node and
//! edge list: each node with a label and a control-versus-data kind,
//! each directed edge tagged control or data.  The traversal memoizes
//! by identifier, so a sub-node shared by several parents is emitted
//! exactly once.  The object is disposable and call-scoped; rendering
//! the list in any concrete graph format is an external concern.

use vstd::prelude::*;

use crate::arena::Arena;
use crate::arena::Id;
use crate::ctrl::{ctrl_wf_at, ctrls_wf, Ctrl};
use crate::expr::{expr_wf_at, exprs_wf, Expr};
use crate::text::int_to_string;
use crate::value::{BoolValue, IntValue, Value};
use vstd::string::StringExecFns;

verus! {

broadcast use crate::arena::lemma_id_view_nonneg;

/// One emitted graph node: its label and whether it is a control node.
#[derive(Debug)]
pub struct VisNode {
    pub label: String,
    pub control: bool,
}

/// One emitted directed edge between node-list positions, tagged
/// control or data.
#[derive(Debug, Clone, Copy, PartialEq, Eq, Structural)]
pub struct VisEdge {
    pub from: usize,
    pub to: usize,
    pub control: bool,
}

/// The label of an abstract value, spelled as the dump shows it.
fn value_label(v: &Value) -> String {
    match v {
        Value::All => String::from_str("all"),
        Value::Any => String::from_str("any"),
        Value::Bool(BoolValue::All) => String::from_str("bool(all)"),
        Value::Bool(BoolValue::Any) => String::from_str("bool(any)"),
        Value::Bool(BoolValue::Constant(b)) => if *b {
            String::from_str("true")
        } else {
            String::from_str("false")
        },
        Value::Int(IntValue::All) => String::from_str("int(all)"),
        Value::Int(IntValue::Any) => String::from_str("int(any)"),
        Value::Int(IntValue::Constant(c)) => int_to_string(*c),
    }
}

/// A disposable, call-scoped collector for one graph dump.
pub struct Visualizer {
    /// The title of the dump.
    pub title: String,
    /// The emitted nodes, in emission order.
    pub nodes: Vec<VisNode>,
    /// The emitted edges, as positions into the node list.
    pub edges: Vec<VisEdge>,
    /// For each expression slot, where it was emitted, if it was.
    pub expr_memo: Vec<Option<usize>>,
    /// For each control slot, where it was emitted, if it was.
    pub ctrl_memo: Vec<Option<usize>>,
}

impl Visualizer {
    /// Every edge endpoint and every memoized position points at an
    /// emitted node.
    pub closed spec fn wf(self) -> bool {
        &&& forall|j: int|
            0 <= j < self.edges@.len() ==> (#[trigger] self.edges@[j]).from < self.nodes@.len()
                && self.edges@[j].to < self.nodes@.len()
        &&& forall|i: int|
            0 <= i < self.expr_memo@.len() ==> ((#[trigger] self.expr_memo@[i]) matches Some(n)
                ==> n < self.nodes@.len())
        &&& forall|i: int|
            0 <= i < self.ctrl_memo@.len() ==> ((#[trigger] self.ctrl_memo@[i]) matches Some(n)
                ==> n < self.nodes@.len())
    }

    /// How many expression slots the memo covers.
    pub closed spec fn expr_capacity(self) -> int {
        self.expr_memo@.len() as int
    }

    /// How many control slots the memo covers.
    pub closed spec fn ctrl_capacity(self) -> int {
        self.ctrl_memo@.len() as int
    }

    /// A fresh collector for arenas of the given sizes.
    pub fn new(nexprs: usize, nctrls: usize) -> (r: Visualizer)
        ensures
            r.wf(),
            r.expr_capacity() == nexprs,
            r.ctrl_capacity() == nctrls,
            r.nodes@.len() == 0,
            r.edges@.len() == 0,
    {
        Visualizer {
            title: String::new(),
            nodes: Vec::new(),
            edges: Vec::new(),
            expr_memo: vec![None; nexprs],
            ctrl_memo: vec![None; nctrls],
        }
    }

    /// Emits the expression node at `id` and everything below it,
    /// handing back its position in the node list.  A node that was
    /// already emitted is handed back as it stands, emitting nothing:
    /// that is the memoization that keeps shared sub-nodes unique.
    pub fn add_expr(&mut self, exprs: &Arena<Expr>, id: Id<Expr>) -> (n: usize)
        requires
            exprs_wf(exprs@),
            old(self).wf(),
            old(self).expr_capacity() == exprs@.len(),
            id@ < exprs@.len(),
        ensures
            final(self).wf(),
            final(self).expr_capacity() == old(self).expr_capacity(),
            final(self).ctrl_capacity() == old(self).ctrl_capacity(),
            old(self).nodes@.len() <= final(self).nodes@.len(),
            n < final(self).nodes@.len(),
            final(self).expr_memo@[id@] == Some(n),
            forall|i: int|
                0 <= i < old(self).expr_memo@.len() && (#[trigger] old(self).expr_memo@[i])
                    is Some ==> final(self).expr_memo@[i] == old(self).expr_memo@[i],
            forall|i: int|
                0 <= i < old(self).ctrl_memo@.len() && (#[trigger] old(self).ctrl_memo@[i])
                    is Some ==> final(self).ctrl_memo@[i] == old(self).ctrl_memo@[i],
            old(self).expr_memo@[id@] is Some ==> *final(self) == *old(self),
        decreases id@,
    {
        let idx = id.index();
        if let Some(m) = self.expr_memo[idx] {
            return m;
        }
        proof {
            assert(expr_wf_at(exprs@, id@));
        }
        let label: String = match exprs.get(&id) {
            Expr::Phi { .. } => String::from_str("Phi"),
            Expr::Constant { value } => value_label(value),
            Expr::Binary { op, .. } => String::from_str(op.symbol()),
            Expr::Unary { op, .. } => String::from_str(op.symbol()),
        };
        let n = self.nodes.len();
        self.nodes.push(VisNode { label, control: false });
        self.expr_memo[idx] = Some(n);
        match exprs.get(&id) {
            Expr::Phi { expr_ids, .. } => {
                let mut j: usize = 0;
                while j < expr_ids.len()
                    invariant
                        exprs_wf(exprs@),
                        self.wf(),
                        self.expr_capacity() == exprs@.len(),
                        id@ < exprs@.len(),
                        exprs@[id@] matches Expr::Phi { expr_ids: eids, .. } && eids@
                            == expr_ids@,
                        j <= expr_ids@.len(),
                        n < self.nodes@.len(),
                        forall|i: int|
                            0 <= i < old(self).expr_memo@.len() && (
                            #[trigger] old(self).expr_memo@[i]) is Some ==> self.expr_memo@[i]
                                == old(self).expr_memo@[i],
                        forall|i: int|
                            0 <= i < old(self).ctrl_memo@.len() && (
                            #[trigger] old(self).ctrl_memo@[i]) is Some ==> self.ctrl_memo@[i]
                                == old(self).ctrl_memo@[i],
                        self.expr_memo@[id@] == Some(n),
                        old(self).expr_memo@.len() == exprs@.len(),
                        self.ctrl_capacity() == old(self).ctrl_capacity(),
                        old(self).nodes@.len() <= self.nodes@.len(),
                    decreases expr_ids@.len() - j,
                {
                    proof {
                        assert(expr_wf_at(exprs@, id@));
                    }
                    let oid = expr_ids[j];
                    let ghost pre = *self;
                    let to = self.add_expr(exprs, oid);
                    proof {
                        assert forall|i: int|
                        0 <= i < old(self).expr_memo@.len() && (#[trigger] old(self).expr_memo@[i])
                            is Some implies self.expr_memo@[i] == old(self).expr_memo@[i] by {
                            assert(pre.expr_memo@[i] == old(self).expr_memo@[i]);
                            assert(self.expr_memo@[i] == pre.expr_memo@[i]);
                        }
                        assert forall|i: int|
                        0 <= i < old(self).ctrl_memo@.len() && (#[trigger] old(self).ctrl_memo@[i])
                            is Some implies self.ctrl_memo@[i] == old(self).ctrl_memo@[i] by {
                            assert(pre.ctrl_memo@[i] == old(self).ctrl_memo@[i]);
                            assert(self.ctrl_memo@[i] == pre.ctrl_memo@[i]);
                        }
                    }
                    self.edges.push(VisEdge { from: n, to, control: false });
                    j = j + 1;
                }
            },
            Expr::Constant { .. } => {},
            Expr::Binary { lhs_id, rhs_id, .. } => {
                let l = *lhs_id;
                let r = *rhs_id;
                let ghost pre1 = *self;
                let lt = self.add_expr(exprs, l);
                proof {
                    assert forall|i: int|
                        0 <= i < old(self).expr_memo@.len() && (#[trigger] old(self).expr_memo@[i])
                            is Some implies self.expr_memo@[i] == old(self).expr_memo@[i] by {
                        assert(pre1.expr_memo@[i] == old(self).expr_memo@[i]);
                        assert(self.expr_memo@[i] == pre1.expr_memo@[i]);
                    }
                    assert forall|i: int|
                        0 <= i < old(self).ctrl_memo@.len() && (#[trigger] old(self).ctrl_memo@[i])
                            is Some implies self.ctrl_memo@[i] == old(self).ctrl_memo@[i] by {
                        assert(pre1.ctrl_memo@[i] == old(self).ctrl_memo@[i]);
                        assert(self.ctrl_memo@[i] == pre1.ctrl_memo@[i]);
                    }
                    assert(pre1.expr_memo@[id@] == Some(n));
                    assert(self.expr_memo@[id@] == pre1.expr_memo@[id@]);
                }
                self.edges.push(VisEdge { from: n, to: lt, control: false });
                let ghost pre2 = *self;
                let rt = self.add_expr(exprs, r);
                proof {
                    assert forall|i: int|
                        0 <= i < old(self).expr_memo@.len() && (#[trigger] old(self).expr_memo@[i])
                            is Some implies self.expr_memo@[i] == old(self).expr_memo@[i] by {
                        assert(pre2.expr_memo@[i] == old(self).expr_memo@[i]);
                        assert(self.expr_memo@[i] == pre2.expr_memo@[i]);
                    }
                    assert forall|i: int|
                        0 <= i < old(self).ctrl_memo@.len() && (#[trigger] old(self).ctrl_memo@[i])
                            is Some implies self.ctrl_memo@[i] == old(self).ctrl_memo@[i] by {
                        assert(pre2.ctrl_memo@[i] == old(self).ctrl_memo@[i]);
                        assert(self.ctrl_memo@[i] == pre2.ctrl_memo@[i]);
                    }
                    assert(pre2.expr_memo@[id@] == Some(n));
                    assert(self.expr_memo@[id@] == pre2.expr_memo@[id@]);
                }
                self.edges.push(VisEdge { from: n, to: rt, control: false });
            },
            Expr::Unary { expr_id, .. } => {
                let e = *expr_id;
                let ghost pre3 = *self;
                let et = self.add_expr(exprs, e);
                proof {
                    assert forall|i: int|
                        0 <= i < old(self).expr_memo@.len() && (#[trigger] old(self).expr_memo@[i])
                            is Some implies self.expr_memo@[i] == old(self).expr_memo@[i] by {
                        assert(pre3.expr_memo@[i] == old(self).expr_memo@[i]);
                        assert(self.expr_memo@[i] == pre3.expr_memo@[i]);
                    }
                    assert forall|i: int|
                        0 <= i < old(self).ctrl_memo@.len() && (#[trigger] old(self).ctrl_memo@[i])
                            is Some implies self.ctrl_memo@[i] == old(self).ctrl_memo@[i] by {
                        assert(pre3.ctrl_memo@[i] == old(self).ctrl_memo@[i]);
                        assert(self.ctrl_memo@[i] == pre3.ctrl_memo@[i]);
                    }
                    assert(pre3.expr_memo@[id@] == Some(n));
                    assert(self.expr_memo@[id@] == pre3.expr_memo@[id@]);
                }
                self.edges.push(VisEdge { from: n, to: et, control: false });
            },
        }
        n
    }

    /// Emits the control node at `id` and everything it reaches,
    /// memoized in the same way as [`Self::add_expr`].
    pub fn add_ctrl(&mut self, ctrls: &Arena<Ctrl>, exprs: &Arena<Expr>, id: Id<Ctrl>) -> (n:
        usize)
        requires
            exprs_wf(exprs@),
            ctrls_wf(ctrls@, exprs@.len() as int),
            old(self).wf(),
            old(self).expr_capacity() == exprs@.len(),
            old(self).ctrl_capacity() == ctrls@.len(),
            id@ < ctrls@.len(),
        ensures
            final(self).wf(),
            final(self).expr_capacity() == old(self).expr_capacity(),
            final(self).ctrl_capacity() == old(self).ctrl_capacity(),
            old(self).nodes@.len() <= final(self).nodes@.len(),
            n < final(self).nodes@.len(),
            final(self).ctrl_memo@[id@] == Some(n),
            forall|i: int|
                0 <= i < old(self).expr_memo@.len() && (#[trigger] old(self).expr_memo@[i])
                    is Some ==> final(self).expr_memo@[i] == old(self).expr_memo@[i],
            forall|i: int|
                0 <= i < old(self).ctrl_memo@.len() && (#[trigger] old(self).ctrl_memo@[i])
                    is Some ==> final(self).ctrl_memo@[i] == old(self).ctrl_memo@[i],
            old(self).ctrl_memo@[id@] is Some ==> *final(self) == *old(self),
        decreases id@,
    {
        let idx = id.index();
        if let Some(m) = self.ctrl_memo[idx] {
            return m;
        }
        proof {
            assert(ctrl_wf_at(ctrls@, id@, exprs@.len() as int));
        }
        let label: String = match ctrls.get(&id) {
            Ctrl::Start { .. } => String::from_str("Start"),
            Ctrl::Return { .. } => String::from_str("Return"),
            Ctrl::Stop { .. } => String::from_str("Stop"),
            Ctrl::If { .. } => String::from_str("If"),
            Ctrl::Then { .. } => String::from_str("Then"),
            Ctrl::Else { .. } => String::from_str("Else"),
            Ctrl::Merge { .. } => String::from_str("Merge"),
        };
        let n = self.nodes.len();
        self.nodes.push(VisNode { label, control: true });
        self.ctrl_memo[idx] = Some(n);
        match ctrls.get(&id) {
            Ctrl::Start { .. } => {},
            Ctrl::Return { ctrl_id, expr_id } => {
                let c = *ctrl_id;
                let e = *expr_id;
                let ghost prea = *self;
                let ct = self.add_ctrl(ctrls, exprs, c);
                proof {
                    assert forall|i: int|
                        0 <= i < old(self).expr_memo@.len() && (#[trigger] old(self).expr_memo@[i])
                            is Some implies self.expr_memo@[i] == old(self).expr_memo@[i] by {
                        assert(prea.expr_memo@[i] == old(self).expr_memo@[i]);
                        assert(self.expr_memo@[i] == prea.expr_memo@[i]);
                    }
                    assert forall|i: int|
                        0 <= i < old(self).ctrl_memo@.len() && (#[trigger] old(self).ctrl_memo@[i])
                            is Some implies self.ctrl_memo@[i] == old(self).ctrl_memo@[i] by {
                        assert(prea.ctrl_memo@[i] == old(self).ctrl_memo@[i]);
                        assert(self.ctrl_memo@[i] == prea.ctrl_memo@[i]);
                    }
                    assert(prea.ctrl_memo@[id@] == Some(n));
                    assert(self.ctrl_memo@[id@] == prea.ctrl_memo@[id@]);
                }
                self.edges.push(VisEdge { from: n, to: ct, control: true });
                let ghost preb = *self;
                let et = self.add_expr(exprs, e);
                proof {
                    assert forall|i: int|
                        0 <= i < old(self).expr_memo@.len() && (#[trigger] old(self).expr_memo@[i])
                            is Some implies self.expr_memo@[i] == old(self).expr_memo@[i] by {
                        assert(preb.expr_memo@[i] == old(self).expr_memo@[i]);
                        assert(self.expr_memo@[i] == preb.expr_memo@[i]);
                    }
                    assert forall|i: int|
                        0 <= i < old(self).ctrl_memo@.len() && (#[trigger] old(self).ctrl_memo@[i])
                            is Some implies self.ctrl_memo@[i] == old(self).ctrl_memo@[i] by {
                        assert(preb.ctrl_memo@[i] == old(self).ctrl_memo@[i]);
                        assert(self.ctrl_memo@[i] == preb.ctrl_memo@[i]);
                    }
                    assert(preb.ctrl_memo@[id@] == Some(n));
                    assert(self.ctrl_memo@[id@] == preb.ctrl_memo@[id@]);
                }
                self.edges.push(VisEdge { from: n, to: et, control: false });
            },
            Ctrl::Stop { ctrl_ids } => {
                let mut j: usize = 0;
                while j < ctrl_ids.len()
                    invariant
                        exprs_wf(exprs@),
                        ctrls_wf(ctrls@, exprs@.len() as int),
                        self.wf(),
                        self.expr_capacity() == exprs@.len(),
                        self.ctrl_capacity() == ctrls@.len(),
                        old(self).expr_memo@.len() == exprs@.len(),
                        old(self).ctrl_memo@.len() == ctrls@.len(),
                        id@ < ctrls@.len(),
                        ctrls@[id@] matches Ctrl::Stop { ctrl_ids: cids } && cids@ == ctrl_ids@,
                        j <= ctrl_ids@.len(),
                        n < self.nodes@.len(),
                        forall|i: int|
                            0 <= i < old(self).expr_memo@.len() && (
                            #[trigger] old(self).expr_memo@[i]) is Some ==> self.expr_memo@[i]
                                == old(self).expr_memo@[i],
                        forall|i: int|
                            0 <= i < old(self).ctrl_memo@.len() && (
                            #[trigger] old(self).ctrl_memo@[i]) is Some ==> self.ctrl_memo@[i]
                                == old(self).ctrl_memo@[i],
                        self.ctrl_memo@[id@] == Some(n),
                        old(self).nodes@.len() <= self.nodes@.len(),
                    decreases ctrl_ids@.len() - j,
                {
                    proof {
                        assert(ctrl_wf_at(ctrls@, id@, exprs@.len() as int));
                    }
                    let cid = ctrl_ids[j];
                    let to = self.add_ctrl(ctrls, exprs, cid);
                    self.edges.push(VisEdge { from: n, to, control: true });
                    j = j + 1;
                }
            },
            Ctrl::If { ctrl_id, expr_id, then_id, else_id } => {
                let c = *ctrl_id;
                let e = *expr_id;
                let t = *then_id;
                let els = *else_id;
                let ghost prec = *self;
                let ct = self.add_ctrl(ctrls, exprs, c);
                proof {
                    assert forall|i: int|
                        0 <= i < old(self).expr_memo@.len() && (#[trigger] old(self).expr_memo@[i])
                            is Some implies self.expr_memo@[i] == old(self).expr_memo@[i] by {
                        assert(prec.expr_memo@[i] == old(self).expr_memo@[i]);
                        assert(self.expr_memo@[i] == prec.expr_memo@[i]);
                    }
                    assert forall|i: int|
                        0 <= i < old(self).ctrl_memo@.len() && (#[trigger] old(self).ctrl_memo@[i])
                            is Some implies self.ctrl_memo@[i] == old(self).ctrl_memo@[i] by {
                        assert(prec.ctrl_memo@[i] == old(self).ctrl_memo@[i]);
                        assert(self.ctrl_memo@[i] == prec.ctrl_memo@[i]);
                    }
                    assert(prec.ctrl_memo@[id@] == Some(n));
                    assert(self.ctrl_memo@[id@] == prec.ctrl_memo@[id@]);
                }
                self.edges.push(VisEdge { from: n, to: ct, control: true });
                let ghost pred = *self;
                let et = self.add_expr(exprs, e);
                proof {
                    assert forall|i: int|
                        0 <= i < old(self).expr_memo@.len() && (#[trigger] old(self).expr_memo@[i])
                            is Some implies self.expr_memo@[i] == old(self).expr_memo@[i] by {
                        assert(pred.expr_memo@[i] == old(self).expr_memo@[i]);
                        assert(self.expr_memo@[i] == pred.expr_memo@[i]);
                    }
                    assert forall|i: int|
                        0 <= i < old(self).ctrl_memo@.len() && (#[trigger] old(self).ctrl_memo@[i])
                            is Some implies self.ctrl_memo@[i] == old(self).ctrl_memo@[i] by {
                        assert(pred.ctrl_memo@[i] == old(self).ctrl_memo@[i]);
                        assert(self.ctrl_memo@[i] == pred.ctrl_memo@[i]);
                    }
                    assert(pred.ctrl_memo@[id@] == Some(n));
                    assert(self.ctrl_memo@[id@] == pred.ctrl_memo@[id@]);
                }
                self.edges.push(VisEdge { from: n, to: et, control: false });
                let ghost pree = *self;
                let tt = self.add_ctrl(ctrls, exprs, t);
                proof {
                    assert forall|i: int|
                        0 <= i < old(self).expr_memo@.len() && (#[trigger] old(self).expr_memo@[i])
                            is Some implies self.expr_memo@[i] == old(self).expr_memo@[i] by {
                        assert(pree.expr_memo@[i] == old(self).expr_memo@[i]);
                        assert(self.expr_memo@[i] == pree.expr_memo@[i]);
                    }
                    assert forall|i: int|
                        0 <= i < old(self).ctrl_memo@.len() && (#[trigger] old(self).ctrl_memo@[i])
                            is Some implies self.ctrl_memo@[i] == old(self).ctrl_memo@[i] by {
                        assert(pree.ctrl_memo@[i] == old(self).ctrl_memo@[i]);
                        assert(self.ctrl_memo@[i] == pree.ctrl_memo@[i]);
                    }
                    assert(pree.ctrl_memo@[id@] == Some(n));
                    assert(self.ctrl_memo@[id@] == pree.ctrl_memo@[id@]);
                }
                self.edges.push(VisEdge { from: n, to: tt, control: true });
                if let Some(eid) = els {
                    let ghost pref = *self;
                    let elt = self.add_ctrl(ctrls, exprs, eid);
                    proof {
                        assert forall|i: int|
                            0 <= i < old(self).expr_memo@.len() && (#[trigger] old(self).expr_memo@[i])
                                is Some implies self.expr_memo@[i] == old(self).expr_memo@[i] by {
                            assert(pref.expr_memo@[i] == old(self).expr_memo@[i]);
                            assert(self.expr_memo@[i] == pref.expr_memo@[i]);
                        }
                        assert forall|i: int|
                            0 <= i < old(self).ctrl_memo@.len() && (#[trigger] old(self).ctrl_memo@[i])
                                is Some implies self.ctrl_memo@[i] == old(self).ctrl_memo@[i] by {
                            assert(pref.ctrl_memo@[i] == old(self).ctrl_memo@[i]);
                            assert(self.ctrl_memo@[i] == pref.ctrl_memo@[i]);
                        }
                        assert(pref.ctrl_memo@[id@] == Some(n));
                        assert(self.ctrl_memo@[id@] == pref.ctrl_memo@[id@]);
                    }
                    self.edges.push(VisEdge { from: n, to: elt, control: true });
                }
            },
            Ctrl::Then { ctrl_id, .. } => {
                let c = *ctrl_id;
                let ghost preg = *self;
                let ct = self.add_ctrl(ctrls, exprs, c);
                proof {
                    assert forall|i: int|
                        0 <= i < old(self).expr_memo@.len() && (#[trigger] old(self).expr_memo@[i])
                            is Some implies self.expr_memo@[i] == old(self).expr_memo@[i] by {
                        assert(preg.expr_memo@[i] == old(self).expr_memo@[i]);
                        assert(self.expr_memo@[i] == preg.expr_memo@[i]);
                    }
                    assert forall|i: int|
                        0 <= i < old(self).ctrl_memo@.len() && (#[trigger] old(self).ctrl_memo@[i])
                            is Some implies self.ctrl_memo@[i] == old(self).ctrl_memo@[i] by {
                        assert(preg.ctrl_memo@[i] == old(self).ctrl_memo@[i]);
                        assert(self.ctrl_memo@[i] == preg.ctrl_memo@[i]);
                    }
                    assert(preg.ctrl_memo@[id@] == Some(n));
                    assert(self.ctrl_memo@[id@] == preg.ctrl_memo@[id@]);
                }
                self.edges.push(VisEdge { from: n, to: ct, control: true });
            },
            Ctrl::Else { ctrl_id, .. } => {
                let c = *ctrl_id;
                let ghost preh = *self;
                let ct = self.add_ctrl(ctrls, exprs, c);
                proof {
                    assert forall|i: int|
                        0 <= i < old(self).expr_memo@.len() && (#[trigger] old(self).expr_memo@[i])
                            is Some implies self.expr_memo@[i] == old(self).expr_memo@[i] by {
                        assert(preh.expr_memo@[i] == old(self).expr_memo@[i]);
                        assert(self.expr_memo@[i] == preh.expr_memo@[i]);
                    }
                    assert forall|i: int|
                        0 <= i < old(self).ctrl_memo@.len() && (#[trigger] old(self).ctrl_memo@[i])
                            is Some implies self.ctrl_memo@[i] == old(self).ctrl_memo@[i] by {
                        assert(preh.ctrl_memo@[i] == old(self).ctrl_memo@[i]);
                        assert(self.ctrl_memo@[i] == preh.ctrl_memo@[i]);
                    }
                    assert(preh.ctrl_memo@[id@] == Some(n));
                    assert(self.ctrl_memo@[id@] == preh.ctrl_memo@[id@]);
                }
                self.edges.push(VisEdge { from: n, to: ct, control: true });
            },
            Ctrl::Merge { ctrl_ids, .. } => {
                let mut j: usize = 0;
                while j < ctrl_ids.len()
                    invariant
                        exprs_wf(exprs@),
                        ctrls_wf(ctrls@, exprs@.len() as int),
                        self.wf(),
                        self.expr_capacity() == exprs@.len(),
                        self.ctrl_capacity() == ctrls@.len(),
                        old(self).expr_memo@.len() == exprs@.len(),
                        old(self).ctrl_memo@.len() == ctrls@.len(),
                        id@ < ctrls@.len(),
                        ctrls@[id@] matches Ctrl::Merge { ctrl_ids: cids, .. } && cids@
                            == ctrl_ids@,
                        j <= ctrl_ids@.len(),
                        n < self.nodes@.len(),
                        forall|i: int|
                            0 <= i < old(self).expr_memo@.len() && (
                            #[trigger] old(self).expr_memo@[i]) is Some ==> self.expr_memo@[i]
                                == old(self).expr_memo@[i],
                        forall|i: int|
                            0 <= i < old(self).ctrl_memo@.len() && (
                            #[trigger] old(self).ctrl_memo@[i]) is Some ==> self.ctrl_memo@[i]
                                == old(self).ctrl_memo@[i],
                        self.ctrl_memo@[id@] == Some(n),
                        old(self).nodes@.len() <= self.nodes@.len(),
                    decreases ctrl_ids@.len() - j,
                {
                    proof {
                        assert(ctrl_wf_at(ctrls@, id@, exprs@.len() as int));
                    }
                    let cid = ctrl_ids[j];
                    let to = self.add_ctrl(ctrls, exprs, cid);
                    self.edges.push(VisEdge { from: n, to, control: true });
                    j = j + 1;
                }
            },
        }
        n
    }
}

/// Dumps the graph reachable from `root` as a titled node and edge
/// list, ready for an external renderer.
pub fn visualize(ctrls: &Arena<Ctrl>, exprs: &Arena<Expr>, root: Id<Ctrl>, title: &str) -> (r:
    Visualizer)
    requires
        exprs_wf(exprs@),
        ctrls_wf(ctrls@, exprs@.len() as int),
        root@ < ctrls@.len(),
    ensures
        r.wf(),
        r.expr_capacity() == exprs@.len(),
        r.ctrl_capacity() == ctrls@.len(),
        r.ctrl_memo@[root@] is Some,
{
    let mut v = Visualizer::new(exprs.len(), ctrls.len());
    v.title = String::from_str(title);
    v.add_ctrl(ctrls, exprs, root);
    v
}

} // verus!
