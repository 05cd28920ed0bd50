//! The control-flow half of the graph, and the symbol-table operations
//! that go through the control node owning the bindings.

use vstd::prelude::*;

use crate::arena::{Arena, Id};
use crate::errors::BuildError;
use crate::expr::{exprs_wf, Expr};
use crate::symbols::{
    lookup, spec_declare, spec_set, symbols_ok, Symbols,
};

verus! {

broadcast use crate::arena::lemma_id_view_nonneg;

/// A control-flow node.
///
/// `Start`, `Then`, `Else` and `Merge` each own a symbol-scope stack:
/// the function entry owns the root stack, a branch arm owns a private
/// copy of the bindings visible at its `If`, and a merge owns the
/// reconciled table of its arms.  All other cross-references are by
/// identifier only.
#[derive(Debug)]
pub enum Ctrl {
    /// Function entry; owns the root symbol-scope stack.
    Start { arg_ids: Vec<Id<Expr>>, symbols: Symbols },
    /// One completed function exit path.
    Return { ctrl_id: Id<Ctrl>, expr_id: Id<Expr> },
    /// The single program exit, aggregating all terminal paths.
    Stop { ctrl_ids: Vec<Id<Ctrl>> },
    /// A conditional split.
    If { ctrl_id: Id<Ctrl>, expr_id: Id<Expr>, then_id: Id<Ctrl>, else_id: Option<Id<Ctrl>> },
    /// Entry of the taken branch arm, with its private binding copy.
    Then { ctrl_id: Id<Ctrl>, symbols: Symbols },
    /// Entry of the not-taken branch arm, with its private binding copy.
    Else { ctrl_id: Id<Ctrl>, symbols: Symbols },
    /// The reconciliation point of a branch: for every name the two
    /// arms bind differently it binds a `Phi` joining the arms' values.
    Merge { ctrl_ids: Vec<Id<Ctrl>>, symbols: Symbols },
}

/// True of the nodes that own a symbol-scope stack.
pub open spec fn has_symbols(c: Ctrl) -> bool {
    match c {
        Ctrl::Start { .. } => true,
        Ctrl::Then { .. } => true,
        Ctrl::Else { .. } => true,
        Ctrl::Merge { .. } => true,
        _ => false,
    }
}

/// The scope stack owned by a symbol-carrying node.
pub open spec fn ctrl_symbols(c: Ctrl) -> Seq<Seq<(Seq<char>, int)>> {
    match c {
        Ctrl::Start { symbols, .. } => symbols@,
        Ctrl::Then { symbols, .. } => symbols@,
        Ctrl::Else { symbols, .. } => symbols@,
        Ctrl::Merge { symbols, .. } => symbols@,
        _ => Seq::empty(),
    }
}

/// The two nodes agree on everything but the owned scope stack.
pub open spec fn same_but_symbols(a: Ctrl, b: Ctrl) -> bool {
    match (a, b) {
        (Ctrl::Start { arg_ids: a1, .. }, Ctrl::Start { arg_ids: a2, .. }) => a1 == a2,
        (Ctrl::Then { ctrl_id: c1, .. }, Ctrl::Then { ctrl_id: c2, .. }) => c1 == c2,
        (Ctrl::Else { ctrl_id: c1, .. }, Ctrl::Else { ctrl_id: c2, .. }) => c1 == c2,
        (Ctrl::Merge { ctrl_ids: c1, .. }, Ctrl::Merge { ctrl_ids: c2, .. }) => c1 == c2,
        _ => false,
    }
}

/// Well-formedness of one control slot against the first `nexprs`
/// slots of the expression arena: control edges point strictly below
/// the node, expression edges and symbol bindings point into the
/// expression arena.
pub open spec fn ctrl_wf_at(nodes: Seq<Ctrl>, i: int, nexprs: int) -> bool {
    match nodes[i] {
        Ctrl::Start { arg_ids, symbols } => (forall|k: int|
            0 <= k < arg_ids@.len() ==> 0 <= (#[trigger] arg_ids@[k])@ < nexprs) && symbols_ok(
            symbols@,
            nexprs,
        ),
        Ctrl::Return { ctrl_id, expr_id } => 0 <= ctrl_id@ < i && 0 <= expr_id@ < nexprs,
        Ctrl::Stop { ctrl_ids } => forall|k: int|
            0 <= k < ctrl_ids@.len() ==> 0 <= (#[trigger] ctrl_ids@[k])@ < i,
        Ctrl::If { ctrl_id, expr_id, then_id, else_id } => 0 <= ctrl_id@ < i && 0 <= expr_id@
            < nexprs && 0 <= then_id@ < i && (else_id matches Some(e) ==> 0 <= e@ < i),
        Ctrl::Then { ctrl_id, symbols } => 0 <= ctrl_id@ < i && symbols_ok(symbols@, nexprs),
        Ctrl::Else { ctrl_id, symbols } => 0 <= ctrl_id@ < i && symbols_ok(symbols@, nexprs),
        Ctrl::Merge { ctrl_ids, symbols } => (forall|k: int|
            0 <= k < ctrl_ids@.len() ==> 0 <= (#[trigger] ctrl_ids@[k])@ < i) && symbols_ok(
            symbols@,
            nexprs,
        ),
    }
}

/// Well-formedness of the whole control arena against an expression
/// arena of length `nexprs`.
pub open spec fn ctrls_wf(nodes: Seq<Ctrl>, nexprs: int) -> bool {
    forall|i: int| 0 <= i < nodes.len() ==> #[trigger] ctrl_wf_at(nodes, i, nexprs)
}

/// A well-formed control arena stays well-formed while the expression
/// arena grows.
pub proof fn lemma_ctrls_wf_grow(nodes: Seq<Ctrl>, n1: int, n2: int)
    requires
        ctrls_wf(nodes, n1),
        n1 <= n2,
    ensures
        ctrls_wf(nodes, n2),
{
    assert forall|i: int| 0 <= i < nodes.len() implies ctrl_wf_at(nodes, i, n2) by {
        assert(ctrl_wf_at(nodes, i, n1));
        match nodes[i] {
            Ctrl::Start { symbols, .. } => {
                crate::symbols::lemma_symbols_ok_grow(symbols@, n1, n2);
            },
            Ctrl::Then { symbols, .. } => {
                crate::symbols::lemma_symbols_ok_grow(symbols@, n1, n2);
            },
            Ctrl::Else { symbols, .. } => {
                crate::symbols::lemma_symbols_ok_grow(symbols@, n1, n2);
            },
            Ctrl::Merge { symbols, .. } => {
                crate::symbols::lemma_symbols_ok_grow(symbols@, n1, n2);
            },
            _ => {},
        }
    }
}

/// Appending a control node whose own slot is well-formed keeps the
/// arena well-formed.
pub proof fn lemma_ctrls_wf_push(nodes: Seq<Ctrl>, c: Ctrl, nexprs: int)
    requires
        ctrls_wf(nodes, nexprs),
        ctrl_wf_at(nodes.push(c), nodes.len() as int, nexprs),
    ensures
        ctrls_wf(nodes.push(c), nexprs),
{
    let grown = nodes.push(c);
    assert forall|i: int| 0 <= i < grown.len() implies ctrl_wf_at(grown, i, nexprs) by {
        if i < nodes.len() {
            assert(grown[i] == nodes[i]);
            assert(ctrl_wf_at(nodes, i, nexprs));
        }
    }
}

/// Replacing one slot with a node whose own slot is well-formed keeps
/// the arena well-formed.
pub proof fn lemma_ctrls_wf_update(nodes: Seq<Ctrl>, i: int, c: Ctrl, nexprs: int)
    requires
        ctrls_wf(nodes, nexprs),
        0 <= i < nodes.len(),
        ctrl_wf_at(nodes.update(i, c), i, nexprs),
    ensures
        ctrls_wf(nodes.update(i, c), nexprs),
{
    let changed = nodes.update(i, c);
    assert forall|k: int| 0 <= k < changed.len() implies ctrl_wf_at(changed, k, nexprs) by {
        if k != i {
            assert(changed[k] == nodes[k]);
            assert(ctrl_wf_at(nodes, k, nexprs));
        }
    }
}

impl Arena<Ctrl> {
    /// Allocates the function entry node with an empty scope stack.
    pub fn start(&mut self) -> (id: Id<Ctrl>)
        ensures
            final(self)@.len() == old(self)@.len() + 1,
            id@ == old(self)@.len(),
            forall|k: int| 0 <= k < old(self)@.len() ==> final(self)@[k] == old(self)@[k],
            final(self)@[id@] is Start,
            ctrl_symbols(final(self)@[id@]) == Seq::<Seq<(Seq<char>, int)>>::empty(),
            forall|ne: int| ctrls_wf(old(self)@, ne) ==> #[trigger] ctrls_wf(final(self)@, ne),
    {
        let node = Ctrl::Start { arg_ids: Vec::new(), symbols: Symbols::new() };
        let ghost snapshot = self@;
        let id = self.allocate(node);
        proof {
            assert forall|ne: int| ctrls_wf(snapshot, ne) implies #[trigger] ctrls_wf(
                final(self)@,
                ne,
            ) by {
                lemma_ctrls_wf_push(snapshot, node, ne);
            }
        }
        id
    }

    /// Borrows the scope stack owned by the node at `id`.
    pub fn symbols(&self, id: Id<Ctrl>) -> (r: &Symbols)
        requires
            id@ < self@.len(),
            has_symbols(self@[id@]),
        ensures
            r@ == ctrl_symbols(self@[id@]),
    {
        match self.get(&id) {
            Ctrl::Start { symbols, .. } => symbols,
            Ctrl::Then { symbols, .. } => symbols,
            Ctrl::Else { symbols, .. } => symbols,
            Ctrl::Merge { symbols, .. } => symbols,
            _ => {
                proof {
                    assert(false);
                }
                vstd::pervasive::unreached()
            },
        }
    }

    /// Mutably borrows the scope stack owned by the node at `id`.
    fn symbols_mut(&mut self, id: Id<Ctrl>) -> (r: &mut Symbols)
        requires
            id@ < old(self)@.len(),
            has_symbols(old(self)@[id@]),
        ensures
            (*r)@ == ctrl_symbols(old(self)@[id@]),
            final(self)@.len() == old(self)@.len(),
            forall|k: int|
                0 <= k < old(self)@.len() && k != id@ ==> final(self)@[k] == old(self)@[k],
            same_but_symbols(old(self)@[id@], final(self)@[id@]),
            has_symbols(final(self)@[id@]),
            ctrl_symbols(final(self)@[id@]) == final(r)@,
    {
        let node = self.get_mut(&id);
        match node {
            Ctrl::Start { symbols, .. } => symbols,
            Ctrl::Then { symbols, .. } => symbols,
            Ctrl::Else { symbols, .. } => symbols,
            Ctrl::Merge { symbols, .. } => symbols,
            _ => {
                proof {
                    assert(false);
                }
                vstd::pervasive::unreached()
            },
        }
    }

    /// Opens a fresh scope on the stack owned by the node at `id`.
    pub fn push_scope(&mut self, id: Id<Ctrl>)
        requires
            id@ < old(self)@.len(),
            has_symbols(old(self)@[id@]),
        ensures
            final(self)@.len() == old(self)@.len(),
            forall|k: int|
                0 <= k < old(self)@.len() && k != id@ ==> final(self)@[k] == old(self)@[k],
            same_but_symbols(old(self)@[id@], final(self)@[id@]),
            has_symbols(final(self)@[id@]),
            ctrl_symbols(final(self)@[id@]) == ctrl_symbols(old(self)@[id@]).push(
                Seq::<(Seq<char>, int)>::empty(),
            ),
            forall|ne: int| ctrls_wf(old(self)@, ne) ==> #[trigger] ctrls_wf(final(self)@, ne),
    {
        let ghost snapshot = self@;
        let symbols = self.symbols_mut(id);
        symbols.push_scope();
        proof {
            assert forall|ne: int| ctrls_wf(snapshot, ne) implies #[trigger] ctrls_wf(
                self@,
                ne,
            ) by {
                assert(ctrl_wf_at(snapshot, id@, ne));
                crate::symbols::lemma_symbols_ok_push(ctrl_symbols(snapshot[id@]), ne);
                assert(self@ =~= snapshot.update(id@, self@[id@]));
                assert(ctrl_wf_at(snapshot.update(id@, self@[id@]), id@, ne));
                lemma_ctrls_wf_update(snapshot, id@, self@[id@], ne);
            }
        }
    }

    /// Closes the innermost scope of the stack owned by the node at
    /// `id`; a pop with no matching push is the error
    /// `ScopeUnderflow`.
    pub fn pop_scope(&mut self, id: Id<Ctrl>) -> (r: Result<(), BuildError>)
        requires
            id@ < old(self)@.len(),
            has_symbols(old(self)@[id@]),
        ensures
            final(self)@.len() == old(self)@.len(),
            forall|k: int|
                0 <= k < old(self)@.len() && k != id@ ==> final(self)@[k] == old(self)@[k],
            same_but_symbols(old(self)@[id@], final(self)@[id@]),
            has_symbols(final(self)@[id@]),
            ctrl_symbols(old(self)@[id@]).len() == 0 ==> r == Err::<(), BuildError>(
                BuildError::ScopeUnderflow,
            ) && ctrl_symbols(final(self)@[id@]) == ctrl_symbols(old(self)@[id@]),
            ctrl_symbols(old(self)@[id@]).len() > 0 ==> r == Ok::<(), BuildError>(())
                && ctrl_symbols(final(self)@[id@]) == ctrl_symbols(old(self)@[id@]).drop_last(),
            forall|ne: int| ctrls_wf(old(self)@, ne) ==> #[trigger] ctrls_wf(final(self)@, ne),
    {
        let ghost snapshot = self@;
        let symbols = self.symbols_mut(id);
        let r = symbols.pop_scope();
        proof {
            assert forall|ne: int| ctrls_wf(snapshot, ne) implies #[trigger] ctrls_wf(
                self@,
                ne,
            ) by {
                assert(ctrl_wf_at(snapshot, id@, ne));
                if ctrl_symbols(snapshot[id@]).len() > 0 {
                    crate::symbols::lemma_symbols_ok_pop(ctrl_symbols(snapshot[id@]), ne);
                }
                assert(self@ =~= snapshot.update(id@, self@[id@]));
                assert(ctrl_wf_at(snapshot.update(id@, self@[id@]), id@, ne));
                lemma_ctrls_wf_update(snapshot, id@, self@[id@], ne);
            }
        }
        r
    }

    /// Binds `name` in the innermost scope of the stack owned by the
    /// node at `id`.
    pub fn declare(&mut self, id: Id<Ctrl>, name: &String, expr_id: Id<Expr>)
        requires
            id@ < old(self)@.len(),
            has_symbols(old(self)@[id@]),
            ctrl_symbols(old(self)@[id@]).len() > 0,
        ensures
            final(self)@.len() == old(self)@.len(),
            forall|k: int|
                0 <= k < old(self)@.len() && k != id@ ==> final(self)@[k] == old(self)@[k],
            same_but_symbols(old(self)@[id@], final(self)@[id@]),
            has_symbols(final(self)@[id@]),
            ctrl_symbols(final(self)@[id@]) == spec_declare(
                ctrl_symbols(old(self)@[id@]),
                name@,
                expr_id@,
            ),
            forall|ne: int|
                ctrls_wf(old(self)@, ne) && expr_id@ < ne ==> #[trigger] ctrls_wf(
                    final(self)@,
                    ne,
                ),
    {
        let ghost snapshot = self@;
        let symbols = self.symbols_mut(id);
        symbols.declare(name, expr_id);
        proof {
            assert forall|ne: int| ctrls_wf(snapshot, ne) && expr_id@ < ne implies #[trigger] ctrls_wf(
                self@,
                ne,
            ) by {
                assert(ctrl_wf_at(snapshot, id@, ne));
                crate::symbols::lemma_symbols_ok_declare(
                    ctrl_symbols(snapshot[id@]),
                    name@,
                    expr_id@,
                    ne,
                );
                assert(self@ =~= snapshot.update(id@, self@[id@]));
                assert(ctrl_wf_at(snapshot.update(id@, self@[id@]), id@, ne));
                lemma_ctrls_wf_update(snapshot, id@, self@[id@], ne);
            }
        }
    }

    /// The nearest binding of `name` in the stack owned by the node at
    /// `id`, or `None` when no scope binds it.
    pub fn get_symbol(&self, id: Id<Ctrl>, name: &String) -> (r: Option<Id<Expr>>)
        requires
            id@ < self@.len(),
            has_symbols(self@[id@]),
        ensures
            match r {
                Some(eid) => lookup(ctrl_symbols(self@[id@]), name@) == Some(eid@),
                None => lookup(ctrl_symbols(self@[id@]), name@) is None,
            },
    {
        self.symbols(id).get(name)
    }

    /// Rebinds the nearest existing binding of `name` in the stack
    /// owned by the node at `id`; when no enclosing scope binds it,
    /// nothing changes and the error is `RebindWithoutDeclare`.
    pub fn set(&mut self, id: Id<Ctrl>, name: &String, expr_id: Id<Expr>) -> (r: Result<
        (),
        BuildError,
    >)
        requires
            id@ < old(self)@.len(),
            has_symbols(old(self)@[id@]),
        ensures
            final(self)@.len() == old(self)@.len(),
            forall|k: int|
                0 <= k < old(self)@.len() && k != id@ ==> final(self)@[k] == old(self)@[k],
            same_but_symbols(old(self)@[id@], final(self)@[id@]),
            has_symbols(final(self)@[id@]),
            match spec_set(ctrl_symbols(old(self)@[id@]), name@, expr_id@) {
                Some(v) => r == Ok::<(), BuildError>(()) && ctrl_symbols(final(self)@[id@]) == v,
                None => ctrl_symbols(final(self)@[id@]) == ctrl_symbols(old(self)@[id@]) && match r {
                    Err(BuildError::RebindWithoutDeclare(n)) => n@ == name@,
                    _ => false,
                },
            },
            forall|ne: int|
                ctrls_wf(old(self)@, ne) && expr_id@ < ne ==> #[trigger] ctrls_wf(
                    final(self)@,
                    ne,
                ),
    {
        let ghost snapshot = self@;
        let symbols = self.symbols_mut(id);
        let r = symbols.set(name, expr_id);
        proof {
            assert forall|ne: int| ctrls_wf(snapshot, ne) && expr_id@ < ne implies #[trigger] ctrls_wf(
                self@,
                ne,
            ) by {
                assert(ctrl_wf_at(snapshot, id@, ne));
                if spec_set(ctrl_symbols(snapshot[id@]), name@, expr_id@) is Some {
                    crate::symbols::lemma_symbols_ok_set(
                        ctrl_symbols(snapshot[id@]),
                        name@,
                        expr_id@,
                        ne,
                    );
                }
                assert(self@ =~= snapshot.update(id@, self@[id@]));
                assert(ctrl_wf_at(snapshot.update(id@, self@[id@]), id@, ne));
                lemma_ctrls_wf_update(snapshot, id@, self@[id@], ne);
            }
        }
        r
    }

    /// A deep copy of the scope stack owned by the node at `id`.
    fn clone_symbols(&self, id: Id<Ctrl>) -> (r: Symbols)
        requires
            id@ < self@.len(),
            has_symbols(self@[id@]),
        ensures
            r@ == ctrl_symbols(self@[id@]),
    {
        match self.get(&id) {
            Ctrl::Start { symbols, .. } => symbols.clone(),
            Ctrl::Then { symbols, .. } => symbols.clone(),
            Ctrl::Else { symbols, .. } => symbols.clone(),
            Ctrl::Merge { symbols, .. } => symbols.clone(),
            _ => {
                proof {
                    assert(false);
                }
                vstd::pervasive::unreached()
            },
        }
    }

    /// Allocates the entry of the taken branch arm, carrying a private
    /// copy of the bindings visible at the branch point.
    pub fn then_arm(&mut self, ctrl_id: Id<Ctrl>) -> (id: Id<Ctrl>)
        requires
            ctrl_id@ < old(self)@.len(),
            has_symbols(old(self)@[ctrl_id@]),
        ensures
            final(self)@.len() == old(self)@.len() + 1,
            id@ == old(self)@.len(),
            forall|k: int| 0 <= k < old(self)@.len() ==> final(self)@[k] == old(self)@[k],
            final(self)@[id@] matches Ctrl::Then { ctrl_id: c, symbols: s } && c == ctrl_id && s@
                == ctrl_symbols(old(self)@[ctrl_id@]),
            forall|ne: int| ctrls_wf(old(self)@, ne) ==> #[trigger] ctrls_wf(final(self)@, ne),
    {
        let symbols = self.clone_symbols(ctrl_id);
        let ghost snapshot = self@;
        let id = self.allocate(Ctrl::Then { ctrl_id, symbols });
        proof {
            assert forall|ne: int| ctrls_wf(snapshot, ne) implies #[trigger] ctrls_wf(
                self@,
                ne,
            ) by {
                assert(ctrl_wf_at(snapshot, ctrl_id@, ne));
                assert(ctrl_wf_at(self@, snapshot.len() as int, ne));
                lemma_ctrls_wf_push(snapshot, self@[snapshot.len() as int], ne);
            }
        }
        id
    }

    /// Allocates the entry of the not-taken branch arm, carrying a
    /// private copy of the bindings visible at the branch point.
    pub fn else_arm(&mut self, ctrl_id: Id<Ctrl>) -> (id: Id<Ctrl>)
        requires
            ctrl_id@ < old(self)@.len(),
            has_symbols(old(self)@[ctrl_id@]),
        ensures
            final(self)@.len() == old(self)@.len() + 1,
            id@ == old(self)@.len(),
            forall|k: int| 0 <= k < old(self)@.len() ==> final(self)@[k] == old(self)@[k],
            final(self)@[id@] matches Ctrl::Else { ctrl_id: c, symbols: s } && c == ctrl_id && s@
                == ctrl_symbols(old(self)@[ctrl_id@]),
            forall|ne: int| ctrls_wf(old(self)@, ne) ==> #[trigger] ctrls_wf(final(self)@, ne),
    {
        let symbols = self.clone_symbols(ctrl_id);
        let ghost snapshot = self@;
        let id = self.allocate(Ctrl::Else { ctrl_id, symbols });
        proof {
            assert forall|ne: int| ctrls_wf(snapshot, ne) implies #[trigger] ctrls_wf(
                self@,
                ne,
            ) by {
                assert(ctrl_wf_at(snapshot, ctrl_id@, ne));
                assert(ctrl_wf_at(self@, snapshot.len() as int, ne));
                lemma_ctrls_wf_push(snapshot, self@[snapshot.len() as int], ne);
            }
        }
        id
    }

    /// Allocates the conditional split over an already-built condition
    /// and its parsed arms.
    pub fn if_(
        &mut self,
        ctrl_id: Id<Ctrl>,
        expr_id: Id<Expr>,
        then_id: Id<Ctrl>,
        else_id: Option<Id<Ctrl>>,
    ) -> (id: Id<Ctrl>)
        requires
            ctrl_id@ < old(self)@.len(),
            then_id@ < old(self)@.len(),
            else_id matches Some(e) ==> e@ < old(self)@.len(),
        ensures
            final(self)@ == old(self)@.push(Ctrl::If { ctrl_id, expr_id, then_id, else_id }),
            id@ == old(self)@.len(),
            forall|ne: int|
                ctrls_wf(old(self)@, ne) && expr_id@ < ne ==> #[trigger] ctrls_wf(
                    final(self)@,
                    ne,
                ),
    {
        let ghost snapshot = self@;
        let node = Ctrl::If { ctrl_id, expr_id, then_id, else_id };
        let id = self.allocate(node);
        proof {
            assert forall|ne: int| ctrls_wf(snapshot, ne) && expr_id@ < ne implies #[trigger] ctrls_wf(
                self@,
                ne,
            ) by {
                lemma_ctrls_wf_push(snapshot, node, ne);
            }
        }
        id
    }

    /// Allocates one completed function exit path.
    pub fn ret(&mut self, ctrl_id: Id<Ctrl>, expr_id: Id<Expr>) -> (id: Id<Ctrl>)
        requires
            ctrl_id@ < old(self)@.len(),
        ensures
            final(self)@ == old(self)@.push(Ctrl::Return { ctrl_id, expr_id }),
            id@ == old(self)@.len(),
            forall|ne: int|
                ctrls_wf(old(self)@, ne) && expr_id@ < ne ==> #[trigger] ctrls_wf(
                    final(self)@,
                    ne,
                ),
    {
        let ghost snapshot = self@;
        let node = Ctrl::Return { ctrl_id, expr_id };
        let id = self.allocate(node);
        proof {
            assert forall|ne: int| ctrls_wf(snapshot, ne) && expr_id@ < ne implies #[trigger] ctrls_wf(
                self@,
                ne,
            ) by {
                lemma_ctrls_wf_push(snapshot, node, ne);
            }
        }
        id
    }

    /// Allocates the single program exit over all terminal paths.
    pub fn stop(&mut self, ctrl_ids: Vec<Id<Ctrl>>) -> (id: Id<Ctrl>)
        requires
            forall|k: int|
                0 <= k < ctrl_ids@.len() ==> (#[trigger] ctrl_ids@[k])@ < old(self)@.len(),
        ensures
            final(self)@.len() == old(self)@.len() + 1,
            id@ == old(self)@.len(),
            forall|k: int| 0 <= k < old(self)@.len() ==> final(self)@[k] == old(self)@[k],
            final(self)@[id@] matches Ctrl::Stop { ctrl_ids: c } && c@ == ctrl_ids@,
            forall|ne: int| ctrls_wf(old(self)@, ne) ==> #[trigger] ctrls_wf(final(self)@, ne),
    {
        let ghost snapshot = self@;
        let id = self.allocate(Ctrl::Stop { ctrl_ids });
        proof {
            assert forall|ne: int| ctrls_wf(snapshot, ne) implies #[trigger] ctrls_wf(
                self@,
                ne,
            ) by {
                assert(ctrl_wf_at(self@, snapshot.len() as int, ne));
                lemma_ctrls_wf_push(snapshot, self@[snapshot.len() as int], ne);
            }
        }
        id
    }

    /// Reconciles the two arms of a branch into one `Merge` node.
    ///
    /// The arms' scope stacks must have the same shape and the same
    /// names at every position, which balanced arm bodies guarantee:
    /// an arm only rebinds existing names, and its own declarations
    /// live in scopes it has already popped.  Every name the two arms
    /// bind to the same node keeps that binding; every name they bind
    /// differently is bound to the folded `Phi` of the two bindings,
    /// so scope lookups after the branch see the join of the arms.
    pub fn merge(&mut self, exprs: &mut Arena<Expr>, then_id: Id<Ctrl>, else_id: Id<Ctrl>) -> (res:
        Result<Id<Ctrl>, BuildError>)
        requires
            ctrls_wf(old(self)@, old(exprs)@.len() as int),
            exprs_wf(old(exprs)@),
            then_id@ < old(self)@.len(),
            else_id@ < old(self)@.len(),
            has_symbols(old(self)@[then_id@]),
            has_symbols(old(self)@[else_id@]),
            ctrl_symbols(old(self)@[then_id@]).len() == ctrl_symbols(old(self)@[else_id@]).len(),
            forall|i: int|
                0 <= i < ctrl_symbols(old(self)@[then_id@]).len() ==> (#[trigger] ctrl_symbols(
                    old(self)@[then_id@],
                )[i]).len() == ctrl_symbols(old(self)@[else_id@])[i].len(),
            forall|i: int, k: int|
                0 <= i < ctrl_symbols(old(self)@[then_id@]).len() && 0 <= k < ctrl_symbols(
                    old(self)@[then_id@],
                )[i].len() ==> (#[trigger] ctrl_symbols(old(self)@[then_id@])[i][k]).0
                    == ctrl_symbols(old(self)@[else_id@])[i][k].0,
        ensures
            exprs_wf(final(exprs)@),
            old(exprs)@.len() <= final(exprs)@.len(),
            forall|k: int| 0 <= k < old(exprs)@.len() ==> final(exprs)@[k] == old(exprs)@[k],
            final(self)@.len() == old(self)@.len() + 1,
            forall|k: int| 0 <= k < old(self)@.len() ==> final(self)@[k] == old(self)@[k],
            ctrls_wf(final(self)@, final(exprs)@.len() as int),
            res matches Ok(rid) ==> ({
                let ts = ctrl_symbols(old(self)@[then_id@]);
                let es = ctrl_symbols(old(self)@[else_id@]);
                let ms = ctrl_symbols(final(self)@[rid@]);
                &&& rid@ == old(self)@.len()
                &&& final(self)@[rid@] matches Ctrl::Merge { ctrl_ids: c, .. } && c@.len() == 2
                    && c@[0] == then_id && c@[1] == else_id
                &&& has_symbols(final(self)@[rid@])
                &&& ms.len() == ts.len()
                &&& (forall|i: int| 0 <= i < ts.len() ==> (#[trigger] ms[i]).len() == ts[i].len())
                &&& (forall|i: int, k: int|
                    0 <= i < ts.len() && 0 <= k < ts[i].len() ==> (#[trigger] ms[i][k]).0
                        == ts[i][k].0)
                &&& (forall|i: int, k: int|
                    0 <= i < ts.len() && 0 <= k < ts[i].len() && ts[i][k].1 == es[i][k].1 ==> (
                    #[trigger] ms[i][k]).1 == ts[i][k].1)
                &&& (forall|i: int, k: int|
                    0 <= i < ts.len() && 0 <= k < ts[i].len() && ts[i][k].1 != es[i][k].1
                        ==> crate::expr::merged_binding_ok(
                        final(exprs)@,
                        (#[trigger] ms[i][k]).1,
                        ts[i][k].1,
                        es[i][k].1,
                    ))
            }),
            res matches Err(err) ==> ({
                let ts = ctrl_symbols(old(self)@[then_id@]);
                let es = ctrl_symbols(old(self)@[else_id@]);
                exists|i: int, k: int|
                    0 <= i < ts.len() && 0 <= k < ts[i].len() && ts[i][k].1 != es[i][k].1
                        && #[trigger] crate::expr::phi_join_error(
                        old(exprs)@,
                        ts[i][k].1,
                        es[i][k].1,
                    ) == Some(err)
            }),
            res matches Err(err) ==> crate::errors::eval_error(err),
    {
        let ghost ts = ctrl_symbols(old(self)@[then_id@]);
        let ghost es = ctrl_symbols(old(self)@[else_id@]);
        let ghost exprs0 = exprs@;
        let ghost ctrls0 = self@;
        let mut ctrl_ids: Vec<Id<Ctrl>> = Vec::new();
        ctrl_ids.push(then_id);
        ctrl_ids.push(else_id);
        let merge_id = self.allocate(Ctrl::Merge { ctrl_ids, symbols: Symbols::new() });
        proof {
            assert(ctrl_wf_at(self@, ctrls0.len() as int, exprs0.len() as int));
            lemma_ctrls_wf_push(ctrls0, self@[ctrls0.len() as int], exprs0.len() as int);
            assert(ctrl_wf_at(ctrls0, then_id@, exprs0.len() as int));
            assert(ctrl_wf_at(ctrls0, else_id@, exprs0.len() as int));
        }
        let mut merged = Symbols::new();
        let nscopes = self.symbols(then_id).scope_count();
        let mut i: usize = 0;
        while i < nscopes
            invariant
                exprs0 == old(exprs)@,
                exprs_wf(exprs0),
                ctrls0 == old(self)@,
                nscopes == ts.len(),
                i <= nscopes,
                then_id@ < ctrls0.len(),
                else_id@ < ctrls0.len(),
                merge_id@ == ctrls0.len(),
                self@.len() == ctrls0.len() + 1,
                forall|k: int| 0 <= k < ctrls0.len() ==> self@[k] == ctrls0[k],
                self@[merge_id@] matches Ctrl::Merge { ctrl_ids: c, .. } && c@.len() == 2 && c@[0]
                    == then_id && c@[1] == else_id,
                has_symbols(self@[merge_id@]),
                ts == ctrl_symbols(ctrls0[then_id@]),
                es == ctrl_symbols(ctrls0[else_id@]),
                has_symbols(ctrls0[then_id@]),
                has_symbols(ctrls0[else_id@]),
                symbols_ok(ts, exprs0.len() as int),
                symbols_ok(es, exprs0.len() as int),
                es.len() == ts.len(),
                forall|i2: int| 0 <= i2 < ts.len() ==> (#[trigger] ts[i2]).len() == es[i2].len(),
                exprs_wf(exprs@),
                exprs0.len() <= exprs@.len(),
                forall|k: int| 0 <= k < exprs0.len() ==> exprs@[k] == exprs0[k],
                ctrls_wf(self@, exprs@.len() as int),
                merged@.len() == i,
                forall|i2: int| 0 <= i2 < i ==> (#[trigger] merged@[i2]).len() == ts[i2].len(),
                forall|i2: int, k2: int|
                    0 <= i2 < i && 0 <= k2 < ts[i2].len() ==> (#[trigger] merged@[i2][k2]).0
                        == ts[i2][k2].0,
                forall|i2: int, k2: int|
                    0 <= i2 < i && 0 <= k2 < ts[i2].len() && ts[i2][k2].1 == es[i2][k2].1 ==> (
                    #[trigger] merged@[i2][k2]).1 == ts[i2][k2].1,
                forall|i2: int, k2: int|
                    0 <= i2 < i && 0 <= k2 < ts[i2].len() && ts[i2][k2].1 != es[i2][k2].1
                        ==> crate::expr::merged_binding_ok(
                        exprs@,
                        (#[trigger] merged@[i2][k2]).1,
                        ts[i2][k2].1,
                        es[i2][k2].1,
                    ),
                symbols_ok(merged@, exprs@.len() as int),
            decreases nscopes - i,
        {
            merged.push_scope();
            let nbind = self.symbols(then_id).scope_len(i);
            let mut k: usize = 0;
            while k < nbind
                invariant
                    exprs0 == old(exprs)@,
                    exprs_wf(exprs0),
                    ctrls0 == old(self)@,
                    nscopes == ts.len(),
                    i < nscopes,
                    nbind == ts[i as int].len(),
                    k <= nbind,
                    then_id@ < ctrls0.len(),
                    else_id@ < ctrls0.len(),
                    merge_id@ == ctrls0.len(),
                    self@.len() == ctrls0.len() + 1,
                    forall|k2: int| 0 <= k2 < ctrls0.len() ==> self@[k2] == ctrls0[k2],
                    self@[merge_id@] matches Ctrl::Merge { ctrl_ids: c, .. } && c@.len() == 2
                        && c@[0] == then_id && c@[1] == else_id,
                    has_symbols(self@[merge_id@]),
                    ts == ctrl_symbols(ctrls0[then_id@]),
                    es == ctrl_symbols(ctrls0[else_id@]),
                    has_symbols(ctrls0[then_id@]),
                    has_symbols(ctrls0[else_id@]),
                    symbols_ok(ts, exprs0.len() as int),
                    symbols_ok(es, exprs0.len() as int),
                    es.len() == ts.len(),
                    forall|i2: int|
                        0 <= i2 < ts.len() ==> (#[trigger] ts[i2]).len() == es[i2].len(),
                    exprs_wf(exprs@),
                    exprs0.len() <= exprs@.len(),
                    forall|k2: int| 0 <= k2 < exprs0.len() ==> exprs@[k2] == exprs0[k2],
                    ctrls_wf(self@, exprs@.len() as int),
                    merged@.len() == i + 1,
                    merged@[i as int].len() == k,
                    forall|i2: int| 0 <= i2 < i ==> (#[trigger] merged@[i2]).len() == ts[i2].len(),
                    forall|i2: int, k2: int|
                        0 <= i2 < i + 1 && 0 <= k2 < merged@[i2].len() ==> (
                        #[trigger] merged@[i2][k2]).0 == ts[i2][k2].0,
                    forall|i2: int, k2: int|
                        0 <= i2 < i + 1 && 0 <= k2 < merged@[i2].len() && ts[i2][k2].1
                            == es[i2][k2].1 ==> (#[trigger] merged@[i2][k2]).1 == ts[i2][k2].1,
                    forall|i2: int, k2: int|
                        0 <= i2 < i + 1 && 0 <= k2 < merged@[i2].len() && ts[i2][k2].1
                            != es[i2][k2].1 ==> crate::expr::merged_binding_ok(
                            exprs@,
                            (#[trigger] merged@[i2][k2]).1,
                            ts[i2][k2].1,
                            es[i2][k2].1,
                        ),
                    symbols_ok(merged@, exprs@.len() as int),
                decreases nbind - k,
            {
                let name = self.symbols(then_id).binding_at(i, k).0.clone();
                let tid = self.symbols(then_id).binding_at(i, k).1;
                let eid = self.symbols(else_id).binding_at(i, k).1;
                proof {
                    assert(ts[i as int][k as int].1 == tid@);
                    assert(es[i as int][k as int].1 == eid@);
                    assert(0 <= ts[i as int][k as int].1 < exprs0.len());
                    assert(0 <= es[i as int][k as int].1 < exprs0.len());
                }
                let bound: Id<Expr>;
                if tid == eid {
                    bound = tid;
                } else {
                    let ghost pre = exprs@;
                    let mut operands: Vec<Id<Expr>> = Vec::new();
                    operands.push(tid);
                    operands.push(eid);
                    match exprs.phi(merge_id, operands) {
                        Ok(b) => {
                            bound = b;
                            proof {
                                crate::ctrl::lemma_ctrls_wf_grow(
                                    self@,
                                    pre.len() as int,
                                    exprs@.len() as int,
                                );
                                assert forall|i2: int, k2: int|
                                    0 <= i2 < i + 1 && 0 <= k2 < merged@[i2].len() && ts[i2][k2].1
                                        != es[i2][k2].1 implies crate::expr::merged_binding_ok(
                                    exprs@,
                                    (#[trigger] merged@[i2][k2]).1,
                                    ts[i2][k2].1,
                                    es[i2][k2].1,
                                ) by {
                                    crate::expr::lemma_merged_binding_ok_grow(
                                        pre,
                                        exprs@,
                                        merged@[i2][k2].1,
                                        ts[i2][k2].1,
                                        es[i2][k2].1,
                                    );
                                }
                            }
                        },
                        Err(err) => {
                            proof {
                                crate::ctrl::lemma_ctrls_wf_grow(
                                    self@,
                                    pre.len() as int,
                                    exprs@.len() as int,
                                );
                                assert forall|k2: int| 0 <= k2 < exprs0.len() implies exprs@[k2]
                                    == exprs0[k2] by {
                                    assert(exprs@[k2] == pre[k2]);
                                }
                                let pid = pre.len() as int;
                                match crate::expr::value_of(exprs@, pid) {
                                    Ok(v) => {
                                        assert(crate::expr::fold_step(exprs@, pid) is Ok);
                                        assert(false);
                                    },
                                    Err(e0) => {
                                        assert(e0 == err);
                                    },
                                }
                                crate::expr::lemma_value_of_error_kind(exprs@, pid);
                                crate::expr::lemma_phi_fold_error(
                                    exprs0,
                                    exprs@,
                                    pid,
                                    ts[i as int][k as int].1,
                                    es[i as int][k as int].1,
                                    err,
                                );
                                assert(0 <= i < ts.len() && 0 <= k < ts[i as int].len()
                                    && ts[i as int][k as int].1 != es[i as int][k as int].1
                                    && crate::expr::phi_join_error(
                                    exprs0,
                                    ts[i as int][k as int].1,
                                    es[i as int][k as int].1,
                                ) == Some(err));
                            }
                            return Err(err);
                        },
                    }
                }
                merged.declare(&name, bound);
                k = k + 1;
            }
            i = i + 1;
        }
        let ghost pre_update = self@;
        let slot = self.symbols_mut(merge_id);
        *slot = merged;
        proof {
            assert(self@ =~= pre_update.update(merge_id@, self@[merge_id@]));
            assert(ctrl_wf_at(
                pre_update.update(merge_id@, self@[merge_id@]),
                merge_id@,
                exprs@.len() as int,
            ));
            lemma_ctrls_wf_update(pre_update, merge_id@, self@[merge_id@], exprs@.len() as int);
        }
        Ok(merge_id)
    }
}

} // verus!
