//! The symbol table: a stack of name-to-node scopes with lexical
//! shadowing.
//!
//! The view of a table is a sequence of scopes, each a sequence of
//! `(name, node)` bindings in declaration order.  Lookup walks the
//! scopes innermost to outermost and, within a scope, the bindings
//! newest to oldest, so a redeclaration shadows an older binding of the
//! same name.

use vstd::prelude::*;

use crate::arena::Id;
use crate::errors::BuildError;
use crate::expr::Expr;

verus! {

/// The bindings of one scope, as a spec-level association list.
pub open spec fn scope_view(s: Seq<(String, Id<Expr>)>) -> Seq<(Seq<char>, int)> {
    s.map_values(|b: (String, Id<Expr>)| (b.0@, b.1@))
}

/// The scope stack, innermost scope last.
pub open spec fn scopes_view(ss: Seq<Vec<(String, Id<Expr>)>>) -> Seq<Seq<(Seq<char>, int)>> {
    ss.map_values(|v: Vec<(String, Id<Expr>)>| scope_view(v@))
}

/// The binding of `name` in one scope, newest first.
pub open spec fn find_in_scope(s: Seq<(Seq<char>, int)>, name: Seq<char>) -> Option<int>
    decreases s.len(),
{
    if s.len() == 0 {
        None
    } else if s.last().0 == name {
        Some(s.last().1)
    } else {
        find_in_scope(s.drop_last(), name)
    }
}

/// The nearest binding of `name`, walking the scopes innermost to
/// outermost.
pub open spec fn lookup(ss: Seq<Seq<(Seq<char>, int)>>, name: Seq<char>) -> Option<int>
    decreases ss.len(),
{
    if ss.len() == 0 {
        None
    } else {
        match find_in_scope(ss.last(), name) {
            Some(i) => Some(i),
            None => lookup(ss.drop_last(), name),
        }
    }
}

/// Declaring appends a binding to the innermost scope, shadowing any
/// older binding of the same name for the rest of that scope's life.
pub open spec fn spec_declare(
    ss: Seq<Seq<(Seq<char>, int)>>,
    name: Seq<char>,
    id: int,
) -> Seq<Seq<(Seq<char>, int)>>
    recommends
        ss.len() > 0,
{
    ss.update(ss.len() - 1, ss.last().push((name, id)))
}

/// Rebinding within one scope: the newest binding of `name` is
/// replaced, or `None` when the scope does not bind `name`.
pub open spec fn set_in_scope(
    s: Seq<(Seq<char>, int)>,
    name: Seq<char>,
    id: int,
) -> Option<Seq<(Seq<char>, int)>>
    decreases s.len(),
{
    if s.len() == 0 {
        None
    } else if s.last().0 == name {
        Some(s.update(s.len() - 1, (name, id)))
    } else {
        match set_in_scope(s.drop_last(), name, id) {
            Some(t) => Some(t.push(s.last())),
            None => None,
        }
    }
}

/// Rebinding across the stack: the nearest scope that binds `name` is
/// updated, or `None` when no scope binds it.
pub open spec fn spec_set(
    ss: Seq<Seq<(Seq<char>, int)>>,
    name: Seq<char>,
    id: int,
) -> Option<Seq<Seq<(Seq<char>, int)>>>
    decreases ss.len(),
{
    if ss.len() == 0 {
        None
    } else {
        match set_in_scope(ss.last(), name, id) {
            Some(t) => Some(ss.update(ss.len() - 1, t)),
            None => match spec_set(ss.drop_last(), name, id) {
                Some(rest) => Some(rest.push(ss.last())),
                None => None,
            },
        }
    }
}

/// `find_in_scope` finds the newest matching entry: the entry at `j`,
/// when nothing after `j` matches.
proof fn lemma_find_in_scope_at(s: Seq<(Seq<char>, int)>, name: Seq<char>, j: int)
    requires
        0 <= j < s.len(),
        s[j].0 == name,
        forall|k: int| j < k < s.len() ==> s[k].0 != name,
    ensures
        find_in_scope(s, name) == Some(s[j].1),
    decreases s.len(),
{
    if j == s.len() - 1 {
    } else {
        assert(s.last().0 != name);
        lemma_find_in_scope_at(s.drop_last(), name, j);
    }
}

/// `find_in_scope` finds nothing when no entry matches.
proof fn lemma_find_in_scope_none(s: Seq<(Seq<char>, int)>, name: Seq<char>)
    requires
        forall|k: int| 0 <= k < s.len() ==> s[k].0 != name,
    ensures
        find_in_scope(s, name) is None,
    decreases s.len(),
{
    if s.len() > 0 {
        lemma_find_in_scope_none(s.drop_last(), name);
    }
}

/// `lookup` answers from the innermost scope that binds the name: the
/// scope at `idx`, when no scope above it binds it.
proof fn lemma_lookup_at(ss: Seq<Seq<(Seq<char>, int)>>, name: Seq<char>, idx: int)
    requires
        0 <= idx < ss.len(),
        find_in_scope(ss[idx], name) is Some,
        forall|k: int| idx < k < ss.len() ==> find_in_scope(#[trigger] ss[k], name) is None,
    ensures
        lookup(ss, name) == find_in_scope(ss[idx], name),
    decreases ss.len(),
{
    if idx == ss.len() - 1 {
    } else {
        assert(find_in_scope(ss.last(), name) is None);
        lemma_lookup_at(ss.drop_last(), name, idx);
    }
}

/// `lookup` finds nothing when no scope binds the name.
proof fn lemma_lookup_none(ss: Seq<Seq<(Seq<char>, int)>>, name: Seq<char>)
    requires
        forall|k: int| 0 <= k < ss.len() ==> find_in_scope(#[trigger] ss[k], name) is None,
    ensures
        lookup(ss, name) is None,
    decreases ss.len(),
{
    if ss.len() > 0 {
        lemma_lookup_none(ss.drop_last(), name);
    }
}

/// A scope rebinds a name exactly when it finds it.
proof fn lemma_set_none_iff_find_none(s: Seq<(Seq<char>, int)>, name: Seq<char>, id: int)
    ensures
        (set_in_scope(s, name, id) is None) <==> (find_in_scope(s, name) is None),
    decreases s.len(),
{
    if s.len() > 0 && s.last().0 != name {
        lemma_set_none_iff_find_none(s.drop_last(), name, id);
    }
}

/// `set_in_scope` replaces the newest matching entry: the entry at
/// `j`, when nothing after `j` matches.
proof fn lemma_set_in_scope_at(s: Seq<(Seq<char>, int)>, name: Seq<char>, id: int, j: int)
    requires
        0 <= j < s.len(),
        s[j].0 == name,
        forall|k: int| j < k < s.len() ==> s[k].0 != name,
    ensures
        set_in_scope(s, name, id) == Some(s.update(j, (name, id))),
    decreases s.len(),
{
    if j == s.len() - 1 {
        assert(s.update(s.len() - 1, (name, id)) =~= s.update(j, (name, id)));
    } else {
        assert(s.last().0 != name);
        lemma_set_in_scope_at(s.drop_last(), name, id, j);
        assert(set_in_scope(s.drop_last(), name, id).unwrap().push(s.last()) =~= s.update(
            j,
            (name, id),
        ));
    }
}

/// `spec_set` rebinds within the innermost scope that binds the name:
/// the scope at `idx`, when no scope above it binds it.
proof fn lemma_spec_set_at(ss: Seq<Seq<(Seq<char>, int)>>, name: Seq<char>, id: int, idx: int)
    requires
        0 <= idx < ss.len(),
        set_in_scope(ss[idx], name, id) is Some,
        forall|k: int| idx < k < ss.len() ==> find_in_scope(#[trigger] ss[k], name) is None,
    ensures
        spec_set(ss, name, id) == Some(
            ss.update(idx, set_in_scope(ss[idx], name, id).unwrap()),
        ),
    decreases ss.len(),
{
    if idx == ss.len() - 1 {
    } else {
        assert(find_in_scope(ss.last(), name) is None);
        lemma_set_none_iff_find_none(ss.last(), name, id);
        lemma_spec_set_at(ss.drop_last(), name, id, idx);
        assert(spec_set(ss.drop_last(), name, id).unwrap().push(ss.last()) =~= ss.update(
            idx,
            set_in_scope(ss[idx], name, id).unwrap(),
        ));
    }
}

/// `spec_set` fails when no scope binds the name.
proof fn lemma_spec_set_none(ss: Seq<Seq<(Seq<char>, int)>>, name: Seq<char>, id: int)
    requires
        forall|k: int| 0 <= k < ss.len() ==> find_in_scope(#[trigger] ss[k], name) is None,
    ensures
        spec_set(ss, name, id) is None,
    decreases ss.len(),
{
    if ss.len() > 0 {
        lemma_set_none_iff_find_none(ss.last(), name, id);
        lemma_spec_set_none(ss.drop_last(), name, id);
    }
}

/// The newest entry of one scope that binds `name`, as an index, or
/// `None` when the scope does not bind it.
fn find_entry(scope: &Vec<(String, Id<Expr>)>, name: &String) -> (r: Option<usize>)
    ensures
        match r {
            Some(j) => j < scope@.len() && scope@[j as int].0@ == name@ && (forall|k: int|
                j < k < scope@.len() ==> (#[trigger] scope@[k]).0@ != name@),
            None => forall|k: int| 0 <= k < scope@.len() ==> (#[trigger] scope@[k]).0@ != name@,
        },
{
    let mut j: usize = scope.len();
    while j > 0
        invariant
            j <= scope@.len(),
            forall|k: int| j <= k < scope@.len() ==> (#[trigger] scope@[k]).0@ != name@,
        decreases j,
    {
        let jj = j - 1;
        if scope[jj].0 == *name {
            return Some(jj);
        }
        j = jj;
    }
    None
}

/// A stack of name-to-expression-identifier scopes.
#[derive(Debug)]
pub struct Symbols {
    symbolses: Vec<Vec<(String, Id<Expr>)>>,
}

impl View for Symbols {
    type V = Seq<Seq<(Seq<char>, int)>>;

    closed spec fn view(&self) -> Seq<Seq<(Seq<char>, int)>> {
        scopes_view(self.symbolses@)
    }
}

impl Symbols {
    pub fn new() -> (r: Self)
        ensures
            r@ == Seq::<Seq<(Seq<char>, int)>>::empty(),
    {
        let r = Symbols { symbolses: Vec::new() };
        proof {
            assert(r@ =~= Seq::<Seq<(Seq<char>, int)>>::empty());
        }
        r
    }

    /// Opens a fresh, empty innermost scope.
    pub fn push_scope(&mut self)
        ensures
            final(self)@ == old(self)@.push(Seq::<(Seq<char>, int)>::empty()),
    {
        self.symbolses.push(Vec::new());
        proof {
            assert(self@ =~~= old(self)@.push(Seq::<(Seq<char>, int)>::empty()));
        }
    }

    /// Closes the innermost scope, dropping its bindings; a pop with no
    /// matching push is the error `ScopeUnderflow`.
    pub fn pop_scope(&mut self) -> (r: Result<(), BuildError>)
        ensures
            old(self)@.len() == 0 ==> r == Err::<(), BuildError>(BuildError::ScopeUnderflow)
                && final(self)@ == old(self)@,
            old(self)@.len() > 0 ==> r == Ok::<(), BuildError>(()) && final(self)@ == old(
                self,
            )@.drop_last(),
    {
        if self.symbolses.len() == 0 {
            return Err(BuildError::ScopeUnderflow);
        }
        let _ = self.symbolses.pop();
        proof {
            assert(self@ =~~= old(self)@.drop_last());
        }
        Ok(())
    }

    /// Binds `name` in the innermost scope, shadowing any outer
    /// binding of the same name.
    pub fn declare(&mut self, name: &String, expr_id: Id<Expr>)
        requires
            old(self)@.len() > 0,
        ensures
            final(self)@ == spec_declare(old(self)@, name@, expr_id@),
    {
        let n = self.symbolses.len();
        let scope = &mut self.symbolses[n - 1];
        scope.push((name.clone(), expr_id));
        proof {
            assert(self@ =~~= spec_declare(old(self)@, name@, expr_id@));
        }
    }

    /// The nearest binding of `name`, or `None` when no scope binds
    /// it.
    pub fn get(&self, name: &String) -> (r: Option<Id<Expr>>)
        ensures
            match r {
                Some(id) => lookup(self@, name@) == Some(id@),
                None => lookup(self@, name@) is None,
            },
    {
        let mut i: usize = self.symbolses.len();
        while i > 0
            invariant
                i <= self.symbolses@.len(),
                forall|k: int|
                    i <= k < self@.len() ==> find_in_scope(#[trigger] self@[k], name@) is None,
            decreases i,
        {
            let ii = i - 1;
            match find_entry(&self.symbolses[ii], name) {
                Some(j) => {
                    let id = self.symbolses[ii][j].1;
                    proof {
                        lemma_find_in_scope_at(self@[ii as int], name@, j as int);
                        lemma_lookup_at(self@, name@, ii as int);
                    }
                    return Some(id);
                },
                None => {
                    proof {
                        lemma_find_in_scope_none(self@[ii as int], name@);
                    }
                    i = ii;
                },
            }
        }
        proof {
            lemma_lookup_none(self@, name@);
        }
        None
    }

    /// Rebinds the nearest existing binding of `name`; when no
    /// enclosing scope binds it, the table is unchanged and the error
    /// is `RebindWithoutDeclare`.
    pub fn set(&mut self, name: &String, expr_id: Id<Expr>) -> (r: Result<(), BuildError>)
        ensures
            match spec_set(old(self)@, name@, expr_id@) {
                Some(v) => r == Ok::<(), BuildError>(()) && final(self)@ == v,
                None => final(self)@ == old(self)@ && match r {
                    Err(BuildError::RebindWithoutDeclare(n)) => n@ == name@,
                    _ => false,
                },
            },
    {
        let mut i: usize = self.symbolses.len();
        while i > 0
            invariant
                i <= self.symbolses@.len(),
                self@ == old(self)@,
                self.symbolses@.len() == old(self)@.len(),
                forall|k: int|
                    i <= k < self@.len() ==> find_in_scope(#[trigger] self@[k], name@) is None,
            decreases i,
        {
            let ii = i - 1;
            match find_entry(&self.symbolses[ii], name) {
                Some(j) => {
                    proof {
                        lemma_set_in_scope_at(self@[ii as int], name@, expr_id@, j as int);
                        lemma_spec_set_at(self@, name@, expr_id@, ii as int);
                    }
                    self.symbolses[ii][j] = (name.clone(), expr_id);
                    proof {
                        assert(self@ =~~= spec_set(old(self)@, name@, expr_id@).unwrap());
                    }
                    return Ok(());
                },
                None => {
                    proof {
                        lemma_find_in_scope_none(self@[ii as int], name@);
                    }
                    i = ii;
                },
            }
        }
        proof {
            lemma_spec_set_none(self@, name@, expr_id@);
        }
        Err(BuildError::RebindWithoutDeclare(name.clone()))
    }
}

impl Symbols {
    /// How many scopes the stack holds.
    pub fn scope_count(&self) -> (n: usize)
        ensures
            n == self@.len(),
    {
        self.symbolses.len()
    }

    /// How many bindings the scope at `i` holds.
    pub fn scope_len(&self, i: usize) -> (n: usize)
        requires
            i < self@.len(),
        ensures
            n == self@[i as int].len(),
    {
        self.symbolses[i].len()
    }

    /// The binding at position `k` of the scope at `i`, oldest first.
    pub fn binding_at(&self, i: usize, k: usize) -> (r: &(String, Id<Expr>))
        requires
            i < self@.len(),
            k < self@[i as int].len(),
        ensures
            r.0@ == self@[i as int][k as int].0,
            r.1@ == self@[i as int][k as int].1,
    {
        &self.symbolses[i][k]
    }
}

impl Clone for Symbols {
    /// A deep copy whose view is the same scope stack; used to give a
    /// branch arm its private copy of the bindings visible at the
    /// branch point.
    fn clone(&self) -> (res: Self)
        ensures
            res@ == self@,
    {
        let mut outer: Vec<Vec<(String, Id<Expr>)>> = Vec::new();
        let mut i: usize = 0;
        while i < self.symbolses.len()
            invariant
                i <= self.symbolses@.len(),
                outer@.len() == i,
                forall|k: int| 0 <= k < i ==> (#[trigger] outer@[k])@ == self.symbolses@[k]@,
            decreases self.symbolses@.len() - i,
        {
            let scope = &self.symbolses[i];
            let mut inner: Vec<(String, Id<Expr>)> = Vec::new();
            let mut j: usize = 0;
            while j < scope.len()
                invariant
                    j <= scope@.len(),
                    inner@.len() == j,
                    forall|k: int| 0 <= k < j ==> #[trigger] inner@[k] == scope@[k],
                decreases scope@.len() - j,
            {
                let pair = &scope[j];
                inner.push((pair.0.clone(), pair.1));
                j = j + 1;
            }
            proof {
                assert(inner@ =~= scope@);
            }
            outer.push(inner);
            i = i + 1;
        }
        let res = Symbols { symbolses: outer };
        proof {
            assert(res@ =~~= self@);
        }
        res
    }
}

/// All bindings of the scope stack point into the first `nexprs`
/// slots of the expression arena.
pub open spec fn symbols_ok(s: Seq<Seq<(Seq<char>, int)>>, nexprs: int) -> bool {
    forall|i: int, k: int|
        0 <= i < s.len() && 0 <= k < s[i].len() ==> 0 <= (#[trigger] s[i][k]).1 < nexprs
}

/// A valid scope stack stays valid while the expression arena grows.
pub proof fn lemma_symbols_ok_grow(s: Seq<Seq<(Seq<char>, int)>>, n1: int, n2: int)
    requires
        symbols_ok(s, n1),
        n1 <= n2,
    ensures
        symbols_ok(s, n2),
{
}

/// Declaring a valid identifier keeps the scope stack valid.
pub proof fn lemma_symbols_ok_declare(
    s: Seq<Seq<(Seq<char>, int)>>,
    name: Seq<char>,
    id: int,
    nexprs: int,
)
    requires
        symbols_ok(s, nexprs),
        s.len() > 0,
        0 <= id < nexprs,
    ensures
        symbols_ok(spec_declare(s, name, id), nexprs),
{
    let r = spec_declare(s, name, id);
    assert forall|i: int, k: int| 0 <= i < r.len() && 0 <= k < r[i].len() implies 0 <= (
    #[trigger] r[i][k]).1 < nexprs by {
        if i == s.len() - 1 && k == s.last().len() {
        } else {
            assert(r[i][k] == s[i][k]);
        }
    }
}

/// Opening a scope keeps the scope stack valid.
pub proof fn lemma_symbols_ok_push(s: Seq<Seq<(Seq<char>, int)>>, nexprs: int)
    requires
        symbols_ok(s, nexprs),
    ensures
        symbols_ok(s.push(Seq::<(Seq<char>, int)>::empty()), nexprs),
{
    let r = s.push(Seq::<(Seq<char>, int)>::empty());
    assert forall|i: int, k: int| 0 <= i < r.len() && 0 <= k < r[i].len() implies 0 <= (
    #[trigger] r[i][k]).1 < nexprs by {
        assert(i < s.len());
        assert(r[i][k] == s[i][k]);
    }
}

/// Closing a scope keeps the scope stack valid.
pub proof fn lemma_symbols_ok_pop(s: Seq<Seq<(Seq<char>, int)>>, nexprs: int)
    requires
        symbols_ok(s, nexprs),
        s.len() > 0,
    ensures
        symbols_ok(s.drop_last(), nexprs),
{
    let r = s.drop_last();
    assert forall|i: int, k: int| 0 <= i < r.len() && 0 <= k < r[i].len() implies 0 <= (
    #[trigger] r[i][k]).1 < nexprs by {
        assert(r[i][k] == s[i][k]);
    }
}

/// Rebinding within one scope to a valid identifier keeps the scope
/// valid.
proof fn lemma_scope_ok_set(s: Seq<(Seq<char>, int)>, name: Seq<char>, id: int, nexprs: int)
    requires
        forall|k: int| 0 <= k < s.len() ==> 0 <= (#[trigger] s[k]).1 < nexprs,
        0 <= id < nexprs,
        set_in_scope(s, name, id) is Some,
    ensures
        forall|k: int|
            0 <= k < set_in_scope(s, name, id).unwrap().len() ==> 0 <= (#[trigger] set_in_scope(
                s,
                name,
                id,
            ).unwrap()[k]).1 < nexprs,
    decreases s.len(),
{
    let r = set_in_scope(s, name, id).unwrap();
    if s.last().0 == name {
        assert forall|k: int| 0 <= k < r.len() implies 0 <= (#[trigger] r[k]).1 < nexprs by {
            if k != s.len() - 1 {
                assert(r[k] == s[k]);
            }
        }
    } else {
        lemma_scope_ok_set(s.drop_last(), name, id, nexprs);
        let t = set_in_scope(s.drop_last(), name, id).unwrap();
        assert forall|k: int| 0 <= k < r.len() implies 0 <= (#[trigger] r[k]).1 < nexprs by {
            if k < t.len() {
                assert(r[k] == t[k]);
            } else {
                assert(r[k] == s.last());
            }
        }
    }
}

/// Rebinding to a valid identifier keeps the scope stack valid.
pub proof fn lemma_symbols_ok_set(
    s: Seq<Seq<(Seq<char>, int)>>,
    name: Seq<char>,
    id: int,
    nexprs: int,
)
    requires
        symbols_ok(s, nexprs),
        0 <= id < nexprs,
        spec_set(s, name, id) is Some,
    ensures
        symbols_ok(spec_set(s, name, id).unwrap(), nexprs),
    decreases s.len(),
{
    let r = spec_set(s, name, id).unwrap();
    if set_in_scope(s.last(), name, id) is Some {
        lemma_scope_ok_set(s.last(), name, id, nexprs);
        let t = set_in_scope(s.last(), name, id).unwrap();
        assert forall|i: int, k: int| 0 <= i < r.len() && 0 <= k < r[i].len() implies 0 <= (
        #[trigger] r[i][k]).1 < nexprs by {
            if i != s.len() - 1 {
                assert(r[i][k] == s[i][k]);
            } else {
                assert(r[i] == t);
            }
        }
    } else {
        lemma_symbols_ok_pop(s, nexprs);
        lemma_symbols_ok_set(s.drop_last(), name, id, nexprs);
        let rest = spec_set(s.drop_last(), name, id).unwrap();
        assert forall|i: int, k: int| 0 <= i < r.len() && 0 <= k < r[i].len() implies 0 <= (
        #[trigger] r[i][k]).1 < nexprs by {
            if i < rest.len() {
                assert(r[i] == rest[i]);
            } else {
                assert(r[i] == s.last());
            }
        }
    }
}

/// Rebinding never changes the shape of the scope stack.
pub proof fn lemma_spec_set_len(ss: Seq<Seq<(Seq<char>, int)>>, name: Seq<char>, id: int)
    requires
        spec_set(ss, name, id) is Some,
    ensures
        spec_set(ss, name, id).unwrap().len() == ss.len(),
    decreases ss.len(),
{
    if set_in_scope(ss.last(), name, id) is Some {
    } else {
        lemma_spec_set_len(ss.drop_last(), name, id);
    }
}

/// The two scope stacks have the same shape: as many scopes, as many
/// bindings per scope, and the same name at every position.  Only the
/// bound nodes may differ.
pub open spec fn same_shape(
    a: Seq<Seq<(Seq<char>, int)>>,
    b: Seq<Seq<(Seq<char>, int)>>,
) -> bool {
    &&& a.len() == b.len()
    &&& forall|i: int| 0 <= i < a.len() ==> (#[trigger] b[i]).len() == a[i].len()
    &&& forall|i: int, k: int|
        0 <= i < a.len() && 0 <= k < a[i].len() ==> (#[trigger] b[i][k]).0 == a[i][k].0
}

/// Same shape is transitive.
pub proof fn lemma_same_shape_trans(
    a: Seq<Seq<(Seq<char>, int)>>,
    b: Seq<Seq<(Seq<char>, int)>>,
    c: Seq<Seq<(Seq<char>, int)>>,
)
    requires
        same_shape(a, b),
        same_shape(b, c),
    ensures
        same_shape(a, c),
{
    assert forall|i: int| 0 <= i < a.len() implies (#[trigger] c[i]).len() == a[i].len() by {
        assert(b[i].len() == a[i].len());
        assert(c[i].len() == b[i].len());
    }
    assert forall|i: int, k: int| 0 <= i < a.len() && 0 <= k < a[i].len() implies (
    #[trigger] c[i][k]).0 == a[i][k].0 by {
        assert(b[i][k].0 == a[i][k].0);
        assert(b[i].len() == a[i].len());
        assert(c[i][k].0 == b[i][k].0);
    }
}

/// Dropping the innermost scope of both stacks keeps them same-shaped.
pub proof fn lemma_same_shape_drop_last(
    a: Seq<Seq<(Seq<char>, int)>>,
    b: Seq<Seq<(Seq<char>, int)>>,
)
    requires
        same_shape(a, b),
        a.len() > 0,
    ensures
        same_shape(a.drop_last(), b.drop_last()),
{
    let ad = a.drop_last();
    let bd = b.drop_last();
    assert forall|i: int| 0 <= i < ad.len() implies (#[trigger] bd[i]).len() == ad[i].len() by {
        assert(ad[i] == a[i]);
        assert(bd[i] == b[i]);
    }
    assert forall|i: int, k: int| 0 <= i < ad.len() && 0 <= k < ad[i].len() implies (
    #[trigger] bd[i][k]).0 == ad[i][k].0 by {
        assert(ad[i] == a[i]);
        assert(bd[i] == b[i]);
    }
}

/// Rebinding within one scope keeps its length and names.
proof fn lemma_set_in_scope_shape(s: Seq<(Seq<char>, int)>, name: Seq<char>, id: int)
    requires
        set_in_scope(s, name, id) is Some,
    ensures
        set_in_scope(s, name, id).unwrap().len() == s.len(),
        forall|k: int|
            0 <= k < s.len() ==> (#[trigger] set_in_scope(s, name, id).unwrap()[k]).0 == s[k].0,
    decreases s.len(),
{
    let t = set_in_scope(s, name, id).unwrap();
    if s.last().0 == name {
        assert forall|k: int| 0 <= k < s.len() implies (#[trigger] t[k]).0 == s[k].0 by {
            if k != s.len() - 1 {
                assert(t[k] == s[k]);
            }
        }
    } else {
        lemma_set_in_scope_shape(s.drop_last(), name, id);
        let inner = set_in_scope(s.drop_last(), name, id).unwrap();
        assert forall|k: int| 0 <= k < s.len() implies (#[trigger] t[k]).0 == s[k].0 by {
            if k < inner.len() {
                assert(t[k] == inner[k]);
                assert(s.drop_last()[k] == s[k]);
            } else {
                assert(t[k] == s.last());
            }
        }
    }
}

/// Rebinding a name never changes the stack's shape or its names.
pub proof fn lemma_spec_set_shape(ss: Seq<Seq<(Seq<char>, int)>>, name: Seq<char>, id: int)
    requires
        spec_set(ss, name, id) is Some,
    ensures
        same_shape(ss, spec_set(ss, name, id).unwrap()),
    decreases ss.len(),
{
    let v = spec_set(ss, name, id).unwrap();
    if set_in_scope(ss.last(), name, id) is Some {
        lemma_set_in_scope_shape(ss.last(), name, id);
        let t = set_in_scope(ss.last(), name, id).unwrap();
        assert forall|i: int| 0 <= i < ss.len() implies (#[trigger] v[i]).len() == ss[i].len() by {
            if i != ss.len() - 1 {
                assert(v[i] == ss[i]);
            } else {
                assert(v[i] == t);
            }
        }
        assert forall|i: int, k: int| 0 <= i < ss.len() && 0 <= k < ss[i].len() implies (
        #[trigger] v[i][k]).0 == ss[i][k].0 by {
            if i != ss.len() - 1 {
                assert(v[i] == ss[i]);
            } else {
                assert(v[i] == t);
            }
        }
    } else {
        lemma_spec_set_shape(ss.drop_last(), name, id);
        let rest = spec_set(ss.drop_last(), name, id).unwrap();
        assert forall|i: int| 0 <= i < ss.len() implies (#[trigger] v[i]).len() == ss[i].len() by {
            if i < rest.len() {
                assert(v[i] == rest[i]);
                assert(ss.drop_last()[i] == ss[i]);
            } else {
                assert(v[i] == ss.last());
            }
        }
        assert forall|i: int, k: int| 0 <= i < ss.len() && 0 <= k < ss[i].len() implies (
        #[trigger] v[i][k]).0 == ss[i][k].0 by {
            if i < rest.len() {
                assert(v[i] == rest[i]);
                assert(ss.drop_last()[i] == ss[i]);
            } else {
                assert(v[i] == ss.last());
            }
        }
    }
}

/// What one scope finds is one of its binding values.
proof fn lemma_find_in_scope_in_range(s: Seq<(Seq<char>, int)>, name: Seq<char>, nexprs: int)
    requires
        forall|k: int| 0 <= k < s.len() ==> 0 <= (#[trigger] s[k]).1 < nexprs,
        find_in_scope(s, name) is Some,
    ensures
        0 <= find_in_scope(s, name).unwrap() < nexprs,
    decreases s.len(),
{
    if s.last().0 == name {
    } else {
        lemma_find_in_scope_in_range(s.drop_last(), name, nexprs);
    }
}

/// What lookup finds in a valid scope stack is a valid expression
/// identifier.
pub proof fn lemma_lookup_in_range(
    s: Seq<Seq<(Seq<char>, int)>>,
    name: Seq<char>,
    nexprs: int,
)
    requires
        symbols_ok(s, nexprs),
        lookup(s, name) is Some,
    ensures
        0 <= lookup(s, name).unwrap() < nexprs,
    decreases s.len(),
{
    if find_in_scope(s.last(), name) is Some {
        assert(forall|k: int|
            0 <= k < s.last().len() ==> 0 <= (#[trigger] s.last()[k]).1 < nexprs);
        lemma_find_in_scope_in_range(s.last(), name, nexprs);
    } else {
        lemma_symbols_ok_pop(s, nexprs);
        lemma_lookup_in_range(s.drop_last(), name, nexprs);
    }
}

/// Scope shadowing round trip: after declaring `x` in the current
/// scope, pushing a block scope, declaring `x` again there, and
/// popping the block, the table is exactly what it was after the first
/// declaration, and `x` resolves to the outer binding.
pub proof fn lemma_scope_shadowing(v: Seq<Seq<(Seq<char>, int)>>, x: Seq<char>, a: int, b: int)
    requires
        v.len() > 0,
    ensures
        ({
            let v1 = spec_declare(v, x, a);
            let v2 = v1.push(Seq::<(Seq<char>, int)>::empty());
            let v3 = spec_declare(v2, x, b);
            let v4 = v3.drop_last();
            v4 == v1 && lookup(v4, x) == Some(a)
        }),
{
    let v1 = spec_declare(v, x, a);
    let v2 = v1.push(Seq::<(Seq<char>, int)>::empty());
    let v3 = spec_declare(v2, x, b);
    let v4 = v3.drop_last();
    assert(v4 =~= v1);
    assert(v1.last() == v.last().push((x, a)));
    assert(v1.last().last() == (x, a));
    assert(find_in_scope(v1.last(), x) == Some(a));
}

} // verus!
