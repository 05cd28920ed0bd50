//! The recursive-descent parser: tokens to graph.
//!
//! The parser is the driver of the construction core: for every
//! construct it calls into the control and expression builders, and
//! every expression identifier it handles is already folded, because
//! node construction goes through the folding builders only.
//!
//! The parser is verified never to break the arenas' well-formedness,
//! never to panic, and to terminate; on top of that its contracts pin
//! the statement-to-core mapping (a return statement yields a `Return`
//! node over the context, a declaration declares the spelled name, an
//! assignment rebinds it, a conditional hands back its `Merge` as the
//! next context), the behavior of a variable use (the nearest binding,
//! or the undefined-symbol error naming it, allocating nothing), and
//! the error taxonomy: every statement or expression error is a
//! grammar, name or evaluation error, while the missing-return error
//! is reported only by the whole-program parse, and only after the
//! source parsed cleanly to its end.  What stays outside the contracts
//! is the full grammar-to-graph function itself: which operand trees a
//! given source builds is pinned by the end-to-end tests.

use vstd::prelude::*;

use crate::arena::Arena;
use crate::arena::Id;
use crate::binaryop::BinaryOp;
use crate::ctrl::{ctrl_symbols, ctrls_wf, has_symbols, lemma_ctrls_wf_grow, same_but_symbols, Ctrl};
use crate::errors::{parse_error, BuildError};
use crate::expr::{exprs_wf, Expr};
use crate::symbols::{
    lemma_lookup_in_range, lemma_same_shape_drop_last, lemma_same_shape_trans, lookup, same_shape,
    spec_declare, spec_set,
};
use crate::token::Token;
use crate::tokenizer::Tokenizer;
use crate::unaryop::UnaryOp;
use crate::value::{IntValue, Value};

verus! {

broadcast use crate::arena::lemma_id_view_nonneg;

/// Whether two tokens are the same token, payloads included.
fn token_matches(a: &Token, b: &Token) -> bool {
    match (a, b) {
        (Token::Eof, Token::Eof) => true,
        (Token::Integer(x), Token::Integer(y)) => *x == *y,
        (Token::Identifier(x), Token::Identifier(y)) => *x == *y,
        (Token::Plus, Token::Plus) => true,
        (Token::PlusPlus, Token::PlusPlus) => true,
        (Token::Minus, Token::Minus) => true,
        (Token::MinusMinus, Token::MinusMinus) => true,
        (Token::MinusGreater, Token::MinusGreater) => true,
        (Token::Star, Token::Star) => true,
        (Token::Slash, Token::Slash) => true,
        (Token::Percent, Token::Percent) => true,
        (Token::Amp, Token::Amp) => true,
        (Token::AmpAmp, Token::AmpAmp) => true,
        (Token::Bar, Token::Bar) => true,
        (Token::BarBar, Token::BarBar) => true,
        (Token::Caret, Token::Caret) => true,
        (Token::Tilde, Token::Tilde) => true,
        (Token::Excl, Token::Excl) => true,
        (Token::ExclEqual, Token::ExclEqual) => true,
        (Token::Equal, Token::Equal) => true,
        (Token::EqualEqual, Token::EqualEqual) => true,
        (Token::Less, Token::Less) => true,
        (Token::LessEqual, Token::LessEqual) => true,
        (Token::LessLess, Token::LessLess) => true,
        (Token::Greater, Token::Greater) => true,
        (Token::GreaterEqual, Token::GreaterEqual) => true,
        (Token::GreaterGreater, Token::GreaterGreater) => true,
        (Token::OpenParen, Token::OpenParen) => true,
        (Token::CloseParen, Token::CloseParen) => true,
        (Token::OpenBrace, Token::OpenBrace) => true,
        (Token::CloseBrace, Token::CloseBrace) => true,
        (Token::Semicolon, Token::Semicolon) => true,
        (Token::Fn, Token::Fn) => true,
        (Token::Return, Token::Return) => true,
        (Token::Int, Token::Int) => true,
        (Token::If, Token::If) => true,
        (Token::Else, Token::Else) => true,
        _ => false,
    }
}

/// The parser: a token cursor over the two arenas it fills.
pub struct Parser {
    /// The token stream of the source text.
    pub tokens: Vec<Token>,
    /// The cursor into the token stream.
    pub pos: usize,
    /// The expression graph built so far.
    pub exprs: Arena<Expr>,
    /// The control graph built so far.
    pub ctrls: Arena<Ctrl>,
}

impl Parser {
    /// The cursor never points past the end of the token stream, and
    /// both arenas are well-formed.
    pub open spec fn wf(self) -> bool {
        &&& self.pos <= self.tokens@.len()
        &&& exprs_wf(self.exprs@)
        &&& ctrls_wf(self.ctrls@, self.exprs@.len() as int)
    }

    /// The token position of the cursor.
    pub open spec fn spec_pos(self) -> int {
        self.pos as int
    }

    /// How many tokens the source text held.
    pub open spec fn num_tokens(self) -> int {
        self.tokens@.len() as int
    }

    pub fn new(source: &str) -> (p: Parser)
        ensures
            p.wf(),
            p.exprs@ == Seq::<Expr>::empty(),
            p.ctrls@ == Seq::<Ctrl>::empty(),
    {
        let mut tokenizer = Tokenizer::new(source);
        let tokens = tokenizer.tokenize();
        Parser { tokens, pos: 0, exprs: Arena::new(), ctrls: Arena::new() }
    }

    /// Advances past the token under the cursor.
    fn consume(&mut self)
        requires
            old(self).wf(),
        ensures
            final(self).wf(),
            final(self).tokens@ == old(self).tokens@,
            final(self).exprs == old(self).exprs,
            final(self).ctrls == old(self).ctrls,
            old(self).spec_pos() < old(self).num_tokens() ==> final(self).spec_pos() == old(
                self,
            ).spec_pos() + 1,
            old(self).spec_pos() == old(self).num_tokens() ==> final(self).spec_pos() == old(
                self,
            ).spec_pos(),
    {
        if self.pos < self.tokens.len() {
            self.pos = self.pos + 1;
        }
    }

    /// Consumes the expected token, or reports what was found instead.
    fn expect(&mut self, token: &Token) -> (r: Result<(), BuildError>)
        requires
            old(self).wf(),
        ensures
            final(self).wf(),
            final(self).tokens@ == old(self).tokens@,
            final(self).exprs == old(self).exprs,
            final(self).ctrls == old(self).ctrls,
            old(self).spec_pos() <= final(self).spec_pos() <= final(self).num_tokens(),
            r is Ok ==> final(self).spec_pos() == old(self).spec_pos() + 1,
            r matches Err(e) ==> e is UnexpectedToken || e is UnexpectedEnd,
    {
        if self.pos < self.tokens.len() {
            if token_matches(&self.tokens[self.pos], token) {
                self.consume();
                Ok(())
            } else {
                Err(BuildError::UnexpectedToken)
            }
        } else {
            Err(BuildError::UnexpectedEnd)
        }
    }

    /// The binary operator spelled by the token under the cursor, when
    /// there is one.
    fn current_binop(&self) -> (r: Option<BinaryOp>)
        ensures
            r is Some ==> self.spec_pos() < self.num_tokens(),
    {
        if self.pos >= self.tokens.len() {
            return None;
        }
        match &self.tokens[self.pos] {
            Token::Plus => Some(BinaryOp::Add),
            Token::Minus => Some(BinaryOp::Subtract),
            Token::Star => Some(BinaryOp::Multiply),
            Token::Slash => Some(BinaryOp::Divide),
            Token::Percent => Some(BinaryOp::Modulo),
            Token::Amp => Some(BinaryOp::And),
            Token::Bar => Some(BinaryOp::Or),
            Token::Caret => Some(BinaryOp::Xor),
            Token::AmpAmp => Some(BinaryOp::LogicalAnd),
            Token::BarBar => Some(BinaryOp::LogicalOr),
            Token::LessLess => Some(BinaryOp::ShiftLeft),
            Token::GreaterGreater => Some(BinaryOp::ShiftRight),
            Token::EqualEqual => Some(BinaryOp::Equal),
            Token::ExclEqual => Some(BinaryOp::NotEqual),
            Token::Less => Some(BinaryOp::LessThan),
            Token::Greater => Some(BinaryOp::GreaterThan),
            Token::LessEqual => Some(BinaryOp::LessThanOrEqual),
            Token::GreaterEqual => Some(BinaryOp::GreaterThanOrEqual),
            _ => None,
        }
    }
}

impl Parser {
    /// Parses one full expression.
    fn parse_expression(&mut self, ctrl_id: Id<Ctrl>) -> (r: Result<Id<Expr>, BuildError>)
        requires
            old(self).wf(),
            ctrl_id@ < old(self).ctrls@.len(),
            has_symbols(old(self).ctrls@[ctrl_id@]),
        ensures
            final(self).wf(),
            final(self).tokens@ == old(self).tokens@,
            final(self).ctrls@ == old(self).ctrls@,
            old(self).spec_pos() <= final(self).spec_pos() <= final(self).num_tokens(),
            old(self).exprs@.len() <= final(self).exprs@.len(),
            r matches Ok(eid) ==> eid@ < final(self).exprs@.len() && final(self).spec_pos() > old(
                self,
            ).spec_pos(),
            r matches Err(e) ==> parse_error(e),
        decreases old(self).num_tokens() - old(self).spec_pos(), 12int,
    {
        self.parse_logical_or_expression(ctrl_id)
    }
    fn parse_logical_or_expression(&mut self, ctrl_id: Id<Ctrl>) -> (r: Result<Id<Expr>, BuildError>)
        requires
            old(self).wf(),
            ctrl_id@ < old(self).ctrls@.len(),
            has_symbols(old(self).ctrls@[ctrl_id@]),
        ensures
            final(self).wf(),
            final(self).tokens@ == old(self).tokens@,
            final(self).ctrls@ == old(self).ctrls@,
            old(self).spec_pos() <= final(self).spec_pos() <= final(self).num_tokens(),
            old(self).exprs@.len() <= final(self).exprs@.len(),
            r matches Ok(eid) ==> eid@ < final(self).exprs@.len() && final(self).spec_pos() > old(
                self,
            ).spec_pos(),
            r matches Err(e) ==> parse_error(e),
        decreases old(self).num_tokens() - old(self).spec_pos(), 11int,
    {
        let mut total_id = match self.parse_logical_and_expression(ctrl_id) {
            Ok(id) => id,
            Err(e) => return Err(e),
        };
        let mut looping = true;
        while looping
            invariant
                self.wf(),
                self.tokens@ == old(self).tokens@,
                self.ctrls@ == old(self).ctrls@,
                ctrl_id@ < self.ctrls@.len(),
                has_symbols(self.ctrls@[ctrl_id@]),
                old(self).spec_pos() < self.spec_pos() <= self.num_tokens(),
                old(self).exprs@.len() <= self.exprs@.len(),
                total_id@ < self.exprs@.len(),
            decreases self.num_tokens() - self.spec_pos(), (if looping {
                1int
            } else {
                0int
            }),
        {
            if self.pos >= self.tokens.len() {
                return Err(BuildError::UnexpectedEnd);
            }
            let mut matched = false;
            if let Some(op) = self.current_binop() {
                if op == BinaryOp::LogicalOr {
                    matched = true;
                    self.consume();
                    let rhs = match self.parse_logical_and_expression(ctrl_id) {
                        Ok(id) => id,
                        Err(e) => return Err(e),
                    };
                    let ghost pre = self.exprs@;
                    total_id = match self.exprs.binary(op, total_id, rhs) {
                        Ok(id) => id,
                        Err(e) => return Err(e),
                    };
                    proof {
                        lemma_ctrls_wf_grow(
                            self.ctrls@,
                            pre.len() as int,
                            self.exprs@.len() as int,
                        );
                    }
                }
            }
            if !matched {
                looping = false;
            }
        }
        Ok(total_id)
    }
    fn parse_logical_and_expression(&mut self, ctrl_id: Id<Ctrl>) -> (r: Result<Id<Expr>, BuildError>)
        requires
            old(self).wf(),
            ctrl_id@ < old(self).ctrls@.len(),
            has_symbols(old(self).ctrls@[ctrl_id@]),
        ensures
            final(self).wf(),
            final(self).tokens@ == old(self).tokens@,
            final(self).ctrls@ == old(self).ctrls@,
            old(self).spec_pos() <= final(self).spec_pos() <= final(self).num_tokens(),
            old(self).exprs@.len() <= final(self).exprs@.len(),
            r matches Ok(eid) ==> eid@ < final(self).exprs@.len() && final(self).spec_pos() > old(
                self,
            ).spec_pos(),
            r matches Err(e) ==> parse_error(e),
        decreases old(self).num_tokens() - old(self).spec_pos(), 10int,
    {
        let mut total_id = match self.parse_or_expression(ctrl_id) {
            Ok(id) => id,
            Err(e) => return Err(e),
        };
        let mut looping = true;
        while looping
            invariant
                self.wf(),
                self.tokens@ == old(self).tokens@,
                self.ctrls@ == old(self).ctrls@,
                ctrl_id@ < self.ctrls@.len(),
                has_symbols(self.ctrls@[ctrl_id@]),
                old(self).spec_pos() < self.spec_pos() <= self.num_tokens(),
                old(self).exprs@.len() <= self.exprs@.len(),
                total_id@ < self.exprs@.len(),
            decreases self.num_tokens() - self.spec_pos(), (if looping {
                1int
            } else {
                0int
            }),
        {
            if self.pos >= self.tokens.len() {
                return Err(BuildError::UnexpectedEnd);
            }
            let mut matched = false;
            if let Some(op) = self.current_binop() {
                if op == BinaryOp::LogicalAnd {
                    matched = true;
                    self.consume();
                    let rhs = match self.parse_or_expression(ctrl_id) {
                        Ok(id) => id,
                        Err(e) => return Err(e),
                    };
                    let ghost pre = self.exprs@;
                    total_id = match self.exprs.binary(op, total_id, rhs) {
                        Ok(id) => id,
                        Err(e) => return Err(e),
                    };
                    proof {
                        lemma_ctrls_wf_grow(
                            self.ctrls@,
                            pre.len() as int,
                            self.exprs@.len() as int,
                        );
                    }
                }
            }
            if !matched {
                looping = false;
            }
        }
        Ok(total_id)
    }
    fn parse_or_expression(&mut self, ctrl_id: Id<Ctrl>) -> (r: Result<Id<Expr>, BuildError>)
        requires
            old(self).wf(),
            ctrl_id@ < old(self).ctrls@.len(),
            has_symbols(old(self).ctrls@[ctrl_id@]),
        ensures
            final(self).wf(),
            final(self).tokens@ == old(self).tokens@,
            final(self).ctrls@ == old(self).ctrls@,
            old(self).spec_pos() <= final(self).spec_pos() <= final(self).num_tokens(),
            old(self).exprs@.len() <= final(self).exprs@.len(),
            r matches Ok(eid) ==> eid@ < final(self).exprs@.len() && final(self).spec_pos() > old(
                self,
            ).spec_pos(),
            r matches Err(e) ==> parse_error(e),
        decreases old(self).num_tokens() - old(self).spec_pos(), 9int,
    {
        let mut total_id = match self.parse_xor_expression(ctrl_id) {
            Ok(id) => id,
            Err(e) => return Err(e),
        };
        let mut looping = true;
        while looping
            invariant
                self.wf(),
                self.tokens@ == old(self).tokens@,
                self.ctrls@ == old(self).ctrls@,
                ctrl_id@ < self.ctrls@.len(),
                has_symbols(self.ctrls@[ctrl_id@]),
                old(self).spec_pos() < self.spec_pos() <= self.num_tokens(),
                old(self).exprs@.len() <= self.exprs@.len(),
                total_id@ < self.exprs@.len(),
            decreases self.num_tokens() - self.spec_pos(), (if looping {
                1int
            } else {
                0int
            }),
        {
            if self.pos >= self.tokens.len() {
                return Err(BuildError::UnexpectedEnd);
            }
            let mut matched = false;
            if let Some(op) = self.current_binop() {
                if op == BinaryOp::Or {
                    matched = true;
                    self.consume();
                    let rhs = match self.parse_xor_expression(ctrl_id) {
                        Ok(id) => id,
                        Err(e) => return Err(e),
                    };
                    let ghost pre = self.exprs@;
                    total_id = match self.exprs.binary(op, total_id, rhs) {
                        Ok(id) => id,
                        Err(e) => return Err(e),
                    };
                    proof {
                        lemma_ctrls_wf_grow(
                            self.ctrls@,
                            pre.len() as int,
                            self.exprs@.len() as int,
                        );
                    }
                }
            }
            if !matched {
                looping = false;
            }
        }
        Ok(total_id)
    }
    fn parse_xor_expression(&mut self, ctrl_id: Id<Ctrl>) -> (r: Result<Id<Expr>, BuildError>)
        requires
            old(self).wf(),
            ctrl_id@ < old(self).ctrls@.len(),
            has_symbols(old(self).ctrls@[ctrl_id@]),
        ensures
            final(self).wf(),
            final(self).tokens@ == old(self).tokens@,
            final(self).ctrls@ == old(self).ctrls@,
            old(self).spec_pos() <= final(self).spec_pos() <= final(self).num_tokens(),
            old(self).exprs@.len() <= final(self).exprs@.len(),
            r matches Ok(eid) ==> eid@ < final(self).exprs@.len() && final(self).spec_pos() > old(
                self,
            ).spec_pos(),
            r matches Err(e) ==> parse_error(e),
        decreases old(self).num_tokens() - old(self).spec_pos(), 8int,
    {
        let mut total_id = match self.parse_and_expression(ctrl_id) {
            Ok(id) => id,
            Err(e) => return Err(e),
        };
        let mut looping = true;
        while looping
            invariant
                self.wf(),
                self.tokens@ == old(self).tokens@,
                self.ctrls@ == old(self).ctrls@,
                ctrl_id@ < self.ctrls@.len(),
                has_symbols(self.ctrls@[ctrl_id@]),
                old(self).spec_pos() < self.spec_pos() <= self.num_tokens(),
                old(self).exprs@.len() <= self.exprs@.len(),
                total_id@ < self.exprs@.len(),
            decreases self.num_tokens() - self.spec_pos(), (if looping {
                1int
            } else {
                0int
            }),
        {
            if self.pos >= self.tokens.len() {
                return Err(BuildError::UnexpectedEnd);
            }
            let mut matched = false;
            if let Some(op) = self.current_binop() {
                if op == BinaryOp::Xor {
                    matched = true;
                    self.consume();
                    let rhs = match self.parse_and_expression(ctrl_id) {
                        Ok(id) => id,
                        Err(e) => return Err(e),
                    };
                    let ghost pre = self.exprs@;
                    total_id = match self.exprs.binary(op, total_id, rhs) {
                        Ok(id) => id,
                        Err(e) => return Err(e),
                    };
                    proof {
                        lemma_ctrls_wf_grow(
                            self.ctrls@,
                            pre.len() as int,
                            self.exprs@.len() as int,
                        );
                    }
                }
            }
            if !matched {
                looping = false;
            }
        }
        Ok(total_id)
    }
    fn parse_and_expression(&mut self, ctrl_id: Id<Ctrl>) -> (r: Result<Id<Expr>, BuildError>)
        requires
            old(self).wf(),
            ctrl_id@ < old(self).ctrls@.len(),
            has_symbols(old(self).ctrls@[ctrl_id@]),
        ensures
            final(self).wf(),
            final(self).tokens@ == old(self).tokens@,
            final(self).ctrls@ == old(self).ctrls@,
            old(self).spec_pos() <= final(self).spec_pos() <= final(self).num_tokens(),
            old(self).exprs@.len() <= final(self).exprs@.len(),
            r matches Ok(eid) ==> eid@ < final(self).exprs@.len() && final(self).spec_pos() > old(
                self,
            ).spec_pos(),
            r matches Err(e) ==> parse_error(e),
        decreases old(self).num_tokens() - old(self).spec_pos(), 7int,
    {
        let mut total_id = match self.parse_equality_expression(ctrl_id) {
            Ok(id) => id,
            Err(e) => return Err(e),
        };
        let mut looping = true;
        while looping
            invariant
                self.wf(),
                self.tokens@ == old(self).tokens@,
                self.ctrls@ == old(self).ctrls@,
                ctrl_id@ < self.ctrls@.len(),
                has_symbols(self.ctrls@[ctrl_id@]),
                old(self).spec_pos() < self.spec_pos() <= self.num_tokens(),
                old(self).exprs@.len() <= self.exprs@.len(),
                total_id@ < self.exprs@.len(),
            decreases self.num_tokens() - self.spec_pos(), (if looping {
                1int
            } else {
                0int
            }),
        {
            if self.pos >= self.tokens.len() {
                return Err(BuildError::UnexpectedEnd);
            }
            let mut matched = false;
            if let Some(op) = self.current_binop() {
                if op == BinaryOp::And {
                    matched = true;
                    self.consume();
                    let rhs = match self.parse_equality_expression(ctrl_id) {
                        Ok(id) => id,
                        Err(e) => return Err(e),
                    };
                    let ghost pre = self.exprs@;
                    total_id = match self.exprs.binary(op, total_id, rhs) {
                        Ok(id) => id,
                        Err(e) => return Err(e),
                    };
                    proof {
                        lemma_ctrls_wf_grow(
                            self.ctrls@,
                            pre.len() as int,
                            self.exprs@.len() as int,
                        );
                    }
                }
            }
            if !matched {
                looping = false;
            }
        }
        Ok(total_id)
    }
    fn parse_equality_expression(&mut self, ctrl_id: Id<Ctrl>) -> (r: Result<Id<Expr>, BuildError>)
        requires
            old(self).wf(),
            ctrl_id@ < old(self).ctrls@.len(),
            has_symbols(old(self).ctrls@[ctrl_id@]),
        ensures
            final(self).wf(),
            final(self).tokens@ == old(self).tokens@,
            final(self).ctrls@ == old(self).ctrls@,
            old(self).spec_pos() <= final(self).spec_pos() <= final(self).num_tokens(),
            old(self).exprs@.len() <= final(self).exprs@.len(),
            r matches Ok(eid) ==> eid@ < final(self).exprs@.len() && final(self).spec_pos() > old(
                self,
            ).spec_pos(),
            r matches Err(e) ==> parse_error(e),
        decreases old(self).num_tokens() - old(self).spec_pos(), 6int,
    {
        let mut total_id = match self.parse_relational_expression(ctrl_id) {
            Ok(id) => id,
            Err(e) => return Err(e),
        };
        let mut looping = true;
        while looping
            invariant
                self.wf(),
                self.tokens@ == old(self).tokens@,
                self.ctrls@ == old(self).ctrls@,
                ctrl_id@ < self.ctrls@.len(),
                has_symbols(self.ctrls@[ctrl_id@]),
                old(self).spec_pos() < self.spec_pos() <= self.num_tokens(),
                old(self).exprs@.len() <= self.exprs@.len(),
                total_id@ < self.exprs@.len(),
            decreases self.num_tokens() - self.spec_pos(), (if looping {
                1int
            } else {
                0int
            }),
        {
            if self.pos >= self.tokens.len() {
                return Err(BuildError::UnexpectedEnd);
            }
            let mut matched = false;
            if let Some(op) = self.current_binop() {
                if op == BinaryOp::Equal || op == BinaryOp::NotEqual {
                    matched = true;
                    self.consume();
                    let rhs = match self.parse_relational_expression(ctrl_id) {
                        Ok(id) => id,
                        Err(e) => return Err(e),
                    };
                    let ghost pre = self.exprs@;
                    total_id = match self.exprs.binary(op, total_id, rhs) {
                        Ok(id) => id,
                        Err(e) => return Err(e),
                    };
                    proof {
                        lemma_ctrls_wf_grow(
                            self.ctrls@,
                            pre.len() as int,
                            self.exprs@.len() as int,
                        );
                    }
                }
            }
            if !matched {
                looping = false;
            }
        }
        Ok(total_id)
    }
    fn parse_relational_expression(&mut self, ctrl_id: Id<Ctrl>) -> (r: Result<Id<Expr>, BuildError>)
        requires
            old(self).wf(),
            ctrl_id@ < old(self).ctrls@.len(),
            has_symbols(old(self).ctrls@[ctrl_id@]),
        ensures
            final(self).wf(),
            final(self).tokens@ == old(self).tokens@,
            final(self).ctrls@ == old(self).ctrls@,
            old(self).spec_pos() <= final(self).spec_pos() <= final(self).num_tokens(),
            old(self).exprs@.len() <= final(self).exprs@.len(),
            r matches Ok(eid) ==> eid@ < final(self).exprs@.len() && final(self).spec_pos() > old(
                self,
            ).spec_pos(),
            r matches Err(e) ==> parse_error(e),
        decreases old(self).num_tokens() - old(self).spec_pos(), 5int,
    {
        let mut total_id = match self.parse_shift_expression(ctrl_id) {
            Ok(id) => id,
            Err(e) => return Err(e),
        };
        let mut looping = true;
        while looping
            invariant
                self.wf(),
                self.tokens@ == old(self).tokens@,
                self.ctrls@ == old(self).ctrls@,
                ctrl_id@ < self.ctrls@.len(),
                has_symbols(self.ctrls@[ctrl_id@]),
                old(self).spec_pos() < self.spec_pos() <= self.num_tokens(),
                old(self).exprs@.len() <= self.exprs@.len(),
                total_id@ < self.exprs@.len(),
            decreases self.num_tokens() - self.spec_pos(), (if looping {
                1int
            } else {
                0int
            }),
        {
            if self.pos >= self.tokens.len() {
                return Err(BuildError::UnexpectedEnd);
            }
            let mut matched = false;
            if let Some(op) = self.current_binop() {
                if op == BinaryOp::LessThan || op == BinaryOp::GreaterThan || op == BinaryOp::LessThanOrEqual || op == BinaryOp::GreaterThanOrEqual {
                    matched = true;
                    self.consume();
                    let rhs = match self.parse_shift_expression(ctrl_id) {
                        Ok(id) => id,
                        Err(e) => return Err(e),
                    };
                    let ghost pre = self.exprs@;
                    total_id = match self.exprs.binary(op, total_id, rhs) {
                        Ok(id) => id,
                        Err(e) => return Err(e),
                    };
                    proof {
                        lemma_ctrls_wf_grow(
                            self.ctrls@,
                            pre.len() as int,
                            self.exprs@.len() as int,
                        );
                    }
                }
            }
            if !matched {
                looping = false;
            }
        }
        Ok(total_id)
    }
    fn parse_shift_expression(&mut self, ctrl_id: Id<Ctrl>) -> (r: Result<Id<Expr>, BuildError>)
        requires
            old(self).wf(),
            ctrl_id@ < old(self).ctrls@.len(),
            has_symbols(old(self).ctrls@[ctrl_id@]),
        ensures
            final(self).wf(),
            final(self).tokens@ == old(self).tokens@,
            final(self).ctrls@ == old(self).ctrls@,
            old(self).spec_pos() <= final(self).spec_pos() <= final(self).num_tokens(),
            old(self).exprs@.len() <= final(self).exprs@.len(),
            r matches Ok(eid) ==> eid@ < final(self).exprs@.len() && final(self).spec_pos() > old(
                self,
            ).spec_pos(),
            r matches Err(e) ==> parse_error(e),
        decreases old(self).num_tokens() - old(self).spec_pos(), 4int,
    {
        let mut total_id = match self.parse_additive_expression(ctrl_id) {
            Ok(id) => id,
            Err(e) => return Err(e),
        };
        let mut looping = true;
        while looping
            invariant
                self.wf(),
                self.tokens@ == old(self).tokens@,
                self.ctrls@ == old(self).ctrls@,
                ctrl_id@ < self.ctrls@.len(),
                has_symbols(self.ctrls@[ctrl_id@]),
                old(self).spec_pos() < self.spec_pos() <= self.num_tokens(),
                old(self).exprs@.len() <= self.exprs@.len(),
                total_id@ < self.exprs@.len(),
            decreases self.num_tokens() - self.spec_pos(), (if looping {
                1int
            } else {
                0int
            }),
        {
            if self.pos >= self.tokens.len() {
                return Err(BuildError::UnexpectedEnd);
            }
            let mut matched = false;
            if let Some(op) = self.current_binop() {
                if op == BinaryOp::ShiftLeft || op == BinaryOp::ShiftRight {
                    matched = true;
                    self.consume();
                    let rhs = match self.parse_additive_expression(ctrl_id) {
                        Ok(id) => id,
                        Err(e) => return Err(e),
                    };
                    let ghost pre = self.exprs@;
                    total_id = match self.exprs.binary(op, total_id, rhs) {
                        Ok(id) => id,
                        Err(e) => return Err(e),
                    };
                    proof {
                        lemma_ctrls_wf_grow(
                            self.ctrls@,
                            pre.len() as int,
                            self.exprs@.len() as int,
                        );
                    }
                }
            }
            if !matched {
                looping = false;
            }
        }
        Ok(total_id)
    }
    fn parse_additive_expression(&mut self, ctrl_id: Id<Ctrl>) -> (r: Result<Id<Expr>, BuildError>)
        requires
            old(self).wf(),
            ctrl_id@ < old(self).ctrls@.len(),
            has_symbols(old(self).ctrls@[ctrl_id@]),
        ensures
            final(self).wf(),
            final(self).tokens@ == old(self).tokens@,
            final(self).ctrls@ == old(self).ctrls@,
            old(self).spec_pos() <= final(self).spec_pos() <= final(self).num_tokens(),
            old(self).exprs@.len() <= final(self).exprs@.len(),
            r matches Ok(eid) ==> eid@ < final(self).exprs@.len() && final(self).spec_pos() > old(
                self,
            ).spec_pos(),
            r matches Err(e) ==> parse_error(e),
        decreases old(self).num_tokens() - old(self).spec_pos(), 3int,
    {
        let mut total_id = match self.parse_multiplicative_expression(ctrl_id) {
            Ok(id) => id,
            Err(e) => return Err(e),
        };
        let mut looping = true;
        while looping
            invariant
                self.wf(),
                self.tokens@ == old(self).tokens@,
                self.ctrls@ == old(self).ctrls@,
                ctrl_id@ < self.ctrls@.len(),
                has_symbols(self.ctrls@[ctrl_id@]),
                old(self).spec_pos() < self.spec_pos() <= self.num_tokens(),
                old(self).exprs@.len() <= self.exprs@.len(),
                total_id@ < self.exprs@.len(),
            decreases self.num_tokens() - self.spec_pos(), (if looping {
                1int
            } else {
                0int
            }),
        {
            if self.pos >= self.tokens.len() {
                return Err(BuildError::UnexpectedEnd);
            }
            let mut matched = false;
            if let Some(op) = self.current_binop() {
                if op == BinaryOp::Add || op == BinaryOp::Subtract {
                    matched = true;
                    self.consume();
                    let rhs = match self.parse_multiplicative_expression(ctrl_id) {
                        Ok(id) => id,
                        Err(e) => return Err(e),
                    };
                    let ghost pre = self.exprs@;
                    total_id = match self.exprs.binary(op, total_id, rhs) {
                        Ok(id) => id,
                        Err(e) => return Err(e),
                    };
                    proof {
                        lemma_ctrls_wf_grow(
                            self.ctrls@,
                            pre.len() as int,
                            self.exprs@.len() as int,
                        );
                    }
                }
            }
            if !matched {
                looping = false;
            }
        }
        Ok(total_id)
    }
    fn parse_multiplicative_expression(&mut self, ctrl_id: Id<Ctrl>) -> (r: Result<Id<Expr>, BuildError>)
        requires
            old(self).wf(),
            ctrl_id@ < old(self).ctrls@.len(),
            has_symbols(old(self).ctrls@[ctrl_id@]),
        ensures
            final(self).wf(),
            final(self).tokens@ == old(self).tokens@,
            final(self).ctrls@ == old(self).ctrls@,
            old(self).spec_pos() <= final(self).spec_pos() <= final(self).num_tokens(),
            old(self).exprs@.len() <= final(self).exprs@.len(),
            r matches Ok(eid) ==> eid@ < final(self).exprs@.len() && final(self).spec_pos() > old(
                self,
            ).spec_pos(),
            r matches Err(e) ==> parse_error(e),
        decreases old(self).num_tokens() - old(self).spec_pos(), 2int,
    {
        let mut total_id = match self.parse_unary_expression(ctrl_id) {
            Ok(id) => id,
            Err(e) => return Err(e),
        };
        let mut looping = true;
        while looping
            invariant
                self.wf(),
                self.tokens@ == old(self).tokens@,
                self.ctrls@ == old(self).ctrls@,
                ctrl_id@ < self.ctrls@.len(),
                has_symbols(self.ctrls@[ctrl_id@]),
                old(self).spec_pos() < self.spec_pos() <= self.num_tokens(),
                old(self).exprs@.len() <= self.exprs@.len(),
                total_id@ < self.exprs@.len(),
            decreases self.num_tokens() - self.spec_pos(), (if looping {
                1int
            } else {
                0int
            }),
        {
            if self.pos >= self.tokens.len() {
                return Err(BuildError::UnexpectedEnd);
            }
            let mut matched = false;
            if let Some(op) = self.current_binop() {
                if op == BinaryOp::Multiply || op == BinaryOp::Divide || op == BinaryOp::Modulo {
                    matched = true;
                    self.consume();
                    let rhs = match self.parse_unary_expression(ctrl_id) {
                        Ok(id) => id,
                        Err(e) => return Err(e),
                    };
                    let ghost pre = self.exprs@;
                    total_id = match self.exprs.binary(op, total_id, rhs) {
                        Ok(id) => id,
                        Err(e) => return Err(e),
                    };
                    proof {
                        lemma_ctrls_wf_grow(
                            self.ctrls@,
                            pre.len() as int,
                            self.exprs@.len() as int,
                        );
                    }
                }
            }
            if !matched {
                looping = false;
            }
        }
        Ok(total_id)
    }

    fn parse_unary_expression(&mut self, ctrl_id: Id<Ctrl>) -> (r: Result<Id<Expr>, BuildError>)
        requires
            old(self).wf(),
            ctrl_id@ < old(self).ctrls@.len(),
            has_symbols(old(self).ctrls@[ctrl_id@]),
        ensures
            final(self).wf(),
            final(self).tokens@ == old(self).tokens@,
            final(self).ctrls@ == old(self).ctrls@,
            old(self).spec_pos() <= final(self).spec_pos() <= final(self).num_tokens(),
            old(self).exprs@.len() <= final(self).exprs@.len(),
            r matches Ok(eid) ==> eid@ < final(self).exprs@.len() && final(self).spec_pos() > old(
                self,
            ).spec_pos(),
            r matches Err(e) ==> parse_error(e),
        decreases old(self).num_tokens() - old(self).spec_pos(), 1int,
    {
        if self.pos < self.tokens.len() {
            let is_minus = matches!(&self.tokens[self.pos], Token::Minus);
            let is_excl = matches!(&self.tokens[self.pos], Token::Excl);
            if is_minus || is_excl {
                self.consume();
                let e = match self.parse_unary_expression(ctrl_id) {
                    Ok(id) => id,
                    Err(err) => return Err(err),
                };
                let op = if is_minus {
                    UnaryOp::Negate
                } else {
                    UnaryOp::Not
                };
                let ghost pre = self.exprs@;
                let r = match self.exprs.unary(op, e) {
                    Ok(id) => id,
                    Err(err) => return Err(err),
                };
                proof {
                    lemma_ctrls_wf_grow(self.ctrls@, pre.len() as int, self.exprs@.len() as int);
                }
                return Ok(r);
            }
        }
        self.parse_primary_expression(ctrl_id)
    }

    fn parse_primary_expression(&mut self, ctrl_id: Id<Ctrl>) -> (r: Result<Id<Expr>, BuildError>)
        requires
            old(self).wf(),
            ctrl_id@ < old(self).ctrls@.len(),
            has_symbols(old(self).ctrls@[ctrl_id@]),
        ensures
            final(self).wf(),
            final(self).tokens@ == old(self).tokens@,
            final(self).ctrls@ == old(self).ctrls@,
            old(self).spec_pos() <= final(self).spec_pos() <= final(self).num_tokens(),
            old(self).exprs@.len() <= final(self).exprs@.len(),
            r matches Ok(eid) ==> eid@ < final(self).exprs@.len() && final(self).spec_pos() > old(
                self,
            ).spec_pos(),
            r matches Err(e) ==> parse_error(e),
            old(self).spec_pos() < old(self).num_tokens() ==> (old(
                self,
            ).tokens@[old(self).spec_pos()] matches Token::Identifier(name) ==> ({
                let scopes = ctrl_symbols(old(self).ctrls@[ctrl_id@]);
                &&& final(self).exprs@ == old(self).exprs@
                &&& match r {
                    Ok(eid) => lookup(scopes, name@) == Some(eid@),
                    Err(e) => lookup(scopes, name@) is None && (e matches
                        BuildError::UndefinedSymbol(m) && m@ == name@),
                }
            })),
            old(self).spec_pos() < old(self).num_tokens() ==> (old(
                self,
            ).tokens@[old(self).spec_pos()] matches Token::Integer(v) ==> (match r {
                Ok(eid) => final(self).exprs@ == old(self).exprs@.push(
                    Expr::Constant { value: Value::Int(IntValue::Constant(v)) },
                ) && eid@ == old(self).exprs@.len(),
                Err(_) => false,
            })),
        decreases old(self).num_tokens() - old(self).spec_pos(), 0int,
    {
        if self.pos >= self.tokens.len() {
            return Err(BuildError::UnexpectedEnd);
        }
        let is_open_paren = matches!(&self.tokens[self.pos], Token::OpenParen);
        let int_opt: Option<i64> = match &self.tokens[self.pos] {
            Token::Integer(v) => Some(*v),
            _ => None,
        };
        let name_opt: Option<String> = match &self.tokens[self.pos] {
            Token::Identifier(n) => Some(n.clone()),
            _ => None,
        };
        if is_open_paren {
            self.consume();
            let e = match self.parse_expression(ctrl_id) {
                Ok(id) => id,
                Err(err) => return Err(err),
            };
            match self.expect(&Token::CloseParen) {
                Ok(()) => Ok(e),
                Err(err) => Err(err),
            }
        } else if let Some(v) = int_opt {
            self.consume();
            let ghost pre = self.exprs@;
            let id = self.exprs.constant(Value::Int(IntValue::Constant(v)));
            proof {
                lemma_ctrls_wf_grow(self.ctrls@, pre.len() as int, self.exprs@.len() as int);
            }
            Ok(id)
        } else if let Some(name) = name_opt {
            self.consume();
            proof {
                assert(crate::ctrl::ctrl_wf_at(
                    self.ctrls@,
                    ctrl_id@,
                    self.exprs@.len() as int,
                ));
            }
            match self.ctrls.get_symbol(ctrl_id, &name) {
                Some(eid) => {
                    proof {
                        lemma_lookup_in_range(
                            ctrl_symbols(self.ctrls@[ctrl_id@]),
                            name@,
                            self.exprs@.len() as int,
                        );
                    }
                    Ok(eid)
                },
                None => Err(BuildError::UndefinedSymbol(name)),
            }
        } else {
            Err(BuildError::UnexpectedToken)
        }
    }

    /// Parses one statement in the control context `ctrl_id`.
    ///
    /// Hands back the statement's own control node when it produced
    /// one (a return or a conditional), together with the control
    /// context the *next* statement must use: normally `ctrl_id`
    /// itself, but after a conditional it is the branch's `Merge`
    /// node, so that later scope lookups see the reconciled bindings.
    fn parse_statement(&mut self, ctrl_id: Id<Ctrl>) -> (r: Result<
        (Option<Id<Ctrl>>, Id<Ctrl>),
        BuildError,
    >)
        requires
            old(self).wf(),
            ctrl_id@ < old(self).ctrls@.len(),
            has_symbols(old(self).ctrls@[ctrl_id@]),
            ctrl_symbols(old(self).ctrls@[ctrl_id@]).len() > 0,
        ensures
            final(self).wf(),
            final(self).tokens@ == old(self).tokens@,
            old(self).spec_pos() <= final(self).spec_pos() <= final(self).num_tokens(),
            old(self).exprs@.len() <= final(self).exprs@.len(),
            old(self).ctrls@.len() <= final(self).ctrls@.len(),
            forall|k: int|
                0 <= k < old(self).ctrls@.len() && k != ctrl_id@ ==> final(self).ctrls@[k] == old(
                    self,
                ).ctrls@[k],
            has_symbols(final(self).ctrls@[ctrl_id@]),
            same_but_symbols(old(self).ctrls@[ctrl_id@], final(self).ctrls@[ctrl_id@]),
            r matches Err(e) ==> parse_error(e),
            r matches Ok(rr) ==> ({
                let cur = rr.1;
                &&& final(self).spec_pos() > old(self).spec_pos()
                &&& cur@ < final(self).ctrls@.len()
                &&& (cur == ctrl_id || cur@ >= old(self).ctrls@.len())
                &&& has_symbols(final(self).ctrls@[cur@])
                &&& ctrl_symbols(final(self).ctrls@[cur@]).len() == ctrl_symbols(
                    old(self).ctrls@[ctrl_id@],
                ).len()
                &&& same_shape(
                    ctrl_symbols(old(self).ctrls@[ctrl_id@]).drop_last(),
                    ctrl_symbols(final(self).ctrls@[cur@]).drop_last(),
                )
                &&& (rr.0 matches Some(cid) ==> cid@ < final(self).ctrls@.len()
                    && (final(self).ctrls@[cid@] is Return || final(self).ctrls@[cid@] is If))
            }),
            old(self).spec_pos() < old(self).num_tokens() && old(
                self,
            ).tokens@[old(self).spec_pos()] is Return ==> (match r {
                Ok(rr) => rr.1 == ctrl_id && (rr.0 matches Some(cid)
                    && final(self).ctrls@[cid@] matches Ctrl::Return { ctrl_id: p, .. } && p
                    == ctrl_id),
                Err(_) => true,
            }),
            old(self).spec_pos() < old(self).num_tokens() && old(
                self,
            ).tokens@[old(self).spec_pos()] is If ==> (match r {
                Ok(rr) => ((rr.0 matches Some(cid) && final(self).ctrls@[cid@] is If)
                    && final(self).ctrls@[rr.1@] is Merge),
                Err(_) => true,
            }),
            old(self).spec_pos() + 1 < old(self).num_tokens() && old(
                self,
            ).tokens@[old(self).spec_pos()] is Int ==> (old(
                self,
            ).tokens@[old(self).spec_pos() + 1] matches Token::Identifier(name) ==> match r {
                Ok(rr) => rr.0 is None && rr.1 == ctrl_id && (exists|e: int|
                    0 <= e < final(self).exprs@.len() && #[trigger] spec_declare(
                        ctrl_symbols(old(self).ctrls@[ctrl_id@]),
                        name@,
                        e,
                    ) == ctrl_symbols(final(self).ctrls@[ctrl_id@])),
                Err(_) => true,
            }),
            old(self).spec_pos() < old(self).num_tokens() ==> (old(
                self,
            ).tokens@[old(self).spec_pos()] matches Token::Identifier(name) ==> match r {
                Ok(rr) => rr.0 is None && rr.1 == ctrl_id && (exists|e: int|
                    0 <= e < final(self).exprs@.len() && #[trigger] spec_set(
                        ctrl_symbols(old(self).ctrls@[ctrl_id@]),
                        name@,
                        e,
                    ) == Some(ctrl_symbols(final(self).ctrls@[ctrl_id@]))),
                Err(_) => true,
            }),
        decreases old(self).num_tokens() - old(self).spec_pos(), 13int,
    {
        if self.pos >= self.tokens.len() {
            return Err(BuildError::UnexpectedEnd);
        }
        let is_return_tok = matches!(&self.tokens[self.pos], Token::Return);
        let is_int_tok = matches!(&self.tokens[self.pos], Token::Int);
        let is_brace_tok = matches!(&self.tokens[self.pos], Token::OpenBrace);
        let is_if_tok = matches!(&self.tokens[self.pos], Token::If);
        let assign_name: Option<String> = match &self.tokens[self.pos] {
            Token::Identifier(n) => Some(n.clone()),
            _ => None,
        };
        if is_return_tok {
            self.consume();
            let e = match self.parse_expression(ctrl_id) {
                Ok(id) => id,
                Err(err) => return Err(err),
            };
            match self.expect(&Token::Semicolon) {
                Ok(()) => {},
                Err(err) => return Err(err),
            }
            let rid = self.ctrls.ret(ctrl_id, e);
            proof {
                assert(ctrls_wf(self.ctrls@, self.exprs@.len() as int));
            }
            Ok((Some(rid), ctrl_id))
        } else if is_int_tok {
            self.consume();
            if self.pos >= self.tokens.len() {
                return Err(BuildError::UnexpectedEnd);
            }
            let name_opt: Option<String> = match &self.tokens[self.pos] {
                Token::Identifier(n) => Some(n.clone()),
                _ => None,
            };
            let name = match name_opt {
                Some(n) => n,
                None => return Err(BuildError::UnexpectedToken),
            };
            self.consume();
            match self.expect(&Token::Equal) {
                Ok(()) => {},
                Err(err) => return Err(err),
            }
            let e = match self.parse_expression(ctrl_id) {
                Ok(id) => id,
                Err(err) => return Err(err),
            };
            match self.expect(&Token::Semicolon) {
                Ok(()) => {},
                Err(err) => return Err(err),
            }
            self.ctrls.declare(ctrl_id, &name, e);
            proof {
                assert(ctrls_wf(self.ctrls@, self.exprs@.len() as int));
                assert(ctrl_symbols(self.ctrls@[ctrl_id@]).drop_last() =~~= ctrl_symbols(
                    old(self).ctrls@[ctrl_id@],
                ).drop_last());
            }
            Ok((None, ctrl_id))
        } else if is_brace_tok {
            self.consume();
            self.ctrls.push_scope(ctrl_id);
            proof {
                assert(ctrls_wf(self.ctrls@, self.exprs@.len() as int));
                assert(ctrl_symbols(self.ctrls@[ctrl_id@]).drop_last() =~~= ctrl_symbols(
                    old(self).ctrls@[ctrl_id@],
                ));
            }
            let ghost entry_scopes = ctrl_symbols(old(self).ctrls@[ctrl_id@]);
            let mut cur: Id<Ctrl> = ctrl_id;
            let mut result_id: Option<Id<Ctrl>> = None;
            let mut in_block = true;
            while in_block
                invariant
                    self.wf(),
                    self.tokens@ == old(self).tokens@,
                    entry_scopes == ctrl_symbols(old(self).ctrls@[ctrl_id@]),
                    entry_scopes.len() > 0,
                    ctrl_id@ < self.ctrls@.len(),
                    cur@ < self.ctrls@.len(),
                    cur == ctrl_id || cur@ >= old(self).ctrls@.len(),
                    has_symbols(self.ctrls@[ctrl_id@]),
                    same_but_symbols(old(self).ctrls@[ctrl_id@], self.ctrls@[ctrl_id@]),
                    has_symbols(self.ctrls@[cur@]),
                    ctrl_symbols(self.ctrls@[cur@]).len() == entry_scopes.len() + 1,
                    same_shape(
                        entry_scopes,
                        ctrl_symbols(self.ctrls@[cur@]).drop_last(),
                    ),
                    old(self).spec_pos() < self.spec_pos() <= self.num_tokens(),
                    old(self).exprs@.len() <= self.exprs@.len(),
                    old(self).ctrls@.len() <= self.ctrls@.len(),
                    forall|k: int|
                        0 <= k < old(self).ctrls@.len() && k != ctrl_id@ ==> self.ctrls@[k]
                            == old(self).ctrls@[k],
                    result_id matches Some(cid) ==> cid@ < self.ctrls@.len() && (
                    self.ctrls@[cid@] is Return || self.ctrls@[cid@] is If),
                decreases self.num_tokens() - self.spec_pos(), (if in_block {
                    1int
                } else {
                    0int
                }),
            {
                if self.pos >= self.tokens.len() {
                    return Err(BuildError::UnexpectedEnd);
                }
                let is_close = matches!(&self.tokens[self.pos], Token::CloseBrace);
                if is_close {
                    self.consume();
                    in_block = false;
                } else {
                    let ghost pre_table = ctrl_symbols(self.ctrls@[cur@]);
                    let stepped = match self.parse_statement(cur) {
                        Ok(p) => p,
                        Err(err) => return Err(err),
                    };
                    result_id = stepped.0;
                    let next = stepped.1;
                    proof {
                        lemma_same_shape_trans(
                            entry_scopes,
                            pre_table.drop_last(),
                            ctrl_symbols(self.ctrls@[next@]).drop_last(),
                        );
                    }
                    cur = next;
                }
            }
            match self.ctrls.pop_scope(cur) {
                Ok(()) => {},
                Err(err) => return Err(err),
            }
            proof {
                lemma_same_shape_drop_last(
                    entry_scopes,
                    ctrl_symbols(self.ctrls@[cur@]),
                );
            }
            Ok((result_id, cur))
        } else if is_if_tok {
            self.consume();
            let cond = match self.parse_expression(ctrl_id) {
                Ok(id) => id,
                Err(err) => return Err(err),
            };
            let ghost snapshot = ctrl_symbols(self.ctrls@[ctrl_id@]);
            let then_id = self.ctrls.then_arm(ctrl_id);
            self.ctrls.push_scope(then_id);
            proof {
                assert(ctrls_wf(self.ctrls@, self.exprs@.len() as int));
                assert(ctrl_symbols(self.ctrls@[then_id@]).drop_last() =~~= snapshot);
            }
            let then_step = match self.parse_statement(then_id) {
                Ok(p) => p,
                Err(err) => return Err(err),
            };
            let cur1 = then_step.1;
            match self.ctrls.pop_scope(cur1) {
                Ok(()) => {},
                Err(err) => return Err(err),
            }
            proof {
                assert(same_shape(snapshot, ctrl_symbols(self.ctrls@[cur1@])));
            }
            let else_id = self.ctrls.else_arm(ctrl_id);
            let mut merge_rhs: Id<Ctrl> = else_id;
            let mut has_else = false;
            if self.pos < self.tokens.len() {
                let is_else = matches!(&self.tokens[self.pos], Token::Else);
                if is_else {
                    self.consume();
                    self.ctrls.push_scope(else_id);
                    proof {
                        assert(ctrls_wf(self.ctrls@, self.exprs@.len() as int));
                        assert(ctrl_symbols(self.ctrls@[else_id@]).drop_last()
                            =~~= snapshot);
                    }
                    let else_step = match self.parse_statement(else_id) {
                        Ok(p) => p,
                        Err(err) => return Err(err),
                    };
                    let cur2 = else_step.1;
                    match self.ctrls.pop_scope(cur2) {
                        Ok(()) => {},
                        Err(err) => return Err(err),
                    }
                    proof {
                        assert(same_shape(snapshot, ctrl_symbols(self.ctrls@[cur2@])));
                    }
                    merge_rhs = cur2;
                    has_else = true;
                }
            }
            let if_id = self.ctrls.if_(ctrl_id, cond, then_id, if has_else {
                Some(else_id)
            } else {
                None
            });
            proof {
                assert(ctrls_wf(self.ctrls@, self.exprs@.len() as int));
                let ts = ctrl_symbols(self.ctrls@[cur1@]);
                let es = ctrl_symbols(self.ctrls@[merge_rhs@]);
                assert(same_shape(snapshot, ts));
                assert(same_shape(snapshot, es));
                assert forall|i: int| 0 <= i < ts.len() implies (#[trigger] ts[i]).len()
                    == es[i].len() by {
                    assert(ts[i].len() == snapshot[i].len());
                    assert(es[i].len() == snapshot[i].len());
                }
                assert forall|i: int, k: int| 0 <= i < ts.len() && 0 <= k < ts[i].len()
                    implies (#[trigger] ts[i][k]).0 == es[i][k].0 by {
                    assert(ts[i].len() == snapshot[i].len());
                    assert(ts[i][k].0 == snapshot[i][k].0);
                    assert(es[i][k].0 == snapshot[i][k].0);
                }
            }
            let ghost ts_before = ctrl_symbols(self.ctrls@[cur1@]);
            let merge_id = match self.ctrls.merge(&mut self.exprs, cur1, merge_rhs) {
                Ok(m) => m,
                Err(err) => return Err(err),
            };
            proof {
                let ms = ctrl_symbols(self.ctrls@[merge_id@]);
                assert(same_shape(ts_before, ms));
                lemma_same_shape_trans(snapshot, ts_before, ms);
                lemma_same_shape_drop_last(snapshot, ms);
            }
            Ok((Some(if_id), merge_id))
        } else if let Some(name) = assign_name {
            self.consume();
            match self.expect(&Token::Equal) {
                Ok(()) => {},
                Err(err) => return Err(err),
            }
            let e = match self.parse_expression(ctrl_id) {
                Ok(id) => id,
                Err(err) => return Err(err),
            };
            match self.expect(&Token::Semicolon) {
                Ok(()) => {},
                Err(err) => return Err(err),
            }
            let ghost symbols_before = ctrl_symbols(self.ctrls@[ctrl_id@]);
            match self.ctrls.set(ctrl_id, &name, e) {
                Ok(()) => {
                    proof {
                        crate::symbols::lemma_spec_set_len(symbols_before, name@, e@);
                        crate::symbols::lemma_spec_set_shape(symbols_before, name@, e@);
                        lemma_same_shape_drop_last(
                            symbols_before,
                            ctrl_symbols(self.ctrls@[ctrl_id@]),
                        );
                        assert(ctrls_wf(self.ctrls@, self.exprs@.len() as int));
                    }
                    Ok((None, ctrl_id))
                },
                Err(err) => Err(err),
            }
        } else {
            Err(BuildError::UnexpectedToken)
        }
    }

    /// Parses a whole program
    /// Parses a whole program: a statement sequence in a fresh root
    /// scope, whose last control-producing statement is the program's
    /// result.  After a conditional the sequence continues in the
    /// branch's `Merge` context, so later statements see the
    /// reconciled bindings.
    pub fn parse_program(&mut self) -> (r: Result<Id<Ctrl>, BuildError>)
        requires
            old(self).wf(),
        ensures
            final(self).wf(),
            r matches Ok(cid) ==> cid@ < final(self).ctrls@.len() && (final(self).ctrls@[cid@]
                is Return || final(self).ctrls@[cid@] is If)
                && final(self).spec_pos() == final(self).num_tokens(),
            r == Err::<Id<Ctrl>, BuildError>(BuildError::MissingReturn) ==> final(self).spec_pos()
                == final(self).num_tokens(),
            old(self).ctrls@.len() < final(self).ctrls@.len() && final(self).ctrls@[old(
                self,
            ).ctrls@.len() as int] is Start,
    {
        let start_id = self.ctrls.start();
        proof {
            assert(ctrls_wf(self.ctrls@, self.exprs@.len() as int));
        }
        self.ctrls.push_scope(start_id);
        proof {
            assert(ctrls_wf(self.ctrls@, self.exprs@.len() as int));
        }
        let mut cur: Id<Ctrl> = start_id;
        let mut result: Option<Id<Ctrl>> = None;
        while self.pos < self.tokens.len()
            invariant
                self.wf(),
                start_id@ == old(self).ctrls@.len(),
                start_id@ < self.ctrls@.len(),
                self.ctrls@[start_id@] is Start,
                cur@ < self.ctrls@.len(),
                cur == start_id || cur@ > start_id@,
                has_symbols(self.ctrls@[cur@]),
                ctrl_symbols(self.ctrls@[cur@]).len() > 0,
                result matches Some(cid) ==> cid@ < self.ctrls@.len() && (self.ctrls@[cid@]
                    is Return || self.ctrls@[cid@] is If),
            decreases self.num_tokens() - self.spec_pos(),
        {
            let stepped = match self.parse_statement(cur) {
                Ok(p) => p,
                Err(err) => return Err(err),
            };
            result = stepped.0;
            cur = stepped.1;
        }
        match self.ctrls.pop_scope(cur) {
            Ok(()) => {},
            Err(err) => return Err(err),
        }
        match result {
            Some(rid) => Ok(rid),
            None => Err(BuildError::MissingReturn),
        }
    }
}

} // verus!
