//! The tokens of the source language.

use vstd::prelude::*;

verus! {

/// A lexical token.
#[derive(Debug, Clone)]
pub enum Token {
    Eof,
    Integer(i64),
    Identifier(String),
    Plus,
    PlusPlus,
    Minus,
    MinusMinus,
    MinusGreater,
    Star,
    Slash,
    Percent,
    Amp,
    AmpAmp,
    Bar,
    BarBar,
    Caret,
    Tilde,
    Excl,
    ExclEqual,
    Equal,
    EqualEqual,
    Less,
    LessEqual,
    LessLess,
    Greater,
    GreaterEqual,
    GreaterGreater,
    OpenParen,
    CloseParen,
    OpenBrace,
    CloseBrace,
    Semicolon,
    Fn,
    Return,
    Int,
    If,
    Else,
}

} // verus!
