//! The lexer: source text to tokens.
//!
//! The tokenizer is a boundary collaborator of the construction core.
//! It is verified to be panic-free and to make progress, and `next`
//! carries a leading-byte specification: for every byte that can start
//! a token it pins down which token comes back, exactly for the
//! punctuation family and by class for numbers and words.  Bytes
//! outside the language's alphabet are skipped; an integer literal too
//! large for 64 bits wraps.

use vstd::prelude::*;
use vstd::string::StringSliceAdditionalSpecFns;

use crate::token::Token;

verus! {

// ASCII codes of the bytes the lexer recognizes.
pub const BYTE_SPACE: u8 = 32;
pub const BYTE_TAB: u8 = 9;
pub const BYTE_NEWLINE: u8 = 10;
pub const BYTE_CARRIAGE_RETURN: u8 = 13;
pub const BYTE_ZERO: u8 = 48;
pub const BYTE_NINE: u8 = 57;
pub const BYTE_LOWER_A: u8 = 97;
pub const BYTE_LOWER_Z: u8 = 122;
pub const BYTE_UPPER_A: u8 = 65;
pub const BYTE_UPPER_Z: u8 = 90;
pub const BYTE_OPEN_PAREN: u8 = 40;
pub const BYTE_CLOSE_PAREN: u8 = 41;
pub const BYTE_OPEN_BRACE: u8 = 123;
pub const BYTE_CLOSE_BRACE: u8 = 125;
pub const BYTE_SEMICOLON: u8 = 59;
pub const BYTE_STAR: u8 = 42;
pub const BYTE_SLASH: u8 = 47;
pub const BYTE_PERCENT: u8 = 37;
pub const BYTE_CARET: u8 = 94;
pub const BYTE_TILDE: u8 = 126;
pub const BYTE_PLUS: u8 = 43;
pub const BYTE_MINUS: u8 = 45;
pub const BYTE_GREATER: u8 = 62;
pub const BYTE_EQUAL: u8 = 61;
pub const BYTE_EXCL: u8 = 33;
pub const BYTE_LESS: u8 = 60;
pub const BYTE_AMP: u8 = 38;
pub const BYTE_BAR: u8 = 124;
pub const BYTE_LETTER_F: u8 = 102;
pub const BYTE_LETTER_N: u8 = 110;
pub const BYTE_LETTER_I: u8 = 105;
pub const BYTE_LETTER_T: u8 = 116;
pub const BYTE_LETTER_E: u8 = 101;
pub const BYTE_LETTER_L: u8 = 108;
pub const BYTE_LETTER_S: u8 = 115;
pub const BYTE_LETTER_R: u8 = 114;
pub const BYTE_LETTER_U: u8 = 117;


/// A cursor over the bytes of one source text.
pub struct Tokenizer {
    bytes: Vec<u8>,
    pos: usize,
}

/// A decimal digit byte.
pub open spec fn is_digit_byte(b: u8) -> bool {
    BYTE_ZERO <= b <= BYTE_NINE
}

/// A letter byte, either case.
pub open spec fn is_letter_byte(b: u8) -> bool {
    (BYTE_LOWER_A <= b <= BYTE_LOWER_Z) || (BYTE_UPPER_A <= b <= BYTE_UPPER_Z)
}

/// The first byte of a punctuation token.
pub open spec fn is_punct_start_byte(b: u8) -> bool {
    ||| b == BYTE_OPEN_PAREN
    ||| b == BYTE_CLOSE_PAREN
    ||| b == BYTE_OPEN_BRACE
    ||| b == BYTE_CLOSE_BRACE
    ||| b == BYTE_SEMICOLON
    ||| b == BYTE_STAR
    ||| b == BYTE_SLASH
    ||| b == BYTE_PERCENT
    ||| b == BYTE_CARET
    ||| b == BYTE_TILDE
    ||| b == BYTE_PLUS
    ||| b == BYTE_MINUS
    ||| b == BYTE_EQUAL
    ||| b == BYTE_EXCL
    ||| b == BYTE_LESS
    ||| b == BYTE_GREATER
    ||| b == BYTE_AMP
    ||| b == BYTE_BAR
}

/// A byte that starts a token; every other byte is skipped.
pub open spec fn token_start_byte(b: u8) -> bool {
    is_digit_byte(b) || is_letter_byte(b) || is_punct_start_byte(b)
}

impl Tokenizer {
    /// The cursor never points past the end of the source.
    pub closed spec fn wf(self) -> bool {
        self.pos <= self.bytes@.len()
    }

    /// How many bytes are left to scan.
    pub closed spec fn remaining(self) -> int {
        self.bytes@.len() - self.pos
    }

    /// The bytes of the source text.
    pub closed spec fn bytes_view(self) -> Seq<u8> {
        self.bytes@
    }

    /// The byte position of the cursor.
    pub closed spec fn cursor(self) -> int {
        self.pos as int
    }

    pub fn new(source: &str) -> (t: Tokenizer)
        ensures
            t.wf(),
            t.bytes_view() == source.spec_bytes(),
            t.cursor() == 0,
    {
        let bs = source.as_bytes();
        let mut bytes: Vec<u8> = Vec::new();
        let mut i: usize = 0;
        while i < bs.len()
            invariant
                i <= bs@.len(),
                bytes@ == bs@.take(i as int),
            decreases bs@.len() - i,
        {
            bytes.push(bs[i]);
            i = i + 1;
        }
        proof {
            assert(bytes@ =~= bs@);
        }
        Tokenizer { bytes, pos: 0 }
    }

    /// Advances past the byte under the cursor.
    fn consume(&mut self)
        requires
            old(self).wf(),
            old(self).remaining() > 0,
        ensures
            final(self).wf(),
            final(self).bytes_view() == old(self).bytes_view(),
            final(self).cursor() == old(self).cursor() + 1,
            final(self).remaining() == old(self).remaining() - 1,
    {
        if self.pos < self.bytes.len() {
            self.pos = self.pos + 1;
        }
    }

    /// The next token, or `None` once the source is exhausted.
    pub fn next(&mut self) -> (r: Option<Token>)
        requires
            old(self).wf(),
        ensures
            final(self).wf(),
            final(self).remaining() <= old(self).remaining(),
            r is Some ==> final(self).remaining() < old(self).remaining(),
            r is None ==> final(self).remaining() == 0,
            old(self).remaining() > 0 ==> ({
                let bs = old(self).bytes_view();
                let here = old(self).cursor();
                let b = bs[here];
                let two = here + 1 < bs.len();
                &&& (is_digit_byte(b) ==> (r matches Some(t) && t is Integer))
                &&& (is_letter_byte(b) ==> (r matches Some(t) && (t is Fn || t is Return
                    || t is Int || t is If || t is Else || t is Identifier)))
                &&& (b == BYTE_OPEN_PAREN ==> r == Some(Token::OpenParen))
                &&& (b == BYTE_CLOSE_PAREN ==> r == Some(Token::CloseParen))
                &&& (b == BYTE_OPEN_BRACE ==> r == Some(Token::OpenBrace))
                &&& (b == BYTE_CLOSE_BRACE ==> r == Some(Token::CloseBrace))
                &&& (b == BYTE_SEMICOLON ==> r == Some(Token::Semicolon))
                &&& (b == BYTE_STAR ==> r == Some(Token::Star))
                &&& (b == BYTE_SLASH ==> r == Some(Token::Slash))
                &&& (b == BYTE_PERCENT ==> r == Some(Token::Percent))
                &&& (b == BYTE_CARET ==> r == Some(Token::Caret))
                &&& (b == BYTE_TILDE ==> r == Some(Token::Tilde))
                &&& (b == BYTE_PLUS ==> r == (if two && bs[here + 1] == BYTE_PLUS {
                    Some(Token::PlusPlus)
                } else {
                    Some(Token::Plus)
                }))
                &&& (b == BYTE_MINUS ==> r == (if two && bs[here + 1] == BYTE_MINUS {
                    Some(Token::MinusMinus)
                } else if two && bs[here + 1] == BYTE_GREATER {
                    Some(Token::MinusGreater)
                } else {
                    Some(Token::Minus)
                }))
                &&& (b == BYTE_EQUAL ==> r == (if two && bs[here + 1] == BYTE_EQUAL {
                    Some(Token::EqualEqual)
                } else {
                    Some(Token::Equal)
                }))
                &&& (b == BYTE_EXCL ==> r == (if two && bs[here + 1] == BYTE_EQUAL {
                    Some(Token::ExclEqual)
                } else {
                    Some(Token::Excl)
                }))
                &&& (b == BYTE_LESS ==> r == (if two && bs[here + 1] == BYTE_EQUAL {
                    Some(Token::LessEqual)
                } else if two && bs[here + 1] == BYTE_LESS {
                    Some(Token::LessLess)
                } else {
                    Some(Token::Less)
                }))
                &&& (b == BYTE_GREATER ==> r == (if two && bs[here + 1] == BYTE_EQUAL {
                    Some(Token::GreaterEqual)
                } else if two && bs[here + 1] == BYTE_GREATER {
                    Some(Token::GreaterGreater)
                } else {
                    Some(Token::Greater)
                }))
                &&& (b == BYTE_AMP ==> r == (if two && bs[here + 1] == BYTE_AMP {
                    Some(Token::AmpAmp)
                } else {
                    Some(Token::Amp)
                }))
                &&& (b == BYTE_BAR ==> r == (if two && bs[here + 1] == BYTE_BAR {
                    Some(Token::BarBar)
                } else {
                    Some(Token::Bar)
                }))
            }),
    {
        while self.pos < self.bytes.len()
            invariant
                self.wf(),
                self.bytes_view() == old(self).bytes_view(),
                self.remaining() <= old(self).remaining(),
                self.cursor() == old(self).cursor() || (old(self).remaining() > 0
                    ==> !token_start_byte(old(self).bytes_view()[old(self).cursor()])),
            decreases self.remaining(),
        {
            let c = self.bytes[self.pos];
            if c == BYTE_SPACE || c == BYTE_TAB || c == BYTE_NEWLINE || c == BYTE_CARRIAGE_RETURN {
                self.consume();
            } else if BYTE_ZERO <= c && c <= BYTE_NINE {
                let mut n: i64 = (c - BYTE_ZERO) as i64;
                self.consume();
                while self.pos < self.bytes.len()
                    invariant
                        self.wf(),
                        self.remaining() < old(self).remaining(),
                        old(self).remaining() > 0 ==> is_digit_byte(
                            old(self).bytes_view()[old(self).cursor()],
                        ) || !token_start_byte(old(self).bytes_view()[old(self).cursor()]),
                    decreases self.remaining(),
                {
                    let d = self.bytes[self.pos];
                    if BYTE_ZERO <= d && d <= BYTE_NINE {
                        n = n.wrapping_mul(10).wrapping_add((d - BYTE_ZERO) as i64);
                        self.consume();
                    } else {
                        return Some(Token::Integer(n));
                    }
                }
                return Some(Token::Integer(n));
            } else if (BYTE_LOWER_A <= c && c <= BYTE_LOWER_Z) || (BYTE_UPPER_A <= c && c <= BYTE_UPPER_Z) {
                let mut name_bytes: Vec<u8> = Vec::new();
                name_bytes.push(c);
                self.consume();
                let mut scanning = true;
                while scanning
                    invariant
                        self.wf(),
                        self.remaining() < old(self).remaining(),
                        old(self).remaining() > 0 ==> is_letter_byte(
                            old(self).bytes_view()[old(self).cursor()],
                        ) || !token_start_byte(old(self).bytes_view()[old(self).cursor()]),
                    decreases self.remaining(), (if scanning {
                        1int
                    } else {
                        0int
                    }),
                {
                    if self.pos < self.bytes.len() {
                        let d = self.bytes[self.pos];
                        if (BYTE_LOWER_A <= d && d <= BYTE_LOWER_Z) || (BYTE_UPPER_A <= d && d <= BYTE_UPPER_Z) || (BYTE_ZERO <= d && d
                            <= BYTE_NINE) {
                            name_bytes.push(d);
                            self.consume();
                        } else {
                            scanning = false;
                        }
                    } else {
                        scanning = false;
                    }
                }
                return Some(keyword_or_identifier(name_bytes));
            } else {
                self.consume();
                if c == BYTE_OPEN_PAREN {
                    return Some(Token::OpenParen);
                } else if c == BYTE_CLOSE_PAREN {
                    return Some(Token::CloseParen);
                } else if c == BYTE_OPEN_BRACE {
                    return Some(Token::OpenBrace);
                } else if c == BYTE_CLOSE_BRACE {
                    return Some(Token::CloseBrace);
                } else if c == BYTE_SEMICOLON {
                    return Some(Token::Semicolon);
                } else if c == BYTE_STAR {
                    return Some(Token::Star);
                } else if c == BYTE_SLASH {
                    return Some(Token::Slash);
                } else if c == BYTE_PERCENT {
                    return Some(Token::Percent);
                } else if c == BYTE_CARET {
                    return Some(Token::Caret);
                } else if c == BYTE_TILDE {
                    return Some(Token::Tilde);
                } else if c == BYTE_PLUS {
                    if self.pos < self.bytes.len() && self.bytes[self.pos] == BYTE_PLUS {
                        self.consume();
                        return Some(Token::PlusPlus);
                    }
                    return Some(Token::Plus);
                } else if c == BYTE_MINUS {
                    if self.pos < self.bytes.len() && self.bytes[self.pos] == BYTE_MINUS {
                        self.consume();
                        return Some(Token::MinusMinus);
                    }
                    if self.pos < self.bytes.len() && self.bytes[self.pos] == BYTE_GREATER {
                        self.consume();
                        return Some(Token::MinusGreater);
                    }
                    return Some(Token::Minus);
                } else if c == BYTE_EQUAL {
                    if self.pos < self.bytes.len() && self.bytes[self.pos] == BYTE_EQUAL {
                        self.consume();
                        return Some(Token::EqualEqual);
                    }
                    return Some(Token::Equal);
                } else if c == BYTE_EXCL {
                    if self.pos < self.bytes.len() && self.bytes[self.pos] == BYTE_EQUAL {
                        self.consume();
                        return Some(Token::ExclEqual);
                    }
                    return Some(Token::Excl);
                } else if c == BYTE_LESS {
                    if self.pos < self.bytes.len() && self.bytes[self.pos] == BYTE_EQUAL {
                        self.consume();
                        return Some(Token::LessEqual);
                    }
                    if self.pos < self.bytes.len() && self.bytes[self.pos] == BYTE_LESS {
                        self.consume();
                        return Some(Token::LessLess);
                    }
                    return Some(Token::Less);
                } else if c == BYTE_GREATER {
                    if self.pos < self.bytes.len() && self.bytes[self.pos] == BYTE_EQUAL {
                        self.consume();
                        return Some(Token::GreaterEqual);
                    }
                    if self.pos < self.bytes.len() && self.bytes[self.pos] == BYTE_GREATER {
                        self.consume();
                        return Some(Token::GreaterGreater);
                    }
                    return Some(Token::Greater);
                } else if c == BYTE_AMP {
                    if self.pos < self.bytes.len() && self.bytes[self.pos] == BYTE_AMP {
                        self.consume();
                        return Some(Token::AmpAmp);
                    }
                    return Some(Token::Amp);
                } else if c == BYTE_BAR {
                    if self.pos < self.bytes.len() && self.bytes[self.pos] == BYTE_BAR {
                        self.consume();
                        return Some(Token::BarBar);
                    }
                    return Some(Token::Bar);
                }
                // any other byte is outside the language's alphabet
                // and is skipped
            }
        }
        None
    }

    /// All tokens of the source, in order.
    pub fn tokenize(&mut self) -> (r: Vec<Token>)
        requires
            old(self).wf(),
        ensures
            final(self).wf(),
    {
        let mut tokens: Vec<Token> = Vec::new();
        let mut more = true;
        while more
            invariant
                self.wf(),
            decreases self.remaining(), (if more {
                1int
            } else {
                0int
            }),
        {
            match self.next() {
                Some(t) => tokens.push(t),
                None => {
                    more = false;
                },
            }
        }
        tokens
    }
}

/// The keyword for this spelling, or an identifier token.
fn keyword_or_identifier(name_bytes: Vec<u8>) -> (r: Token)
    ensures
        r is Fn || r is Return || r is Int || r is If || r is Else || r is Identifier,
{
    let n = name_bytes.len();
    if n == 2 && name_bytes[0] == BYTE_LETTER_F && name_bytes[1] == BYTE_LETTER_N {
        return Token::Fn;
    }
    if n == 2 && name_bytes[0] == BYTE_LETTER_I && name_bytes[1] == BYTE_LETTER_F {
        return Token::If;
    }
    if n == 3 && name_bytes[0] == BYTE_LETTER_I && name_bytes[1] == BYTE_LETTER_N && name_bytes[2] == BYTE_LETTER_T {
        return Token::Int;
    }
    if n == 4 && name_bytes[0] == BYTE_LETTER_E && name_bytes[1] == BYTE_LETTER_L && name_bytes[2] == BYTE_LETTER_S
        && name_bytes[3] == BYTE_LETTER_E {
        return Token::Else;
    }
    if n == 6 && name_bytes[0] == BYTE_LETTER_R && name_bytes[1] == BYTE_LETTER_E && name_bytes[2] == BYTE_LETTER_T
        && name_bytes[3] == BYTE_LETTER_U && name_bytes[4] == BYTE_LETTER_R && name_bytes[5] == BYTE_LETTER_N {
        return Token::Return;
    }
    let mut name = String::new();
    let mut i: usize = 0;
    while i < name_bytes.len()
        invariant
            i <= name_bytes@.len(),
        decreases name_bytes@.len() - i,
    {
        name.push(name_bytes[i] as char);
        i = i + 1;
    }
    Token::Identifier(name)
}

} // verus!
