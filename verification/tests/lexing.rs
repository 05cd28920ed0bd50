use ramhas::{Token, Tokenizer};

#[test]
fn tokenize_splits_a_statement() {
    let mut t = Tokenizer::new("int a = 1;");
    let tokens = t.tokenize();
    assert_eq!(tokens.len(), 5);
    assert!(matches!(tokens[0], Token::Int));
    assert!(matches!(&tokens[1], Token::Identifier(n) if n == "a"));
    assert!(matches!(tokens[2], Token::Equal));
    assert!(matches!(tokens[3], Token::Integer(1)));
    assert!(matches!(tokens[4], Token::Semicolon));
}

#[test]
fn tokenize_distinguishes_compound_operators() {
    let mut t = Tokenizer::new("= == ! != < <= << > >= >> & && | || + ++ - -- ->");
    let tokens = t.tokenize();
    assert!(matches!(tokens[0], Token::Equal));
    assert!(matches!(tokens[1], Token::EqualEqual));
    assert!(matches!(tokens[2], Token::Excl));
    assert!(matches!(tokens[3], Token::ExclEqual));
    assert!(matches!(tokens[4], Token::Less));
    assert!(matches!(tokens[5], Token::LessEqual));
    assert!(matches!(tokens[6], Token::LessLess));
    assert!(matches!(tokens[7], Token::Greater));
    assert!(matches!(tokens[8], Token::GreaterEqual));
    assert!(matches!(tokens[9], Token::GreaterGreater));
    assert!(matches!(tokens[10], Token::Amp));
    assert!(matches!(tokens[11], Token::AmpAmp));
    assert!(matches!(tokens[12], Token::Bar));
    assert!(matches!(tokens[13], Token::BarBar));
    assert!(matches!(tokens[14], Token::Plus));
    assert!(matches!(tokens[15], Token::PlusPlus));
    assert!(matches!(tokens[16], Token::Minus));
    assert!(matches!(tokens[17], Token::MinusMinus));
    assert!(matches!(tokens[18], Token::MinusGreater));
    assert_eq!(tokens.len(), 19);
}

#[test]
fn tokenize_recognizes_keywords_and_identifiers() {
    let mut t = Tokenizer::new("fn return int if else iffy relse");
    let tokens = t.tokenize();
    assert!(matches!(tokens[0], Token::Fn));
    assert!(matches!(tokens[1], Token::Return));
    assert!(matches!(tokens[2], Token::Int));
    assert!(matches!(tokens[3], Token::If));
    assert!(matches!(tokens[4], Token::Else));
    assert!(matches!(&tokens[5], Token::Identifier(n) if n == "iffy"));
    assert!(matches!(&tokens[6], Token::Identifier(n) if n == "relse"));
}

#[test]
fn tokenizer_skips_bytes_outside_the_alphabet() {
    let mut t = Tokenizer::new("1 @ 2");
    let tokens = t.tokenize();
    assert_eq!(tokens.len(), 2);
    assert!(matches!(tokens[0], Token::Integer(1)));
    assert!(matches!(tokens[1], Token::Integer(2)));
}

#[test]
fn next_is_exhausted_after_the_last_token() {
    let mut t = Tokenizer::new("  42 ");
    assert!(matches!(t.next(), Some(Token::Integer(42))));
    assert!(t.next().is_none());
    assert!(t.next().is_none());
}

#[test]
fn multi_digit_literals_accumulate() {
    let mut t = Tokenizer::new("98765");
    assert!(matches!(t.next(), Some(Token::Integer(98765))));
}
