use vstd::prelude::*;

verus! {

/// A lexical token of the source language: an integer literal with its
/// 64-bit signed payload, the single-character operators and punctuation,
/// the `print` keyword, and the end-of-input sentinel.
#[derive(Debug, Clone, Copy, PartialEq, Eq, Structural)]
pub enum Token {
    Int(i64),
    Plus,
    Minus,
    Mul,
    Div,
    LParen,
    RParen,
    Print,
    Semi,
    EOF,
}

/// The failure categories of the front end. Lexical failures are
/// `InvalidCharacter`, `MalformedKeyword` and `LiteralOverflow`;
/// `UnexpectedToken` is the parser's token-kind mismatch.
#[derive(Debug, Clone, Copy, PartialEq, Eq, Structural)]
pub enum CompileError {
    InvalidCharacter,
    MalformedKeyword,
    LiteralOverflow,
    UnexpectedToken,
}

/// Two tokens have the same kind when they are the same variant; an integer
/// literal's payload is ignored in the comparison.
pub open spec fn kind_matches(a: Token, b: Token) -> bool {
    match (a, b) {
        (Token::Int(_), Token::Int(_)) => true,
        _ => a == b,
    }
}

/// Executable kind comparison, the decision the parser's `eat` makes.
pub fn token_kind_eq(a: &Token, b: &Token) -> (r: bool)
    ensures
        r == kind_matches(*a, *b),
{
    match (a, b) {
        (Token::Int(_), Token::Int(_)) => true,
        _ => *a == *b,
    }
}

} // verus!
