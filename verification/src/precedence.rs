//! Operator precedence: the one correctness-critical table of the parser.

use vstd::prelude::*;
use crate::token::Token;
use crate::token::TokenV;

verus! {

/// Binding strength of an operator, weakest first.  The order decides what
/// `a + b * c` or `a && b == c` mean and must never change.
#[allow(non_camel_case_types)]
#[derive(Debug, Clone, Copy, PartialEq, Eq, Structural)]
pub enum Precedence {
    LOWEST,
    ASSIGN,
    EQUALS,
    LOGICAL,
    LESSGREATER,
    SUM,
    PRODUCT,
    PREFIX,
    CALL,
    INDEX,
}

/// The numeric rank of a precedence level, for comparisons.
pub open spec fn precedence_rank(p: Precedence) -> int {
    match p {
        Precedence::LOWEST => 0,
        Precedence::ASSIGN => 1,
        Precedence::EQUALS => 2,
        Precedence::LOGICAL => 3,
        Precedence::LESSGREATER => 4,
        Precedence::SUM => 5,
        Precedence::PRODUCT => 6,
        Precedence::PREFIX => 7,
        Precedence::CALL => 8,
        Precedence::INDEX => 9,
    }
}

impl Precedence {
    /// The numeric rank: a smaller rank binds more weakly.
    pub fn rank(&self) -> (r: u8)
        ensures
            r == precedence_rank(*self),
    {
        match self {
            Precedence::LOWEST => 0,
            Precedence::ASSIGN => 1,
            Precedence::EQUALS => 2,
            Precedence::LOGICAL => 3,
            Precedence::LESSGREATER => 4,
            Precedence::SUM => 5,
            Precedence::PRODUCT => 6,
            Precedence::PREFIX => 7,
            Precedence::CALL => 8,
            Precedence::INDEX => 9,
        }
    }
}

/// The precedence that a token has when it appears in infix position; tokens
/// that are no infix operator sit at the bottom.
pub open spec fn token_precedence(t: TokenV) -> Precedence {
    match t {
        TokenV::LT | TokenV::GT => Precedence::LESSGREATER,
        TokenV::EQ | TokenV::NOT_EQ => Precedence::EQUALS,
        TokenV::ASSIGN => Precedence::ASSIGN,
        TokenV::PLUS | TokenV::MINUS => Precedence::SUM,
        TokenV::SLASH | TokenV::ASTERISK => Precedence::PRODUCT,
        TokenV::AND | TokenV::OR => Precedence::LOGICAL,
        TokenV::LPAREN => Precedence::CALL,
        TokenV::LBRACKET => Precedence::INDEX,
        _ => Precedence::LOWEST,
    }
}

/// The precedence of `token` in infix position.
pub fn token_to_precedence(token: &Token) -> (r: Precedence)
    ensures
        r == token_precedence(token@),
{
    match token {
        Token::LT | Token::GT => Precedence::LESSGREATER,
        Token::EQ | Token::NOT_EQ => Precedence::EQUALS,
        Token::ASSIGN => Precedence::ASSIGN,
        Token::PLUS | Token::MINUS => Precedence::SUM,
        Token::SLASH | Token::ASTERISK => Precedence::PRODUCT,
        Token::AND | Token::OR => Precedence::LOGICAL,
        Token::LPAREN => Precedence::CALL,
        Token::LBRACKET => Precedence::INDEX,
        _ => Precedence::LOWEST,
    }
}

} // verus!
