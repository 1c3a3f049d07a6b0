//! Lexical tokens: the atomic units that the lexer produces and the parser
//! consumes, together with their spec-level mirror and their textual forms.

use vstd::prelude::*;
use crate::display::int_text;
use crate::display::i32_text;

verus! {

/// Spec-level mirror of [`Token`]: payloads as mathematical values.
#[allow(non_camel_case_types)]
pub enum TokenV {
    ILLEGAL,
    EOF,
    IDENT(Seq<char>),
    INT(i32),
    BOOLEAN(bool),
    STRING(Seq<char>),
    ASSIGN,
    PLUS,
    MINUS,
    BANG,
    ASTERISK,
    SLASH,
    LT,
    GT,
    EQ,
    NOT_EQ,
    AND,
    OR,
    COMMA,
    SEMICOLON,
    LPAREN,
    RPAREN,
    LBRACKET,
    RBRACKET,
    LBRACE,
    RBRACE,
    FUNCTION,
    LET,
    IF,
    WHILE,
    ELSE,
    RETURN,
}

/// A lexical token.  Fixed markers carry no payload; identifier, integer,
/// boolean and string tokens carry the scanned value.
#[allow(non_camel_case_types)]
#[derive(Debug, PartialEq)]
pub enum Token {
    ILLEGAL,
    EOF,
    IDENT(String),
    INT(i32),
    BOOLEAN(bool),
    STRING(String),
    ASSIGN,
    PLUS,
    MINUS,
    BANG,
    ASTERISK,
    SLASH,
    LT,
    GT,
    EQ,
    NOT_EQ,
    AND,
    OR,
    COMMA,
    SEMICOLON,
    LPAREN,
    RPAREN,
    LBRACKET,
    RBRACKET,
    LBRACE,
    RBRACE,
    FUNCTION,
    LET,
    IF,
    WHILE,
    ELSE,
    RETURN,
}

impl View for Token {
    type V = TokenV;

    open spec fn view(&self) -> TokenV {
        match self {
            Token::ILLEGAL => TokenV::ILLEGAL,
            Token::EOF => TokenV::EOF,
            Token::IDENT(name) => TokenV::IDENT(name@),
            Token::INT(value) => TokenV::INT(*value),
            Token::BOOLEAN(value) => TokenV::BOOLEAN(*value),
            Token::STRING(value) => TokenV::STRING(value@),
            Token::ASSIGN => TokenV::ASSIGN,
            Token::PLUS => TokenV::PLUS,
            Token::MINUS => TokenV::MINUS,
            Token::BANG => TokenV::BANG,
            Token::ASTERISK => TokenV::ASTERISK,
            Token::SLASH => TokenV::SLASH,
            Token::LT => TokenV::LT,
            Token::GT => TokenV::GT,
            Token::EQ => TokenV::EQ,
            Token::NOT_EQ => TokenV::NOT_EQ,
            Token::AND => TokenV::AND,
            Token::OR => TokenV::OR,
            Token::COMMA => TokenV::COMMA,
            Token::SEMICOLON => TokenV::SEMICOLON,
            Token::LPAREN => TokenV::LPAREN,
            Token::RPAREN => TokenV::RPAREN,
            Token::LBRACKET => TokenV::LBRACKET,
            Token::RBRACKET => TokenV::RBRACKET,
            Token::LBRACE => TokenV::LBRACE,
            Token::RBRACE => TokenV::RBRACE,
            Token::FUNCTION => TokenV::FUNCTION,
            Token::LET => TokenV::LET,
            Token::IF => TokenV::IF,
            Token::WHILE => TokenV::WHILE,
            Token::ELSE => TokenV::ELSE,
            Token::RETURN => TokenV::RETURN,
        }
    }
}

/// The surface text of a token, as it appears when an expression is printed
/// back: operators as their symbols, literals as their values, keywords as
/// their words.
pub open spec fn token_text(t: TokenV) -> Seq<char> {
    match t {
        TokenV::ILLEGAL => "ILLEGAL"@,
        TokenV::EOF => "EOF"@,
        TokenV::IDENT(name) => name,
        TokenV::INT(value) => int_text(value as int),
        TokenV::BOOLEAN(value) => if value {
            "true"@
        } else {
            "false"@
        },
        TokenV::STRING(value) => value,
        TokenV::ASSIGN => "="@,
        TokenV::PLUS => "+"@,
        TokenV::MINUS => "-"@,
        TokenV::BANG => "!"@,
        TokenV::ASTERISK => "*"@,
        TokenV::SLASH => "/"@,
        TokenV::LT => "<"@,
        TokenV::GT => ">"@,
        TokenV::EQ => "=="@,
        TokenV::NOT_EQ => "!="@,
        TokenV::AND => "&&"@,
        TokenV::OR => "||"@,
        TokenV::COMMA => ","@,
        TokenV::SEMICOLON => ";"@,
        TokenV::LPAREN => "("@,
        TokenV::RPAREN => ")"@,
        TokenV::LBRACKET => "["@,
        TokenV::RBRACKET => "]"@,
        TokenV::LBRACE => "{"@,
        TokenV::RBRACE => "}"@,
        TokenV::FUNCTION => "fn"@,
        TokenV::LET => "let"@,
        TokenV::IF => "if"@,
        TokenV::WHILE => "while"@,
        TokenV::ELSE => "else"@,
        TokenV::RETURN => "return"@,
    }
}

/// The diagnostic name of a token, used in syntax-error messages: the variant
/// name, with the payload in parentheses where there is one.
pub open spec fn token_debug_text(t: TokenV) -> Seq<char> {
    match t {
        TokenV::IDENT(name) => "IDENT(\""@ + name + "\")"@,
        TokenV::INT(value) => "INT("@ + int_text(value as int) + ")"@,
        TokenV::BOOLEAN(value) => if value {
            "BOOLEAN(true)"@
        } else {
            "BOOLEAN(false)"@
        },
        TokenV::STRING(value) => "STRING(\""@ + value + "\")"@,
        TokenV::ILLEGAL => "ILLEGAL"@,
        TokenV::EOF => "EOF"@,
        TokenV::ASSIGN => "ASSIGN"@,
        TokenV::PLUS => "PLUS"@,
        TokenV::MINUS => "MINUS"@,
        TokenV::BANG => "BANG"@,
        TokenV::ASTERISK => "ASTERISK"@,
        TokenV::SLASH => "SLASH"@,
        TokenV::LT => "LT"@,
        TokenV::GT => "GT"@,
        TokenV::EQ => "EQ"@,
        TokenV::NOT_EQ => "NOT_EQ"@,
        TokenV::AND => "AND"@,
        TokenV::OR => "OR"@,
        TokenV::COMMA => "COMMA"@,
        TokenV::SEMICOLON => "SEMICOLON"@,
        TokenV::LPAREN => "LPAREN"@,
        TokenV::RPAREN => "RPAREN"@,
        TokenV::LBRACKET => "LBRACKET"@,
        TokenV::RBRACKET => "RBRACKET"@,
        TokenV::LBRACE => "LBRACE"@,
        TokenV::RBRACE => "RBRACE"@,
        TokenV::FUNCTION => "FUNCTION"@,
        TokenV::LET => "LET"@,
        TokenV::IF => "IF"@,
        TokenV::WHILE => "WHILE"@,
        TokenV::ELSE => "ELSE"@,
        TokenV::RETURN => "RETURN"@,
    }
}

impl Token {
    /// An identical copy of the token.
    pub fn duplicate(&self) -> (r: Token)
        ensures
            r@ == self@,
    {
        match self {
            Token::ILLEGAL => Token::ILLEGAL,
            Token::EOF => Token::EOF,
            Token::IDENT(name) => Token::IDENT(name.clone()),
            Token::INT(value) => Token::INT(*value),
            Token::BOOLEAN(value) => Token::BOOLEAN(*value),
            Token::STRING(value) => Token::STRING(value.clone()),
            Token::ASSIGN => Token::ASSIGN,
            Token::PLUS => Token::PLUS,
            Token::MINUS => Token::MINUS,
            Token::BANG => Token::BANG,
            Token::ASTERISK => Token::ASTERISK,
            Token::SLASH => Token::SLASH,
            Token::LT => Token::LT,
            Token::GT => Token::GT,
            Token::EQ => Token::EQ,
            Token::NOT_EQ => Token::NOT_EQ,
            Token::AND => Token::AND,
            Token::OR => Token::OR,
            Token::COMMA => Token::COMMA,
            Token::SEMICOLON => Token::SEMICOLON,
            Token::LPAREN => Token::LPAREN,
            Token::RPAREN => Token::RPAREN,
            Token::LBRACKET => Token::LBRACKET,
            Token::RBRACKET => Token::RBRACKET,
            Token::LBRACE => Token::LBRACE,
            Token::RBRACE => Token::RBRACE,
            Token::FUNCTION => Token::FUNCTION,
            Token::LET => Token::LET,
            Token::IF => Token::IF,
            Token::WHILE => Token::WHILE,
            Token::ELSE => Token::ELSE,
            Token::RETURN => Token::RETURN,
        }
    }

    /// Whether two tokens are structurally equal.
    pub fn equals(&self, other: &Token) -> (r: bool)
        ensures
            r == (self@ == other@),
    {
        match (self, other) {
            (Token::ILLEGAL, Token::ILLEGAL) => true,
            (Token::EOF, Token::EOF) => true,
            (Token::IDENT(a), Token::IDENT(b)) => a.eq(b),
            (Token::INT(a), Token::INT(b)) => *a == *b,
            (Token::BOOLEAN(a), Token::BOOLEAN(b)) => *a == *b,
            (Token::STRING(a), Token::STRING(b)) => a.eq(b),
            (Token::ASSIGN, Token::ASSIGN) => true,
            (Token::PLUS, Token::PLUS) => true,
            (Token::MINUS, Token::MINUS) => true,
            (Token::BANG, Token::BANG) => true,
            (Token::ASTERISK, Token::ASTERISK) => true,
            (Token::SLASH, Token::SLASH) => true,
            (Token::LT, Token::LT) => true,
            (Token::GT, Token::GT) => true,
            (Token::EQ, Token::EQ) => true,
            (Token::NOT_EQ, Token::NOT_EQ) => true,
            (Token::AND, Token::AND) => true,
            (Token::OR, Token::OR) => true,
            (Token::COMMA, Token::COMMA) => true,
            (Token::SEMICOLON, Token::SEMICOLON) => true,
            (Token::LPAREN, Token::LPAREN) => true,
            (Token::RPAREN, Token::RPAREN) => true,
            (Token::LBRACKET, Token::LBRACKET) => true,
            (Token::RBRACKET, Token::RBRACKET) => true,
            (Token::LBRACE, Token::LBRACE) => true,
            (Token::RBRACE, Token::RBRACE) => true,
            (Token::FUNCTION, Token::FUNCTION) => true,
            (Token::LET, Token::LET) => true,
            (Token::IF, Token::IF) => true,
            (Token::WHILE, Token::WHILE) => true,
            (Token::ELSE, Token::ELSE) => true,
            (Token::RETURN, Token::RETURN) => true,
            _ => false,
        }
    }

    /// The surface text of the token.
    pub fn text(&self) -> (r: String)
        ensures
            r@ == token_text(self@),
    {
        match self {
            Token::ILLEGAL => String::from_str("ILLEGAL"),
            Token::EOF => String::from_str("EOF"),
            Token::IDENT(name) => name.clone(),
            Token::INT(value) => i32_text(*value),
            Token::BOOLEAN(value) => if *value {
                String::from_str("true")
            } else {
                String::from_str("false")
            },
            Token::STRING(value) => value.clone(),
            Token::ASSIGN => String::from_str("="),
            Token::PLUS => String::from_str("+"),
            Token::MINUS => String::from_str("-"),
            Token::BANG => String::from_str("!"),
            Token::ASTERISK => String::from_str("*"),
            Token::SLASH => String::from_str("/"),
            Token::LT => String::from_str("<"),
            Token::GT => String::from_str(">"),
            Token::EQ => String::from_str("=="),
            Token::NOT_EQ => String::from_str("!="),
            Token::AND => String::from_str("&&"),
            Token::OR => String::from_str("||"),
            Token::COMMA => String::from_str(","),
            Token::SEMICOLON => String::from_str(";"),
            Token::LPAREN => String::from_str("("),
            Token::RPAREN => String::from_str(")"),
            Token::LBRACKET => String::from_str("["),
            Token::RBRACKET => String::from_str("]"),
            Token::LBRACE => String::from_str("{"),
            Token::RBRACE => String::from_str("}"),
            Token::FUNCTION => String::from_str("fn"),
            Token::LET => String::from_str("let"),
            Token::IF => String::from_str("if"),
            Token::WHILE => String::from_str("while"),
            Token::ELSE => String::from_str("else"),
            Token::RETURN => String::from_str("return"),
        }
    }

    /// The diagnostic name of the token, for syntax-error messages.
    pub fn debug_text(&self) -> (r: String)
        ensures
            r@ == token_debug_text(self@),
    {
        match self {
            Token::IDENT(name) => {
                let mut s = String::from_str("IDENT(\"");
                s.append(name.as_str());
                s.append("\")");
                s
            },
            Token::INT(value) => {
                let mut s = String::from_str("INT(");
                s.append(i32_text(*value).as_str());
                s.append(")");
                s
            },
            Token::BOOLEAN(value) => if *value {
                String::from_str("BOOLEAN(true)")
            } else {
                String::from_str("BOOLEAN(false)")
            },
            Token::STRING(value) => {
                let mut s = String::from_str("STRING(\"");
                s.append(value.as_str());
                s.append("\")");
                s
            },
            Token::ILLEGAL => String::from_str("ILLEGAL"),
            Token::EOF => String::from_str("EOF"),
            Token::ASSIGN => String::from_str("ASSIGN"),
            Token::PLUS => String::from_str("PLUS"),
            Token::MINUS => String::from_str("MINUS"),
            Token::BANG => String::from_str("BANG"),
            Token::ASTERISK => String::from_str("ASTERISK"),
            Token::SLASH => String::from_str("SLASH"),
            Token::LT => String::from_str("LT"),
            Token::GT => String::from_str("GT"),
            Token::EQ => String::from_str("EQ"),
            Token::NOT_EQ => String::from_str("NOT_EQ"),
            Token::AND => String::from_str("AND"),
            Token::OR => String::from_str("OR"),
            Token::COMMA => String::from_str("COMMA"),
            Token::SEMICOLON => String::from_str("SEMICOLON"),
            Token::LPAREN => String::from_str("LPAREN"),
            Token::RPAREN => String::from_str("RPAREN"),
            Token::LBRACKET => String::from_str("LBRACKET"),
            Token::RBRACKET => String::from_str("RBRACKET"),
            Token::LBRACE => String::from_str("LBRACE"),
            Token::RBRACE => String::from_str("RBRACE"),
            Token::FUNCTION => String::from_str("FUNCTION"),
            Token::LET => String::from_str("LET"),
            Token::IF => String::from_str("IF"),
            Token::WHILE => String::from_str("WHILE"),
            Token::ELSE => String::from_str("ELSE"),
            Token::RETURN => String::from_str("RETURN"),
        }
    }
}

} // verus!
