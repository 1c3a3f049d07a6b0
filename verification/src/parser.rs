//! The parser: precedence-climbing (Pratt) recursive descent from a token
//! stream to an AST, collecting syntax errors across the whole input rather
//! than stopping at the first one.
//!
//! The parser's meaning is given by the `parse_*_v` functions over the token
//! sequence; the executable parser is proved to agree with them exactly.

use vstd::prelude::*;
use crate::ast::BlockStatement;
use crate::ast::ExprV;
use crate::ast::Expression;
use crate::ast::LitV;
use crate::ast::Literal;
use crate::ast::Node;
use crate::ast::NodeV;
use crate::ast::Statement;
use crate::ast::StmtV;
use crate::ast::lemma_view_stmts_push;
use crate::ast::lemma_view_exprs;
use crate::ast::lemma_view_exprs_push;
use crate::ast::view_exprs;
use crate::ast::view_stmts;
use crate::lexer::Lexer;
use crate::lexer::scan_token;
use crate::lexer::lemma_scan_token;
use crate::precedence::Precedence;
use crate::precedence::precedence_rank;
use crate::precedence::token_precedence;
use crate::precedence::token_to_precedence;
use crate::token::Token;
use crate::token::TokenV;
use crate::token::token_debug_text;

verus! {

/// A syntax error: what was expected and what stood there instead.
#[derive(Debug)]
pub enum ParserError {
    /// An identifier was required but another token stood there.
    NoIdentifier(Token),
    /// A particular token was required but another stood there.
    UnexpectedToken(Token, Token),
    /// No rule lets this token start an expression.
    NoPrefixRule(Token),
}

/// Spec-level mirror of [`ParserError`].
pub enum ParserErrorV {
    NoIdentifier(TokenV),
    UnexpectedToken(TokenV, TokenV),
    NoPrefixRule(TokenV),
}

impl View for ParserError {
    type V = ParserErrorV;

    open spec fn view(&self) -> ParserErrorV {
        match self {
            ParserError::NoIdentifier(t) => ParserErrorV::NoIdentifier(t@),
            ParserError::UnexpectedToken(want, got) => ParserErrorV::UnexpectedToken(want@, got@),
            ParserError::NoPrefixRule(t) => ParserErrorV::NoPrefixRule(t@),
        }
    }
}

/// The human-readable message of a syntax error.
pub open spec fn parser_err_text(e: ParserErrorV) -> Seq<char> {
    match e {
        ParserErrorV::NoIdentifier(t) => "Expected an identifier but got "@ + token_debug_text(t),
        ParserErrorV::UnexpectedToken(want, got) => "Expected "@ + token_debug_text(want)
            + ", got "@ + token_debug_text(got),
        ParserErrorV::NoPrefixRule(t) => "no prefix parse function for "@ + token_debug_text(t),
    }
}

impl ParserError {
    /// The error's message.
    pub fn message(&self) -> (r: String)
        ensures
            r@ == parser_err_text(self@),
    {
        match self {
            ParserError::NoIdentifier(t) => {
                let mut s = String::from_str("Expected an identifier but got ");
                let t_str = t.debug_text();
                s.append(t_str.as_str());
                proof {
                    assert(s@ =~= parser_err_text(self@));
                }
                s
            },
            ParserError::UnexpectedToken(want, got) => {
                let mut s = String::from_str("Expected ");
                let want_str = want.debug_text();
                s.append(want_str.as_str());
                s.append(", got ");
                let got_str = got.debug_text();
                s.append(got_str.as_str());
                proof {
                    assert(s@ =~= parser_err_text(self@));
                }
                s
            },
            ParserError::NoPrefixRule(t) => {
                let mut s = String::from_str("no prefix parse function for ");
                let t_str = t.debug_text();
                s.append(t_str.as_str());
                proof {
                    assert(s@ =~= parser_err_text(self@));
                }
                s
            },
        }
    }
}

/// The collected syntax errors of one parse.
pub type ParserErrors = Vec<ParserError>;

/// The token at a position; past the end of the stream there is only the
/// end-of-input token.
pub open spec fn tok_at(toks: Seq<TokenV>, i: int) -> TokenV {
    if 0 <= i < toks.len() {
        toks[i]
    } else {
        TokenV::EOF
    }
}

/// How many tokens remain at or after a position; none past the end.
pub open spec fn rem_toks(toks: Seq<TokenV>, pos: int) -> int {
    if pos < toks.len() {
        toks.len() - pos
    } else {
        0
    }
}

/// The whole token stream of a source text, ending before the end-of-input
/// token.
pub open spec fn scan_all(s: Seq<char>, pos: int) -> Seq<TokenV>
    decreases s.len() - pos,
{
    if pos < 0 || pos > s.len() {
        Seq::empty()
    } else {
        let (t, p2) = scan_token(s, pos);
        if t is EOF {
            Seq::empty()
        } else {
            let next = if p2 > pos && p2 <= s.len() {
                p2
            } else {
                s.len() as int
            };
            seq![t] + scan_all(s, next)
        }
    }
}

/// The statements and collected errors of a whole program, and the position
/// after it: statements are parsed until the end of input, a failed
/// statement contributes its error, and parsing resumes at the next token.
pub open spec fn parse_program_v(toks: Seq<TokenV>, pos: int) -> (Seq<StmtV>, Seq<ParserErrorV>, int)
    decreases rem_toks(toks, pos), 9int,
{
    if pos < 0 || pos >= toks.len() || tok_at(toks, pos) is EOF {
        (Seq::empty(), Seq::empty(), pos)
    } else {
        let (r, p2) = parse_statement_v(toks, pos);
        let cont0 = if p2 > pos {
            p2 + 1
        } else {
            pos + 1
        };
        let cont = if cont0 > toks.len() {
            toks.len() as int
        } else {
            cont0
        };
        let (stmts, errs, p3) = parse_program_v(toks, cont);
        match r {
            Ok(s) => (seq![s] + stmts, errs, p3),
            Err(e) => (stmts, seq![e] + errs, p3),
        }
    }
}

/// One statement: dispatch on the current token.
pub open spec fn parse_statement_v(toks: Seq<TokenV>, pos: int) -> (
    Result<StmtV, ParserErrorV>,
    int,
)
    decreases rem_toks(toks, pos), 8int,
{
    match tok_at(toks, pos) {
        TokenV::LET => parse_let_v(toks, pos),
        TokenV::RETURN => parse_return_v(toks, pos),
        _ => parse_expr_stmt_v(toks, pos),
    }
}

/// A `let` statement: the keyword, an identifier, `=`, the initializer, and
/// an optional trailing semicolon.
pub open spec fn parse_let_v(toks: Seq<TokenV>, pos: int) -> (Result<StmtV, ParserErrorV>, int)
    decreases rem_toks(toks, pos), 7int,
{
    match tok_at(toks, pos + 1) {
        TokenV::IDENT(name) => if tok_at(toks, pos + 2) == TokenV::ASSIGN {
            let (r, p2) = parse_expression_v(toks, pos + 3, Precedence::LOWEST);
            match r {
                Ok(value) => if tok_at(toks, p2 + 1) == TokenV::SEMICOLON {
                    (Ok(StmtV::Let(name, value)), p2 + 1)
                } else {
                    (Ok(StmtV::Let(name, value)), p2)
                },
                Err(e) => (Err(e), p2),
            }
        } else {
            (Err(ParserErrorV::UnexpectedToken(TokenV::ASSIGN, tok_at(toks, pos + 2))), pos + 1)
        },
        other => (Err(ParserErrorV::NoIdentifier(other)), pos),
    }
}

/// A `return` statement: the keyword, the value, and an optional trailing
/// semicolon.
pub open spec fn parse_return_v(toks: Seq<TokenV>, pos: int) -> (Result<StmtV, ParserErrorV>, int)
    decreases rem_toks(toks, pos), 7int,
{
    let (r, p2) = parse_expression_v(toks, pos + 1, Precedence::LOWEST);
    match r {
        Ok(value) => if tok_at(toks, p2 + 1) == TokenV::SEMICOLON {
            (Ok(StmtV::Return(value)), p2 + 1)
        } else {
            (Ok(StmtV::Return(value)), p2)
        },
        Err(e) => (Err(e), p2),
    }
}

/// A bare expression statement with an optional trailing semicolon.
pub open spec fn parse_expr_stmt_v(toks: Seq<TokenV>, pos: int) -> (Result<StmtV, ParserErrorV>, int)
    decreases rem_toks(toks, pos), 7int,
{
    let (r, p2) = parse_expression_v(toks, pos, Precedence::LOWEST);
    match r {
        Ok(value) => if tok_at(toks, p2 + 1) == TokenV::SEMICOLON {
            (Ok(StmtV::Expr(value)), p2 + 1)
        } else {
            (Ok(StmtV::Expr(value)), p2)
        },
        Err(e) => (Err(e), p2),
    }
}

/// An expression at the given precedence threshold: a prefix rule for the
/// current token, then infix operators bind as long as they exceed the
/// threshold.
pub open spec fn parse_expression_v(toks: Seq<TokenV>, pos: int, prec: Precedence) -> (
    Result<ExprV, ParserErrorV>,
    int,
)
    decreases rem_toks(toks, pos), 6int,
{
    let prefix: (Result<ExprV, ParserErrorV>, int) = match tok_at(toks, pos) {
        TokenV::IDENT(name) => (Ok(ExprV::Ident(name)), pos),
        TokenV::INT(value) => (Ok(ExprV::Lit(LitV::Integer(value))), pos),
        TokenV::BOOLEAN(value) => (Ok(ExprV::Lit(LitV::Boolean(value))), pos),
        TokenV::STRING(value) => (Ok(ExprV::Lit(LitV::Str(value))), pos),
        TokenV::BANG => parse_prefix_op_v(toks, pos),
        TokenV::MINUS => parse_prefix_op_v(toks, pos),
        TokenV::LPAREN => parse_group_v(toks, pos),
        TokenV::IF => parse_if_v(toks, pos),
        TokenV::WHILE => parse_while_v(toks, pos),
        TokenV::FUNCTION => parse_fn_v(toks, pos),
        TokenV::LBRACKET => parse_array_v(toks, pos),
        other => (Err(ParserErrorV::NoPrefixRule(other)), pos),
    };
    match prefix.0 {
        Ok(left) => {
            let p1 = if prefix.1 > pos {
                prefix.1
            } else {
                pos
            };
            parse_chain_v(toks, p1, left, prec)
        },
        Err(e) => (Err(e), prefix.1),
    }
}

/// A prefix operation: the operator, then its operand at prefix precedence.
pub open spec fn parse_prefix_op_v(toks: Seq<TokenV>, pos: int) -> (
    Result<ExprV, ParserErrorV>,
    int,
)
    decreases rem_toks(toks, pos), 5int,
{
    if pos < 0 || pos >= toks.len() {
        (Err(ParserErrorV::NoPrefixRule(TokenV::EOF)), pos)
    } else {
        let op = tok_at(toks, pos);
        let (r, p2) = parse_expression_v(toks, pos + 1, Precedence::PREFIX);
        match r {
            Ok(operand) => (Ok(ExprV::Prefix(op, Box::new(operand))), p2),
            Err(e) => (Err(e), p2),
        }
    }
}

/// A parenthesized group: the inner expression, then the closing
/// parenthesis.
pub open spec fn parse_group_v(toks: Seq<TokenV>, pos: int) -> (Result<ExprV, ParserErrorV>, int)
    decreases rem_toks(toks, pos), 5int,
{
    if pos < 0 || pos >= toks.len() {
        (Err(ParserErrorV::NoPrefixRule(TokenV::EOF)), pos)
    } else {
        let (r, p2) = parse_expression_v(toks, pos + 1, Precedence::LOWEST);
        match r {
            Ok(inner) => if tok_at(toks, p2 + 1) == TokenV::RPAREN {
                (Ok(inner), p2 + 1)
            } else {
                (Err(ParserErrorV::UnexpectedToken(TokenV::RPAREN, tok_at(toks, p2 + 1))), p2)
            },
            Err(e) => (Err(e), p2),
        }
    }
}

/// Whether a token can continue an expression as an infix operator.
pub open spec fn is_infix_op(t: TokenV) -> bool {
    t == TokenV::GT || t == TokenV::LT || t == TokenV::EQ || t == TokenV::NOT_EQ || t
        == TokenV::PLUS || t == TokenV::MINUS || t == TokenV::ASTERISK || t == TokenV::SLASH || t
        == TokenV::AND || t == TokenV::OR || t == TokenV::ASSIGN
}

/// The node an infix operator combines into: assignment when the target is a
/// bare name, an ordinary infix node otherwise.
pub open spec fn combine_infix(left: ExprV, op: TokenV, right: ExprV) -> ExprV {
    if op == TokenV::ASSIGN && left is Ident {
        ExprV::Assign(left->Ident_0, op, Box::new(right))
    } else {
        ExprV::Infix(Box::new(left), op, Box::new(right))
    }
}

/// The infix chain: as long as the next token is an infix, call or index
/// operator binding more tightly than the threshold, consume it and extend
/// the expression.
pub open spec fn parse_chain_v(toks: Seq<TokenV>, pos: int, left: ExprV, prec: Precedence) -> (
    Result<ExprV, ParserErrorV>,
    int,
)
    decreases rem_toks(toks, pos), 4int,
{
    let peek = tok_at(toks, pos + 1);
    if peek == TokenV::SEMICOLON || precedence_rank(prec) >= precedence_rank(token_precedence(peek))
    {
        (Ok(left), pos)
    } else if is_infix_op(peek) {
        let (r, p2) = parse_infix_rhs_v(toks, pos + 1, left);
        match r {
            Ok(node) => {
                let cont = if p2 > pos {
                    p2
                } else {
                    pos + 1
                };
                parse_chain_v(toks, cont, node, prec)
            },
            Err(e) => (Err(e), p2),
        }
    } else if peek == TokenV::LPAREN {
        let (r, p2) = parse_call_args_v(toks, pos + 1);
        match r {
            Ok(args) => {
                let node = ExprV::FunctionCall(Box::new(left), args);
                let cont = if p2 > pos {
                    p2
                } else {
                    pos + 1
                };
                parse_chain_v(toks, cont, node, prec)
            },
            Err(e) => (Err(e), p2),
        }
    } else if peek == TokenV::LBRACKET {
        let (r, p2) = parse_index_rhs_v(toks, pos + 1);
        match r {
            Ok(index) => {
                let node = ExprV::Index(Box::new(left), Box::new(index));
                let cont = if p2 > pos {
                    p2
                } else {
                    pos + 1
                };
                parse_chain_v(toks, cont, node, prec)
            },
            Err(e) => (Err(e), p2),
        }
    } else {
        (Ok(left), pos)
    }
}

/// The right-hand side of an infix operator standing at `pos`: the operand
/// is parsed at the operator's own precedence.
pub open spec fn parse_infix_rhs_v(toks: Seq<TokenV>, pos: int, left: ExprV) -> (
    Result<ExprV, ParserErrorV>,
    int,
)
    decreases rem_toks(toks, pos), 5int,
{
    if pos < 0 || pos >= toks.len() {
        (Err(ParserErrorV::NoPrefixRule(TokenV::EOF)), pos)
    } else {
        let op = tok_at(toks, pos);
        let (r, p2) = parse_expression_v(toks, pos + 1, token_precedence(op));
        match r {
            Ok(right) => (Ok(combine_infix(left, op, right)), p2),
            Err(e) => (Err(e), p2),
        }
    }
}

/// The index operand of an index operation whose `[` stands at `pos`,
/// terminated by `]`.
pub open spec fn parse_index_rhs_v(toks: Seq<TokenV>, pos: int) -> (Result<ExprV, ParserErrorV>, int)
    decreases rem_toks(toks, pos), 5int,
{
    if pos < 0 || pos >= toks.len() {
        (Err(ParserErrorV::NoPrefixRule(TokenV::EOF)), pos)
    } else {
        let (r, p2) = parse_expression_v(toks, pos + 1, Precedence::LOWEST);
        match r {
            Ok(index) => if tok_at(toks, p2 + 1) == TokenV::RBRACKET {
                (Ok(index), p2 + 1)
            } else {
                (Err(ParserErrorV::UnexpectedToken(TokenV::RBRACKET, tok_at(toks, p2 + 1))), p2)
            },
            Err(e) => (Err(e), p2),
        }
    }
}

/// The comma-separated elements from the end of a first element on, up to a
/// closing token.
pub open spec fn parse_list_rest_v(
    toks: Seq<TokenV>,
    pos: int,
    acc: Seq<ExprV>,
    closing: TokenV,
) -> (Result<Seq<ExprV>, ParserErrorV>, int)
    decreases rem_toks(toks, pos), 3int,
{
    if tok_at(toks, pos + 1) == TokenV::COMMA {
        let (r, p2) = parse_expression_v(toks, pos + 2, Precedence::LOWEST);
        match r {
            Ok(element) => {
                let cont = if p2 > pos {
                    p2
                } else {
                    pos + 1
                };
                parse_list_rest_v(toks, cont, acc.push(element), closing)
            },
            Err(e) => (Err(e), p2),
        }
    } else if tok_at(toks, pos + 1) == closing {
        (Ok(acc), pos + 1)
    } else {
        (Err(ParserErrorV::UnexpectedToken(closing, tok_at(toks, pos + 1))), pos)
    }
}

/// A call's argument list, whose `(` stands at `pos`.  An empty list also
/// consumes the token after the closing parenthesis, as the statement
/// machinery expects.
pub open spec fn parse_call_args_v(toks: Seq<TokenV>, pos: int) -> (
    Result<Seq<ExprV>, ParserErrorV>,
    int,
)
    decreases rem_toks(toks, pos), 5int,
{
    if pos < 0 || pos >= toks.len() {
        (Err(ParserErrorV::NoPrefixRule(TokenV::EOF)), pos)
    } else if tok_at(toks, pos + 1) == TokenV::RPAREN {
        (Ok(Seq::empty()), pos + 2)
    } else {
        let (r, p2) = parse_expression_v(toks, pos + 1, Precedence::LOWEST);
        match r {
            Ok(first) => {
                let cont = if p2 > pos {
                    p2
                } else {
                    pos + 1
                };
                parse_list_rest_v(toks, cont, seq![first], TokenV::RPAREN)
            },
            Err(e) => (Err(e), p2),
        }
    }
}

/// An array literal, whose `[` stands at `pos`.
pub open spec fn parse_array_v(toks: Seq<TokenV>, pos: int) -> (Result<ExprV, ParserErrorV>, int)
    decreases rem_toks(toks, pos), 5int,
{
    if pos < 0 || pos >= toks.len() {
        (Err(ParserErrorV::NoPrefixRule(TokenV::EOF)), pos)
    } else if tok_at(toks, pos + 1) == TokenV::RBRACKET {
        (Ok(ExprV::Lit(LitV::Array(Seq::empty()))), pos + 1)
    } else {
        let (r, p2) = parse_expression_v(toks, pos + 1, Precedence::LOWEST);
        match r {
            Ok(first) => {
                let cont = if p2 > pos {
                    p2
                } else {
                    pos + 1
                };
                let (r2, p3) = parse_list_rest_v(toks, cont, seq![first], TokenV::RBRACKET);
                match r2 {
                    Ok(elements) => (Ok(ExprV::Lit(LitV::Array(elements))), p3),
                    Err(e) => (Err(e), p3),
                }
            },
            Err(e) => (Err(e), p2),
        }
    }
}

/// The statements of a block, whose `{` stands at `pos - 1`: statements are
/// read until the closing brace or the end of input, and a statement that
/// fails to parse is skipped.
pub open spec fn parse_block_items_v(toks: Seq<TokenV>, pos: int, acc: Seq<StmtV>) -> (
    Seq<StmtV>,
    int,
)
    decreases rem_toks(toks, pos), 9int,
{
    if pos < 0 || pos >= toks.len() || tok_at(toks, pos) == TokenV::RBRACE || tok_at(toks, pos)
        is EOF {
        (acc, pos)
    } else {
        let (r, p2) = parse_statement_v(toks, pos);
        let cont0 = if p2 > pos {
            p2 + 1
        } else {
            pos + 1
        };
        let cont = if cont0 > toks.len() {
            toks.len() as int
        } else {
            cont0
        };
        match r {
            Ok(s) => parse_block_items_v(toks, cont, acc.push(s)),
            Err(_) => parse_block_items_v(toks, cont, acc),
        }
    }
}

/// A block whose `{` stands at `pos`.
pub open spec fn parse_block_v(toks: Seq<TokenV>, pos: int) -> (Seq<StmtV>, int)
    decreases rem_toks(toks, pos), 10int,
{
    parse_block_items_v(toks, pos + 1, Seq::empty())
}

/// A conditional, whose `if` stands at `pos`: the parenthesized condition, a
/// braced consequence block, and an optional braced `else` block.
pub open spec fn parse_if_v(toks: Seq<TokenV>, pos: int) -> (Result<ExprV, ParserErrorV>, int)
    decreases rem_toks(toks, pos), 5int,
{
    if tok_at(toks, pos + 1) != TokenV::LPAREN {
        (Err(ParserErrorV::UnexpectedToken(TokenV::LPAREN, tok_at(toks, pos + 1))), pos)
    } else {
        let (r, p2) = parse_expression_v(toks, pos + 2, Precedence::LOWEST);
        match r {
            Ok(cond) => if tok_at(toks, p2 + 1) != TokenV::RPAREN {
                (Err(ParserErrorV::UnexpectedToken(TokenV::RPAREN, tok_at(toks, p2 + 1))), p2)
            } else if tok_at(toks, p2 + 2) != TokenV::LBRACE {
                (Err(ParserErrorV::UnexpectedToken(TokenV::LBRACE, tok_at(toks, p2 + 2))), p2 + 1)
            } else {
                let brace = if p2 + 2 > pos {
                    p2 + 2
                } else {
                    pos + 1
                };
                let (cons, p3) = parse_block_v(toks, brace);
                if tok_at(toks, p3 + 1) == TokenV::ELSE {
                    if tok_at(toks, p3 + 2) != TokenV::LBRACE {
                        (
                            Err(
                                ParserErrorV::UnexpectedToken(
                                    TokenV::LBRACE,
                                    tok_at(toks, p3 + 2),
                                ),
                            ),
                            p3 + 1,
                        )
                    } else {
                        let brace2 = if p3 + 2 > pos {
                            p3 + 2
                        } else {
                            pos + 1
                        };
                        let (alt, p4) = parse_block_v(toks, brace2);
                        (Ok(ExprV::If(Box::new(cond), cons, Some(alt))), p4)
                    }
                } else {
                    (Ok(ExprV::If(Box::new(cond), cons, None)), p3)
                }
            },
            Err(e) => (Err(e), p2),
        }
    }
}

/// A loop, whose `while` stands at `pos`: the parenthesized condition and a
/// braced body block.
pub open spec fn parse_while_v(toks: Seq<TokenV>, pos: int) -> (Result<ExprV, ParserErrorV>, int)
    decreases rem_toks(toks, pos), 5int,
{
    if tok_at(toks, pos + 1) != TokenV::LPAREN {
        (Err(ParserErrorV::UnexpectedToken(TokenV::LPAREN, tok_at(toks, pos + 1))), pos)
    } else {
        let (r, p2) = parse_expression_v(toks, pos + 2, Precedence::LOWEST);
        match r {
            Ok(cond) => if tok_at(toks, p2 + 1) != TokenV::RPAREN {
                (Err(ParserErrorV::UnexpectedToken(TokenV::RPAREN, tok_at(toks, p2 + 1))), p2)
            } else if tok_at(toks, p2 + 2) != TokenV::LBRACE {
                (Err(ParserErrorV::UnexpectedToken(TokenV::LBRACE, tok_at(toks, p2 + 2))), p2 + 1)
            } else {
                let brace = if p2 + 2 > pos {
                    p2 + 2
                } else {
                    pos + 1
                };
                let (body, p3) = parse_block_v(toks, brace);
                (Ok(ExprV::While(Box::new(cond), body)), p3)
            },
            Err(e) => (Err(e), p2),
        }
    }
}

/// The parameter names from a first parameter on, separated by commas.
pub open spec fn parse_params_rest_v(toks: Seq<TokenV>, pos: int, acc: Seq<Seq<char>>) -> (
    Result<Seq<Seq<char>>, ParserErrorV>,
    int,
)
    decreases toks.len() - pos,
{
    if tok_at(toks, pos + 1) == TokenV::COMMA {
        match tok_at(toks, pos + 2) {
            TokenV::IDENT(name) => parse_params_rest_v(toks, pos + 2, acc.push(name)),
            other => (Err(ParserErrorV::NoIdentifier(other)), pos + 2),
        }
    } else if tok_at(toks, pos + 1) == TokenV::RPAREN {
        (Ok(acc), pos + 1)
    } else {
        (Err(ParserErrorV::UnexpectedToken(TokenV::RPAREN, tok_at(toks, pos + 1))), pos)
    }
}

/// A parameter list whose `(` stands at `pos`.
pub open spec fn parse_params_v(toks: Seq<TokenV>, pos: int) -> (
    Result<Seq<Seq<char>>, ParserErrorV>,
    int,
)
    decreases rem_toks(toks, pos), 1int,
{
    if tok_at(toks, pos + 1) == TokenV::RPAREN {
        (Ok(Seq::empty()), pos + 1)
    } else {
        match tok_at(toks, pos + 1) {
            TokenV::IDENT(name) => parse_params_rest_v(toks, pos + 1, seq![name]),
            other => (Err(ParserErrorV::NoIdentifier(other)), pos + 1),
        }
    }
}

/// A function literal, whose `fn` stands at `pos`: the parenthesized
/// parameter names and a braced body block.
pub open spec fn parse_fn_v(toks: Seq<TokenV>, pos: int) -> (Result<ExprV, ParserErrorV>, int)
    decreases rem_toks(toks, pos), 5int,
{
    if tok_at(toks, pos + 1) != TokenV::LPAREN {
        (Err(ParserErrorV::UnexpectedToken(TokenV::LPAREN, tok_at(toks, pos + 1))), pos)
    } else {
        let (r, p2) = parse_params_v(toks, pos + 1);
        match r {
            Ok(params) => if tok_at(toks, p2 + 1) != TokenV::LBRACE {
                (Err(ParserErrorV::UnexpectedToken(TokenV::LBRACE, tok_at(toks, p2 + 1))), p2)
            } else {
                let brace = if p2 + 1 > pos {
                    p2 + 1
                } else {
                    pos + 1
                };
                let (body, p3) = parse_block_v(toks, brace);
                (Ok(ExprV::Function(params, body)), p3)
            },
            Err(e) => (Err(e), p2),
        }
    }
}

/// The spec view of a token list, token by token.
pub open spec fn view_tokens(v: Seq<Token>) -> Seq<TokenV>
    decreases v,
{
    if v.len() == 0 {
        Seq::empty()
    } else {
        view_tokens(v.drop_last()).push(v.last().view())
    }
}

/// `view_tokens` maps token by token.
pub proof fn lemma_view_tokens(v: Seq<Token>)
    ensures
        view_tokens(v).len() == v.len(),
        forall|i: int| 0 <= i < v.len() ==> view_tokens(v)[i] == #[trigger] v[i].view(),
    decreases v,
{
    if v.len() > 0 {
        lemma_view_tokens(v.drop_last());
        assert forall|i: int| 0 <= i < v.len() implies view_tokens(v)[i] == #[trigger] v[i].view() by {
            if i < v.len() - 1 {
                assert(v.drop_last()[i] == v[i]);
            } else {
                assert(v[i] == v.last());
            }
        }
    }
}

/// Appending one token extends the view by that token's view.
pub proof fn lemma_view_tokens_push(v: Seq<Token>, t: Token)
    ensures
        view_tokens(v.push(t)) == view_tokens(v).push(t.view()),
{
    assert(v.push(t).drop_last() =~= v);
    assert(v.push(t).last() == t);
}

/// The spec view of an error list, error by error.
pub open spec fn view_errors(v: Seq<ParserError>) -> Seq<ParserErrorV>
    decreases v,
{
    if v.len() == 0 {
        Seq::empty()
    } else {
        view_errors(v.drop_last()).push(v.last().view())
    }
}

/// `view_errors` maps error by error.
pub proof fn lemma_view_errors(v: Seq<ParserError>)
    ensures
        view_errors(v).len() == v.len(),
        forall|i: int| 0 <= i < v.len() ==> view_errors(v)[i] == #[trigger] v[i].view(),
    decreases v,
{
    if v.len() > 0 {
        lemma_view_errors(v.drop_last());
        assert forall|i: int|
            0 <= i < v.len() implies view_errors(v)[i] == #[trigger] v[i].view() by {
            if i < v.len() - 1 {
                assert(v.drop_last()[i] == v[i]);
            } else {
                assert(v[i] == v.last());
            }
        }
    }
}

/// Appending one error extends the view by that error's view.
pub proof fn lemma_view_errors_push(v: Seq<ParserError>, e: ParserError)
    ensures
        view_errors(v.push(e)) == view_errors(v).push(e.view()),
{
    assert(v.push(e).drop_last() =~= v);
    assert(v.push(e).last() == e);
}

/// Spec-level mirror of [`Parser`]: the token stream, the position of the
/// current token, and the errors collected so far.
pub struct ParserV {
    pub tokens: Seq<TokenV>,
    pub pos: int,
    pub errors: Seq<ParserErrorV>,
}

/// The parser: holds the token stream, the current position, and the syntax
/// errors collected so far.
pub struct Parser {
    tokens: Vec<Token>,
    pos: usize,
    errors: Vec<ParserError>,
}

impl View for Parser {
    type V = ParserV;

    closed spec fn view(&self) -> ParserV {
        ParserV {
            tokens: view_tokens(self.tokens@),
            pos: self.pos as int,
            errors: view_errors(self.errors@),
        }
    }
}

/// Whether an executable expression-parsing result agrees with a spec-level
/// parsing step.
pub open spec fn expr_step_matches(
    r: Result<Expression, ParserError>,
    newpos: int,
    step: (Result<ExprV, ParserErrorV>, int),
) -> bool {
    newpos == step.1 && match r {
        Ok(e) => step.0 matches Ok(v) && e@ == v,
        Err(e) => step.0 matches Err(v) && e@ == v,
    }
}

/// Whether an executable statement-parsing result agrees with a spec-level
/// parsing step.
pub open spec fn stmt_step_matches(
    r: Result<Statement, ParserError>,
    newpos: int,
    step: (Result<StmtV, ParserErrorV>, int),
) -> bool {
    newpos == step.1 && match r {
        Ok(s) => step.0 matches Ok(v) && s@ == v,
        Err(e) => step.0 matches Err(v) && e@ == v,
    }
}

impl Parser {
    /// Whether the position sits within the token stream (one past the last
    /// token at most, plus the slot the statement loop can step onto).
    pub closed spec fn wf(&self) -> bool {
        self.pos <= self.tokens@.len()
    }

    /// A parser over all the tokens the given lexer has left.
    pub fn new(lexer: Lexer) -> (r: Parser)
        requires
            lexer.wf(),
        ensures
            r.wf(),
            r@.tokens == scan_all(lexer@.text, lexer@.pos),
            r@.pos == 0,
            r@.errors == Seq::<ParserErrorV>::empty(),
    {
        let mut source = lexer;
        let mut tokens: Vec<Token> = Vec::new();
        proof {
            assert(view_tokens(tokens@) =~= Seq::<TokenV>::empty());
        }
        proof {
            lexer.lemma_wf();
        }
        loop
            invariant_except_break
                source.wf(),
                source@.text == lexer@.text,
                0 <= lexer@.pos <= source@.pos <= source@.text.len(),
                view_tokens(tokens@) + scan_all(source@.text, source@.pos) == scan_all(
                    lexer@.text,
                    lexer@.pos,
                ),
            ensures
                view_tokens(tokens@) == scan_all(lexer@.text, lexer@.pos),
            decreases source@.text.len() - source@.pos,
        {
            proof {
                lemma_scan_token(source@.text, source@.pos);
            }
            let ghost pos_before = source@.pos;
            let ghost seen = view_tokens(tokens@);
            let token = source.next_token();
            if matches!(token, Token::EOF) {
                proof {
                    assert(scan_all(source@.text, pos_before) =~= Seq::<TokenV>::empty());
                    assert(seen + Seq::<TokenV>::empty() =~= seen);
                }
                break;
            }
            proof {
                lemma_view_tokens_push(tokens@, token);
                assert(scan_all(source@.text, pos_before) =~= seq![token@] + scan_all(
                    source@.text,
                    source@.pos,
                ));
                assert(seen.push(token@) + scan_all(source@.text, source@.pos) =~= seen + (
                seq![token@] + scan_all(source@.text, source@.pos)));
            }
            tokens.push(token);
        }
        let r = Parser { tokens, pos: 0, errors: Vec::new() };
        proof {
            assert(r@.errors =~= Seq::<ParserErrorV>::empty());
        }
        r
    }

    /// The token under the cursor; past the end there is only end-of-input.
    fn current_dup(&self) -> (t: Token)
        ensures
            t@ == tok_at(self@.tokens, self@.pos),
    {
        proof {
            lemma_view_tokens(self.tokens@);
        }
        if self.pos < self.tokens.len() {
            self.tokens[self.pos].duplicate()
        } else {
            Token::EOF
        }
    }

    /// The token after the cursor.
    fn peek_dup(&self) -> (t: Token)
        ensures
            t@ == tok_at(self@.tokens, self@.pos + 1),
    {
        proof {
            lemma_view_tokens(self.tokens@);
        }
        let n = self.tokens.len();
        if self.pos < usize::MAX && self.pos + 1 < n {
            self.tokens[self.pos + 1].duplicate()
        } else {
            Token::EOF
        }
    }

    /// Whether the current token is the given one.
    pub fn current_token_is(&self, token: &Token) -> (r: bool)
        ensures
            r == (tok_at(self@.tokens, self@.pos) == token@),
    {
        let current = self.current_dup();
        current.equals(token)
    }

    /// Whether the next token is the given one.
    pub fn peek_token_is(&self, token: &Token) -> (r: bool)
        ensures
            r == (tok_at(self@.tokens, self@.pos + 1) == token@),
    {
        let peek = self.peek_dup();
        peek.equals(token)
    }

    /// Step to the next token.
    fn next_token(&mut self)
        requires
            old(self).wf(),
            old(self)@.pos < old(self)@.tokens.len(),
        ensures
            final(self).wf(),
            final(self)@.tokens == old(self)@.tokens,
            final(self)@.errors == old(self)@.errors,
            final(self)@.pos == old(self)@.pos + 1,
    {
        proof {
            lemma_view_tokens(self.tokens@);
        }
        // A vector's length fits in usize, so the step cannot overflow.
        let _bound = self.tokens.len();
        self.pos = self.pos + 1;
    }

    /// Step past the next token when it is the expected one; otherwise
    /// report what stood there.
    fn expect_peek(&mut self, token: &Token) -> (r: Result<(), ParserError>)
        requires
            old(self).wf(),
            token@ != TokenV::EOF,
        ensures
            final(self).wf(),
            final(self)@.tokens == old(self)@.tokens,
            final(self)@.errors == old(self)@.errors,
            if tok_at(old(self)@.tokens, old(self)@.pos + 1) == token@ {
                r is Ok && final(self)@.pos == old(self)@.pos + 1
            } else {
                final(self)@.pos == old(self)@.pos && (r matches Err(e) && e@
                    == ParserErrorV::UnexpectedToken(
                    token@,
                    tok_at(old(self)@.tokens, old(self)@.pos + 1),
                ))
            },
    {
        proof {
            lemma_view_tokens(self.tokens@);
        }
        // A vector's length fits in usize, so the step cannot overflow.
        let _bound = self.tokens.len();
        if self.peek_token_is(token) {
            self.pos = self.pos + 1;
            Ok(())
        } else {
            let peek = self.peek_dup();
            Err(ParserError::UnexpectedToken(token.duplicate(), peek))
        }
    }

    /// The error for a token found where an identifier was required.
    pub fn error_no_identifier(&self, token: &Token) -> (r: ParserError)
        ensures
            r@ == ParserErrorV::NoIdentifier(token@),
    {
        ParserError::NoIdentifier(token.duplicate())
    }

    /// Parse one statement, dispatching on the current token.
    pub fn parse_statement(&mut self) -> (r: Result<Statement, ParserError>)
        requires
            old(self).wf(),
        ensures
            final(self).wf(),
            final(self)@.tokens == old(self)@.tokens,
            final(self)@.errors == old(self)@.errors,
            old(self)@.pos <= final(self)@.pos,
            stmt_step_matches(
                r,
                final(self)@.pos,
                parse_statement_v(old(self)@.tokens, old(self)@.pos),
            ),
        decreases rem_toks(self@.tokens, self@.pos), 8int,
    {
        let current = self.current_dup();
        match current {
            Token::LET => self.parse_let_statement(),
            Token::RETURN => self.parse_return_statement(),
            _ => self.parse_expression_statement(),
        }
    }

    /// Parse a `let` statement.
    pub fn parse_let_statement(&mut self) -> (r: Result<Statement, ParserError>)
        requires
            old(self).wf(),
        ensures
            final(self).wf(),
            final(self)@.tokens == old(self)@.tokens,
            final(self)@.errors == old(self)@.errors,
            old(self)@.pos <= final(self)@.pos,
            stmt_step_matches(
                r,
                final(self)@.pos,
                parse_let_v(old(self)@.tokens, old(self)@.pos),
            ),
        decreases rem_toks(self@.tokens, self@.pos), 7int,
    {
        let peek = self.peek_dup();
        let identifier = match peek {
            Token::IDENT(name) => name,
            other => {
                return Err(self.error_no_identifier(&other));
            },
        };
        self.next_token();
        let assign = Token::ASSIGN;
        if let Err(e) = self.expect_peek(&assign) {
            return Err(e);
        }
        self.next_token();
        let value = match self.parse_expression(Precedence::LOWEST) {
            Ok(e) => e,
            Err(e) => {
                return Err(e);
            },
        };
        let semicolon = Token::SEMICOLON;
        if self.peek_token_is(&semicolon) {
            self.next_token();
        }
        Ok(Statement::Let(identifier, value))
    }

    /// Parse a `return` statement; the `return` keyword is the current
    /// token.
    pub fn parse_return_statement(&mut self) -> (r: Result<Statement, ParserError>)
        requires
            old(self).wf(),
            tok_at(old(self)@.tokens, old(self)@.pos) == TokenV::RETURN,
        ensures
            final(self).wf(),
            final(self)@.tokens == old(self)@.tokens,
            final(self)@.errors == old(self)@.errors,
            old(self)@.pos <= final(self)@.pos,
            stmt_step_matches(
                r,
                final(self)@.pos,
                parse_return_v(old(self)@.tokens, old(self)@.pos),
            ),
        decreases rem_toks(self@.tokens, self@.pos), 7int,
    {
        proof {
            lemma_view_tokens(self.tokens@);
        }
        self.next_token();
        let value = match self.parse_expression(Precedence::LOWEST) {
            Ok(e) => e,
            Err(e) => {
                return Err(e);
            },
        };
        let semicolon = Token::SEMICOLON;
        if self.peek_token_is(&semicolon) {
            self.next_token();
        }
        Ok(Statement::Return(value))
    }

    /// Parse a bare expression statement.
    pub fn parse_expression_statement(&mut self) -> (r: Result<Statement, ParserError>)
        requires
            old(self).wf(),
        ensures
            final(self).wf(),
            final(self)@.tokens == old(self)@.tokens,
            final(self)@.errors == old(self)@.errors,
            old(self)@.pos <= final(self)@.pos,
            stmt_step_matches(
                r,
                final(self)@.pos,
                parse_expr_stmt_v(old(self)@.tokens, old(self)@.pos),
            ),
        decreases rem_toks(self@.tokens, self@.pos), 7int,
    {
        let value = match self.parse_expression(Precedence::LOWEST) {
            Ok(e) => e,
            Err(e) => {
                return Err(e);
            },
        };
        let semicolon = Token::SEMICOLON;
        if self.peek_token_is(&semicolon) {
            self.next_token();
        }
        Ok(Statement::Expr(value))
    }

    /// Parse one expression at the given precedence threshold.
    #[verifier::rlimit(100)]
    pub fn parse_expression(&mut self, precedence: Precedence) -> (r: Result<
        Expression,
        ParserError,
    >)
        requires
            old(self).wf(),
        ensures
            final(self).wf(),
            final(self)@.tokens == old(self)@.tokens,
            final(self)@.errors == old(self)@.errors,
            old(self)@.pos <= final(self)@.pos,
            expr_step_matches(
                r,
                final(self)@.pos,
                parse_expression_v(old(self)@.tokens, old(self)@.pos, precedence),
            ),
        decreases rem_toks(self@.tokens, self@.pos), 6int,
    {
        proof {
            lemma_view_tokens(self.tokens@);
        }
        let current = self.current_dup();
        let prefix: Result<Expression, ParserError> = match current {
            Token::IDENT(name) => {
                let e = Expression::Ident(name);
                proof {
                    assert(e@ matches ExprV::Ident(n));
                }
                Ok(e)
            },
            Token::INT(value) => {
                let l = Literal::Integer(value);
                proof {
                    assert(l@ == LitV::Integer(value));
                }
                let e = Expression::Lit(l);
                proof {
                    assert(e@ == ExprV::Lit(LitV::Integer(value)));
                }
                Ok(e)
            },
            Token::BOOLEAN(value) => {
                let l = Literal::Boolean(value);
                proof {
                    assert(l@ == LitV::Boolean(value));
                }
                let e = Expression::Lit(l);
                proof {
                    assert(e@ == ExprV::Lit(LitV::Boolean(value)));
                }
                Ok(e)
            },
            Token::STRING(value) => {
                let ghost sv = value@;
                let l = Literal::Str(value);
                proof {
                    assert(l@ == LitV::Str(sv));
                }
                let e = Expression::Lit(l);
                proof {
                    assert(e@ == ExprV::Lit(LitV::Str(sv)));
                }
                Ok(e)
            },
            Token::BANG => self.parse_prefix_expression(),
            Token::MINUS => self.parse_prefix_expression(),
            Token::LPAREN => self.parse_group_expression(),
            Token::IF => self.parse_if_expression(),
            Token::WHILE => self.parse_while_expression(),
            Token::FUNCTION => self.parse_fn_expressions(),
            Token::LBRACKET => self.parse_array_expression(),
            other => Err(ParserError::NoPrefixRule(other)),
        };
        let left = match prefix {
            Ok(e) => e,
            Err(e) => {
                return Err(e);
            },
        };
        self.parse_chain(left, precedence)
    }

    /// Extend an expression with infix, call and index operators while they
    /// bind more tightly than the threshold.
    fn parse_chain(&mut self, left: Expression, precedence: Precedence) -> (r: Result<
        Expression,
        ParserError,
    >)
        requires
            old(self).wf(),
        ensures
            final(self).wf(),
            final(self)@.tokens == old(self)@.tokens,
            final(self)@.errors == old(self)@.errors,
            old(self)@.pos <= final(self)@.pos,
            expr_step_matches(
                r,
                final(self)@.pos,
                parse_chain_v(old(self)@.tokens, old(self)@.pos, left@, precedence),
            ),
        decreases rem_toks(self@.tokens, self@.pos), 4int,
    {
        proof {
            lemma_view_tokens(self.tokens@);
        }
        let peek = self.peek_dup();
        let semicolon = Token::SEMICOLON;
        let peek_precedence = token_to_precedence(&peek);
        if peek.equals(&semicolon) || precedence.rank() >= peek_precedence.rank() {
            return Ok(left);
        }
        match peek {
            Token::GT | Token::LT | Token::EQ | Token::NOT_EQ | Token::PLUS | Token::MINUS
                | Token::ASTERISK | Token::SLASH | Token::AND | Token::OR | Token::ASSIGN => {
                self.next_token();
                let node = match self.parse_infix_expression(left) {
                    Ok(e) => e,
                    Err(e) => {
                        return Err(e);
                    },
                };
                self.parse_chain(node, precedence)
            },
            Token::LPAREN => {
                self.next_token();
                let node = match self.parse_call_expression(left) {
                    Ok(e) => e,
                    Err(e) => {
                        return Err(e);
                    },
                };
                self.parse_chain(node, precedence)
            },
            Token::LBRACKET => {
                self.next_token();
                let index = match self.parse_index_rhs() {
                    Ok(e) => e,
                    Err(e) => {
                        return Err(e);
                    },
                };
                self.parse_chain(Expression::Index(Box::new(left), Box::new(index)), precedence)
            },
            _ => Ok(left),
        }
    }

    /// Parse a prefix operation: the operator is the current token.
    pub fn parse_prefix_expression(&mut self) -> (r: Result<Expression, ParserError>)
        requires
            old(self).wf(),
            0 <= old(self)@.pos < old(self)@.tokens.len(),
        ensures
            final(self).wf(),
            final(self)@.tokens == old(self)@.tokens,
            final(self)@.errors == old(self)@.errors,
            old(self)@.pos <= final(self)@.pos,
            expr_step_matches(
                r,
                final(self)@.pos,
                parse_prefix_op_v(old(self)@.tokens, old(self)@.pos),
            ),
        decreases rem_toks(self@.tokens, self@.pos), 5int,
    {
        proof {
            lemma_view_tokens(self.tokens@);
        }
        let operator = self.current_dup();
        self.next_token();
        let operand = match self.parse_expression(Precedence::PREFIX) {
            Ok(e) => e,
            Err(e) => {
                return Err(e);
            },
        };
        Ok(Expression::Prefix(operator, Box::new(operand)))
    }

    /// Parse the right-hand side of an infix operator: the operator is the
    /// current token, and the left operand is handed in.
    pub fn parse_infix_expression(&mut self, left: Expression) -> (r: Result<
        Expression,
        ParserError,
    >)
        requires
            old(self).wf(),
            0 <= old(self)@.pos < old(self)@.tokens.len(),
        ensures
            final(self).wf(),
            final(self)@.tokens == old(self)@.tokens,
            final(self)@.errors == old(self)@.errors,
            old(self)@.pos <= final(self)@.pos,
            expr_step_matches(
                r,
                final(self)@.pos,
                parse_infix_rhs_v(old(self)@.tokens, old(self)@.pos, left@),
            ),
        decreases rem_toks(self@.tokens, self@.pos), 5int,
    {
        proof {
            lemma_view_tokens(self.tokens@);
        }
        let operator = self.current_dup();
        let op_precedence = token_to_precedence(&operator);
        self.next_token();
        let right = match self.parse_expression(op_precedence) {
            Ok(e) => e,
            Err(e) => {
                return Err(e);
            },
        };
        if matches!(operator, Token::ASSIGN) {
            match left {
                Expression::Ident(name) => Ok(
                    Expression::Assign(name, operator, Box::new(right)),
                ),
                other => Ok(Expression::Infix(Box::new(other), operator, Box::new(right))),
            }
        } else {
            Ok(Expression::Infix(Box::new(left), operator, Box::new(right)))
        }
    }

    /// Parse a parenthesized group: the `(` is the current token.
    pub fn parse_group_expression(&mut self) -> (r: Result<Expression, ParserError>)
        requires
            old(self).wf(),
            0 <= old(self)@.pos < old(self)@.tokens.len(),
        ensures
            final(self).wf(),
            final(self)@.tokens == old(self)@.tokens,
            final(self)@.errors == old(self)@.errors,
            old(self)@.pos <= final(self)@.pos,
            expr_step_matches(
                r,
                final(self)@.pos,
                parse_group_v(old(self)@.tokens, old(self)@.pos),
            ),
        decreases rem_toks(self@.tokens, self@.pos), 5int,
    {
        proof {
            lemma_view_tokens(self.tokens@);
        }
        self.next_token();
        let inner = match self.parse_expression(Precedence::LOWEST) {
            Ok(e) => e,
            Err(e) => {
                return Err(e);
            },
        };
        let rparen = Token::RPAREN;
        if let Err(e) = self.expect_peek(&rparen) {
            return Err(e);
        }
        Ok(inner)
    }

    /// Parse the index operand of an index operation: the `[` is the current
    /// token.
    fn parse_index_rhs(&mut self) -> (r: Result<Expression, ParserError>)
        requires
            old(self).wf(),
            0 <= old(self)@.pos < old(self)@.tokens.len(),
        ensures
            final(self).wf(),
            final(self)@.tokens == old(self)@.tokens,
            final(self)@.errors == old(self)@.errors,
            old(self)@.pos <= final(self)@.pos,
            expr_step_matches(
                r,
                final(self)@.pos,
                parse_index_rhs_v(old(self)@.tokens, old(self)@.pos),
            ),
        decreases rem_toks(self@.tokens, self@.pos), 5int,
    {
        proof {
            lemma_view_tokens(self.tokens@);
        }
        self.next_token();
        let index = match self.parse_expression(Precedence::LOWEST) {
            Ok(e) => e,
            Err(e) => {
                return Err(e);
            },
        };
        let rbracket = Token::RBRACKET;
        if let Err(e) = self.expect_peek(&rbracket) {
            return Err(e);
        }
        Ok(index)
    }

    /// Parse a conditional: the `if` is the current token.
    pub fn parse_if_expression(&mut self) -> (r: Result<Expression, ParserError>)
        requires
            old(self).wf(),
        ensures
            final(self).wf(),
            final(self)@.tokens == old(self)@.tokens,
            final(self)@.errors == old(self)@.errors,
            old(self)@.pos <= final(self)@.pos,
            expr_step_matches(
                r,
                final(self)@.pos,
                parse_if_v(old(self)@.tokens, old(self)@.pos),
            ),
        decreases rem_toks(self@.tokens, self@.pos), 5int,
    {
        proof {
            lemma_view_tokens(self.tokens@);
        }
        let lparen = Token::LPAREN;
        if let Err(e) = self.expect_peek(&lparen) {
            return Err(e);
        }
        self.next_token();
        let condition = match self.parse_expression(Precedence::LOWEST) {
            Ok(e) => e,
            Err(e) => {
                return Err(e);
            },
        };
        let rparen = Token::RPAREN;
        if let Err(e) = self.expect_peek(&rparen) {
            return Err(e);
        }
        let lbrace = Token::LBRACE;
        if let Err(e) = self.expect_peek(&lbrace) {
            return Err(e);
        }
        let consequence = self.parse_block_statement();
        let else_token = Token::ELSE;
        if self.peek_token_is(&else_token) {
            self.next_token();
            if let Err(e) = self.expect_peek(&lbrace) {
                return Err(e);
            }
            let alternative = self.parse_block_statement();
            Ok(Expression::If(Box::new(condition), consequence, Some(alternative)))
        } else {
            Ok(Expression::If(Box::new(condition), consequence, None))
        }
    }

    /// Parse a loop: the `while` is the current token.
    pub fn parse_while_expression(&mut self) -> (r: Result<Expression, ParserError>)
        requires
            old(self).wf(),
        ensures
            final(self).wf(),
            final(self)@.tokens == old(self)@.tokens,
            final(self)@.errors == old(self)@.errors,
            old(self)@.pos <= final(self)@.pos,
            expr_step_matches(
                r,
                final(self)@.pos,
                parse_while_v(old(self)@.tokens, old(self)@.pos),
            ),
        decreases rem_toks(self@.tokens, self@.pos), 5int,
    {
        proof {
            lemma_view_tokens(self.tokens@);
        }
        let lparen = Token::LPAREN;
        if let Err(e) = self.expect_peek(&lparen) {
            return Err(e);
        }
        self.next_token();
        let condition = match self.parse_expression(Precedence::LOWEST) {
            Ok(e) => e,
            Err(e) => {
                return Err(e);
            },
        };
        let rparen = Token::RPAREN;
        if let Err(e) = self.expect_peek(&rparen) {
            return Err(e);
        }
        let lbrace = Token::LBRACE;
        if let Err(e) = self.expect_peek(&lbrace) {
            return Err(e);
        }
        let body = self.parse_block_statement();
        Ok(Expression::While(Box::new(condition), body))
    }

    /// Parse a block: the `{` is the current token; statements are read
    /// until the closing brace or the end of input, and a statement that
    /// fails to parse is skipped.
    #[verifier::rlimit(100)]
    pub fn parse_block_statement(&mut self) -> (r: BlockStatement)
        requires
            old(self).wf(),
            0 <= old(self)@.pos < old(self)@.tokens.len(),
        ensures
            final(self).wf(),
            final(self)@.tokens == old(self)@.tokens,
            final(self)@.errors == old(self)@.errors,
            old(self)@.pos <= final(self)@.pos,
            (view_stmts(r@), final(self)@.pos) == parse_block_v(
                old(self)@.tokens,
                old(self)@.pos,
            ),
        decreases rem_toks(self@.tokens, self@.pos), 10int,
    {
        proof {
            lemma_view_tokens(self.tokens@);
        }
        self.next_token();
        let statements: Vec<Statement> = Vec::new();
        proof {
            assert(view_stmts(statements@) =~= Seq::<StmtV>::empty());
        }
        self.parse_block_items(statements)
    }

    /// Parse the statements of a block until the closing brace or the end of
    /// input, skipping statements that fail to parse.
    fn parse_block_items(&mut self, acc: Vec<Statement>) -> (r: BlockStatement)
        requires
            old(self).wf(),
        ensures
            final(self).wf(),
            final(self)@.tokens == old(self)@.tokens,
            final(self)@.errors == old(self)@.errors,
            old(self)@.pos <= final(self)@.pos,
            (view_stmts(r@), final(self)@.pos) == parse_block_items_v(
                old(self)@.tokens,
                old(self)@.pos,
                view_stmts(acc@),
            ),
        decreases rem_toks(self@.tokens, self@.pos), 9int,
    {
        proof {
            lemma_view_tokens(self.tokens@);
        }
        let rbrace = Token::RBRACE;
        let eof = Token::EOF;
        if self.current_token_is(&rbrace) || self.current_token_is(&eof) {
            return acc;
        }
        let ghost pos_before = self@.pos;
        let parsed = self.parse_statement();
        proof {
            lemma_view_tokens(self.tokens@);
        }
        let extended = match parsed {
            Ok(statement) => {
                proof {
                    lemma_view_stmts_push(acc@, statement);
                }
                let mut acc2 = acc;
                acc2.push(statement);
                acc2
            },
            Err(_) => acc,
        };
        if self.pos < self.tokens.len() {
            self.next_token();
        } else {
            proof {
                assert(tok_at(old(self)@.tokens, self@.pos) == TokenV::EOF);
            }
        }
        self.parse_block_items(extended)
    }

    /// Parse a function literal: the `fn` is the current token.
    pub fn parse_fn_expressions(&mut self) -> (r: Result<Expression, ParserError>)
        requires
            old(self).wf(),
        ensures
            final(self).wf(),
            final(self)@.tokens == old(self)@.tokens,
            final(self)@.errors == old(self)@.errors,
            old(self)@.pos <= final(self)@.pos,
            expr_step_matches(
                r,
                final(self)@.pos,
                parse_fn_v(old(self)@.tokens, old(self)@.pos),
            ),
        decreases rem_toks(self@.tokens, self@.pos), 5int,
    {
        proof {
            lemma_view_tokens(self.tokens@);
        }
        let lparen = Token::LPAREN;
        if let Err(e) = self.expect_peek(&lparen) {
            return Err(e);
        }
        let parameters = match self.parse_fn_parameters() {
            Ok(p) => p,
            Err(e) => {
                return Err(e);
            },
        };
        let lbrace = Token::LBRACE;
        if let Err(e) = self.expect_peek(&lbrace) {
            return Err(e);
        }
        let body = self.parse_block_statement();
        Ok(Expression::Function(parameters, body))
    }

    /// Parse a parameter-name list: the `(` is the current token.
    pub fn parse_fn_parameters(&mut self) -> (r: Result<Vec<String>, ParserError>)
        requires
            old(self).wf(),
            0 <= old(self)@.pos < old(self)@.tokens.len(),
        ensures
            final(self).wf(),
            final(self)@.tokens == old(self)@.tokens,
            final(self)@.errors == old(self)@.errors,
            old(self)@.pos <= final(self)@.pos,
            ({
                let (sr, sp) = parse_params_v(old(self)@.tokens, old(self)@.pos);
                final(self)@.pos == sp && match r {
                    Ok(params) => sr matches Ok(v) && params.deep_view() == v,
                    Err(e) => sr matches Err(v) && e@ == v,
                }
            }),
        decreases rem_toks(self@.tokens, self@.pos), 1int,
    {
        proof {
            lemma_view_tokens(self.tokens@);
        }
        let rparen = Token::RPAREN;
        if self.peek_token_is(&rparen) {
            self.next_token();
            let parameters: Vec<String> = Vec::new();
            proof {
                assert(parameters.deep_view() =~= Seq::<Seq<char>>::empty());
            }
            return Ok(parameters);
        }
        let peek = self.peek_dup();
        match peek {
            Token::IDENT(name) => {
                self.next_token();
                let ghost nv = name@;
                let mut parameters: Vec<String> = Vec::new();
                parameters.push(name);
                proof {
                    assert(parameters.deep_view() =~= seq![nv]);
                }
                self.parse_fn_parameters_rest(parameters)
            },
            other => {
                self.next_token();
                Err(self.error_no_identifier(&other))
            },
        }
    }

    /// Parse the remaining comma-separated parameter names, then the closing
    /// parenthesis.
    fn parse_fn_parameters_rest(&mut self, parameters: Vec<String>) -> (r: Result<
        Vec<String>,
        ParserError,
    >)
        requires
            old(self).wf(),
        ensures
            final(self).wf(),
            final(self)@.tokens == old(self)@.tokens,
            final(self)@.errors == old(self)@.errors,
            old(self)@.pos <= final(self)@.pos,
            ({
                let (sr, sp) = parse_params_rest_v(
                    old(self)@.tokens,
                    old(self)@.pos,
                    parameters.deep_view(),
                );
                final(self)@.pos == sp && match r {
                    Ok(params) => sr matches Ok(v) && params.deep_view() == v,
                    Err(e) => sr matches Err(v) && e@ == v,
                }
            }),
        decreases rem_toks(self@.tokens, self@.pos), 0int,
    {
        proof {
            lemma_view_tokens(self.tokens@);
        }
        let comma = Token::COMMA;
        if self.peek_token_is(&comma) {
            self.next_token();
            let next = self.peek_dup();
            self.next_token();
            match next {
                Token::IDENT(name) => {
                    let ghost nv = name@;
                    let ghost before = parameters.deep_view();
                    let mut extended = parameters;
                    extended.push(name);
                    proof {
                        assert(extended.deep_view() =~= before.push(nv));
                    }
                    self.parse_fn_parameters_rest(extended)
                },
                other => Err(self.error_no_identifier(&other)),
            }
        } else {
            let rparen = Token::RPAREN;
            match self.expect_peek(&rparen) {
                Ok(_) => Ok(parameters),
                Err(e) => Err(e),
            }
        }
    }

    /// Parse a call: the `(` is the current token and the callee is handed
    /// in.
    pub fn parse_call_expression(&mut self, function: Expression) -> (r: Result<
        Expression,
        ParserError,
    >)
        requires
            old(self).wf(),
            0 <= old(self)@.pos < old(self)@.tokens.len(),
        ensures
            final(self).wf(),
            final(self)@.tokens == old(self)@.tokens,
            final(self)@.errors == old(self)@.errors,
            old(self)@.pos <= final(self)@.pos,
            ({
                let (sr, sp) = parse_call_args_v(old(self)@.tokens, old(self)@.pos);
                final(self)@.pos == sp && match r {
                    Ok(e) => sr matches Ok(args) && e@ == ExprV::FunctionCall(
                        Box::new(function@),
                        args,
                    ),
                    Err(e) => sr matches Err(v) && e@ == v,
                }
            }),
        decreases rem_toks(self@.tokens, self@.pos), 6int,
    {
        let arguments = match self.parse_call_arguments() {
            Ok(a) => a,
            Err(e) => {
                return Err(e);
            },
        };
        Ok(Expression::FunctionCall(Box::new(function), arguments))
    }

    /// Parse a call's argument list: the `(` is the current token.
    pub fn parse_call_arguments(&mut self) -> (r: Result<Vec<Expression>, ParserError>)
        requires
            old(self).wf(),
            0 <= old(self)@.pos < old(self)@.tokens.len(),
        ensures
            final(self).wf(),
            final(self)@.tokens == old(self)@.tokens,
            final(self)@.errors == old(self)@.errors,
            old(self)@.pos <= final(self)@.pos,
            ({
                let (sr, sp) = parse_call_args_v(old(self)@.tokens, old(self)@.pos);
                final(self)@.pos == sp && match r {
                    Ok(args) => sr matches Ok(v) && view_exprs(args@) == v,
                    Err(e) => sr matches Err(v) && e@ == v,
                }
            }),
        decreases rem_toks(self@.tokens, self@.pos), 5int,
    {
        proof {
            lemma_view_tokens(self.tokens@);
        }
        let rparen = Token::RPAREN;
        if self.peek_token_is(&rparen) {
            self.next_token();
            self.next_token();
            let arguments: Vec<Expression> = Vec::new();
            proof {
                assert(view_exprs(arguments@) =~= Seq::<ExprV>::empty());
            }
            return Ok(arguments);
        }
        self.next_token();
        let first = match self.parse_expression(Precedence::LOWEST) {
            Ok(e) => e,
            Err(e) => {
                return Err(e);
            },
        };
        let ghost fv = first@;
        let mut arguments: Vec<Expression> = Vec::new();
        arguments.push(first);
        proof {
            lemma_view_exprs(arguments@);
            assert(view_exprs(arguments@) =~= seq![fv]);
        }
        self.parse_list_rest(arguments, false)
    }

    /// Parse the remaining comma-separated elements of a call-argument or
    /// array-element list, then the closing token: `]` when `bracket` is
    /// set, `)` otherwise.
    fn parse_list_rest(&mut self, elements: Vec<Expression>, bracket: bool) -> (r: Result<
        Vec<Expression>,
        ParserError,
    >)
        requires
            old(self).wf(),
        ensures
            final(self).wf(),
            final(self)@.tokens == old(self)@.tokens,
            final(self)@.errors == old(self)@.errors,
            old(self)@.pos <= final(self)@.pos,
            ({
                let closing = if bracket {
                    TokenV::RBRACKET
                } else {
                    TokenV::RPAREN
                };
                let (sr, sp) = parse_list_rest_v(
                    old(self)@.tokens,
                    old(self)@.pos,
                    view_exprs(elements@),
                    closing,
                );
                final(self)@.pos == sp && match r {
                    Ok(es) => sr matches Ok(v) && view_exprs(es@) == v,
                    Err(e) => sr matches Err(v) && e@ == v,
                }
            }),
        decreases rem_toks(self@.tokens, self@.pos), 3int,
    {
        proof {
            lemma_view_tokens(self.tokens@);
        }
        let comma = Token::COMMA;
        if self.peek_token_is(&comma) {
            self.next_token();
            self.next_token();
            let element = match self.parse_expression(Precedence::LOWEST) {
                Ok(e) => e,
                Err(e) => {
                    return Err(e);
                },
            };
            let ghost ev = element@;
            let ghost before = view_exprs(elements@);
            let mut extended = elements;
            proof {
                lemma_view_exprs_push(extended@, element);
            }
            extended.push(element);
            self.parse_list_rest(extended, bracket)
        } else {
            let closing = if bracket {
                Token::RBRACKET
            } else {
                Token::RPAREN
            };
            match self.expect_peek(&closing) {
                Ok(_) => Ok(elements),
                Err(e) => Err(e),
            }
        }
    }

    /// Parse an array literal: the `[` is the current token.
    #[verifier::rlimit(100)]
    pub fn parse_array_expression(&mut self) -> (r: Result<Expression, ParserError>)
        requires
            old(self).wf(),
            0 <= old(self)@.pos < old(self)@.tokens.len(),
        ensures
            final(self).wf(),
            final(self)@.tokens == old(self)@.tokens,
            final(self)@.errors == old(self)@.errors,
            old(self)@.pos <= final(self)@.pos,
            expr_step_matches(
                r,
                final(self)@.pos,
                parse_array_v(old(self)@.tokens, old(self)@.pos),
            ),
        decreases rem_toks(self@.tokens, self@.pos), 5int,
    {
        proof {
            lemma_view_tokens(self.tokens@);
        }
        let rbracket = Token::RBRACKET;
        if self.peek_token_is(&rbracket) {
            self.next_token();
            let elements: Vec<Expression> = Vec::new();
            proof {
                assert(view_exprs(elements@) =~= Seq::<ExprV>::empty());
                assert(Literal::Array(elements)@ == LitV::Array(view_exprs(elements@)));
            }
            return Ok(Expression::Lit(Literal::Array(elements)));
        }
        self.next_token();
        let first = match self.parse_expression(Precedence::LOWEST) {
            Ok(e) => e,
            Err(e) => {
                return Err(e);
            },
        };
        let ghost fv = first@;
        let mut elements: Vec<Expression> = Vec::new();
        elements.push(first);
        proof {
            lemma_view_exprs(elements@);
            assert(view_exprs(elements@) =~= seq![fv]);
        }
        match self.parse_list_rest(elements, true) {
            Ok(es) => {
                proof {
                    let toksg = old(self)@.tokens;
                    let pos0 = old(self)@.pos;
                    let s1 = parse_expression_v(toksg, pos0 + 1, Precedence::LOWEST);
                    assert(s1.0 matches Ok(v1) && v1 == fv);
                    assert(s1.1 > pos0);
                    let s2 = parse_list_rest_v(toksg, s1.1, seq![fv], TokenV::RBRACKET);
                    assert(s2.0 matches Ok(v2) && view_exprs(es@) == v2);
                    assert(self@.pos == s2.1);
                    assert(Literal::Array(es)@ == LitV::Array(view_exprs(es@)));
                    assert(Expression::Lit(Literal::Array(es))@ == ExprV::Lit(
                        LitV::Array(view_exprs(es@)),
                    ));
                }
                Ok(Expression::Lit(Literal::Array(es)))
            },
            Err(e) => Err(e),
        }
    }

    /// Parse the whole program: statements until the end of input, collecting
    /// the syntax errors of statements that fail.  The result is the program
    /// when no error was collected, and the error list otherwise.
    #[verifier::rlimit(100)]
    pub fn parse_program(&mut self) -> (r: Result<Vec<Statement>, ParserErrors>)
        requires
            old(self).wf(),
        ensures
            final(self).wf(),
            final(self)@.tokens == old(self)@.tokens,
            ({
                let (stmts, errs, _) = parse_program_v(old(self)@.tokens, old(self)@.pos);
                final(self)@.errors == old(self)@.errors + errs && if (old(self)@.errors
                    + errs).len() == 0 {
                    r matches Ok(program) && view_stmts(program@) == stmts
                } else {
                    r matches Err(es) && view_errors(es@) == old(self)@.errors + errs
                }
            }),
    {
        proof {
            lemma_view_tokens(self.tokens@);
        }
        let mut program: Vec<Statement> = Vec::new();
        let ghost toks0 = self@.tokens;
        let ghost start = self@.pos;
        let ghost errs0 = self@.errors;
        proof {
            assert(view_stmts(program@) =~= Seq::<StmtV>::empty());
        }
        loop
            invariant
                self.wf(),
                self@.tokens == toks0,
                start <= self@.pos,
                errs0 == old(self)@.errors,
                errs0.len() <= self@.errors.len(),
                ({
                    let (stmts, errs, _) = parse_program_v(toks0, self@.pos);
                    let (all_stmts, all_errs, _) = parse_program_v(toks0, start);
                    view_stmts(program@) + stmts == all_stmts && self@.errors + errs == errs0
                        + all_errs
                }),
            ensures
                self.wf(),
                self@.tokens == toks0,
                ({
                    let (all_stmts, all_errs, _) = parse_program_v(toks0, start);
                    view_stmts(program@) == all_stmts && self@.errors == errs0 + all_errs
                }),
            decreases rem_toks(toks0, self@.pos), 9int,
        {
            proof {
                lemma_view_tokens(self.tokens@);
            }
            let eof = Token::EOF;
            if self.current_token_is(&eof) {
                proof {
                    let (stmts, errs, _) = parse_program_v(toks0, self@.pos);
                    assert(stmts =~= Seq::<StmtV>::empty());
                    assert(errs =~= Seq::<ParserErrorV>::empty());
                    let (all_stmts, all_errs, _) = parse_program_v(toks0, start);
                    assert(view_stmts(program@) + Seq::<StmtV>::empty() =~= view_stmts(program@));
                    assert(self@.errors + Seq::<ParserErrorV>::empty() =~= self@.errors);
                }
                break;
            }
            let ghost pos_before = self@.pos;
            let ghost stmts_before = view_stmts(program@);
            let ghost errs_before = self@.errors;
            let parsed = self.parse_statement();
            proof {
                lemma_view_tokens(self.tokens@);
            }
            match parsed {
                Ok(statement) => {
                    proof {
                        lemma_view_stmts_push(program@, statement);
                    }
                    program.push(statement);
                },
                Err(e) => {
                    proof {
                        lemma_view_errors_push(self.errors@, e);
                    }
                    self.errors.push(e);
                },
            }
            proof {
                lemma_view_tokens(self.tokens@);
            }
            if self.pos < self.tokens.len() {
                self.next_token();
            } else {
                proof {
                    assert(tok_at(toks0, self@.pos) == TokenV::EOF);
                }
            }
            proof {
                let step = parse_statement_v(toks0, pos_before);
                let cont0 = if step.1 > pos_before {
                    step.1 + 1
                } else {
                    pos_before + 1
                };
                let cont = if cont0 > toks0.len() {
                    toks0.len() as int
                } else {
                    cont0
                };
                assert(self@.pos == cont);
                let rest = parse_program_v(toks0, cont);
                match step.0 {
                    Ok(sv) => {
                        assert(view_stmts(program@) =~= stmts_before.push(sv));
                        assert(stmts_before.push(sv) + rest.0 =~= stmts_before + (seq![sv]
                            + rest.0));
                    },
                    Err(ev) => {
                        assert(self@.errors =~= errs_before.push(ev));
                        assert(errs_before.push(ev) + rest.1 =~= errs_before + (seq![ev]
                            + rest.1));
                    },
                }
            }
        }
        if self.errors.len() == 0 {
            proof {
                assert(self@.errors.len() == 0);
            }
            Ok(program)
        } else {
            let errors = duplicate_errors(&self.errors);
            Err(errors)
        }
    }
}

/// A copy of an error list, error by error.
fn duplicate_errors(errors: &Vec<ParserError>) -> (r: Vec<ParserError>)
    ensures
        view_errors(r@) == view_errors(errors@),
{
    let mut out: Vec<ParserError> = Vec::new();
    let mut i: usize = 0;
    proof {
        lemma_view_errors(errors@);
        assert(view_errors(out@) =~= view_errors(errors@.subrange(0, 0)));
    }
    while i < errors.len()
        invariant
            i <= errors@.len(),
            view_errors(out@) == view_errors(errors@.subrange(0, i as int)),
            view_errors(errors@).len() == errors@.len(),
            forall|j: int|
                0 <= j < errors@.len() ==> view_errors(errors@)[j] == #[trigger] errors@[j].view(),
        decreases errors@.len() - i,
    {
        let copy = match &errors[i] {
            ParserError::NoIdentifier(t) => ParserError::NoIdentifier(t.duplicate()),
            ParserError::UnexpectedToken(want, got) => ParserError::UnexpectedToken(
                want.duplicate(),
                got.duplicate(),
            ),
            ParserError::NoPrefixRule(t) => ParserError::NoPrefixRule(t.duplicate()),
        };
        proof {
            lemma_view_errors_push(out@, copy);
            assert(errors@.subrange(0, i + 1).drop_last() =~= errors@.subrange(0, i as int));
            lemma_view_errors(errors@.subrange(0, i + 1));
        }
        out.push(copy);
        i = i + 1;
        proof {
            lemma_view_errors(out@);
            lemma_view_errors(errors@.subrange(0, i as int));
            assert(view_errors(out@) =~= view_errors(errors@.subrange(0, i as int)));
        }
    }
    proof {
        assert(errors@.subrange(0, errors@.len() as int) =~= errors@);
    }
    out
}

/// Parse a whole source text: the program node, or the collected syntax
/// errors.
pub fn parse(input: &str) -> (r: Result<Node, ParserErrors>)
    ensures
        ({
            let toks = scan_all(input@, 0);
            let (stmts, errs, _) = parse_program_v(toks, 0);
            if errs.len() == 0 {
                r matches Ok(node) && node@ == NodeV::Program(stmts)
            } else {
                r matches Err(es) && view_errors(es@) == errs
            }
        }),
{
    let lexer = Lexer::new(input);
    let mut parser = Parser::new(lexer);
    proof {
        assert(Seq::<ParserErrorV>::empty() + parse_program_v(scan_all(input@, 0), 0).1
            =~= parse_program_v(scan_all(input@, 0), 0).1);
    }
    match parser.parse_program() {
        Ok(program) => Ok(Node::Program(program)),
        Err(errors) => Err(errors),
    }
}

} // verus!