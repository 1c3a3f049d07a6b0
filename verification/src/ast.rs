//! The abstract syntax tree: statement and expression shapes produced by the
//! parser and consumed by the evaluator, their spec-level mirrors, and the
//! canonical fully-parenthesized textual form.

use vstd::prelude::*;
use crate::token::Token;
use crate::token::TokenV;
use crate::token::token_text;
use crate::display::int_text;
use crate::display::i32_text;

verus! {

/// Spec-level mirror of [`Literal`].
pub enum LitV {
    Integer(i32),
    Boolean(bool),
    Str(Seq<char>),
    Array(Seq<ExprV>),
}

/// Spec-level mirror of [`Expression`].
pub enum ExprV {
    Ident(Seq<char>),
    Lit(LitV),
    Prefix(TokenV, Box<ExprV>),
    Infix(Box<ExprV>, TokenV, Box<ExprV>),
    If(Box<ExprV>, Seq<StmtV>, Option<Seq<StmtV>>),
    While(Box<ExprV>, Seq<StmtV>),
    Function(Seq<Seq<char>>, Seq<StmtV>),
    FunctionCall(Box<ExprV>, Seq<ExprV>),
    Assign(Seq<char>, TokenV, Box<ExprV>),
    Index(Box<ExprV>, Box<ExprV>),
}

/// Spec-level mirror of [`Statement`].
pub enum StmtV {
    Let(Seq<char>, ExprV),
    Return(ExprV),
    Expr(ExprV),
}

/// Spec-level mirror of [`Node`].
pub enum NodeV {
    Program(Seq<StmtV>),
    Stmt(StmtV),
    Expr(ExprV),
}

/// A literal expression: an integer, boolean or string value, or an array of
/// element expressions.
#[derive(Debug)]
pub enum Literal {
    Integer(i32),
    Boolean(bool),
    Str(String),
    Array(Vec<Expression>),
}

/// An expression node.  Each child is exclusively owned by its parent.
#[derive(Debug)]
pub enum Expression {
    Ident(String),
    Lit(Literal),
    Prefix(Token, Box<Expression>),
    Infix(Box<Expression>, Token, Box<Expression>),
    If(Box<Expression>, Vec<Statement>, Option<Vec<Statement>>),
    While(Box<Expression>, Vec<Statement>),
    Function(Vec<String>, Vec<Statement>),
    FunctionCall(Box<Expression>, Vec<Expression>),
    Assign(String, Token, Box<Expression>),
    Index(Box<Expression>, Box<Expression>),
}

/// A statement: a `let` binding, a `return`, or a bare expression.
#[derive(Debug)]
pub enum Statement {
    Let(String, Expression),
    Return(Expression),
    Expr(Expression),
}

/// A block is an ordered sequence of statements.
pub type BlockStatement = Vec<Statement>;

/// A node handed to the evaluator: a whole program, one statement, or one
/// expression.
#[derive(Debug)]
pub enum Node {
    Program(Vec<Statement>),
    Stmt(Statement),
    Expr(Expression),
}

/// The spec view of a sequence of statements, element by element.
pub open spec fn view_stmts(v: Seq<Statement>) -> Seq<StmtV>
    decreases v,
{
    if v.len() == 0 {
        Seq::empty()
    } else {
        view_stmts(v.drop_last()).push(v.last().view())
    }
}

/// The spec view of a sequence of expressions, element by element.
pub open spec fn view_exprs(v: Seq<Expression>) -> Seq<ExprV>
    decreases v,
{
    if v.len() == 0 {
        Seq::empty()
    } else {
        view_exprs(v.drop_last()).push(v.last().view())
    }
}

impl View for Literal {
    type V = LitV;

    open spec fn view(&self) -> LitV
        decreases self,
    {
        match self {
            Literal::Integer(value) => LitV::Integer(*value),
            Literal::Boolean(value) => LitV::Boolean(*value),
            Literal::Str(value) => LitV::Str(value@),
            Literal::Array(elements) => LitV::Array(view_exprs(elements@)),
        }
    }
}

impl View for Expression {
    type V = ExprV;

    open spec fn view(&self) -> ExprV
        decreases self,
    {
        match self {
            Expression::Ident(name) => ExprV::Ident(name@),
            Expression::Lit(lit) => ExprV::Lit(lit.view()),
            Expression::Prefix(op, operand) => ExprV::Prefix(op@, Box::new((**operand).view())),
            Expression::Infix(left, op, right) => ExprV::Infix(
                Box::new((**left).view()),
                op@,
                Box::new((**right).view()),
            ),
            Expression::If(cond, cons, alt) => ExprV::If(
                Box::new((**cond).view()),
                view_stmts(cons@),
                match alt {
                    Some(block) => Some(view_stmts(block@)),
                    None => None,
                },
            ),
            Expression::While(cond, body) => ExprV::While(Box::new((**cond).view()), view_stmts(body@)),
            Expression::Function(params, body) => ExprV::Function(
                params.deep_view(),
                view_stmts(body@),
            ),
            Expression::FunctionCall(callee, args) => ExprV::FunctionCall(
                Box::new((**callee).view()),
                view_exprs(args@),
            ),
            Expression::Assign(name, op, value) => ExprV::Assign(name@, op@, Box::new((**value).view())),
            Expression::Index(collection, index) => ExprV::Index(
                Box::new((**collection).view()),
                Box::new((**index).view()),
            ),
        }
    }
}

impl View for Statement {
    type V = StmtV;

    open spec fn view(&self) -> StmtV
        decreases self,
    {
        match self {
            Statement::Let(name, value) => StmtV::Let(name@, value.view()),
            Statement::Return(value) => StmtV::Return(value.view()),
            Statement::Expr(value) => StmtV::Expr(value.view()),
        }
    }
}

impl View for Node {
    type V = NodeV;

    open spec fn view(&self) -> NodeV {
        match self {
            Node::Program(stmts) => NodeV::Program(view_stmts(stmts@)),
            Node::Stmt(stmt) => NodeV::Stmt(stmt.view()),
            Node::Expr(expr) => NodeV::Expr(expr.view()),
        }
    }
}

/// `view_stmts` maps element by element.
pub proof fn lemma_view_stmts(v: Seq<Statement>)
    ensures
        view_stmts(v).len() == v.len(),
        forall|i: int| 0 <= i < v.len() ==> view_stmts(v)[i] == #[trigger] v[i].view(),
    decreases v,
{
    if v.len() > 0 {
        lemma_view_stmts(v.drop_last());
        assert(view_stmts(v) == view_stmts(v.drop_last()).push(v.last().view()));
        assert(view_stmts(v).len() == v.len());
        assert forall|i: int| 0 <= i < v.len() implies view_stmts(v)[i] == #[trigger] v[i].view() by {
            if i < v.len() - 1 {
                assert(v.drop_last()[i] == v[i]);
            } else {
                assert(v[i] == v.last());
            }
        }
    }
}

/// `view_exprs` maps element by element.
pub proof fn lemma_view_exprs(v: Seq<Expression>)
    ensures
        view_exprs(v).len() == v.len(),
        forall|i: int| 0 <= i < v.len() ==> view_exprs(v)[i] == #[trigger] v[i].view(),
    decreases v,
{
    if v.len() > 0 {
        lemma_view_exprs(v.drop_last());
        assert(view_exprs(v) == view_exprs(v.drop_last()).push(v.last().view()));
        assert(view_exprs(v).len() == v.len());
        assert forall|i: int| 0 <= i < v.len() implies view_exprs(v)[i] == #[trigger] v[i].view() by {
            if i < v.len() - 1 {
                assert(v.drop_last()[i] == v[i]);
            } else {
                assert(v[i] == v.last());
            }
        }
    }
}

/// Appending one statement extends the view by that statement's view.
pub proof fn lemma_view_stmts_push(v: Seq<Statement>, s: Statement)
    ensures
        view_stmts(v.push(s)) == view_stmts(v).push(s.view()),
{
    assert(v.push(s).drop_last() =~= v);
    assert(v.push(s).last() == s);
}

/// Appending one expression extends the view by that expression's view.
pub proof fn lemma_view_exprs_push(v: Seq<Expression>, e: Expression)
    ensures
        view_exprs(v.push(e)) == view_exprs(v).push(e.view()),
{
    assert(v.push(e).drop_last() =~= v);
    assert(v.push(e).last() == e);
}

/// The text of a literal: integers in decimal, booleans as words, strings
/// quoted, arrays bracketed with comma-space separators.
pub open spec fn lit_text(l: LitV) -> Seq<char>
    decreases l, 0int,
{
    match l {
        LitV::Integer(value) => int_text(value as int),
        LitV::Boolean(value) => if value {
            "true"@
        } else {
            "false"@
        },
        LitV::Str(value) => "\""@ + value + "\""@,
        LitV::Array(elements) => "["@ + exprs_text_from(elements, 0) + "]"@,
    }
}

/// The canonical fully-parenthesized text of an expression.
pub open spec fn expr_text(e: ExprV) -> Seq<char>
    decreases e, 0int,
{
    match e {
        ExprV::Ident(name) => name,
        ExprV::Lit(l) => lit_text(l),
        ExprV::Prefix(op, operand) => "("@ + token_text(op) + expr_text(*operand) + ")"@,
        ExprV::Infix(left, op, right) => "("@ + expr_text(*left) + " "@ + token_text(op) + " "@
            + expr_text(*right) + ")"@,
        ExprV::If(cond, cons, alt) => match alt {
            Some(alt_block) => "if "@ + expr_text(*cond) + " { "@ + stmts_text_from(cons, 0)
                + " } else { "@ + stmts_text_from(alt_block, 0) + " }"@,
            None => "if "@ + expr_text(*cond) + " { "@ + stmts_text_from(cons, 0) + " }"@,
        },
        ExprV::While(cond, body) => "while "@ + expr_text(*cond) + " { "@
            + stmts_text_from(body, 0) + " }"@,
        ExprV::Function(params, _body) => "fn("@ + join_from(params, 0, ", "@) + ") {...}"@,
        ExprV::FunctionCall(callee, args) => expr_text(*callee) + "("@ + exprs_text_from(args, 0)
            + ")"@,
        ExprV::Assign(name, op, value) => name + " "@ + token_text(op) + " "@ + expr_text(*value),
        ExprV::Index(collection, index) => "("@ + expr_text(*collection) + "["@ + expr_text(*index)
            + "])"@,
    }
}

/// The text of a statement.
pub open spec fn stmt_text(s: StmtV) -> Seq<char>
    decreases s, 0int,
{
    match s {
        StmtV::Let(name, value) => "let "@ + name + " = "@ + expr_text(value) + ";"@,
        StmtV::Return(value) => "return "@ + expr_text(value) + ";"@,
        StmtV::Expr(value) => expr_text(value),
    }
}

/// The concatenated text of the statements from position `i` on, with no
/// separator between them.
pub open spec fn stmts_text_from(ss: Seq<StmtV>, i: int) -> Seq<char>
    decreases ss, ss.len() - i,
{
    if i < 0 || i >= ss.len() {
        Seq::empty()
    } else {
        stmt_text(ss[i]) + stmts_text_from(ss, i + 1)
    }
}

/// The text of the expressions from position `i` on, separated by a comma and
/// a space.
pub open spec fn exprs_text_from(es: Seq<ExprV>, i: int) -> Seq<char>
    decreases es, es.len() - i,
{
    if i < 0 || i >= es.len() {
        Seq::empty()
    } else if i == es.len() - 1 {
        expr_text(es[i])
    } else {
        expr_text(es[i]) + ", "@ + exprs_text_from(es, i + 1)
    }
}

/// The names from position `i` on, separated by `sep`.
pub open spec fn join_from(names: Seq<Seq<char>>, i: int, sep: Seq<char>) -> Seq<char>
    decreases names.len() - i,
{
    if i < 0 || i >= names.len() {
        Seq::empty()
    } else if i == names.len() - 1 {
        names[i]
    } else {
        names[i] + sep + join_from(names, i + 1, sep)
    }
}

/// The text of a whole program or single node.
pub open spec fn node_text(n: NodeV) -> Seq<char> {
    match n {
        NodeV::Program(stmts) => stmts_text_from(stmts, 0),
        NodeV::Stmt(s) => stmt_text(s),
        NodeV::Expr(e) => expr_text(e),
    }
}

impl Literal {
    /// The printed form of the literal.
    pub fn display_string(&self) -> (r: String)
        ensures
            r@ == lit_text(self@),
        decreases self, 1int,
    {
        match self {
            Literal::Integer(value) => i32_text(*value),
            Literal::Boolean(value) => if *value {
                String::from_str("true")
            } else {
                String::from_str("false")
            },
            Literal::Str(value) => {
                let mut s = String::from_str("\"");
                s.append(value.as_str());
                s.append("\"");
                proof {
                    assert(s@ =~= lit_text(self@));
                }
                s
            },
            Literal::Array(elements) => {
                let mut s = String::from_str("[");
                let inner = format_expressions(elements);
                s.append(inner.as_str());
                s.append("]");
                proof {
                    assert(s@ =~= lit_text(self@));
                }
                s
            },
        }
    }
}

impl Expression {
    /// The canonical fully-parenthesized printed form of the expression.
    pub fn display_string(&self) -> (r: String)
        ensures
            r@ == expr_text(self@),
        decreases self, 2int,
    {
        match self {
            Expression::Ident(name) => name.clone(),
            Expression::Lit(l) => l.display_string(),
            Expression::Prefix(op, operand) => {
                let mut s = String::from_str("(");
                let op_str = op.text();
                s.append(op_str.as_str());
                let operand_str = operand.display_string();
                s.append(operand_str.as_str());
                s.append(")");
                proof {
                    assert(s@ =~= expr_text(self@));
                }
                s
            },
            Expression::Infix(left, op, right) => {
                let mut s = String::from_str("(");
                let left_str = left.display_string();
                s.append(left_str.as_str());
                s.append(" ");
                let op_str = op.text();
                s.append(op_str.as_str());
                s.append(" ");
                let right_str = right.display_string();
                s.append(right_str.as_str());
                s.append(")");
                proof {
                    assert(s@ =~= expr_text(self@));
                }
                s
            },
            Expression::If(cond, cons, alt) => {
                let mut s = String::from_str("if ");
                let cond_str = cond.display_string();
                s.append(cond_str.as_str());
                s.append(" { ");
                let cons_str = format_statements(cons);
                s.append(cons_str.as_str());
                match alt {
                    Some(alt_block) => {
                        s.append(" } else { ");
                        let alt_str = format_statements(alt_block);
                        s.append(alt_str.as_str());
                        s.append(" }");
                    },
                    None => {
                        s.append(" }");
                    },
                }
                proof {
                    assert(s@ =~= expr_text(self@));
                }
                s
            },
            Expression::While(cond, body) => {
                let mut s = String::from_str("while ");
                let cond_str = cond.display_string();
                s.append(cond_str.as_str());
                s.append(" { ");
                let body_str = format_statements(body);
                s.append(body_str.as_str());
                s.append(" }");
                proof {
                    assert(s@ =~= expr_text(self@));
                }
                s
            },
            Expression::Function(params, _body) => {
                let mut s = String::from_str("fn(");
                let params_str = join_strings(params, ", ");
                s.append(params_str.as_str());
                s.append(") {...}");
                proof {
                    assert(s@ =~= expr_text(self@));
                }
                s
            },
            Expression::FunctionCall(callee, args) => {
                let mut s = callee.display_string();
                s.append("(");
                let args_str = format_expressions(args);
                s.append(args_str.as_str());
                s.append(")");
                proof {
                    assert(s@ =~= expr_text(self@));
                }
                s
            },
            Expression::Assign(name, op, value) => {
                let mut s = name.clone();
                s.append(" ");
                let op_str = op.text();
                s.append(op_str.as_str());
                s.append(" ");
                let value_str = value.display_string();
                s.append(value_str.as_str());
                proof {
                    assert(s@ =~= expr_text(self@));
                }
                s
            },
            Expression::Index(collection, index) => {
                let mut s = String::from_str("(");
                let collection_str = collection.display_string();
                s.append(collection_str.as_str());
                s.append("[");
                let index_str = index.display_string();
                s.append(index_str.as_str());
                s.append("])");
                proof {
                    assert(s@ =~= expr_text(self@));
                }
                s
            },
        }
    }
}

impl Statement {
    /// The printed form of the statement.
    pub fn display_string(&self) -> (r: String)
        ensures
            r@ == stmt_text(self@),
        decreases self, 3int,
    {
        match self {
            Statement::Let(name, value) => {
                let mut s = String::from_str("let ");
                s.append(name.as_str());
                s.append(" = ");
                let value_str = value.display_string();
                s.append(value_str.as_str());
                s.append(";");
                proof {
                    assert(s@ =~= stmt_text(self@));
                }
                s
            },
            Statement::Return(value) => {
                let mut s = String::from_str("return ");
                let value_str = value.display_string();
                s.append(value_str.as_str());
                s.append(";");
                proof {
                    assert(s@ =~= stmt_text(self@));
                }
                s
            },
            Statement::Expr(value) => value.display_string(),
        }
    }
}

impl Node {
    /// The printed form of the node.
    pub fn display_string(&self) -> (r: String)
        ensures
            r@ == node_text(self@),
    {
        match self {
            Node::Program(stmts) => format_statements(stmts),
            Node::Stmt(stmt) => stmt.display_string(),
            Node::Expr(expr) => expr.display_string(),
        }
    }
}

fn format_statements_from(stmts: &Vec<Statement>, i: usize) -> (r: String)
    requires
        i <= stmts@.len(),
    ensures
        r@ == stmts_text_from(view_stmts(stmts@), i as int),
    decreases stmts, stmts@.len() - i,
{
    proof {
        lemma_view_stmts(stmts@);
    }
    if i >= stmts.len() {
        String::new()
    } else {
        let mut s = stmts[i].display_string();
        let rest = format_statements_from(stmts, i + 1);
        s.append(rest.as_str());
        s
    }
}

/// The concatenated printed forms of the statements, with no separator.
pub fn format_statements(stmts: &Vec<Statement>) -> (r: String)
    ensures
        r@ == stmts_text_from(view_stmts(stmts@), 0),
    decreases stmts, stmts@.len() + 1,
{
    format_statements_from(stmts, 0)
}

fn format_expressions_from(exprs: &Vec<Expression>, i: usize) -> (r: String)
    requires
        i <= exprs@.len(),
    ensures
        r@ == exprs_text_from(view_exprs(exprs@), i as int),
    decreases exprs, exprs@.len() - i,
{
    proof {
        lemma_view_exprs(exprs@);
    }
    if i >= exprs.len() {
        String::new()
    } else if i == exprs.len() - 1 {
        exprs[i].display_string()
    } else {
        let mut s = exprs[i].display_string();
        s.append(", ");
        let rest = format_expressions_from(exprs, i + 1);
        s.append(rest.as_str());
        s
    }
}

/// The printed forms of the expressions, separated by a comma and a space.
pub fn format_expressions(exprs: &Vec<Expression>) -> (r: String)
    ensures
        r@ == exprs_text_from(view_exprs(exprs@), 0),
    decreases exprs, exprs@.len() + 1,
{
    format_expressions_from(exprs, 0)
}

fn join_strings_from(names: &Vec<String>, i: usize, sep: &str) -> (r: String)
    requires
        i <= names@.len(),
    ensures
        r@ == join_from(names.deep_view(), i as int, sep@),
    decreases names@.len() - i,
{
    if i >= names.len() {
        String::new()
    } else if i == names.len() - 1 {
        names[i].clone()
    } else {
        let mut s = names[i].clone();
        s.append(sep);
        let rest = join_strings_from(names, i + 1, sep);
        s.append(rest.as_str());
        s
    }
}

/// The names joined with the given separator.
pub fn join_strings(names: &Vec<String>, sep: &str) -> (r: String)
    ensures
        r@ == join_from(names.deep_view(), 0, sep@),
{
    join_strings_from(names, 0, sep)
}

impl Literal {
    /// A structurally identical copy of the literal.
    pub fn duplicate(&self) -> (r: Literal)
        ensures
            r@ == self@,
        decreases self, 1int,
    {
        match self {
            Literal::Integer(value) => Literal::Integer(*value),
            Literal::Boolean(value) => Literal::Boolean(*value),
            Literal::Str(value) => Literal::Str(value.clone()),
            Literal::Array(elements) => Literal::Array(duplicate_expressions(elements)),
        }
    }
}

impl Expression {
    /// A structurally identical copy of the expression.
    pub fn duplicate(&self) -> (r: Expression)
        ensures
            r@ == self@,
        decreases self, 2int,
    {
        match self {
            Expression::Ident(name) => Expression::Ident(name.clone()),
            Expression::Lit(l) => Expression::Lit(l.duplicate()),
            Expression::Prefix(op, operand) => Expression::Prefix(
                op.duplicate(),
                Box::new(operand.duplicate()),
            ),
            Expression::Infix(left, op, right) => Expression::Infix(
                Box::new(left.duplicate()),
                op.duplicate(),
                Box::new(right.duplicate()),
            ),
            Expression::If(cond, cons, alt) => Expression::If(
                Box::new(cond.duplicate()),
                duplicate_statements(cons),
                match alt {
                    Some(alt_block) => Some(duplicate_statements(alt_block)),
                    None => None,
                },
            ),
            Expression::While(cond, body) => Expression::While(
                Box::new(cond.duplicate()),
                duplicate_statements(body),
            ),
            Expression::Function(params, body) => Expression::Function(
                duplicate_strings(params),
                duplicate_statements(body),
            ),
            Expression::FunctionCall(callee, args) => Expression::FunctionCall(
                Box::new(callee.duplicate()),
                duplicate_expressions(args),
            ),
            Expression::Assign(name, op, value) => Expression::Assign(
                name.clone(),
                op.duplicate(),
                Box::new(value.duplicate()),
            ),
            Expression::Index(collection, index) => Expression::Index(
                Box::new(collection.duplicate()),
                Box::new(index.duplicate()),
            ),
        }
    }
}

impl Statement {
    /// A structurally identical copy of the statement.
    pub fn duplicate(&self) -> (r: Statement)
        ensures
            r@ == self@,
        decreases self, 3int,
    {
        match self {
            Statement::Let(name, value) => Statement::Let(name.clone(), value.duplicate()),
            Statement::Return(value) => Statement::Return(value.duplicate()),
            Statement::Expr(value) => Statement::Expr(value.duplicate()),
        }
    }
}

/// A copy of a statement list, statement by statement.
pub fn duplicate_statements(stmts: &Vec<Statement>) -> (r: Vec<Statement>)
    ensures
        view_stmts(r@) == view_stmts(stmts@),
    decreases stmts, 4int,
{
    let mut out: Vec<Statement> = Vec::new();
    let mut i: usize = 0;
    proof {
        lemma_view_stmts(stmts@);
    }
    while i < stmts.len()
        invariant
            i <= stmts@.len(),
            view_stmts(out@) == view_stmts(stmts@.subrange(0, i as int)),
            view_stmts(stmts@).len() == stmts@.len(),
            forall|j: int|
                0 <= j < stmts@.len() ==> view_stmts(stmts@)[j] == #[trigger] stmts@[j].view(),
        decreases stmts@.len() - i,
    {
        let copy = stmts[i].duplicate();
        proof {
            lemma_view_stmts_push(out@, copy);
            assert(stmts@.subrange(0, i + 1).drop_last() =~= stmts@.subrange(0, i as int));
            lemma_view_stmts(stmts@.subrange(0, i + 1));
        }
        out.push(copy);
        i = i + 1;
        proof {
            lemma_view_stmts(out@);
            lemma_view_stmts(stmts@.subrange(0, i as int));
            assert(view_stmts(out@) =~= view_stmts(stmts@.subrange(0, i as int)));
        }
    }
    proof {
        assert(stmts@.subrange(0, stmts@.len() as int) =~= stmts@);
    }
    out
}

/// A copy of an expression list, expression by expression.
pub fn duplicate_expressions(exprs: &Vec<Expression>) -> (r: Vec<Expression>)
    ensures
        view_exprs(r@) == view_exprs(exprs@),
    decreases exprs, 4int,
{
    let mut out: Vec<Expression> = Vec::new();
    let mut i: usize = 0;
    proof {
        lemma_view_exprs(exprs@);
    }
    while i < exprs.len()
        invariant
            i <= exprs@.len(),
            view_exprs(out@) == view_exprs(exprs@.subrange(0, i as int)),
            view_exprs(exprs@).len() == exprs@.len(),
            forall|j: int|
                0 <= j < exprs@.len() ==> view_exprs(exprs@)[j] == #[trigger] exprs@[j].view(),
        decreases exprs@.len() - i,
    {
        let copy = exprs[i].duplicate();
        proof {
            lemma_view_exprs_push(out@, copy);
            assert(exprs@.subrange(0, i + 1).drop_last() =~= exprs@.subrange(0, i as int));
            lemma_view_exprs(exprs@.subrange(0, i + 1));
        }
        out.push(copy);
        i = i + 1;
        proof {
            lemma_view_exprs(out@);
            lemma_view_exprs(exprs@.subrange(0, i as int));
            assert(view_exprs(out@) =~= view_exprs(exprs@.subrange(0, i as int)));
        }
    }
    proof {
        assert(exprs@.subrange(0, exprs@.len() as int) =~= exprs@);
    }
    out
}

/// A copy of a list of names.
pub fn duplicate_strings(names: &Vec<String>) -> (r: Vec<String>)
    ensures
        r.deep_view() == names.deep_view(),
{
    let mut out: Vec<String> = Vec::new();
    let mut i: usize = 0;
    while i < names.len()
        invariant
            i <= names@.len(),
            out@.len() == i,
            forall|j: int| 0 <= j < i ==> out@[j]@ == #[trigger] names@[j]@,
        decreases names@.len() - i,
    {
        out.push(names[i].clone());
        i = i + 1;
    }
    proof {
        assert(out.deep_view() =~= names.deep_view());
    }
    out
}

} // verus!
