//! The tree-walking evaluator: executes an AST against the environment,
//! producing a runtime object or an evaluation error.  Every function agrees
//! exactly with the spec-level interpreter in `semantics`.

use vstd::prelude::*;
use crate::ast::Expression;
use crate::ast::Literal;
use crate::ast::Node;
use crate::ast::Statement;
use crate::ast::duplicate_statements;
use crate::ast::duplicate_strings;
use crate::ast::lemma_view_exprs;
use crate::ast::lemma_view_stmts;
use crate::ast::view_exprs;
use crate::ast::view_stmts;
use crate::builtins::Builtin;
use crate::display::i32_text;
use crate::display::int_text;
use crate::display::usize_text;
use crate::environment::Environment;
use crate::object::Object;
use crate::object::ValueV;
use crate::object::lemma_view_values;
use crate::object::lemma_view_values_push;
use crate::object::value_text;
use crate::object::view_values;
use crate::semantics::EvalErrV;
use crate::semantics::ListOutcome;
use crate::semantics::Outcome;
use crate::semantics::StateV;
use crate::semantics::apply_v;
use crate::semantics::bind_params;
use crate::semantics::bool_infix_result;
use crate::semantics::eval_block_v;
use crate::semantics::eval_expr_v;
use crate::semantics::eval_exprs_v;
use crate::semantics::eval_node_v;
use crate::semantics::eval_stmt_v;
use crate::semantics::eval_while_v;
use crate::semantics::index_result;
use crate::semantics::infix_result;
use crate::semantics::int_infix_result;
use crate::semantics::prefix_result;
use crate::semantics::str_infix_result;
use crate::semantics::trunc_div;
use crate::semantics::truthy;
use crate::semantics::unwrap_return;
use crate::token::Token;
use crate::token::TokenV;
use crate::token::token_text;

verus! {

/// An evaluation error.  Evaluation stops at the first one; the environment
/// keeps whatever bindings were committed before it occurred.
#[derive(Debug)]
pub enum EvalError {
    IdentifierNotFound(String),
    UnknownPrefixOperator(Token, Object),
    UnknownInfixOperator(Object, Token, Object),
    TypeMismatch(Object, Token, Object),
    NotAFunction(Object),
    WrongArgumentCount(usize, usize),
    BuiltinArgumentCount(usize, usize),
    LenUnsupported(Object),
    PushUnsupported(Object),
    IndexUnsupported(Object),
    DivisionByZero,
    OutOfFuel,
}

impl View for EvalError {
    type V = EvalErrV;

    open spec fn view(&self) -> EvalErrV {
        match self {
            EvalError::IdentifierNotFound(name) => EvalErrV::IdentifierNotFound(name@),
            EvalError::UnknownPrefixOperator(op, v) => EvalErrV::UnknownPrefixOperator(
                op@,
                v.view(),
            ),
            EvalError::UnknownInfixOperator(l, op, r) => EvalErrV::UnknownInfixOperator(
                l.view(),
                op@,
                r.view(),
            ),
            EvalError::TypeMismatch(l, op, r) => EvalErrV::TypeMismatch(l.view(), op@, r.view()),
            EvalError::NotAFunction(v) => EvalErrV::NotAFunction(v.view()),
            EvalError::WrongArgumentCount(expected, got) => EvalErrV::WrongArgumentCount(
                *expected,
                *got,
            ),
            EvalError::BuiltinArgumentCount(expected, got) => EvalErrV::BuiltinArgumentCount(
                *expected,
                *got,
            ),
            EvalError::LenUnsupported(v) => EvalErrV::LenUnsupported(v.view()),
            EvalError::PushUnsupported(v) => EvalErrV::PushUnsupported(v.view()),
            EvalError::IndexUnsupported(v) => EvalErrV::IndexUnsupported(v.view()),
            EvalError::DivisionByZero => EvalErrV::DivisionByZero,
            EvalError::OutOfFuel => EvalErrV::OutOfFuel,
        }
    }
}

/// The human-readable message of an evaluation error.
pub open spec fn err_text(e: EvalErrV) -> Seq<char> {
    match e {
        EvalErrV::IdentifierNotFound(name) => "Identifier not found: "@ + name,
        EvalErrV::UnknownPrefixOperator(op, v) => "Unknown operator: "@ + token_text(op)
            + value_text(v),
        EvalErrV::UnknownInfixOperator(l, op, r) => "Unknown operator: "@ + value_text(l) + " "@
            + token_text(op) + " "@ + value_text(r),
        EvalErrV::TypeMismatch(l, op, r) => "Mismatch type: "@ + value_text(l) + " "@ + token_text(
            op,
        ) + " "@ + value_text(r),
        EvalErrV::NotAFunction(v) => "Not a function: "@ + value_text(v),
        EvalErrV::WrongArgumentCount(expected, got) => "Expected "@ + int_text(expected as int)
            + " arguments but got "@ + int_text(got as int),
        EvalErrV::BuiltinArgumentCount(expected, got) => "Invalid number of arguments: expected="@
            + int_text(expected as int) + ", got="@ + int_text(got as int),
        EvalErrV::LenUnsupported(v) => "Argument to `len` not supported, got "@ + value_text(v),
        EvalErrV::PushUnsupported(v) => "Argument to `push` not supported, got "@ + value_text(v),
        EvalErrV::IndexUnsupported(v) => "Index operator not supported: "@ + value_text(v),
        EvalErrV::DivisionByZero => "Division by zero"@,
        EvalErrV::OutOfFuel => "Evaluation budget exhausted"@,
    }
}

impl EvalError {
    /// The error's message.
    pub fn message(&self) -> (r: String)
        ensures
            r@ == err_text(self@),
    {
        match self {
            EvalError::IdentifierNotFound(name) => {
                let mut s = String::from_str("Identifier not found: ");
                s.append(name.as_str());
                proof {
                    assert(s@ =~= err_text(self@));
                }
                s
            },
            EvalError::UnknownPrefixOperator(op, v) => {
                let mut s = String::from_str("Unknown operator: ");
                let op_str = op.text();
                s.append(op_str.as_str());
                let v_str = v.display_string();
                s.append(v_str.as_str());
                proof {
                    assert(s@ =~= err_text(self@));
                }
                s
            },
            EvalError::UnknownInfixOperator(l, op, r) => {
                let mut s = String::from_str("Unknown operator: ");
                let l_str = l.display_string();
                s.append(l_str.as_str());
                s.append(" ");
                let op_str = op.text();
                s.append(op_str.as_str());
                s.append(" ");
                let r_str = r.display_string();
                s.append(r_str.as_str());
                proof {
                    assert(s@ =~= err_text(self@));
                }
                s
            },
            EvalError::TypeMismatch(l, op, r) => {
                let mut s = String::from_str("Mismatch type: ");
                let l_str = l.display_string();
                s.append(l_str.as_str());
                s.append(" ");
                let op_str = op.text();
                s.append(op_str.as_str());
                s.append(" ");
                let r_str = r.display_string();
                s.append(r_str.as_str());
                proof {
                    assert(s@ =~= err_text(self@));
                }
                s
            },
            EvalError::NotAFunction(v) => {
                let mut s = String::from_str("Not a function: ");
                let v_str = v.display_string();
                s.append(v_str.as_str());
                proof {
                    assert(s@ =~= err_text(self@));
                }
                s
            },
            EvalError::WrongArgumentCount(expected, got) => {
                let mut s = String::from_str("Expected ");
                let e_str = usize_text(*expected);
                s.append(e_str.as_str());
                s.append(" arguments but got ");
                let g_str = usize_text(*got);
                s.append(g_str.as_str());
                proof {
                    assert(s@ =~= err_text(self@));
                }
                s
            },
            EvalError::BuiltinArgumentCount(expected, got) => {
                let mut s = String::from_str("Invalid number of arguments: expected=");
                let e_str = usize_text(*expected);
                s.append(e_str.as_str());
                s.append(", got=");
                let g_str = usize_text(*got);
                s.append(g_str.as_str());
                proof {
                    assert(s@ =~= err_text(self@));
                }
                s
            },
            EvalError::LenUnsupported(v) => {
                let mut s = String::from_str("Argument to `len` not supported, got ");
                let v_str = v.display_string();
                s.append(v_str.as_str());
                proof {
                    assert(s@ =~= err_text(self@));
                }
                s
            },
            EvalError::PushUnsupported(v) => {
                let mut s = String::from_str("Argument to `push` not supported, got ");
                let v_str = v.display_string();
                s.append(v_str.as_str());
                proof {
                    assert(s@ =~= err_text(self@));
                }
                s
            },
            EvalError::IndexUnsupported(v) => {
                let mut s = String::from_str("Index operator not supported: ");
                let v_str = v.display_string();
                s.append(v_str.as_str());
                proof {
                    assert(s@ =~= err_text(self@));
                }
                s
            },
            EvalError::DivisionByZero => String::from_str("Division by zero"),
            EvalError::OutOfFuel => String::from_str("Evaluation budget exhausted"),
        }
    }
}

/// Whether an executable result agrees with a pure spec-level result.
pub open spec fn result_matches(r: Result<Object, EvalError>, sr: Result<ValueV, EvalErrV>) -> bool {
    match r {
        Ok(o) => sr matches Ok(v) && o@ == v,
        Err(e) => sr matches Err(x) && e@ == x,
    }
}

/// Whether an executable outcome agrees with the spec-level outcome, given
/// the state the executable evaluator left behind.
pub open spec fn outcome_matches(
    r: Result<Object, EvalError>,
    env: crate::environment::EnvV,
    output: Seq<Seq<char>>,
    oc: Outcome,
) -> bool {
    match r {
        Ok(o) => oc == Outcome::Done(o@, StateV { env, output }),
        Err(e) => oc == Outcome::Fail(e@, StateV { env, output }),
    }
}

/// Truthiness coercion: `null`, `false`, the empty string and zero are false;
/// everything else is true.
pub fn is_truthy(obj: &Object) -> (r: bool)
    ensures
        r == truthy(obj@),
{
    match obj {
        Object::Null => false,
        Object::Boolean(b) => *b,
        Object::Str(s) => s.as_str().unicode_len() != 0,
        Object::Integer(i) => *i != 0,
        _ => true,
    }
}

/// `!` on an evaluated operand: boolean negation, `!null` is true, anything
/// else is false.
pub fn eval_bang_operator(operand: &Object) -> (r: Result<Object, EvalError>)
    ensures
        result_matches(r, prefix_result(TokenV::BANG, operand@)),
{
    match operand {
        Object::Boolean(b) => Ok(Object::Boolean(!*b)),
        Object::Null => Ok(Object::Boolean(true)),
        _ => Ok(Object::Boolean(false)),
    }
}

/// `-` on an evaluated operand: integer negation, wrapping on the minimum
/// value; anything else is an unknown-operator error.
pub fn eval_minus_operator(operand: &Object) -> (r: Result<Object, EvalError>)
    ensures
        result_matches(r, prefix_result(TokenV::MINUS, operand@)),
{
    match operand {
        Object::Integer(i) => if *i == i32::MIN {
            Ok(Object::Integer(i32::MIN))
        } else {
            Ok(Object::Integer(-*i))
        },
        _ => Err(EvalError::UnknownPrefixOperator(Token::MINUS, operand.duplicate())),
    }
}

/// A prefix operation on an evaluated operand.
pub fn eval_prefix_expression(operator: &Token, right: &Object) -> (r: Result<Object, EvalError>)
    ensures
        result_matches(r, prefix_result(operator@, right@)),
{
    match operator {
        Token::BANG => eval_bang_operator(right),
        Token::MINUS => eval_minus_operator(right),
        _ => Err(EvalError::UnknownPrefixOperator(operator.duplicate(), right.duplicate())),
    }
}

/// An integer infix operation: wrapping arithmetic, truncating division and
/// the comparisons.
pub fn eval_integer_infix_expression(left: i32, operator: &Token, right: i32) -> (r: Result<
    Object,
    EvalError,
>)
    ensures
        result_matches(r, int_infix_result(left, operator@, right)),
{
    match operator {
        Token::PLUS => Ok(Object::Integer(left.wrapping_add(right))),
        Token::MINUS => Ok(Object::Integer(left.wrapping_sub(right))),
        Token::ASTERISK => Ok(Object::Integer(left.wrapping_mul(right))),
        Token::SLASH => if right == 0 {
            Err(EvalError::DivisionByZero)
        } else if left == i32::MIN && right == -1 {
            Ok(Object::Integer(i32::MIN))
        } else {
            match left.checked_div(right) {
                Some(q) => {
                    proof {
                        let a = left as int;
                        let b = right as int;
                        let output: int = if a == 0 {
                            0
                        } else if a > 0 && b > 0 {
                            a / b
                        } else if a < 0 && b < 0 {
                            (a * -1) / (b * -1)
                        } else if a < 0 {
                            ((a * -1) / b) * -1
                        } else {
                            (a / (b * -1)) * -1
                        };
                        assert(output == trunc_div(a, b));
                        assert(q == trunc_div(a, b) as i32);
                    }
                    Ok(Object::Integer(q))
                },
                None => {
                    proof {
                        let a = left as int;
                        let b = right as int;
                        let output: int = if a == 0 {
                            0
                        } else if a > 0 && b > 0 {
                            a / b
                        } else if a < 0 && b < 0 {
                            (a * -1) / (b * -1)
                        } else if a < 0 {
                            ((a * -1) / b) * -1
                        } else {
                            (a / (b * -1)) * -1
                        };
                        if a == 0 {
                            assert(output == 0);
                        } else if a > 0 && b > 0 {
                            vstd::arithmetic::div_mod::lemma_div_pos_is_pos(a, b);
                            vstd::arithmetic::div_mod::lemma_div_nonincreasing(a, b);
                            assert(0 <= output <= a);
                        } else if a < 0 && b < 0 {
                            vstd::arithmetic::div_mod::lemma_div_pos_is_pos(a * -1, b * -1);
                            vstd::arithmetic::div_mod::lemma_div_nonincreasing(a * -1, b * -1);
                            assert(0 <= output <= a * -1);
                            if output > i32::MAX {
                                assert(a * -1 == 0x8000_0000);
                                assert(b * -1 >= 2);
                                vstd::arithmetic::div_mod::lemma_div_is_ordered_by_denominator(
                                    a * -1,
                                    2,
                                    b * -1,
                                );
                                assert(output <= 0x8000_0000int / 2);
                            }
                        } else if a < 0 {
                            vstd::arithmetic::div_mod::lemma_div_pos_is_pos(a * -1, b);
                            vstd::arithmetic::div_mod::lemma_div_nonincreasing(a * -1, b);
                            assert(i32::MIN <= output <= 0);
                        } else {
                            vstd::arithmetic::div_mod::lemma_div_pos_is_pos(a, b * -1);
                            vstd::arithmetic::div_mod::lemma_div_nonincreasing(a, b * -1);
                            assert(i32::MIN <= output <= 0);
                        }
                        assert(i32::MIN <= output <= i32::MAX);
                        assert(false);
                    }
                    Err(EvalError::DivisionByZero)
                },
            }
        },
        Token::EQ => Ok(Object::Boolean(left == right)),
        Token::NOT_EQ => Ok(Object::Boolean(left != right)),
        Token::LT => Ok(Object::Boolean(left < right)),
        Token::GT => Ok(Object::Boolean(left > right)),
        _ => Err(
            EvalError::UnknownInfixOperator(
                Object::Integer(left),
                operator.duplicate(),
                Object::Integer(right),
            ),
        ),
    }
}

/// A boolean infix operation: only equality and inequality.
pub fn eval_boolean_infix_expression(left: bool, operator: &Token, right: bool) -> (r: Result<
    Object,
    EvalError,
>)
    ensures
        result_matches(r, bool_infix_result(left, operator@, right)),
{
    match operator {
        Token::EQ => Ok(Object::Boolean(left == right)),
        Token::NOT_EQ => Ok(Object::Boolean(left != right)),
        _ => Err(
            EvalError::UnknownInfixOperator(
                Object::Boolean(left),
                operator.duplicate(),
                Object::Boolean(right),
            ),
        ),
    }
}

/// A string infix operation: concatenation, equality and inequality.
pub fn eval_string_infix_expression(left: &String, operator: &Token, right: &String) -> (r: Result<
    Object,
    EvalError,
>)
    ensures
        result_matches(r, str_infix_result(left@, operator@, right@)),
{
    match operator {
        Token::PLUS => {
            let mut s = left.clone();
            s.append(right.as_str());
            Ok(Object::Str(s))
        },
        Token::EQ => Ok(Object::Boolean(left.eq(right))),
        Token::NOT_EQ => Ok(Object::Boolean(!left.eq(right))),
        _ => Err(
            EvalError::UnknownInfixOperator(
                Object::Str(left.clone()),
                operator.duplicate(),
                Object::Str(right.clone()),
            ),
        ),
    }
}

/// `&&` and `||` on two already evaluated operands: truthiness coercion, no
/// short circuit.
pub fn eval_logical_infix_expression(left: &Object, operator: &Token, right: &Object) -> (r: Result<
    Object,
    EvalError,
>)
    requires
        operator@ == TokenV::AND || operator@ == TokenV::OR,
    ensures
        result_matches(r, infix_result(left@, operator@, right@)),
{
    let left_coercion = is_truthy(left);
    let right_coercion = is_truthy(right);
    match operator {
        Token::AND => Ok(Object::Boolean(left_coercion && right_coercion)),
        _ => Ok(Object::Boolean(left_coercion || right_coercion)),
    }
}

/// An infix operation on two evaluated operands: logical operators coerce,
/// like-typed pairs dispatch on the operand type, and mixed pairs are a type
/// mismatch.
pub fn eval_infix_expression(left: &Object, operator: &Token, right: &Object) -> (r: Result<
    Object,
    EvalError,
>)
    ensures
        result_matches(r, infix_result(left@, operator@, right@)),
{
    match operator {
        Token::AND | Token::OR => eval_logical_infix_expression(left, operator, right),
        _ => match (left, right) {
            (Object::Integer(a), Object::Integer(b)) => eval_integer_infix_expression(
                *a,
                operator,
                *b,
            ),
            (Object::Boolean(a), Object::Boolean(b)) => eval_boolean_infix_expression(
                *a,
                operator,
                *b,
            ),
            (Object::Str(a), Object::Str(b)) => eval_string_infix_expression(a, operator, b),
            _ => Err(
                EvalError::TypeMismatch(
                    left.duplicate(),
                    operator.duplicate(),
                    right.duplicate(),
                ),
            ),
        },
    }
}

/// A return-wrapper produced by a function body is unwrapped once; any other
/// value passes through.
pub fn unwrap_return_value(obj: Object) -> (r: Object)
    ensures
        r@ == unwrap_return(obj@),
{
    match obj {
        Object::ReturnValue(inner) => *inner,
        _ => obj,
    }
}

/// Whether an executable list result agrees with the spec-level list outcome.
pub open spec fn list_outcome_matches(
    r: Result<Vec<Object>, EvalError>,
    env: crate::environment::EnvV,
    output: Seq<Seq<char>>,
    oc: ListOutcome,
) -> bool {
    match r {
        Ok(vals) => oc == ListOutcome::Done(view_values(vals@), StateV { env, output }),
        Err(e) => oc == ListOutcome::Fail(e@, StateV { env, output }),
    }
}

/// Identifier lookup: the environment chain first, then the built-in
/// registry, then an error.
pub fn eval_identifier(identifier: &String, env: &Environment, scope: usize) -> (r: Result<
    Object,
    EvalError,
>)
    requires
        env.wf(),
    ensures
        match crate::environment::env_get(env@, scope, identifier@) {
            Some(v) => r matches Ok(o) && o@ == v,
            None => match crate::builtins::builtin_of_name(identifier@) {
                Some(b) => r matches Ok(o) && o@ == ValueV::Builtin(b),
                None => r matches Err(e) && e@ == EvalErrV::IdentifierNotFound(identifier@),
            },
        },
{
    match env.get(scope, identifier.as_str()) {
        Some(o) => Ok(o),
        None => match Builtin::lookup(identifier.as_str()) {
            Some(o) => Ok(o),
            None => Err(EvalError::IdentifierNotFound(identifier.clone())),
        },
    }
}

/// Lenient indexing on two evaluated operands.
pub fn eval_index_expression(collection: &Object, index: &Object) -> (r: Result<Object, EvalError>)
    ensures
        result_matches(r, index_result(collection@, index@)),
{
    match (collection, index) {
        (Object::Array(elements), Object::Integer(i)) => {
            proof {
                lemma_view_values(elements@);
            }
            if 0 <= *i && (*i as usize) < elements.len() {
                Ok(elements[*i as usize].duplicate())
            } else {
                Ok(Object::Null)
            }
        },
        (Object::Array(_), other) => Err(EvalError::IndexUnsupported(other.duplicate())),
        (other, _) => Err(EvalError::IndexUnsupported(other.duplicate())),
    }
}

/// Evaluate one node — a program, a statement or an expression — against the
/// environment, within the given step budget.
pub fn eval(
    node: &Node,
    env: &mut Environment,
    out: &mut Vec<String>,
    scope: usize,
    fuel: u64,
) -> (r: Result<Object, EvalError>)
    requires
        old(env).wf(),
    ensures
        final(env).wf(),
        outcome_matches(
            r,
            final(env)@,
            final(out).deep_view(),
            eval_node_v(
                node@,
                StateV { env: old(env)@, output: old(out).deep_view() },
                scope,
                fuel as nat,
            ),
        ),
    decreases fuel,
{
    if fuel == 0 {
        return Err(EvalError::OutOfFuel);
    }
    match node {
        Node::Program(stmts) => eval_program(stmts, env, out, scope, fuel - 1),
        Node::Stmt(stmt) => eval_statement(stmt, env, out, scope, fuel - 1),
        Node::Expr(expr) => eval_expression(expr, env, out, scope, fuel - 1),
    }
}

/// Evaluate a whole program: its statements in order, stopping at an early
/// return.
pub fn eval_program(
    program: &Vec<Statement>,
    env: &mut Environment,
    out: &mut Vec<String>,
    scope: usize,
    fuel: u64,
) -> (r: Result<Object, EvalError>)
    requires
        old(env).wf(),
    ensures
        final(env).wf(),
        outcome_matches(
            r,
            final(env)@,
            final(out).deep_view(),
            eval_block_v(
                view_stmts(program@),
                0,
                StateV { env: old(env)@, output: old(out).deep_view() },
                scope,
                ValueV::Null,
                fuel as nat,
            ),
        ),
    decreases fuel,
{
    eval_block_from(program, 0, env, out, scope, Object::Null, fuel)
}

/// Evaluate the statements of a block in order: a return-wrapper stops the
/// block at once and propagates unchanged; otherwise the block's value is
/// the value of its last statement.
pub fn eval_block_statement(
    statements: &Vec<Statement>,
    env: &mut Environment,
    out: &mut Vec<String>,
    scope: usize,
    fuel: u64,
) -> (r: Result<Object, EvalError>)
    requires
        old(env).wf(),
    ensures
        final(env).wf(),
        outcome_matches(
            r,
            final(env)@,
            final(out).deep_view(),
            eval_block_v(
                view_stmts(statements@),
                0,
                StateV { env: old(env)@, output: old(out).deep_view() },
                scope,
                ValueV::Null,
                fuel as nat,
            ),
        ),
    decreases fuel,
{
    eval_block_from(statements, 0, env, out, scope, Object::Null, fuel)
}

fn eval_block_from(
    stmts: &Vec<Statement>,
    i: usize,
    env: &mut Environment,
    out: &mut Vec<String>,
    scope: usize,
    last: Object,
    fuel: u64,
) -> (r: Result<Object, EvalError>)
    requires
        old(env).wf(),
        i <= stmts@.len(),
    ensures
        final(env).wf(),
        outcome_matches(
            r,
            final(env)@,
            final(out).deep_view(),
            eval_block_v(
                view_stmts(stmts@),
                i as int,
                StateV { env: old(env)@, output: old(out).deep_view() },
                scope,
                last@,
                fuel as nat,
            ),
        ),
    decreases fuel,
{
    if fuel == 0 {
        return Err(EvalError::OutOfFuel);
    }
    proof {
        lemma_view_stmts(stmts@);
    }
    if i >= stmts.len() {
        Ok(last)
    } else {
        match eval_statement(&stmts[i], env, out, scope, fuel - 1) {
            Ok(v) => if matches!(v, Object::ReturnValue(_)) {
                Ok(v)
            } else {
                eval_block_from(stmts, i + 1, env, out, scope, v, fuel - 1)
            },
            Err(e) => Err(e),
        }
    }
}

/// Evaluate one statement.
pub fn eval_statement(
    statement: &Statement,
    env: &mut Environment,
    out: &mut Vec<String>,
    scope: usize,
    fuel: u64,
) -> (r: Result<Object, EvalError>)
    requires
        old(env).wf(),
    ensures
        final(env).wf(),
        outcome_matches(
            r,
            final(env)@,
            final(out).deep_view(),
            eval_stmt_v(
                statement@,
                StateV { env: old(env)@, output: old(out).deep_view() },
                scope,
                fuel as nat,
            ),
        ),
    decreases fuel,
{
    if fuel == 0 {
        return Err(EvalError::OutOfFuel);
    }
    match statement {
        Statement::Let(name, value) => match eval_expression(value, env, out, scope, fuel - 1) {
            Ok(v) => {
                env.set(scope, name.clone(), v.duplicate());
                Ok(v)
            },
            Err(e) => Err(e),
        },
        Statement::Return(value) => match eval_expression(value, env, out, scope, fuel - 1) {
            Ok(v) => Ok(Object::ReturnValue(Box::new(v))),
            Err(e) => Err(e),
        },
        Statement::Expr(value) => eval_expression(value, env, out, scope, fuel - 1),
    }
}

/// Evaluate a literal.
pub fn eval_literal(
    literal: &Literal,
    env: &mut Environment,
    out: &mut Vec<String>,
    scope: usize,
    fuel: u64,
) -> (r: Result<Object, EvalError>)
    requires
        old(env).wf(),
    ensures
        final(env).wf(),
        outcome_matches(
            r,
            final(env)@,
            final(out).deep_view(),
            crate::semantics::eval_lit_v(
                literal@,
                StateV { env: old(env)@, output: old(out).deep_view() },
                scope,
                fuel as nat,
            ),
        ),
    decreases fuel,
{
    if fuel == 0 {
        return Err(EvalError::OutOfFuel);
    }
    match literal {
        Literal::Integer(value) => Ok(Object::Integer(*value)),
        Literal::Boolean(value) => Ok(Object::Boolean(*value)),
        Literal::Str(value) => Ok(Object::Str(value.clone())),
        Literal::Array(elements) => {
            match eval_expressions_from(elements, 0, Vec::new(), env, out, scope, fuel - 1) {
                Ok(vals) => Ok(Object::Array(vals)),
                Err(e) => Err(e),
            }
        },
    }
}

/// Evaluate one expression.
pub fn eval_expression(
    expression: &Expression,
    env: &mut Environment,
    out: &mut Vec<String>,
    scope: usize,
    fuel: u64,
) -> (r: Result<Object, EvalError>)
    requires
        old(env).wf(),
    ensures
        final(env).wf(),
        outcome_matches(
            r,
            final(env)@,
            final(out).deep_view(),
            eval_expr_v(
                expression@,
                StateV { env: old(env)@, output: old(out).deep_view() },
                scope,
                fuel as nat,
            ),
        ),
    decreases fuel,
{
    if fuel == 0 {
        return Err(EvalError::OutOfFuel);
    }
    match expression {
        Expression::Ident(name) => eval_identifier(name, env, scope),
        Expression::Lit(l) => eval_literal(l, env, out, scope, fuel - 1),
        Expression::Prefix(op, operand) => {
            match eval_expression(operand, env, out, scope, fuel - 1) {
                Ok(v) => eval_prefix_expression(op, &v),
                Err(e) => Err(e),
            }
        },
        Expression::Infix(left, op, right) => {
            match eval_expression(left, env, out, scope, fuel - 1) {
                Ok(lv) => match eval_expression(right, env, out, scope, fuel - 1) {
                    Ok(rv) => eval_infix_expression(&lv, op, &rv),
                    Err(e) => Err(e),
                },
                Err(e) => Err(e),
            }
        },
        Expression::If(cond, cons, alt) => {
            match eval_expression(cond, env, out, scope, fuel - 1) {
                Ok(cv) => if is_truthy(&cv) {
                    eval_block_from(cons, 0, env, out, scope, Object::Null, fuel - 1)
                } else {
                    match alt {
                        Some(alt_block) => eval_block_from(
                            alt_block,
                            0,
                            env,
                            out,
                            scope,
                            Object::Null,
                            fuel - 1,
                        ),
                        None => Ok(Object::Null),
                    }
                },
                Err(e) => Err(e),
            }
        },
        Expression::While(cond, body) => eval_while_expression(
            cond,
            body,
            env,
            out,
            scope,
            fuel - 1,
        ),
        Expression::Function(params, body) => Ok(
            Object::Function(duplicate_strings(params), duplicate_statements(body), scope),
        ),
        Expression::FunctionCall(callee, args) => {
            match eval_expression(callee, env, out, scope, fuel - 1) {
                Ok(fv) => match eval_expressions_from(
                    args,
                    0,
                    Vec::new(),
                    env,
                    out,
                    scope,
                    fuel - 1,
                ) {
                    Ok(vals) => apply_function(&fv, &vals, env, out, fuel - 1),
                    Err(e) => Err(e),
                },
                Err(e) => Err(e),
            }
        },
        Expression::Assign(name, _op, value) => {
            match eval_expression(value, env, out, scope, fuel - 1) {
                Ok(v) => {
                    env.assign(scope, name.clone(), v.duplicate());
                    Ok(v)
                },
                Err(e) => Err(e),
            }
        },
        Expression::Index(collection, index) => {
            match eval_expression(collection, env, out, scope, fuel - 1) {
                Ok(cv) => match eval_expression(index, env, out, scope, fuel - 1) {
                    Ok(iv) => eval_index_expression(&cv, &iv),
                    Err(e) => Err(e),
                },
                Err(e) => Err(e),
            }
        },
    }
}

fn eval_while_expression(
    cond: &Expression,
    body: &Vec<Statement>,
    env: &mut Environment,
    out: &mut Vec<String>,
    scope: usize,
    fuel: u64,
) -> (r: Result<Object, EvalError>)
    requires
        old(env).wf(),
    ensures
        final(env).wf(),
        outcome_matches(
            r,
            final(env)@,
            final(out).deep_view(),
            eval_while_v(
                crate::ast::ExprV::While(Box::new(cond@), view_stmts(body@)),
                StateV { env: old(env)@, output: old(out).deep_view() },
                scope,
                fuel as nat,
            ),
        ),
    decreases fuel,
{
    if fuel == 0 {
        return Err(EvalError::OutOfFuel);
    }
    match eval_expression(cond, env, out, scope, fuel - 1) {
        Ok(cv) => if !is_truthy(&cv) {
            Ok(Object::Null)
        } else {
            match eval_block_from(body, 0, env, out, scope, Object::Null, fuel - 1) {
                Ok(bv) => if matches!(bv, Object::ReturnValue(_)) {
                    Ok(bv)
                } else {
                    eval_while_expression(cond, body, env, out, scope, fuel - 1)
                },
                Err(e) => Err(e),
            }
        },
        Err(e) => Err(e),
    }
}

/// Evaluate a list of argument expressions left to right in the caller's
/// environment.
pub fn eval_expressions(
    expressions: &Vec<Expression>,
    env: &mut Environment,
    out: &mut Vec<String>,
    scope: usize,
    fuel: u64,
) -> (r: Result<Vec<Object>, EvalError>)
    requires
        old(env).wf(),
    ensures
        final(env).wf(),
        list_outcome_matches(
            r,
            final(env)@,
            final(out).deep_view(),
            eval_exprs_v(
                view_exprs(expressions@),
                0,
                StateV { env: old(env)@, output: old(out).deep_view() },
                scope,
                Seq::empty(),
                fuel as nat,
            ),
        ),
    decreases fuel,
{
    let acc: Vec<Object> = Vec::new();
    proof {
        assert(view_values(acc@) =~= Seq::<ValueV>::empty());
    }
    eval_expressions_from(expressions, 0, acc, env, out, scope, fuel)
}

fn eval_expressions_from(
    exprs: &Vec<Expression>,
    i: usize,
    acc: Vec<Object>,
    env: &mut Environment,
    out: &mut Vec<String>,
    scope: usize,
    fuel: u64,
) -> (r: Result<Vec<Object>, EvalError>)
    requires
        old(env).wf(),
        i <= exprs@.len(),
    ensures
        final(env).wf(),
        list_outcome_matches(
            r,
            final(env)@,
            final(out).deep_view(),
            eval_exprs_v(
                view_exprs(exprs@),
                i as int,
                StateV { env: old(env)@, output: old(out).deep_view() },
                scope,
                view_values(acc@),
                fuel as nat,
            ),
        ),
    decreases fuel,
{
    if fuel == 0 {
        return Err(EvalError::OutOfFuel);
    }
    proof {
        lemma_view_exprs(exprs@);
    }
    if i >= exprs.len() {
        Ok(acc)
    } else {
        match eval_expression(&exprs[i], env, out, scope, fuel - 1) {
            Ok(v) => {
                let mut extended = acc;
                proof {
                    lemma_view_values_push(extended@, v);
                }
                extended.push(v);
                eval_expressions_from(exprs, i + 1, extended, env, out, scope, fuel - 1)
            },
            Err(e) => Err(e),
        }
    }
}

fn bind_parameters(
    params: &Vec<String>,
    args: &Vec<Object>,
    i: usize,
    env: &mut Environment,
    scope: usize,
)
    requires
        old(env).wf(),
        i <= params@.len(),
    ensures
        final(env).wf(),
        final(env)@ == bind_params(
            old(env)@,
            scope,
            params.deep_view(),
            view_values(args@),
            i as int,
        ),
    decreases params@.len() - i,
{
    proof {
        lemma_view_values(args@);
    }
    if i < params.len() && i < args.len() {
        env.set(scope, params[i].clone(), args[i].duplicate());
        bind_parameters(params, args, i + 1, env, scope);
    }
}

/// Apply a callable value to evaluated arguments.  A function body runs in a
/// fresh scope enclosed in the function's captured definition scope — this
/// is what makes closures lexically scoped — and a `return` inside the body
/// terminates the function, not the caller.
pub fn apply_function(
    function: &Object,
    args: &Vec<Object>,
    env: &mut Environment,
    out: &mut Vec<String>,
    fuel: u64,
) -> (r: Result<Object, EvalError>)
    requires
        old(env).wf(),
    ensures
        final(env).wf(),
        outcome_matches(
            r,
            final(env)@,
            final(out).deep_view(),
            apply_v(
                function@,
                view_values(args@),
                StateV { env: old(env)@, output: old(out).deep_view() },
                fuel as nat,
            ),
        ),
    decreases fuel,
{
    if fuel == 0 {
        return Err(EvalError::OutOfFuel);
    }
    proof {
        lemma_view_values(args@);
    }
    match function {
        Object::Function(params, body, captured) => {
            if params.len() != args.len() {
                return Err(EvalError::WrongArgumentCount(params.len(), args.len()));
            }
            if *captured >= env.scope_count() {
                return Err(EvalError::NotAFunction(function.duplicate()));
            }
            let call_scope = env.new_enclosed_environment(*captured);
            bind_parameters(params, args, 0, env, call_scope);
            match eval_block_from(body, 0, env, out, call_scope, Object::Null, fuel - 1) {
                Ok(bv) => Ok(unwrap_return_value(bv)),
                Err(e) => Err(e),
            }
        },
        Object::Builtin(b) => b.apply(args, out),
        _ => Err(EvalError::NotAFunction(function.duplicate())),
    }
}

} // verus!
