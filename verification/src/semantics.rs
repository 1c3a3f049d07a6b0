//! The meaning of evaluation: a fuel-indexed big-step interpreter over the
//! spec-level AST, value and environment models.  The executable evaluator is
//! proved to agree with these functions exactly; every law about the language
//! is a theorem about them.
//!
//! Fuel bounds the number of evaluation steps, since programs of this
//! language need not terminate.  Running out of fuel is reported as its own
//! failure; with enough fuel the outcome is the meaning of the program.

use vstd::prelude::*;
use crate::ast::ExprV;
use crate::ast::LitV;
use crate::ast::NodeV;
use crate::ast::StmtV;
use crate::builtins::Builtin;
use crate::builtins::builtin_of_name;
use crate::environment::EnvV;
use crate::environment::env_assign;
use crate::environment::env_define;
use crate::environment::env_extend;
use crate::environment::env_get;
use crate::object::ValueV;
use crate::object::value_text;
use crate::token::TokenV;

verus! {

/// The mutable world threaded through evaluation: the scope arena and the
/// lines printed so far.
#[verifier::ext_equal]
pub struct StateV {
    pub env: EnvV,
    pub output: Seq<Seq<char>>,
}

/// Spec-level mirror of the evaluator's error values.
pub enum EvalErrV {
    IdentifierNotFound(Seq<char>),
    UnknownPrefixOperator(TokenV, ValueV),
    UnknownInfixOperator(ValueV, TokenV, ValueV),
    TypeMismatch(ValueV, TokenV, ValueV),
    NotAFunction(ValueV),
    WrongArgumentCount(usize, usize),
    BuiltinArgumentCount(usize, usize),
    LenUnsupported(ValueV),
    PushUnsupported(ValueV),
    IndexUnsupported(ValueV),
    DivisionByZero,
    OutOfFuel,
}

/// The outcome of evaluating one node: a value, or a failure, together with
/// the state as committed up to that point.
pub enum Outcome {
    Done(ValueV, StateV),
    Fail(EvalErrV, StateV),
}

/// The outcome of evaluating a list of expressions left to right.
pub enum ListOutcome {
    Done(Seq<ValueV>, StateV),
    Fail(EvalErrV, StateV),
}

/// Truthiness coercion: `null`, `false`, the empty string and zero are false;
/// everything else is true.
pub open spec fn truthy(v: ValueV) -> bool {
    match v {
        ValueV::Null => false,
        ValueV::Boolean(b) => b,
        ValueV::Str(s) => s.len() != 0,
        ValueV::Integer(i) => i != 0,
        _ => true,
    }
}

/// Signed division truncating toward zero, as machine division does.
pub open spec fn trunc_div(a: int, b: int) -> int {
    if a == 0 {
        0
    } else if a > 0 && b > 0 {
        a / b
    } else if a < 0 && b < 0 {
        (-a) / (-b)
    } else if a < 0 {
        -((-a) / b)
    } else {
        -(a / (-b))
    }
}

/// The result of an integer infix operation.  Arithmetic wraps around on
/// overflow; division truncates toward zero and fails on a zero divisor.
pub open spec fn int_infix_result(left: i32, op: TokenV, right: i32) -> Result<ValueV, EvalErrV> {
    match op {
        TokenV::PLUS => Ok(ValueV::Integer(left.wrapping_add(right))),
        TokenV::MINUS => Ok(ValueV::Integer(left.wrapping_sub(right))),
        TokenV::ASTERISK => Ok(ValueV::Integer(left.wrapping_mul(right))),
        TokenV::SLASH => if right == 0 {
            Err(EvalErrV::DivisionByZero)
        } else if left == i32::MIN && right == -1 {
            Ok(ValueV::Integer(i32::MIN))
        } else {
            Ok(ValueV::Integer(trunc_div(left as int, right as int) as i32))
        },
        TokenV::EQ => Ok(ValueV::Boolean(left == right)),
        TokenV::NOT_EQ => Ok(ValueV::Boolean(left != right)),
        TokenV::LT => Ok(ValueV::Boolean(left < right)),
        TokenV::GT => Ok(ValueV::Boolean(left > right)),
        _ => Err(EvalErrV::UnknownInfixOperator(ValueV::Integer(left), op, ValueV::Integer(right))),
    }
}

/// The result of a boolean infix operation: only equality and inequality.
pub open spec fn bool_infix_result(left: bool, op: TokenV, right: bool) -> Result<ValueV, EvalErrV> {
    match op {
        TokenV::EQ => Ok(ValueV::Boolean(left == right)),
        TokenV::NOT_EQ => Ok(ValueV::Boolean(left != right)),
        _ => Err(
            EvalErrV::UnknownInfixOperator(ValueV::Boolean(left), op, ValueV::Boolean(right)),
        ),
    }
}

/// The result of a string infix operation: concatenation and (in)equality.
pub open spec fn str_infix_result(left: Seq<char>, op: TokenV, right: Seq<char>) -> Result<
    ValueV,
    EvalErrV,
> {
    match op {
        TokenV::PLUS => Ok(ValueV::Str(left + right)),
        TokenV::EQ => Ok(ValueV::Boolean(left == right)),
        TokenV::NOT_EQ => Ok(ValueV::Boolean(left != right)),
        _ => Err(EvalErrV::UnknownInfixOperator(ValueV::Str(left), op, ValueV::Str(right))),
    }
}

/// The result of an infix operation on two evaluated operands.  `&&` and `||`
/// coerce both operands to truthiness — both have already been evaluated, so
/// there is no short circuit.  Mixed operand types are a type mismatch.
pub open spec fn infix_result(left: ValueV, op: TokenV, right: ValueV) -> Result<
    ValueV,
    EvalErrV,
> {
    if op == TokenV::AND {
        Ok(ValueV::Boolean(truthy(left) && truthy(right)))
    } else if op == TokenV::OR {
        Ok(ValueV::Boolean(truthy(left) || truthy(right)))
    } else {
        match (left, right) {
            (ValueV::Integer(a), ValueV::Integer(b)) => int_infix_result(a, op, b),
            (ValueV::Boolean(a), ValueV::Boolean(b)) => bool_infix_result(a, op, b),
            (ValueV::Str(a), ValueV::Str(b)) => str_infix_result(a, op, b),
            _ => Err(EvalErrV::TypeMismatch(left, op, right)),
        }
    }
}

/// The result of a prefix operation on an evaluated operand.  Bang never
/// fails; minus requires an integer and wraps on the minimum value.
pub open spec fn prefix_result(op: TokenV, operand: ValueV) -> Result<ValueV, EvalErrV> {
    match op {
        TokenV::BANG => match operand {
            ValueV::Boolean(b) => Ok(ValueV::Boolean(!b)),
            ValueV::Null => Ok(ValueV::Boolean(true)),
            _ => Ok(ValueV::Boolean(false)),
        },
        TokenV::MINUS => match operand {
            ValueV::Integer(i) => Ok(
                ValueV::Integer(if i == i32::MIN {
                    i32::MIN
                } else {
                    (-(i as int)) as i32
                }),
            ),
            _ => Err(EvalErrV::UnknownPrefixOperator(op, operand)),
        },
        _ => Err(EvalErrV::UnknownPrefixOperator(op, operand)),
    }
}

/// Indexing is lenient: any out-of-range index on an array yields `null`;
/// anything but an array, or a non-integer index, is an error.
pub open spec fn index_result(collection: ValueV, index: ValueV) -> Result<ValueV, EvalErrV> {
    match collection {
        ValueV::Array(elements) => match index {
            ValueV::Integer(i) => if 0 <= i < elements.len() {
                Ok(elements[i as int])
            } else {
                Ok(ValueV::Null)
            },
            _ => Err(EvalErrV::IndexUnsupported(index)),
        },
        _ => Err(EvalErrV::IndexUnsupported(collection)),
    }
}

/// A return-wrapper is unwrapped once when a call returns; any other value
/// passes through.
pub open spec fn unwrap_return(v: ValueV) -> ValueV {
    match v {
        ValueV::ReturnValue(inner) => *inner,
        _ => v,
    }
}

/// The environment after binding each parameter from position `i` on, in
/// order, to its argument in `scope`.
pub open spec fn bind_params(
    e: EnvV,
    scope: usize,
    params: Seq<Seq<char>>,
    args: Seq<ValueV>,
    i: int,
) -> EnvV
    decreases params.len() - i,
{
    if i < 0 || i >= params.len() || i >= args.len() {
        e
    } else {
        bind_params(env_define(e, scope, params[i], args[i]), scope, params, args, i + 1)
    }
}

/// The printed forms of the values from position `i` on, one line each.
pub open spec fn print_lines(vals: Seq<ValueV>, i: int) -> Seq<Seq<char>>
    decreases vals.len() - i,
{
    if i < 0 || i >= vals.len() {
        Seq::empty()
    } else {
        seq![value_text(vals[i])] + print_lines(vals, i + 1)
    }
}

/// The outcome of applying a built-in to evaluated arguments.  Each built-in
/// checks its own argument count and types; `print` appends one line per
/// argument to the output and yields `null`; `push` yields a new array and
/// leaves its argument untouched.
pub open spec fn apply_builtin_v(b: Builtin, args: Seq<ValueV>, st: StateV) -> Outcome {
    match b {
        Builtin::Len => if args.len() != 1 {
            Outcome::Fail(EvalErrV::BuiltinArgumentCount(1, args.len() as usize), st)
        } else {
            match args[0] {
                ValueV::Str(s) => Outcome::Done(
                    ValueV::Integer(
                        if s.len() > i32::MAX {
                            i32::MAX
                        } else {
                            s.len() as i32
                        },
                    ),
                    st,
                ),
                ValueV::Array(elements) => Outcome::Done(
                    ValueV::Integer(
                        if elements.len() > i32::MAX {
                            i32::MAX
                        } else {
                            elements.len() as i32
                        },
                    ),
                    st,
                ),
                v => Outcome::Fail(EvalErrV::LenUnsupported(v), st),
            }
        },
        Builtin::Print => Outcome::Done(
            ValueV::Null,
            StateV { env: st.env, output: st.output + print_lines(args, 0) },
        ),
        Builtin::Push => if args.len() != 2 {
            Outcome::Fail(EvalErrV::BuiltinArgumentCount(2, args.len() as usize), st)
        } else {
            match args[0] {
                ValueV::Array(elements) => Outcome::Done(ValueV::Array(elements.push(args[1])), st),
                v => Outcome::Fail(EvalErrV::PushUnsupported(v), st),
            }
        },
    }
}

/// The outcome of a whole program, one statement or one expression.
pub open spec fn eval_node_v(n: NodeV, st: StateV, scope: usize, fuel: nat) -> Outcome
    decreases fuel,
{
    if fuel == 0 {
        Outcome::Fail(EvalErrV::OutOfFuel, st)
    } else {
        match n {
            NodeV::Program(stmts) => eval_block_v(stmts, 0, st, scope, ValueV::Null, (fuel - 1) as nat),
            NodeV::Stmt(s) => eval_stmt_v(s, st, scope, (fuel - 1) as nat),
            NodeV::Expr(e) => eval_expr_v(e, st, scope, (fuel - 1) as nat),
        }
    }
}

/// Statement sequencing: statements run in order; a return-wrapper stops the
/// block at once and propagates unchanged; otherwise the block's value is the
/// value of its last statement, `last` standing in for an empty rest.
pub open spec fn eval_block_v(
    stmts: Seq<StmtV>,
    i: int,
    st: StateV,
    scope: usize,
    last: ValueV,
    fuel: nat,
) -> Outcome
    decreases fuel,
{
    if fuel == 0 {
        Outcome::Fail(EvalErrV::OutOfFuel, st)
    } else if i < 0 || i >= stmts.len() {
        Outcome::Done(last, st)
    } else {
        match eval_stmt_v(stmts[i], st, scope, (fuel - 1) as nat) {
            Outcome::Done(v, st1) => if v is ReturnValue {
                Outcome::Done(v, st1)
            } else {
                eval_block_v(stmts, i + 1, st1, scope, v, (fuel - 1) as nat)
            },
            Outcome::Fail(e, st1) => Outcome::Fail(e, st1),
        }
    }
}

/// The outcome of one statement: `let` binds in the current scope and yields
/// the bound value; `return` wraps its value; a bare expression yields its
/// value.
pub open spec fn eval_stmt_v(s: StmtV, st: StateV, scope: usize, fuel: nat) -> Outcome
    decreases fuel,
{
    if fuel == 0 {
        Outcome::Fail(EvalErrV::OutOfFuel, st)
    } else {
        match s {
            StmtV::Let(name, value) => match eval_expr_v(value, st, scope, (fuel - 1) as nat) {
                Outcome::Done(v, st1) => Outcome::Done(
                    v,
                    StateV { env: env_define(st1.env, scope, name, v), output: st1.output },
                ),
                Outcome::Fail(e, st1) => Outcome::Fail(e, st1),
            },
            StmtV::Return(value) => match eval_expr_v(value, st, scope, (fuel - 1) as nat) {
                Outcome::Done(v, st1) => Outcome::Done(ValueV::ReturnValue(Box::new(v)), st1),
                Outcome::Fail(e, st1) => Outcome::Fail(e, st1),
            },
            StmtV::Expr(value) => eval_expr_v(value, st, scope, (fuel - 1) as nat),
        }
    }
}

/// The outcome of a literal: scalars evaluate to themselves; an array
/// literal evaluates its elements left to right.
pub open spec fn eval_lit_v(l: LitV, st: StateV, scope: usize, fuel: nat) -> Outcome
    decreases fuel,
{
    if fuel == 0 {
        Outcome::Fail(EvalErrV::OutOfFuel, st)
    } else {
        match l {
            LitV::Integer(value) => Outcome::Done(ValueV::Integer(value), st),
            LitV::Boolean(value) => Outcome::Done(ValueV::Boolean(value), st),
            LitV::Str(value) => Outcome::Done(ValueV::Str(value), st),
            LitV::Array(elements) => match eval_exprs_v(
                elements,
                0,
                st,
                scope,
                Seq::empty(),
                (fuel - 1) as nat,
            ) {
                ListOutcome::Done(vals, st1) => Outcome::Done(ValueV::Array(vals), st1),
                ListOutcome::Fail(e2, st1) => Outcome::Fail(e2, st1),
            },
        }
    }
}

/// The outcome of one expression.
pub open spec fn eval_expr_v(e: ExprV, st: StateV, scope: usize, fuel: nat) -> Outcome
    decreases fuel,
{
    if fuel == 0 {
        Outcome::Fail(EvalErrV::OutOfFuel, st)
    } else {
        match e {
            ExprV::Ident(name) => match env_get(st.env, scope, name) {
                Some(v) => Outcome::Done(v, st),
                None => match builtin_of_name(name) {
                    Some(b) => Outcome::Done(ValueV::Builtin(b), st),
                    None => Outcome::Fail(EvalErrV::IdentifierNotFound(name), st),
                },
            },
            ExprV::Lit(l) => eval_lit_v(l, st, scope, (fuel - 1) as nat),
            ExprV::Prefix(op, operand) => match eval_expr_v(*operand, st, scope, (fuel - 1) as nat) {
                Outcome::Done(v, st1) => match prefix_result(op, v) {
                    Ok(r) => Outcome::Done(r, st1),
                    Err(e2) => Outcome::Fail(e2, st1),
                },
                Outcome::Fail(e2, st1) => Outcome::Fail(e2, st1),
            },
            ExprV::Infix(left, op, right) => match eval_expr_v(*left, st, scope, (fuel - 1) as nat) {
                Outcome::Done(lv, st1) => match eval_expr_v(*right, st1, scope, (fuel - 1) as nat) {
                    Outcome::Done(rv, st2) => match infix_result(lv, op, rv) {
                        Ok(r) => Outcome::Done(r, st2),
                        Err(e2) => Outcome::Fail(e2, st2),
                    },
                    Outcome::Fail(e2, st2) => Outcome::Fail(e2, st2),
                },
                Outcome::Fail(e2, st1) => Outcome::Fail(e2, st1),
            },
            ExprV::If(cond, cons, alt) => match eval_expr_v(*cond, st, scope, (fuel - 1) as nat) {
                Outcome::Done(cv, st1) => if truthy(cv) {
                    eval_block_v(cons, 0, st1, scope, ValueV::Null, (fuel - 1) as nat)
                } else {
                    match alt {
                        Some(alt_block) => eval_block_v(
                            alt_block,
                            0,
                            st1,
                            scope,
                            ValueV::Null,
                            (fuel - 1) as nat,
                        ),
                        None => Outcome::Done(ValueV::Null, st1),
                    }
                },
                Outcome::Fail(e2, st1) => Outcome::Fail(e2, st1),
            },
            ExprV::While(_cond, _body) => eval_while_v(e, st, scope, (fuel - 1) as nat),
            ExprV::Function(params, body) => Outcome::Done(
                ValueV::Function(params, body, scope),
                st,
            ),
            ExprV::FunctionCall(callee, args) => match eval_expr_v(
                *callee,
                st,
                scope,
                (fuel - 1) as nat,
            ) {
                Outcome::Done(fv, st1) => match eval_exprs_v(
                    args,
                    0,
                    st1,
                    scope,
                    Seq::empty(),
                    (fuel - 1) as nat,
                ) {
                    ListOutcome::Done(vals, st2) => apply_v(fv, vals, st2, (fuel - 1) as nat),
                    ListOutcome::Fail(e2, st2) => Outcome::Fail(e2, st2),
                },
                Outcome::Fail(e2, st1) => Outcome::Fail(e2, st1),
            },
            ExprV::Assign(name, _op, value) => match eval_expr_v(
                *value,
                st,
                scope,
                (fuel - 1) as nat,
            ) {
                Outcome::Done(v, st1) => Outcome::Done(
                    v,
                    StateV { env: env_assign(st1.env, scope, name, v), output: st1.output },
                ),
                Outcome::Fail(e2, st1) => Outcome::Fail(e2, st1),
            },
            ExprV::Index(collection, index) => match eval_expr_v(
                *collection,
                st,
                scope,
                (fuel - 1) as nat,
            ) {
                Outcome::Done(cv, st1) => match eval_expr_v(*index, st1, scope, (fuel - 1) as nat) {
                    Outcome::Done(iv, st2) => match index_result(cv, iv) {
                        Ok(r) => Outcome::Done(r, st2),
                        Err(e2) => Outcome::Fail(e2, st2),
                    },
                    Outcome::Fail(e2, st2) => Outcome::Fail(e2, st2),
                },
                Outcome::Fail(e2, st1) => Outcome::Fail(e2, st1),
            },
        }
    }
}

/// Loop evaluation: while the condition is truthy the body runs; a
/// return-wrapper produced by the body stops the loop at once and propagates;
/// a loop that ends normally yields `null`.  `e` is the whole loop
/// expression.
pub open spec fn eval_while_v(e: ExprV, st: StateV, scope: usize, fuel: nat) -> Outcome
    decreases fuel,
{
    if fuel == 0 {
        Outcome::Fail(EvalErrV::OutOfFuel, st)
    } else {
        match e {
            ExprV::While(cond, body) => match eval_expr_v(*cond, st, scope, (fuel - 1) as nat) {
                Outcome::Done(cv, st1) => if !truthy(cv) {
                    Outcome::Done(ValueV::Null, st1)
                } else {
                    match eval_block_v(body, 0, st1, scope, ValueV::Null, (fuel - 1) as nat) {
                        Outcome::Done(bv, st2) => if bv is ReturnValue {
                            Outcome::Done(bv, st2)
                        } else {
                            eval_while_v(e, st2, scope, (fuel - 1) as nat)
                        },
                        Outcome::Fail(e2, st2) => Outcome::Fail(e2, st2),
                    }
                },
                Outcome::Fail(e2, st1) => Outcome::Fail(e2, st1),
            },
            _ => Outcome::Done(ValueV::Null, st),
        }
    }
}

/// Left-to-right evaluation of an expression list, stopping at the first
/// failure.
pub open spec fn eval_exprs_v(
    es: Seq<ExprV>,
    i: int,
    st: StateV,
    scope: usize,
    acc: Seq<ValueV>,
    fuel: nat,
) -> ListOutcome
    decreases fuel,
{
    if fuel == 0 {
        ListOutcome::Fail(EvalErrV::OutOfFuel, st)
    } else if i < 0 || i >= es.len() {
        ListOutcome::Done(acc, st)
    } else {
        match eval_expr_v(es[i], st, scope, (fuel - 1) as nat) {
            Outcome::Done(v, st1) => eval_exprs_v(
                es,
                i + 1,
                st1,
                scope,
                acc.push(v),
                (fuel - 1) as nat,
            ),
            Outcome::Fail(e2, st1) => ListOutcome::Fail(e2, st1),
        }
    }
}

/// Application.  A function value gets a fresh scope enclosed in its captured
/// definition scope — lexical, not dynamic, scoping — with each parameter
/// bound to its argument; an arity mismatch is an error; a return-wrapper
/// produced by the body is unwrapped.  A built-in is applied directly.
/// Anything else is not callable.
pub open spec fn apply_v(fv: ValueV, args: Seq<ValueV>, st: StateV, fuel: nat) -> Outcome
    decreases fuel,
{
    if fuel == 0 {
        Outcome::Fail(EvalErrV::OutOfFuel, st)
    } else {
        match fv {
            ValueV::Function(params, body, captured) => if params.len() != args.len() {
                Outcome::Fail(
                    EvalErrV::WrongArgumentCount(params.len() as usize, args.len() as usize),
                    st,
                )
            } else if captured >= st.env.outers.len() {
                Outcome::Fail(EvalErrV::NotAFunction(fv), st)
            } else {
                let call_scope = st.env.outers.len() as usize;
                let extended = env_extend(st.env, captured);
                let bound = bind_params(extended, call_scope, params, args, 0);
                match eval_block_v(
                    body,
                    0,
                    StateV { env: bound, output: st.output },
                    call_scope,
                    ValueV::Null,
                    (fuel - 1) as nat,
                ) {
                    Outcome::Done(bv, st1) => Outcome::Done(unwrap_return(bv), st1),
                    Outcome::Fail(e2, st1) => Outcome::Fail(e2, st1),
                }
            },
            ValueV::Builtin(b) => apply_builtin_v(b, args, st),
            _ => Outcome::Fail(EvalErrV::NotAFunction(fv), st),
        }
    }
}

} // verus!
