//! Laws of the language, stated and proved over the spec-level semantics.

use vstd::prelude::*;
use crate::ast::ExprV;
use crate::ast::StmtV;
use crate::builtins::Builtin;
use crate::environment::EnvV;
use crate::environment::env_assign;
use crate::environment::env_define;
use crate::environment::env_get;
use crate::environment::env_resolve;
use crate::environment::env_wf;
use crate::environment::lookup_from;
use crate::environment::scope_lookup;
use crate::object::ValueV;
use crate::semantics::Outcome;
use crate::semantics::StateV;
use crate::semantics::apply_builtin_v;
use crate::semantics::eval_block_v;
use crate::semantics::eval_expr_v;
use crate::semantics::eval_stmt_v;
use crate::semantics::eval_while_v;
use crate::semantics::index_result;
use crate::semantics::truthy;
use crate::token::TokenV;

verus! {

/// Both operands of `&&` and `||` are always evaluated, in order: the
/// outcome of the whole operation carries the state — bindings and printed
/// output — of both operand evaluations, and a failure of the right operand
/// fails the operation even when the left operand alone already decides the
/// value.
pub proof fn lemma_logical_operators_evaluate_both(
    l: ExprV,
    op: TokenV,
    r: ExprV,
    st: StateV,
    scope: usize,
    fuel: nat,
)
    requires
        op == TokenV::AND || op == TokenV::OR,
        fuel > 0,
    ensures
        ({
            let inner = (fuel - 1) as nat;
            let whole = eval_expr_v(ExprV::Infix(Box::new(l), op, Box::new(r)), st, scope, fuel);
            match eval_expr_v(l, st, scope, inner) {
                Outcome::Done(lv, st1) => match eval_expr_v(r, st1, scope, inner) {
                    Outcome::Done(rv, st2) => whole == Outcome::Done(
                        ValueV::Boolean(
                            if op == TokenV::AND {
                                truthy(lv) && truthy(rv)
                            } else {
                                truthy(lv) || truthy(rv)
                            },
                        ),
                        st2,
                    ),
                    Outcome::Fail(e, st2) => whole == Outcome::Fail(e, st2),
                },
                Outcome::Fail(e, st1) => whole == Outcome::Fail(e, st1),
            }
        }),
{
}

/// Statement sequencing stops at a return-wrapper: once a statement of a
/// block yields one, the block yields it unchanged, whatever statements
/// follow.
pub proof fn lemma_block_stops_at_return(
    stmts: Seq<StmtV>,
    i: int,
    st: StateV,
    scope: usize,
    last: ValueV,
    fuel: nat,
    v: ValueV,
    st1: StateV,
)
    requires
        fuel > 0,
        0 <= i < stmts.len(),
        eval_stmt_v(stmts[i], st, scope, (fuel - 1) as nat) == Outcome::Done(v, st1),
        v is ReturnValue,
    ensures
        eval_block_v(stmts, i, st, scope, last, fuel) == Outcome::Done(v, st1),
{
}

/// A return-wrapper produced by a loop's body stops the loop at once and
/// propagates unchanged — this is how a `return` inside an `if` inside a
/// `while` terminates the whole surrounding evaluation with its value.
pub proof fn lemma_while_propagates_return(
    cond: ExprV,
    body: Seq<StmtV>,
    st: StateV,
    scope: usize,
    fuel: nat,
    cv: ValueV,
    st1: StateV,
    bv: ValueV,
    st2: StateV,
)
    requires
        fuel > 0,
        eval_expr_v(cond, st, scope, (fuel - 1) as nat) == Outcome::Done(cv, st1),
        truthy(cv),
        eval_block_v(body, 0, st1, scope, ValueV::Null, (fuel - 1) as nat) == Outcome::Done(
            bv,
            st2,
        ),
        bv is ReturnValue,
    ensures
        eval_while_v(ExprV::While(Box::new(cond), body), st, scope, fuel) == Outcome::Done(
            bv,
            st2,
        ),
{
}

/// `push` builds a new array and leaves the world untouched: the state — and
/// with it every binding, including one still holding the original array —
/// comes back unchanged.
pub proof fn lemma_push_preserves_source(elements: Seq<ValueV>, v: ValueV, st: StateV)
    ensures
        apply_builtin_v(Builtin::Push, seq![ValueV::Array(elements), v], st) == Outcome::Done(
            ValueV::Array(elements.push(v)),
            st,
        ),
{
    let args = seq![ValueV::Array(elements), v];
    assert(args.len() == 2);
    assert(args[0] == ValueV::Array(elements));
    assert(args[1] == v);
}

/// Indexing an array out of range — including with a negative index —
/// yields `null` rather than an error.
pub proof fn lemma_index_out_of_range(elements: Seq<ValueV>, i: i32)
    requires
        i < 0 || i >= elements.len(),
    ensures
        index_result(ValueV::Array(elements), ValueV::Integer(i)) == Ok::<ValueV, crate::semantics::EvalErrV>(ValueV::Null),
{
}

/// Calling a function is lexically scoped: the body runs in a fresh scope
/// enclosed in the scope the function captured at its definition — never in
/// the caller's — with the parameters bound in order, and a return-wrapper
/// coming out of the body is unwrapped.
pub proof fn lemma_application_is_lexically_scoped(
    params: Seq<Seq<char>>,
    body: Seq<StmtV>,
    captured: usize,
    args: Seq<ValueV>,
    st: StateV,
    fuel: nat,
)
    requires
        fuel > 0,
        params.len() == args.len(),
        captured < st.env.outers.len(),
        st.env.outers.len() <= usize::MAX,
    ensures
        ({
            let call_scope = st.env.outers.len() as usize;
            let extended = crate::environment::env_extend(st.env, captured);
            let bound = crate::semantics::bind_params(extended, call_scope, params, args, 0);
            let fv = ValueV::Function(params, body, captured);
            extended.outers[call_scope as int] == Some(captured)
                && crate::semantics::apply_v(fv, args, st, fuel) == match eval_block_v(
                body,
                0,
                StateV { env: bound, output: st.output },
                call_scope,
                ValueV::Null,
                (fuel - 1) as nat,
            ) {
                Outcome::Done(bv, st1) => Outcome::Done(crate::semantics::unwrap_return(bv), st1),
                Outcome::Fail(e, st1) => Outcome::Fail(e, st1),
            }
        }),
{
    let call_scope = st.env.outers.len() as usize;
    let extended = crate::environment::env_extend(st.env, captured);
    assert(extended.outers == st.env.outers.push(Some(captured)));
    assert(extended.outers[call_scope as int] == Some(captured));
}

/// Adding a binding never changes lookups among the entries that were
/// already there.
proof fn lemma_lookup_from_push(
    bs: Seq<(usize, Seq<char>, ValueV)>,
    k: int,
    scope: usize,
    name: Seq<char>,
    b: (usize, Seq<char>, ValueV),
)
    requires
        k <= bs.len(),
    ensures
        lookup_from(bs.push(b), k, scope, name) == lookup_from(bs, k, scope, name),
    decreases k,
{
    if k > 0 {
        assert(bs.push(b)[k - 1] == bs[k - 1]);
        lemma_lookup_from_push(bs, k - 1, scope, name, b);
    }
}

/// After binding `name` to `value` in scope `target`, a lookup from any
/// scope whose chain resolves `name` to `target` sees the new value.
proof fn lemma_define_then_get(
    e: EnvV,
    target: usize,
    other: usize,
    name: Seq<char>,
    value: ValueV,
)
    requires
        env_wf(e),
        env_resolve(e, other, name) == Some(target),
    ensures
        env_get(env_define(e, target, name, value), other, name) == Some(value),
    decreases other,
{
    let e2 = env_define(e, target, name, value);
    let n = e.bindings.len() as int;
    assert(e2.bindings[n] == (target, name, value));
    if scope_lookup(e, other, name) is Some {
        assert(other == target);
        assert(lookup_from(e2.bindings, n + 1, other, name) == Some(value));
    } else {
        if other == target {
            assert(lookup_from(e2.bindings, n + 1, other, name) == Some(value));
        } else {
            assert(lookup_from(e2.bindings, n + 1, other, name) == lookup_from(
                e2.bindings,
                n,
                other,
                name,
            ));
            lemma_lookup_from_push(e.bindings, n, other, name, (target, name, value));
            assert(scope_lookup(e2, other, name) is None);
            match e.outers[other as int] {
                Some(j) => {
                    lemma_define_then_get(e, target, j, name, value);
                },
                None => {
                    assert(false);
                },
            }
        }
    }
}

/// Assignment writes through to the scope where the name already resolves:
/// afterwards, a lookup from any scope whose chain resolves the name to that
/// same binding — in particular from inside a closure that captured an
/// enclosing scope — sees the new value.
pub proof fn lemma_assignment_writes_through(
    e: EnvV,
    scope: usize,
    other: usize,
    name: Seq<char>,
    value: ValueV,
)
    requires
        env_wf(e),
        env_resolve(e, scope, name) is Some,
        env_resolve(e, other, name) == env_resolve(e, scope, name),
    ensures
        env_get(env_assign(e, scope, name, value), other, name) == Some(value),
{
    let target = env_resolve(e, scope, name)->Some_0;
    lemma_define_then_get(e, target, other, name, value);
}

} // verus!
