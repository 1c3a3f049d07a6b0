//! The environment: a chain of name→value scopes supporting lexical lookup,
//! shadowing and closure capture.
//!
//! All scopes of one session live in a single arena.  Each scope is an index;
//! it records its enclosing scope, and bindings are held newest-last in one
//! shared list tagged with the scope they belong to.  A closure captures the
//! index of its definition scope, so a later rebinding in that scope is seen
//! through the capture.

use vstd::prelude::*;
use crate::display::str_eq;
use crate::object::Object;
use crate::object::ValueV;

verus! {

/// Spec-level mirror of [`Environment`].
#[verifier::ext_equal]
pub struct EnvV {
    /// For each scope, the enclosing scope, if any.
    pub outers: Seq<Option<usize>>,
    /// Every binding made so far: scope, name, value, newest last.
    pub bindings: Seq<(usize, Seq<char>, ValueV)>,
}

/// The environment arena: every scope of one session, with the root scope at
/// index zero.
pub struct Environment {
    outers: Vec<Option<usize>>,
    bindings: Vec<(usize, String, Object)>,
}

/// The spec view of the binding list, entry by entry.
pub open spec fn view_bindings(v: Seq<(usize, String, Object)>) -> Seq<(usize, Seq<char>, ValueV)>
    decreases v,
{
    if v.len() == 0 {
        Seq::empty()
    } else {
        view_bindings(v.drop_last()).push(
            (v.last().0, v.last().1@, v.last().2.view()),
        )
    }
}

/// `view_bindings` maps entry by entry.
pub proof fn lemma_view_bindings(v: Seq<(usize, String, Object)>)
    ensures
        view_bindings(v).len() == v.len(),
        forall|i: int|
            0 <= i < v.len() ==> view_bindings(v)[i] == (
                #[trigger] v[i].0,
                v[i].1@,
                v[i].2.view(),
            ),
    decreases v,
{
    if v.len() > 0 {
        lemma_view_bindings(v.drop_last());
        assert forall|i: int|
            0 <= i < v.len() implies view_bindings(v)[i] == (
            #[trigger] v[i].0,
            v[i].1@,
            v[i].2.view(),
        ) by {
            if i < v.len() - 1 {
                assert(v.drop_last()[i] == v[i]);
            } else {
                assert(v[i] == v.last());
            }
        }
    }
}

/// Appending one binding extends the view by that binding's view.
pub proof fn lemma_view_bindings_push(v: Seq<(usize, String, Object)>, b: (usize, String, Object))
    ensures
        view_bindings(v.push(b)) == view_bindings(v).push((b.0, b.1@, b.2.view())),
{
    assert(v.push(b).drop_last() =~= v);
    assert(v.push(b).last() == b);
}

impl View for Environment {
    type V = EnvV;

    closed spec fn view(&self) -> EnvV {
        EnvV { outers: self.outers@, bindings: view_bindings(self.bindings@) }
    }
}

/// The newest binding for `name` in `scope` among the first `k` entries.
pub open spec fn lookup_from(
    bs: Seq<(usize, Seq<char>, ValueV)>,
    k: int,
    scope: usize,
    name: Seq<char>,
) -> Option<ValueV>
    decreases k,
{
    if k <= 0 || k > bs.len() {
        None
    } else if bs[k - 1].0 == scope && bs[k - 1].1 == name {
        Some(bs[k - 1].2)
    } else {
        lookup_from(bs, k - 1, scope, name)
    }
}

/// The newest binding for `name` made directly in `scope`.
pub open spec fn scope_lookup(e: EnvV, scope: usize, name: Seq<char>) -> Option<ValueV> {
    lookup_from(e.bindings, e.bindings.len() as int, scope, name)
}

/// Every scope's enclosing scope has a smaller index: the chains are
/// well-founded and rooted.
pub open spec fn env_wf(e: EnvV) -> bool {
    forall|s: int|
        0 <= s < e.outers.len() ==> match #[trigger] e.outers[s] {
            Some(j) => j < s,
            None => true,
        }
}

/// Lookup along the scope chain: the innermost scope that binds `name` wins.
pub open spec fn env_get(e: EnvV, scope: usize, name: Seq<char>) -> Option<ValueV>
    decreases scope,
{
    if scope >= e.outers.len() {
        None
    } else {
        match scope_lookup(e, scope, name) {
            Some(v) => Some(v),
            None => match e.outers[scope as int] {
                Some(j) => if j < scope {
                    env_get(e, j, name)
                } else {
                    None
                },
                None => None,
            },
        }
    }
}

/// The scope along the chain in which `name` resolves, if any.
pub open spec fn env_resolve(e: EnvV, scope: usize, name: Seq<char>) -> Option<usize>
    decreases scope,
{
    if scope >= e.outers.len() {
        None
    } else {
        match scope_lookup(e, scope, name) {
            Some(_) => Some(scope),
            None => match e.outers[scope as int] {
                Some(j) => if j < scope {
                    env_resolve(e, j, name)
                } else {
                    None
                },
                None => None,
            },
        }
    }
}

/// Binding `name` to `value` directly in `scope`, shadowing any older binding
/// of the same name.
pub open spec fn env_define(e: EnvV, scope: usize, name: Seq<char>, value: ValueV) -> EnvV {
    EnvV { outers: e.outers, bindings: e.bindings.push((scope, name, value)) }
}

/// Assignment: the write goes to the scope where `name` already resolves, or
/// to `scope` itself when it is unbound anywhere along the chain.
pub open spec fn env_assign(e: EnvV, scope: usize, name: Seq<char>, value: ValueV) -> EnvV {
    match env_resolve(e, scope, name) {
        Some(target) => env_define(e, target, name, value),
        None => env_define(e, scope, name, value),
    }
}

/// A fresh scope enclosed in `outer`.
pub open spec fn env_extend(e: EnvV, outer: usize) -> EnvV {
    EnvV { outers: e.outers.push(Some(outer)), bindings: e.bindings }
}

fn lookup_upto(
    bindings: &Vec<(usize, String, Object)>,
    k: usize,
    scope: usize,
    name: &str,
) -> (r: Option<Object>)
    requires
        k <= bindings@.len(),
    ensures
        match lookup_from(view_bindings(bindings@), k as int, scope, name@) {
            Some(v) => r matches Some(o) && o@ == v,
            None => r is None,
        },
    decreases k,
{
    proof {
        lemma_view_bindings(bindings@);
    }
    if k == 0 {
        None
    } else {
        let entry = &bindings[k - 1];
        if entry.0 == scope && str_eq(entry.1.as_str(), name) {
            Some(entry.2.duplicate())
        } else {
            lookup_upto(bindings, k - 1, scope, name)
        }
    }
}

impl Environment {
    /// Whether the arena is well formed.
    pub open spec fn wf(&self) -> bool {
        env_wf(self@)
    }

    /// A fresh session environment holding only the root scope.
    pub fn new() -> (r: Environment)
        ensures
            r.wf(),
            r@.outers == seq![Option::<usize>::None],
            r@.bindings == Seq::<(usize, Seq<char>, ValueV)>::empty(),
    {
        let mut outers: Vec<Option<usize>> = Vec::new();
        outers.push(None);
        let r = Environment { outers, bindings: Vec::new() };
        proof {
            assert(r@.outers =~= seq![Option::<usize>::None]);
        }
        r
    }

    /// The number of scopes in the arena.
    pub fn scope_count(&self) -> (n: usize)
        ensures
            n == self@.outers.len(),
    {
        self.outers.len()
    }

    /// A new empty scope whose enclosing scope is `outer`; its index is
    /// returned.
    pub fn new_enclosed_environment(&mut self, outer: usize) -> (id: usize)
        requires
            old(self).wf(),
            outer < old(self)@.outers.len(),
        ensures
            final(self).wf(),
            final(self)@ == env_extend(old(self)@, outer),
            id == old(self)@.outers.len(),
            final(self)@.outers.len() == id + 1,
    {
        let id = self.outers.len();
        self.outers.push(Some(outer));
        id
    }

    /// The value bound to `name`, looked up outward along the scope chain.
    pub fn get(&self, scope: usize, name: &str) -> (r: Option<Object>)
        requires
            self.wf(),
        ensures
            match env_get(self@, scope, name@) {
                Some(v) => r matches Some(o) && o@ == v,
                None => r is None,
            },
        decreases scope,
    {
        proof {
            lemma_view_bindings(self.bindings@);
        }
        if scope >= self.outers.len() {
            None
        } else {
            let found = lookup_upto(&self.bindings, self.bindings.len(), scope, name);
            match found {
                Some(o) => Some(o),
                None => match self.outers[scope] {
                    Some(j) => self.get(j, name),
                    None => None,
                },
            }
        }
    }

    /// The scope in which `name` resolves, looked up outward along the chain.
    pub fn resolve(&self, scope: usize, name: &str) -> (r: Option<usize>)
        requires
            self.wf(),
        ensures
            r == env_resolve(self@, scope, name@),
        decreases scope,
    {
        proof {
            lemma_view_bindings(self.bindings@);
        }
        if scope >= self.outers.len() {
            None
        } else {
            let found = lookup_upto(&self.bindings, self.bindings.len(), scope, name);
            match found {
                Some(_) => Some(scope),
                None => match self.outers[scope] {
                    Some(j) => self.resolve(j, name),
                    None => None,
                },
            }
        }
    }

    /// Bind `name` to `value` in `scope` itself, shadowing any outer binding.
    pub fn set(&mut self, scope: usize, name: String, value: Object)
        requires
            old(self).wf(),
        ensures
            final(self).wf(),
            final(self)@ == env_define(old(self)@, scope, name@, value@),
    {
        proof {
            lemma_view_bindings_push(self.bindings@, (scope, name, value));
        }
        self.bindings.push((scope, name, value));
    }

    /// Assign `value` to `name`: the write lands in the scope where `name`
    /// already resolves, falling back to `scope` when it is unbound.
    pub fn assign(&mut self, scope: usize, name: String, value: Object)
        requires
            old(self).wf(),
        ensures
            final(self).wf(),
            final(self)@ == env_assign(old(self)@, scope, name@, value@),
    {
        let target = match self.resolve(scope, name.as_str()) {
            Some(t) => t,
            None => scope,
        };
        proof {
            lemma_view_bindings_push(self.bindings@, (target, name, value));
        }
        self.bindings.push((target, name, value));
    }
}

} // verus!
