//! Runtime values: the objects produced by evaluation, their spec-level
//! mirror, and their printed forms.

use vstd::prelude::*;
use crate::ast::BlockStatement;
use crate::ast::StmtV;
use crate::ast::view_stmts;
use crate::ast::duplicate_statements;
use crate::ast::duplicate_strings;
use crate::ast::join_from;
use crate::ast::join_strings;
use crate::builtins::Builtin;
use crate::builtins::builtin_name;
use crate::display::int_text;
use crate::display::i32_text;

verus! {

/// Spec-level mirror of [`Object`].
pub enum ValueV {
    Integer(i32),
    Boolean(bool),
    Str(Seq<char>),
    Array(Seq<ValueV>),
    Null,
    ReturnValue(Box<ValueV>),
    Function(Seq<Seq<char>>, Seq<StmtV>, usize),
    Builtin(Builtin),
}

/// A runtime value.  A function value holds its parameter names, a copy of
/// its body block and the index of the scope it was defined in — that index
/// is the captured closure environment.  A return-wrapper marks a value as an
/// early-return result while it unwinds block evaluation; it is always
/// unwrapped before being handed to a caller.
#[derive(Debug)]
pub enum Object {
    Integer(i32),
    Boolean(bool),
    Str(String),
    Array(Vec<Object>),
    Null,
    ReturnValue(Box<Object>),
    Function(Vec<String>, BlockStatement, usize),
    Builtin(Builtin),
}

/// The spec view of a sequence of objects, element by element.
pub open spec fn view_values(v: Seq<Object>) -> Seq<ValueV>
    decreases v,
{
    if v.len() == 0 {
        Seq::empty()
    } else {
        view_values(v.drop_last()).push(v.last().view())
    }
}

impl View for Object {
    type V = ValueV;

    open spec fn view(&self) -> ValueV
        decreases self,
    {
        match self {
            Object::Integer(value) => ValueV::Integer(*value),
            Object::Boolean(value) => ValueV::Boolean(*value),
            Object::Str(value) => ValueV::Str(value@),
            Object::Array(elements) => ValueV::Array(view_values(elements@)),
            Object::Null => ValueV::Null,
            Object::ReturnValue(inner) => ValueV::ReturnValue(Box::new((**inner).view())),
            Object::Function(params, body, env) => ValueV::Function(
                params.deep_view(),
                view_stmts(body@),
                *env,
            ),
            Object::Builtin(b) => ValueV::Builtin(*b),
        }
    }
}

/// `view_values` maps element by element.
pub proof fn lemma_view_values(v: Seq<Object>)
    ensures
        view_values(v).len() == v.len(),
        forall|i: int| 0 <= i < v.len() ==> view_values(v)[i] == #[trigger] v[i].view(),
    decreases v,
{
    if v.len() > 0 {
        lemma_view_values(v.drop_last());
        assert(view_values(v) == view_values(v.drop_last()).push(v.last().view()));
        assert forall|i: int| 0 <= i < v.len() implies view_values(v)[i] == #[trigger] v[i].view() by {
            if i < v.len() - 1 {
                assert(v.drop_last()[i] == v[i]);
            } else {
                assert(v[i] == v.last());
            }
        }
    }
}

/// Appending one object extends the view by that object's view.
pub proof fn lemma_view_values_push(v: Seq<Object>, o: Object)
    ensures
        view_values(v.push(o)) == view_values(v).push(o.view()),
{
    assert(v.push(o).drop_last() =~= v);
    assert(v.push(o).last() == o);
}

/// The printed form of a value: integers in decimal, booleans as words,
/// strings unquoted, arrays bracketed, `null` as the word, a return-wrapper
/// as its wrapped value, a function with its parameter list and an elided
/// body.
pub open spec fn value_text(v: ValueV) -> Seq<char>
    decreases v, 0int,
{
    match v {
        ValueV::Integer(value) => int_text(value as int),
        ValueV::Boolean(value) => if value {
            "true"@
        } else {
            "false"@
        },
        ValueV::Str(value) => value,
        ValueV::Array(elements) => "["@ + values_text_from(elements, 0) + "]"@,
        ValueV::Null => "null"@,
        ValueV::ReturnValue(inner) => value_text(*inner),
        ValueV::Function(params, _body, _env) => "fn("@ + join_from(params, 0, ","@) + ") {...}"@,
        ValueV::Builtin(b) => "Builtin Function: "@ + builtin_name(b),
    }
}

/// The printed forms of the values from position `i` on, separated by a comma
/// and a space.
pub open spec fn values_text_from(vs: Seq<ValueV>, i: int) -> Seq<char>
    decreases vs, vs.len() - i,
{
    if i < 0 || i >= vs.len() {
        Seq::empty()
    } else if i == vs.len() - 1 {
        value_text(vs[i])
    } else {
        value_text(vs[i]) + ", "@ + values_text_from(vs, i + 1)
    }
}

impl Object {
    /// The printed form of the value.
    pub fn display_string(&self) -> (r: String)
        ensures
            r@ == value_text(self@),
        decreases self, 0int,
    {
        match self {
            Object::Integer(value) => i32_text(*value),
            Object::Boolean(value) => if *value {
                String::from_str("true")
            } else {
                String::from_str("false")
            },
            Object::Str(value) => value.clone(),
            Object::Array(elements) => {
                let mut s = String::from_str("[");
                let inner = display_objects_from(elements, 0);
                s.append(inner.as_str());
                s.append("]");
                proof {
                    assert(s@ =~= value_text(self@));
                }
                s
            },
            Object::Null => String::from_str("null"),
            Object::ReturnValue(inner) => inner.display_string(),
            Object::Function(params, _body, _env) => {
                let mut s = String::from_str("fn(");
                let params_str = join_strings(params, ",");
                s.append(params_str.as_str());
                s.append(") {...}");
                proof {
                    assert(s@ =~= value_text(self@));
                }
                s
            },
            Object::Builtin(b) => {
                let mut s = String::from_str("Builtin Function: ");
                let name = b.display_string();
                s.append(name.as_str());
                proof {
                    assert(s@ =~= value_text(self@));
                }
                s
            },
        }
    }

    /// A structurally identical copy of the value.
    pub fn duplicate(&self) -> (r: Object)
        ensures
            r@ == self@,
        decreases self, 1int,
    {
        match self {
            Object::Integer(value) => Object::Integer(*value),
            Object::Boolean(value) => Object::Boolean(*value),
            Object::Str(value) => Object::Str(value.clone()),
            Object::Array(elements) => Object::Array(duplicate_objects(elements)),
            Object::Null => Object::Null,
            Object::ReturnValue(inner) => Object::ReturnValue(Box::new(inner.duplicate())),
            Object::Function(params, body, env) => Object::Function(
                duplicate_strings(params),
                duplicate_statements(body),
                *env,
            ),
            Object::Builtin(b) => Object::Builtin(*b),
        }
    }
}

fn display_objects_from(objects: &Vec<Object>, i: usize) -> (r: String)
    requires
        i <= objects@.len(),
    ensures
        r@ == values_text_from(view_values(objects@), i as int),
    decreases objects, objects@.len() - i,
{
    proof {
        lemma_view_values(objects@);
    }
    if i >= objects.len() {
        String::new()
    } else if i == objects.len() - 1 {
        objects[i].display_string()
    } else {
        let mut s = objects[i].display_string();
        s.append(", ");
        let rest = display_objects_from(objects, i + 1);
        s.append(rest.as_str());
        s
    }
}

/// A copy of an object list, element by element.
pub fn duplicate_objects(objects: &Vec<Object>) -> (r: Vec<Object>)
    ensures
        view_values(r@) == view_values(objects@),
    decreases objects, 2int,
{
    let mut out: Vec<Object> = Vec::new();
    let mut i: usize = 0;
    proof {
        lemma_view_values(objects@);
    }
    while i < objects.len()
        invariant
            i <= objects@.len(),
            view_values(out@) == view_values(objects@.subrange(0, i as int)),
            view_values(objects@).len() == objects@.len(),
            forall|j: int|
                0 <= j < objects@.len() ==> view_values(objects@)[j] == #[trigger] objects@[j].view(),
        decreases objects@.len() - i,
    {
        let copy = objects[i].duplicate();
        proof {
            lemma_view_values_push(out@, copy);
            assert(objects@.subrange(0, i + 1).drop_last() =~= objects@.subrange(0, i as int));
            lemma_view_values(objects@.subrange(0, i + 1));
        }
        out.push(copy);
        i = i + 1;
        proof {
            lemma_view_values(out@);
            lemma_view_values(objects@.subrange(0, i as int));
            assert(view_values(out@) =~= view_values(objects@.subrange(0, i as int)));
        }
    }
    proof {
        assert(objects@.subrange(0, objects@.len() as int) =~= objects@);
    }
    out
}

} // verus!
