//! The fixed registry of native functions callable from the language.

use vstd::prelude::*;
use crate::display::str_eq;
use crate::evaluator::EvalError;
use crate::evaluator::outcome_matches;
use crate::environment::EnvV;
use crate::object::Object;
use crate::object::lemma_view_values;
use crate::object::lemma_view_values_push;
use crate::object::view_values;
use crate::object::duplicate_objects;
use crate::semantics::EvalErrV;
use crate::semantics::StateV;
use crate::semantics::apply_builtin_v;
use crate::semantics::print_lines;

verus! {

/// A built-in native function.  The registry is fixed: the length of a string
/// or array, appending to an array, and diagnostic printing.
#[derive(Debug, Clone, Copy, PartialEq, Eq, Structural)]
pub enum Builtin {
    Len,
    Print,
    Push,
}

/// The name under which a built-in is reachable from the language.
pub open spec fn builtin_name(b: Builtin) -> Seq<char> {
    match b {
        Builtin::Len => "len"@,
        Builtin::Print => "print"@,
        Builtin::Push => "push"@,
    }
}

/// The built-in registered under the given name, if any.
pub open spec fn builtin_of_name(name: Seq<char>) -> Option<Builtin> {
    if name == "len"@ {
        Some(Builtin::Len)
    } else if name == "print"@ {
        Some(Builtin::Print)
    } else if name == "push"@ {
        Some(Builtin::Push)
    } else {
        None
    }
}

impl Builtin {
    /// The built-in object registered under `name`, consulted only after
    /// identifier lookup in the environment chain has failed.
    pub fn lookup(name: &str) -> (r: Option<Object>)
        ensures
            match builtin_of_name(name@) {
                Some(b) => r matches Some(o) && o@ == crate::object::ValueV::Builtin(b),
                None => r is None,
            },
    {
        if str_eq(name, "len") {
            Some(Object::Builtin(Builtin::Len))
        } else if str_eq(name, "print") {
            Some(Object::Builtin(Builtin::Print))
        } else if str_eq(name, "push") {
            Some(Object::Builtin(Builtin::Push))
        } else {
            None
        }
    }

    /// Apply the built-in to its evaluated arguments.  Built-ins never touch
    /// the scope arena: whatever the surrounding environment, the outcome is
    /// the one the semantics gives, and only the printed output can grow.
    pub fn apply(&self, args: &Vec<Object>, out: &mut Vec<String>) -> (r: Result<Object, EvalError>)
        ensures
            forall|e0: EnvV|
                outcome_matches(
                    r,
                    e0,
                    final(out).deep_view(),
                    #[trigger] apply_builtin_v(
                        *self,
                        view_values(args@),
                        StateV { env: e0, output: old(out).deep_view() },
                    ),
                ),
    {
        proof {
            lemma_view_values(args@);
        }
        match self {
            Builtin::Len => {
                if let Err(e) = check_argument_count(1, args.len()) {
                    return Err(e);
                }
                proof {
                    assert(view_values(args@)[0] == args@[0].view());
                }
                match &args[0] {
                    Object::Str(s) => {
                        let n = s.as_str().unicode_len();
                        if n > i32::MAX as usize {
                            Ok(Object::Integer(i32::MAX))
                        } else {
                            Ok(Object::Integer(n as i32))
                        }
                    },
                    Object::Array(elements) => {
                        proof {
                            lemma_view_values(elements@);
                        }
                        let n = elements.len();
                        if n > i32::MAX as usize {
                            Ok(Object::Integer(i32::MAX))
                        } else {
                            Ok(Object::Integer(n as i32))
                        }
                    },
                    other => Err(EvalError::LenUnsupported(other.duplicate())),
                }
            },
            Builtin::Print => {
                print_values(args, 0, out);
                Ok(Object::Null)
            },
            Builtin::Push => {
                if let Err(e) = check_argument_count(2, args.len()) {
                    return Err(e);
                }
                proof {
                    assert(view_values(args@)[0] == args@[0].view());
                    assert(view_values(args@)[1] == args@[1].view());
                }
                match &args[0] {
                    Object::Array(elements) => {
                        let mut extended = duplicate_objects(elements);
                        let addition = args[1].duplicate();
                        proof {
                            lemma_view_values_push(extended@, addition);
                        }
                        extended.push(addition);
                        proof {
                            assert(view_values(extended@) =~= view_values(elements@).push(
                                view_values(args@)[1],
                            ));
                        }
                        Ok(Object::Array(extended))
                    },
                    other => Err(EvalError::PushUnsupported(other.duplicate())),
                }
            },
        }
    }

    /// The built-in's name.
    pub fn display_string(&self) -> (r: String)
        ensures
            r@ == builtin_name(*self),
    {
        match self {
            Builtin::Len => String::from_str("len"),
            Builtin::Print => String::from_str("print"),
            Builtin::Push => String::from_str("push"),
        }
    }
}

/// An error when a built-in gets the wrong number of arguments.
pub fn check_argument_count(expected: usize, actual: usize) -> (r: Result<(), EvalError>)
    ensures
        r is Ok <==> expected == actual,
        r matches Err(e) ==> e@ == EvalErrV::BuiltinArgumentCount(expected, actual),
{
    if expected != actual {
        Err(EvalError::BuiltinArgumentCount(expected, actual))
    } else {
        Ok(())
    }
}

fn print_values(args: &Vec<Object>, i: usize, out: &mut Vec<String>)
    requires
        i <= args@.len(),
    ensures
        final(out).deep_view() == old(out).deep_view() + print_lines(view_values(args@), i as int),
    decreases args@.len() - i,
{
    proof {
        lemma_view_values(args@);
    }
    if i < args.len() {
        let line = args[i].display_string();
        out.push(line);
        let ghost mid = out.deep_view();
        proof {
            assert(mid =~= old(out).deep_view().push(line@));
        }
        print_values(args, i + 1, out);
        proof {
            assert(out.deep_view() =~= old(out).deep_view() + print_lines(
                view_values(args@),
                i as int,
            ));
        }
    } else {
        proof {
            assert(out.deep_view() =~= old(out).deep_view() + print_lines(
                view_values(args@),
                i as int,
            ));
        }
    }
}

} // verus!
