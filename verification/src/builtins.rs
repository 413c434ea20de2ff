//! The built-in function registry: a fixed mapping from name to arity, and
//! the built-ins themselves — `length`, `first`, `last`, `rest` and `push`.
//! `push` never mutates its input; it hands back a fresh array.

use vstd::prelude::*;
use vstd::string::*;
use vstd::utf8::encode_utf8;

use crate::numtext::{spec_udec, u64_to_string};
use crate::object::{
    lemma_view_objs_len, lemma_view_objs_push, spec_type_name, view_objs, Array, Integer, Nil,
    ObjV, Object, ObjectT, CoreFunc, Error,
};

verus! {

/// The fixed registry: the arity of each built-in name, nothing for any
/// other name.
pub open spec fn spec_builtin_arity(name: Seq<char>) -> Option<u8> {
    if name == "length"@ || name == "first"@ || name == "last"@ || name == "rest"@ {
        Some(1u8)
    } else if name == "push"@ {
        Some(2u8)
    } else {
        None
    }
}

/// Looks a name up in the fixed registry.
pub fn builtin_arity(name: &String) -> (r: Option<u8>)
    ensures
        r == spec_builtin_arity(name@),
{
    if name.eq(&String::from_str("length")) || name.eq(&String::from_str("first")) || name.eq(
        &String::from_str("last"),
    ) || name.eq(&String::from_str("rest")) {
        Some(1)
    } else if name.eq(&String::from_str("push")) {
        Some(2)
    } else {
        None
    }
}

/// What `length` answers: the UTF-8 byte length of a string, the element
/// count of an array, an error for anything else.
pub open spec fn spec_length(arg: ObjV) -> ObjV {
    match arg {
        ObjV::Str(s) => ObjV::Int((encode_utf8(s).len() as usize) as i32),
        ObjV::Arr(es) => ObjV::Int(es.len() as i32),
        _ => ObjV::ErrV("argument to `length` not supported, got "@ + spec_type_name(arg)),
    }
}

/// What `first` answers: an array's first element, nil when it is empty,
/// an error for a non-array.
pub open spec fn spec_first(arg: ObjV) -> ObjV {
    match arg {
        ObjV::Arr(es) => if es.len() > 0 {
            es[0]
        } else {
            ObjV::Nil
        },
        _ => ObjV::ErrV("argument to `first` must be array, got "@ + spec_type_name(arg)),
    }
}

/// What `last` answers: an array's last element, nil when it is empty, an
/// error for a non-array.
pub open spec fn spec_last(arg: ObjV) -> ObjV {
    match arg {
        ObjV::Arr(es) => if es.len() > 0 {
            es.last()
        } else {
            ObjV::Nil
        },
        _ => ObjV::ErrV("argument to `last` must be array, got "@ + spec_type_name(arg)),
    }
}

/// What `rest` answers: a fresh array of all elements but the first, an
/// error for a non-array.
pub open spec fn spec_rest(arg: ObjV) -> ObjV {
    match arg {
        ObjV::Arr(es) => if es.len() == 0 {
            ObjV::Arr(Seq::empty())
        } else {
            ObjV::Arr(es.skip(1))
        },
        _ => ObjV::ErrV("argument to `rest` must be array, got "@ + spec_type_name(arg)),
    }
}

/// What `push` answers: a fresh array with the element appended, an error
/// when the first argument is not an array. The argument array is left as
/// it was.
pub open spec fn spec_push(arr: ObjV, elem: ObjV) -> ObjV {
    match arr {
        ObjV::Arr(es) => ObjV::Arr(es.push(elem)),
        _ => ObjV::ErrV("argument to `push` must be array, got "@ + spec_type_name(arr)),
    }
}

/// The arity-mismatch diagnostic.
pub open spec fn spec_wrong_args_msg(got: int, expected: int) -> Seq<char> {
    "wrong number of arguments: got="@ + spec_udec(got) + ", expected="@ + spec_udec(expected)
}

/// What a registry call answers for a registered name: the arity-mismatch
/// error when the argument count is off, the named built-in's answer
/// otherwise.
pub open spec fn spec_builtin_call(name: Seq<char>, args: Seq<ObjV>) -> ObjV {
    match spec_builtin_arity(name) {
        Some(a) => if args.len() != a {
            ObjV::ErrV(spec_wrong_args_msg(args.len() as int, a as int))
        } else if name == "length"@ {
            spec_length(args[0])
        } else if name == "first"@ {
            spec_first(args[0])
        } else if name == "last"@ {
            spec_last(args[0])
        } else if name == "rest"@ {
            spec_rest(args[0])
        } else {
            spec_push(args[0], args[1])
        },
        None => ObjV::Nil,
    }
}

fn type_error(prefix: &str, arg: &Object) -> (r: Object)
    ensures
        r@ == ObjV::ErrV(prefix@ + spec_type_name(arg@)),
{
    let mut m = String::from_str(prefix);
    m.append(arg.object_type().as_str());
    Object::Error(Error { message: m })
}

/// The `length` built-in.
pub fn length_(arg: Object) -> (r: Object)
    ensures
        r@ == spec_length(arg@),
{
    match &arg {
        Object::Stringl(s) => {
            let n = s.value.as_str().len();
            Object::Integer(Integer { value: #[verifier::truncate] (n as i32) })
        },
        Object::Array(a) => {
            let n = a.elements.len();
            proof {
                lemma_view_objs_len(a.elements@);
            }
            Object::Integer(Integer { value: #[verifier::truncate] (n as i32) })
        },
        _ => type_error("argument to `length` not supported, got ", &arg),
    }
}

/// The `first` built-in.
pub fn first_(arg: Object) -> (r: Object)
    ensures
        r@ == spec_first(arg@),
{
    match &arg {
        Object::Array(a) => {
            proof {
                lemma_view_objs_len(a.elements@);
            }
            if a.elements.len() > 0 {
                a.elements[0].duplicate()
            } else {
                Object::Nil(Nil {})
            }
        },
        _ => type_error("argument to `first` must be array, got ", &arg),
    }
}

/// The `last` built-in.
pub fn last_(arg: Object) -> (r: Object)
    ensures
        r@ == spec_last(arg@),
{
    match &arg {
        Object::Array(a) => {
            proof {
                lemma_view_objs_len(a.elements@);
            }
            if a.elements.len() > 0 {
                a.elements[a.elements.len() - 1].duplicate()
            } else {
                Object::Nil(Nil {})
            }
        },
        _ => type_error("argument to `last` must be array, got ", &arg),
    }
}

/// The `rest` built-in.
#[verifier::loop_isolation(false)]
pub fn rest_(arg: Object) -> (r: Object)
    ensures
        r@ == spec_rest(arg@),
{
    match &arg {
        Object::Array(a) => {
            let ghost ge = view_objs(a.elements@);
            proof {
                lemma_view_objs_len(a.elements@);
            }
            if a.elements.len() == 0 {
                let elems: Vec<Object> = Vec::new();
                proof {
                    assert(view_objs(elems@) =~= Seq::<ObjV>::empty());
                }
                return Object::Array(Array { elements: elems });
            }
            let mut elems: Vec<Object> = Vec::new();
            let mut i: usize = 1;
            proof {
                assert(view_objs(elems@) =~= ge.subrange(1, 1));
            }
            while i < a.elements.len()
                invariant
                    1 <= i <= a.elements.len(),
                    view_objs(elems@) == ge.subrange(1, i as int),
                decreases a.elements.len() - i,
            {
                let d = a.elements[i].duplicate();
                proof {
                    lemma_view_objs_push(elems@, d);
                    assert(ge.subrange(1, i as int).push(ge[i as int]) =~= ge.subrange(
                        1,
                        i + 1,
                    ));
                }
                elems.push(d);
                i = i + 1;
            }
            proof {
                assert(ge.subrange(1, a.elements@.len() as int) =~= ge.skip(1));
            }
            Object::Array(Array { elements: elems })
        },
        _ => type_error("argument to `rest` must be array, got ", &arg),
    }
}

/// The `push` built-in: hands back a fresh array, leaving its argument as
/// it was.
pub fn push_(arr: Object, elem: Object) -> (r: Object)
    ensures
        r@ == spec_push(arr@, elem@),
{
    match arr {
        Object::Array(a) => {
            let ghost ge = view_objs(a.elements@);
            let mut elems = a.elements;
            proof {
                lemma_view_objs_push(elems@, elem);
            }
            elems.push(elem);
            Object::Array(Array { elements: elems })
        },
        _ => type_error("argument to `push` must be array, got ", &arr),
    }
}

/// Dispatches a registry call: checks the argument count against the
/// registered arity, then runs the named built-in.
pub fn call(function_name: String, args: Vec<Object>) -> (r: Object)
    requires
        spec_builtin_arity(function_name@) is Some,
    ensures
        r@ == spec_builtin_call(function_name@, view_objs(args@)),
{
    proof {
        lemma_view_objs_len(args@);
    }
    let arity = match builtin_arity(&function_name) {
        Some(a) => a,
        None => 1,  // unreachable: the name is registered
    };
    if args.len() != arity as usize {
        let mut m = String::from_str("wrong number of arguments: got=");
        m.append(u64_to_string(args.len() as u64).as_str());
        m.append(", expected=");
        m.append(u64_to_string(arity as u64).as_str());
        return Object::Error(Error { message: m });
    }
    if function_name.eq(&String::from_str("length")) {
        length_(args[0].duplicate())
    } else if function_name.eq(&String::from_str("first")) {
        first_(args[0].duplicate())
    } else if function_name.eq(&String::from_str("last")) {
        last_(args[0].duplicate())
    } else if function_name.eq(&String::from_str("rest")) {
        rest_(args[0].duplicate())
    } else {
        push_(args[0].duplicate(), args[1].duplicate())
    }
}

impl CoreFunc {
    /// Resolves a name against the registry: a built-in function object
    /// when the name is registered, nothing otherwise.
    pub fn try_new(function_name: String) -> (r: Option<Object>)
        ensures
            match spec_builtin_arity(function_name@) {
                Some(a) => r is Some && r->0@ == (ObjV::Core { name: function_name@, arity: a }),
                None => r is None,
            },
    {
        match builtin_arity(&function_name) {
            Some(arity) => Some(Object::CoreFunc(CoreFunc { function_name, arity })),
            None => None,
        }
    }

    /// Calls this built-in through the registry dispatch.
    pub fn call(&self, args: Vec<Object>) -> (r: Object)
        requires
            spec_builtin_arity(self.function_name@) is Some,
        ensures
            r@ == spec_builtin_call(self.function_name@, view_objs(args@)),
    {
        crate::builtins::call(self.function_name.clone(), args)
    }
}

} // verus!
