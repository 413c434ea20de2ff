//! The runtime value model: a tagged union of interpreted objects,
//! including first-class functions with captured environments, the
//! return-value sentinel and first-class errors.

use vstd::prelude::*;
use vstd::string::*;

use crate::ast::{
    view_stmts, print_stmts, BlockStatement, Identifier, StmtV,
};
use crate::numtext::{i32_to_string, spec_idec};

verus! {

/// Anything the evaluator can produce: a type tag string and a rendering
/// for diagnostics.
pub trait ObjectT {
    /// The stable type name, as a character sequence.
    spec fn spec_object_type(&self) -> Seq<char>;

    /// The rendering, as a character sequence.
    spec fn spec_inspect(&self) -> Seq<char>;

    /// The stable type name used in diagnostic messages.
    fn object_type(&self) -> (r: String)
        ensures
            r@ == self.spec_object_type(),
    ;

    /// Renders the value for display.
    fn inspect(&self) -> (r: String)
        ensures
            r@ == self.spec_inspect(),
    ;
}

/// An interpreted integer.
pub struct Integer {
    pub value: i32,
}

/// An interpreted string.
pub struct Stringl {
    pub value: String,
}

/// An interpreted boolean.
pub struct Boolean {
    pub value: bool,
}

/// The nil value.
pub struct Nil {}

/// The sentinel wrapping a value carried out of a block by `return`.
pub struct ReturnValue {
    pub value: Object,
}

/// A first-class runtime error.
pub struct Error {
    pub message: String,
}

/// A user function: parameters, body, and the environment captured at the
/// point of its literal, addressed by its index in the arena.
pub struct Function {
    pub parameters: Vec<Identifier>,
    pub body: BlockStatement,
    pub env: usize,
}

/// A built-in function resolved from the registry: its name and arity.
pub struct CoreFunc {
    pub function_name: String,
    pub arity: u8,
}

/// An interpreted array.
pub struct Array {
    pub elements: Vec<Object>,
}

/// An interpreted object, represented as a sum type.
pub enum Object {
    Integer(Integer),
    Stringl(Stringl),
    Array(Array),
    Boolean(Boolean),
    Nil(Nil),
    ReturnValue(Box<ReturnValue>),
    Error(Error),
    Function(Function),
    CoreFunc(CoreFunc),
}

/// Mathematical image of a runtime object.
pub enum ObjV {
    Int(i32),
    Str(Seq<char>),
    Arr(Seq<ObjV>),
    Bool(bool),
    Nil,
    Ret(Box<ObjV>),
    ErrV(Seq<char>),
    Func { params: Seq<Seq<char>>, body: Seq<StmtV>, env: int },
    Core { name: Seq<char>, arity: u8 },
}

/// The view of an object.
pub open spec fn view_obj(o: Object) -> ObjV
    decreases o,
{
    match o {
        Object::Integer(i) => ObjV::Int(i.value),
        Object::Stringl(s) => ObjV::Str(s.value@),
        Object::Array(a) => ObjV::Arr(view_objs(a.elements@)),
        Object::Boolean(b) => ObjV::Bool(b.value),
        Object::Nil(_) => ObjV::Nil,
        Object::ReturnValue(rv) => ObjV::Ret(Box::new(view_obj(rv.value))),
        Object::Error(e) => ObjV::ErrV(e.message@),
        Object::Function(f) => ObjV::Func {
            params: f.parameters@.map_values(|p: Identifier| p.value@),
            body: view_stmts(f.body.statements@),
            env: f.env as int,
        },
        Object::CoreFunc(c) => ObjV::Core { name: c.function_name@, arity: c.arity },
    }
}

/// The views of a sequence of objects, in order.
pub open spec fn view_objs(os: Seq<Object>) -> Seq<ObjV>
    decreases os,
{
    if os.len() == 0 {
        Seq::empty()
    } else {
        view_objs(os.drop_last()).push(view_obj(os.last()))
    }
}

impl View for Object {
    type V = ObjV;

    open spec fn view(&self) -> ObjV {
        view_obj(*self)
    }
}

/// The view of a pushed sequence extends the view of the prefix.
pub proof fn lemma_view_objs_push(os: Seq<Object>, o: Object)
    ensures
        view_objs(os.push(o)) == view_objs(os).push(view_obj(o)),
{
    assert(os.push(o).drop_last() =~= os);
    assert(os.push(o).last() == o);
}

/// Element-wise reading of a viewed object sequence.
pub proof fn lemma_view_objs_len(os: Seq<Object>)
    ensures
        view_objs(os).len() == os.len(),
        forall|i: int| 0 <= i < os.len() ==> view_objs(os)[i] == view_obj(os[i]),
    decreases os,
{
    if os.len() > 0 {
        lemma_view_objs_len(os.drop_last());
    }
}

/// The stable type name of an object: `INTEGER`, `STRING`, `ARRAY`,
/// `BOOLEAN`, `NULL`, `RETURN_VALUE`, `ERROR`, `FUNCTION` or
/// `CORE_FUNCTION`.
pub open spec fn spec_type_name(v: ObjV) -> Seq<char> {
    match v {
        ObjV::Int(..) => "INTEGER"@,
        ObjV::Str(..) => "STRING"@,
        ObjV::Arr(..) => "ARRAY"@,
        ObjV::Bool(..) => "BOOLEAN"@,
        ObjV::Nil => "NULL"@,
        ObjV::Ret(..) => "RETURN_VALUE"@,
        ObjV::ErrV(..) => "ERROR"@,
        ObjV::Func { .. } => "FUNCTION"@,
        ObjV::Core { .. } => "CORE_FUNCTION"@,
    }
}

/// Parameter names joined by a bare comma, as a function value renders.
pub open spec fn join_names_tight(ns: Seq<Seq<char>>) -> Seq<char>
    decreases ns,
{
    if ns.len() == 0 {
        Seq::empty()
    } else if ns.len() == 1 {
        ns[0]
    } else {
        join_names_tight(ns.drop_last()) + ","@ + ns.last()
    }
}

/// The rendering of an object for display.
pub open spec fn spec_inspect_obj(v: ObjV) -> Seq<char>
    decreases v,
{
    match v {
        ObjV::Int(i) => spec_idec(i as int),
        ObjV::Str(s) => s,
        ObjV::Arr(es) => "["@ + spec_inspect_list(es) + "]"@,
        ObjV::Bool(b) => if b {
            "true"@
        } else {
            "false"@
        },
        ObjV::Nil => "null"@,
        ObjV::Ret(inner) => spec_inspect_obj(*inner),
        ObjV::ErrV(m) => m,
        ObjV::Func { params, body, .. } => "fn("@ + join_names_tight(params) + ") {"@
            + print_stmts(body) + "}"@,
        ObjV::Core { .. } => "Core function"@,
    }
}

/// Renderings of a sequence of objects joined by `, `.
pub open spec fn spec_inspect_list(es: Seq<ObjV>) -> Seq<char>
    decreases es,
{
    if es.len() == 0 {
        Seq::empty()
    } else if es.len() == 1 {
        spec_inspect_obj(es[0])
    } else {
        spec_inspect_list(es.drop_last()) + ", "@ + spec_inspect_obj(es.last())
    }
}

/// True when two objects carry the same tag; a built-in function matches
/// nothing, not even another built-in.
pub open spec fn spec_same_tag(a: ObjV, b: ObjV) -> bool {
    match (a, b) {
        (ObjV::Int(..), ObjV::Int(..)) => true,
        (ObjV::Str(..), ObjV::Str(..)) => true,
        (ObjV::Arr(..), ObjV::Arr(..)) => true,
        (ObjV::Bool(..), ObjV::Bool(..)) => true,
        (ObjV::Nil, ObjV::Nil) => true,
        (ObjV::Ret(..), ObjV::Ret(..)) => true,
        (ObjV::ErrV(..), ObjV::ErrV(..)) => true,
        (ObjV::Func { .. }, ObjV::Func { .. }) => true,
        _ => false,
    }
}

impl Object {
    /// True when the two objects carry the same tag. A built-in function
    /// matches nothing, not even another built-in.
    pub fn same_tag(&self, other: &Object) -> (r: bool)
        ensures
            r == spec_same_tag(self@, other@),
    {
        match (self, other) {
            (Object::Integer(_), Object::Integer(_)) => true,
            (Object::Stringl(_), Object::Stringl(_)) => true,
            (Object::Array(_), Object::Array(_)) => true,
            (Object::Boolean(_), Object::Boolean(_)) => true,
            (Object::Nil(_), Object::Nil(_)) => true,
            (Object::ReturnValue(_), Object::ReturnValue(_)) => true,
            (Object::Error(_), Object::Error(_)) => true,
            (Object::Function(_), Object::Function(_)) => true,
            (_, _) => false,
        }
    }

    /// A structural copy whose view equals this object's view.
    #[verifier::loop_isolation(false)]
    pub fn duplicate(&self) -> (r: Object)
        ensures
            r@ == self@,
        decreases *self,
    {
        match self {
            Object::Integer(i) => Object::Integer(Integer { value: i.value }),
            Object::Stringl(s) => Object::Stringl(Stringl { value: s.value.clone() }),
            Object::Array(a) => {
                let mut elems: Vec<Object> = Vec::new();
                let mut i: usize = 0;
                while i < a.elements.len()
                    invariant
                        0 <= i <= a.elements.len(),
                        view_objs(elems@) == view_objs(a.elements@.take(i as int)),
                    decreases a.elements.len() - i,
                {
                    proof {
                        assert(decreases_to!(*self => (*self)->Array_0.elements@[i as int]));
                        assert((*self)->Array_0.elements@[i as int] == a.elements@[i as int]);
                    }
                    let d = a.elements[i].duplicate();
                    proof {
                        lemma_view_objs_push(elems@, d);
                        lemma_view_objs_push(a.elements@.take(i as int), a.elements@[i as int]);
                        assert(a.elements@.take(i as int).push(a.elements@[i as int])
                            =~= a.elements@.take(i + 1));
                    }
                    elems.push(d);
                    i = i + 1;
                }
                proof {
                    assert(a.elements@.take(a.elements@.len() as int) =~= a.elements@);
                }
                Object::Array(Array { elements: elems })
            },
            Object::Boolean(b) => Object::Boolean(Boolean { value: b.value }),
            Object::Nil(_) => Object::Nil(Nil {}),
            Object::ReturnValue(rv) => Object::ReturnValue(
                Box::new(ReturnValue { value: rv.value.duplicate() }),
            ),
            Object::Error(e) => Object::Error(Error { message: e.message.clone() }),
            Object::Function(f) => {
                let mut params: Vec<Identifier> = Vec::new();
                let mut i: usize = 0;
                while i < f.parameters.len()
                    invariant
                        0 <= i <= f.parameters.len(),
                        params@.len() == i,
                        forall|k: int|
                            0 <= k < i ==> params@[k].value@ == f.parameters@[k].value@,
                    decreases f.parameters.len() - i,
                {
                    params.push(f.parameters[i].clone());
                    i = i + 1;
                }
                proof {
                    assert(params@.map_values(|p: Identifier| p.value@) =~= f.parameters@
                        .map_values(|p: Identifier| p.value@));
                }
                Object::Function(
                    Function { parameters: params, body: f.body.duplicate(), env: f.env },
                )
            },
            Object::CoreFunc(c) => Object::CoreFunc(
                CoreFunc { function_name: c.function_name.clone(), arity: c.arity },
            ),
        }
    }
}

/// Renders an object for display.
#[verifier::loop_isolation(false)]
pub fn inspect_object(o: &Object) -> (r: String)
    ensures
        r@ == spec_inspect_obj(o@),
    decreases *o,
{
    match o {
        Object::Integer(i) => i32_to_string(i.value),
        Object::Stringl(s) => s.value.clone(),
        Object::Array(a) => {
            let ghost ge = view_objs(a.elements@);
            proof {
                lemma_view_objs_len(a.elements@);
            }
            let mut r = String::from_str("[");
            let mut i: usize = 0;
            while i < a.elements.len()
                invariant
                    0 <= i <= a.elements.len(),
                    r@ == "["@ + spec_inspect_list(ge.take(i as int)),
                decreases a.elements.len() - i,
            {
                proof {
                    assert(decreases_to!(*o => (*o)->Array_0.elements@[i as int]));
                    assert((*o)->Array_0.elements@[i as int] == a.elements@[i as int]);
                }
                if i > 0 {
                    r.append(", ");
                }
                r.append(inspect_object(&a.elements[i]).as_str());
                proof {
                    assert(ge.take(i + 1).drop_last() =~= ge.take(i as int));
                    assert(ge.take(i + 1).last() == ge[i as int]);
                }
                i = i + 1;
            }
            proof {
                assert(ge.take(ge.len() as int) =~= ge);
            }
            r.append("]");
            r
        },
        Object::Boolean(b) => {
            if b.value {
                String::from_str("true")
            } else {
                String::from_str("false")
            }
        },
        Object::Nil(_) => String::from_str("null"),
        Object::ReturnValue(rv) => inspect_object(&rv.value),
        Object::Error(e) => e.message.clone(),
        Object::Function(f) => {
            let ghost ps = f.parameters@.map_values(|p: Identifier| p.value@);
            let mut r = String::from_str("fn(");
            let mut i: usize = 0;
            while i < f.parameters.len()
                invariant
                    0 <= i <= f.parameters.len(),
                    r@ == "fn("@ + join_names_tight(ps.take(i as int)),
                decreases f.parameters.len() - i,
            {
                if i > 0 {
                    r.append(",");
                }
                r.append(f.parameters[i].value.as_str());
                proof {
                    assert(ps.take(i + 1).drop_last() =~= ps.take(i as int));
                    assert(ps.take(i + 1).last() == ps[i as int]);
                }
                i = i + 1;
            }
            proof {
                assert(ps.take(ps.len() as int) =~= ps);
            }
            r.append(") {");
            r.append(crate::ast::print_statements(&f.body.statements).as_str());
            r.append("}");
            r
        },
        Object::CoreFunc(_) => String::from_str("Core function"),
    }
}

impl ObjectT for Object {
    open spec fn spec_object_type(&self) -> Seq<char> {
        spec_type_name(self@)
    }

    open spec fn spec_inspect(&self) -> Seq<char> {
        spec_inspect_obj(self@)
    }

    fn object_type(&self) -> (r: String)
        ensures
            r@ == self.spec_object_type(),
    {
        match self {
            Object::Integer(..) => String::from_str("INTEGER"),
            Object::Stringl(..) => String::from_str("STRING"),
            Object::Array(..) => String::from_str("ARRAY"),
            Object::Boolean(..) => String::from_str("BOOLEAN"),
            Object::Nil(..) => String::from_str("NULL"),
            Object::ReturnValue(..) => String::from_str("RETURN_VALUE"),
            Object::Error(..) => String::from_str("ERROR"),
            Object::Function(..) => String::from_str("FUNCTION"),
            Object::CoreFunc(..) => String::from_str("CORE_FUNCTION"),
        }
    }

    fn inspect(&self) -> (r: String)
        ensures
            r@ == self.spec_inspect(),
    {
        inspect_object(self)
    }
}

impl ObjectT for Integer {
    open spec fn spec_object_type(&self) -> Seq<char> {
        "INTEGER"@
    }

    open spec fn spec_inspect(&self) -> Seq<char> {
        spec_idec(self.value as int)
    }

    fn object_type(&self) -> (r: String)
        ensures
            r@ == self.spec_object_type(),
    {
        String::from_str("INTEGER")
    }

    fn inspect(&self) -> (r: String)
        ensures
            r@ == self.spec_inspect(),
    {
        i32_to_string(self.value)
    }
}

impl ObjectT for Stringl {
    open spec fn spec_object_type(&self) -> Seq<char> {
        "STRING"@
    }

    open spec fn spec_inspect(&self) -> Seq<char> {
        self.value@
    }

    fn object_type(&self) -> (r: String)
        ensures
            r@ == self.spec_object_type(),
    {
        String::from_str("STRING")
    }

    fn inspect(&self) -> (r: String)
        ensures
            r@ == self.spec_inspect(),
    {
        self.value.clone()
    }
}

impl ObjectT for Boolean {
    open spec fn spec_object_type(&self) -> Seq<char> {
        "BOOLEAN"@
    }

    open spec fn spec_inspect(&self) -> Seq<char> {
        if self.value {
            "true"@
        } else {
            "false"@
        }
    }

    fn object_type(&self) -> (r: String)
        ensures
            r@ == self.spec_object_type(),
    {
        String::from_str("BOOLEAN")
    }

    fn inspect(&self) -> (r: String)
        ensures
            r@ == self.spec_inspect(),
    {
        if self.value {
            String::from_str("true")
        } else {
            String::from_str("false")
        }
    }
}

impl ObjectT for Nil {
    open spec fn spec_object_type(&self) -> Seq<char> {
        "NULL"@
    }

    open spec fn spec_inspect(&self) -> Seq<char> {
        "null"@
    }

    fn object_type(&self) -> (r: String)
        ensures
            r@ == self.spec_object_type(),
    {
        String::from_str("NULL")
    }

    fn inspect(&self) -> (r: String)
        ensures
            r@ == self.spec_inspect(),
    {
        String::from_str("null")
    }
}

impl ObjectT for ReturnValue {
    open spec fn spec_object_type(&self) -> Seq<char> {
        "RETURN_VALUE"@
    }

    open spec fn spec_inspect(&self) -> Seq<char> {
        spec_inspect_obj(view_obj(self.value))
    }

    fn object_type(&self) -> (r: String)
        ensures
            r@ == self.spec_object_type(),
    {
        String::from_str("RETURN_VALUE")
    }

    fn inspect(&self) -> (r: String)
        ensures
            r@ == self.spec_inspect(),
    {
        inspect_object(&self.value)
    }
}

impl ObjectT for Error {
    open spec fn spec_object_type(&self) -> Seq<char> {
        "ERROR"@
    }

    open spec fn spec_inspect(&self) -> Seq<char> {
        self.message@
    }

    fn object_type(&self) -> (r: String)
        ensures
            r@ == self.spec_object_type(),
    {
        String::from_str("ERROR")
    }

    fn inspect(&self) -> (r: String)
        ensures
            r@ == self.spec_inspect(),
    {
        self.message.clone()
    }
}

impl ObjectT for CoreFunc {
    open spec fn spec_object_type(&self) -> Seq<char> {
        "CORE_FUNCTION"@
    }

    open spec fn spec_inspect(&self) -> Seq<char> {
        "Core function"@
    }

    fn object_type(&self) -> (r: String)
        ensures
            r@ == self.spec_object_type(),
    {
        String::from_str("CORE_FUNCTION")
    }

    fn inspect(&self) -> (r: String)
        ensures
            r@ == self.spec_inspect(),
    {
        String::from_str("Core function")
    }
}

impl ObjectT for Function {
    open spec fn spec_object_type(&self) -> Seq<char> {
        "FUNCTION"@
    }

    open spec fn spec_inspect(&self) -> Seq<char> {
        spec_inspect_obj(view_obj(Object::Function(*self)))
    }

    fn object_type(&self) -> (r: String)
        ensures
            r@ == self.spec_object_type(),
    {
        String::from_str("FUNCTION")
    }

    #[verifier::loop_isolation(false)]
    fn inspect(&self) -> (r: String)
        ensures
            r@ == self.spec_inspect(),
    {
        let ghost ps = self.parameters@.map_values(|p: Identifier| p.value@);
        let mut r = String::from_str("fn(");
        let mut i: usize = 0;
        while i < self.parameters.len()
            invariant
                0 <= i <= self.parameters.len(),
                r@ == "fn("@ + join_names_tight(ps.take(i as int)),
            decreases self.parameters.len() - i,
        {
            if i > 0 {
                r.append(",");
            }
            r.append(self.parameters[i].value.as_str());
            proof {
                assert(ps.take(i + 1).drop_last() =~= ps.take(i as int));
                assert(ps.take(i + 1).last() == ps[i as int]);
            }
            i = i + 1;
        }
        proof {
            assert(ps.take(ps.len() as int) =~= ps);
        }
        r.append(") {");
        r.append(crate::ast::print_statements(&self.body.statements).as_str());
        r.append("}");
        r
    }
}

impl ObjectT for Array {
    open spec fn spec_object_type(&self) -> Seq<char> {
        "ARRAY"@
    }

    open spec fn spec_inspect(&self) -> Seq<char> {
        spec_inspect_obj(view_obj(Object::Array(*self)))
    }

    fn object_type(&self) -> (r: String)
        ensures
            r@ == self.spec_object_type(),
    {
        String::from_str("ARRAY")
    }

    #[verifier::loop_isolation(false)]
    fn inspect(&self) -> (r: String)
        ensures
            r@ == self.spec_inspect(),
    {
        let ghost ge = view_objs(self.elements@);
        proof {
            lemma_view_objs_len(self.elements@);
        }
        let mut r = String::from_str("[");
        let mut i: usize = 0;
        while i < self.elements.len()
            invariant
                0 <= i <= self.elements.len(),
                r@ == "["@ + spec_inspect_list(ge.take(i as int)),
            decreases self.elements.len() - i,
        {
            if i > 0 {
                r.append(", ");
            }
            r.append(inspect_object(&self.elements[i]).as_str());
            proof {
                assert(ge.take(i + 1).drop_last() =~= ge.take(i as int));
                assert(ge.take(i + 1).last() == ge[i as int]);
            }
            i = i + 1;
        }
        proof {
            assert(ge.take(ge.len() as int) =~= ge);
        }
        r.append("]");
        r
    }
}

} // verus!
