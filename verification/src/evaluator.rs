//! The evaluator: a recursive walk of the syntax tree producing a runtime
//! object. Errors are first-class objects that short-circuit evaluation;
//! `return` wraps its value in a sentinel unwrapped at function-call and
//! program boundaries. Every evaluating function is proved to compute
//! exactly what the mathematical interpreter (`ev_expr` and friends)
//! prescribes, which carries a fuel bounding the depth of user-level
//! function calls; the executable evaluator seeds the fuel so high that it
//! never runs out in practice, and answers with an error object if it ever
//! would.

use vstd::prelude::*;
use vstd::string::*;

use crate::ast::{
    view_exprs, view_stmts as view_stmts_of, Expression, ExprV, Program, Statement, StmtV,
};
use crate::builtins::{spec_builtin_arity, spec_builtin_call, spec_wrong_args_msg};
use crate::env::{
    arena_wf, env_lookup, lemma_env_lookup_wf, lemma_obj_wf_mono, obj_wf, EnvArena, FrameV,
};
use crate::numtext::u64_to_string;
use crate::object::{
    lemma_view_objs_len, spec_type_name, view_objs, Array, Boolean, CoreFunc, Error, Integer,
    Nil, ObjV, Object, ObjectT, ReturnValue, Stringl,
};

verus! {

/// A node handed to `eval`: a whole program, one statement, or one
/// expression.
pub enum WrappedNode {
    P(Program),
    S(Statement),
    E(Expression),
}

/// Mathematical image of a wrapped node.
pub enum NodeV {
    P(Seq<StmtV>),
    S(StmtV),
    E(ExprV),
}

impl View for WrappedNode {
    type V = NodeV;

    open spec fn view(&self) -> NodeV {
        match self {
            WrappedNode::P(p) => NodeV::P(p@),
            WrappedNode::S(s) => NodeV::S(s@),
            WrappedNode::E(e) => NodeV::E(e@),
        }
    }
}

/// Outcome of one mathematical evaluation step: the object produced and
/// the arena after the step.
#[verifier::ext_equal]
pub struct ERes {
    pub val: ObjV,
    pub arena: Seq<FrameV>,
}

/// True of error objects, which short-circuit evaluation.
pub open spec fn is_err(v: ObjV) -> bool {
    v is ErrV
}

/// Truthiness: everything but nil and `false` is truthy.
pub open spec fn truthy(v: ObjV) -> bool {
    !(v == ObjV::Nil || v == ObjV::Bool(false))
}

/// Unwraps the return-value sentinel; anything else passes through.
pub open spec fn unwrap_ret(v: ObjV) -> ObjV {
    match v {
        ObjV::Ret(inner) => *inner,
        _ => v,
    }
}

/// The diagnostic when evaluation would recurse deeper than the fuel
/// allows.
pub open spec fn depth_msg() -> Seq<char> {
    "evaluation depth limit reached"@
}

/// The diagnostic for an unbound identifier.
pub open spec fn ident_not_found_msg(n: Seq<char>) -> Seq<char> {
    "identifier not found: "@ + n
}

/// The diagnostic for calling a value that is no function.
pub open spec fn not_a_function_msg(tn: Seq<char>) -> Seq<char> {
    "not a function: "@ + tn
}

/// The diagnostic for an infix operator on operands of different types.
pub open spec fn type_mismatch_msg(lt: Seq<char>, op: Seq<char>, rt: Seq<char>) -> Seq<char> {
    "type mismatch: "@ + lt + " "@ + op + " "@ + rt
}

/// The diagnostic for an unsupported infix operator.
pub open spec fn unknown_op_msg(lt: Seq<char>, op: Seq<char>, rt: Seq<char>) -> Seq<char> {
    "unknown operator: "@ + lt + " "@ + op + " "@ + rt
}

/// The diagnostic for an unsupported prefix operand.
pub open spec fn unknown_prefix_msg(op: Seq<char>, tn: Seq<char>) -> Seq<char> {
    "unknown operator: "@ + op + tn
}

/// The diagnostic for indexing anything but an array.
pub open spec fn index_unsupported_msg(tn: Seq<char>) -> Seq<char> {
    "index operator not supported: "@ + tn
}

/// Language-level value equality: structural for scalars, strings and
/// arrays; nil equals only nil; a function equals nothing, not even
/// itself.
pub open spec fn obj_eq(a: ObjV, b: ObjV) -> bool
    decreases a,
{
    match (a, b) {
        (ObjV::Int(x), ObjV::Int(y)) => x == y,
        (ObjV::Str(x), ObjV::Str(y)) => x == y,
        (ObjV::Bool(x), ObjV::Bool(y)) => x == y,
        (ObjV::Nil, ObjV::Nil) => true,
        (ObjV::Arr(x), ObjV::Arr(y)) => x.len() == y.len() && (forall|i: int|
            0 <= i < x.len() ==> obj_eq(#[trigger] x[i], y[i])),
        (ObjV::ErrV(x), ObjV::ErrV(y)) => x == y,
        (ObjV::Ret(x), ObjV::Ret(y)) => obj_eq(*x, *y),
        (ObjV::Core { name: n1, arity: a1 }, ObjV::Core { name: n2, arity: a2 }) => n1 == n2
            && a1 == a2,
        _ => false,
    }
}

/// What an integer infix operator yields: arithmetic answers an error
/// object on overflow or division by zero rather than wrapping.
pub open spec fn spec_int_op(op: Seq<char>, a: i32, b: i32) -> ObjV {
    if op == "+"@ {
        match a.checked_add(b) {
            Some(v) => ObjV::Int(v),
            None => ObjV::ErrV("integer overflow"@),
        }
    } else if op == "-"@ {
        match a.checked_sub(b) {
            Some(v) => ObjV::Int(v),
            None => ObjV::ErrV("integer overflow"@),
        }
    } else if op == "*"@ {
        match a.checked_mul(b) {
            Some(v) => ObjV::Int(v),
            None => ObjV::ErrV("integer overflow"@),
        }
    } else if op == "/"@ {
        if b == 0 {
            ObjV::ErrV("division by zero"@)
        } else {
            match a.checked_div(b) {
                Some(v) => ObjV::Int(v),
                None => ObjV::ErrV("integer overflow"@),
            }
        }
    } else if op == "<"@ {
        ObjV::Bool(a < b)
    } else if op == ">"@ {
        ObjV::Bool(a > b)
    } else if op == "=="@ {
        ObjV::Bool(a == b)
    } else if op == "!="@ {
        ObjV::Bool(a != b)
    } else {
        ObjV::ErrV(unknown_op_msg("INTEGER"@, op, "INTEGER"@))
    }
}

/// What a prefix operator yields.
pub open spec fn spec_prefix_op(op: Seq<char>, v: ObjV) -> ObjV {
    if op == "!"@ {
        ObjV::Bool(!truthy(v))
    } else if op == "-"@ {
        match v {
            ObjV::Int(a) => if a == i32::MIN {
                ObjV::ErrV("integer overflow"@)
            } else {
                ObjV::Int((-a) as i32)
            },
            _ => ObjV::ErrV(unknown_prefix_msg(op, spec_type_name(v))),
        }
    } else {
        ObjV::ErrV(unknown_prefix_msg(op, spec_type_name(v)))
    }
}

/// What an infix operator yields: integer arithmetic and comparison,
/// string concatenation, equality wherever a boolean or nil stands, a
/// type-mismatch error across types, an unknown-operator error otherwise.
pub open spec fn spec_infix_op(op: Seq<char>, l: ObjV, r: ObjV) -> ObjV {
    if l is Int && r is Int {
        spec_int_op(op, l->Int_0, r->Int_0)
    } else if l is Str && r is Str {
        if op == "+"@ {
            ObjV::Str(l->Str_0 + r->Str_0)
        } else {
            ObjV::ErrV(unknown_op_msg("STRING"@, op, "STRING"@))
        }
    } else if (op == "=="@ || op == "!="@) && (l is Bool || l is Nil || r is Bool || r is Nil) {
        if op == "=="@ {
            ObjV::Bool(obj_eq(l, r))
        } else {
            ObjV::Bool(!obj_eq(l, r))
        }
    } else if spec_type_name(l) != spec_type_name(r) {
        ObjV::ErrV(type_mismatch_msg(spec_type_name(l), op, spec_type_name(r)))
    } else {
        ObjV::ErrV(unknown_op_msg(spec_type_name(l), op, spec_type_name(r)))
    }
}

/// What indexing yields: the element for an in-bounds integer index into
/// an array, nil out of bounds, an error for anything but an array.
pub open spec fn spec_index_op(l: ObjV, ix: ObjV) -> ObjV {
    match (l, ix) {
        (ObjV::Arr(es), ObjV::Int(i)) => if 0 <= i < es.len() {
            es[i as int]
        } else {
            ObjV::Nil
        },
        _ => ObjV::ErrV(index_unsupported_msg(spec_type_name(l))),
    }
}

/// Writing a binding into one environment of the arena.
pub open spec fn arena_set(
    a: Seq<FrameV>,
    env: int,
    name: Seq<char>,
    v: ObjV,
) -> Seq<FrameV> {
    if 0 <= env < a.len() {
        a.update(
            env,
            FrameV { bindings: a[env].bindings.push((name, v)), parent: a[env].parent },
        )
    } else {
        a
    }
}

/// The parameter frame a call builds: each parameter bound to its
/// argument, enclosed by the function's captured environment.
pub open spec fn call_frame(params: Seq<Seq<char>>, args: Seq<ObjV>, env: int) -> FrameV {
    FrameV {
        bindings: Seq::new(params.len(), |i: int| (params[i], args[i])),
        parent: Some(env),
    }
}

/// The mathematical evaluator for one expression. `None` means the fuel
/// ran out inside a user-level function call.
pub open spec fn ev_expr(e: ExprV, env: int, a: Seq<FrameV>, fuel: nat) -> Option<ERes>
    decreases fuel, e, 0int,
{
    match e {
        ExprV::Ident(n) => Some(
            ERes {
                val: match env_lookup(a, env, n) {
                    Some(v) => v,
                    None => match spec_builtin_arity(n) {
                        Some(ar) => ObjV::Core { name: n, arity: ar },
                        None => ObjV::ErrV(ident_not_found_msg(n)),
                    },
                },
                arena: a,
            },
        ),
        ExprV::Int(v) => Some(ERes { val: ObjV::Int(v), arena: a }),
        ExprV::Str(s) => Some(ERes { val: ObjV::Str(s), arena: a }),
        ExprV::Bool(b) => Some(ERes { val: ObjV::Bool(b), arena: a }),
        ExprV::Prefix { op, right } => match ev_expr(*right, env, a, fuel) {
            None => None,
            Some(r) => if is_err(r.val) {
                Some(r)
            } else {
                Some(ERes { val: spec_prefix_op(op, r.val), arena: r.arena })
            },
        },
        ExprV::Infix { op, left, right } => match ev_expr(*left, env, a, fuel) {
            None => None,
            Some(lr) => if is_err(lr.val) {
                Some(lr)
            } else {
                match ev_expr(*right, env, lr.arena, fuel) {
                    None => None,
                    Some(rr) => if is_err(rr.val) {
                        Some(rr)
                    } else {
                        Some(ERes { val: spec_infix_op(op, lr.val, rr.val), arena: rr.arena })
                    },
                }
            },
        },
        ExprV::If { cond, cons, alt } => match ev_expr(*cond, env, a, fuel) {
            None => None,
            Some(c) => if is_err(c.val) {
                Some(c)
            } else if truthy(c.val) {
                ev_block(cons, env, c.arena, fuel)
            } else {
                match alt {
                    Some(ab) => ev_block(ab, env, c.arena, fuel),
                    None => Some(ERes { val: ObjV::Nil, arena: c.arena }),
                }
            },
        },
        ExprV::Fn { params, body } => Some(
            ERes { val: ObjV::Func { params, body, env }, arena: a },
        ),
        ExprV::Call { callee, args } => match ev_expr(*callee, env, a, fuel) {
            None => None,
            Some(c) => if is_err(c.val) {
                Some(c)
            } else {
                match ev_args(args, env, c.arena, fuel) {
                    None => None,
                    Some((Err(e2), a2)) => Some(ERes { val: e2, arena: a2 }),
                    Some((Ok(vals), a2)) => if fuel == 0 {
                        None
                    } else {
                        ev_apply(c.val, vals, a2, (fuel - 1) as nat)
                    },
                }
            },
        },
        ExprV::Arr(es) => match ev_args(es, env, a, fuel) {
            None => None,
            Some((Err(e2), a2)) => Some(ERes { val: e2, arena: a2 }),
            Some((Ok(vals), a2)) => Some(ERes { val: ObjV::Arr(vals), arena: a2 }),
        },
        ExprV::Index { left, index } => match ev_expr(*left, env, a, fuel) {
            None => None,
            Some(lr) => if is_err(lr.val) {
                Some(lr)
            } else {
                match ev_expr(*index, env, lr.arena, fuel) {
                    None => None,
                    Some(ir) => if is_err(ir.val) {
                        Some(ir)
                    } else {
                        Some(ERes { val: spec_index_op(lr.val, ir.val), arena: ir.arena })
                    },
                }
            },
        },
    }
}

/// Evaluates expressions left to right; the first error stops the walk
/// and is handed back alone.
pub open spec fn ev_args(es: Seq<ExprV>, env: int, a: Seq<FrameV>, fuel: nat) -> Option<
    (Result<Seq<ObjV>, ObjV>, Seq<FrameV>),
>
    decreases fuel, es, 0int,
{
    if es.len() == 0 {
        Some((Ok(Seq::empty()), a))
    } else {
        match ev_expr(es[0], env, a, fuel) {
            None => None,
            Some(r) => if is_err(r.val) {
                Some((Err(r.val), r.arena))
            } else {
                match ev_args(es.drop_first(), env, r.arena, fuel) {
                    None => None,
                    Some((Err(e2), a2)) => Some((Err(e2), a2)),
                    Some((Ok(vs), a2)) => Some((Ok(seq![r.val] + vs), a2)),
                }
            },
        }
    }
}

/// Applies a callee to evaluated arguments: a user function gets a fresh
/// environment binding its parameters and its body evaluated, with the
/// return sentinel unwrapped; a built-in goes through the registry; any
/// other value is no function.
pub open spec fn ev_apply(f: ObjV, args: Seq<ObjV>, a: Seq<FrameV>, fuel: nat) -> Option<ERes>
    decreases fuel, f->Func_body, 1int,
{
    match f {
        ObjV::Func { params, body, env } => if args.len() != params.len() {
            Some(
                ERes {
                    val: ObjV::ErrV(
                        spec_wrong_args_msg(args.len() as int, params.len() as int),
                    ),
                    arena: a,
                },
            )
        } else {
            let a2 = a.push(call_frame(params, args, env));
            match ev_block(f->Func_body, a.len() as int, a2, fuel) {
                None => None,
                Some(r) => Some(ERes { val: unwrap_ret(r.val), arena: r.arena }),
            }
        },
        ObjV::Core { name, .. } => Some(
            ERes { val: spec_builtin_call(name, args), arena: a },
        ),
        _ => Some(ERes { val: ObjV::ErrV(not_a_function_msg(spec_type_name(f))), arena: a }),
    }
}

/// Evaluates a run of statements: a return sentinel or an error stops the
/// walk and is handed back as is; otherwise the last statement's value,
/// or nil when there is none.
pub open spec fn ev_block(ss: Seq<StmtV>, env: int, a: Seq<FrameV>, fuel: nat) -> Option<ERes>
    decreases fuel, ss, 0int,
{
    if ss.len() == 0 {
        Some(ERes { val: ObjV::Nil, arena: a })
    } else {
        match ev_stmt(ss[0], env, a, fuel) {
            None => None,
            Some(r) => if r.val is Ret || is_err(r.val) || ss.len() == 1 {
                Some(r)
            } else {
                ev_block(ss.drop_first(), env, r.arena, fuel)
            },
        }
    }
}

/// The mathematical evaluator for one statement: `let` binds and yields
/// nil, `return` wraps its value in the sentinel, an expression statement
/// yields its value.
pub open spec fn ev_stmt(s: StmtV, env: int, a: Seq<FrameV>, fuel: nat) -> Option<ERes>
    decreases fuel, s, 0int,
{
    match s {
        StmtV::Let { name, value } => match ev_expr(value, env, a, fuel) {
            None => None,
            Some(r) => if is_err(r.val) {
                Some(r)
            } else {
                Some(ERes { val: ObjV::Nil, arena: arena_set(r.arena, env, name, r.val) })
            },
        },
        StmtV::Ret(e) => match ev_expr(e, env, a, fuel) {
            None => None,
            Some(r) => if is_err(r.val) {
                Some(r)
            } else {
                Some(ERes { val: ObjV::Ret(Box::new(r.val)), arena: r.arena })
            },
        },
        StmtV::Expr(e) => ev_expr(e, env, a, fuel),
    }
}

/// The mathematical evaluator for a whole program: the statements in
/// order, with the return sentinel unwrapped at the end.
pub open spec fn ev_program(ss: Seq<StmtV>, env: int, a: Seq<FrameV>, fuel: nat) -> Option<
    ERes,
> {
    match ev_block(ss, env, a, fuel) {
        None => None,
        Some(r) => Some(ERes { val: unwrap_ret(r.val), arena: r.arena }),
    }
}

/// The mathematical evaluator for a wrapped node.
pub open spec fn ev_node(n: NodeV, env: int, a: Seq<FrameV>, fuel: nat) -> Option<ERes> {
    match n {
        NodeV::P(ss) => ev_program(ss, env, a, fuel),
        NodeV::S(s) => ev_stmt(s, env, a, fuel),
        NodeV::E(e) => ev_expr(e, env, a, fuel),
    }
}

/// The fuel the executable evaluator seeds: far deeper call nesting than
/// any real stack survives.
pub open spec fn eval_fuel() -> nat {
    u64::MAX as nat
}

/// What a registry call yields is well formed whenever its arguments are.
pub proof fn lemma_builtin_call_wf(name: Seq<char>, args: Seq<ObjV>, n: int)
    requires
        forall|i: int| 0 <= i < args.len() ==> obj_wf(#[trigger] args[i], n),
    ensures
        obj_wf(spec_builtin_call(name, args), n),
{
    if args.len() > 0 && args[0] is Arr {
        let es = args[0]->Arr_0;
        assert(obj_wf(args[0], n));
        if es.len() > 0 {
            assert forall|i: int| 0 <= i < es.skip(1).len() implies obj_wf(
                #[trigger] es.skip(1)[i],
                n,
            ) by {
                assert(es.skip(1) =~= es.subrange(1, es.len() as int));
                assert(es.skip(1)[i] == es[i + 1]);
            }
        }
        if args.len() > 1 {
            assert(obj_wf(args[1], n));
            assert forall|i: int| 0 <= i < es.push(args[1]).len() implies obj_wf(
                #[trigger] es.push(args[1])[i],
                n,
            ) by {
                if i < es.len() {
                    assert(es.push(args[1])[i] == es[i]);
                }
            }
        }
    }
}

/// True of error objects.
fn is_error(o: &Object) -> (r: bool)
    ensures
        r == is_err(o@),
{
    match o {
        Object::Error(..) => true,
        _ => false,
    }
}

/// Truthiness: everything but nil and `false`.
fn is_truthy(o: &Object) -> (r: bool)
    ensures
        r == truthy(o@),
{
    match o {
        Object::Nil(..) => false,
        Object::Boolean(b) => b.value,
        _ => true,
    }
}

/// A fresh error object.
fn make_error(m: String) -> (r: Object)
    ensures
        r@ == ObjV::ErrV(m@),
{
    Object::Error(Error { message: m })
}

/// The error object for exhausted evaluation fuel.
fn depth_error() -> (r: Object)
    ensures
        r@ == ObjV::ErrV(depth_msg()),
{
    Object::Error(Error { message: String::from_str("evaluation depth limit reached") })
}

/// Language-level equality where at least one side is a boolean or nil.
fn eq_bool_nil(l: &Object, r2: &Object) -> (r: bool)
    requires
        l@ is Bool || l@ is Nil || r2@ is Bool || r2@ is Nil,
    ensures
        r == obj_eq(l@, r2@),
{
    match (l, r2) {
        (Object::Boolean(a), Object::Boolean(b)) => a.value == b.value,
        (Object::Nil(..), Object::Nil(..)) => true,
        (_, _) => false,
    }
}

/// Applies a prefix operator to an evaluated operand.
fn eval_prefix_op(op: &String, v: Object) -> (r: Object)
    ensures
        r@ == spec_prefix_op(op@, v@),
        obj_wf(r@, 0),
{
    if op.eq(&String::from_str("!")) {
        Object::Boolean(Boolean { value: !is_truthy(&v) })
    } else if op.eq(&String::from_str("-")) {
        match &v {
            Object::Integer(i) => {
                if i.value == i32::MIN {
                    make_error(String::from_str("integer overflow"))
                } else {
                    Object::Integer(Integer { value: -i.value })
                }
            },
            _ => {
                let mut m = String::from_str("unknown operator: ");
                m.append(op.as_str());
                m.append(v.object_type().as_str());
                make_error(m)
            },
        }
    } else {
        let mut m = String::from_str("unknown operator: ");
        m.append(op.as_str());
        m.append(v.object_type().as_str());
        make_error(m)
    }
}

/// Applies an integer infix operator; arithmetic answers an error object
/// on overflow or division by zero.
fn eval_int_op(op: &String, a: i32, b: i32) -> (r: Object)
    ensures
        r@ == spec_int_op(op@, a, b),
        obj_wf(r@, 0),
{
    if op.eq(&String::from_str("+")) {
        match a.checked_add(b) {
            Some(v) => Object::Integer(Integer { value: v }),
            None => make_error(String::from_str("integer overflow")),
        }
    } else if op.eq(&String::from_str("-")) {
        match a.checked_sub(b) {
            Some(v) => Object::Integer(Integer { value: v }),
            None => make_error(String::from_str("integer overflow")),
        }
    } else if op.eq(&String::from_str("*")) {
        match a.checked_mul(b) {
            Some(v) => Object::Integer(Integer { value: v }),
            None => make_error(String::from_str("integer overflow")),
        }
    } else if op.eq(&String::from_str("/")) {
        if b == 0 {
            make_error(String::from_str("division by zero"))
        } else {
            match a.checked_div(b) {
                Some(v) => Object::Integer(Integer { value: v }),
                None => make_error(String::from_str("integer overflow")),
            }
        }
    } else if op.eq(&String::from_str("<")) {
        Object::Boolean(Boolean { value: a < b })
    } else if op.eq(&String::from_str(">")) {
        Object::Boolean(Boolean { value: a > b })
    } else if op.eq(&String::from_str("==")) {
        Object::Boolean(Boolean { value: a == b })
    } else if op.eq(&String::from_str("!=")) {
        Object::Boolean(Boolean { value: a != b })
    } else {
        let mut m = String::from_str("unknown operator: ");
        m.append("INTEGER");
        m.append(" ");
        m.append(op.as_str());
        m.append(" ");
        m.append("INTEGER");
        make_error(m)
    }
}

/// Applies an infix operator to two evaluated operands.
fn eval_infix_op(op: &String, l: Object, r2: Object) -> (r: Object)
    ensures
        r@ == spec_infix_op(op@, l@, r2@),
        obj_wf(r@, 0),
{
    match (&l, &r2) {
        (Object::Integer(a), Object::Integer(b)) => eval_int_op(op, a.value, b.value),
        (Object::Stringl(a), Object::Stringl(b)) => {
            if op.eq(&String::from_str("+")) {
                let joined = a.value.clone().concat(b.value.as_str());
                Object::Stringl(Stringl { value: joined })
            } else {
                let mut m = String::from_str("unknown operator: ");
                m.append("STRING");
                m.append(" ");
                m.append(op.as_str());
                m.append(" ");
                m.append("STRING");
                make_error(m)
            }
        },
        (_, _) => {
            let op_is_eq = op.eq(&String::from_str("=="));
            let op_is_neq = op.eq(&String::from_str("!="));
            let has_bool_nil = match (&l, &r2) {
                (Object::Boolean(..), _) | (Object::Nil(..), _) => true,
                (_, Object::Boolean(..)) | (_, Object::Nil(..)) => true,
                (_, _) => false,
            };
            if (op_is_eq || op_is_neq) && has_bool_nil {
                let e = eq_bool_nil(&l, &r2);
                Object::Boolean(Boolean { value: if op_is_eq { e } else { !e } })
            } else {
                let lt = l.object_type();
                let rt = r2.object_type();
                if !lt.eq(&rt) {
                    let mut m = String::from_str("type mismatch: ");
                    m.append(lt.as_str());
                    m.append(" ");
                    m.append(op.as_str());
                    m.append(" ");
                    m.append(rt.as_str());
                    make_error(m)
                } else {
                    let mut m = String::from_str("unknown operator: ");
                    m.append(lt.as_str());
                    m.append(" ");
                    m.append(op.as_str());
                    m.append(" ");
                    m.append(rt.as_str());
                    make_error(m)
                }
            }
        },
    }
}

/// Evaluates one expression. The outcome and the arena afterwards are
/// exactly what the mathematical evaluator prescribes; when the fuel runs
/// out, the outcome is the depth-limit error object.
#[verifier::loop_isolation(false)]
#[verifier::rlimit(60)]
pub fn eval_expr(e: &Expression, arena: &mut EnvArena, env: usize, fuel: u64) -> (r: Object)
    requires
        arena_wf(old(arena)@),
        env < old(arena)@.len(),
    ensures
        arena_wf(final(arena)@),
        old(arena)@.len() <= final(arena)@.len(),
        obj_wf(r@, final(arena)@.len() as int),
        ({
            let s = ev_expr(e@, env as int, old(arena)@, fuel as nat);
            match s {
                Some(res) => r@ == res.val && final(arena)@ == res.arena,
                None => r@ == ObjV::ErrV(depth_msg()),
            }
        }),
    decreases fuel, *e, 0int,
{
    match e {
        Expression::Identifier(id) => {
            proof {
                lemma_env_lookup_wf(arena@, env as int, id.value@);
            }
            match arena.get(env, &id.value) {
                Some(v) => v,
                None => match CoreFunc::try_new(id.value.clone()) {
                    Some(o) => o,
                    None => {
                        let mut m = String::from_str("identifier not found: ");
                        m.append(id.value.as_str());
                        make_error(m)
                    },
                },
            }
        },
        Expression::IntegerLiteral(il) => Object::Integer(Integer { value: il.value }),
        Expression::StringLiteral(sl) => Object::Stringl(Stringl { value: sl.value.clone() }),
        Expression::Boolean(b) => Object::Boolean(Boolean { value: b.value }),
        Expression::Prefix(p) => {
            let rv = eval_expr(&p.right, arena, env, fuel);
            if is_error(&rv) {
                rv
            } else {
                let out = eval_prefix_op(&p.operator, rv);
                proof {
                    lemma_obj_wf_mono(out@, 0, arena@.len() as int);
                }
                out
            }
        },
        Expression::Infix(ix) => {
            let lv = eval_expr(&ix.left, arena, env, fuel);
            if is_error(&lv) {
                lv
            } else {
                let rv = eval_expr(&ix.right, arena, env, fuel);
                if is_error(&rv) {
                    rv
                } else {
                    let out = eval_infix_op(&ix.operator, lv, rv);
                    proof {
                        lemma_obj_wf_mono(out@, 0, arena@.len() as int);
                    }
                    out
                }
            }
        },
        Expression::If(f) => {
            let cv = eval_expr(&f.condition, arena, env, fuel);
            if is_error(&cv) {
                cv
            } else if is_truthy(&cv) {
                proof {
                    assert(decreases_to!(*e => (*e)->If_0.consequence.statements@));
                }
                eval_block(&f.consequence.statements, arena, env, fuel)
            } else {
                match &f.alternative {
                    Some(b) => {
                        proof {
                            assert(decreases_to!(
                                *e => (*e)->If_0.alternative->0.statements@));
                        }
                        eval_block(&b.statements, arena, env, fuel)
                    },
                    None => Object::Nil(Nil {}),
                }
            }
        },
        Expression::FunctionLiteral(f) => {
            let mut params: Vec<crate::ast::Identifier> = Vec::new();
            let mut i: usize = 0;
            while i < f.parameters.len()
                invariant
                    0 <= i <= f.parameters.len(),
                    params@.len() == i,
                    forall|k: int|
                        0 <= k < i ==> params@[k].value@ == f.parameters@[k].value@,
                decreases f.parameters.len() - i,
            {
                params.push(f.parameters[i].clone());
                i = i + 1;
            }
            proof {
                assert(params@.map_values(|p: crate::ast::Identifier| p.value@)
                    =~= f.parameters@.map_values(|p: crate::ast::Identifier| p.value@));
            }
            let body = f.body.duplicate();
            Object::Function(crate::object::Function { parameters: params, body, env })
        },
        Expression::Call(c) => {
            let cv = eval_expr(&c.function, arena, env, fuel);
            let ghost len1 = arena@.len() as int;
            if is_error(&cv) {
                cv
            } else {
                proof {
                    assert(decreases_to!(*e => (*e)->Call_0.arguments@));
                    assert(c.arguments@.skip(0) =~= c.arguments@);
                    assert(view_exprs(c.arguments@).skip(0) =~= view_exprs(c.arguments@));
                }
                let args = eval_args_from(&c.arguments, 0, arena, env, fuel);
                match args {
                    Err(e2) => e2,
                    Ok(vals) => {
                        if fuel == 0 {
                            depth_error()
                        } else {
                            proof {
                                lemma_obj_wf_mono(cv@, len1, arena@.len() as int);
                            }
                            apply_function(cv, vals, arena, fuel - 1)
                        }
                    },
                }
            }
        },
        Expression::Array(a) => {
            proof {
                assert(decreases_to!(*e => (*e)->Array_0.elements@));
                assert(a.elements@.skip(0) =~= a.elements@);
                assert(view_exprs(a.elements@).skip(0) =~= view_exprs(a.elements@));
            }
            let vals = eval_args_from(&a.elements, 0, arena, env, fuel);
            match vals {
                Err(e2) => e2,
                Ok(vs) => {
                    proof {
                        lemma_view_objs_len(vs@);
                    }
                    Object::Array(Array { elements: vs })
                },
            }
        },
        Expression::Index(ixe) => {
            let lv = eval_expr(&ixe.left, arena, env, fuel);
            let ghost len1 = arena@.len() as int;
            if is_error(&lv) {
                lv
            } else {
                let iv = eval_expr(&ixe.index, arena, env, fuel);
                if is_error(&iv) {
                    iv
                } else {
                    proof {
                        lemma_obj_wf_mono(lv@, len1, arena@.len() as int);
                    }
                    eval_index_op(lv, iv, Ghost(arena@.len() as int))
                }
            }
        },
    }
}

/// Indexes an evaluated target with an evaluated index.
fn eval_index_op(l: Object, ix: Object, Ghost(n): Ghost<int>) -> (r: Object)
    requires
        obj_wf(l@, n),
    ensures
        r@ == spec_index_op(l@, ix@),
        obj_wf(r@, n),
{
    match (&l, &ix) {
        (Object::Array(a), Object::Integer(i)) => {
            proof {
                lemma_view_objs_len(a.elements@);
            }
            if i.value >= 0 && (i.value as usize) < a.elements.len() {
                a.elements[i.value as usize].duplicate()
            } else {
                Object::Nil(Nil {})
            }
        },
        (_, _) => {
            let mut m = String::from_str("index operator not supported: ");
            m.append(l.object_type().as_str());
            make_error(m)
        },
    }
}

/// Evaluates the expressions from position `i` on, left to right; the
/// first error stops the walk and is handed back alone.
#[verifier::rlimit(60)]
fn eval_args_from(
    es: &Vec<Expression>,
    i: usize,
    arena: &mut EnvArena,
    env: usize,
    fuel: u64,
) -> (r: Result<Vec<Object>, Object>)
    requires
        arena_wf(old(arena)@),
        env < old(arena)@.len(),
        i <= es@.len(),
    ensures
        arena_wf(final(arena)@),
        old(arena)@.len() <= final(arena)@.len(),
        ({
            let s = ev_args(
                view_exprs(es@).skip(i as int),
                env as int,
                old(arena)@,
                fuel as nat,
            );
            match (r, s) {
                (Ok(v), Some((Ok(vs), a2))) => view_objs(v@) == vs && final(arena)@ == a2 && (
                forall|j: int|
                    0 <= j < vs.len() ==> obj_wf(#[trigger] vs[j], final(arena)@.len() as int)),
                (Err(e2), Some((Err(se), a2))) => e2@ == se && final(arena)@ == a2 && obj_wf(
                    e2@,
                    final(arena)@.len() as int,
                ),
                (Err(e2), None) => e2@ == ObjV::ErrV(depth_msg()) && obj_wf(
                    e2@,
                    final(arena)@.len() as int,
                ),
                _ => false,
            }
        }),
    decreases fuel, es@.skip(i as int), 0int,
{
    let ghost ges = view_exprs(es@);
    proof {
        crate::ast::lemma_view_exprs_len(es@);
    }
    if i == es.len() {
        let r: Vec<Object> = Vec::new();
        proof {
            assert(ges.skip(i as int) =~= Seq::<ExprV>::empty());
            assert(view_objs(r@) =~= Seq::<ObjV>::empty());
        }
        return Ok(r);
    }
    proof {
        assert(ges.skip(i as int)[0] == ges[i as int]);
        assert(decreases_to!(es@.skip(i as int) => es@.skip(i as int)[0]));
        assert(es@.skip(i as int)[0] == es@[i as int]);
    }
    let v0 = eval_expr(&es[i], arena, env, fuel);
    let ghost len1 = arena@.len() as int;
    if is_error(&v0) {
        return Err(v0);
    }
    proof {
        assert(es@.skip(i + 1) =~= es@.skip(i as int).subrange(
            1,
            es@.skip(i as int).len() as int,
        ));
        assert(ges.skip(i + 1) =~= ges.skip(i as int).drop_first());
    }
    let rest = eval_args_from(es, i + 1, arena, env, fuel);
    match rest {
        Err(e2) => Err(e2),
        Ok(vs) => {
            let ghost restseq = vs@;
            let mut out: Vec<Object> = Vec::new();
            let ghost gv0 = v0@;
            out.push(v0);
            let mut tail = vs;
            out.append(&mut tail);
            proof {
                assert(out@ =~= seq![out@[0]] + restseq);
                lemma_view_objs_len(out@);
                lemma_view_objs_len(restseq);
                assert(view_objs(out@) =~= seq![gv0] + view_objs(restseq));
                lemma_obj_wf_mono(gv0, len1, arena@.len() as int);
            }
            Ok(out)
        },
    }
}

/// Evaluates a run of statements: a return sentinel or an error stops the
/// walk; otherwise the last statement's value, or nil when there is none.
#[verifier::loop_isolation(false)]
#[verifier::rlimit(60)]
pub fn eval_block(
    ss: &Vec<Statement>,
    arena: &mut EnvArena,
    env: usize,
    fuel: u64,
) -> (r: Object)
    requires
        arena_wf(old(arena)@),
        env < old(arena)@.len(),
    ensures
        arena_wf(final(arena)@),
        old(arena)@.len() <= final(arena)@.len(),
        obj_wf(r@, final(arena)@.len() as int),
        ({
            let s = ev_block(view_stmts_of(ss@), env as int, old(arena)@, fuel as nat);
            match s {
                Some(res) => r@ == res.val && final(arena)@ == res.arena,
                None => r@ == ObjV::ErrV(depth_msg()),
            }
        }),
    decreases fuel, ss@, 0int,
{
    let ghost gs = view_stmts_of(ss@);
    proof {
        crate::ast::lemma_view_stmts_len(ss@);
    }
    if ss.len() == 0 {
        return Object::Nil(Nil {});
    }
    let mut i: usize = 0;
    proof {
        assert(gs.skip(0) =~= gs);
    }
    loop
        invariant
            i < ss@.len(),
            arena_wf(arena@),
            old(arena)@.len() <= arena@.len(),
            env < arena@.len(),
            ev_block(gs, env as int, old(arena)@, fuel as nat) == ev_block(
                gs.skip(i as int),
                env as int,
                arena@,
                fuel as nat,
            ),
        decreases ss@.len() - i,
    {
        proof {
            assert(gs.skip(i as int)[0] == gs[i as int]);
        }
        let rv = eval_stmt(&ss[i], arena, env, fuel);
        let stop_ret = match &rv {
            Object::ReturnValue(..) => true,
            _ => false,
        };
        if stop_ret || is_error(&rv) || i == ss.len() - 1 {
            proof {
                if i < ss@.len() - 1 {
                    assert(gs.skip(i as int).len() > 1);
                } else {
                    assert(gs.skip(i as int).len() == 1);
                }
            }
            return rv;
        }
        proof {
            assert(gs.skip(i + 1) =~= gs.skip(i as int).drop_first());
        }
        i = i + 1;
    }
}

/// Evaluates one statement: `let` binds and yields nil, `return` wraps
/// its value in the sentinel, an expression statement yields its value.
#[verifier::rlimit(60)]
pub fn eval_stmt(s: &Statement, arena: &mut EnvArena, env: usize, fuel: u64) -> (r: Object)
    requires
        arena_wf(old(arena)@),
        env < old(arena)@.len(),
    ensures
        arena_wf(final(arena)@),
        old(arena)@.len() <= final(arena)@.len(),
        obj_wf(r@, final(arena)@.len() as int),
        ({
            let sres = ev_stmt(s@, env as int, old(arena)@, fuel as nat);
            match sres {
                Some(res) => r@ == res.val && final(arena)@ == res.arena,
                None => r@ == ObjV::ErrV(depth_msg()),
            }
        }),
    decreases fuel, *s, 0int,
{
    match s {
        Statement::Let(l) => {
            let rv = eval_expr(&l.value, arena, env, fuel);
            if is_error(&rv) {
                rv
            } else {
                arena.set(env, l.name.value.clone(), rv);
                Object::Nil(Nil {})
            }
        },
        Statement::Return(rs) => {
            let rv = eval_expr(&rs.return_value, arena, env, fuel);
            if is_error(&rv) {
                rv
            } else {
                Object::ReturnValue(Box::new(ReturnValue { value: rv }))
            }
        },
        Statement::Expr(es) => eval_expr(&es.expression, arena, env, fuel),
    }
}

/// Applies an evaluated callee to evaluated arguments: a user function
/// gets a fresh environment binding its parameters and its body
/// evaluated, with the return sentinel unwrapped; a built-in goes through
/// the registry; any other value is no function.
#[verifier::loop_isolation(false)]
#[verifier::rlimit(60)]
pub fn apply_function(
    callee: Object,
    args: Vec<Object>,
    arena: &mut EnvArena,
    fuel: u64,
) -> (r: Object)
    requires
        arena_wf(old(arena)@),
        obj_wf(callee@, old(arena)@.len() as int),
        forall|j: int|
            0 <= j < view_objs(args@).len() ==> obj_wf(
                #[trigger] view_objs(args@)[j],
                old(arena)@.len() as int,
            ),
    ensures
        arena_wf(final(arena)@),
        old(arena)@.len() <= final(arena)@.len(),
        obj_wf(r@, final(arena)@.len() as int),
        ({
            let s = ev_apply(callee@, view_objs(args@), old(arena)@, fuel as nat);
            match s {
                Some(res) => r@ == res.val && final(arena)@ == res.arena,
                None => r@ == ObjV::ErrV(depth_msg()),
            }
        }),
    decreases fuel, callee->Function_0.body.statements@, 1int,
{
    proof {
        lemma_view_objs_len(args@);
    }
    match &callee {
        Object::Function(f) => {
            if args.len() != f.parameters.len() {
                let mut m = String::from_str("wrong number of arguments: got=");
                m.append(u64_to_string(args.len() as u64).as_str());
                m.append(", expected=");
                m.append(u64_to_string(f.parameters.len() as u64).as_str());
                return make_error(m);
            }
            let ghost olda = arena@;
            let ghost gparams = f.parameters@.map_values(
                |p: crate::ast::Identifier| p.value@,
            );
            let ghost gargs = view_objs(args@);
            let env2 = arena.new_enclosed_environment(f.env);
            let mut i: usize = 0;
            proof {
                assert(Seq::new(0nat, |j: int| (gparams[j], gargs[j]))
                    =~= Seq::<(Seq<char>, ObjV)>::empty());
                assert(arena@ =~~= olda.push(
                    FrameV {
                        bindings: Seq::new(0nat, |j: int| (gparams[j], gargs[j])),
                        parent: Some(f.env as int),
                    },
                ));
            }
            while i < args.len()
                invariant
                    0 <= i <= args.len(),
                    args.len() == f.parameters.len(),
                    arena_wf(arena@),
                    arena@ =~~= olda.push(
                        FrameV {
                            bindings: Seq::new(i as nat, |j: int| (gparams[j], gargs[j])),
                            parent: Some(f.env as int),
                        },
                    ),
                decreases args.len() - i,
            {
                let name = f.parameters[i].value.clone();
                let v = args[i].duplicate();
                proof {
                    lemma_view_objs_len(args@);
                    assert(obj_wf(view_objs(args@)[i as int], olda.len() as int));
                    assert(view_objs(args@)[i as int] == v@);
                    lemma_obj_wf_mono(v@, olda.len() as int, arena@.len() as int);
                }
                arena.set(env2, name, v);
                proof {
                    assert(arena@ =~~= olda.push(
                        FrameV {
                            bindings: Seq::new((i + 1) as nat, |j: int| (gparams[j], gargs[j])),
                            parent: Some(f.env as int),
                        },
                    ));
                }
                i = i + 1;
            }
            proof {
                assert(arena@ =~~= olda.push(call_frame(gparams, gargs, f.env as int)));
            }
            let rv = eval_block(&f.body.statements, arena, env2, fuel);
            match rv {
                Object::ReturnValue(b) => {
                    let inner = *b;
                    inner.value
                },
                other => other,
            }
        },
        Object::CoreFunc(c) => {
            let out = c.call(args);
            proof {
                lemma_builtin_call_wf(c.function_name@, view_objs(args@), arena@.len() as int);
            }
            out
        },
        _ => {
            let mut m = String::from_str("not a function: ");
            m.append(callee.object_type().as_str());
            make_error(m)
        },
    }
}

/// Evaluates a program's statements in order in the given environment,
/// unwrapping the return sentinel at the end: the program's value is the
/// last statement's value, nil with no statements, the wrapped value
/// after a `return`, or the first error raised.
pub fn eval_statements(
    statements: Vec<Statement>,
    arena: &mut EnvArena,
    env: usize,
) -> (r: Object)
    requires
        arena_wf(old(arena)@),
        env < old(arena)@.len(),
    ensures
        arena_wf(final(arena)@),
        old(arena)@.len() <= final(arena)@.len(),
        obj_wf(r@, final(arena)@.len() as int),
        ({
            let s = ev_program(view_stmts_of(statements@), env as int, old(arena)@, eval_fuel());
            match s {
                Some(res) => r@ == res.val && final(arena)@ == res.arena,
                None => r@ == ObjV::ErrV(depth_msg()),
            }
        }),
{
    let rv = eval_block(&statements, arena, env, u64::MAX);
    match rv {
        Object::ReturnValue(b) => {
            let inner = *b;
            inner.value
        },
        other => other,
    }
}

/// Evaluates a wrapped node — a whole program, one statement or one
/// expression — in the given environment of the arena.
pub fn eval(node: WrappedNode, arena: &mut EnvArena, env: usize) -> (r: Object)
    requires
        arena_wf(old(arena)@),
        env < old(arena)@.len(),
    ensures
        arena_wf(final(arena)@),
        old(arena)@.len() <= final(arena)@.len(),
        obj_wf(r@, final(arena)@.len() as int),
        ({
            let s = ev_node(node@, env as int, old(arena)@, eval_fuel());
            match s {
                Some(res) => r@ == res.val && final(arena)@ == res.arena,
                None => r@ == ObjV::ErrV(depth_msg()),
            }
        }),
{
    match node {
        WrappedNode::P(p) => eval_statements(p.statements, arena, env),
        WrappedNode::S(s) => eval_stmt(&s, arena, env, u64::MAX),
        WrappedNode::E(e) => eval_expr(&e, arena, env, u64::MAX),
    }
}

} // verus!
