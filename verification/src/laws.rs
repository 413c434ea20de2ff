//! General laws of the interpreter, stated over the mathematical parser
//! and evaluator and proved once for all inputs.

use vstd::prelude::*;

use crate::ast::ExprV;
use crate::builtins::{
    spec_builtin_arity, spec_builtin_call, spec_length, spec_push, spec_wrong_args_msg,
};
use crate::env::FrameV;
use crate::evaluator::{ev_expr, is_err, spec_int_op, ERes};
use crate::object::ObjV;

verus! {

/// Rust's truncating integer division: the quotient of the magnitudes,
/// carrying the sign of the operands.
pub open spec fn trunc_div(x: int, d: int) -> int {
    if x == 0 {
        0
    } else if x > 0 && d > 0 {
        x / d
    } else if x < 0 && d < 0 {
        (x * -1) / (d * -1)
    } else if x < 0 {
        ((x * -1) / d) * -1
    } else {
        (x / (d * -1)) * -1
    }
}

/// Evaluating an integer literal yields exactly that integer, in any
/// environment, and changes nothing.
pub proof fn lemma_eval_integer_literal(n: i32, env: int, a: Seq<FrameV>, fuel: nat)
    ensures
        ev_expr(ExprV::Int(n), env, a, fuel) == Some(ERes { val: ObjV::Int(n), arena: a }),
{
}

/// Evaluating `a OP b` on integer literals yields exactly the integer
/// `a OP b` for the four arithmetic operators, whenever the result fits a
/// signed 32-bit value; division truncates toward zero.
pub proof fn lemma_eval_integer_infix(op: Seq<char>, x: i32, y: i32, env: int, a: Seq<FrameV>, fuel: nat)
    ensures
        ev_expr(
            ExprV::Infix {
                op,
                left: Box::new(ExprV::Int(x)),
                right: Box::new(ExprV::Int(y)),
            },
            env,
            a,
            fuel,
        ) == Some(ERes { val: spec_int_op(op, x, y), arena: a }),
        op == "+"@ && i32::MIN <= x + y <= i32::MAX ==> spec_int_op(op, x, y) == ObjV::Int(
            (x + y) as i32,
        ),
        op == "-"@ && i32::MIN <= x - y <= i32::MAX ==> spec_int_op(op, x, y) == ObjV::Int(
            (x - y) as i32,
        ),
        op == "*"@ && i32::MIN <= x * y <= i32::MAX ==> spec_int_op(op, x, y) == ObjV::Int(
            (x * y) as i32,
        ),
        op == "/"@ && y != 0 && !(x == i32::MIN && y == -1) ==> spec_int_op(op, x, y)
            == ObjV::Int(trunc_div(x as int, y as int) as i32),
{
    reveal_strlit("+");
    reveal_strlit("-");
    reveal_strlit("*");
    reveal_strlit("/");
    assert("+"@[0] == '+');
    assert("-"@[0] == '-');
    assert("*"@[0] == '*');
    assert("/"@[0] == '/');
    assert("+"@ != "-"@ && "+"@ != "*"@ && "+"@ != "/"@);
    assert("-"@ != "*"@ && "-"@ != "/"@ && "*"@ != "/"@);
    assert(ev_expr(ExprV::Int(x), env, a, fuel) == Some(
        ERes { val: ObjV::Int(x), arena: a },
    ));
    assert(ev_expr(ExprV::Int(y), env, a, fuel) == Some(
        ERes { val: ObjV::Int(y), arena: a },
    ));
    if op == "/"@ && y != 0 && !(x == i32::MIN && y == -1) {
        let xi = x as int;
        let yi = y as int;
        assert(i32::MIN <= trunc_div(xi, yi) <= i32::MAX) by {
            lemma_trunc_div_bounds(xi, yi);
        }
    }
}

/// The magnitude of a truncating quotient never exceeds the magnitude of
/// the dividend.
proof fn lemma_trunc_div_bounds(x: int, d: int)
    requires
        -0x8000_0000 <= x <= 0x7fff_ffff,
        d != 0,
        !(x == -0x8000_0000 && d == -1),
    ensures
        -0x8000_0000 <= trunc_div(x, d) <= 0x7fff_ffff,
{
    if x == 0 {
    } else if x > 0 && d > 0 {
        vstd::arithmetic::div_mod::lemma_div_is_ordered_by_denominator(x, 1, d);
        vstd::arithmetic::div_mod::lemma_div_basics(x);
        assert(x / d >= 0) by {
            vstd::arithmetic::div_mod::lemma_div_pos_is_pos(x, d);
        }
    } else if x < 0 && d < 0 {
        let p = x * -1;
        let q = d * -1;
        assert(p > 0 && q > 0);
        vstd::arithmetic::div_mod::lemma_div_is_ordered_by_denominator(p, 1, q);
        vstd::arithmetic::div_mod::lemma_div_basics(p);
        assert(p / q >= 0) by {
            vstd::arithmetic::div_mod::lemma_div_pos_is_pos(p, q);
        }
        if x == -0x8000_0000 {
            assert(d <= -2);
            assert(q >= 2);
            assert(p / q <= p / 2) by {
                vstd::arithmetic::div_mod::lemma_div_is_ordered_by_denominator(p, 2, q);
            }
            assert(p / 2 == 0x4000_0000);
        }
    } else if x < 0 {
        let p = x * -1;
        assert(p > 0 && d > 0);
        vstd::arithmetic::div_mod::lemma_div_is_ordered_by_denominator(p, 1, d);
        vstd::arithmetic::div_mod::lemma_div_basics(p);
        assert(p / d >= 0) by {
            vstd::arithmetic::div_mod::lemma_div_pos_is_pos(p, d);
        }
    } else {
        let q = d * -1;
        assert(x > 0 && q > 0);
        vstd::arithmetic::div_mod::lemma_div_is_ordered_by_denominator(x, 1, q);
        vstd::arithmetic::div_mod::lemma_div_basics(x);
        assert(x / q >= 0) by {
            vstd::arithmetic::div_mod::lemma_div_pos_is_pos(x, q);
        }
    }
}

/// Error short-circuit: when the left operand of any infix expression
/// evaluates to an error, the whole expression evaluates to exactly that
/// error, and the right operand is never reached.
pub proof fn lemma_error_short_circuit(
    op: Seq<char>,
    left: ExprV,
    right: ExprV,
    env: int,
    a: Seq<FrameV>,
    fuel: nat,
)
    requires
        match ev_expr(left, env, a, fuel) {
            Some(r) => is_err(r.val),
            None => false,
        },
    ensures
        ev_expr(
            ExprV::Infix { op, left: Box::new(left), right: Box::new(right) },
            env,
            a,
            fuel,
        ) == ev_expr(left, env, a, fuel),
{
}

/// Arity checking: a registry call with the wrong number of arguments
/// answers exactly the arity diagnostic, whatever the arguments are.
pub proof fn lemma_builtin_arity(name: Seq<char>, args: Seq<ObjV>, arity: u8)
    requires
        spec_builtin_arity(name) == Some(arity),
        args.len() != arity,
    ensures
        spec_builtin_call(name, args) == ObjV::ErrV(
            spec_wrong_args_msg(args.len() as int, arity as int),
        ),
{
}

/// Immutability of `push`: pushing onto an array yields a fresh array
/// with the element appended — one element longer — while the array
/// pushed onto still measures its old length.
pub proof fn lemma_push_immutable(es: Seq<ObjV>, v: ObjV)
    ensures
        spec_push(ObjV::Arr(es), v) == ObjV::Arr(es.push(v)),
        spec_length(ObjV::Arr(es)) == ObjV::Int(es.len() as i32),
        spec_length(spec_push(ObjV::Arr(es), v)) == ObjV::Int((es.len() + 1) as i32),
{
    assert(es.push(v).len() == es.len() + 1);
}

/// Closure capture: a function literal evaluates to a function value that
/// captures exactly the environment active at its literal, and changes
/// nothing.
pub proof fn lemma_closure_captures_environment(
    params: Seq<Seq<char>>,
    body: Seq<crate::ast::StmtV>,
    env: int,
    a: Seq<FrameV>,
    fuel: nat,
)
    ensures
        ev_expr(ExprV::Fn { params, body }, env, a, fuel) == Some(
            ERes { val: ObjV::Func { params, body, env }, arena: a },
        ),
{
}

/// Calling a function value evaluates its body in a fresh frame that
/// binds each parameter to its argument and encloses the captured
/// environment — not the caller's.
pub proof fn lemma_apply_uses_captured_env(
    params: Seq<Seq<char>>,
    body: Seq<crate::ast::StmtV>,
    env: int,
    args: Seq<ObjV>,
    a: Seq<FrameV>,
    fuel: nat,
)
    requires
        args.len() == params.len(),
    ensures
        crate::evaluator::ev_apply(ObjV::Func { params, body, env }, args, a, fuel) == (
        match crate::evaluator::ev_block(
            body,
            a.len() as int,
            a.push(crate::evaluator::call_frame(params, args, env)),
            fuel,
        ) {
            None => None,
            Some(r) => Some(ERes { val: crate::evaluator::unwrap_ret(r.val), arena: r.arena }),
        }),
{
}

/// Decimal text round-trips: printing an integer literal and parsing the
/// digits back yields the value again.
pub proof fn lemma_integer_literal_round_trip(n: i32)
    requires
        n >= 0,
    ensures
        crate::numtext::spec_parse_i32(crate::numtext::spec_udec(n as int)) == Some(n),
{
    crate::numtext::lemma_udec_round_trip(n as int);
}

} // verus!
