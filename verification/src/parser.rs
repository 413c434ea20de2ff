//! The Pratt parser: turns the lexer's token stream into a `Program`,
//! collecting error messages rather than stopping at the first fault.
//! Every parsing function is proved to compute exactly what the
//! mathematical parser (`sp_program` and friends) prescribes; the
//! mathematical parser carries a fuel that the executable parser seeds so
//! high that it never runs out in practice.

use vstd::prelude::*;
use vstd::string::*;

use crate::ast::{
    view_expr, view_stmt, ArrayLiteral, BlockStatement, BooleanLiteral, CallExpression,
    Expression, ExprV, ExpressionStatement, FunctionLiteral, Identifier, IfExpression,
    IndexExpression, InfixExpression, IntegerLiteral, LetStatement, PrefixExpression, Program,
    ReturnStatement, Statement, StmtV, StringLiteral,
};
use crate::lexer::Lexer;
use crate::numtext::{parse_i32_str, spec_parse_i32};
use crate::token::{
    kind_name, precedence_by_token_type, spec_kind_name, spec_precedence, Token, TokenKind,
    TokenV, LOWEST, PREFIX,
};

verus! {

/// Outcome of one mathematical parsing step: the parsed value when the
/// step succeeded, the position of the token the step ended on, and the
/// error messages it recorded.
#[verifier::ext_equal]
pub struct PRes<T> {
    pub val: Option<T>,
    pub pos: int,
    pub errs: Seq<Seq<char>>,
}

/// Outcome of parsing a run of statements: the statements parsed, the
/// ending position, and the error messages recorded.
#[verifier::ext_equal]
pub struct BRes {
    pub stmts: Seq<StmtV>,
    pub pos: int,
    pub errs: Seq<Seq<char>>,
}

/// The token at a position; past the end it reads as end-of-input, which
/// the lexer emits indefinitely.
pub open spec fn tok_at(toks: Seq<TokenV>, pos: int) -> TokenV {
    if 0 <= pos < toks.len() {
        toks[pos]
    } else {
        TokenV { kind: TokenKind::Eof, literal: Seq::empty() }
    }
}

/// One step forward, stopping at the last token.
pub open spec fn next_pos(toks: Seq<TokenV>, pos: int) -> int {
    if pos + 1 < toks.len() {
        pos + 1
    } else {
        pos
    }
}

/// The diagnostic for a token with no prefix rule.
pub open spec fn no_prefix_msg(k: TokenKind) -> Seq<char> {
    "no prefix parser found for "@ + spec_kind_name(k) + " token"@
}

/// The diagnostic for an unexpected next token.
pub open spec fn peek_err_msg(expected: TokenKind, got: TokenKind) -> Seq<char> {
    "expected next token to be "@ + spec_kind_name(expected) + ", got "@ + spec_kind_name(got)
        + " instead"@
}

/// The diagnostic for an integer literal that does not fit a signed
/// 32-bit value.
pub open spec fn int_lit_msg(lit: Seq<char>) -> Seq<char> {
    "could not parse "@ + lit + " as integer"@
}

/// True of the token kinds registered with an infix rule.
pub open spec fn has_infix_rule(k: TokenKind) -> bool {
    match k {
        TokenKind::Plus | TokenKind::Minus | TokenKind::Slash | TokenKind::Asterisk
            | TokenKind::EqEq | TokenKind::NotEq | TokenKind::Lt | TokenKind::Gt
            | TokenKind::LParen | TokenKind::LBracket => true,
        _ => false,
    }
}

/// The Pratt core: dispatch on the current token's prefix rule, then fold
/// infix rules while the peek token binds tighter than `prec`.
pub open spec fn sp_expression(toks: Seq<TokenV>, pos: int, prec: u8, fuel: nat) -> PRes<ExprV>
    decreases fuel,
{
    if fuel == 0 {
        PRes { val: None, pos, errs: Seq::empty() }
    } else {
        let k = tok_at(toks, pos).kind;
        let head: PRes<ExprV> = match k {
            TokenKind::Ident => PRes {
                val: Some(ExprV::Ident(tok_at(toks, pos).literal)),
                pos,
                errs: Seq::empty(),
            },
            TokenKind::Int => match spec_parse_i32(tok_at(toks, pos).literal) {
                Some(v) => PRes { val: Some(ExprV::Int(v)), pos, errs: Seq::empty() },
                None => PRes {
                    val: None,
                    pos,
                    errs: seq![int_lit_msg(tok_at(toks, pos).literal)],
                },
            },
            TokenKind::Str => PRes {
                val: Some(ExprV::Str(tok_at(toks, pos).literal)),
                pos,
                errs: Seq::empty(),
            },
            TokenKind::True => PRes { val: Some(ExprV::Bool(true)), pos, errs: Seq::empty() },
            TokenKind::False => PRes { val: Some(ExprV::Bool(false)), pos, errs: Seq::empty() },
            TokenKind::Bang => sp_prefix_expression(toks, pos, (fuel - 1) as nat),
            TokenKind::Minus => sp_prefix_expression(toks, pos, (fuel - 1) as nat),
            TokenKind::LParen => sp_grouped(toks, pos, (fuel - 1) as nat),
            TokenKind::If => sp_if(toks, pos, (fuel - 1) as nat),
            TokenKind::Function => sp_function_literal(toks, pos, (fuel - 1) as nat),
            TokenKind::LBracket => sp_array(toks, pos, (fuel - 1) as nat),
            _ => PRes { val: None, pos, errs: seq![no_prefix_msg(k)] },
        };
        match head.val {
            None => head,
            Some(left) => {
                let folded = sp_infix_loop(toks, head.pos, prec, left, (fuel - 1) as nat);
                PRes { val: folded.val, pos: folded.pos, errs: head.errs + folded.errs }
            },
        }
    }
}

/// The infix loop of the Pratt core, written as recursion: while the peek
/// token is no semicolon and binds tighter than `prec`, apply its infix
/// rule to the expression so far.
pub open spec fn sp_infix_loop(
    toks: Seq<TokenV>,
    pos: int,
    prec: u8,
    left: ExprV,
    fuel: nat,
) -> PRes<ExprV>
    decreases fuel,
{
    if fuel == 0 {
        PRes { val: Some(left), pos, errs: Seq::empty() }
    } else {
        let pk = tok_at(toks, pos + 1).kind;
        if pk != TokenKind::Semicolon && prec < spec_precedence(pk) && has_infix_rule(pk) {
            let opos = next_pos(toks, pos);
            let step: PRes<ExprV> = match pk {
                TokenKind::LParen => sp_call(toks, opos, left, (fuel - 1) as nat),
                TokenKind::LBracket => sp_index(toks, opos, left, (fuel - 1) as nat),
                _ => sp_infix_expression(toks, opos, left, (fuel - 1) as nat),
            };
            match step.val {
                None => step,
                Some(l2) => {
                    let rest = sp_infix_loop(toks, step.pos, prec, l2, (fuel - 1) as nat);
                    PRes { val: rest.val, pos: rest.pos, errs: step.errs + rest.errs }
                },
            }
        } else {
            PRes { val: Some(left), pos, errs: Seq::empty() }
        }
    }
}

/// A prefix operator: capture it, step past it, parse the operand at
/// `PREFIX` binding power.
pub open spec fn sp_prefix_expression(toks: Seq<TokenV>, pos: int, fuel: nat) -> PRes<ExprV>
    decreases fuel,
{
    if fuel == 0 {
        PRes { val: None, pos, errs: Seq::empty() }
    } else {
        let op = tok_at(toks, pos).literal;
        let sub = sp_expression(toks, next_pos(toks, pos), PREFIX, (fuel - 1) as nat);
        match sub.val {
            None => PRes { val: None, pos: sub.pos, errs: sub.errs },
            Some(right) => PRes {
                val: Some(ExprV::Prefix { op, right: Box::new(right) }),
                pos: sub.pos,
                errs: sub.errs,
            },
        }
    }
}

/// An infix operator: capture it and its binding power, step past it,
/// parse the right operand at that power.
pub open spec fn sp_infix_expression(
    toks: Seq<TokenV>,
    pos: int,
    left: ExprV,
    fuel: nat,
) -> PRes<ExprV>
    decreases fuel,
{
    if fuel == 0 {
        PRes { val: None, pos, errs: Seq::empty() }
    } else {
        let op = tok_at(toks, pos).literal;
        let prec = spec_precedence(tok_at(toks, pos).kind);
        let sub = sp_expression(toks, next_pos(toks, pos), prec, (fuel - 1) as nat);
        match sub.val {
            None => PRes { val: None, pos: sub.pos, errs: sub.errs },
            Some(right) => PRes {
                val: Some(
                    ExprV::Infix { op, left: Box::new(left), right: Box::new(right) },
                ),
                pos: sub.pos,
                errs: sub.errs,
            },
        }
    }
}

/// A parenthesised expression: step past `(`, parse at `LOWEST`, demand
/// the closing `)`.
pub open spec fn sp_grouped(toks: Seq<TokenV>, pos: int, fuel: nat) -> PRes<ExprV>
    decreases fuel,
{
    if fuel == 0 {
        PRes { val: None, pos, errs: Seq::empty() }
    } else {
        let sub = sp_expression(toks, next_pos(toks, pos), LOWEST, (fuel - 1) as nat);
        match sub.val {
            None => PRes { val: None, pos: sub.pos, errs: sub.errs },
            Some(e) => {
                let pk = tok_at(toks, sub.pos + 1).kind;
                if pk == TokenKind::RParen {
                    PRes { val: Some(e), pos: next_pos(toks, sub.pos), errs: sub.errs }
                } else {
                    PRes {
                        val: None,
                        pos: sub.pos,
                        errs: sub.errs + seq![peek_err_msg(TokenKind::RParen, pk)],
                    }
                }
            },
        }
    }
}

/// The run of statements between `{` and `}`: step past `{`, then collect
/// statements until `}` or end of input.
pub open spec fn sp_block(toks: Seq<TokenV>, pos: int, fuel: nat) -> BRes
    decreases fuel,
{
    if fuel == 0 {
        BRes { stmts: Seq::empty(), pos, errs: Seq::empty() }
    } else {
        sp_block_loop(toks, next_pos(toks, pos), (fuel - 1) as nat)
    }
}

/// The statement-collecting loop shared by blocks: stop at `}` or end of
/// input; a failed statement contributes nothing but its errors.
pub open spec fn sp_block_loop(toks: Seq<TokenV>, pos: int, fuel: nat) -> BRes
    decreases fuel,
{
    if fuel == 0 {
        BRes { stmts: Seq::empty(), pos, errs: Seq::empty() }
    } else {
        let k = tok_at(toks, pos).kind;
        if k == TokenKind::RBrace || k == TokenKind::Eof {
            BRes { stmts: Seq::empty(), pos, errs: Seq::empty() }
        } else {
            let s = sp_statement(toks, pos, (fuel - 1) as nat);
            let rest = sp_block_loop(toks, next_pos(toks, s.pos), (fuel - 1) as nat);
            let own: Seq<StmtV> = match s.val {
                Some(st) => seq![st],
                None => Seq::empty(),
            };
            BRes { stmts: own + rest.stmts, pos: rest.pos, errs: s.errs + rest.errs }
        }
    }
}

/// An `if` expression: `(cond)`, a consequence block, and optionally
/// `else` with an alternative block.
pub open spec fn sp_if(toks: Seq<TokenV>, pos: int, fuel: nat) -> PRes<ExprV>
    decreases fuel,
{
    if fuel == 0 {
        PRes { val: None, pos, errs: Seq::empty() }
    } else {
        let pk1 = tok_at(toks, pos + 1).kind;
        if pk1 != TokenKind::LParen {
            PRes { val: None, pos, errs: seq![peek_err_msg(TokenKind::LParen, pk1)] }
        } else {
            let cstart = next_pos(toks, next_pos(toks, pos));
            let cond = sp_expression(toks, cstart, LOWEST, (fuel - 1) as nat);
            match cond.val {
                None => PRes { val: None, pos: cond.pos, errs: cond.errs },
                Some(c) => {
                    let pk2 = tok_at(toks, cond.pos + 1).kind;
                    if pk2 != TokenKind::RParen {
                        PRes {
                            val: None,
                            pos: cond.pos,
                            errs: cond.errs + seq![peek_err_msg(TokenKind::RParen, pk2)],
                        }
                    } else {
                        let p3 = next_pos(toks, cond.pos);
                        let pk3 = tok_at(toks, p3 + 1).kind;
                        if pk3 != TokenKind::LBrace {
                            PRes {
                                val: None,
                                pos: p3,
                                errs: cond.errs + seq![peek_err_msg(TokenKind::LBrace, pk3)],
                            }
                        } else {
                            let cons = sp_block(toks, next_pos(toks, p3), (fuel - 1) as nat);
                            let pk4 = tok_at(toks, cons.pos + 1).kind;
                            if pk4 == TokenKind::Else {
                                let p5 = next_pos(toks, cons.pos);
                                let pk5 = tok_at(toks, p5 + 1).kind;
                                if pk5 != TokenKind::LBrace {
                                    PRes {
                                        val: None,
                                        pos: p5,
                                        errs: cond.errs + cons.errs + seq![
                                            peek_err_msg(TokenKind::LBrace, pk5),
                                        ],
                                    }
                                } else {
                                    let alt = sp_block(
                                        toks,
                                        next_pos(toks, p5),
                                        (fuel - 1) as nat,
                                    );
                                    PRes {
                                        val: Some(
                                            ExprV::If {
                                                cond: Box::new(c),
                                                cons: cons.stmts,
                                                alt: Some(alt.stmts),
                                            },
                                        ),
                                        pos: alt.pos,
                                        errs: cond.errs + cons.errs + alt.errs,
                                    }
                                }
                            } else {
                                PRes {
                                    val: Some(
                                        ExprV::If {
                                            cond: Box::new(c),
                                            cons: cons.stmts,
                                            alt: None,
                                        },
                                    ),
                                    pos: cons.pos,
                                    errs: cond.errs + cons.errs,
                                }
                            }
                        }
                    }
                },
            }
        }
    }
}

/// The comma-separated parameter names of a function literal, ending just
/// before the closing parenthesis.
pub open spec fn sp_params(toks: Seq<TokenV>, pos: int, fuel: nat) -> PRes<Seq<Seq<char>>>
    decreases fuel,
{
    if fuel == 0 {
        PRes { val: None, pos, errs: Seq::empty() }
    } else {
        let t = tok_at(toks, pos);
        if t.kind != TokenKind::Ident {
            PRes { val: None, pos, errs: seq![peek_err_msg(TokenKind::Ident, t.kind)] }
        } else if tok_at(toks, pos + 1).kind == TokenKind::Comma {
            let rest = sp_params(
                toks,
                next_pos(toks, next_pos(toks, pos)),
                (fuel - 1) as nat,
            );
            match rest.val {
                None => rest,
                Some(ns) => PRes {
                    val: Some(seq![t.literal] + ns),
                    pos: rest.pos,
                    errs: rest.errs,
                },
            }
        } else {
            PRes { val: Some(seq![t.literal]), pos, errs: Seq::empty() }
        }
    }
}

/// A function literal: `fn`, a parenthesised parameter list, and a body
/// block.
pub open spec fn sp_function_literal(toks: Seq<TokenV>, pos: int, fuel: nat) -> PRes<ExprV>
    decreases fuel,
{
    if fuel == 0 {
        PRes { val: None, pos, errs: Seq::empty() }
    } else {
        let pk1 = tok_at(toks, pos + 1).kind;
        if pk1 != TokenKind::LParen {
            PRes { val: None, pos, errs: seq![peek_err_msg(TokenKind::LParen, pk1)] }
        } else {
            let p1 = next_pos(toks, pos);
            let params: PRes<Seq<Seq<char>>> = if tok_at(toks, p1 + 1).kind
                == TokenKind::RParen {
                PRes { val: Some(Seq::empty()), pos: next_pos(toks, p1), errs: Seq::empty() }
            } else {
                let ps = sp_params(toks, next_pos(toks, p1), (fuel - 1) as nat);
                match ps.val {
                    None => ps,
                    Some(ns) => {
                        let pk2 = tok_at(toks, ps.pos + 1).kind;
                        if pk2 != TokenKind::RParen {
                            PRes {
                                val: None,
                                pos: ps.pos,
                                errs: ps.errs + seq![peek_err_msg(TokenKind::RParen, pk2)],
                            }
                        } else {
                            PRes { val: Some(ns), pos: next_pos(toks, ps.pos), errs: ps.errs }
                        }
                    },
                }
            };
            match params.val {
                None => PRes { val: None, pos: params.pos, errs: params.errs },
                Some(ns) => {
                    let pk3 = tok_at(toks, params.pos + 1).kind;
                    if pk3 != TokenKind::LBrace {
                        PRes {
                            val: None,
                            pos: params.pos,
                            errs: params.errs + seq![peek_err_msg(TokenKind::LBrace, pk3)],
                        }
                    } else {
                        let body = sp_block(
                            toks,
                            next_pos(toks, params.pos),
                            (fuel - 1) as nat,
                        );
                        PRes {
                            val: Some(ExprV::Fn { params: ns, body: body.stmts }),
                            pos: body.pos,
                            errs: params.errs + body.errs,
                        }
                    }
                },
            }
        }
    }
}

/// A comma-separated expression list, consuming the terminating token.
pub open spec fn sp_expr_list(
    toks: Seq<TokenV>,
    pos: int,
    endk: TokenKind,
    fuel: nat,
) -> PRes<Seq<ExprV>>
    decreases fuel,
{
    if fuel == 0 {
        PRes { val: None, pos, errs: Seq::empty() }
    } else {
        let e = sp_expression(toks, pos, LOWEST, (fuel - 1) as nat);
        match e.val {
            None => PRes { val: None, pos: e.pos, errs: e.errs },
            Some(ev) => {
                let pk = tok_at(toks, e.pos + 1).kind;
                if pk == TokenKind::Comma {
                    let rest = sp_expr_list(
                        toks,
                        next_pos(toks, next_pos(toks, e.pos)),
                        endk,
                        (fuel - 1) as nat,
                    );
                    match rest.val {
                        None => PRes { val: None, pos: rest.pos, errs: e.errs + rest.errs },
                        Some(es) => PRes {
                            val: Some(seq![ev] + es),
                            pos: rest.pos,
                            errs: e.errs + rest.errs,
                        },
                    }
                } else if pk == endk {
                    PRes { val: Some(seq![ev]), pos: next_pos(toks, e.pos), errs: e.errs }
                } else {
                    PRes {
                        val: None,
                        pos: e.pos,
                        errs: e.errs + seq![peek_err_msg(endk, pk)],
                    }
                }
            },
        }
    }
}

/// A call: the callee is the expression so far; the arguments stand
/// between `(` and `)`.
pub open spec fn sp_call(toks: Seq<TokenV>, pos: int, left: ExprV, fuel: nat) -> PRes<ExprV>
    decreases fuel,
{
    if fuel == 0 {
        PRes { val: None, pos, errs: Seq::empty() }
    } else if tok_at(toks, pos + 1).kind == TokenKind::RParen {
        PRes {
            val: Some(ExprV::Call { callee: Box::new(left), args: Seq::empty() }),
            pos: next_pos(toks, pos),
            errs: Seq::empty(),
        }
    } else {
        let args = sp_expr_list(toks, next_pos(toks, pos), TokenKind::RParen, (fuel - 1) as nat);
        match args.val {
            None => PRes { val: None, pos: args.pos, errs: args.errs },
            Some(es) => PRes {
                val: Some(ExprV::Call { callee: Box::new(left), args: es }),
                pos: args.pos,
                errs: args.errs,
            },
        }
    }
}

/// An array literal: elements between `[` and `]`.
pub open spec fn sp_array(toks: Seq<TokenV>, pos: int, fuel: nat) -> PRes<ExprV>
    decreases fuel,
{
    if fuel == 0 {
        PRes { val: None, pos, errs: Seq::empty() }
    } else if tok_at(toks, pos + 1).kind == TokenKind::RBracket {
        PRes { val: Some(ExprV::Arr(Seq::empty())), pos: next_pos(toks, pos), errs: Seq::empty() }
    } else {
        let els = sp_expr_list(
            toks,
            next_pos(toks, pos),
            TokenKind::RBracket,
            (fuel - 1) as nat,
        );
        match els.val {
            None => PRes { val: None, pos: els.pos, errs: els.errs },
            Some(es) => PRes { val: Some(ExprV::Arr(es)), pos: els.pos, errs: els.errs },
        }
    }
}

/// An index expression: step past `[`, parse the index at `LOWEST`,
/// demand the closing `]`.
pub open spec fn sp_index(toks: Seq<TokenV>, pos: int, left: ExprV, fuel: nat) -> PRes<ExprV>
    decreases fuel,
{
    if fuel == 0 {
        PRes { val: None, pos, errs: Seq::empty() }
    } else {
        let sub = sp_expression(toks, next_pos(toks, pos), LOWEST, (fuel - 1) as nat);
        match sub.val {
            None => PRes { val: None, pos: sub.pos, errs: sub.errs },
            Some(ix) => {
                let pk = tok_at(toks, sub.pos + 1).kind;
                if pk == TokenKind::RBracket {
                    PRes {
                        val: Some(
                            ExprV::Index { left: Box::new(left), index: Box::new(ix) },
                        ),
                        pos: next_pos(toks, sub.pos),
                        errs: sub.errs,
                    }
                } else {
                    PRes {
                        val: None,
                        pos: sub.pos,
                        errs: sub.errs + seq![peek_err_msg(TokenKind::RBracket, pk)],
                    }
                }
            },
        }
    }
}

/// A `let` statement: `let NAME = EXPR`, an optional trailing semicolon.
pub open spec fn sp_let(toks: Seq<TokenV>, pos: int, fuel: nat) -> PRes<StmtV>
    decreases fuel,
{
    if fuel == 0 {
        PRes { val: None, pos, errs: Seq::empty() }
    } else {
        let pk1 = tok_at(toks, pos + 1).kind;
        if pk1 != TokenKind::Ident {
            PRes { val: None, pos, errs: seq![peek_err_msg(TokenKind::Ident, pk1)] }
        } else {
            let p1 = next_pos(toks, pos);
            let name = tok_at(toks, p1).literal;
            let pk2 = tok_at(toks, p1 + 1).kind;
            if pk2 != TokenKind::Assign {
                PRes { val: None, pos: p1, errs: seq![peek_err_msg(TokenKind::Assign, pk2)] }
            } else {
                let vstart = next_pos(toks, next_pos(toks, p1));
                let v = sp_expression(toks, vstart, LOWEST, (fuel - 1) as nat);
                match v.val {
                    None => PRes { val: None, pos: v.pos, errs: v.errs },
                    Some(ev) => {
                        let fpos = if tok_at(toks, v.pos + 1).kind == TokenKind::Semicolon {
                            next_pos(toks, v.pos)
                        } else {
                            v.pos
                        };
                        PRes {
                            val: Some(StmtV::Let { name, value: ev }),
                            pos: fpos,
                            errs: v.errs,
                        }
                    },
                }
            }
        }
    }
}

/// A `return` statement: `return EXPR`, an optional trailing semicolon.
pub open spec fn sp_return(toks: Seq<TokenV>, pos: int, fuel: nat) -> PRes<StmtV>
    decreases fuel,
{
    if fuel == 0 {
        PRes { val: None, pos, errs: Seq::empty() }
    } else {
        let v = sp_expression(toks, next_pos(toks, pos), LOWEST, (fuel - 1) as nat);
        match v.val {
            None => PRes { val: None, pos: v.pos, errs: v.errs },
            Some(ev) => {
                let fpos = if tok_at(toks, v.pos + 1).kind == TokenKind::Semicolon {
                    next_pos(toks, v.pos)
                } else {
                    v.pos
                };
                PRes { val: Some(StmtV::Ret(ev)), pos: fpos, errs: v.errs }
            },
        }
    }
}

/// An expression standing as a statement, an optional trailing semicolon.
pub open spec fn sp_expression_statement(toks: Seq<TokenV>, pos: int, fuel: nat) -> PRes<StmtV>
    decreases fuel,
{
    if fuel == 0 {
        PRes { val: None, pos, errs: Seq::empty() }
    } else {
        let e = sp_expression(toks, pos, LOWEST, (fuel - 1) as nat);
        match e.val {
            None => PRes { val: None, pos: e.pos, errs: e.errs },
            Some(ev) => {
                let fpos = if tok_at(toks, e.pos + 1).kind == TokenKind::Semicolon {
                    next_pos(toks, e.pos)
                } else {
                    e.pos
                };
                PRes { val: Some(StmtV::Expr(ev)), pos: fpos, errs: e.errs }
            },
        }
    }
}

/// Statement dispatch on the current token.
pub open spec fn sp_statement(toks: Seq<TokenV>, pos: int, fuel: nat) -> PRes<StmtV>
    decreases fuel,
{
    if fuel == 0 {
        PRes { val: None, pos, errs: Seq::empty() }
    } else {
        match tok_at(toks, pos).kind {
            TokenKind::Let => sp_let(toks, pos, (fuel - 1) as nat),
            TokenKind::Return => sp_return(toks, pos, (fuel - 1) as nat),
            _ => sp_expression_statement(toks, pos, (fuel - 1) as nat),
        }
    }
}

/// The top-level loop: collect statements until end of input; a failed
/// statement contributes nothing but its errors.
pub open spec fn sp_program_loop(toks: Seq<TokenV>, pos: int, fuel: nat) -> BRes
    decreases fuel,
{
    if fuel == 0 {
        BRes { stmts: Seq::empty(), pos, errs: Seq::empty() }
    } else if tok_at(toks, pos).kind == TokenKind::Eof {
        BRes { stmts: Seq::empty(), pos, errs: Seq::empty() }
    } else {
        let s = sp_statement(toks, pos, (fuel - 1) as nat);
        let rest = sp_program_loop(toks, next_pos(toks, s.pos), (fuel - 1) as nat);
        let own: Seq<StmtV> = match s.val {
            Some(st) => seq![st],
            None => Seq::empty(),
        };
        BRes { stmts: own + rest.stmts, pos: rest.pos, errs: s.errs + rest.errs }
    }
}

/// The fuel the executable parser seeds: far more steps than any token
/// stream that fits in memory can use.
pub open spec fn start_fuel() -> nat {
    u64::MAX as nat
}

/// What parsing a token stream yields: the program's statements and the
/// errors collected, in order.
pub open spec fn sp_program(toks: Seq<TokenV>) -> BRes {
    sp_program_loop(toks, 0, start_fuel())
}

/// The views of the collected error strings, in order.
pub open spec fn errs_of(v: Seq<String>) -> Seq<Seq<char>> {
    v.map_values(|s: String| s@)
}

/// Appending a string appends its view.
pub proof fn lemma_errs_push(v: Seq<String>, s: String)
    ensures
        errs_of(v.push(s)) == errs_of(v).push(s@),
{
    assert(errs_of(v.push(s)) =~= errs_of(v).push(s@));
}

/// Appending one element is concatenation with a singleton.
pub proof fn lemma_push_as_concat<A>(a: Seq<A>, x: A)
    ensures
        a.push(x) == a + seq![x],
{
    assert(a.push(x) =~= a + seq![x]);
}

/// Sequence concatenation is associative.
pub proof fn lemma_assoc<A>(a: Seq<A>, b: Seq<A>, c: Seq<A>)
    ensures
        (a + b) + c == a + (b + c),
{
    assert((a + b) + c =~= a + (b + c));
}

/// The empty sequence is a unit for concatenation.
pub proof fn lemma_unit<A>(a: Seq<A>)
    ensures
        a + Seq::<A>::empty() == a,
        Seq::<A>::empty() + a == a,
{
    assert(a + Seq::<A>::empty() =~= a);
    assert(Seq::<A>::empty() + a =~= a);
}

/// Viewing a concatenation concatenates the views.
pub proof fn lemma_view_exprs_concat(a: Seq<Expression>, b: Seq<Expression>)
    ensures
        crate::ast::view_exprs(a + b) == crate::ast::view_exprs(a) + crate::ast::view_exprs(b),
    decreases b,
{
    if b.len() == 0 {
        assert(a + b =~= a);
        lemma_unit(crate::ast::view_exprs(a));
    } else {
        lemma_view_exprs_concat(a, b.drop_last());
        assert((a + b).drop_last() =~= a + b.drop_last());
        assert((a + b).last() == b.last());
        assert(crate::ast::view_exprs(a) + crate::ast::view_exprs(b.drop_last()).push(
            view_expr(b.last()),
        ) =~= (crate::ast::view_exprs(a) + crate::ast::view_exprs(b.drop_last())).push(
            view_expr(b.last()),
        ));
    }
}

/// Whether the parsed node and the mathematical result agree: both absent,
/// or present with equal views.
pub open spec fn opt_matches<T: View>(r: Option<T>, v: Option<T::V>) -> bool {
    match (r, v) {
        (Some(x), Some(xv)) => x@ == xv,
        (None, None) => true,
        _ => false,
    }
}

/// The Pratt parser: the token stream read eagerly from the lexer, a
/// cursor, and the error messages collected so far.
pub struct Parser {
    tokens: Vec<Token>,
    pos: usize,
    pub errors: Vec<String>,
}

impl Parser {
    /// The views of the tokens this parser reads.
    pub closed spec fn toks(&self) -> Seq<TokenV> {
        self.tokens@.map_values(|t: Token| t@)
    }

    /// The cursor.
    pub closed spec fn spec_pos(&self) -> int {
        self.pos as int
    }

    /// The views of the errors collected so far.
    pub closed spec fn errs(&self) -> Seq<Seq<char>> {
        errs_of(self.errors@)
    }

    /// The token stream is never empty, ends in `Eof`, and the cursor
    /// stays inside it.
    pub closed spec fn wf(&self) -> bool {
        &&& self.tokens@.len() >= 1
        &&& self.pos < self.tokens@.len()
        &&& self.toks().last().kind == TokenKind::Eof
    }

    /// Reads the whole token stream out of a lexer and stands ready at its
    /// first token, with no errors yet.
    pub fn new(lexer: Lexer) -> (r: Parser)
        requires
            lexer.wf(),
        ensures
            r.wf(),
            r.spec_pos() == 0,
            r.errs() == Seq::<Seq<char>>::empty(),
    {
        let mut lx = lexer;
        let mut tokens: Vec<Token> = Vec::new();
        let mut t = lx.next_token();
        while t.kind != TokenKind::Eof
            invariant
                lx.wf(),
                lx.spec_pos() <= lx.spec_input().len(),
            decreases lx.spec_input().len() - lx.spec_pos() + (
            if t.kind == TokenKind::Eof {
                0int
            } else {
                1int
            }),
        {
            tokens.push(t);
            t = lx.next_token();
        }
        tokens.push(t);
        let r = Parser { tokens, pos: 0, errors: Vec::new() };
        proof {
            assert(r.errs() =~= Seq::<Seq<char>>::empty());
        }
        r
    }

    /// The error messages collected so far.
    pub fn errors(&self) -> (r: &Vec<String>)
        ensures
            errs_of(r@) == self.errs(),
    {
        &self.errors
    }

    /// The current token's kind.
    fn cur_kind(&self) -> (k: TokenKind)
        requires
            self.wf(),
        ensures
            k == tok_at(self.toks(), self.spec_pos()).kind,
    {
        self.tokens[self.pos].kind
    }

    /// The next token's kind; past the end it reads as `Eof`.
    fn peek_kind(&self) -> (k: TokenKind)
        requires
            self.wf(),
        ensures
            k == tok_at(self.toks(), self.spec_pos() + 1).kind,
    {
        if self.pos < self.tokens.len() - 1 {
            self.tokens[self.pos + 1].kind
        } else {
            TokenKind::Eof
        }
    }

    /// The current token's lexeme.
    fn cur_literal(&self) -> (r: String)
        requires
            self.wf(),
        ensures
            r@ == tok_at(self.toks(), self.spec_pos()).literal,
    {
        self.tokens[self.pos].literal.clone()
    }

    /// One step forward, stopping at the trailing `Eof`.
    fn next_token(&mut self)
        requires
            old(self).wf(),
        ensures
            final(self).wf(),
            final(self).toks() == old(self).toks(),
            final(self).errs() == old(self).errs(),
            final(self).spec_pos() == next_pos(old(self).toks(), old(self).spec_pos()),
    {
        if self.pos < self.tokens.len() - 1 {
            self.pos = self.pos + 1;
        }
    }

    /// Records that the next token was not the expected one.
    fn peek_error(&mut self, expected: TokenKind)
        requires
            old(self).wf(),
        ensures
            final(self).wf(),
            final(self).toks() == old(self).toks(),
            final(self).spec_pos() == old(self).spec_pos(),
            final(self).errs() == old(self).errs().push(
                peek_err_msg(expected, tok_at(old(self).toks(), old(self).spec_pos() + 1).kind),
            ),
    {
        let got = self.peek_kind();
        let mut m = String::from_str("expected next token to be ");
        m.append(kind_name(expected));
        m.append(", got ");
        m.append(kind_name(got));
        m.append(" instead");
        proof {
            lemma_errs_push(self.errors@, m);
        }
        self.errors.push(m);
    }

    /// Records that no prefix rule exists for the current token's kind.
    fn register_no_prefix_parser_found(&mut self, k: TokenKind)
        requires
            old(self).wf(),
        ensures
            final(self).wf(),
            final(self).toks() == old(self).toks(),
            final(self).spec_pos() == old(self).spec_pos(),
            final(self).errs() == old(self).errs().push(no_prefix_msg(k)),
    {
        let mut m = String::from_str("no prefix parser found for ");
        m.append(kind_name(k));
        m.append(" token");
        proof {
            lemma_errs_push(self.errors@, m);
        }
        self.errors.push(m);
    }

    /// Records that an integer literal's value does not fit.
    fn register_int_literal_error(&mut self, lit: &String)
        requires
            old(self).wf(),
        ensures
            final(self).wf(),
            final(self).toks() == old(self).toks(),
            final(self).spec_pos() == old(self).spec_pos(),
            final(self).errs() == old(self).errs().push(int_lit_msg(lit@)),
    {
        let mut m = String::from_str("could not parse ");
        m.append(lit.as_str());
        m.append(" as integer");
        proof {
            lemma_errs_push(self.errors@, m);
        }
        self.errors.push(m);
    }
}

/// Viewing a concatenation of statements concatenates the views.
pub proof fn lemma_view_stmts_concat(a: Seq<Statement>, b: Seq<Statement>)
    ensures
        crate::ast::view_stmts(a + b) == crate::ast::view_stmts(a) + crate::ast::view_stmts(b),
    decreases b,
{
    if b.len() == 0 {
        assert(a + b =~= a);
        lemma_unit(crate::ast::view_stmts(a));
    } else {
        lemma_view_stmts_concat(a, b.drop_last());
        assert((a + b).drop_last() =~= a + b.drop_last());
        assert((a + b).last() == b.last());
        assert(crate::ast::view_stmts(a) + crate::ast::view_stmts(b.drop_last()).push(
            view_stmt(b.last()),
        ) =~= (crate::ast::view_stmts(a) + crate::ast::view_stmts(b.drop_last())).push(
            view_stmt(b.last()),
        ));
    }
}

/// Looks a token kind up among the registered infix rules.
fn infix_registered(k: TokenKind) -> (r: bool)
    ensures
        r == has_infix_rule(k),
{
    match k {
        TokenKind::Plus | TokenKind::Minus | TokenKind::Slash | TokenKind::Asterisk
            | TokenKind::EqEq | TokenKind::NotEq | TokenKind::Lt | TokenKind::Gt
            | TokenKind::LParen | TokenKind::LBracket => true,
        _ => false,
    }
}

impl Parser {
    /// Records that the next token was not the expected one, naming the
    /// kind actually seen.
    fn expected_error(&mut self, expected: TokenKind, got: TokenKind)
        requires
            old(self).wf(),
        ensures
            final(self).wf(),
            final(self).toks() == old(self).toks(),
            final(self).spec_pos() == old(self).spec_pos(),
            final(self).errs() == old(self).errs().push(peek_err_msg(expected, got)),
    {
        let mut m = String::from_str("expected next token to be ");
        m.append(kind_name(expected));
        m.append(", got ");
        m.append(kind_name(got));
        m.append(" instead");
        proof {
            lemma_errs_push(self.errors@, m);
        }
        self.errors.push(m);
    }

    /// The Pratt core: dispatch on the current token's prefix rule, then
    /// fold infix rules while the peek token binds tighter than `prec`.
    pub fn parse_expression(&mut self, prec: u8, fuel: u64) -> (r: Option<Expression>)
        requires
            old(self).wf(),
        ensures
            final(self).wf(),
            final(self).toks() == old(self).toks(),
            ({
                let s = sp_expression(old(self).toks(), old(self).spec_pos(), prec, fuel as nat);
                &&& final(self).spec_pos() == s.pos
                &&& opt_matches(r, s.val)
                &&& final(self).errs() == old(self).errs() + s.errs
            }),
        decreases fuel,
    {
        if fuel == 0 {
            proof {
                lemma_unit(old(self).errs());
            }
            return None;
        }
        let ghost toks = self.toks();
        let ghost pos0 = self.spec_pos();
        let k = self.cur_kind();
        let ghost shead: PRes<ExprV> = match k {
            TokenKind::Ident => PRes {
                val: Some(ExprV::Ident(tok_at(toks, pos0).literal)),
                pos: pos0,
                errs: Seq::empty(),
            },
            TokenKind::Int => match spec_parse_i32(tok_at(toks, pos0).literal) {
                Some(v) => PRes { val: Some(ExprV::Int(v)), pos: pos0, errs: Seq::empty() },
                None => PRes {
                    val: None,
                    pos: pos0,
                    errs: seq![int_lit_msg(tok_at(toks, pos0).literal)],
                },
            },
            TokenKind::Str => PRes {
                val: Some(ExprV::Str(tok_at(toks, pos0).literal)),
                pos: pos0,
                errs: Seq::empty(),
            },
            TokenKind::True => PRes { val: Some(ExprV::Bool(true)), pos: pos0, errs: Seq::empty() },
            TokenKind::False => PRes {
                val: Some(ExprV::Bool(false)),
                pos: pos0,
                errs: Seq::empty(),
            },
            TokenKind::Bang => sp_prefix_expression(toks, pos0, (fuel - 1) as nat),
            TokenKind::Minus => sp_prefix_expression(toks, pos0, (fuel - 1) as nat),
            TokenKind::LParen => sp_grouped(toks, pos0, (fuel - 1) as nat),
            TokenKind::If => sp_if(toks, pos0, (fuel - 1) as nat),
            TokenKind::Function => sp_function_literal(toks, pos0, (fuel - 1) as nat),
            TokenKind::LBracket => sp_array(toks, pos0, (fuel - 1) as nat),
            _ => PRes { val: None, pos: pos0, errs: seq![no_prefix_msg(k)] },
        };
        let head: Option<Expression> = match k {
            TokenKind::Ident => Some(self.parse_identifier()),
            TokenKind::Int => self.parse_int_literal(),
            TokenKind::Str => Some(Expression::StringLiteral(StringLiteral { value: self.cur_literal() })),
            TokenKind::True => Some(self.parse_boolean()),
            TokenKind::False => Some(self.parse_boolean()),
            TokenKind::Bang => self.parse_prefix_expression(fuel - 1),
            TokenKind::Minus => self.parse_prefix_expression(fuel - 1),
            TokenKind::LParen => self.parse_grouped_expressions(fuel - 1),
            TokenKind::If => self.parse_if_expression(fuel - 1),
            TokenKind::Function => self.parse_function_literal(fuel - 1),
            TokenKind::LBracket => self.parse_array_literal(fuel - 1),
            _ => {
                self.register_no_prefix_parser_found(k);
                None
            },
        };
        proof {
            lemma_unit(old(self).errs());
            lemma_push_as_concat(old(self).errs(), no_prefix_msg(k));
            lemma_push_as_concat(old(self).errs(), int_lit_msg(tok_at(toks, pos0).literal));
        }
        match head {
            None => None,
            Some(left) => {
                let ghost sfold = sp_infix_loop(toks, shead.pos, prec, shead.val->0, (fuel
                    - 1) as nat);
                let folded = self.parse_infix_loop(left, prec, fuel - 1);
                proof {
                    lemma_assoc(old(self).errs(), shead.errs, sfold.errs);
                }
                folded
            },
        }
    }

    /// The infix loop of the Pratt core: while the peek token is no
    /// semicolon and binds tighter than `prec`, apply its infix rule to
    /// the expression parsed so far.
    pub fn parse_infix_loop(&mut self, left: Expression, prec: u8, fuel: u64) -> (r: Option<
        Expression,
    >)
        requires
            old(self).wf(),
        ensures
            final(self).wf(),
            final(self).toks() == old(self).toks(),
            ({
                let s = sp_infix_loop(
                    old(self).toks(),
                    old(self).spec_pos(),
                    prec,
                    left@,
                    fuel as nat,
                );
                &&& final(self).spec_pos() == s.pos
                &&& opt_matches(r, s.val)
                &&& final(self).errs() == old(self).errs() + s.errs
            }),
        decreases fuel,
    {
        if fuel == 0 {
            proof {
                lemma_unit(old(self).errs());
            }
            return Some(left);
        }
        let ghost toks = self.toks();
        let ghost pos0 = self.spec_pos();
        let pk = self.peek_kind();
        if pk != TokenKind::Semicolon && prec < precedence_by_token_type(pk) && infix_registered(
            pk,
        ) {
            self.next_token();
            let ghost opos = self.spec_pos();
            let ghost lv = left@;
            let ghost sstep: PRes<ExprV> = match pk {
                TokenKind::LParen => sp_call(toks, opos, lv, (fuel - 1) as nat),
                TokenKind::LBracket => sp_index(toks, opos, lv, (fuel - 1) as nat),
                _ => sp_infix_expression(toks, opos, lv, (fuel - 1) as nat),
            };
            let step: Option<Expression> = match pk {
                TokenKind::LParen => self.parse_call_expression(left, fuel - 1),
                TokenKind::LBracket => self.parse_index_expression(left, fuel - 1),
                _ => self.parse_infix_expression(left, fuel - 1),
            };
            match step {
                None => None,
                Some(l2) => {
                    let ghost srest = sp_infix_loop(toks, sstep.pos, prec, sstep.val->0, (fuel
                        - 1) as nat);
                    let r = self.parse_infix_loop(l2, prec, fuel - 1);
                    proof {
                        lemma_assoc(old(self).errs(), sstep.errs, srest.errs);
                    }
                    r
                },
            }
        } else {
            proof {
                lemma_unit(old(self).errs());
            }
            Some(left)
        }
    }

    /// The prefix rule for a name: the identifier under the cursor.
    pub fn parse_identifier(&self) -> (r: Expression)
        requires
            self.wf(),
        ensures
            r@ == ExprV::Ident(tok_at(self.toks(), self.spec_pos()).literal),
    {
        Expression::Identifier(Identifier { value: self.cur_literal() })
    }

    /// The prefix rule for an integer literal: its lexeme read as a
    /// signed 32-bit value, or an error message when it does not fit.
    pub fn parse_int_literal(&mut self) -> (r: Option<Expression>)
        requires
            old(self).wf(),
        ensures
            final(self).wf(),
            final(self).toks() == old(self).toks(),
            final(self).spec_pos() == old(self).spec_pos(),
            ({
                let lit = tok_at(old(self).toks(), old(self).spec_pos()).literal;
                match spec_parse_i32(lit) {
                    Some(v) => r == Some(Expression::IntegerLiteral(IntegerLiteral { value: v }))
                        && final(self).errs() == old(self).errs(),
                    None => r is None && final(self).errs() == old(self).errs().push(
                        int_lit_msg(lit),
                    ),
                }
            }),
    {
        let lit = self.cur_literal();
        match parse_i32_str(lit.as_str()) {
            Some(v) => Some(Expression::IntegerLiteral(IntegerLiteral { value: v })),
            None => {
                self.register_int_literal_error(&lit);
                None
            },
        }
    }

    /// The prefix rule for `true` and `false`: a boolean literal, true
    /// exactly when the current token is the `true` keyword.
    pub fn parse_boolean(&self) -> (r: Expression)
        requires
            self.wf(),
        ensures
            r@ == ExprV::Bool(tok_at(self.toks(), self.spec_pos()).kind == TokenKind::True),
    {
        Expression::Boolean(
            BooleanLiteral { value: self.cur_kind() == TokenKind::True },
        )
    }

    /// A prefix operator: capture it, step past it, parse the operand at
    /// `PREFIX` binding power.
    pub fn parse_prefix_expression(&mut self, fuel: u64) -> (r: Option<Expression>)
        requires
            old(self).wf(),
        ensures
            final(self).wf(),
            final(self).toks() == old(self).toks(),
            ({
                let s = sp_prefix_expression(old(self).toks(), old(self).spec_pos(), fuel as nat);
                &&& final(self).spec_pos() == s.pos
                &&& opt_matches(r, s.val)
                &&& final(self).errs() == old(self).errs() + s.errs
            }),
        decreases fuel,
    {
        if fuel == 0 {
            proof {
                lemma_unit(old(self).errs());
            }
            return None;
        }
        let operator = self.cur_literal();
        self.next_token();
        let sub = self.parse_expression(PREFIX, fuel - 1);
        match sub {
            None => None,
            Some(right) => Some(
                Expression::Prefix(Box::new(PrefixExpression { operator, right })),
            ),
        }
    }

    /// An infix operator: capture it and its binding power, step past it,
    /// parse the right operand at that power.
    pub fn parse_infix_expression(&mut self, left: Expression, fuel: u64) -> (r: Option<
        Expression,
    >)
        requires
            old(self).wf(),
        ensures
            final(self).wf(),
            final(self).toks() == old(self).toks(),
            ({
                let s = sp_infix_expression(
                    old(self).toks(),
                    old(self).spec_pos(),
                    left@,
                    fuel as nat,
                );
                &&& final(self).spec_pos() == s.pos
                &&& opt_matches(r, s.val)
                &&& final(self).errs() == old(self).errs() + s.errs
            }),
        decreases fuel,
    {
        if fuel == 0 {
            proof {
                lemma_unit(old(self).errs());
            }
            return None;
        }
        let operator = self.cur_literal();
        let prec = precedence_by_token_type(self.cur_kind());
        self.next_token();
        let sub = self.parse_expression(prec, fuel - 1);
        match sub {
            None => None,
            Some(right) => Some(
                Expression::Infix(Box::new(InfixExpression { operator, left, right })),
            ),
        }
    }

    /// A parenthesised expression: step past `(`, parse at `LOWEST`,
    /// demand the closing `)`.
    pub fn parse_grouped_expressions(&mut self, fuel: u64) -> (r: Option<Expression>)
        requires
            old(self).wf(),
        ensures
            final(self).wf(),
            final(self).toks() == old(self).toks(),
            ({
                let s = sp_grouped(old(self).toks(), old(self).spec_pos(), fuel as nat);
                &&& final(self).spec_pos() == s.pos
                &&& opt_matches(r, s.val)
                &&& final(self).errs() == old(self).errs() + s.errs
            }),
        decreases fuel,
    {
        if fuel == 0 {
            proof {
                lemma_unit(old(self).errs());
            }
            return None;
        }
        let ghost sbase = old(self).errs();
        self.next_token();
        let ghost ssub = sp_expression(
            old(self).toks(),
            self.spec_pos(),
            LOWEST,
            (fuel - 1) as nat,
        );
        let sub = self.parse_expression(LOWEST, fuel - 1);
        match sub {
            None => None,
            Some(e) => {
                let pk = self.peek_kind();
                if pk == TokenKind::RParen {
                    self.next_token();
                    Some(e)
                } else {
                    self.expected_error(TokenKind::RParen, pk);
                    proof {
                        lemma_push_as_concat(sbase + ssub.errs, peek_err_msg(TokenKind::RParen, pk));
                        lemma_assoc(sbase, ssub.errs, seq![peek_err_msg(TokenKind::RParen, pk)]);
                    }
                    None
                }
            },
        }
    }
}

impl Parser {
    /// An `if` expression: `(cond)`, a consequence block, and optionally
    /// `else` with an alternative block.
    pub fn parse_if_expression(&mut self, fuel: u64) -> (r: Option<Expression>)
        requires
            old(self).wf(),
        ensures
            final(self).wf(),
            final(self).toks() == old(self).toks(),
            ({
                let s = sp_if(old(self).toks(), old(self).spec_pos(), fuel as nat);
                &&& final(self).spec_pos() == s.pos
                &&& opt_matches(r, s.val)
                &&& final(self).errs() == old(self).errs() + s.errs
            }),
        decreases fuel,
    {
        if fuel == 0 {
            proof {
                lemma_unit(old(self).errs());
            }
            return None;
        }
        let ghost toks = self.toks();
        let pk1 = self.peek_kind();
        if pk1 != TokenKind::LParen {
            self.expected_error(TokenKind::LParen, pk1);
            proof {
                lemma_push_as_concat(old(self).errs(), peek_err_msg(TokenKind::LParen, pk1));
            }
            return None;
        }
        self.next_token();
        self.next_token();
        let ghost scond = sp_expression(toks, self.spec_pos(), LOWEST, (fuel - 1) as nat);
        let cond = self.parse_expression(LOWEST, fuel - 1);
        let condition = match cond {
            None => {
                return None;
            },
            Some(c) => c,
        };
        let pk2 = self.peek_kind();
        if pk2 != TokenKind::RParen {
            self.expected_error(TokenKind::RParen, pk2);
            proof {
                lemma_push_as_concat(old(self).errs() + scond.errs, peek_err_msg(TokenKind::RParen, pk2));
                lemma_assoc(old(self).errs(), scond.errs, seq![peek_err_msg(TokenKind::RParen, pk2)]);
            }
            return None;
        }
        self.next_token();
        let pk3 = self.peek_kind();
        if pk3 != TokenKind::LBrace {
            self.expected_error(TokenKind::LBrace, pk3);
            proof {
                lemma_push_as_concat(old(self).errs() + scond.errs, peek_err_msg(TokenKind::LBrace, pk3));
                lemma_assoc(old(self).errs(), scond.errs, seq![peek_err_msg(TokenKind::LBrace, pk3)]);
            }
            return None;
        }
        let ghost p4 = next_pos(toks, self.spec_pos());
        let ghost scons = sp_block(toks, p4, (fuel - 1) as nat);
        self.next_token();
        let consequence = self.parse_block_statement(fuel - 1);
        let pk4 = self.peek_kind();
        if pk4 == TokenKind::Else {
            self.next_token();
            let pk5 = self.peek_kind();
            if pk5 != TokenKind::LBrace {
                self.expected_error(TokenKind::LBrace, pk5);
                proof {
                    lemma_assoc(old(self).errs(), scond.errs, scons.errs);
                    lemma_push_as_concat(
                        old(self).errs() + scond.errs + scons.errs,
                        peek_err_msg(TokenKind::LBrace, pk5),
                    );
                    lemma_assoc(
                        old(self).errs(),
                        scond.errs + scons.errs,
                        seq![peek_err_msg(TokenKind::LBrace, pk5)],
                    );
                    lemma_assoc(
                        scond.errs,
                        scons.errs,
                        seq![peek_err_msg(TokenKind::LBrace, pk5)],
                    );
                }
                return None;
            }
            let ghost p7 = next_pos(toks, self.spec_pos());
            let ghost salt = sp_block(toks, p7, (fuel - 1) as nat);
            self.next_token();
            let alternative = self.parse_block_statement(fuel - 1);
            proof {
                lemma_assoc(old(self).errs(), scond.errs, scons.errs);
                lemma_assoc(old(self).errs(), scond.errs + scons.errs, salt.errs);
                lemma_assoc(scond.errs, scons.errs, salt.errs);
            }
            Some(
                Expression::If(
                    Box::new(
                        IfExpression {
                            condition,
                            consequence,
                            alternative: Some(alternative),
                        },
                    ),
                ),
            )
        } else {
            proof {
                lemma_assoc(old(self).errs(), scond.errs, scons.errs);
            }
            Some(
                Expression::If(
                    Box::new(IfExpression { condition, consequence, alternative: None }),
                ),
            )
        }
    }

    /// The run of statements between `{` and `}`: step past `{`, then
    /// collect statements until `}` or end of input.
    pub fn parse_block_statement(&mut self, fuel: u64) -> (r: BlockStatement)
        requires
            old(self).wf(),
        ensures
            final(self).wf(),
            final(self).toks() == old(self).toks(),
            ({
                let s = sp_block(old(self).toks(), old(self).spec_pos(), fuel as nat);
                &&& final(self).spec_pos() == s.pos
                &&& r@ == s.stmts
                &&& final(self).errs() == old(self).errs() + s.errs
            }),
        decreases fuel,
    {
        if fuel == 0 {
            let r = BlockStatement { statements: Vec::new() };
            proof {
                lemma_unit(old(self).errs());
                assert(r@ =~= Seq::<StmtV>::empty());
            }
            return r;
        }
        self.next_token();
        let statements = self.parse_block_loop(fuel - 1);
        BlockStatement { statements }
    }

    /// The statement-collecting loop shared by blocks: stop at `}` or end
    /// of input; a failed statement contributes nothing but its errors.
    #[verifier::rlimit(60)]
    fn parse_block_loop(&mut self, fuel: u64) -> (r: Vec<Statement>)
        requires
            old(self).wf(),
        ensures
            final(self).wf(),
            final(self).toks() == old(self).toks(),
            ({
                let s = sp_block_loop(old(self).toks(), old(self).spec_pos(), fuel as nat);
                &&& final(self).spec_pos() == s.pos
                &&& crate::ast::view_stmts(r@) == s.stmts
                &&& final(self).errs() == old(self).errs() + s.errs
            }),
        decreases fuel,
    {
        if fuel == 0 {
            let r: Vec<Statement> = Vec::new();
            proof {
                lemma_unit(old(self).errs());
                assert(crate::ast::view_stmts(r@) =~= Seq::<StmtV>::empty());
            }
            return r;
        }
        let k = self.cur_kind();
        if k == TokenKind::RBrace || k == TokenKind::Eof {
            let r: Vec<Statement> = Vec::new();
            proof {
                lemma_unit(old(self).errs());
                assert(crate::ast::view_stmts(r@) =~= Seq::<StmtV>::empty());
            }
            return r;
        }
        let ghost toks = self.toks();
        let ghost sstmt = sp_statement(toks, self.spec_pos(), (fuel - 1) as nat);
        let st = self.parse_statement(fuel - 1);
        self.next_token();
        let ghost srest = sp_block_loop(toks, self.spec_pos(), (fuel - 1) as nat);
        let rest = self.parse_block_loop(fuel - 1);
        proof {
            lemma_assoc(old(self).errs(), sstmt.errs, srest.errs);
        }
        match st {
            Some(stv) => {
                let mut tail = rest;
                let ghost restseq = tail@;
                let mut out: Vec<Statement> = Vec::new();
                out.push(stv);
                out.append(&mut tail);
                proof {
                    reveal_with_fuel(crate::ast::view_stmts, 2);
                    assert(seq![stv].drop_last() =~= Seq::<Statement>::empty());
                    assert(crate::ast::view_stmts(seq![stv]) =~= seq![view_stmt(stv)]);
                    lemma_view_stmts_concat(seq![stv], restseq);
                    assert(out@ =~= seq![stv] + restseq);
                }
                out
            },
            None => rest,
        }
    }
}

impl Parser {
    /// The comma-separated parameter names of a function literal, ending
    /// just before the closing parenthesis.
    fn parse_function_parameters(&mut self, fuel: u64) -> (r: Option<Vec<Identifier>>)
        requires
            old(self).wf(),
        ensures
            final(self).wf(),
            final(self).toks() == old(self).toks(),
            ({
                let s = sp_params(old(self).toks(), old(self).spec_pos(), fuel as nat);
                &&& final(self).spec_pos() == s.pos
                &&& (match (r, s.val) {
                    (Some(v), Some(ns)) => v@.map_values(|p: Identifier| p.value@) == ns,
                    (None, None) => true,
                    _ => false,
                })
                &&& final(self).errs() == old(self).errs() + s.errs
            }),
        decreases fuel,
    {
        if fuel == 0 {
            proof {
                lemma_unit(old(self).errs());
            }
            return None;
        }
        let k = self.cur_kind();
        if k != TokenKind::Ident {
            self.expected_error(TokenKind::Ident, k);
            proof {
                lemma_push_as_concat(old(self).errs(), peek_err_msg(TokenKind::Ident, k));
            }
            return None;
        }
        let name = Identifier { value: self.cur_literal() };
        if self.peek_kind() == TokenKind::Comma {
            self.next_token();
            self.next_token();
            let rest = self.parse_function_parameters(fuel - 1);
            match rest {
                None => None,
                Some(ns) => {
                    let mut tail = ns;
                    let ghost restseq = tail@;
                    let mut out: Vec<Identifier> = Vec::new();
                    out.push(name);
                    out.append(&mut tail);
                    proof {
                        assert(out@ =~= seq![name] + restseq);
                        assert(out@.map_values(|p: Identifier| p.value@) =~= seq![name.value@]
                            + restseq.map_values(|p: Identifier| p.value@));
                    }
                    Some(out)
                },
            }
        } else {
            let mut v: Vec<Identifier> = Vec::new();
            v.push(name);
            proof {
                lemma_unit(old(self).errs());
                assert(v@.map_values(|p: Identifier| p.value@) =~= seq![name.value@]);
            }
            Some(v)
        }
    }

    /// A function literal: `fn`, a parenthesised parameter list, and a
    /// body block.
    pub fn parse_function_literal(&mut self, fuel: u64) -> (r: Option<Expression>)
        requires
            old(self).wf(),
        ensures
            final(self).wf(),
            final(self).toks() == old(self).toks(),
            ({
                let s = sp_function_literal(old(self).toks(), old(self).spec_pos(), fuel as nat);
                &&& final(self).spec_pos() == s.pos
                &&& opt_matches(r, s.val)
                &&& final(self).errs() == old(self).errs() + s.errs
            }),
        decreases fuel,
    {
        if fuel == 0 {
            proof {
                lemma_unit(old(self).errs());
            }
            return None;
        }
        let ghost toks = self.toks();
        let pk1 = self.peek_kind();
        if pk1 != TokenKind::LParen {
            self.expected_error(TokenKind::LParen, pk1);
            proof {
                lemma_push_as_concat(old(self).errs(), peek_err_msg(TokenKind::LParen, pk1));
            }
            return None;
        }
        self.next_token();
        let ghost sparams: PRes<Seq<Seq<char>>> = if tok_at(toks, self.spec_pos() + 1).kind
            == TokenKind::RParen {
            PRes {
                val: Some(Seq::empty()),
                pos: next_pos(toks, self.spec_pos()),
                errs: Seq::empty(),
            }
        } else {
            let ps = sp_params(toks, next_pos(toks, self.spec_pos()), (fuel - 1) as nat);
            match ps.val {
                None => ps,
                Some(ns) => {
                    let pk2 = tok_at(toks, ps.pos + 1).kind;
                    if pk2 != TokenKind::RParen {
                        PRes {
                            val: None,
                            pos: ps.pos,
                            errs: ps.errs + seq![peek_err_msg(TokenKind::RParen, pk2)],
                        }
                    } else {
                        PRes { val: Some(ns), pos: next_pos(toks, ps.pos), errs: ps.errs }
                    }
                },
            }
        };
        let parameters: Vec<Identifier> = if self.peek_kind() == TokenKind::RParen {
            self.next_token();
            Vec::new()
        } else {
            self.next_token();
            let ghost sps = sp_params(toks, self.spec_pos(), (fuel - 1) as nat);
            let ps = self.parse_function_parameters(fuel - 1);
            match ps {
                None => {
                    return None;
                },
                Some(ns) => {
                    let pk2 = self.peek_kind();
                    if pk2 != TokenKind::RParen {
                        self.expected_error(TokenKind::RParen, pk2);
                        proof {
                            lemma_push_as_concat(
                                old(self).errs() + sps.errs,
                                peek_err_msg(TokenKind::RParen, pk2),
                            );
                            lemma_assoc(
                                old(self).errs(),
                                sps.errs,
                                seq![peek_err_msg(TokenKind::RParen, pk2)],
                            );
                        }
                        return None;
                    }
                    self.next_token();
                    ns
                },
            }
        };
        proof {
            assert(parameters@.map_values(|p: Identifier| p.value@) == sparams.val->0);
        }
        let pk3 = self.peek_kind();
        if pk3 != TokenKind::LBrace {
            self.expected_error(TokenKind::LBrace, pk3);
            proof {
                lemma_push_as_concat(
                    old(self).errs() + sparams.errs,
                    peek_err_msg(TokenKind::LBrace, pk3),
                );
                lemma_assoc(
                    old(self).errs(),
                    sparams.errs,
                    seq![peek_err_msg(TokenKind::LBrace, pk3)],
                );
            }
            return None;
        }
        let ghost sbody = sp_block(toks, next_pos(toks, self.spec_pos()), (fuel - 1) as nat);
        self.next_token();
        let body = self.parse_block_statement(fuel - 1);
        proof {
            lemma_assoc(old(self).errs(), sparams.errs, sbody.errs);
        }
        Some(
            Expression::FunctionLiteral(Box::new(FunctionLiteral { parameters, body })),
        )
    }

    /// A comma-separated expression list, consuming the terminating token.
    fn parse_expression_list(&mut self, endk: TokenKind, fuel: u64) -> (r: Option<Vec<Expression>>)
        requires
            old(self).wf(),
        ensures
            final(self).wf(),
            final(self).toks() == old(self).toks(),
            ({
                let s = sp_expr_list(old(self).toks(), old(self).spec_pos(), endk, fuel as nat);
                &&& final(self).spec_pos() == s.pos
                &&& (match (r, s.val) {
                    (Some(v), Some(es)) => crate::ast::view_exprs(v@) == es,
                    (None, None) => true,
                    _ => false,
                })
                &&& final(self).errs() == old(self).errs() + s.errs
            }),
        decreases fuel,
    {
        if fuel == 0 {
            proof {
                lemma_unit(old(self).errs());
            }
            return None;
        }
        let ghost toks = self.toks();
        let ghost se = sp_expression(toks, self.spec_pos(), LOWEST, (fuel - 1) as nat);
        let e = self.parse_expression(LOWEST, fuel - 1);
        let ev = match e {
            None => {
                return None;
            },
            Some(x) => x,
        };
        let pk = self.peek_kind();
        if pk == TokenKind::Comma {
            self.next_token();
            self.next_token();
            let ghost srest = sp_expr_list(toks, self.spec_pos(), endk, (fuel - 1) as nat);
            let rest = self.parse_expression_list(endk, fuel - 1);
            proof {
                lemma_assoc(old(self).errs(), se.errs, srest.errs);
            }
            match rest {
                None => None,
                Some(es) => {
                    let mut tail = es;
                    let ghost restseq = tail@;
                    let mut out: Vec<Expression> = Vec::new();
                    out.push(ev);
                    out.append(&mut tail);
                    proof {
                        reveal_with_fuel(crate::ast::view_exprs, 2);
                        assert(seq![ev].drop_last() =~= Seq::<Expression>::empty());
                        assert(crate::ast::view_exprs(seq![ev]) =~= seq![view_expr(ev)]);
                        lemma_view_exprs_concat(seq![ev], restseq);
                        assert(out@ =~= seq![ev] + restseq);
                    }
                    Some(out)
                },
            }
        } else if pk == endk {
            self.next_token();
            let mut v: Vec<Expression> = Vec::new();
            v.push(ev);
            proof {
                reveal_with_fuel(crate::ast::view_exprs, 2);
                assert(seq![ev].drop_last() =~= Seq::<Expression>::empty());
                assert(v@ =~= seq![ev]);
                assert(crate::ast::view_exprs(v@) =~= seq![view_expr(ev)]);
            }
            Some(v)
        } else {
            self.expected_error(endk, pk);
            proof {
                lemma_push_as_concat(old(self).errs() + se.errs, peek_err_msg(endk, pk));
                lemma_assoc(old(self).errs(), se.errs, seq![peek_err_msg(endk, pk)]);
            }
            None
        }
    }

    /// A call: the callee is the expression parsed so far; the arguments
    /// stand between `(` and `)`.
    pub fn parse_call_expression(&mut self, function: Expression, fuel: u64) -> (r: Option<
        Expression,
    >)
        requires
            old(self).wf(),
        ensures
            final(self).wf(),
            final(self).toks() == old(self).toks(),
            ({
                let s = sp_call(old(self).toks(), old(self).spec_pos(), function@, fuel as nat);
                &&& final(self).spec_pos() == s.pos
                &&& opt_matches(r, s.val)
                &&& final(self).errs() == old(self).errs() + s.errs
            }),
        decreases fuel,
    {
        if fuel == 0 {
            proof {
                lemma_unit(old(self).errs());
            }
            return None;
        }
        if self.peek_kind() == TokenKind::RParen {
            self.next_token();
            let r = Some(
                Expression::Call(
                    Box::new(CallExpression { function, arguments: Vec::new() }),
                ),
            );
            proof {
                lemma_unit(old(self).errs());
                assert(crate::ast::view_exprs(Seq::<Expression>::empty())
                    =~= Seq::<ExprV>::empty());
            }
            r
        } else {
            self.next_token();
            let args = self.parse_expression_list(TokenKind::RParen, fuel - 1);
            match args {
                None => None,
                Some(arguments) => Some(
                    Expression::Call(Box::new(CallExpression { function, arguments })),
                ),
            }
        }
    }

    /// An array literal: elements between `[` and `]`.
    pub fn parse_array_literal(&mut self, fuel: u64) -> (r: Option<Expression>)
        requires
            old(self).wf(),
        ensures
            final(self).wf(),
            final(self).toks() == old(self).toks(),
            ({
                let s = sp_array(old(self).toks(), old(self).spec_pos(), fuel as nat);
                &&& final(self).spec_pos() == s.pos
                &&& opt_matches(r, s.val)
                &&& final(self).errs() == old(self).errs() + s.errs
            }),
        decreases fuel,
    {
        if fuel == 0 {
            proof {
                lemma_unit(old(self).errs());
            }
            return None;
        }
        if self.peek_kind() == TokenKind::RBracket {
            self.next_token();
            let r = Some(Expression::Array(Box::new(ArrayLiteral { elements: Vec::new() })));
            proof {
                lemma_unit(old(self).errs());
                assert(crate::ast::view_exprs(Seq::<Expression>::empty())
                    =~= Seq::<ExprV>::empty());
            }
            r
        } else {
            self.next_token();
            let els = self.parse_expression_list(TokenKind::RBracket, fuel - 1);
            match els {
                None => None,
                Some(elements) => Some(
                    Expression::Array(Box::new(ArrayLiteral { elements })),
                ),
            }
        }
    }

    /// An index expression: step past `[`, parse the index at `LOWEST`,
    /// demand the closing `]`.
    pub fn parse_index_expression(&mut self, left: Expression, fuel: u64) -> (r: Option<
        Expression,
    >)
        requires
            old(self).wf(),
        ensures
            final(self).wf(),
            final(self).toks() == old(self).toks(),
            ({
                let s = sp_index(old(self).toks(), old(self).spec_pos(), left@, fuel as nat);
                &&& final(self).spec_pos() == s.pos
                &&& opt_matches(r, s.val)
                &&& final(self).errs() == old(self).errs() + s.errs
            }),
        decreases fuel,
    {
        if fuel == 0 {
            proof {
                lemma_unit(old(self).errs());
            }
            return None;
        }
        let ghost toks = self.toks();
        self.next_token();
        let ghost ssub = sp_expression(toks, self.spec_pos(), LOWEST, (fuel - 1) as nat);
        let sub = self.parse_expression(LOWEST, fuel - 1);
        match sub {
            None => None,
            Some(index) => {
                let pk = self.peek_kind();
                if pk == TokenKind::RBracket {
                    self.next_token();
                    Some(Expression::Index(Box::new(IndexExpression { left, index })))
                } else {
                    self.expected_error(TokenKind::RBracket, pk);
                    proof {
                        lemma_push_as_concat(
                            old(self).errs() + ssub.errs,
                            peek_err_msg(TokenKind::RBracket, pk),
                        );
                        lemma_assoc(
                            old(self).errs(),
                            ssub.errs,
                            seq![peek_err_msg(TokenKind::RBracket, pk)],
                        );
                    }
                    None
                }
            },
        }
    }

    /// A `let` statement: `let NAME = EXPR`, an optional trailing
    /// semicolon.
    pub fn parse_let_statement(&mut self, fuel: u64) -> (r: Option<Statement>)
        requires
            old(self).wf(),
        ensures
            final(self).wf(),
            final(self).toks() == old(self).toks(),
            ({
                let s = sp_let(old(self).toks(), old(self).spec_pos(), fuel as nat);
                &&& final(self).spec_pos() == s.pos
                &&& opt_matches(r, s.val)
                &&& final(self).errs() == old(self).errs() + s.errs
            }),
        decreases fuel,
    {
        if fuel == 0 {
            proof {
                lemma_unit(old(self).errs());
            }
            return None;
        }
        let pk1 = self.peek_kind();
        if pk1 != TokenKind::Ident {
            self.peek_error(TokenKind::Ident);
            proof {
                lemma_push_as_concat(old(self).errs(), peek_err_msg(TokenKind::Ident, pk1));
            }
            return None;
        }
        self.next_token();
        let name = Identifier { value: self.cur_literal() };
        let pk2 = self.peek_kind();
        if pk2 != TokenKind::Assign {
            self.peek_error(TokenKind::Assign);
            proof {
                lemma_push_as_concat(old(self).errs(), peek_err_msg(TokenKind::Assign, pk2));
            }
            return None;
        }
        self.next_token();
        self.next_token();
        let v = self.parse_expression(LOWEST, fuel - 1);
        match v {
            None => None,
            Some(value) => {
                if self.peek_kind() == TokenKind::Semicolon {
                    self.next_token();
                }
                Some(Statement::Let(LetStatement { name, value }))
            },
        }
    }

    /// A `return` statement: `return EXPR`, an optional trailing
    /// semicolon.
    pub fn parse_return_statement(&mut self, fuel: u64) -> (r: Option<Statement>)
        requires
            old(self).wf(),
        ensures
            final(self).wf(),
            final(self).toks() == old(self).toks(),
            ({
                let s = sp_return(old(self).toks(), old(self).spec_pos(), fuel as nat);
                &&& final(self).spec_pos() == s.pos
                &&& opt_matches(r, s.val)
                &&& final(self).errs() == old(self).errs() + s.errs
            }),
        decreases fuel,
    {
        if fuel == 0 {
            proof {
                lemma_unit(old(self).errs());
            }
            return None;
        }
        self.next_token();
        let v = self.parse_expression(LOWEST, fuel - 1);
        match v {
            None => None,
            Some(return_value) => {
                if self.peek_kind() == TokenKind::Semicolon {
                    self.next_token();
                }
                Some(Statement::Return(ReturnStatement { return_value }))
            },
        }
    }

    /// An expression standing as a statement, an optional trailing
    /// semicolon.
    pub fn parse_expression_statement(&mut self, fuel: u64) -> (r: Option<Statement>)
        requires
            old(self).wf(),
        ensures
            final(self).wf(),
            final(self).toks() == old(self).toks(),
            ({
                let s = sp_expression_statement(old(self).toks(), old(self).spec_pos(), fuel as nat);
                &&& final(self).spec_pos() == s.pos
                &&& opt_matches(r, s.val)
                &&& final(self).errs() == old(self).errs() + s.errs
            }),
        decreases fuel,
    {
        if fuel == 0 {
            proof {
                lemma_unit(old(self).errs());
            }
            return None;
        }
        let e = self.parse_expression(LOWEST, fuel - 1);
        match e {
            None => None,
            Some(expression) => {
                if self.peek_kind() == TokenKind::Semicolon {
                    self.next_token();
                }
                Some(Statement::Expr(ExpressionStatement { expression }))
            },
        }
    }

    /// Statement dispatch on the current token.
    pub fn parse_statement(&mut self, fuel: u64) -> (r: Option<Statement>)
        requires
            old(self).wf(),
        ensures
            final(self).wf(),
            final(self).toks() == old(self).toks(),
            ({
                let s = sp_statement(old(self).toks(), old(self).spec_pos(), fuel as nat);
                &&& final(self).spec_pos() == s.pos
                &&& opt_matches(r, s.val)
                &&& final(self).errs() == old(self).errs() + s.errs
            }),
        decreases fuel,
    {
        if fuel == 0 {
            proof {
                lemma_unit(old(self).errs());
            }
            return None;
        }
        match self.cur_kind() {
            TokenKind::Let => self.parse_let_statement(fuel - 1),
            TokenKind::Return => self.parse_return_statement(fuel - 1),
            _ => self.parse_expression_statement(fuel - 1),
        }
    }

    /// The top-level loop: collect statements until end of input; a
    /// failed statement contributes nothing but its errors.
    #[verifier::rlimit(60)]
    fn parse_program_loop(&mut self, fuel: u64) -> (r: Vec<Statement>)
        requires
            old(self).wf(),
        ensures
            final(self).wf(),
            final(self).toks() == old(self).toks(),
            ({
                let s = sp_program_loop(old(self).toks(), old(self).spec_pos(), fuel as nat);
                &&& final(self).spec_pos() == s.pos
                &&& crate::ast::view_stmts(r@) == s.stmts
                &&& final(self).errs() == old(self).errs() + s.errs
            }),
        decreases fuel,
    {
        if fuel == 0 {
            let r: Vec<Statement> = Vec::new();
            proof {
                lemma_unit(old(self).errs());
                assert(crate::ast::view_stmts(r@) =~= Seq::<StmtV>::empty());
            }
            return r;
        }
        if self.cur_kind() == TokenKind::Eof {
            let r: Vec<Statement> = Vec::new();
            proof {
                lemma_unit(old(self).errs());
                assert(crate::ast::view_stmts(r@) =~= Seq::<StmtV>::empty());
            }
            return r;
        }
        let ghost toks = self.toks();
        let ghost sstmt = sp_statement(toks, self.spec_pos(), (fuel - 1) as nat);
        let st = self.parse_statement(fuel - 1);
        self.next_token();
        let ghost srest = sp_program_loop(toks, self.spec_pos(), (fuel - 1) as nat);
        let rest = self.parse_program_loop(fuel - 1);
        proof {
            lemma_assoc(old(self).errs(), sstmt.errs, srest.errs);
        }
        match st {
            Some(stv) => {
                let mut tail = rest;
                let ghost restseq = tail@;
                let mut out: Vec<Statement> = Vec::new();
                out.push(stv);
                out.append(&mut tail);
                proof {
                    reveal_with_fuel(crate::ast::view_stmts, 2);
                    assert(seq![stv].drop_last() =~= Seq::<Statement>::empty());
                    assert(crate::ast::view_stmts(seq![stv]) =~= seq![view_stmt(stv)]);
                    lemma_view_stmts_concat(seq![stv], restseq);
                    assert(out@ =~= seq![stv] + restseq);
                }
                out
            },
            None => rest,
        }
    }

    /// Parses the whole token stream into a program, collecting error
    /// messages along the way rather than stopping; the result is exactly
    /// what the mathematical parser prescribes for these tokens.
    pub fn parse_program(&mut self) -> (r: Option<Program>)
        requires
            old(self).wf(),
        ensures
            final(self).wf(),
            final(self).toks() == old(self).toks(),
            r is Some,
            ({
                let s = sp_program_loop(old(self).toks(), old(self).spec_pos(), start_fuel());
                &&& final(self).spec_pos() == s.pos
                &&& r->0@ == s.stmts
                &&& final(self).errs() == old(self).errs() + s.errs
            }),
    {
        let statements = self.parse_program_loop(u64::MAX);
        Some(Program { statements })
    }
}

} // verus!
