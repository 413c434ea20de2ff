//! The abstract syntax tree: expressions, statements, blocks and the
//! program root, their mathematical views, and the canonical pretty-printer
//! that fully parenthesises prefix and infix expressions.

use vstd::prelude::*;
use vstd::string::*;

use crate::numtext::{i32_to_string, spec_idec};

verus! {

/// A name appearing in source.
pub struct Identifier {
    pub value: String,
}

/// A signed 32-bit integer literal.
pub struct IntegerLiteral {
    pub value: i32,
}

/// A string literal.
pub struct StringLiteral {
    pub value: String,
}

/// A `true` or `false` literal.
pub struct BooleanLiteral {
    pub value: bool,
}

/// A prefix operator applied to an operand, `!x` or `-x`.
pub struct PrefixExpression {
    pub operator: String,
    pub right: Expression,
}

/// A binary operator between two operands.
pub struct InfixExpression {
    pub operator: String,
    pub left: Expression,
    pub right: Expression,
}

/// An ordered sequence of statements between braces.
pub struct BlockStatement {
    pub statements: Vec<Statement>,
}

/// `if (cond) { then } else { alt }`, the alternative optional.
pub struct IfExpression {
    pub condition: Expression,
    pub consequence: BlockStatement,
    pub alternative: Option<BlockStatement>,
}

/// `fn(params) { body }`.
pub struct FunctionLiteral {
    pub parameters: Vec<Identifier>,
    pub body: BlockStatement,
}

/// A call: a callee expression applied to arguments.
pub struct CallExpression {
    pub function: Expression,
    pub arguments: Vec<Expression>,
}

/// `[e1, e2, ...]`.
pub struct ArrayLiteral {
    pub elements: Vec<Expression>,
}

/// `target[index]`.
pub struct IndexExpression {
    pub left: Expression,
    pub index: Expression,
}

/// An expression node.
pub enum Expression {
    Identifier(Identifier),
    IntegerLiteral(IntegerLiteral),
    StringLiteral(StringLiteral),
    Boolean(BooleanLiteral),
    Prefix(Box<PrefixExpression>),
    Infix(Box<InfixExpression>),
    If(Box<IfExpression>),
    FunctionLiteral(Box<FunctionLiteral>),
    Call(Box<CallExpression>),
    Array(Box<ArrayLiteral>),
    Index(Box<IndexExpression>),
}

/// `let name = value;`.
pub struct LetStatement {
    pub name: Identifier,
    pub value: Expression,
}

/// `return value;`.
pub struct ReturnStatement {
    pub return_value: Expression,
}

/// An expression standing as a statement.
pub struct ExpressionStatement {
    pub expression: Expression,
}

/// A statement node.
pub enum Statement {
    Let(LetStatement),
    Return(ReturnStatement),
    Expr(ExpressionStatement),
}

/// The root of a parse: the top-level sequence of statements.
pub struct Program {
    pub statements: Vec<Statement>,
}

/// Mathematical image of an expression.
pub enum ExprV {
    Ident(Seq<char>),
    Int(i32),
    Str(Seq<char>),
    Bool(bool),
    Prefix { op: Seq<char>, right: Box<ExprV> },
    Infix { op: Seq<char>, left: Box<ExprV>, right: Box<ExprV> },
    If { cond: Box<ExprV>, cons: Seq<StmtV>, alt: Option<Seq<StmtV>> },
    Fn { params: Seq<Seq<char>>, body: Seq<StmtV> },
    Call { callee: Box<ExprV>, args: Seq<ExprV> },
    Arr(Seq<ExprV>),
    Index { left: Box<ExprV>, index: Box<ExprV> },
}

/// Mathematical image of a statement.
pub enum StmtV {
    Let { name: Seq<char>, value: ExprV },
    Ret(ExprV),
    Expr(ExprV),
}

/// The view of an expression node.
pub open spec fn view_expr(e: Expression) -> ExprV
    decreases e,
{
    match e {
        Expression::Identifier(id) => ExprV::Ident(id.value@),
        Expression::IntegerLiteral(il) => ExprV::Int(il.value),
        Expression::StringLiteral(sl) => ExprV::Str(sl.value@),
        Expression::Boolean(b) => ExprV::Bool(b.value),
        Expression::Prefix(p) => ExprV::Prefix {
            op: p.operator@,
            right: Box::new(view_expr(p.right)),
        },
        Expression::Infix(ix) => ExprV::Infix {
            op: ix.operator@,
            left: Box::new(view_expr(ix.left)),
            right: Box::new(view_expr(ix.right)),
        },
        Expression::If(f) => ExprV::If {
            cond: Box::new(view_expr(f.condition)),
            cons: view_stmts(f.consequence.statements@),
            alt: match f.alternative {
                Some(b) => Some(view_stmts(b.statements@)),
                None => None,
            },
        },
        Expression::FunctionLiteral(f) => ExprV::Fn {
            params: f.parameters@.map_values(|p: Identifier| p.value@),
            body: view_stmts(f.body.statements@),
        },
        Expression::Call(c) => ExprV::Call {
            callee: Box::new(view_expr(c.function)),
            args: view_exprs(c.arguments@),
        },
        Expression::Array(a) => ExprV::Arr(view_exprs(a.elements@)),
        Expression::Index(ix) => ExprV::Index {
            left: Box::new(view_expr(ix.left)),
            index: Box::new(view_expr(ix.index)),
        },
    }
}

/// The views of a sequence of expression nodes, in order.
pub open spec fn view_exprs(es: Seq<Expression>) -> Seq<ExprV>
    decreases es,
{
    if es.len() == 0 {
        Seq::empty()
    } else {
        view_exprs(es.drop_last()).push(view_expr(es.last()))
    }
}

/// The view of a statement node.
pub open spec fn view_stmt(s: Statement) -> StmtV
    decreases s,
{
    match s {
        Statement::Let(l) => StmtV::Let { name: l.name.value@, value: view_expr(l.value) },
        Statement::Return(r) => StmtV::Ret(view_expr(r.return_value)),
        Statement::Expr(e) => StmtV::Expr(view_expr(e.expression)),
    }
}

/// The views of a sequence of statement nodes, in order.
pub open spec fn view_stmts(ss: Seq<Statement>) -> Seq<StmtV>
    decreases ss,
{
    if ss.len() == 0 {
        Seq::empty()
    } else {
        view_stmts(ss.drop_last()).push(view_stmt(ss.last()))
    }
}

impl View for Expression {
    type V = ExprV;

    open spec fn view(&self) -> ExprV {
        view_expr(*self)
    }
}

impl View for Statement {
    type V = StmtV;

    open spec fn view(&self) -> StmtV {
        view_stmt(*self)
    }
}

impl View for BlockStatement {
    type V = Seq<StmtV>;

    open spec fn view(&self) -> Seq<StmtV> {
        view_stmts(self.statements@)
    }
}

impl View for Program {
    type V = Seq<StmtV>;

    open spec fn view(&self) -> Seq<StmtV> {
        view_stmts(self.statements@)
    }
}

/// The view of a pushed sequence extends the view of the prefix.
pub proof fn lemma_view_stmts_push(ss: Seq<Statement>, s: Statement)
    ensures
        view_stmts(ss.push(s)) == view_stmts(ss).push(view_stmt(s)),
{
    assert(ss.push(s).drop_last() =~= ss);
    assert(ss.push(s).last() == s);
}

/// The view of a pushed sequence extends the view of the prefix.
pub proof fn lemma_view_exprs_push(es: Seq<Expression>, e: Expression)
    ensures
        view_exprs(es.push(e)) == view_exprs(es).push(view_expr(e)),
{
    assert(es.push(e).drop_last() =~= es);
    assert(es.push(e).last() == e);
}

/// Element-wise reading of a viewed statement sequence.
pub proof fn lemma_view_stmts_len(ss: Seq<Statement>)
    ensures
        view_stmts(ss).len() == ss.len(),
        forall|i: int| 0 <= i < ss.len() ==> view_stmts(ss)[i] == view_stmt(ss[i]),
    decreases ss,
{
    if ss.len() > 0 {
        lemma_view_stmts_len(ss.drop_last());
    }
}

/// Element-wise reading of a viewed expression sequence.
pub proof fn lemma_view_exprs_len(es: Seq<Expression>)
    ensures
        view_exprs(es).len() == es.len(),
        forall|i: int| 0 <= i < es.len() ==> view_exprs(es)[i] == view_expr(es[i]),
    decreases es,
{
    if es.len() > 0 {
        lemma_view_exprs_len(es.drop_last());
    }
}

/// The canonical, fully parenthesised text of an expression.
pub open spec fn print_expr(e: ExprV) -> Seq<char>
    decreases e,
{
    match e {
        ExprV::Ident(n) => n,
        ExprV::Int(v) => spec_idec(v as int),
        ExprV::Str(s) => "\""@ + s + "\""@,
        ExprV::Bool(b) => if b {
            "true"@
        } else {
            "false"@
        },
        ExprV::Prefix { op, right } => "("@ + op + print_expr(*right) + ")"@,
        ExprV::Infix { op, left, right } => "("@ + print_expr(*left) + " "@ + op + " "@
            + print_expr(*right) + ")"@,
        ExprV::If { cond, cons, alt } => {
            let head = "if ("@ + print_expr(*cond) + ") { "@ + print_stmts(cons) + " }"@;
            match alt {
                Some(a) => head + " else { "@ + print_stmts(a) + " }"@,
                None => head,
            }
        },
        ExprV::Fn { params, body } => "fn("@ + join_names(params) + ") { "@ + print_stmts(body)
            + " }"@,
        ExprV::Call { callee, args } => print_expr(*callee) + "("@ + print_exprs(args) + ")"@,
        ExprV::Arr(es) => "["@ + print_exprs(es) + "]"@,
        ExprV::Index { left, index } => "("@ + print_expr(*left) + "["@ + print_expr(*index)
            + "])"@,
    }
}

/// The canonical text of a statement.
pub open spec fn print_stmt(s: StmtV) -> Seq<char>
    decreases s,
{
    match s {
        StmtV::Let { name, value } => "let "@ + name + " = "@ + print_expr(value) + ";"@,
        StmtV::Ret(e) => "return "@ + print_expr(e) + ";"@,
        StmtV::Expr(e) => print_expr(e),
    }
}

/// Statements of a block joined by single spaces.
pub open spec fn print_stmts(ss: Seq<StmtV>) -> Seq<char>
    decreases ss,
{
    if ss.len() == 0 {
        Seq::empty()
    } else if ss.len() == 1 {
        print_stmt(ss[0])
    } else {
        print_stmts(ss.drop_last()) + " "@ + print_stmt(ss.last())
    }
}

/// Expressions joined by `, `.
pub open spec fn print_exprs(es: Seq<ExprV>) -> Seq<char>
    decreases es,
{
    if es.len() == 0 {
        Seq::empty()
    } else if es.len() == 1 {
        print_expr(es[0])
    } else {
        print_exprs(es.drop_last()) + ", "@ + print_expr(es.last())
    }
}

/// Names joined by `, `.
pub open spec fn join_names(ns: Seq<Seq<char>>) -> Seq<char>
    decreases ns,
{
    if ns.len() == 0 {
        Seq::empty()
    } else if ns.len() == 1 {
        ns[0]
    } else {
        join_names(ns.drop_last()) + ", "@ + ns.last()
    }
}

/// The canonical text of a whole program: each statement's text followed by
/// a newline.
pub open spec fn print_program(ss: Seq<StmtV>) -> Seq<char>
    decreases ss,
{
    if ss.len() == 0 {
        Seq::empty()
    } else {
        print_program(ss.drop_last()) + print_stmt(ss.last()) + "\n"@
    }
}

impl Clone for Identifier {
    fn clone(&self) -> (r: Self)
        ensures
            r.value@ == self.value@,
    {
        Identifier { value: self.value.clone() }
    }
}

impl Expression {
    /// A structural copy whose view equals this node's view.
    #[verifier::loop_isolation(false)]
    pub fn duplicate(&self) -> (r: Expression)
        ensures
            r@ == self@,
        decreases *self,
    {
        match self {
            Expression::Identifier(id) => Expression::Identifier(
                Identifier { value: id.value.clone() },
            ),
            Expression::IntegerLiteral(il) => Expression::IntegerLiteral(
                IntegerLiteral { value: il.value },
            ),
            Expression::StringLiteral(sl) => Expression::StringLiteral(
                StringLiteral { value: sl.value.clone() },
            ),
            Expression::Boolean(b) => Expression::Boolean(BooleanLiteral { value: b.value }),
            Expression::Prefix(p) => Expression::Prefix(
                Box::new(
                    PrefixExpression { operator: p.operator.clone(), right: p.right.duplicate() },
                ),
            ),
            Expression::Infix(ix) => Expression::Infix(
                Box::new(
                    InfixExpression {
                        operator: ix.operator.clone(),
                        left: ix.left.duplicate(),
                        right: ix.right.duplicate(),
                    },
                ),
            ),
            Expression::If(f) => Expression::If(
                Box::new(
                    IfExpression {
                        condition: f.condition.duplicate(),
                        consequence: f.consequence.duplicate(),
                        alternative: match &f.alternative {
                            Some(b) => Some(b.duplicate()),
                            None => None,
                        },
                    },
                ),
            ),
            Expression::FunctionLiteral(f) => {
                let mut params: Vec<Identifier> = Vec::new();
                let mut i: usize = 0;
                while i < f.parameters.len()
                    invariant
                        0 <= i <= f.parameters.len(),
                        params@.len() == i,
                        forall|k: int|
                            0 <= k < i ==> params@[k].value@ == f.parameters@[k].value@,
                    decreases f.parameters.len() - i,
                {
                    params.push(f.parameters[i].clone());
                    i = i + 1;
                }
                proof {
                    assert(params@.map_values(|p: Identifier| p.value@) =~= f.parameters@
                        .map_values(|p: Identifier| p.value@));
                }
                Expression::FunctionLiteral(
                    Box::new(FunctionLiteral { parameters: params, body: f.body.duplicate() }),
                )
            },
            Expression::Call(c) => {
                let mut args: Vec<Expression> = Vec::new();
                let mut i: usize = 0;
                while i < c.arguments.len()
                    invariant
                        0 <= i <= c.arguments.len(),
                        view_exprs(args@) == view_exprs(c.arguments@.take(i as int)),
                    decreases c.arguments.len() - i,
                {
                    proof {
                        assert(decreases_to!(*self => (*self)->Call_0.arguments@[i as int]));
                        assert((*self)->Call_0.arguments@[i as int] == c.arguments@[i as int]);
                    }
                    let d = c.arguments[i].duplicate();
                    proof {
                        lemma_view_exprs_push(args@, d);
                        lemma_view_exprs_push(
                            c.arguments@.take(i as int),
                            c.arguments@[i as int],
                        );
                        assert(c.arguments@.take(i as int).push(c.arguments@[i as int])
                            =~= c.arguments@.take(i + 1));
                    }
                    args.push(d);
                    i = i + 1;
                }
                proof {
                    assert(c.arguments@.take(c.arguments@.len() as int) =~= c.arguments@);
                }
                Expression::Call(
                    Box::new(CallExpression { function: c.function.duplicate(), arguments: args }),
                )
            },
            Expression::Array(a) => {
                let mut elems: Vec<Expression> = Vec::new();
                let mut i: usize = 0;
                while i < a.elements.len()
                    invariant
                        0 <= i <= a.elements.len(),
                        view_exprs(elems@) == view_exprs(a.elements@.take(i as int)),
                    decreases a.elements.len() - i,
                {
                    proof {
                        assert(decreases_to!(*self => (*self)->Array_0.elements@[i as int]));
                        assert((*self)->Array_0.elements@[i as int] == a.elements@[i as int]);
                    }
                    let d = a.elements[i].duplicate();
                    proof {
                        lemma_view_exprs_push(elems@, d);
                        lemma_view_exprs_push(a.elements@.take(i as int), a.elements@[i as int]);
                        assert(a.elements@.take(i as int).push(a.elements@[i as int])
                            =~= a.elements@.take(i + 1));
                    }
                    elems.push(d);
                    i = i + 1;
                }
                proof {
                    assert(a.elements@.take(a.elements@.len() as int) =~= a.elements@);
                }
                Expression::Array(Box::new(ArrayLiteral { elements: elems }))
            },
            Expression::Index(ix) => Expression::Index(
                Box::new(
                    IndexExpression { left: ix.left.duplicate(), index: ix.index.duplicate() },
                ),
            ),
        }
    }
}

impl Statement {
    /// A structural copy whose view equals this node's view.
    pub fn duplicate(&self) -> (r: Statement)
        ensures
            r@ == self@,
        decreases *self,
    {
        match self {
            Statement::Let(l) => Statement::Let(
                LetStatement {
                    name: Identifier { value: l.name.value.clone() },
                    value: l.value.duplicate(),
                },
            ),
            Statement::Return(rs) => Statement::Return(
                ReturnStatement { return_value: rs.return_value.duplicate() },
            ),
            Statement::Expr(e) => Statement::Expr(
                ExpressionStatement { expression: e.expression.duplicate() },
            ),
        }
    }
}

impl BlockStatement {
    /// A structural copy whose view equals this block's view.
    pub fn duplicate(&self) -> (r: BlockStatement)
        ensures
            r@ == self@,
        decreases *self,
    {
        let mut stmts: Vec<Statement> = Vec::new();
        let mut i: usize = 0;
        while i < self.statements.len()
            invariant
                0 <= i <= self.statements.len(),
                view_stmts(stmts@) == view_stmts(self.statements@.take(i as int)),
            decreases self.statements.len() - i,
        {
            let d = self.statements[i].duplicate();
            proof {
                lemma_view_stmts_push(stmts@, d);
                lemma_view_stmts_push(self.statements@.take(i as int), self.statements@[i as int]);
                assert(self.statements@.take(i as int).push(self.statements@[i as int])
                    =~= self.statements@.take(i + 1));
            }
            stmts.push(d);
            i = i + 1;
        }
        proof {
            assert(self.statements@.take(self.statements@.len() as int) =~= self.statements@);
        }
        BlockStatement { statements: stmts }
    }
}

impl Expression {
    /// Renders this expression as its canonical, fully parenthesised text.
    #[verifier::loop_isolation(false)]
    pub fn print(&self) -> (r: String)
        ensures
            r@ == print_expr(self@),
        decreases *self,
    {
        match self {
            Expression::Identifier(id) => id.value.clone(),
            Expression::IntegerLiteral(il) => i32_to_string(il.value),
            Expression::StringLiteral(sl) => {
                let mut r = String::from_str("\"");
                r.append(sl.value.as_str());
                r.append("\"");
                r
            },
            Expression::Boolean(b) => {
                if b.value {
                    String::from_str("true")
                } else {
                    String::from_str("false")
                }
            },
            Expression::Prefix(p) => {
                let mut r = String::from_str("(");
                r.append(p.operator.as_str());
                r.append(p.right.print().as_str());
                r.append(")");
                r
            },
            Expression::Infix(ix) => {
                let mut r = String::from_str("(");
                r.append(ix.left.print().as_str());
                r.append(" ");
                r.append(ix.operator.as_str());
                r.append(" ");
                r.append(ix.right.print().as_str());
                r.append(")");
                r
            },
            Expression::If(f) => {
                proof {
                    assert(decreases_to!(*self => (*self)->If_0.consequence.statements@));
                }
                let mut r = String::from_str("if (");
                r.append(f.condition.print().as_str());
                r.append(") { ");
                r.append(print_statements(&f.consequence.statements).as_str());
                r.append(" }");
                match &f.alternative {
                    Some(b) => {
                        proof {
                            assert(decreases_to!(
                                *self => (*self)->If_0.alternative->0.statements@));
                        }
                        r.append(" else { ");
                        r.append(print_statements(&b.statements).as_str());
                        r.append(" }");
                    },
                    None => {},
                }
                r
            },
            Expression::FunctionLiteral(f) => {
                proof {
                    assert(decreases_to!(*self => (*self)->FunctionLiteral_0.body.statements@));
                }
                let ghost ps = f.parameters@.map_values(|p: Identifier| p.value@);
                let mut r = String::from_str("fn(");
                let mut i: usize = 0;
                while i < f.parameters.len()
                    invariant
                        0 <= i <= f.parameters.len(),
                        r@ == "fn("@ + join_names(ps.take(i as int)),
                    decreases f.parameters.len() - i,
                {
                    if i > 0 {
                        r.append(", ");
                    }
                    r.append(f.parameters[i].value.as_str());
                    proof {
                        assert(ps.take(i + 1).drop_last() =~= ps.take(i as int));
                        assert(ps.take(i + 1).last() == ps[i as int]);
                    }
                    i = i + 1;
                }
                proof {
                    assert(ps.take(ps.len() as int) =~= ps);
                }
                r.append(") { ");
                r.append(print_statements(&f.body.statements).as_str());
                r.append(" }");
                r
            },
            Expression::Call(c) => {
                proof {
                    assert(decreases_to!(*self => (*self)->Call_0.arguments@));
                }
                let mut r = c.function.print();
                r.append("(");
                r.append(print_expressions(&c.arguments).as_str());
                r.append(")");
                r
            },
            Expression::Array(a) => {
                proof {
                    assert(decreases_to!(*self => (*self)->Array_0.elements@));
                }
                let mut r = String::from_str("[");
                r.append(print_expressions(&a.elements).as_str());
                r.append("]");
                r
            },
            Expression::Index(ix) => {
                let mut r = String::from_str("(");
                r.append(ix.left.print().as_str());
                r.append("[");
                r.append(ix.index.print().as_str());
                r.append("])");
                r
            },
        }
    }
}

impl Statement {
    /// Renders this statement as its canonical text.
    pub fn print(&self) -> (r: String)
        ensures
            r@ == print_stmt(self@),
        decreases *self,
    {
        match self {
            Statement::Let(l) => {
                let mut r = String::from_str("let ");
                r.append(l.name.value.as_str());
                r.append(" = ");
                r.append(l.value.print().as_str());
                r.append(";");
                r
            },
            Statement::Return(rs) => {
                let mut r = String::from_str("return ");
                r.append(rs.return_value.print().as_str());
                r.append(";");
                r
            },
            Statement::Expr(e) => e.expression.print(),
        }
    }
}

/// Renders a block's statements joined by single spaces.
#[verifier::loop_isolation(false)]
pub fn print_statements(ss: &Vec<Statement>) -> (r: String)
    ensures
        r@ == print_stmts(view_stmts(ss@)),
    decreases ss@,
{
    let ghost gs = view_stmts(ss@);
    proof {
        lemma_view_stmts_len(ss@);
    }
    let mut r = String::new();
    let mut i: usize = 0;
    while i < ss.len()
        invariant
            0 <= i <= ss.len(),
            r@ == print_stmts(gs.take(i as int)),
        decreases ss.len() - i,
    {
        if i > 0 {
            r.append(" ");
        }
        r.append(ss[i].print().as_str());
        proof {
            assert(gs.take(i + 1).drop_last() =~= gs.take(i as int));
            assert(gs.take(i + 1).last() == gs[i as int]);
        }
        i = i + 1;
    }
    proof {
        assert(gs.take(gs.len() as int) =~= gs);
    }
    r
}

/// Renders expressions joined by `, `.
#[verifier::loop_isolation(false)]
fn print_expressions(es: &Vec<Expression>) -> (r: String)
    ensures
        r@ == print_exprs(view_exprs(es@)),
    decreases es@,
{
    let ghost ge = view_exprs(es@);
    proof {
        lemma_view_exprs_len(es@);
    }
    let mut r = String::new();
    let mut i: usize = 0;
    while i < es.len()
        invariant
            0 <= i <= es.len(),
            r@ == print_exprs(ge.take(i as int)),
        decreases es.len() - i,
    {
        if i > 0 {
            r.append(", ");
        }
        r.append(es[i].print().as_str());
        proof {
            assert(ge.take(i + 1).drop_last() =~= ge.take(i as int));
            assert(ge.take(i + 1).last() == ge[i as int]);
        }
        i = i + 1;
    }
    proof {
        assert(ge.take(ge.len() as int) =~= ge);
    }
    r
}

impl Program {
    /// Renders the whole program: each statement's canonical text followed
    /// by a newline.
    #[verifier::loop_isolation(false)]
    pub fn to_string(&self) -> (r: String)
        ensures
            r@ == print_program(self@),
    {
        let ghost gs = view_stmts(self.statements@);
        proof {
            lemma_view_stmts_len(self.statements@);
        }
        let mut r = String::new();
        let mut i: usize = 0;
        while i < self.statements.len()
            invariant
                0 <= i <= self.statements.len(),
                r@ == print_program(gs.take(i as int)),
            decreases self.statements.len() - i,
        {
            r.append(self.statements[i].print().as_str());
            r.append("\n");
            proof {
                assert(gs.take(i + 1).drop_last() =~= gs.take(i as int));
                assert(gs.take(i + 1).last() == gs[i as int]);
            }
            i = i + 1;
        }
        proof {
            assert(gs.take(gs.len() as int) =~= gs);
        }
        r
    }
}

/// The head lexeme of an expression, as its leading token read.
pub open spec fn spec_expr_token_literal(e: ExprV) -> Seq<char> {
    match e {
        ExprV::Ident(n) => n,
        ExprV::Int(v) => spec_idec(v as int),
        ExprV::Str(s) => s,
        ExprV::Bool(b) => if b {
            "true"@
        } else {
            "false"@
        },
        ExprV::Prefix { op, .. } => op,
        ExprV::Infix { op, .. } => op,
        ExprV::If { .. } => "if"@,
        ExprV::Fn { .. } => "fn"@,
        ExprV::Call { .. } => "("@,
        ExprV::Arr(..) => "["@,
        ExprV::Index { .. } => "["@,
    }
}

/// The head lexeme of a statement, as its leading token read.
pub open spec fn spec_stmt_token_literal(s: StmtV) -> Seq<char> {
    match s {
        StmtV::Let { .. } => "let"@,
        StmtV::Ret(..) => "return"@,
        StmtV::Expr(e) => spec_expr_token_literal(e),
    }
}

impl Identifier {
    /// The lexeme this identifier was read from: its name.
    pub fn token_literal(&self) -> (r: String)
        ensures
            r@ == self.value@,
    {
        self.value.clone()
    }
}

impl IntegerLiteral {
    /// The lexeme this literal denotes, in canonical decimal.
    pub fn token_literal(&self) -> (r: String)
        ensures
            r@ == spec_idec(self.value as int),
    {
        i32_to_string(self.value)
    }
}

impl Expression {
    /// The head lexeme of this expression.
    pub fn token_literal(&self) -> (r: String)
        ensures
            r@ == spec_expr_token_literal(self@),
    {
        match self {
            Expression::Identifier(id) => id.value.clone(),
            Expression::IntegerLiteral(il) => i32_to_string(il.value),
            Expression::StringLiteral(sl) => sl.value.clone(),
            Expression::Boolean(b) => {
                if b.value {
                    String::from_str("true")
                } else {
                    String::from_str("false")
                }
            },
            Expression::Prefix(p) => p.operator.clone(),
            Expression::Infix(ix) => ix.operator.clone(),
            Expression::If(..) => String::from_str("if"),
            Expression::FunctionLiteral(..) => String::from_str("fn"),
            Expression::Call(..) => String::from_str("("),
            Expression::Array(..) => String::from_str("["),
            Expression::Index(..) => String::from_str("["),
        }
    }
}

impl Statement {
    /// The head lexeme of this statement: its keyword, or the head lexeme of
    /// the expression it consists of.
    pub fn token_literal(&self) -> (r: String)
        ensures
            r@ == spec_stmt_token_literal(self@),
    {
        match self {
            Statement::Let(..) => String::from_str("let"),
            Statement::Return(..) => String::from_str("return"),
            Statement::Expr(e) => e.expression.token_literal(),
        }
    }
}

impl Expression {
    /// True exactly when the two expressions are the same tree.
    #[verifier::loop_isolation(false)]
    pub fn same_ast(&self, other: &Expression) -> (r: bool)
        ensures
            r == (self@ == other@),
        decreases *self,
    {
        match (self, other) {
            (Expression::Identifier(a), Expression::Identifier(b)) => a.value.eq(&b.value),
            (Expression::IntegerLiteral(a), Expression::IntegerLiteral(b)) => a.value == b.value,
            (Expression::StringLiteral(a), Expression::StringLiteral(b)) => a.value.eq(&b.value),
            (Expression::Boolean(a), Expression::Boolean(b)) => a.value == b.value,
            (Expression::Prefix(a), Expression::Prefix(b)) => a.operator.eq(&b.operator)
                && a.right.same_ast(&b.right),
            (Expression::Infix(a), Expression::Infix(b)) => a.operator.eq(&b.operator)
                && a.left.same_ast(&b.left) && a.right.same_ast(&b.right),
            (Expression::If(a), Expression::If(b)) => {
                proof {
                    assert(decreases_to!(*self => (*self)->If_0.consequence.statements@));
                }
                let conds = a.condition.same_ast(&b.condition);
                let conseq = same_statements(&a.consequence.statements, &b.consequence.statements);
                let alts = match (&a.alternative, &b.alternative) {
                    (None, None) => true,
                    (Some(x), Some(y)) => {
                        proof {
                            assert(decreases_to!(
                                *self => (*self)->If_0.alternative->0.statements@));
                        }
                        same_statements(&x.statements, &y.statements)
                    },
                    (_, _) => false,
                };
                conds && conseq && alts
            },
            (Expression::FunctionLiteral(a), Expression::FunctionLiteral(b)) => {
                proof {
                    assert(decreases_to!(*self => (*self)->FunctionLiteral_0.body.statements@));
                }
                let ghost pa = a.parameters@.map_values(|p: Identifier| p.value@);
                let ghost pb = b.parameters@.map_values(|p: Identifier| p.value@);
                if a.parameters.len() != b.parameters.len() {
                    proof {
                        assert(pa.len() != pb.len());
                    }
                    return false;
                }
                let mut i: usize = 0;
                while i < a.parameters.len()
                    invariant
                        0 <= i <= a.parameters.len(),
                        a.parameters@.len() == b.parameters@.len(),
                        forall|k: int| 0 <= k < i ==> pa[k] == pb[k],
                    decreases a.parameters.len() - i,
                {
                    if !a.parameters[i].value.eq(&b.parameters[i].value) {
                        proof {
                            assert(pa[i as int] != pb[i as int]);
                        }
                        return false;
                    }
                    i = i + 1;
                }
                proof {
                    assert(pa =~= pb);
                }
                same_statements(&a.body.statements, &b.body.statements)
            },
            (Expression::Call(a), Expression::Call(b)) => {
                proof {
                    assert(decreases_to!(*self => (*self)->Call_0.arguments@));
                }
                a.function.same_ast(&b.function) && same_expressions(&a.arguments, &b.arguments)
            },
            (Expression::Array(a), Expression::Array(b)) => {
                proof {
                    assert(decreases_to!(*self => (*self)->Array_0.elements@));
                }
                same_expressions(&a.elements, &b.elements)
            },
            (Expression::Index(a), Expression::Index(b)) => a.left.same_ast(&b.left)
                && a.index.same_ast(&b.index),
            (_, _) => false,
        }
    }
}

impl Statement {
    /// True exactly when the two statements are the same tree.
    pub fn same_ast(&self, other: &Statement) -> (r: bool)
        ensures
            r == (self@ == other@),
        decreases *self,
    {
        match (self, other) {
            (Statement::Let(a), Statement::Let(b)) => a.name.value.eq(&b.name.value)
                && a.value.same_ast(&b.value),
            (Statement::Return(a), Statement::Return(b)) => a.return_value.same_ast(
                &b.return_value,
            ),
            (Statement::Expr(a), Statement::Expr(b)) => a.expression.same_ast(&b.expression),
            (_, _) => false,
        }
    }
}

/// True exactly when the two statement runs are the same, element by
/// element.
#[verifier::loop_isolation(false)]
pub fn same_statements(x: &Vec<Statement>, y: &Vec<Statement>) -> (r: bool)
    ensures
        r == (view_stmts(x@) == view_stmts(y@)),
    decreases x@,
{
    proof {
        lemma_view_stmts_len(x@);
        lemma_view_stmts_len(y@);
    }
    if x.len() != y.len() {
        return false;
    }
    let mut i: usize = 0;
    while i < x.len()
        invariant
            0 <= i <= x@.len(),
            x@.len() == y@.len(),
            forall|k: int| 0 <= k < i ==> view_stmts(x@)[k] == view_stmts(y@)[k],
        decreases x@.len() - i,
    {
        if !x[i].same_ast(&y[i]) {
            proof {
                assert(view_stmts(x@)[i as int] == view_stmt(x@[i as int]));
                assert(view_stmts(y@)[i as int] == view_stmt(y@[i as int]));
            }
            return false;
        }
        i = i + 1;
    }
    proof {
        assert(view_stmts(x@) =~= view_stmts(y@));
    }
    true
}

/// True exactly when the two expression runs are the same, element by
/// element.
#[verifier::loop_isolation(false)]
pub fn same_expressions(x: &Vec<Expression>, y: &Vec<Expression>) -> (r: bool)
    ensures
        r == (view_exprs(x@) == view_exprs(y@)),
    decreases x@,
{
    proof {
        lemma_view_exprs_len(x@);
        lemma_view_exprs_len(y@);
    }
    if x.len() != y.len() {
        return false;
    }
    let mut i: usize = 0;
    while i < x.len()
        invariant
            0 <= i <= x@.len(),
            x@.len() == y@.len(),
            forall|k: int| 0 <= k < i ==> view_exprs(x@)[k] == view_exprs(y@)[k],
        decreases x@.len() - i,
    {
        if !x[i].same_ast(&y[i]) {
            proof {
                assert(view_exprs(x@)[i as int] == view_expr(x@[i as int]));
                assert(view_exprs(y@)[i as int] == view_expr(y@[i as int]));
            }
            return false;
        }
        i = i + 1;
    }
    proof {
        assert(view_exprs(x@) =~= view_exprs(y@));
    }
    true
}

impl Program {
    /// True exactly when the two programs are the same tree.
    pub fn same_ast(&self, other: &Program) -> (r: bool)
        ensures
            r == (self@ == other@),
    {
        same_statements(&self.statements, &other.statements)
    }
}

} // verus!
