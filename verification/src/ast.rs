//! The statement and expression tree the evaluator consumes.
//!
//! The external parser hands the evaluator an `AbstractSyntaxTree`. Each node
//! has a mathematical mirror (`SpecStatement`, `SpecExpression`,
//! `SpecLiteral`) over `int`, `Seq` and friends; the `*_view` functions map
//! the executable tree onto it, and the `*_wf` predicates say that every
//! numeric literal in the tree is in canonical form.

use vstd::prelude::*;

use crate::bignum::Bignum;
use crate::rational::Rat;

verus! {

/// A prefix operator.
#[derive(Clone, Copy, PartialEq, Eq, Structural, Debug)]
pub enum Prefix {
    Not,
    Plus,
    Minus,
}

/// An infix operator.
#[derive(Clone, Copy, PartialEq, Eq, Structural, Debug)]
pub enum Infix {
    Plus,
    Minus,
    Multiply,
    Divide,
    Equal,
    NotEqual,
    LessThan,
    LessThanEqual,
    GreaterThan,
    GreaterThanEqual,
}

/// A literal expression.
#[derive(Debug)]
pub enum Literal {
    Null,
    Integer(Bignum),
    Float(Rat),
    Boolean(bool),
    Str(String),
    Vector(Vec<Expression>),
    HashMap(Vec<(Expression, Expression)>),
}

/// An expression.
#[derive(Debug)]
pub enum Expression {
    Identifier(String),
    Literal(Literal),
    Prefix(Prefix, Box<Expression>),
    Infix(Infix, Box<Expression>, Box<Expression>),
    Fn { params: Vec<String>, body: Vec<Statement> },
    Call { function: Box<Expression>, arguments: Vec<Expression> },
    Index(Box<Expression>, Box<Expression>),
    Attribute(Box<Expression>, String),
}

/// A statement.
#[derive(Debug)]
pub enum Statement {
    Let(String, Expression),
    Fn { name: String, params: Vec<String>, body: Vec<Statement> },
    Expression(Expression),
    ExpressionReturn(Expression),
    Import(String),
}

/// A parsed program: an ordered statement sequence.
#[derive(Debug)]
pub struct AbstractSyntaxTree {
    pub statements: Vec<Statement>,
}

/// The mathematical mirror of a `Literal`.
pub enum SpecLiteral {
    Null,
    Integer(int),
    Float(int, int),
    Boolean(bool),
    Str(Seq<char>),
    Vector(Seq<SpecExpression>),
    HashMap(Seq<(SpecExpression, SpecExpression)>),
}

/// The mathematical mirror of an `Expression`.
pub enum SpecExpression {
    Identifier(Seq<char>),
    Literal(SpecLiteral),
    Prefix(Prefix, Box<SpecExpression>),
    Infix(Infix, Box<SpecExpression>, Box<SpecExpression>),
    Fn { params: Seq<Seq<char>>, body: Seq<SpecStatement> },
    Call { function: Box<SpecExpression>, arguments: Seq<SpecExpression> },
    Index(Box<SpecExpression>, Box<SpecExpression>),
    Attribute(Box<SpecExpression>, Seq<char>),
}

/// The mathematical mirror of a `Statement`.
pub enum SpecStatement {
    Let(Seq<char>, SpecExpression),
    Fn { name: Seq<char>, params: Seq<Seq<char>>, body: Seq<SpecStatement> },
    Expression(SpecExpression),
    ExpressionReturn(SpecExpression),
    Import(Seq<char>),
}

/// The views of a parameter-name list.
pub open spec fn params_view(ps: Seq<String>) -> Seq<Seq<char>> {
    Seq::new(ps.len(), |i: int| ps[i]@)
}

/// The mirror of a literal.
pub open spec fn lit_view(l: Literal) -> SpecLiteral
    decreases l,
{
    match l {
        Literal::Null => SpecLiteral::Null,
        Literal::Integer(b) => SpecLiteral::Integer(b.as_int()),
        Literal::Float(r) => SpecLiteral::Float(r.num_int(), r.den_int()),
        Literal::Boolean(b) => SpecLiteral::Boolean(b),
        Literal::Str(s) => SpecLiteral::Str(s@),
        Literal::Vector(es) => SpecLiteral::Vector(exprs_view(es@)),
        Literal::HashMap(ps) => SpecLiteral::HashMap(expr_pairs_view(ps@)),
    }
}

/// The mirrors of an expression sequence.
pub open spec fn exprs_view(es: Seq<Expression>) -> Seq<SpecExpression>
    decreases es,
{
    Seq::new(
        es.len(),
        |i: int|
            if 0 <= i < es.len() {
                expr_view(es[i])
            } else {
                SpecExpression::Identifier(Seq::empty())
            },
    )
}

/// The mirrors of a key/value expression pair sequence.
pub open spec fn expr_pairs_view(ps: Seq<(Expression, Expression)>) -> Seq<
    (SpecExpression, SpecExpression),
>
    decreases ps,
{
    Seq::new(
        ps.len(),
        |i: int|
            if 0 <= i < ps.len() {
                (expr_view(ps[i].0), expr_view(ps[i].1))
            } else {
                (SpecExpression::Identifier(Seq::empty()), SpecExpression::Identifier(Seq::empty()))
            },
    )
}

/// The mirror of an expression.
pub open spec fn expr_view(e: Expression) -> SpecExpression
    decreases e,
{
    match e {
        Expression::Identifier(name) => SpecExpression::Identifier(name@),
        Expression::Literal(l) => SpecExpression::Literal(lit_view(l)),
        Expression::Prefix(op, inner) => SpecExpression::Prefix(op, Box::new(expr_view(*inner))),
        Expression::Infix(op, left, right) => SpecExpression::Infix(
            op,
            Box::new(expr_view(*left)),
            Box::new(expr_view(*right)),
        ),
        Expression::Fn { params, body } => SpecExpression::Fn {
            params: params_view(params@),
            body: stmts_view(body@),
        },
        Expression::Call { function, arguments } => SpecExpression::Call {
            function: Box::new(expr_view(*function)),
            arguments: exprs_view(arguments@),
        },
        Expression::Index(target, index) => SpecExpression::Index(
            Box::new(expr_view(*target)),
            Box::new(expr_view(*index)),
        ),
        Expression::Attribute(target, name) => SpecExpression::Attribute(
            Box::new(expr_view(*target)),
            name@,
        ),
    }
}

/// The mirrors of a statement sequence.
pub open spec fn stmts_view(ss: Seq<Statement>) -> Seq<SpecStatement>
    decreases ss,
{
    Seq::new(
        ss.len(),
        |i: int|
            if 0 <= i < ss.len() {
                stmt_view(ss[i])
            } else {
                SpecStatement::Import(Seq::empty())
            },
    )
}

/// The mirror of a statement.
pub open spec fn stmt_view(s: Statement) -> SpecStatement
    decreases s,
{
    match s {
        Statement::Let(name, e) => SpecStatement::Let(name@, expr_view(e)),
        Statement::Fn { name, params, body } => SpecStatement::Fn {
            name: name@,
            params: params_view(params@),
            body: stmts_view(body@),
        },
        Statement::Expression(e) => SpecStatement::Expression(expr_view(e)),
        Statement::ExpressionReturn(e) => SpecStatement::ExpressionReturn(expr_view(e)),
        Statement::Import(path) => SpecStatement::Import(path@),
    }
}

impl View for Literal {
    type V = SpecLiteral;

    open spec fn view(&self) -> SpecLiteral {
        lit_view(*self)
    }
}

impl View for Expression {
    type V = SpecExpression;

    open spec fn view(&self) -> SpecExpression {
        expr_view(*self)
    }
}

impl View for Statement {
    type V = SpecStatement;

    open spec fn view(&self) -> SpecStatement {
        stmt_view(*self)
    }
}

impl View for AbstractSyntaxTree {
    type V = Seq<SpecStatement>;

    open spec fn view(&self) -> Seq<SpecStatement> {
        stmts_view(self.statements@)
    }
}

/// Every numeric literal in the literal is canonical.
pub open spec fn lit_wf(l: Literal) -> bool
    decreases l,
{
    match l {
        Literal::Null => true,
        Literal::Integer(b) => b.wf(),
        Literal::Float(r) => r.wf(),
        Literal::Boolean(_) => true,
        Literal::Str(_) => true,
        Literal::Vector(es) => exprs_wf(es@),
        Literal::HashMap(ps) => expr_pairs_wf(ps@),
    }
}

/// Every numeric literal in the sequence is canonical.
pub open spec fn exprs_wf(es: Seq<Expression>) -> bool
    decreases es,
{
    forall|i: int| 0 <= i < es.len() ==> expr_wf(#[trigger] es[i])
}

/// Every numeric literal in the pair sequence is canonical.
pub open spec fn expr_pairs_wf(ps: Seq<(Expression, Expression)>) -> bool
    decreases ps,
{
    forall|i: int|
        0 <= i < ps.len() ==> expr_wf(#[trigger] ps[i].0) && expr_wf(ps[i].1)
}

/// Every numeric literal in the expression is canonical.
pub open spec fn expr_wf(e: Expression) -> bool
    decreases e,
{
    match e {
        Expression::Identifier(_) => true,
        Expression::Literal(l) => lit_wf(l),
        Expression::Prefix(_, inner) => expr_wf(*inner),
        Expression::Infix(_, left, right) => expr_wf(*left) && expr_wf(*right),
        Expression::Fn { params: _, body } => stmts_wf(body@),
        Expression::Call { function, arguments } => expr_wf(*function) && exprs_wf(arguments@),
        Expression::Index(target, index) => expr_wf(*target) && expr_wf(*index),
        Expression::Attribute(target, _) => expr_wf(*target),
    }
}

/// Every numeric literal in the statement sequence is canonical.
pub open spec fn stmts_wf(ss: Seq<Statement>) -> bool
    decreases ss,
{
    forall|i: int| 0 <= i < ss.len() ==> stmt_wf(#[trigger] ss[i])
}

/// Every numeric literal in the statement is canonical.
pub open spec fn stmt_wf(s: Statement) -> bool
    decreases s,
{
    match s {
        Statement::Let(_, e) => expr_wf(e),
        Statement::Fn { name: _, params: _, body } => stmts_wf(body@),
        Statement::Expression(e) => expr_wf(e),
        Statement::ExpressionReturn(e) => expr_wf(e),
        Statement::Import(_) => true,
    }
}

} // verus!

// The deep copies below preserve the mathematical mirror and well-formedness;
// the contracts say so, which a derived `Clone` could not.

verus! {

/// A copy of a parameter-name list with the same views.
pub(crate) fn clone_params(ps: &Vec<String>) -> (r: Vec<String>)
    ensures
        params_view(r@) == params_view(ps@),
{
    let mut out: Vec<String> = Vec::new();
    let mut i: usize = 0;
    while i < ps.len()
        invariant
            i <= ps.len(),
            out@.len() == i as int,
            forall|j: int| 0 <= j < i ==> #[trigger] out@[j]@ == ps@[j]@,
        decreases ps.len() - i,
    {
        out.push(ps[i].clone());
        i = i + 1;
    }
    proof {
        assert forall|j: int| 0 <= j < out@.len() implies params_view(out@)[j] == params_view(
            ps@,
        )[j] by {
            assert(out@[j]@ == ps@[j]@);
        }
        assert(params_view(out@) =~= params_view(ps@));
    }
    out
}

/// A deep copy of an expression sequence with the same views.
pub(crate) fn clone_expressions(es: &Vec<Expression>) -> (r: Vec<Expression>)
    ensures
        exprs_view(r@) == exprs_view(es@),
        exprs_wf(es@) ==> exprs_wf(r@),
    decreases *es,
{
    let mut out: Vec<Expression> = Vec::new();
    let mut i: usize = 0;
    while i < es.len()
        invariant
            i <= es.len(),
            out@.len() == i as int,
            forall|j: int| 0 <= j < i ==> #[trigger] out@[j]@ == es@[j]@ && (expr_wf(es@[j])
                ==> expr_wf(out@[j])),
        decreases es.len() - i,
    {
        proof {
            assert(decreases_to!(*es => es[i as int]));
        }
        out.push(es[i].clone());
        i = i + 1;
    }
    proof {
        assert forall|j: int| 0 <= j < out@.len() implies exprs_view(out@)[j] == exprs_view(
            es@,
        )[j] by {
            assert(out@[j]@ == es@[j]@);
        }
        assert(exprs_view(out@) =~= exprs_view(es@));
        if exprs_wf(es@) {
            assert forall|j: int| 0 <= j < out@.len() implies expr_wf(#[trigger] out@[j]) by {
                assert(out@[j]@ == es@[j]@);
                assert(expr_wf(es@[j]));
            }
        }
    }
    out
}

/// A deep copy of a key/value expression pair sequence with the same views.
pub(crate) fn clone_expr_pairs(ps: &Vec<(Expression, Expression)>) -> (r: Vec<
    (Expression, Expression),
>)
    ensures
        expr_pairs_view(r@) == expr_pairs_view(ps@),
        expr_pairs_wf(ps@) ==> expr_pairs_wf(r@),
    decreases *ps,
{
    let mut out: Vec<(Expression, Expression)> = Vec::new();
    let mut i: usize = 0;
    while i < ps.len()
        invariant
            i <= ps.len(),
            out@.len() == i as int,
            forall|j: int| 0 <= j < i ==> (#[trigger] out@[j]).0@ == ps@[j].0@ && out@[j].1@
                == ps@[j].1@ && (expr_wf(ps@[j].0) ==> expr_wf(out@[j].0)) && (expr_wf(ps@[j].1)
                ==> expr_wf(out@[j].1)),
        decreases ps.len() - i,
    {
        proof {
            assert(decreases_to!(*ps => ps[i as int]));
            assert(decreases_to!(ps[i as int] => ps[i as int].0));
            assert(decreases_to!(ps[i as int] => ps[i as int].1));
        }
        let key = ps[i].0.clone();
        let val = ps[i].1.clone();
        out.push((key, val));
        i = i + 1;
    }
    proof {
        assert forall|j: int| 0 <= j < out@.len() implies expr_pairs_view(out@)[j]
            == expr_pairs_view(ps@)[j] by {
            assert((out@[j]).0@ == ps@[j].0@ && out@[j].1@ == ps@[j].1@);
        }
        assert(expr_pairs_view(out@) =~= expr_pairs_view(ps@));
        if expr_pairs_wf(ps@) {
            assert forall|j: int| 0 <= j < out@.len() implies expr_wf(
                (#[trigger] out@[j]).0,
            ) && expr_wf(out@[j].1) by {
                assert(expr_wf(ps@[j].0) && expr_wf(ps@[j].1));
            }
        }
    }
    out
}

/// A deep copy of a statement sequence with the same views.
pub(crate) fn clone_statements(ss: &Vec<Statement>) -> (r: Vec<Statement>)
    ensures
        stmts_view(r@) == stmts_view(ss@),
        stmts_wf(ss@) ==> stmts_wf(r@),
    decreases *ss,
{
    let mut out: Vec<Statement> = Vec::new();
    let mut i: usize = 0;
    while i < ss.len()
        invariant
            i <= ss.len(),
            out@.len() == i as int,
            forall|j: int| 0 <= j < i ==> #[trigger] out@[j]@ == ss@[j]@ && (stmt_wf(ss@[j])
                ==> stmt_wf(out@[j])),
        decreases ss.len() - i,
    {
        proof {
            assert(decreases_to!(*ss => ss[i as int]));
        }
        out.push(ss[i].clone());
        i = i + 1;
    }
    proof {
        assert forall|j: int| 0 <= j < out@.len() implies stmts_view(out@)[j] == stmts_view(
            ss@,
        )[j] by {
            assert(out@[j]@ == ss@[j]@);
        }
        assert(stmts_view(out@) =~= stmts_view(ss@));
        if stmts_wf(ss@) {
            assert forall|j: int| 0 <= j < out@.len() implies stmt_wf(#[trigger] out@[j]) by {
                assert(out@[j]@ == ss@[j]@);
                assert(stmt_wf(ss@[j]));
            }
        }
    }
    out
}

impl Clone for Literal {
    fn clone(&self) -> (res: Self)
        ensures
            res@ == self@,
            lit_wf(*self) ==> lit_wf(res),
        decreases *self,
    {
        match self {
            Literal::Null => Literal::Null,
            Literal::Integer(b) => Literal::Integer(b.clone()),
            Literal::Float(r) => Literal::Float(r.clone()),
            Literal::Boolean(b) => Literal::Boolean(*b),
            Literal::Str(s) => Literal::Str(s.clone()),
            Literal::Vector(es) => {
                proof {
                    assert(decreases_to!(*self => *es));
                }
                Literal::Vector(clone_expressions(es))
            },
            Literal::HashMap(ps) => {
                proof {
                    assert(decreases_to!(*self => *ps));
                }
                Literal::HashMap(clone_expr_pairs(ps))
            },
        }
    }
}

impl Clone for Expression {
    fn clone(&self) -> (res: Self)
        ensures
            res@ == self@,
            expr_wf(*self) ==> expr_wf(res),
        decreases *self,
    {
        match self {
            Expression::Identifier(name) => Expression::Identifier(name.clone()),
            Expression::Literal(l) => Expression::Literal(l.clone()),
            Expression::Prefix(op, inner) => Expression::Prefix(*op, Box::new((**inner).clone())),
            Expression::Infix(op, left, right) => Expression::Infix(
                *op,
                Box::new((**left).clone()),
                Box::new((**right).clone()),
            ),
            Expression::Fn { params, body } => {
                proof {
                    assert(decreases_to!(*self => *body));
                }
                Expression::Fn { params: clone_params(params), body: clone_statements(body) }
            },
            Expression::Call { function, arguments } => {
                proof {
                    assert(decreases_to!(*self => *arguments));
                }
                let f = Box::new((**function).clone());
                Expression::Call { function: f, arguments: clone_expressions(arguments) }
            },
            Expression::Index(target, index) => Expression::Index(
                Box::new((**target).clone()),
                Box::new((**index).clone()),
            ),
            Expression::Attribute(target, name) => Expression::Attribute(
                Box::new((**target).clone()),
                name.clone(),
            ),
        }
    }
}

impl Clone for Statement {
    fn clone(&self) -> (res: Self)
        ensures
            res@ == self@,
            stmt_wf(*self) ==> stmt_wf(res),
        decreases *self,
    {
        match self {
            Statement::Let(name, e) => Statement::Let(name.clone(), e.clone()),
            Statement::Fn { name, params, body } => {
                proof {
                    assert(decreases_to!(*self => *body));
                }
                Statement::Fn {
                    name: name.clone(),
                    params: clone_params(params),
                    body: clone_statements(body),
                }
            },
            Statement::Expression(e) => Statement::Expression(e.clone()),
            Statement::ExpressionReturn(e) => Statement::ExpressionReturn(e.clone()),
            Statement::Import(path) => Statement::Import(path.clone()),
        }
    }
}

} // verus!

// Deciders for the well-formedness predicates, for callers that receive a
// tree from outside and must test it before evaluation.

verus! {

/// Decides `exprs_wf`.
pub fn check_expressions(es: &Vec<Expression>) -> (r: bool)
    ensures
        r == exprs_wf(es@),
    decreases *es,
{
    let mut i: usize = 0;
    while i < es.len()
        invariant
            i <= es.len(),
            forall|j: int| 0 <= j < i ==> expr_wf(#[trigger] es@[j]),
        decreases es.len() - i,
    {
        proof {
            assert(decreases_to!(*es => es[i as int]));
        }
        if !check_expression(&es[i]) {
            return false;
        }
        i = i + 1;
    }
    true
}

/// Decides `expr_pairs_wf`.
pub fn check_expr_pairs(ps: &Vec<(Expression, Expression)>) -> (r: bool)
    ensures
        r == expr_pairs_wf(ps@),
    decreases *ps,
{
    let mut i: usize = 0;
    while i < ps.len()
        invariant
            i <= ps.len(),
            forall|j: int| 0 <= j < i ==> expr_wf((#[trigger] ps@[j]).0) && expr_wf(ps@[j].1),
        decreases ps.len() - i,
    {
        proof {
            assert(decreases_to!(*ps => ps[i as int]));
            assert(decreases_to!(ps[i as int] => ps[i as int].0));
            assert(decreases_to!(ps[i as int] => ps[i as int].1));
        }
        if !check_expression(&ps[i].0) {
            return false;
        }
        if !check_expression(&ps[i].1) {
            return false;
        }
        i = i + 1;
    }
    true
}

/// Decides `lit_wf`.
pub fn check_literal(l: &Literal) -> (r: bool)
    ensures
        r == lit_wf(*l),
    decreases *l,
{
    match l {
        Literal::Null => true,
        Literal::Integer(b) => b.check_wf(),
        Literal::Float(q) => q.check_wf(),
        Literal::Boolean(_) => true,
        Literal::Str(_) => true,
        Literal::Vector(es) => {
            proof {
                assert(decreases_to!(*l => *es));
            }
            check_expressions(es)
        },
        Literal::HashMap(ps) => {
            proof {
                assert(decreases_to!(*l => *ps));
            }
            check_expr_pairs(ps)
        },
    }
}

/// Decides `expr_wf`.
pub fn check_expression(e: &Expression) -> (r: bool)
    ensures
        r == expr_wf(*e),
    decreases *e,
{
    match e {
        Expression::Identifier(_) => true,
        Expression::Literal(l) => check_literal(l),
        Expression::Prefix(_, inner) => check_expression(&**inner),
        Expression::Infix(_, left, right) => check_expression(&**left) && check_expression(
            &**right,
        ),
        Expression::Fn { params: _, body } => {
            proof {
                assert(decreases_to!(*e => *body));
            }
            check_statements(body)
        },
        Expression::Call { function, arguments } => {
            proof {
                assert(decreases_to!(*e => *arguments));
            }
            check_expression(&**function) && check_expressions(arguments)
        },
        Expression::Index(target, index) => check_expression(&**target) && check_expression(
            &**index,
        ),
        Expression::Attribute(target, _) => check_expression(&**target),
    }
}

/// Decides `stmts_wf`.
pub fn check_statements(ss: &Vec<Statement>) -> (r: bool)
    ensures
        r == stmts_wf(ss@),
    decreases *ss,
{
    let mut i: usize = 0;
    while i < ss.len()
        invariant
            i <= ss.len(),
            forall|j: int| 0 <= j < i ==> stmt_wf(#[trigger] ss@[j]),
        decreases ss.len() - i,
    {
        proof {
            assert(decreases_to!(*ss => ss[i as int]));
        }
        if !check_statement(&ss[i]) {
            return false;
        }
        i = i + 1;
    }
    true
}

/// Decides `stmt_wf`.
pub fn check_statement(s: &Statement) -> (r: bool)
    ensures
        r == stmt_wf(*s),
    decreases *s,
{
    match s {
        Statement::Let(_, e) => check_expression(e),
        Statement::Fn { name: _, params: _, body } => {
            proof {
                assert(decreases_to!(*s => *body));
            }
            check_statements(body)
        },
        Statement::Expression(e) => check_expression(e),
        Statement::ExpressionReturn(e) => check_expression(e),
        Statement::Import(_) => true,
    }
}

} // verus!
