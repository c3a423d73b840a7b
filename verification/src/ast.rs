//! Abstract syntax tree for the source language, together with the
//! mathematical models (`StmtView`, `ExprView`) that the contracts of the
//! parser, validator and generator speak about.

use vstd::prelude::*;

verus! {

/// A statement of the source language. Blocks own their children
/// exclusively; the tree has no sharing and no cycles.
#[derive(Debug, PartialEq)]
pub enum Statement {
    /// Print one or more expressions.
    Print(Vec<Expression>),
    /// Constant binding: name and initializer.
    Const(String, Expression),
    /// Mutable binding: name and initializer.
    Let(String, Expression),
    /// Conditional: condition, then-block, optional else-block.
    If(Expression, Vec<Statement>, Option<Vec<Statement>>),
    /// Loop: condition and body.
    While(Expression, Vec<Statement>),
    /// Three-clause loop: initializer statement, condition, update, body.
    For(Box<Statement>, Expression, Expression, Vec<Statement>),
}

/// An expression of the source language.
#[derive(Debug, PartialEq)]
pub enum Expression {
    /// Numeric literal.
    Number(i32),
    /// Variable reference.
    Identifier(String),
    /// String literal, stored without the surrounding quotes.
    String(String),
    /// Binary operation: left operand, operator spelling, right operand.
    BinaryOp(Box<Expression>, String, Box<Expression>),
}

/// Model of an expression: strings are character sequences.
pub enum ExprView {
    Number(i32),
    Identifier(Seq<char>),
    StringLit(Seq<char>),
    BinaryOp(Box<ExprView>, Seq<char>, Box<ExprView>),
}

/// Model of a statement.
pub enum StmtView {
    Print(Seq<ExprView>),
    Const(Seq<char>, ExprView),
    Let(Seq<char>, ExprView),
    If(ExprView, Seq<StmtView>, Option<Seq<StmtView>>),
    While(ExprView, Seq<StmtView>),
    For(Box<StmtView>, ExprView, ExprView, Seq<StmtView>),
}

/// The model of an expression tree.
pub open spec fn view_expr(e: Expression) -> ExprView
    decreases e,
{
    match e {
        Expression::Number(n) => ExprView::Number(n),
        Expression::Identifier(s) => ExprView::Identifier(s@),
        Expression::String(s) => ExprView::StringLit(s@),
        Expression::BinaryOp(l, op, r) => ExprView::BinaryOp(
            Box::new(view_expr(*l)),
            op@,
            Box::new(view_expr(*r)),
        ),
    }
}

/// The model of a list of expressions.
pub open spec fn view_exprs(es: Seq<Expression>) -> Seq<ExprView> {
    Seq::new(es.len(), |i: int| view_expr(es[i]))
}

/// The model of a statement tree.
pub open spec fn view_stmt(s: Statement) -> StmtView
    decreases s,
{
    match s {
        Statement::Print(es) => StmtView::Print(view_exprs(es@)),
        Statement::Const(n, e) => StmtView::Const(n@, view_expr(e)),
        Statement::Let(n, e) => StmtView::Let(n@, view_expr(e)),
        Statement::If(c, t, els) => StmtView::If(
            view_expr(c),
            view_stmts(t@),
            match els {
                Some(b) => Some(view_stmts(b@)),
                None => None,
            },
        ),
        Statement::While(c, b) => StmtView::While(view_expr(c), view_stmts(b@)),
        Statement::For(init, c, u, b) => StmtView::For(
            Box::new(view_stmt(*init)),
            view_expr(c),
            view_expr(u),
            view_stmts(b@),
        ),
    }
}

/// The model of a list of statements.
pub open spec fn view_stmts(ss: Seq<Statement>) -> Seq<StmtView>
    decreases ss,
{
    if ss.len() == 0 {
        Seq::empty()
    } else {
        seq![view_stmt(ss[0])] + view_stmts(ss.drop_first())
    }
}

/// `view_stmts` maps `view_stmt` over the sequence, element by element.
pub broadcast proof fn lemma_view_stmts(ss: Seq<Statement>)
    ensures
        (#[trigger] view_stmts(ss)).len() == ss.len(),
        forall|i: int| 0 <= i < ss.len() ==> view_stmts(ss)[i] == view_stmt(ss[i]),
    decreases ss.len(),
{
    if ss.len() > 0 {
        lemma_view_stmts(ss.drop_first());
        assert forall|i: int| 0 <= i < ss.len() implies view_stmts(ss)[i] == view_stmt(ss[i]) by {
            if i > 0 {
                assert(ss.drop_first()[i - 1] == ss[i]);
            }
        }
    }
}

impl View for Expression {
    type V = ExprView;

    open spec fn view(&self) -> ExprView {
        view_expr(*self)
    }
}

impl View for Statement {
    type V = StmtView;

    open spec fn view(&self) -> StmtView {
        view_stmt(*self)
    }
}

/// The name of a statement's constructor.
pub open spec fn spec_statement_type(s: Statement) -> Seq<char> {
    match s {
        Statement::Print(_) => "Print"@,
        Statement::Const(_, _) => "Const"@,
        Statement::Let(_, _) => "Let"@,
        Statement::If(_, _, _) => "If"@,
        Statement::While(_, _) => "While"@,
        Statement::For(_, _, _, _) => "For"@,
    }
}

/// The name of an expression's constructor.
pub open spec fn spec_expression_type(e: Expression) -> Seq<char> {
    match e {
        Expression::Number(_) => "Number"@,
        Expression::Identifier(_) => "Identifier"@,
        Expression::String(_) => "String"@,
        Expression::BinaryOp(_, _, _) => "BinaryOp"@,
    }
}

impl Clone for Expression {
    /// A deep copy with the same model.
    fn clone(&self) -> (res: Self)
        ensures
            res@ == self@,
        decreases self,
    {
        match self {
            Expression::Number(n) => Expression::Number(*n),
            Expression::Identifier(s) => Expression::Identifier(s.clone()),
            Expression::String(s) => Expression::String(s.clone()),
            Expression::BinaryOp(l, op, r) => Expression::BinaryOp(
                Box::new((**l).clone()),
                op.clone(),
                Box::new((**r).clone()),
            ),
        }
    }
}

/// A deep copy of an expression list, with the same model.
fn clone_exprs(es: &Vec<Expression>) -> (res: Vec<Expression>)
    ensures
        view_exprs(res@) == view_exprs(es@),
        res@.len() == es@.len(),
{
    let mut out: Vec<Expression> = Vec::new();
    let mut i: usize = 0;
    while i < es.len()
        invariant
            i <= es@.len(),
            out@.len() == i,
            forall|j: int| 0 <= j < i ==> (#[trigger] out@[j])@ == es@[j]@,
        decreases es@.len() - i,
    {
        out.push(es[i].clone());
        i = i + 1;
    }
    proof {
        assert(view_exprs(out@) =~= view_exprs(es@));
    }
    out
}

impl Clone for Statement {
    /// A deep copy with the same model.
    fn clone(&self) -> (res: Self)
        ensures
            res@ == self@,
        decreases self,
    {
        let res = match self {
            Statement::Print(es) => Statement::Print(clone_exprs(es)),
            Statement::Const(n, e) => Statement::Const(n.clone(), e.clone()),
            Statement::Let(n, e) => Statement::Let(n.clone(), e.clone()),
            Statement::If(c, t, els) => Statement::If(
                c.clone(),
                clone_stmts(t),
                match els {
                    Some(b) => Some(clone_stmts(b)),
                    None => None,
                },
            ),
            Statement::While(c, b) => Statement::While(c.clone(), clone_stmts(b)),
            Statement::For(init, c, u, b) => Statement::For(
                Box::new((**init).clone()),
                c.clone(),
                u.clone(),
                clone_stmts(b),
            ),
        };
        proof {
            assert(res@ == self@);
        }
        res
    }
}

/// A deep copy of a statement list, with the same model.
fn clone_stmts(ss: &Vec<Statement>) -> (res: Vec<Statement>)
    ensures
        view_stmts(res@) == view_stmts(ss@),
        res@.len() == ss@.len(),
    decreases ss,
{
    let mut out: Vec<Statement> = Vec::new();
    let mut i: usize = 0;
    while i < ss.len()
        invariant
            i <= ss@.len(),
            out@.len() == i,
            forall|j: int| 0 <= j < i ==> (#[trigger] out@[j])@ == ss@[j]@,
        decreases ss@.len() - i,
    {
        out.push(ss[i].clone());
        i = i + 1;
    }
    proof {
        lemma_view_stmts(out@);
        lemma_view_stmts(ss@);
        assert(view_stmts(out@) =~= view_stmts(ss@));
    }
    out
}

impl Statement {
    /// The statement's kind as a string, for diagnostics.
    pub fn statement_type(&self) -> (r: &'static str)
        ensures
            r@ == spec_statement_type(*self),
    {
        match self {
            Statement::Print(_) => "Print",
            Statement::Const(_, _) => "Const",
            Statement::Let(_, _) => "Let",
            Statement::If(_, _, _) => "If",
            Statement::While(_, _) => "While",
            Statement::For(_, _, _, _) => "For",
        }
    }
}

impl Expression {
    /// The expression's kind as a string, for diagnostics.
    pub fn expression_type(&self) -> (r: &'static str)
        ensures
            r@ == spec_expression_type(*self),
    {
        match self {
            Expression::Number(_) => "Number",
            Expression::Identifier(_) => "Identifier",
            Expression::String(_) => "String",
            Expression::BinaryOp(_, _, _) => "BinaryOp",
        }
    }
}

} // verus!
