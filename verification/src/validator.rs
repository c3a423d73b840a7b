//! Scope-aware semantic validation. A single left-to-right pass walks the
//! statements, each top-level statement reported at its 1-based position;
//! nested blocks are validated against an independent copy of the enclosing
//! scope, so declarations inside a block never leak out of it.

use vstd::prelude::*;
use vstd::string::StrSliceExecFns;
use vstd::string::StringExecFns;

use crate::ast::Expression;
use crate::ast::ExprView;
use crate::ast::Statement;
use crate::ast::StmtView;
use crate::ast::view_expr;
use crate::ast::view_exprs;
use crate::ast::view_stmt;
use crate::ast::view_stmts;
use crate::text::str_eq;

verus! {

broadcast use crate::ast::lemma_view_stmts;

/// The closed set of validation failures.
#[derive(Debug, Clone, PartialEq)]
pub enum ValidationError {
    /// A print statement with no arguments, at this statement position.
    EmptyPrintStatement(usize),
    /// A declaration whose name is empty: position and declaring keyword.
    EmptyIdentifier(usize, String),
    /// An empty block in a control structure: position and its keyword.
    EmptyBlock(usize, String),
    /// An expression that cannot be validated: position and message.
    InvalidExpression(usize, String),
    /// A name declared twice: the name and the line of the first declaration.
    DuplicateVariable(String, usize),
    /// A reference to a name with no declaration: the name and the position.
    UndefinedVariable(String, usize),
}

/// Model of a validation failure: strings as character sequences.
pub enum VErrView {
    EmptyPrintStatement(usize),
    EmptyIdentifier(usize, Seq<char>),
    EmptyBlock(usize, Seq<char>),
    InvalidExpression(usize, Seq<char>),
    DuplicateVariable(Seq<char>, usize),
    UndefinedVariable(Seq<char>, usize),
}

impl View for ValidationError {
    type V = VErrView;

    open spec fn view(&self) -> VErrView {
        match self {
            ValidationError::EmptyPrintStatement(line) => VErrView::EmptyPrintStatement(*line),
            ValidationError::EmptyIdentifier(line, t) => VErrView::EmptyIdentifier(*line, t@),
            ValidationError::EmptyBlock(line, t) => VErrView::EmptyBlock(*line, t@),
            ValidationError::InvalidExpression(line, m) => VErrView::InvalidExpression(*line, m@),
            ValidationError::DuplicateVariable(n, line) => VErrView::DuplicateVariable(n@, *line),
            ValidationError::UndefinedVariable(n, line) => VErrView::UndefinedVariable(n@, *line),
        }
    }
}

impl DeepView for ValidationError {
    type V = VErrView;

    open spec fn deep_view(&self) -> VErrView {
        self.view()
    }
}

/// How a name was bound.
#[derive(Debug, Clone, Copy, PartialEq, Eq, Structural)]
pub enum DeclarationType {
    Const,
    Let,
}

/// One binding as the model sees it.
pub struct ScopeEntry {
    pub name: Seq<char>,
    pub kind: DeclarationType,
    pub line: usize,
}

struct VarEntry {
    name: String,
    kind: DeclarationType,
    line: usize,
}

/// One lexical scope: the names bound in it, in declaration order.
pub struct ValidationContext {
    entries: Vec<VarEntry>,
}

spec fn entry_view(e: VarEntry) -> ScopeEntry {
    ScopeEntry { name: e.name@, kind: e.kind, line: e.line }
}

impl View for ValidationContext {
    type V = Seq<ScopeEntry>;

    closed spec fn view(&self) -> Seq<ScopeEntry> {
        Seq::new(self.entries@.len(), |i: int| entry_view(self.entries@[i]))
    }
}

/// The index of the binding of `name`, or `-1` if there is none.
pub open spec fn scope_find(v: Seq<ScopeEntry>, name: Seq<char>) -> int
    decreases v.len(),
{
    if v.len() == 0 {
        -1
    } else if v[0].name == name {
        0
    } else {
        let r = scope_find(v.skip(1), name);
        if r < 0 {
            -1
        } else {
            r + 1
        }
    }
}

pub broadcast proof fn lemma_scope_find_bounds(v: Seq<ScopeEntry>, name: Seq<char>)
    ensures
        -1 <= #[trigger] scope_find(v, name) < v.len(),
        scope_find(v, name) >= 0 ==> v[scope_find(v, name)].name == name,
        scope_find(v, name) == -1 ==> forall|j: int| 0 <= j < v.len() ==> v[j].name != name,
    decreases v.len(),
{
    if v.len() > 0 && v[0].name != name {
        lemma_scope_find_bounds(v.skip(1), name);
        if scope_find(v, name) == -1 {
            assert forall|j: int| 0 <= j < v.len() implies v[j].name != name by {
                if j > 0 {
                    assert(v.skip(1)[j - 1] == v[j]);
                }
            }
        }
    }
}

proof fn lemma_scope_find_at(v: Seq<ScopeEntry>, name: Seq<char>, i: int)
    requires
        0 <= i <= v.len(),
        forall|j: int| 0 <= j < i ==> v[j].name != name,
        i == v.len() || v[i].name == name,
    ensures
        i == v.len() ==> scope_find(v, name) == -1,
        i < v.len() ==> scope_find(v, name) == i,
    decreases i,
{
    if i == 0 {
        if v.len() > 0 && v[0].name != name {
            lemma_scope_find_bounds(v.skip(1), name);
        }
    } else {
        lemma_scope_find_at(v.skip(1), name, i - 1);
        assert(forall|j: int| 0 <= j < i - 1 ==> v.skip(1)[j] == v[j + 1]);
        if i < v.len() {
            assert(v.skip(1)[i - 1] == v[i]);
        }
    }
}

/// What declaring `name` does to a scope: a fresh name is appended; a
/// `const`-bound name may be re-bound by `let` (shadow-widening); any other
/// re-declaration is a duplicate, reported with the original line.
pub open spec fn spec_declare(
    v: Seq<ScopeEntry>,
    name: Seq<char>,
    line: usize,
    kind: DeclarationType,
) -> Result<Seq<ScopeEntry>, VErrView> {
    let i = scope_find(v, name);
    if i < 0 {
        Ok(v.push(ScopeEntry { name, kind, line }))
    } else if v[i].kind == DeclarationType::Const && kind == DeclarationType::Let {
        Ok(v.update(i, ScopeEntry { name, kind, line }))
    } else {
        Err(VErrView::DuplicateVariable(name, v[i].line))
    }
}

impl ValidationContext {
    /// Names are bound at most once within one scope.
    pub open spec fn wf(&self) -> bool {
        forall|i: int, j: int|
            0 <= i < j < self@.len() ==> (#[trigger] self@[i]).name != (#[trigger] self@[j]).name
    }

    /// A fresh, empty scope.
    pub fn new() -> (r: Self)
        ensures
            r@ == Seq::<ScopeEntry>::empty(),
            r.wf(),
    {
        let r = ValidationContext { entries: Vec::new() };
        proof {
            assert(r@ =~= Seq::<ScopeEntry>::empty());
        }
        r
    }

    /// An independent copy of this scope, for validating a nested block.
    pub fn clone_scope(&self) -> (r: Self)
        ensures
            r@ == self@,
            r.wf() == self.wf(),
    {
        let mut entries: Vec<VarEntry> = Vec::new();
        let mut i: usize = 0;
        while i < self.entries.len()
            invariant
                i <= self.entries@.len(),
                entries@.len() == i,
                forall|j: int|
                    0 <= j < i ==> entry_view(#[trigger] entries@[j]) == entry_view(
                        self.entries@[j],
                    ),
            decreases self.entries@.len() - i,
        {
            let e = &self.entries[i];
            entries.push(VarEntry { name: e.name.clone(), kind: e.kind, line: e.line });
            i = i + 1;
        }
        let r = ValidationContext { entries };
        proof {
            assert(r@ =~= self@);
        }
        r
    }

    /// The index of the binding of `name` in this scope, or the scope's
    /// length if there is none.
    fn find_entry(&self, name: &str) -> (r: usize)
        ensures
            r <= self@.len(),
            r == self@.len() ==> scope_find(self@, name@) == -1,
            r < self@.len() ==> scope_find(self@, name@) == r && self@[r as int].name == name@,
    {
        let mut i: usize = 0;
        while i < self.entries.len()
            invariant
                i <= self.entries@.len(),
                forall|j: int| 0 <= j < i ==> (#[trigger] self@[j]).name != name@,
            decreases self.entries@.len() - i,
        {
            if str_eq(self.entries[i].name.as_str(), name) {
                proof {
                    lemma_scope_find_at(self@, name@, i as int);
                }
                return i;
            }
            i = i + 1;
        }
        proof {
            lemma_scope_find_at(self@, name@, i as int);
        }
        i
    }

    /// Bind `name` in this scope, per the shadowing rule: re-declaring a
    /// `const` name with `let` widens it; every other re-declaration is
    /// rejected with `DuplicateVariable` carrying the original line.
    pub fn declare_variable(
        &mut self,
        name: &str,
        line: usize,
        decl_type: DeclarationType,
    ) -> (r: Result<(), ValidationError>)
        requires
            old(self).wf(),
        ensures
            final(self).wf(),
            spec_declare(old(self)@, name@, line, decl_type) matches Ok(v2) ==> r is Ok
                && final(self)@ == v2,
            spec_declare(old(self)@, name@, line, decl_type) matches Err(e) ==> (final(self)@
                == old(self)@ && (r matches Err(x) && x@ == e)),
    {
        let idx = self.find_entry(name);
        let ghost v0 = self@;
        if idx == self.entries.len() {
            self.entries.push(VarEntry { name: name.to_owned(), kind: decl_type, line });
            proof {
                assert(self@ =~= v0.push(ScopeEntry { name: name@, kind: decl_type, line }));
                lemma_scope_find_bounds(v0, name@);
                assert forall|i: int, j: int| 0 <= i < j < self@.len() implies (
                #[trigger] self@[i]).name != (#[trigger] self@[j]).name by {
                    if j == self@.len() - 1 {
                        assert(v0[i].name != name@);
                    }
                }
            }
            Ok(())
        } else {
            let matched_const = match self.entries[idx].kind {
                DeclarationType::Const => true,
                DeclarationType::Let => false,
            };
            let is_let = match decl_type {
                DeclarationType::Const => false,
                DeclarationType::Let => true,
            };
            if matched_const && is_let {
                self.entries[idx] = VarEntry { name: name.to_owned(), kind: decl_type, line };
                proof {
                    assert(self@ =~= v0.update(
                        idx as int,
                        ScopeEntry { name: name@, kind: decl_type, line },
                    ));
                    assert(forall|k: int|
                        0 <= k < self@.len() ==> (#[trigger] self@[k]).name == v0[k].name);
                }
                Ok(())
            } else {
                let original_line = self.entries[idx].line;
                Err(ValidationError::DuplicateVariable(name.to_owned(), original_line))
            }
        }
    }

    /// Whether `name` is bound in this scope.
    pub fn is_variable_declared(&self, name: &str) -> (r: bool)
        ensures
            r == (scope_find(self@, name@) >= 0),
    {
        let idx = self.find_entry(name);
        idx < self.entries.len()
    }

    /// The names bound in this scope, in declaration order.
    pub fn get_declared_variables(&self) -> (r: Vec<String>)
        ensures
            r.deep_view() == self@.map_values(|e: ScopeEntry| e.name),
    {
        let mut out: Vec<String> = Vec::new();
        let mut i: usize = 0;
        while i < self.entries.len()
            invariant
                i <= self.entries@.len(),
                out@.len() == i,
                forall|j: int| 0 <= j < i ==> (#[trigger] out@[j])@ == self@[j].name,
            decreases self.entries@.len() - i,
        {
            out.push(self.entries[i].name.clone());
            i = i + 1;
        }
        proof {
            assert(out.deep_view() =~= self@.map_values(|e: ScopeEntry| e.name));
        }
        out
    }
}

/// The closed set of accepted binary operators.
pub open spec fn valid_op(op: Seq<char>) -> bool {
    ||| op == "+"@
    ||| op == "-"@
    ||| op == "*"@
    ||| op == "/"@
    ||| op == ">"@
    ||| op == "<"@
    ||| op == ">="@
    ||| op == "<="@
    ||| op == "=="@
    ||| op == "!="@
}

/// The first failure in an expression, if any: literals are always valid, an
/// identifier must be bound in the scope, a binary operation checks its left
/// operand, then its right operand, then its operator.
pub open spec fn sv_expr(e: ExprView, line: usize, v: Seq<ScopeEntry>) -> Option<VErrView>
    decreases e,
{
    match e {
        ExprView::Number(_) => None,
        ExprView::StringLit(_) => None,
        ExprView::Identifier(name) => if scope_find(v, name) >= 0 {
            None
        } else {
            Some(VErrView::UndefinedVariable(name, line))
        },
        ExprView::BinaryOp(l, op, r) => match sv_expr(*l, line, v) {
            Some(e1) => Some(e1),
            None => match sv_expr(*r, line, v) {
                Some(e2) => Some(e2),
                None => if valid_op(op) {
                    None
                } else {
                    Some(VErrView::InvalidExpression(line, "Unknown operator: "@ + op))
                },
            },
        },
    }
}

/// The first failure in a list of expressions, if any.
pub open spec fn sv_exprs(es: Seq<ExprView>, line: usize, v: Seq<ScopeEntry>) -> Option<VErrView>
    decreases es.len(),
{
    if es.len() == 0 {
        None
    } else {
        match sv_expr(es[0], line, v) {
            Some(e) => Some(e),
            None => sv_exprs(es.skip(1), line, v),
        }
    }
}

/// What validating one statement does: the scope after the statement, and
/// the first failure, if any. Only declarations (and a `for` loop's
/// initializer) change the scope; nested blocks are checked against an
/// independent copy, so they never change it.
pub open spec fn sv_stmt(s: StmtView, line: usize, v: Seq<ScopeEntry>) -> (Seq<ScopeEntry>, Option<
    VErrView,
>)
    decreases s,
{
    match s {
        StmtView::Print(es) => if es.len() == 0 {
            (v, Some(VErrView::EmptyPrintStatement(line)))
        } else {
            (v, sv_exprs(es, line, v))
        },
        StmtView::Const(name, e) => if name.len() == 0 {
            (v, Some(VErrView::EmptyIdentifier(line, "rrr"@)))
        } else {
            match spec_declare(v, name, line, DeclarationType::Const) {
                Err(er) => (v, Some(er)),
                Ok(v2) => (v2, sv_expr(e, line, v2)),
            }
        },
        StmtView::Let(name, e) => if name.len() == 0 {
            (v, Some(VErrView::EmptyIdentifier(line, "pushpa"@)))
        } else {
            match spec_declare(v, name, line, DeclarationType::Let) {
                Err(er) => (v, Some(er)),
                Ok(v2) => (v2, sv_expr(e, line, v2)),
            }
        },
        StmtView::If(c, t, els) => match sv_expr(c, line, v) {
            Some(e) => (v, Some(e)),
            None => if t.len() == 0 {
                (v, Some(VErrView::EmptyBlock(line, "magadheera"@)))
            } else {
                match sv_block(t, line, v) {
                    Some(e) => (v, Some(e)),
                    None => match els {
                        Option::None => (v, None),
                        Option::Some(b) => if b.len() == 0 {
                            (v, Some(VErrView::EmptyBlock(line, "karthikeya"@)))
                        } else {
                            (v, sv_block(b, line, v))
                        },
                    },
                }
            },
        },
        StmtView::While(c, b) => match sv_expr(c, line, v) {
            Some(e) => (v, Some(e)),
            None => if b.len() == 0 {
                (v, Some(VErrView::EmptyBlock(line, "pokiri"@)))
            } else {
                (v, sv_block(b, line, v))
            },
        },
        StmtView::For(init, c, u, b) => {
            let st = sv_stmt(*init, line, v);
            match st.1 {
                Some(e) => (st.0, Some(e)),
                None => match sv_expr(c, line, st.0) {
                    Some(e) => (st.0, Some(e)),
                    None => match sv_expr(u, line, st.0) {
                        Some(e) => (st.0, Some(e)),
                        None => if b.len() == 0 {
                            (st.0, Some(VErrView::EmptyBlock(line, "eega"@)))
                        } else {
                            (st.0, sv_block(b, line, st.0))
                        },
                    },
                },
            }
        },
    }
}

/// The first failure in a block, validated in its own evolving scope; all
/// statements of a block are reported at the enclosing statement's position.
pub open spec fn sv_block(ss: Seq<StmtView>, line: usize, v: Seq<ScopeEntry>) -> Option<VErrView>
    decreases ss,
{
    if ss.len() == 0 {
        None
    } else {
        let st = sv_stmt(ss[0], line, v);
        match st.1 {
            Some(e) => Some(e),
            None => sv_block(ss.skip(1), line, st.0),
        }
    }
}

/// The first failure in a program, statements numbered from `pos` upward.
pub open spec fn sv_program_rec(ss: Seq<StmtView>, pos: int, v: Seq<ScopeEntry>) -> Option<
    VErrView,
>
    decreases ss.len(),
{
    if ss.len() == 0 {
        None
    } else {
        let st = sv_stmt(ss[0], pos as usize, v);
        match st.1 {
            Some(e) => Some(e),
            None => sv_program_rec(ss.skip(1), pos + 1, st.0),
        }
    }
}

/// The first failure in a whole program, statements numbered from one.
pub open spec fn sv_program(ss: Seq<StmtView>) -> Option<VErrView> {
    sv_program_rec(ss, 1, Seq::empty())
}

/// Every failure in a program, one traversal per top-level statement, the
/// scope carried across statements as in the single-failure pass.
pub open spec fn sv_detailed_rec(ss: Seq<StmtView>, pos: int, v: Seq<ScopeEntry>) -> Seq<VErrView>
    decreases ss.len(),
{
    if ss.len() == 0 {
        Seq::empty()
    } else {
        let st = sv_stmt(ss[0], pos as usize, v);
        (match st.1 {
            Some(e) => seq![e],
            None => Seq::empty(),
        }) + sv_detailed_rec(ss.skip(1), pos + 1, st.0)
    }
}

/// Every failure in a whole program, in traversal order.
pub open spec fn sv_detailed(ss: Seq<StmtView>) -> Seq<VErrView> {
    sv_detailed_rec(ss, 1, Seq::empty())
}

/// Validate one expression against a scope.
pub fn validate_expression(expr: &Expression, line: usize, context: &ValidationContext) -> (r:
    Result<(), ValidationError>)
    ensures
        sv_expr(expr@, line, context@) matches Some(e) ==> (r matches Err(x) && x@ == e),
        sv_expr(expr@, line, context@) is None ==> r is Ok,
    decreases expr,
{
    match expr {
        Expression::Number(_) => Ok(()),
        Expression::String(_) => Ok(()),
        Expression::Identifier(name) => {
            if !context.is_variable_declared(name.as_str()) {
                return Err(ValidationError::UndefinedVariable(name.clone(), line));
            }
            Ok(())
        },
        Expression::BinaryOp(left, op, right) => {
            match validate_expression(&**left, line, context) {
                Err(e) => {
                    return Err(e);
                },
                Ok(()) => {},
            }
            match validate_expression(&**right, line, context) {
                Err(e) => {
                    return Err(e);
                },
                Ok(()) => {},
            }
            let o = op.as_str();
            if str_eq(o, "+") || str_eq(o, "-") || str_eq(o, "*") || str_eq(o, "/") || str_eq(
                o,
                ">",
            ) || str_eq(o, "<") || str_eq(o, ">=") || str_eq(o, "<=") || str_eq(o, "==") || str_eq(
                o,
                "!=",
            ) {
                Ok(())
            } else {
                let mut msg = String::new();
                msg.append("Unknown operator: ");
                msg.append(o);
                proof {
                    assert(msg@ =~= "Unknown operator: "@ + op@);
                }
                Err(ValidationError::InvalidExpression(line, msg))
            }
        },
    }
}

/// Validate each expression of a list, left to right.
fn validate_expr_list(es: &Vec<Expression>, line: usize, context: &ValidationContext) -> (r: Result<
    (),
    ValidationError,
>)
    ensures
        sv_exprs(view_exprs(es@), line, context@) matches Some(e) ==> (r matches Err(x) && x@
            == e),
        sv_exprs(view_exprs(es@), line, context@) is None ==> r is Ok,
{
    let ghost v = view_exprs(es@);
    proof {
        assert(v.skip(0) =~= v);
    }
    let mut i: usize = 0;
    while i < es.len()
        invariant
            i <= es@.len(),
            v == view_exprs(es@),
            v.len() == es@.len(),
            sv_exprs(v, line, context@) == sv_exprs(v.skip(i as int), line, context@),
        decreases es@.len() - i,
    {
        let res = validate_expression(&es[i], line, context);
        proof {
            crate::text::lemma_skip_skip(v, i as int, 1);
            assert(v.skip(i as int)[0] == v[i as int]);
        }
        match res {
            Err(e) => {
                return Err(e);
            },
            Ok(()) => {},
        }
        i = i + 1;
    }
    proof {
        assert(v.skip(i as int).len() == 0);
    }
    Ok(())
}

/// Validate each statement of a nested block against its own scope.
fn validate_block(block: &Vec<Statement>, line: usize, context: &mut ValidationContext) -> (r:
    Result<(), ValidationError>)
    requires
        old(context).wf(),
    ensures
        final(context).wf(),
        sv_block(view_stmts(block@), line, old(context)@) matches Some(e) ==> (r matches Err(x)
            && x@ == e),
        sv_block(view_stmts(block@), line, old(context)@) is None ==> r is Ok,
    decreases block,
{
    let ghost v = view_stmts(block@);
    proof {
        assert(v.skip(0) =~= v);
    }
    let mut i: usize = 0;
    while i < block.len()
        invariant
            i <= block@.len(),
            v == view_stmts(block@),
            v.len() == block@.len(),
            forall|j: int| 0 <= j < block@.len() ==> v[j] == view_stmt(block@[j]),
            context.wf(),
            sv_block(v, line, old(context)@) == sv_block(v.skip(i as int), line, context@),
        decreases block@.len() - i,
    {
        let ghost vc = context@;
        let res = validate_statement(&block[i], line, context);
        proof {
            crate::text::lemma_skip_skip(v, i as int, 1);
            assert(v.skip(i as int)[0] == v[i as int]);
        }
        match res {
            Err(e) => {
                return Err(e);
            },
            Ok(()) => {},
        }
        i = i + 1;
    }
    proof {
        assert(v.skip(i as int).len() == 0);
    }
    Ok(())
}

/// Validate one statement at a reported position, updating the scope.
pub fn validate_statement(stmt: &Statement, line: usize, context: &mut ValidationContext) -> (r:
    Result<(), ValidationError>)
    requires
        old(context).wf(),
    ensures
        final(context).wf(),
        final(context)@ == sv_stmt(stmt@, line, old(context)@).0,
        sv_stmt(stmt@, line, old(context)@).1 matches Some(e) ==> (r matches Err(x) && x@ == e),
        sv_stmt(stmt@, line, old(context)@).1 is None ==> r is Ok,
    decreases stmt,
{
    match stmt {
        Statement::Print(expressions) => {
            proof {
                assert(stmt@ == StmtView::Print(view_exprs(expressions@)));
            }
            if expressions.len() == 0 {
                return Err(ValidationError::EmptyPrintStatement(line));
            }
            match validate_expr_list(expressions, line, context) {
                Err(e) => Err(e),
                Ok(()) => Ok(()),
            }
        },
        Statement::Const(name, expr) => {
            proof {
                assert(stmt@ == StmtView::Const(name@, expr@));
            }
            if name.as_str().unicode_len() == 0 {
                return Err(ValidationError::EmptyIdentifier(line, String::from_str("rrr")));
            }
            match context.declare_variable(name.as_str(), line, DeclarationType::Const) {
                Err(e) => {
                    return Err(e);
                },
                Ok(()) => {},
            }
            match validate_expression(expr, line, context) {
                Err(e) => Err(e),
                Ok(()) => Ok(()),
            }
        },
        Statement::Let(name, expr) => {
            proof {
                assert(stmt@ == StmtView::Let(name@, expr@));
            }
            if name.as_str().unicode_len() == 0 {
                return Err(ValidationError::EmptyIdentifier(line, String::from_str("pushpa")));
            }
            match context.declare_variable(name.as_str(), line, DeclarationType::Let) {
                Err(e) => {
                    return Err(e);
                },
                Ok(()) => {},
            }
            match validate_expression(expr, line, context) {
                Err(e) => Err(e),
                Ok(()) => Ok(()),
            }
        },
        Statement::If(cond, then_block, else_block) => {
            proof {
                assert(stmt@ == StmtView::If(
                    cond@,
                    view_stmts(then_block@),
                    match else_block {
                        Some(b) => Some(view_stmts(b@)),
                        None => None,
                    },
                ));
            }
            match validate_expression(cond, line, context) {
                Err(e) => {
                    return Err(e);
                },
                Ok(()) => {},
            }
            if then_block.len() == 0 {
                return Err(ValidationError::EmptyBlock(line, String::from_str("magadheera")));
            }
            let mut then_scope = context.clone_scope();
            match validate_block(then_block, line, &mut then_scope) {
                Err(e) => {
                    return Err(e);
                },
                Ok(()) => {},
            }
            match else_block {
                Some(block) => {
                    if block.len() == 0 {
                        return Err(
                            ValidationError::EmptyBlock(line, String::from_str("karthikeya")),
                        );
                    }
                    let mut else_scope = context.clone_scope();
                    match validate_block(block, line, &mut else_scope) {
                        Err(e) => Err(e),
                        Ok(()) => Ok(()),
                    }
                },
                None => Ok(()),
            }
        },
        Statement::While(cond, block) => {
            proof {
                assert(stmt@ == StmtView::While(cond@, view_stmts(block@)));
            }
            match validate_expression(cond, line, context) {
                Err(e) => {
                    return Err(e);
                },
                Ok(()) => {},
            }
            if block.len() == 0 {
                return Err(ValidationError::EmptyBlock(line, String::from_str("pokiri")));
            }
            let mut body_scope = context.clone_scope();
            match validate_block(block, line, &mut body_scope) {
                Err(e) => Err(e),
                Ok(()) => Ok(()),
            }
        },
        Statement::For(init, cond, update, block) => {
            proof {
                assert(stmt@ == StmtView::For(
                    Box::new(view_stmt(**init)),
                    cond@,
                    update@,
                    view_stmts(block@),
                ));
            }
            match validate_statement(&**init, line, context) {
                Err(e) => {
                    return Err(e);
                },
                Ok(()) => {},
            }
            match validate_expression(cond, line, context) {
                Err(e) => {
                    return Err(e);
                },
                Ok(()) => {},
            }
            match validate_expression(update, line, context) {
                Err(e) => {
                    return Err(e);
                },
                Ok(()) => {},
            }
            if block.len() == 0 {
                return Err(ValidationError::EmptyBlock(line, String::from_str("eega")));
            }
            let mut body_scope = context.clone_scope();
            match validate_block(block, line, &mut body_scope) {
                Err(e) => Err(e),
                Ok(()) => Ok(()),
            }
        },
    }
}

/// Validate a whole program in one left-to-right pass, stopping at the
/// first failure; top-level statements are numbered from one.
pub fn validate_program(statements: &Vec<Statement>) -> (r: Result<(), ValidationError>)
    ensures
        sv_program(view_stmts(statements@)) matches Some(e) ==> (r matches Err(x) && x@ == e),
        sv_program(view_stmts(statements@)) is None ==> r is Ok,
{
    let ghost v = view_stmts(statements@);
    proof {
        assert(v.skip(0) =~= v);
    }
    let mut context = ValidationContext::new();
    let mut i: usize = 0;
    while i < statements.len()
        invariant
            i <= statements@.len(),
            v == view_stmts(statements@),
            v.len() == statements@.len(),
            forall|j: int| 0 <= j < statements@.len() ==> v[j] == view_stmt(statements@[j]),
            context.wf(),
            sv_program(v) == sv_program_rec(v.skip(i as int), i + 1, context@),
        decreases statements@.len() - i,
    {
        let res = validate_statement(&statements[i], i + 1, &mut context);
        proof {
            crate::text::lemma_skip_skip(v, i as int, 1);
            assert(v.skip(i as int)[0] == v[i as int]);
        }
        match res {
            Err(e) => {
                return Err(e);
            },
            Ok(()) => {},
        }
        i = i + 1;
    }
    proof {
        assert(v.skip(i as int).len() == 0);
    }
    Ok(())
}

/// Validate a whole program without stopping: collect the first failure of
/// each top-level statement, carrying the scope across statements.
pub fn validate_program_detailed(statements: &Vec<Statement>) -> (r: Result<
    (),
    Vec<ValidationError>,
>)
    ensures
        sv_detailed(view_stmts(statements@)).len() == 0 ==> r is Ok,
        sv_detailed(view_stmts(statements@)).len() > 0 ==> (r matches Err(es) && es.deep_view()
            == sv_detailed(view_stmts(statements@))),
{
    let ghost v = view_stmts(statements@);
    proof {
        assert(v.skip(0) =~= v);
    }
    let mut context = ValidationContext::new();
    let mut errors: Vec<ValidationError> = Vec::new();
    let mut i: usize = 0;
    proof {
        assert(sv_detailed(v) =~= errors.deep_view() + sv_detailed_rec(v.skip(0), 1, context@));
    }
    while i < statements.len()
        invariant
            i <= statements@.len(),
            v == view_stmts(statements@),
            v.len() == statements@.len(),
            forall|j: int| 0 <= j < statements@.len() ==> v[j] == view_stmt(statements@[j]),
            context.wf(),
            sv_detailed(v) == errors.deep_view() + sv_detailed_rec(v.skip(i as int), i + 1, context@),
        decreases statements@.len() - i,
    {
        let ghost dv0 = errors.deep_view();
        let res = validate_statement(&statements[i], i + 1, &mut context);
        proof {
            crate::text::lemma_skip_skip(v, i as int, 1);
            assert(v.skip(i as int)[0] == v[i as int]);
        }
        match res {
            Err(e) => {
                errors.push(e);
                proof {
                    assert(errors.deep_view() =~= dv0 + seq![e@]);
                    assert(sv_detailed(v) =~= errors.deep_view() + sv_detailed_rec(
                        v.skip(i + 1),
                        i + 2,
                        context@,
                    ));
                }
            },
            Ok(()) => {
                proof {
                    assert(sv_detailed(v) =~= errors.deep_view() + sv_detailed_rec(
                        v.skip(i + 1),
                        i + 2,
                        context@,
                    ));
                }
            },
        }
        i = i + 1;
    }
    proof {
        assert(v.skip(i as int).len() == 0);
        assert(errors.deep_view() =~= sv_detailed(v));
    }
    if errors.len() == 0 {
        Ok(())
    } else {
        Err(errors)
    }
}

/// The first line of every rendered validation failure.
pub open spec fn spec_verr_header(line: usize) -> Seq<char> {
    "⚠️  Validation Error at statement "@ + crate::text::dec_digits(line as nat) + seq!['\n']
}

/// The rendered diagnostic text of a validation failure.
pub open spec fn spec_verr_message(e: VErrView) -> Seq<char> {
    match e {
        VErrView::EmptyPrintStatement(line) => spec_verr_header(line)
            + "   bahubali() requires at least one argument\n   💡 Suggestion: bahubali(\"Hello, world!\");\n"@,
        VErrView::EmptyIdentifier(line, t) => spec_verr_header(line) + "   "@ + t
            + " declaration requires a valid identifier\n   💡 Suggestion: "@ + t
            + " variable_name = value;\n"@,
        VErrView::EmptyBlock(line, t) => spec_verr_header(line) + "   "@ + t
            + " block cannot be empty\n   💡 Suggestion: "@ + t
            + " (condition) { bahubali(\"action\"); }\n"@,
        VErrView::InvalidExpression(line, m) => spec_verr_header(line) + "   "@ + m + seq!['\n'],
        VErrView::DuplicateVariable(n, line) => spec_verr_header(line) + "   Variable '"@ + n
            + "' is already declared\n   💡 Suggestion: Use a different variable name or redeclare with 'pushpa'\n"@,
        VErrView::UndefinedVariable(n, line) => spec_verr_header(line) + "   Variable '"@ + n
            + "' is not defined\n   💡 Suggestion: Declare the variable first with 'rrr "@ + n
            + " = value;' or 'pushpa "@ + n + " = value;'\n"@,
    }
}

impl ValidationError {
    /// The failure as a multi-line diagnostic text.
    pub fn message(&self) -> (r: String)
        ensures
            r@ == spec_verr_message(self@),
    {
        let mut out = String::new();
        match self {
            ValidationError::EmptyPrintStatement(line) => {
                out.append("⚠️  Validation Error at statement ");
                crate::text::push_usize(&mut out, *line);
                push_nl(&mut out);
                out.append(
                    "   bahubali() requires at least one argument\n   💡 Suggestion: bahubali(\"Hello, world!\");\n",
                );
                proof {
                    assert(out@ =~= spec_verr_message(self@));
                }
            },
            ValidationError::EmptyIdentifier(line, t) => {
                out.append("⚠️  Validation Error at statement ");
                crate::text::push_usize(&mut out, *line);
                push_nl(&mut out);
                out.append("   ");
                out.append(t.as_str());
                out.append(" declaration requires a valid identifier\n   💡 Suggestion: ");
                out.append(t.as_str());
                out.append(" variable_name = value;\n");
                proof {
                    assert(out@ =~= spec_verr_message(self@));
                }
            },
            ValidationError::EmptyBlock(line, t) => {
                out.append("⚠️  Validation Error at statement ");
                crate::text::push_usize(&mut out, *line);
                push_nl(&mut out);
                out.append("   ");
                out.append(t.as_str());
                out.append(" block cannot be empty\n   💡 Suggestion: ");
                out.append(t.as_str());
                out.append(" (condition) { bahubali(\"action\"); }\n");
                proof {
                    assert(out@ =~= spec_verr_message(self@));
                }
            },
            ValidationError::InvalidExpression(line, m) => {
                out.append("⚠️  Validation Error at statement ");
                crate::text::push_usize(&mut out, *line);
                push_nl(&mut out);
                out.append("   ");
                out.append(m.as_str());
                push_nl(&mut out);
                proof {
                    assert(out@ =~= spec_verr_message(self@));
                }
            },
            ValidationError::DuplicateVariable(n, line) => {
                out.append("⚠️  Validation Error at statement ");
                crate::text::push_usize(&mut out, *line);
                push_nl(&mut out);
                out.append("   Variable '");
                out.append(n.as_str());
                out.append(
                    "' is already declared\n   💡 Suggestion: Use a different variable name or redeclare with 'pushpa'\n",
                );
                proof {
                    assert(out@ =~= spec_verr_message(self@));
                }
            },
            ValidationError::UndefinedVariable(n, line) => {
                out.append("⚠️  Validation Error at statement ");
                crate::text::push_usize(&mut out, *line);
                push_nl(&mut out);
                out.append("   Variable '");
                out.append(n.as_str());
                out.append("' is not defined\n   💡 Suggestion: Declare the variable first with 'rrr ");
                out.append(n.as_str());
                out.append(" = value;' or 'pushpa ");
                out.append(n.as_str());
                out.append(" = value;'\n");
                proof {
                    assert(out@ =~= spec_verr_message(self@));
                }
            },
        }
        out
    }
}

fn push_nl(s: &mut String)
    ensures
        final(s)@ == old(s)@.push('\n'),
{
    crate::text::push_char(s, '\n');
}

/// A print statement with no arguments fails validation with
/// `EmptyPrintStatement`, at any position and in any scope, and leaves the
/// scope unchanged.
pub proof fn lemma_empty_print_always_rejected(line: usize, v: Seq<ScopeEntry>)
    ensures
        sv_stmt(StmtView::Print(Seq::empty()), line, v) == (
            v,
            Some(VErrView::EmptyPrintStatement(line)),
        ),
{
}

/// The shadowing rule at the declaration level: in a scope where `name` is
/// free, a first declaration of either kind is accepted; after a `const`,
/// a second `const` is a duplicate reported at the first line, while a
/// `let` re-binding is accepted; after a `let`, a `const` is a duplicate.
pub proof fn lemma_shadowing_rules(v: Seq<ScopeEntry>, name: Seq<char>, l1: usize, l2: usize)
    requires
        scope_find(v, name) == -1,
    ensures
        spec_declare(v, name, l1, DeclarationType::Const) is Ok,
        spec_declare(v, name, l1, DeclarationType::Let) is Ok,
        ({
            let v1 = spec_declare(v, name, l1, DeclarationType::Const)->Ok_0;
            spec_declare(v1, name, l2, DeclarationType::Const) == Err::<
                Seq<ScopeEntry>,
                VErrView,
            >(VErrView::DuplicateVariable(name, l1)) && spec_declare(
                v1,
                name,
                l2,
                DeclarationType::Let,
            ) is Ok
        }),
        ({
            let v2 = spec_declare(v, name, l1, DeclarationType::Let)->Ok_0;
            spec_declare(v2, name, l2, DeclarationType::Const) == Err::<
                Seq<ScopeEntry>,
                VErrView,
            >(VErrView::DuplicateVariable(name, l1))
        }),
{
    lemma_scope_find_bounds(v, name);
    let e1 = ScopeEntry { name, kind: DeclarationType::Const, line: l1 };
    let v1 = v.push(e1);
    lemma_scope_find_at(v1, name, v.len() as int);
    let e2 = ScopeEntry { name, kind: DeclarationType::Let, line: l1 };
    let v2 = v.push(e2);
    lemma_scope_find_at(v2, name, v.len() as int);
}

/// Two consecutive declarations of one name at the same scope depth: after
/// a `const`, a second `const` fails with `DuplicateVariable` carrying the
/// first line; a `let` instead raises no declaration error (its outcome is
/// exactly its initializer's validity); after a `let`, a `const` fails.
pub proof fn lemma_duplicate_declarations(
    name: Seq<char>,
    e1: ExprView,
    e2: ExprView,
    l1: usize,
    l2: usize,
    v: Seq<ScopeEntry>,
)
    requires
        name.len() > 0,
        scope_find(v, name) == -1,
    ensures
        ({
            let v1 = sv_stmt(StmtView::Const(name, e1), l1, v).0;
            sv_stmt(StmtView::Const(name, e2), l2, v1).1 == Some(
                VErrView::DuplicateVariable(name, l1),
            )
        }),
        ({
            let v1 = sv_stmt(StmtView::Const(name, e1), l1, v).0;
            sv_stmt(StmtView::Let(name, e2), l2, v1).1 == sv_expr(
                e2,
                l2,
                spec_declare(v1, name, l2, DeclarationType::Let)->Ok_0,
            )
        }),
        ({
            let v1 = sv_stmt(StmtView::Let(name, e1), l1, v).0;
            sv_stmt(StmtView::Const(name, e2), l2, v1).1 == Some(
                VErrView::DuplicateVariable(name, l1),
            )
        }),
{
    lemma_shadowing_rules(v, name, l1, l2);
}

/// A reference to a name is rejected with `UndefinedVariable` exactly when
/// the name has no binding in the given scope.
pub proof fn lemma_undefined_reference(name: Seq<char>, line: usize, v: Seq<ScopeEntry>)
    ensures
        scope_find(v, name) < 0 <==> sv_expr(ExprView::Identifier(name), line, v) == Some(
            VErrView::UndefinedVariable(name, line),
        ),
        scope_find(v, name) >= 0 <==> sv_expr(ExprView::Identifier(name), line, v) is None,
{
}

/// A `for` loop whose initializer, condition and update clauses are all
/// accepted but whose body is empty fails validation with `EmptyBlock`.
pub proof fn lemma_empty_for_body_rejected(
    init: StmtView,
    c: ExprView,
    u: ExprView,
    line: usize,
    v: Seq<ScopeEntry>,
)
    requires
        sv_stmt(init, line, v).1 is None,
        sv_expr(c, line, sv_stmt(init, line, v).0) is None,
        sv_expr(u, line, sv_stmt(init, line, v).0) is None,
    ensures
        sv_stmt(StmtView::For(Box::new(init), c, u, Seq::empty()), line, v).1 == Some(
            VErrView::EmptyBlock(line, "eega"@),
        ),
{
}

/// Declarations inside a nested block are invisible outside it: validating
/// a conditional or a loop leaves the enclosing scope exactly as it was, so
/// a sibling block or a later statement never sees them.
pub proof fn lemma_nested_scopes_do_not_leak(s: StmtView, line: usize, v: Seq<ScopeEntry>)
    requires
        s is If || s is While,
    ensures
        sv_stmt(s, line, v).0 == v,
{
}

} // verus!

