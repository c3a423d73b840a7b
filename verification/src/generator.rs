//! Syntax-directed JavaScript code generation. Generation is total: it
//! assumes a validated tree and never fails. Every contract pins the output
//! text, character for character, through the `spec_gen_*` functions.

use vstd::prelude::*;
use vstd::string::StrSliceExecFns;
use vstd::string::StringExecFns;

use crate::ast::Expression;
use crate::ast::ExprView;
use crate::ast::Statement;
use crate::ast::StmtView;
use crate::ast::view_expr;
use crate::ast::view_exprs;
use crate::ast::view_stmt;
use crate::ast::view_stmts;
use crate::text::push_char;
use crate::text::push_i32;
use crate::text::push_repeat;
use crate::text::repeat_char;
use crate::text::spec_int_str;
use crate::text::lemma_skip_skip;

verus! {

broadcast use crate::ast::lemma_view_stmts;

/// The generated text of an expression: every binary operation is
/// parenthesized, whatever its operator and nesting level.
pub open spec fn spec_gen_expr(e: ExprView) -> Seq<char>
    decreases e,
{
    match e {
        ExprView::Number(n) => spec_int_str(n as int),
        ExprView::Identifier(s) => s,
        ExprView::StringLit(s) => seq!['"'] + s + seq!['"'],
        ExprView::BinaryOp(l, op, r) => seq!['('] + spec_gen_expr(*l) + seq![' '] + op + seq![' ']
            + spec_gen_expr(*r) + seq![')'],
    }
}

/// Argument list text: the expressions joined by `", "`.
pub open spec fn spec_gen_args(es: Seq<ExprView>) -> Seq<char>
    decreases es.len(),
{
    if es.len() == 0 {
        Seq::empty()
    } else {
        spec_gen_expr(es[0]) + spec_gen_args_rest(es.skip(1))
    }
}

/// The tail of an argument list: each expression preceded by `", "`.
pub open spec fn spec_gen_args_rest(es: Seq<ExprView>) -> Seq<char>
    decreases es.len(),
{
    if es.len() == 0 {
        Seq::empty()
    } else {
        seq![',', ' '] + spec_gen_expr(es[0]) + spec_gen_args_rest(es.skip(1))
    }
}

/// `s` without its trailing semicolons.
pub open spec fn spec_strip_semis(s: Seq<char>) -> Seq<char>
    decreases s.len(),
{
    if s.len() > 0 && s.last() == ';' {
        spec_strip_semis(s.drop_last())
    } else {
        s
    }
}

/// The generated text of one statement.
pub open spec fn spec_gen_stmt(s: StmtView) -> Seq<char>
    decreases s,
{
    match s {
        StmtView::Print(es) => "console.log("@ + spec_gen_args(es) + ");"@,
        StmtView::Const(n, e) => "const "@ + n + " = "@ + spec_gen_expr(e) + ";"@,
        StmtView::Let(n, e) => "let "@ + n + " = "@ + spec_gen_expr(e) + ";"@,
        StmtView::If(c, t, els) => "if ("@ + spec_gen_expr(c) + ") {\n"@ + spec_gen_stmts(t)
            + "\n}"@ + (match els {
            Option::Some(b) => " else {\n"@ + spec_gen_stmts(b) + "\n}"@,
            Option::None => Seq::empty(),
        }),
        StmtView::While(c, b) => "while ("@ + spec_gen_expr(c) + ") {\n"@ + spec_gen_stmts(b)
            + "\n}"@,
        StmtView::For(init, c, u, b) => "for ("@ + spec_strip_semis(spec_gen_stmt(*init)) + "; "@
            + spec_gen_expr(c) + "; "@ + spec_gen_expr(u) + ") {\n"@ + spec_gen_stmts(b) + "\n}"@,
    }
}

/// The generated text of a statement list, joined by newlines.
pub open spec fn spec_gen_stmts(ss: Seq<StmtView>) -> Seq<char>
    decreases ss,
{
    if ss.len() == 0 {
        Seq::empty()
    } else {
        spec_gen_stmt(ss[0]) + spec_gen_stmts_rest(ss.skip(1))
    }
}

/// The tail of a statement list: each statement preceded by a newline.
pub open spec fn spec_gen_stmts_rest(ss: Seq<StmtView>) -> Seq<char>
    decreases ss,
{
    if ss.len() == 0 {
        Seq::empty()
    } else {
        seq!['\n'] + spec_gen_stmt(ss[0]) + spec_gen_stmts_rest(ss.skip(1))
    }
}

/// The generated text of a whole program.
pub open spec fn spec_gen_program(ss: Seq<StmtView>) -> Seq<char> {
    spec_gen_stmts(ss)
}

/// Generate JavaScript text for one expression.
pub fn generate_expression(expr: &Expression) -> (r: String)
    ensures
        r@ == spec_gen_expr(expr@),
    decreases expr,
{
    match expr {
        Expression::Number(n) => {
            let mut out = String::new();
            push_i32(&mut out, *n);
            proof {
                assert(out@ =~= spec_gen_expr(expr@));
            }
            out
        },
        Expression::Identifier(id) => id.clone(),
        Expression::String(s) => {
            let mut out = String::new();
            push_char(&mut out, '"');
            out.append(s.as_str());
            push_char(&mut out, '"');
            proof {
                assert(out@ =~= spec_gen_expr(expr@));
            }
            out
        },
        Expression::BinaryOp(l, op, r) => {
            let left = generate_expression(&**l);
            let right = generate_expression(&**r);
            let mut out = String::new();
            push_char(&mut out, '(');
            out.append(left.as_str());
            push_char(&mut out, ' ');
            out.append(op.as_str());
            push_char(&mut out, ' ');
            out.append(right.as_str());
            push_char(&mut out, ')');
            proof {
                assert(out@ =~= spec_gen_expr(expr@));
            }
            out
        },
    }
}

/// Generate the `", "`-separated argument list of a print statement.
fn gen_args(es: &Vec<Expression>) -> (r: String)
    ensures
        r@ == spec_gen_args(view_exprs(es@)),
{
    let ghost v = view_exprs(es@);
    if es.len() == 0 {
        let out = String::new();
        return out;
    }
    let mut out = generate_expression(&es[0]);
    let mut i: usize = 1;
    while i < es.len()
        invariant
            1 <= i <= es.len(),
            v == view_exprs(es@),
            v.len() == es@.len(),
            spec_gen_args(v) == out@ + spec_gen_args_rest(v.skip(i as int)),
        decreases es.len() - i,
    {
        let piece = generate_expression(&es[i]);
        out.append(", ");
        out.append(piece.as_str());
        proof {
            reveal_strlit(", ");
            lemma_skip_skip(v, i as int, 1);
            assert(v.skip(i as int)[0] == v[i as int]);
            assert(spec_gen_args_rest(v.skip(i as int)) == seq![',', ' '] + spec_gen_expr(
                v[i as int],
            ) + spec_gen_args_rest(v.skip(i + 1)));
            assert(spec_gen_args(v) =~= out@ + spec_gen_args_rest(v.skip(i + 1)));
        }
        i = i + 1;
    }
    proof {
        assert(v.skip(i as int).len() == 0);
        assert(out@ =~= spec_gen_args(v));
    }
    out
}

/// Generate the newline-joined body of a block.
fn gen_block(ss: &Vec<Statement>) -> (r: String)
    ensures
        r@ == spec_gen_stmts(view_stmts(ss@)),
    decreases ss,
{
    let ghost v = view_stmts(ss@);
    proof {
        crate::ast::lemma_view_stmts(ss@);
    }
    if ss.len() == 0 {
        let out = String::new();
        return out;
    }
    let mut out = generate_statement(&ss[0]);
    let mut i: usize = 1;
    while i < ss.len()
        invariant
            1 <= i <= ss.len(),
            v == view_stmts(ss@),
            v.len() == ss@.len(),
            forall|j: int| 0 <= j < ss@.len() ==> v[j] == view_stmt(ss@[j]),
            spec_gen_stmts(v) == out@ + spec_gen_stmts_rest(v.skip(i as int)),
        decreases ss.len() - i,
    {
        let piece = generate_statement(&ss[i]);
        push_char(&mut out, '\n');
        out.append(piece.as_str());
        proof {
            lemma_skip_skip(v, i as int, 1);
            assert(v.skip(i as int)[0] == v[i as int]);
            assert(spec_gen_stmts_rest(v.skip(i as int)) == seq!['\n'] + spec_gen_stmt(
                v[i as int],
            ) + spec_gen_stmts_rest(v.skip(i + 1)));
            assert(spec_gen_stmts(v) =~= out@ + spec_gen_stmts_rest(v.skip(i + 1)));
        }
        i = i + 1;
    }
    proof {
        assert(v.skip(i as int).len() == 0);
        assert(out@ =~= spec_gen_stmts(v));
    }
    out
}

proof fn lemma_strip_semis_take(s: Seq<char>, b: int)
    requires
        0 <= b <= s.len(),
        forall|j: int| b <= j < s.len() ==> s[j] == ';',
        b == 0 || s[b - 1] != ';',
    ensures
        spec_strip_semis(s) == s.take(b),
    decreases s.len() - b,
{
    if b == s.len() {
        assert(s.take(b) =~= s);
    } else {
        assert(s.last() == ';');
        lemma_strip_semis_take(s.drop_last(), b);
        assert(s.drop_last().take(b) =~= s.take(b));
    }
}

/// Generate JavaScript text for one statement.
pub fn generate_statement(stmt: &Statement) -> (r: String)
    ensures
        r@ == spec_gen_stmt(stmt@),
    decreases stmt,
{
    match stmt {
        Statement::Print(es) => {
            let args = gen_args(es);
            let mut out = String::new();
            out.append("console.log(");
            out.append(args.as_str());
            out.append(");");
            proof {
                assert(out@ =~= spec_gen_stmt(stmt@));
            }
            out
        },
        Statement::Const(id, e) => {
            let val = generate_expression(e);
            let mut out = String::new();
            out.append("const ");
            out.append(id.as_str());
            out.append(" = ");
            out.append(val.as_str());
            out.append(";");
            proof {
                assert(out@ =~= spec_gen_stmt(stmt@));
            }
            out
        },
        Statement::Let(id, e) => {
            let val = generate_expression(e);
            let mut out = String::new();
            out.append("let ");
            out.append(id.as_str());
            out.append(" = ");
            out.append(val.as_str());
            out.append(";");
            proof {
                assert(out@ =~= spec_gen_stmt(stmt@));
            }
            out
        },
        Statement::If(c, t, els) => {
            let cond = generate_expression(c);
            let then_code = gen_block(t);
            let mut out = String::new();
            out.append("if (");
            out.append(cond.as_str());
            out.append(") {\n");
            out.append(then_code.as_str());
            out.append("\n}");
            match els {
                Some(b) => {
                    let else_code = gen_block(b);
                    out.append(" else {\n");
                    out.append(else_code.as_str());
                    out.append("\n}");
                },
                None => {},
            }
            proof {
                assert(out@ =~= spec_gen_stmt(stmt@));
            }
            out
        },
        Statement::While(c, b) => {
            let cond = generate_expression(c);
            let body = gen_block(b);
            let mut out = String::new();
            out.append("while (");
            out.append(cond.as_str());
            out.append(") {\n");
            out.append(body.as_str());
            out.append("\n}");
            proof {
                assert(out@ =~= spec_gen_stmt(stmt@));
            }
            out
        },
        Statement::For(init, c, u, b) => {
            let init_code = generate_statement(&**init);
            let len = init_code.as_str().unicode_len();
            let mut bnd: usize = len;
            while bnd > 0 && init_code.as_str().get_char(bnd - 1) == ';'
                invariant
                    bnd <= len,
                    len == init_code@.len(),
                    forall|j: int| bnd <= j < len ==> init_code@[j] == ';',
                decreases bnd,
            {
                bnd = bnd - 1;
            }
            let mut out = String::new();
            out.append("for (");
            let mut k: usize = 0;
            while k < bnd
                invariant
                    k <= bnd <= len,
                    len == init_code@.len(),
                    out@ == "for ("@ + init_code@.subrange(0, k as int),
                decreases bnd - k,
            {
                push_char(&mut out, init_code.as_str().get_char(k));
                proof {
                    assert(init_code@.subrange(0, k + 1) =~= init_code@.subrange(
                        0,
                        k as int,
                    ).push(init_code@[k as int]));
                }
                k = k + 1;
            }
            proof {
                lemma_strip_semis_take(init_code@, bnd as int);
                assert(init_code@.take(bnd as int) == init_code@.subrange(0, bnd as int));
            }
            let cond = generate_expression(c);
            let update = generate_expression(u);
            let body = gen_block(b);
            out.append("; ");
            out.append(cond.as_str());
            out.append("; ");
            out.append(update.as_str());
            out.append(") {\n");
            out.append(body.as_str());
            out.append("\n}");
            proof {
                assert(out@ =~= spec_gen_stmt(stmt@));
            }
            out
        },
    }
}

/// Generate the JavaScript text of a whole program: the statements'
/// texts joined by newlines, in the input order.
pub fn generate_program(statements: &Vec<Statement>) -> (r: String)
    ensures
        r@ == spec_gen_program(view_stmts(statements@)),
{
    gen_block(statements)
}

/// `s` with an indent inserted after every newline.
pub open spec fn spec_indent_body(s: Seq<char>, ind: Seq<char>) -> Seq<char>
    decreases s.len(),
{
    if s.len() == 0 {
        Seq::empty()
    } else if s[0] == '\n' {
        seq!['\n'] + ind + spec_indent_body(s.skip(1), ind)
    } else {
        seq![s[0]] + spec_indent_body(s.skip(1), ind)
    }
}

/// One statement's text with every line prefixed by the indent.
pub open spec fn spec_indent_text(s: Seq<char>, ind: Seq<char>) -> Seq<char> {
    ind + spec_indent_body(s, ind)
}

proof fn lemma_indent_body_empty(s: Seq<char>)
    ensures
        spec_indent_body(s, Seq::empty()) == s,
    decreases s.len(),
{
    if s.len() > 0 {
        lemma_indent_body_empty(s.skip(1));
        assert(spec_indent_body(s, Seq::empty()) =~= s);
    }
}

/// Generate one statement's text with every line indented by four spaces
/// per nesting level.
pub fn generate_formatted_statement(stmt: &Statement, indent_level: usize) -> (r: String)
    requires
        4 * indent_level <= usize::MAX,
    ensures
        r@ == spec_indent_text(spec_gen_stmt(stmt@), repeat_char(' ', 4 * indent_level as nat)),
{
    let ghost ind = repeat_char(' ', 4 * indent_level as nat);
    let code = generate_statement(stmt);
    let mut out = String::new();
    push_repeat(&mut out, ' ', 4 * indent_level);
    proof {
        assert(out@ =~= ind);
        assert(code@.skip(0) =~= code@);
    }
    let len = code.as_str().unicode_len();
    let mut i: usize = 0;
    while i < len
        invariant
            i <= len,
            len == code@.len(),
            4 * indent_level <= usize::MAX,
            ind == repeat_char(' ', 4 * indent_level as nat),
            ind + spec_indent_body(code@, ind) == out@ + spec_indent_body(
                code@.skip(i as int),
                ind,
            ),
        decreases len - i,
    {
        let c = code.as_str().get_char(i);
        push_char(&mut out, c);
        if c == '\n' {
            push_repeat(&mut out, ' ', 4 * indent_level);
        }
        proof {
            lemma_skip_skip(code@, i as int, 1);
            assert(code@.skip(i as int)[0] == code@[i as int]);
            assert(ind + spec_indent_body(code@, ind) =~= out@ + spec_indent_body(
                code@.skip(i + 1),
                ind,
            ));
        }
        i = i + 1;
    }
    proof {
        assert(code@.skip(i as int).len() == 0);
        assert(out@ =~= ind + spec_indent_body(code@, ind));
    }
    out
}

/// Generate a whole program formatted at nesting level zero; with an empty
/// indent this is exactly the plain program text.
pub fn generate_formatted_program(statements: &Vec<Statement>) -> (r: String)
    ensures
        r@ == spec_gen_program(view_stmts(statements@)),
{
    let ghost v = view_stmts(statements@);
    proof {
        crate::ast::lemma_view_stmts(statements@);
    }
    if statements.len() == 0 {
        let out = String::new();
        return out;
    }
    let first = generate_formatted_statement(&statements[0], 0);
    proof {
        lemma_indent_body_empty(spec_gen_stmt(v[0]));
        assert(repeat_char(' ', 0) =~= Seq::<char>::empty());
        assert(first@ =~= spec_gen_stmt(v[0]));
    }
    let mut out = first;
    let mut i: usize = 1;
    while i < statements.len()
        invariant
            1 <= i <= statements@.len(),
            v == view_stmts(statements@),
            v.len() == statements@.len(),
            forall|j: int| 0 <= j < statements@.len() ==> v[j] == view_stmt(statements@[j]),
            spec_gen_stmts(v) == out@ + spec_gen_stmts_rest(v.skip(i as int)),
        decreases statements@.len() - i,
    {
        let piece = generate_formatted_statement(&statements[i], 0);
        proof {
            lemma_indent_body_empty(spec_gen_stmt(v[i as int]));
            assert(repeat_char(' ', 0) =~= Seq::<char>::empty());
            assert(piece@ =~= spec_gen_stmt(v[i as int]));
        }
        push_char(&mut out, '\n');
        out.append(piece.as_str());
        proof {
            lemma_skip_skip(v, i as int, 1);
            assert(v.skip(i as int)[0] == v[i as int]);
            assert(spec_gen_stmts(v) =~= out@ + spec_gen_stmts_rest(v.skip(i + 1)));
        }
        i = i + 1;
    }
    proof {
        assert(v.skip(i as int).len() == 0);
        assert(out@ =~= spec_gen_stmts(v));
    }
    out
}

/// The offset at which statement `i`'s text begins inside the program text.
pub open spec fn spec_stmt_offset(ss: Seq<StmtView>, i: int) -> int
    decreases i,
{
    if i <= 0 {
        0
    } else {
        spec_stmt_offset(ss, i - 1) + spec_gen_stmt(ss[i - 1]).len() + 1
    }
}

proof fn lemma_offset_shift(ss: Seq<StmtView>, i: int)
    requires
        1 <= i <= ss.len(),
    ensures
        spec_stmt_offset(ss, i) == spec_gen_stmt(ss[0]).len() + 1 + spec_stmt_offset(
            ss.skip(1),
            i - 1,
        ),
    decreases i,
{
    if i == 1 {
        assert(spec_stmt_offset(ss, 1) == spec_stmt_offset(ss, 0) + spec_gen_stmt(ss[0]).len()
            + 1);
        assert(spec_stmt_offset(ss.skip(1), 0) == 0);
    } else {
        lemma_offset_shift(ss, i - 1);
        assert(ss.skip(1)[i - 2] == ss[i - 1]);
        assert(spec_stmt_offset(ss, i) == spec_stmt_offset(ss, i - 1) + spec_gen_stmt(
            ss[i - 1],
        ).len() + 1);
        assert(spec_stmt_offset(ss.skip(1), i - 1) == spec_stmt_offset(ss.skip(1), i - 2)
            + spec_gen_stmt(ss.skip(1)[i - 2]).len() + 1);
    }
}

/// Each top-level statement's text stands in the program text at its
/// offset, unchanged.
pub proof fn lemma_program_contains_statement(ss: Seq<StmtView>, i: int)
    requires
        0 <= i < ss.len(),
    ensures
        spec_stmt_offset(ss, i) >= 0,
        spec_stmt_offset(ss, i) + spec_gen_stmt(ss[i]).len() <= spec_gen_program(ss).len(),
        spec_gen_program(ss).subrange(
            spec_stmt_offset(ss, i),
            spec_stmt_offset(ss, i) + spec_gen_stmt(ss[i]).len(),
        ) == spec_gen_stmt(ss[i]),
    decreases i,
{
    lemma_offset_nonneg(ss, i);
    if i == 0 {
        assert(spec_gen_program(ss) == spec_gen_stmt(ss[0]) + spec_gen_stmts_rest(ss.skip(1)));
        assert(spec_gen_program(ss).subrange(0, spec_gen_stmt(ss[0]).len() as int) =~= spec_gen_stmt(
            ss[0],
        ));
    } else {
        let tail = ss.skip(1);
        lemma_program_contains_statement(tail, i - 1);
        lemma_offset_shift(ss, i);
        assert(tail[i - 1] == ss[i]);
        let a = spec_gen_stmt(ss[0]).len() + 1;
        let p = spec_stmt_offset(tail, i - 1);
        let k = spec_gen_stmt(ss[i]).len() as int;
        assert(spec_gen_stmts_rest(tail) =~= seq!['\n'] + spec_gen_program(tail));
        assert(spec_gen_program(ss) =~= spec_gen_stmt(ss[0]) + (seq!['\n'] + spec_gen_program(
            tail,
        )));
        assert(spec_gen_program(ss).subrange(a + p, a + p + k) =~= spec_gen_program(tail).subrange(
            p,
            p + k,
        ));
    }
}

proof fn lemma_offset_nonneg(ss: Seq<StmtView>, i: int)
    requires
        0 <= i,
    ensures
        spec_stmt_offset(ss, i) >= 0,
    decreases i,
{
    if i > 0 {
        lemma_offset_nonneg(ss, i - 1);
    }
}

/// Every binary operation's rendering is parenthesized, whatever its
/// operator and at every nesting level: it is exactly the parenthesized
/// pair of its operands' renderings around the operator.
pub proof fn lemma_binary_fully_parenthesized(l: ExprView, op: Seq<char>, r: ExprView)
    ensures
        spec_gen_expr(ExprView::BinaryOp(Box::new(l), op, Box::new(r))) == seq!['(']
            + spec_gen_expr(l) + seq![' '] + op + seq![' '] + spec_gen_expr(r) + seq![')'],
{
}

/// Stripping trailing semicolons takes exactly the one terminator off a
/// text that otherwise has none.
pub proof fn lemma_strip_single_semi(t: Seq<char>)
    requires
        t.len() == 0 || t.last() != ';',
    ensures
        spec_strip_semis(t.push(';')) == t,
{
    assert(t.push(';').drop_last() =~= t);
    assert(spec_strip_semis(t) == t);
    assert(t.push(';').last() == ';');
}

/// A `for` statement generates a three-clause header: the initializer's
/// rendered text stands first, its own terminator stripped, then the
/// condition and the update, then the body as a brace-delimited block.
pub proof fn lemma_for_header(init: StmtView, c: ExprView, u: ExprView, b: Seq<StmtView>)
    ensures
        spec_gen_stmt(StmtView::For(Box::new(init), c, u, b)) == "for ("@ + spec_strip_semis(
            spec_gen_stmt(init),
        ) + "; "@ + spec_gen_expr(c) + "; "@ + spec_gen_expr(u) + ") {\n"@ + spec_gen_stmts(b)
            + "\n}"@,
{
}

/// Statement offsets grow strictly along the program: the texts of two
/// top-level statements appear in the program in their input order,
/// without overlapping.
pub proof fn lemma_program_keeps_order(ss: Seq<StmtView>, i: int, j: int)
    requires
        0 <= i < j <= ss.len(),
    ensures
        spec_stmt_offset(ss, i) + spec_gen_stmt(ss[i]).len() < spec_stmt_offset(ss, j),
    decreases j,
{
    if j == i + 1 {
    } else {
        lemma_program_keeps_order(ss, i, j - 1);
    }
}

} // verus!
