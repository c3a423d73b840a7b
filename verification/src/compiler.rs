//! The compile pipeline: parse, validate, generate, in that order, failing
//! fast at the first stage that rejects the input, and never emitting
//! generated text when any stage failed. After generation a final pass
//! collects advisory warnings that never block compilation.

use vstd::prelude::*;
use vstd::string::StrSliceExecFns;
use vstd::string::StringExecFns;

use crate::ast::Statement;
use crate::ast::StmtView;
use crate::ast::view_stmts;
use crate::generator::generate_program;
use crate::generator::spec_gen_program;
use crate::parser::parse_program;
use crate::parser::sp_parse;
use crate::parser::ParseErrorInfo;
use crate::text::dec_digits;
use crate::text::push_char;
use crate::text::push_usize;
use crate::text::repeat_char;
use crate::text::spec_contains;
use crate::text::spec_lines;
use crate::text::spec_trim;
use crate::validator::spec_verr_message;
use crate::validator::sv_program;
use crate::validator::validate_program;

verus! {

broadcast use crate::ast::lemma_view_stmts;

/// A failed compilation, by pipeline stage.
#[derive(Debug, Clone, PartialEq)]
pub enum CompilationError {
    /// A parse failure with its source context.
    ParseError {
        message: String,
        line: usize,
        column: usize,
        source_line: String,
        suggestion: Option<String>,
    },
    /// A validation failure.
    ValidationError {
        message: String,
        line: Option<usize>,
        context: Option<String>,
        suggestion: Option<String>,
    },
    /// Reserved: generation is total and never fails.
    GenerationError { message: String, context: Option<String> },
    /// A general failure wrapping another stage's report.
    General { message: String, context: Option<String> },
}

/// Model of a failed compilation.
pub enum CErrView {
    ParseError {
        message: Seq<char>,
        line: usize,
        column: usize,
        source_line: Seq<char>,
        suggestion: Option<Seq<char>>,
    },
    ValidationError {
        message: Seq<char>,
        line: Option<usize>,
        context: Option<Seq<char>>,
        suggestion: Option<Seq<char>>,
    },
    GenerationError { message: Seq<char>, context: Option<Seq<char>> },
    General { message: Seq<char>, context: Option<Seq<char>> },
}

/// The view of an optional string.
pub open spec fn opt_view(o: Option<String>) -> Option<Seq<char>> {
    match o {
        Some(s) => Some(s@),
        None => None,
    }
}

impl View for CompilationError {
    type V = CErrView;

    open spec fn view(&self) -> CErrView {
        match self {
            CompilationError::ParseError { message, line, column, source_line, suggestion } =>
                CErrView::ParseError {
                message: message@,
                line: *line,
                column: *column,
                source_line: source_line@,
                suggestion: opt_view(*suggestion),
            },
            CompilationError::ValidationError { message, line, context, suggestion } =>
                CErrView::ValidationError {
                message: message@,
                line: *line,
                context: opt_view(*context),
                suggestion: opt_view(*suggestion),
            },
            CompilationError::GenerationError { message, context } => CErrView::GenerationError {
                message: message@,
                context: opt_view(*context),
            },
            CompilationError::General { message, context } => CErrView::General {
                message: message@,
                context: opt_view(*context),
            },
        }
    }
}

/// The rendered diagnostic text of a failed compilation.
pub open spec fn spec_cerr_message(e: CErrView) -> Seq<char> {
    match e {
        CErrView::ParseError { message, line, column, source_line, suggestion } =>
            "❌ Parse Error at line "@ + dec_digits(line as nat) + ", column "@ + dec_digits(
            column as nat,
        ) + seq!['\n'] + "   "@ + message + seq!['\n'] + "   "@ + source_line + seq!['\n'] + "   "@
            + repeat_char(' ', (column - 1) as nat) + seq!['^'] + (match suggestion {
            Some(t) => "\n   💡 Suggestion: "@ + t + seq!['\n'],
            None => Seq::empty(),
        }),
        CErrView::ValidationError { message, line, context, suggestion } =>
            "⚠️  Validation Error\n"@ + (match line {
            Some(l) => "   at line "@ + dec_digits(l as nat) + seq!['\n'],
            None => Seq::empty(),
        }) + "   "@ + message + seq!['\n'] + (match context {
            Some(c) => "   Context: "@ + c + seq!['\n'],
            None => Seq::empty(),
        }) + (match suggestion {
            Some(t) => "   💡 Suggestion: "@ + t + seq!['\n'],
            None => Seq::empty(),
        }),
        CErrView::GenerationError { message, context } => "🔧 Generation Error\n"@ + "   "@
            + message + seq!['\n'] + (match context {
            Some(c) => "   Context: "@ + c + seq!['\n'],
            None => Seq::empty(),
        }),
        CErrView::General { message, context } => "❌ Compilation Error\n"@ + "   "@ + message
            + seq!['\n'] + (match context {
            Some(c) => "   Context: "@ + c + seq!['\n'],
            None => Seq::empty(),
        }),
    }
}

impl CompilationError {
    /// The failure as a multi-line diagnostic text.
    pub fn message(&self) -> (r: String)
        requires
            self matches CompilationError::ParseError { column, .. } ==> column >= 1,
        ensures
            r@ == spec_cerr_message(self@),
    {
        let mut out = String::new();
        match self {
            CompilationError::ParseError { message, line, column, source_line, suggestion } => {
                out.append("❌ Parse Error at line ");
                push_usize(&mut out, *line);
                out.append(", column ");
                push_usize(&mut out, *column);
                push_char(&mut out, '\n');
                out.append("   ");
                out.append(message.as_str());
                push_char(&mut out, '\n');
                out.append("   ");
                out.append(source_line.as_str());
                push_char(&mut out, '\n');
                out.append("   ");
                crate::text::push_repeat(&mut out, ' ', *column - 1);
                push_char(&mut out, '^');
                match suggestion {
                    Some(t) => {
                        out.append("\n   💡 Suggestion: ");
                        out.append(t.as_str());
                        push_char(&mut out, '\n');
                    },
                    None => {},
                }
                proof {
                    assert(out@ =~= spec_cerr_message(self@));
                }
            },
            CompilationError::ValidationError { message, line, context, suggestion } => {
                out.append("⚠️  Validation Error\n");
                match line {
                    Some(l) => {
                        out.append("   at line ");
                        push_usize(&mut out, *l);
                        push_char(&mut out, '\n');
                    },
                    None => {},
                }
                out.append("   ");
                out.append(message.as_str());
                push_char(&mut out, '\n');
                match context {
                    Some(c) => {
                        out.append("   Context: ");
                        out.append(c.as_str());
                        push_char(&mut out, '\n');
                    },
                    None => {},
                }
                match suggestion {
                    Some(t) => {
                        out.append("   💡 Suggestion: ");
                        out.append(t.as_str());
                        push_char(&mut out, '\n');
                    },
                    None => {},
                }
                proof {
                    assert(out@ =~= spec_cerr_message(self@));
                }
            },
            CompilationError::GenerationError { message, context } => {
                out.append("🔧 Generation Error\n");
                out.append("   ");
                out.append(message.as_str());
                push_char(&mut out, '\n');
                match context {
                    Some(c) => {
                        out.append("   Context: ");
                        out.append(c.as_str());
                        push_char(&mut out, '\n');
                    },
                    None => {},
                }
                proof {
                    assert(out@ =~= spec_cerr_message(self@));
                }
            },
            CompilationError::General { message, context } => {
                out.append("❌ Compilation Error\n");
                out.append("   ");
                out.append(message.as_str());
                push_char(&mut out, '\n');
                match context {
                    Some(c) => {
                        out.append("   Context: ");
                        out.append(c.as_str());
                        push_char(&mut out, '\n');
                    },
                    None => {},
                }
                proof {
                    assert(out@ =~= spec_cerr_message(self@));
                }
            },
        }
        out
    }
}

/// What one successful compilation produced: the generated text, the
/// advisory warnings, and how many top-level statements were compiled.
#[derive(Debug, Clone)]
pub struct CompilationResult {
    /// Generated JavaScript text.
    pub js_code: String,
    /// Advisory warnings; they never block compilation.
    pub warnings: Vec<String>,
    /// The number of top-level statements compiled.
    pub statement_count: usize,
}

impl CompilationResult {
    /// A fresh result with no warnings.
    pub fn new(js_code: String, statement_count: usize) -> (r: Self)
        ensures
            r.js_code == js_code,
            r.statement_count == statement_count,
            r.warnings.deep_view() == Seq::<Seq<char>>::empty(),
    {
        let r = CompilationResult { js_code, warnings: Vec::new(), statement_count };
        proof {
            assert(r.warnings.deep_view() =~= Seq::<Seq<char>>::empty());
        }
        r
    }

    /// Record one warning.
    pub fn add_warning(&mut self, warning: String)
        ensures
            final(self).js_code == old(self).js_code,
            final(self).statement_count == old(self).statement_count,
            final(self).warnings.deep_view() == old(self).warnings.deep_view().push(warning@),
    {
        let ghost dv0 = self.warnings.deep_view();
        let ghost w = warning@;
        self.warnings.push(warning);
        proof {
            assert(self.warnings.deep_view() =~= dv0.push(w));
        }
    }

    /// Whether any warning was recorded.
    pub fn has_warnings(&self) -> (r: bool)
        ensures
            r == (self.warnings.deep_view().len() > 0),
    {
        self.warnings.len() > 0
    }

    /// How many warnings were recorded.
    pub fn warning_count(&self) -> (r: usize)
        ensures
            r == self.warnings.deep_view().len(),
    {
        self.warnings.len()
    }
}

/// Output options of a compilation: reformatting and source commentary are
/// honored; strict mode and minification are accepted but have no effect
/// yet.
#[derive(Debug, Clone, Default)]
pub struct CompilationOptions {
    /// Re-indent the generated text.
    pub format_output: bool,
    /// Prefix the generated text with per-line source commentary.
    pub add_comments: bool,
    /// Accepted, currently without effect.
    pub strict_mode: bool,
    /// Accepted, currently without effect.
    pub minify: bool,
}

impl CompilationOptions {
    /// All options off.
    pub fn new() -> (r: Self)
        ensures
            !r.format_output,
            !r.add_comments,
            !r.strict_mode,
            !r.minify,
    {
        CompilationOptions { format_output: false, add_comments: false, strict_mode: false, minify: false }
    }

    /// With output formatting on.
    pub fn with_formatting(self) -> (r: Self)
        ensures
            r == (Self { format_output: true, ..self }),
    {
        Self { format_output: true, ..self }
    }

    /// With source commentary on.
    pub fn with_comments(self) -> (r: Self)
        ensures
            r == (Self { add_comments: true, ..self }),
    {
        Self { add_comments: true, ..self }
    }

    /// With strict mode on.
    pub fn with_strict_mode(self) -> (r: Self)
        ensures
            r == (Self { strict_mode: true, ..self }),
    {
        Self { strict_mode: true, ..self }
    }

    /// With minification on.
    pub fn with_minification(self) -> (r: Self)
        ensures
            r == (Self { minify: true, ..self }),
    {
        Self { minify: true, ..self }
    }
}

/// The advisory warnings one top-level statement earns at position `pos`:
/// a print with more than five arguments, or a loop body with more than
/// ten statements.
pub open spec fn warn_of(s: StmtView, pos: int) -> Seq<Seq<char>> {
    match s {
        StmtView::Print(es) => if es.len() > 5 {
            seq![
                "Statement "@ + dec_digits(pos as nat) + ": Print statement has "@ + dec_digits(
                    es.len(),
                ) + " arguments, consider breaking it up"@,
            ]
        } else {
            Seq::empty()
        },
        StmtView::While(_, b) => if b.len() > 10 {
            seq![
                "Statement "@ + dec_digits(pos as nat) + ": While loop has "@ + dec_digits(b.len())
                    + " statements, consider refactoring"@,
            ]
        } else {
            Seq::empty()
        },
        StmtView::For(_, _, _, b) => if b.len() > 10 {
            seq![
                "Statement "@ + dec_digits(pos as nat) + ": For loop has "@ + dec_digits(b.len())
                    + " statements, consider refactoring"@,
            ]
        } else {
            Seq::empty()
        },
        _ => Seq::empty(),
    }
}

/// The warnings of the statements from position `pos` on.
pub open spec fn spec_warnings_rec(ss: Seq<StmtView>, pos: int) -> Seq<Seq<char>>
    decreases ss.len(),
{
    if ss.len() == 0 {
        Seq::empty()
    } else {
        warn_of(ss[0], pos) + spec_warnings_rec(ss.skip(1), pos + 1)
    }
}

/// All advisory warnings of a program, top-level statements only,
/// numbered from one.
pub open spec fn spec_warnings(ss: Seq<StmtView>) -> Seq<Seq<char>> {
    spec_warnings_rec(ss, 1)
}

/// Scan the top-level statements and record the advisory warnings.
pub fn add_compilation_warnings(statements: &Vec<Statement>, result: &mut CompilationResult)
    ensures
        final(result).js_code == old(result).js_code,
        final(result).statement_count == old(result).statement_count,
        final(result).warnings.deep_view() == old(result).warnings.deep_view() + spec_warnings(
            view_stmts(statements@),
        ),
{
    let ghost v = view_stmts(statements@);
    proof {
        assert(v.skip(0) =~= v);
    }
    let mut i: usize = 0;
    while i < statements.len()
        invariant
            i <= statements@.len(),
            v == view_stmts(statements@),
            v.len() == statements@.len(),
            forall|j: int| 0 <= j < statements@.len() ==> v[j] == crate::ast::view_stmt(statements@[j]),
            result.js_code == old(result).js_code,
            result.statement_count == old(result).statement_count,
            old(result).warnings.deep_view() + spec_warnings(v) == result.warnings.deep_view()
                + spec_warnings_rec(v.skip(i as int), i + 1),
        decreases statements@.len() - i,
    {
        proof {
            crate::text::lemma_skip_skip(v, i as int, 1);
            assert(v.skip(i as int)[0] == v[i as int]);
        }
        match &statements[i] {
            Statement::Print(expressions) => {
                proof {
                    assert(v[i as int] == StmtView::Print(crate::ast::view_exprs(expressions@)));
                }
                if expressions.len() > 5 {
                    let mut w = String::new();
                    w.append("Statement ");
                    push_usize(&mut w, i + 1);
                    w.append(": Print statement has ");
                    push_usize(&mut w, expressions.len());
                    w.append(" arguments, consider breaking it up");
                    proof {
                        assert(w@ =~= warn_of(v[i as int], i + 1)[0]);
                    }
                    result.add_warning(w);
                }
            },
            Statement::While(cond, block) => {
                proof {
                    assert(v[i as int] == StmtView::While(cond@, view_stmts(block@)));
                }
                if block.len() > 10 {
                    let mut w = String::new();
                    w.append("Statement ");
                    push_usize(&mut w, i + 1);
                    w.append(": While loop has ");
                    push_usize(&mut w, block.len());
                    w.append(" statements, consider refactoring");
                    proof {
                        assert(w@ =~= warn_of(v[i as int], i + 1)[0]);
                    }
                    result.add_warning(w);
                }
            },
            Statement::For(init, cond, update, block) => {
                proof {
                    assert(v[i as int] == StmtView::For(
                        Box::new(crate::ast::view_stmt(**init)),
                        cond@,
                        update@,
                        view_stmts(block@),
                    ));
                }
                if block.len() > 10 {
                    let mut w = String::new();
                    w.append("Statement ");
                    push_usize(&mut w, i + 1);
                    w.append(": For loop has ");
                    push_usize(&mut w, block.len());
                    w.append(" statements, consider refactoring");
                    proof {
                        assert(w@ =~= warn_of(v[i as int], i + 1)[0]);
                    }
                    result.add_warning(w);
                }
            },
            _ => {},
        }
        proof {
            assert(old(result).warnings.deep_view() + spec_warnings(v) =~= result.warnings.deep_view()
                + spec_warnings_rec(v.skip(i + 1), i + 2));
        }
        i = i + 1;
    }
    proof {
        assert(spec_warnings_rec(v.skip(i as int), i + 1).len() == 0);
        assert(final(result).warnings.deep_view() =~= old(result).warnings.deep_view()
            + spec_warnings(v));
    }
}

/// One more indentation level, capped at the machine limit.
pub open spec fn level_inc(l: int) -> int {
    if l < usize::MAX {
        l + 1
    } else {
        l
    }
}

/// The indent width of a nesting level: four spaces per level, capped at
/// the machine limit.
pub open spec fn indent_width(l: int) -> nat {
    if 4 * l <= usize::MAX {
        (4 * l) as nat
    } else {
        usize::MAX as nat
    }
}

/// The reformatted lines: a blank line stays blank; a line starting with a
/// closing brace is indented one level less; a line ending with an opening
/// brace indents what follows one level more.
pub open spec fn fmt_lines(lines: Seq<Seq<char>>, level: int) -> Seq<char>
    decreases lines.len(),
{
    if lines.len() == 0 {
        Seq::empty()
    } else {
        let t = spec_trim(lines[0]);
        if t.len() == 0 {
            seq!['\n'] + fmt_lines(lines.skip(1), level)
        } else {
            let l1 = if t[0] == '}' {
                if level > 0 {
                    level - 1
                } else {
                    0
                }
            } else {
                level
            };
            let l2 = if t.last() == '{' {
                level_inc(l1)
            } else {
                l1
            };
            repeat_char(' ', indent_width(l1)) + t + seq!['\n'] + fmt_lines(lines.skip(1), l2)
        }
    }
}

/// The generated text re-indented by brace nesting depth.
pub open spec fn spec_format_js(s: Seq<char>) -> Seq<char> {
    fmt_lines(spec_lines(s), 0)
}

/// Re-indent generated text: each line gets four spaces per brace nesting
/// level, inferred from leading `}` and trailing `{` characters.
pub fn format_js_code(js_code: &str) -> (r: String)
    ensures
        r@ == spec_format_js(js_code@),
{
    let lines = crate::text::lines_of(js_code);
    let ghost lv = lines.deep_view();
    let mut out = String::new();
    let mut level: usize = 0;
    let mut i: usize = 0;
    proof {
        assert(lv.skip(0) =~= lv);
    }
    while i < lines.len()
        invariant
            i <= lines@.len(),
            lv == lines.deep_view(),
            lv.len() == lines@.len(),
            lv == spec_lines(js_code@),
            spec_format_js(js_code@) == out@ + fmt_lines(lv.skip(i as int), level as int),
        decreases lines@.len() - i,
    {
        proof {
            crate::text::lemma_skip_skip(lv, i as int, 1);
            assert(lv.skip(i as int)[0] == lv[i as int]);
            assert(lv[i as int] == lines@[i as int]@);
        }
        let trimmed = crate::text::trim(lines[i].as_str());
        let tlen = trimmed.as_str().unicode_len();
        if tlen == 0 {
            push_char(&mut out, '\n');
            proof {
                assert(spec_format_js(js_code@) =~= out@ + fmt_lines(
                    lv.skip(i + 1),
                    level as int,
                ));
            }
        } else {
            let starts_close = trimmed.as_str().get_char(0) == '}';
            let l1: usize = if starts_close {
                if level > 0 {
                    level - 1
                } else {
                    0
                }
            } else {
                level
            };
            let width: usize = if l1 <= usize::MAX / 4 {
                4 * l1
            } else {
                usize::MAX
            };
            proof {
                assert(width == indent_width(l1 as int));
            }
            crate::text::push_repeat(&mut out, ' ', width);
            out.append(trimmed.as_str());
            push_char(&mut out, '\n');
            let ends_open = trimmed.as_str().get_char(tlen - 1) == '{';
            let l2: usize = if ends_open {
                if l1 < usize::MAX {
                    l1 + 1
                } else {
                    l1
                }
            } else {
                l1
            };
            proof {
                assert(spec_format_js(js_code@) =~= out@ + fmt_lines(lv.skip(i + 1), l2 as int));
            }
            level = l2;
        }
        i = i + 1;
    }
    proof {
        assert(fmt_lines(lv.skip(i as int), level as int).len() == 0);
        assert(out@ =~= spec_format_js(js_code@));
    }
    out
}

/// The per-line source commentary: each non-blank line, trimmed, behind
/// its 1-based number.
pub open spec fn comment_lines(lines: Seq<Seq<char>>, pos: int) -> Seq<char>
    decreases lines.len(),
{
    if lines.len() == 0 {
        Seq::empty()
    } else {
        (if spec_trim(lines[0]).len() > 0 {
            "// "@ + dec_digits(pos as nat) + ": "@ + spec_trim(lines[0]) + seq!['\n']
        } else {
            Seq::empty()
        }) + comment_lines(lines.skip(1), pos + 1)
    }
}

/// The generated text behind a commented copy of the source.
pub open spec fn spec_add_comments(js: Seq<char>, source: Seq<char>) -> Seq<char> {
    "// Generated from TFI source code\n// Original source:\n"@ + comment_lines(
        spec_lines(source),
        1,
    ) + seq!['\n'] + js
}

/// Prefix generated text with a commented copy of the source, one comment
/// per non-blank source line.
pub fn add_source_comments(js_code: &str, source: &str) -> (r: String)
    ensures
        r@ == spec_add_comments(js_code@, source@),
{
    let mut out = String::new();
    out.append("// Generated from TFI source code\n// Original source:\n");
    let lines = crate::text::lines_of(source);
    let ghost lv = lines.deep_view();
    let mut i: usize = 0;
    proof {
        assert(lv.skip(0) =~= lv);
    }
    while i < lines.len()
        invariant
            i <= lines@.len(),
            lv == lines.deep_view(),
            lv.len() == lines@.len(),
            lv == spec_lines(source@),
            spec_add_comments(js_code@, source@) == out@ + comment_lines(lv.skip(i as int), i + 1)
                + seq!['\n'] + js_code@,
        decreases lines@.len() - i,
    {
        proof {
            crate::text::lemma_skip_skip(lv, i as int, 1);
            assert(lv.skip(i as int)[0] == lv[i as int]);
            assert(lv[i as int] == lines@[i as int]@);
        }
        let trimmed = crate::text::trim(lines[i].as_str());
        if trimmed.as_str().unicode_len() > 0 {
            out.append("// ");
            push_usize(&mut out, i + 1);
            out.append(": ");
            out.append(trimmed.as_str());
            push_char(&mut out, '\n');
        }
        proof {
            assert(spec_add_comments(js_code@, source@) =~= out@ + comment_lines(
                lv.skip(i + 1),
                i + 2,
            ) + seq!['\n'] + js_code@);
        }
        i = i + 1;
    }
    push_char(&mut out, '\n');
    out.append(js_code);
    proof {
        assert(comment_lines(lv.skip(i as int), i + 1).len() == 0);
        assert(out@ =~= spec_add_comments(js_code@, source@));
    }
    out
}

/// The parser accepted the text and found at least one statement.
pub open spec fn spec_parse_ok(s: Seq<char>) -> bool {
    sp_parse(s) matches Ok(sts) && sts.len() > 0
}

/// The statements the parser derives from the text.
pub open spec fn spec_ast(s: Seq<char>) -> Seq<StmtView> {
    sp_parse(s)->Ok_0
}

/// Parsing and validation both accept the text.
pub open spec fn spec_compile_ok(s: Seq<char>) -> bool {
    spec_parse_ok(s) && sv_program(spec_ast(s)) is None
}

/// Compile source text to JavaScript with a detailed result: parse,
/// validate, generate, then collect the advisory warnings. A failed stage
/// aborts the pipeline; nothing is generated for a rejected input.
pub fn compile_with_details(source: &str) -> (r: Result<CompilationResult, CompilationError>)
    ensures
        spec_compile_ok(source@) ==> (r matches Ok(res) && res.js_code@ == spec_gen_program(
            spec_ast(source@),
        ) && res.statement_count == spec_ast(source@).len() && res.warnings.deep_view()
            == spec_warnings(spec_ast(source@))),
        !spec_parse_ok(source@) ==> (r matches Err(ce) && (ce matches CompilationError::General {
            message,
            context,
        } && spec_contains(message@, "Failed to parse TFI code"@) && (context matches Some(cx)
            && cx@ == "The parser has already printed detailed error information above"@))),
        sv_program(spec_ast(source@)) matches Some(e) ==> (spec_parse_ok(source@) ==> (r matches Err(
            ce,
        ) && (ce matches CompilationError::ValidationError { message, line, context, suggestion }
            && message@ == "Validation failed: "@ + spec_verr_message(e) && line is None
            && context is None && suggestion is None))),
{
    let ast = match parse_program(source) {
        Err(info) => {
            let mut message = String::new();
            message.append("Failed to parse TFI code: ");
            message.append(info.message.as_str());
            proof {
                reveal_strlit("Failed to parse TFI code: ");
                reveal_strlit("Failed to parse TFI code");
                assert(message@.subrange(0, 0 + "Failed to parse TFI code"@.len() as int)
                    =~= "Failed to parse TFI code"@);
            }
            return Err(
                CompilationError::General {
                    message,
                    context: Some(
                        String::from_str(
                            "The parser has already printed detailed error information above",
                        ),
                    ),
                },
            );
        },
        Ok(ast) => ast,
    };
    match validate_program(&ast) {
        Err(e) => {
            let mut message = String::new();
            message.append("Validation failed: ");
            let detail = e.message();
            message.append(detail.as_str());
            return Err(
                CompilationError::ValidationError {
                    message,
                    line: None,
                    context: None,
                    suggestion: None,
                },
            );
        },
        Ok(()) => {},
    }
    let js_code = generate_program(&ast);
    let count = ast.len();
    let mut result = CompilationResult::new(js_code, count);
    add_compilation_warnings(&ast, &mut result);
    proof {
        assert(result.warnings.deep_view() =~= spec_warnings(view_stmts(ast@)));
    }
    Ok(result)
}

/// Compile source text to JavaScript.
pub fn compile(source: &str) -> (r: Result<String, CompilationError>)
    ensures
        spec_compile_ok(source@) ==> (r matches Ok(js) && js@ == spec_gen_program(
            spec_ast(source@),
        )),
        !spec_parse_ok(source@) ==> (r matches Err(ce) && (ce matches CompilationError::General {
            message,
            context,
        } && spec_contains(message@, "Failed to parse TFI code"@) && (context matches Some(cx)
            && cx@ == "The parser has already printed detailed error information above"@))),
        sv_program(spec_ast(source@)) matches Some(e) ==> (spec_parse_ok(source@) ==> (r matches Err(
            ce,
        ) && (ce matches CompilationError::ValidationError { message, line, context, suggestion }
            && message@ == "Validation failed: "@ + spec_verr_message(e) && line is None
            && context is None && suggestion is None))),
{
    match compile_with_details(source) {
        Err(e) => Err(e),
        Ok(result) => Ok(result.js_code),
    }
}

/// The output text under the given options: optionally re-indented, then
/// optionally prefixed with source commentary.
pub open spec fn spec_options_output(s: Seq<char>, options: CompilationOptions) -> Seq<char> {
    let js0 = spec_gen_program(spec_ast(s));
    let js1 = if options.format_output {
        spec_format_js(js0)
    } else {
        js0
    };
    if options.add_comments {
        spec_add_comments(js1, s)
    } else {
        js1
    }
}

/// Compile with output options: formatting and commentary are applied to
/// the generated text; strict mode and minification are accepted but have
/// no effect yet.
pub fn compile_with_options(source: &str, options: &CompilationOptions) -> (r: Result<
    CompilationResult,
    CompilationError,
>)
    ensures
        spec_compile_ok(source@) ==> (r matches Ok(res) && res.js_code@ == spec_options_output(
            source@,
            *options,
        ) && res.statement_count == spec_ast(source@).len() && res.warnings.deep_view()
            == spec_warnings(spec_ast(source@))),
        !spec_compile_ok(source@) ==> r is Err,
{
    let mut result = match compile_with_details(source) {
        Err(e) => {
            return Err(e);
        },
        Ok(res) => res,
    };
    if options.format_output {
        let formatted = format_js_code(result.js_code.as_str());
        result.js_code = formatted;
    }
    if options.add_comments {
        let commented = add_source_comments(result.js_code.as_str(), source);
        result.js_code = commented;
    }
    Ok(result)
}

/// Compilation of a text the grammar and the validator accept succeeds,
/// and its output holds each top-level declaration's binding statement
/// verbatim, with the statements' texts in their input order.
pub proof fn lemma_compiled_output_keeps_declarations(s: Seq<char>, i: int, j: int)
    requires
        spec_compile_ok(s),
        0 <= i < j < spec_ast(s).len(),
    ensures
        ({
            let ast = spec_ast(s);
            let js = spec_gen_program(ast);
            let off_i = crate::generator::spec_stmt_offset(ast, i);
            let off_j = crate::generator::spec_stmt_offset(ast, j);
            &&& 0 <= off_i
            &&& off_i + crate::generator::spec_gen_stmt(ast[i]).len() < off_j
            &&& off_j + crate::generator::spec_gen_stmt(ast[j]).len() <= js.len()
            &&& js.subrange(off_i, off_i + crate::generator::spec_gen_stmt(ast[i]).len())
                == crate::generator::spec_gen_stmt(ast[i])
            &&& js.subrange(off_j, off_j + crate::generator::spec_gen_stmt(ast[j]).len())
                == crate::generator::spec_gen_stmt(ast[j])
        }),
{
    let ast = spec_ast(s);
    crate::generator::lemma_program_contains_statement(ast, i);
    crate::generator::lemma_program_contains_statement(ast, j);
    crate::generator::lemma_program_keeps_order(ast, i, j);
}

/// Counts of the statement kinds in a tree.
pub struct StatCounts {
    pub prints: nat,
    pub consts: nat,
    pub lets: nat,
    pub ifs: nat,
    pub whiles: nat,
    pub fors: nat,
}

/// No statements counted yet.
pub open spec fn counts_zero() -> StatCounts {
    StatCounts { prints: 0, consts: 0, lets: 0, ifs: 0, whiles: 0, fors: 0 }
}

/// Field-wise sum of two counts.
pub open spec fn counts_plus(a: StatCounts, b: StatCounts) -> StatCounts {
    StatCounts {
        prints: a.prints + b.prints,
        consts: a.consts + b.consts,
        lets: a.lets + b.lets,
        ifs: a.ifs + b.ifs,
        whiles: a.whiles + b.whiles,
        fors: a.fors + b.fors,
    }
}

/// The statement-kind counts of one tree: a statement counts itself, and
/// blocks count their statements recursively; a `for` loop's initializer
/// is not descended into.
pub open spec fn stmt_counts(s: StmtView) -> StatCounts
    decreases s,
{
    match s {
        StmtView::Print(_) => StatCounts { prints: 1, ..counts_zero() },
        StmtView::Const(_, _) => StatCounts { consts: 1, ..counts_zero() },
        StmtView::Let(_, _) => StatCounts { lets: 1, ..counts_zero() },
        StmtView::If(_, t, els) => counts_plus(
            StatCounts { ifs: 1, ..counts_zero() },
            counts_plus(
                seq_counts(t),
                match els {
                    Some(b) => seq_counts(b),
                    None => counts_zero(),
                },
            ),
        ),
        StmtView::While(_, b) => counts_plus(
            StatCounts { whiles: 1, ..counts_zero() },
            seq_counts(b),
        ),
        StmtView::For(_, _, _, b) => counts_plus(
            StatCounts { fors: 1, ..counts_zero() },
            seq_counts(b),
        ),
    }
}

/// The statement-kind counts of a statement list.
pub open spec fn seq_counts(ss: Seq<StmtView>) -> StatCounts
    decreases ss,
{
    if ss.len() == 0 {
        counts_zero()
    } else {
        counts_plus(stmt_counts(ss[0]), seq_counts(ss.skip(1)))
    }
}

/// A count capped at the machine limit.
pub open spec fn sat_cap(x: int) -> int {
    if x <= usize::MAX {
        x
    } else {
        usize::MAX as int
    }
}

/// Aggregate statement counts of one program, computed by a full
/// recursive traversal, independent of validation and generation.
#[derive(Debug, Clone, Default)]
pub struct CompilationStats {
    /// Top-level statements.
    pub total_statements: usize,
    pub print_statements: usize,
    pub const_declarations: usize,
    pub let_declarations: usize,
    pub if_statements: usize,
    pub while_loops: usize,
    pub for_loops: usize,
}

fn sat_inc(x: usize) -> (r: usize)
    ensures
        r == sat_cap(x + 1),
{
    if x < usize::MAX {
        x + 1
    } else {
        x
    }
}

/// Count the statements of one tree into the aggregate, saturating at the
/// machine limit.
pub fn count_statement_recursive(stmt: &Statement, stats: &mut CompilationStats)
    ensures
        final(stats).total_statements == old(stats).total_statements,
        final(stats).print_statements == sat_cap(
            old(stats).print_statements + stmt_counts(stmt@).prints,
        ),
        final(stats).const_declarations == sat_cap(
            old(stats).const_declarations + stmt_counts(stmt@).consts,
        ),
        final(stats).let_declarations == sat_cap(
            old(stats).let_declarations + stmt_counts(stmt@).lets,
        ),
        final(stats).if_statements == sat_cap(old(stats).if_statements + stmt_counts(stmt@).ifs),
        final(stats).while_loops == sat_cap(old(stats).while_loops + stmt_counts(stmt@).whiles),
        final(stats).for_loops == sat_cap(old(stats).for_loops + stmt_counts(stmt@).fors),
    decreases stmt,
{
    match stmt {
        Statement::Print(_) => {
            stats.print_statements = sat_inc(stats.print_statements);
        },
        Statement::Const(_, _) => {
            stats.const_declarations = sat_inc(stats.const_declarations);
        },
        Statement::Let(_, _) => {
            stats.let_declarations = sat_inc(stats.let_declarations);
        },
        Statement::If(_, then_block, else_block) => {
            stats.if_statements = sat_inc(stats.if_statements);
            count_block(then_block, stats);
            match else_block {
                Some(block) => {
                    count_block(block, stats);
                },
                None => {},
            }
        },
        Statement::While(_, block) => {
            stats.while_loops = sat_inc(stats.while_loops);
            count_block(block, stats);
        },
        Statement::For(_, _, _, block) => {
            stats.for_loops = sat_inc(stats.for_loops);
            count_block(block, stats);
        },
    }
}

/// Count the statements of a block into the aggregate.
fn count_block(block: &Vec<Statement>, stats: &mut CompilationStats)
    ensures
        final(stats).total_statements == old(stats).total_statements,
        final(stats).print_statements == sat_cap(
            old(stats).print_statements + seq_counts(view_stmts(block@)).prints,
        ),
        final(stats).const_declarations == sat_cap(
            old(stats).const_declarations + seq_counts(view_stmts(block@)).consts,
        ),
        final(stats).let_declarations == sat_cap(
            old(stats).let_declarations + seq_counts(view_stmts(block@)).lets,
        ),
        final(stats).if_statements == sat_cap(
            old(stats).if_statements + seq_counts(view_stmts(block@)).ifs,
        ),
        final(stats).while_loops == sat_cap(
            old(stats).while_loops + seq_counts(view_stmts(block@)).whiles,
        ),
        final(stats).for_loops == sat_cap(
            old(stats).for_loops + seq_counts(view_stmts(block@)).fors,
        ),
    decreases block,
{
    let ghost v = view_stmts(block@);
    proof {
        assert(v.skip(0) =~= v);
    }
    let mut i: usize = 0;
    while i < block.len()
        invariant
            i <= block@.len(),
            v == view_stmts(block@),
            v.len() == block@.len(),
            forall|j: int| 0 <= j < block@.len() ==> v[j] == crate::ast::view_stmt(block@[j]),
            stats.total_statements == old(stats).total_statements,
            sat_cap(old(stats).print_statements + seq_counts(v).prints) == sat_cap(
                stats.print_statements + seq_counts(v.skip(i as int)).prints,
            ),
            sat_cap(old(stats).const_declarations + seq_counts(v).consts) == sat_cap(
                stats.const_declarations + seq_counts(v.skip(i as int)).consts,
            ),
            sat_cap(old(stats).let_declarations + seq_counts(v).lets) == sat_cap(
                stats.let_declarations + seq_counts(v.skip(i as int)).lets,
            ),
            sat_cap(old(stats).if_statements + seq_counts(v).ifs) == sat_cap(
                stats.if_statements + seq_counts(v.skip(i as int)).ifs,
            ),
            sat_cap(old(stats).while_loops + seq_counts(v).whiles) == sat_cap(
                stats.while_loops + seq_counts(v.skip(i as int)).whiles,
            ),
            sat_cap(old(stats).for_loops + seq_counts(v).fors) == sat_cap(
                stats.for_loops + seq_counts(v.skip(i as int)).fors,
            ),
        decreases block@.len() - i,
    {
        proof {
            crate::text::lemma_skip_skip(v, i as int, 1);
            assert(v.skip(i as int)[0] == v[i as int]);
        }
        count_statement_recursive(&block[i], stats);
        i = i + 1;
    }
    proof {
        assert(seq_counts(v.skip(i as int)) == counts_zero());
    }
}

/// Parse the source and count its statements by kind; validation is not
/// run. The per-kind counts saturate at the machine limit.
pub fn get_compilation_stats(source: &str) -> (r: Result<CompilationStats, ParseErrorInfo>)
    ensures
        spec_parse_ok(source@) ==> (r matches Ok(st) && st.total_statements == spec_ast(
            source@,
        ).len() && st.print_statements == sat_cap(seq_counts(spec_ast(source@)).prints as int)
            && st.const_declarations == sat_cap(seq_counts(spec_ast(source@)).consts as int)
            && st.let_declarations == sat_cap(seq_counts(spec_ast(source@)).lets as int)
            && st.if_statements == sat_cap(seq_counts(spec_ast(source@)).ifs as int) && st.while_loops
            == sat_cap(seq_counts(spec_ast(source@)).whiles as int) && st.for_loops == sat_cap(
            seq_counts(spec_ast(source@)).fors as int,
        )),
        !spec_parse_ok(source@) ==> r is Err,
{
    let ast = match parse_program(source) {
        Err(info) => {
            return Err(info);
        },
        Ok(ast) => ast,
    };
    let mut stats = CompilationStats {
        total_statements: 0,
        print_statements: 0,
        const_declarations: 0,
        let_declarations: 0,
        if_statements: 0,
        while_loops: 0,
        for_loops: 0,
    };
    stats.total_statements = ast.len();
    count_block(&ast, &mut stats);
    Ok(stats)
}

/// The rendered summary of one statistics record.
pub open spec fn spec_summary(stats: CompilationStats) -> Seq<char> {
    "Compilation Summary:\n- Total statements: "@ + dec_digits(stats.total_statements as nat)
        + "\n- Print statements: "@ + dec_digits(stats.print_statements as nat)
        + "\n- Variable declarations: "@ + dec_digits(
        (stats.const_declarations + stats.let_declarations) as nat,
    ) + "\n- Control structures: "@ + dec_digits(
        (stats.if_statements + stats.while_loops + stats.for_loops) as nat,
    )
}

impl CompilationStats {
    /// Declarations of both kinds together.
    pub fn total_declarations(&self) -> (r: usize)
        requires
            self.const_declarations + self.let_declarations <= usize::MAX,
        ensures
            r == self.const_declarations + self.let_declarations,
    {
        self.const_declarations + self.let_declarations
    }

    /// Conditionals and loops together.
    pub fn total_control_structures(&self) -> (r: usize)
        requires
            self.if_statements + self.while_loops + self.for_loops <= usize::MAX,
        ensures
            r == self.if_statements + self.while_loops + self.for_loops,
    {
        self.if_statements + self.while_loops + self.for_loops
    }

    /// A human-readable summary of the counts.
    pub fn summary(&self) -> (r: String)
        requires
            self.const_declarations + self.let_declarations <= usize::MAX,
            self.if_statements + self.while_loops + self.for_loops <= usize::MAX,
        ensures
            r@ == spec_summary(*self),
    {
        let mut out = String::new();
        out.append("Compilation Summary:\n- Total statements: ");
        push_usize(&mut out, self.total_statements);
        out.append("\n- Print statements: ");
        push_usize(&mut out, self.print_statements);
        out.append("\n- Variable declarations: ");
        push_usize(&mut out, self.total_declarations());
        out.append("\n- Control structures: ");
        push_usize(&mut out, self.total_control_structures());
        proof {
            assert(out@ =~= spec_summary(*self));
        }
        out
    }
}

} // verus!
