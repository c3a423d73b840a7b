//! Recursive-descent parser for the source language. The parser has its own
//! lexical rules, richer than the token stream the `lexer` module exposes:
//! identifiers may contain digits and underscores, string literals and
//! commas exist, and carriage returns count as whitespace. The grammar is
//! the one the language defines: a program is a sequence of statements; an
//! expression is a left-associative chain of terms with one uniform
//! precedence level, so `a + b * c` groups as `(a + b) * c`.
//!
//! Every parse function is mirrored by an `sp_*` specification function;
//! `parse_program`'s contract says the result is exactly what the mirror
//! derives, and that a failure comes exactly when the mirror fails. The
//! diagnostic fields of a failure (category text and suggestion) are
//! advisory; the failure's position is pinned to the mirror's offset.

use vstd::prelude::*;
use vstd::string::StrSliceExecFns;
use vstd::string::StringExecFns;

use crate::ast::Expression;
use crate::ast::ExprView;
use crate::ast::Statement;
use crate::ast::StmtView;
use crate::ast::view_expr;
use crate::ast::view_exprs;
use crate::ast::view_stmt;
use crate::ast::view_stmts;
use crate::lexer::is_alpha;
use crate::lexer::is_digit;
use crate::lexer::digits_val;
use crate::text::push_char;
use crate::text::lemma_skip_skip;

verus! {

broadcast use crate::ast::lemma_view_stmts;

/// The kind of one parser token.
#[derive(Debug, Clone, Copy, PartialEq, Eq, Structural)]
pub enum PKind {
    KwConst,
    KwLet,
    KwPrint,
    KwIf,
    KwElse,
    KwWhile,
    KwFor,
    /// An identifier; its text is the token's span in the source.
    Ident,
    /// A numeric literal and its value.
    Num(i32),
    /// A string literal; its content is the span without the quotes.
    StrLit,
    Assign,
    LParen,
    RParen,
    LBrace,
    RBrace,
    Semi,
    Comma,
    OpPlus,
    OpMinus,
    OpStar,
    OpSlash,
    OpGt,
    OpLt,
    OpGe,
    OpLe,
    OpEq,
    OpNe,
}

/// One parser token: its kind and its character span in the source.
#[derive(Debug, Clone, Copy, PartialEq, Eq, Structural)]
pub struct PTok {
    pub kind: PKind,
    pub lo: usize,
    pub hi: usize,
}

/// An identifier's first character.
pub open spec fn is_ident_start(c: char) -> bool {
    is_alpha(c) || c == '_'
}

/// An identifier's later characters.
pub open spec fn is_ident_cont(c: char) -> bool {
    is_alpha(c) || is_digit(c) || c == '_'
}

/// Whitespace between parser tokens.
pub open spec fn p_ws(c: char) -> bool {
    c == ' ' || c == '\t' || c == '\n' || c == '\r' || c == '\u{000c}'
}

/// The length of the maximal identifier-character prefix of `s`.
pub open spec fn ident_run(s: Seq<char>) -> int
    decreases s.len(),
{
    if s.len() > 0 && is_ident_cont(s[0]) {
        1 + ident_run(s.skip(1))
    } else {
        0
    }
}

/// The length of the maximal digit prefix of `s`.
pub open spec fn num_run(s: Seq<char>) -> int
    decreases s.len(),
{
    if s.len() > 0 && is_digit(s[0]) {
        1 + num_run(s.skip(1))
    } else {
        0
    }
}

/// The index of the first double quote in `s`, or `s.len()` if none.
pub open spec fn first_quote(s: Seq<char>) -> int
    decreases s.len(),
{
    if s.len() == 0 {
        0
    } else if s[0] == '"' {
        0
    } else {
        1 + first_quote(s.skip(1))
    }
}

/// The keyword kind spelled `w`, if any.
pub open spec fn p_keyword(w: Seq<char>) -> Option<PKind> {
    if w == "rrr"@ {
        Some(PKind::KwConst)
    } else if w == "pushpa"@ {
        Some(PKind::KwLet)
    } else if w == "bahubali"@ {
        Some(PKind::KwPrint)
    } else if w == "magadheera"@ {
        Some(PKind::KwIf)
    } else if w == "karthikeya"@ {
        Some(PKind::KwElse)
    } else if w == "pokiri"@ {
        Some(PKind::KwWhile)
    } else if w == "eega"@ {
        Some(PKind::KwFor)
    } else {
        None
    }
}

/// The parser's next token at offset `i`: `Ok((Some(tok), next))` for a
/// token, `Ok((None, next))` for skipped whitespace, `Err(i)` for an
/// unrecognized character, an unterminated string, or a numeric literal
/// whose value does not fit.
pub open spec fn p_next(s: Seq<char>, i: int) -> Result<(Option<PTok>, int), int> {
    let c = s[i];
    if is_ident_start(c) {
        let n = ident_run(s.skip(i));
        let w = s.subrange(i, i + n);
        let kind = match p_keyword(w) {
            Some(k) => k,
            None => PKind::Ident,
        };
        Ok((Some(PTok { kind, lo: i as usize, hi: (i + n) as usize }), i + n))
    } else if is_digit(c) {
        let n = num_run(s.skip(i));
        let val = digits_val(s.subrange(i, i + n));
        if val <= i32::MAX {
            Ok((Some(PTok { kind: PKind::Num(val as i32), lo: i as usize, hi: (i + n) as usize }),
            i + n))
        } else {
            Err(i)
        }
    } else if c == '"' {
        let q = i + 1 + first_quote(s.skip(i + 1));
        if q >= s.len() {
            Err(i)
        } else {
            Ok((Some(PTok { kind: PKind::StrLit, lo: i as usize, hi: (q + 1) as usize }), q + 1))
        }
    } else if c == '>' {
        if i + 1 < s.len() && s[i + 1] == '=' {
            Ok((Some(PTok { kind: PKind::OpGe, lo: i as usize, hi: (i + 2) as usize }), i + 2))
        } else {
            Ok((Some(PTok { kind: PKind::OpGt, lo: i as usize, hi: (i + 1) as usize }), i + 1))
        }
    } else if c == '<' {
        if i + 1 < s.len() && s[i + 1] == '=' {
            Ok((Some(PTok { kind: PKind::OpLe, lo: i as usize, hi: (i + 2) as usize }), i + 2))
        } else {
            Ok((Some(PTok { kind: PKind::OpLt, lo: i as usize, hi: (i + 1) as usize }), i + 1))
        }
    } else if c == '=' {
        if i + 1 < s.len() && s[i + 1] == '=' {
            Ok((Some(PTok { kind: PKind::OpEq, lo: i as usize, hi: (i + 2) as usize }), i + 2))
        } else {
            Ok((Some(PTok { kind: PKind::Assign, lo: i as usize, hi: (i + 1) as usize }), i + 1))
        }
    } else if c == '!' {
        if i + 1 < s.len() && s[i + 1] == '=' {
            Ok((Some(PTok { kind: PKind::OpNe, lo: i as usize, hi: (i + 2) as usize }), i + 2))
        } else {
            Err(i)
        }
    } else if c == '(' {
        Ok((Some(PTok { kind: PKind::LParen, lo: i as usize, hi: (i + 1) as usize }), i + 1))
    } else if c == ')' {
        Ok((Some(PTok { kind: PKind::RParen, lo: i as usize, hi: (i + 1) as usize }), i + 1))
    } else if c == '{' {
        Ok((Some(PTok { kind: PKind::LBrace, lo: i as usize, hi: (i + 1) as usize }), i + 1))
    } else if c == '}' {
        Ok((Some(PTok { kind: PKind::RBrace, lo: i as usize, hi: (i + 1) as usize }), i + 1))
    } else if c == ';' {
        Ok((Some(PTok { kind: PKind::Semi, lo: i as usize, hi: (i + 1) as usize }), i + 1))
    } else if c == ',' {
        Ok((Some(PTok { kind: PKind::Comma, lo: i as usize, hi: (i + 1) as usize }), i + 1))
    } else if c == '+' {
        Ok((Some(PTok { kind: PKind::OpPlus, lo: i as usize, hi: (i + 1) as usize }), i + 1))
    } else if c == '-' {
        Ok((Some(PTok { kind: PKind::OpMinus, lo: i as usize, hi: (i + 1) as usize }), i + 1))
    } else if c == '*' {
        Ok((Some(PTok { kind: PKind::OpStar, lo: i as usize, hi: (i + 1) as usize }), i + 1))
    } else if c == '/' {
        Ok((Some(PTok { kind: PKind::OpSlash, lo: i as usize, hi: (i + 1) as usize }), i + 1))
    } else if p_ws(c) {
        Ok((None, i + 1))
    } else {
        Err(i)
    }
}

proof fn lemma_p_run_bounds(s: Seq<char>)
    ensures
        0 <= ident_run(s) <= s.len(),
        0 <= num_run(s) <= s.len(),
        0 <= first_quote(s) <= s.len(),
        s.len() > 0 && is_ident_cont(s[0]) ==> ident_run(s) >= 1,
        s.len() > 0 && is_digit(s[0]) ==> num_run(s) >= 1,
    decreases s.len(),
{
    if s.len() > 0 {
        lemma_p_run_bounds(s.skip(1));
    }
}

proof fn lemma_p_next_bounds(s: Seq<char>, i: int)
    requires
        0 <= i < s.len(),
    ensures
        p_next(s, i) matches Ok(pair) ==> i < pair.1 <= s.len(),
{
    lemma_p_run_bounds(s.skip(i));
    if s[i] == '"' {
        lemma_p_run_bounds(s.skip(i + 1));
    }
}

/// The parser's token stream from offset `i` on, or the offset of a
/// lexical failure.
pub open spec fn p_tokenize_rec(s: Seq<char>, i: int) -> Result<Seq<PTok>, int>
    decreases s.len() - i,
    via p_tokenize_rec_dec
{
    if i < 0 || i >= s.len() {
        Ok(Seq::empty())
    } else {
        match p_next(s, i) {
            Err(e) => Err(e),
            Ok((opt, j)) => match p_tokenize_rec(s, j) {
                Err(e) => Err(e),
                Ok(rest) => match opt {
                    Some(t) => Ok(seq![t] + rest),
                    None => Ok(rest),
                },
            },
        }
    }
}

#[via_fn]
proof fn p_tokenize_rec_dec(s: Seq<char>, i: int) {
    if 0 <= i < s.len() {
        lemma_p_next_bounds(s, i);
    }
}

/// The parser's whole token stream, or the offset of a lexical failure.
pub open spec fn p_tokenize(s: Seq<char>) -> Result<Seq<PTok>, int> {
    p_tokenize_rec(s, 0)
}

/// Every token's span lies inside the source, a string literal spans at
/// least its two quotes, and token kinds agree with their spans' shapes.
pub open spec fn wf_toks(s: Seq<char>, toks: Seq<PTok>) -> bool {
    forall|k: int|
        0 <= k < toks.len() ==> ((#[trigger] toks[k]).lo <= toks[k].hi && toks[k].hi <= s.len()
            && (toks[k].kind == PKind::StrLit ==> toks[k].lo + 2 <= toks[k].hi))
}

proof fn lemma_ident_run_at(s: Seq<char>, k: int)
    requires
        0 <= k <= s.len(),
        forall|j: int| 0 <= j < k ==> is_ident_cont(s[j]),
        k == s.len() || !is_ident_cont(s[k]),
    ensures
        ident_run(s) == k,
    decreases k,
{
    if k > 0 {
        lemma_ident_run_at(s.skip(1), k - 1);
        assert(forall|j: int| 0 <= j < k - 1 ==> s.skip(1)[j] == s[j + 1]);
        if k < s.len() {
            assert(s.skip(1)[k - 1] == s[k]);
        }
    }
}

proof fn lemma_num_run_at(s: Seq<char>, k: int)
    requires
        0 <= k <= s.len(),
        forall|j: int| 0 <= j < k ==> is_digit(s[j]),
        k == s.len() || !is_digit(s[k]),
    ensures
        num_run(s) == k,
    decreases k,
{
    if k > 0 {
        lemma_num_run_at(s.skip(1), k - 1);
        assert(forall|j: int| 0 <= j < k - 1 ==> s.skip(1)[j] == s[j + 1]);
        if k < s.len() {
            assert(s.skip(1)[k - 1] == s[k]);
        }
    }
}

proof fn lemma_first_quote_at(s: Seq<char>, k: int)
    requires
        0 <= k <= s.len(),
        forall|j: int| 0 <= j < k ==> s[j] != '"',
        k == s.len() || s[k] == '"',
    ensures
        first_quote(s) == k,
    decreases k,
{
    if k > 0 {
        lemma_first_quote_at(s.skip(1), k - 1);
        assert(forall|j: int| 0 <= j < k - 1 ==> s.skip(1)[j] == s[j + 1]);
        if k < s.len() {
            assert(s.skip(1)[k - 1] == s[k]);
        }
    }
}

fn is_ident_start_exec(c: char) -> (r: bool)
    ensures
        r == is_ident_start(c),
{
    ('a' <= c && c <= 'z') || ('A' <= c && c <= 'Z') || c == '_'
}

fn is_ident_cont_exec(c: char) -> (r: bool)
    ensures
        r == is_ident_cont(c),
{
    ('a' <= c && c <= 'z') || ('A' <= c && c <= 'Z') || ('0' <= c && c <= '9') || c == '_'
}

fn p_ws_exec(c: char) -> (r: bool)
    ensures
        r == p_ws(c),
{
    c == ' ' || c == '\t' || c == '\n' || c == '\r' || c == '\u{000c}'
}

/// The characters of a span, as a fresh string.
fn span_string(src: &Vec<char>, lo: usize, hi: usize) -> (r: String)
    requires
        lo <= hi <= src@.len(),
    ensures
        r@ == src@.subrange(lo as int, hi as int),
{
    let mut out = String::new();
    let mut t: usize = lo;
    while t < hi
        invariant
            lo <= t <= hi <= src@.len(),
            out@ == src@.subrange(lo as int, t as int),
        decreases hi - t,
    {
        push_char(&mut out, src[t]);
        proof {
            assert(src@.subrange(lo as int, t + 1) =~= src@.subrange(lo as int, t as int).push(
                src@[t as int],
            ));
        }
        t = t + 1;
    }
    out
}

/// Tokenizes the source for the parser; a failure is a character offset.
#[verifier::rlimit(60)]
fn p_tokens(src: &Vec<char>) -> (r: Result<Vec<PTok>, usize>)
    ensures
        r matches Ok(v) ==> p_tokenize(src@) == Ok::<Seq<PTok>, int>(v@) && wf_toks(src@, v@),
        r matches Err(off) ==> p_tokenize(src@) == Err::<Seq<PTok>, int>(off as int) && off
            < src@.len(),
{
    let len = src.len();
    let mut out: Vec<PTok> = Vec::new();
    let mut i: usize = 0;
    while i < len
        invariant
            i <= len,
            len == src@.len(),
            wf_toks(src@, out@),
            forall|ts: Seq<PTok>|
                p_tokenize_rec(src@, i as int) == Ok::<Seq<PTok>, int>(ts) ==> p_tokenize(src@)
                    == Ok::<Seq<PTok>, int>(out@ + ts),
            forall|e: int|
                p_tokenize_rec(src@, i as int) == Err::<Seq<PTok>, int>(e) ==> p_tokenize(src@)
                    == Err::<Seq<PTok>, int>(e),
        decreases len - i,
    {
        let ghost out0 = out@;
        let c = src[i];
        let mut produced: Option<PTok> = None;
        let mut n: usize = 1;
        let mut failed: bool = false;
        if is_ident_start_exec(c) {
            let mut j: usize = i;
            while j < len && is_ident_cont_exec(src[j])
                invariant
                    i <= j <= len,
                    len == src@.len(),
                    forall|t: int| i <= t < j ==> is_ident_cont(src@[t]),
                decreases len - j,
            {
                j = j + 1;
            }
            proof {
                let rest = src@.skip(i as int);
                assert forall|t: int| 0 <= t < j - i implies is_ident_cont(rest[t]) by {
                    assert(rest[t] == src@[i + t]);
                }
                if j < len {
                    assert(rest[j - i] == src@[j as int]);
                }
                lemma_ident_run_at(rest, j - i);
                assert(rest.subrange(0, j - i) =~= src@.subrange(i as int, j as int));
            }
            let word = span_string(src, i, j);
            let w = word.as_str();
            let kind: PKind = if crate::text::str_eq(w, "rrr") {
                PKind::KwConst
            } else if crate::text::str_eq(w, "pushpa") {
                PKind::KwLet
            } else if crate::text::str_eq(w, "bahubali") {
                PKind::KwPrint
            } else if crate::text::str_eq(w, "magadheera") {
                PKind::KwIf
            } else if crate::text::str_eq(w, "karthikeya") {
                PKind::KwElse
            } else if crate::text::str_eq(w, "pokiri") {
                PKind::KwWhile
            } else if crate::text::str_eq(w, "eega") {
                PKind::KwFor
            } else {
                PKind::Ident
            };
            produced = Some(PTok { kind, lo: i, hi: j });
            n = j - i;
        } else if '0' <= c && c <= '9' {
            let mut j: usize = i;
            while j < len && '0' <= src[j] && src[j] <= '9'
                invariant
                    i <= j <= len,
                    len == src@.len(),
                    forall|t: int| i <= t < j ==> is_digit(src@[t]),
                decreases len - j,
            {
                j = j + 1;
            }
            proof {
                let rest = src@.skip(i as int);
                assert forall|t: int| 0 <= t < j - i implies is_digit(rest[t]) by {
                    assert(rest[t] == src@[i + t]);
                }
                if j < len {
                    assert(rest[j - i] == src@[j as int]);
                }
                lemma_num_run_at(rest, j - i);
            }
            let ghost run = src@.subrange(i as int, j as int);
            let mut acc: u64 = 0;
            let mut over: bool = false;
            let mut t: usize = i;
            proof {
                assert(run.take(0) =~= Seq::<char>::empty());
            }
            while t < j
                invariant
                    i <= t <= j <= len,
                    len == src@.len(),
                    run == src@.subrange(i as int, j as int),
                    run.len() == j - i,
                    forall|u: int| 0 <= u < run.len() ==> is_digit(run[u]),
                    forall|u: int| i <= u < j ==> run[u - i] == src@[u],
                    !over ==> acc == digits_val(run.take(t - i)) && acc <= i32::MAX as u64,
                    over ==> digits_val(run.take(t - i)) > i32::MAX,
                decreases j - t,
            {
                let d: u64 = (src[t] as u32 - 48) as u64;
                proof {
                    assert(run[t - i] == src@[t as int]);
                    assert(run.take(t - i + 1).drop_last() =~= run.take(t - i));
                    assert(run.take(t - i + 1).last() == run[t - i]);
                }
                if !over {
                    acc = acc * 10 + d;
                    if acc > i32::MAX as u64 {
                        over = true;
                    }
                } else {
                    proof {
                        crate::lexer::lemma_digits_val_nonneg(run.take(t - i));
                    }
                }
                t = t + 1;
            }
            proof {
                assert(run.take(j - i) =~= run);
                let rest = src@.skip(i as int);
                assert(rest.subrange(0, j - i) =~= run);
            }
            if !over {
                produced = Some(PTok { kind: PKind::Num(acc as i32), lo: i, hi: j });
                n = j - i;
            } else {
                failed = true;
            }
        } else if c == '"' {
            let mut j: usize = i + 1;
            while j < len && src[j] != '"'
                invariant
                    i + 1 <= j <= len,
                    len == src@.len(),
                    forall|t: int| i + 1 <= t < j ==> src@[t] != '"',
                decreases len - j,
            {
                j = j + 1;
            }
            proof {
                let rest = src@.skip(i + 1);
                assert forall|t: int| 0 <= t < j - i - 1 implies rest[t] != '"' by {
                    assert(rest[t] == src@[i + 1 + t]);
                }
                if j < len {
                    assert(rest[j - i - 1] == src@[j as int]);
                }
                lemma_first_quote_at(rest, j - i - 1);
            }
            if j < len {
                produced = Some(PTok { kind: PKind::StrLit, lo: i, hi: j + 1 });
                n = j + 1 - i;
            } else {
                failed = true;
            }
        } else if c == '>' {
            if i + 1 < len && src[i + 1] == '=' {
                produced = Some(PTok { kind: PKind::OpGe, lo: i, hi: i + 2 });
                n = 2;
            } else {
                produced = Some(PTok { kind: PKind::OpGt, lo: i, hi: i + 1 });
            }
        } else if c == '<' {
            if i + 1 < len && src[i + 1] == '=' {
                produced = Some(PTok { kind: PKind::OpLe, lo: i, hi: i + 2 });
                n = 2;
            } else {
                produced = Some(PTok { kind: PKind::OpLt, lo: i, hi: i + 1 });
            }
        } else if c == '=' {
            if i + 1 < len && src[i + 1] == '=' {
                produced = Some(PTok { kind: PKind::OpEq, lo: i, hi: i + 2 });
                n = 2;
            } else {
                produced = Some(PTok { kind: PKind::Assign, lo: i, hi: i + 1 });
            }
        } else if c == '!' {
            if i + 1 < len && src[i + 1] == '=' {
                produced = Some(PTok { kind: PKind::OpNe, lo: i, hi: i + 2 });
                n = 2;
            } else {
                failed = true;
            }
        } else if c == '(' {
            produced = Some(PTok { kind: PKind::LParen, lo: i, hi: i + 1 });
        } else if c == ')' {
            produced = Some(PTok { kind: PKind::RParen, lo: i, hi: i + 1 });
        } else if c == '{' {
            produced = Some(PTok { kind: PKind::LBrace, lo: i, hi: i + 1 });
        } else if c == '}' {
            produced = Some(PTok { kind: PKind::RBrace, lo: i, hi: i + 1 });
        } else if c == ';' {
            produced = Some(PTok { kind: PKind::Semi, lo: i, hi: i + 1 });
        } else if c == ',' {
            produced = Some(PTok { kind: PKind::Comma, lo: i, hi: i + 1 });
        } else if c == '+' {
            produced = Some(PTok { kind: PKind::OpPlus, lo: i, hi: i + 1 });
        } else if c == '-' {
            produced = Some(PTok { kind: PKind::OpMinus, lo: i, hi: i + 1 });
        } else if c == '*' {
            produced = Some(PTok { kind: PKind::OpStar, lo: i, hi: i + 1 });
        } else if c == '/' {
            produced = Some(PTok { kind: PKind::OpSlash, lo: i, hi: i + 1 });
        } else if p_ws_exec(c) {
            produced = None;
        } else {
            failed = true;
        }
        if failed {
            proof {
                assert(p_next(src@, i as int) == Err::<(Option<PTok>, int), int>(i as int));
            }
            return Err(i);
        }
        proof {
            lemma_p_next_bounds(src@, i as int);
            match &produced {
                Some(t) => {
                    assert(p_next(src@, i as int) == Ok::<(Option<PTok>, int), int>(
                        (Some(*t), i + n),
                    ));
                },
                None => {
                    assert(p_next(src@, i as int) == Ok::<(Option<PTok>, int), int>(
                        (None, i + n),
                    ));
                },
            }
        }
        match produced {
            Some(t) => {
                out.push(t);
                proof {
                    assert(out@ =~= out0 + seq![t]);
                    assert forall|ts: Seq<PTok>|
                        p_tokenize_rec(src@, (i + n) as int) == Ok::<Seq<PTok>, int>(
                            ts,
                        ) implies p_tokenize(src@) == Ok::<Seq<PTok>, int>(out@ + ts) by {
                        assert(p_tokenize_rec(src@, i as int) == Ok::<Seq<PTok>, int>(
                            seq![t] + ts,
                        ));
                        assert(out0 + (seq![t] + ts) =~= out@ + ts);
                    }
                }
            },
            None => {},
        }
        i = i + n;
    }
    proof {
        assert(p_tokenize_rec(src@, i as int) == Ok::<Seq<PTok>, int>(Seq::empty()));
        assert(out@ + Seq::<PTok>::empty() =~= out@);
    }
    Ok(out)
}

/// The text a token spans.
pub open spec fn tok_text(s: Seq<char>, t: PTok) -> Seq<char> {
    s.subrange(t.lo as int, t.hi as int)
}

/// A string literal's content: its span without the quotes.
pub open spec fn str_content(s: Seq<char>, t: PTok) -> Seq<char> {
    s.subrange(t.lo + 1, t.hi - 1)
}

/// The spelling of a binary operator token kind.
pub open spec fn op_kind_text(k: PKind) -> Option<Seq<char>> {
    match k {
        PKind::OpPlus => Some("+"@),
        PKind::OpMinus => Some("-"@),
        PKind::OpStar => Some("*"@),
        PKind::OpSlash => Some("/"@),
        PKind::OpGt => Some(">"@),
        PKind::OpLt => Some("<"@),
        PKind::OpGe => Some(">="@),
        PKind::OpLe => Some("<="@),
        PKind::OpEq => Some("=="@),
        PKind::OpNe => Some("!="@),
        _ => None,
    }
}

/// Demands token kind `k` at `pos`: the position after it, or the failure
/// position (the stream's length stands for its end).
pub open spec fn sp_expect(toks: Seq<PTok>, pos: int, k: PKind) -> Result<int, int> {
    if pos >= toks.len() {
        Err(toks.len() as int)
    } else if toks[pos].kind == k {
        Ok(pos + 1)
    } else {
        Err(pos)
    }
}

/// A sane step: the parser moved forward and stayed inside the stream.
pub open spec fn stepped(pos: int, p: int, n: int) -> bool {
    pos < p <= n
}

/// A term: a number, an identifier, a string, or a parenthesized
/// expression.
pub open spec fn sp_term(s: Seq<char>, toks: Seq<PTok>, pos: int) -> Result<(ExprView, int), int>
    decreases toks.len() - pos, 0int,
{
    if pos < 0 || pos >= toks.len() {
        Err(toks.len() as int)
    } else {
        match toks[pos].kind {
            PKind::Num(n) => Ok((ExprView::Number(n), pos + 1)),
            PKind::Ident => Ok((ExprView::Identifier(tok_text(s, toks[pos])), pos + 1)),
            PKind::StrLit => Ok((ExprView::StringLit(str_content(s, toks[pos])), pos + 1)),
            PKind::LParen => if stepped(pos, pos + 1, toks.len() as int) {
                match sp_expression(s, toks, pos + 1) {
                    Err(e) => Err(e),
                    Ok((e, p2)) => match sp_expect(toks, p2, PKind::RParen) {
                        Err(a) => Err(a),
                        Ok(p3) => Ok((e, p3)),
                    },
                }
            } else {
                Err(pos + 1)
            },
            _ => Err(pos),
        }
    }
}

/// The rest of a left-associative operator chain, folded onto `left`.
pub open spec fn sp_chain(s: Seq<char>, toks: Seq<PTok>, pos: int, left: ExprView) -> Result<
    (ExprView, int),
    int,
>
    decreases toks.len() - pos, 2int,
{
    if 0 <= pos < toks.len() && op_kind_text(toks[pos].kind) is Some {
        let op = op_kind_text(toks[pos].kind)->Some_0;
        if stepped(pos, pos + 1, toks.len() as int) {
            match sp_term(s, toks, pos + 1) {
                Err(e) => Err(e),
                Ok((right, p2)) => {
                    let combined = ExprView::BinaryOp(Box::new(left), op, Box::new(right));
                    if stepped(pos, p2, toks.len() as int) {
                        sp_chain(s, toks, p2, combined)
                    } else {
                        Err(p2)
                    }
                },
            }
        } else {
            Err(pos + 1)
        }
    } else {
        Ok((left, pos))
    }
}

/// An expression: a term followed by a left-associative chain of
/// operator-term pairs, all at one uniform precedence level.
pub open spec fn sp_expression(s: Seq<char>, toks: Seq<PTok>, pos: int) -> Result<
    (ExprView, int),
    int,
>
    decreases toks.len() - pos, 3int,
{
    match sp_term(s, toks, pos) {
        Err(e) => Err(e),
        Ok((left, p)) => if stepped(pos, p, toks.len() as int) {
            sp_chain(s, toks, p, left)
        } else {
            Err(p)
        },
    }
}

/// The remaining arguments of a print statement: `,`-prefixed expressions.
pub open spec fn sp_args_more(s: Seq<char>, toks: Seq<PTok>, pos: int, acc: Seq<ExprView>) -> Result<
    (Seq<ExprView>, int),
    int,
>
    decreases toks.len() - pos, 5int,
{
    if 0 <= pos < toks.len() && toks[pos].kind == PKind::Comma {
        if stepped(pos, pos + 1, toks.len() as int) {
            match sp_expression(s, toks, pos + 1) {
                Err(e) => Err(e),
                Ok((e, p2)) => if stepped(pos, p2, toks.len() as int) {
                    sp_args_more(s, toks, p2, acc.push(e))
                } else {
                    Err(p2)
                },
            }
        } else {
            Err(pos + 1)
        }
    } else {
        Ok((acc, pos))
    }
}

/// A non-empty argument list.
pub open spec fn sp_args(s: Seq<char>, toks: Seq<PTok>, pos: int) -> Result<
    (Seq<ExprView>, int),
    int,
>
    decreases toks.len() - pos, 6int,
{
    match sp_expression(s, toks, pos) {
        Err(e) => Err(e),
        Ok((e1, p)) => if stepped(pos, p, toks.len() as int) {
            sp_args_more(s, toks, p, seq![e1])
        } else {
            Err(p)
        },
    }
}

/// A print statement: `bahubali ( args ) ;` — a print with no arguments
/// parses but is rejected here, before validation ever sees it.
pub open spec fn sp_print(s: Seq<char>, toks: Seq<PTok>, pos: int) -> Result<(StmtView, int), int>
    decreases toks.len() - pos, 7int,
{
    match sp_expect(toks, pos + 1, PKind::LParen) {
        Err(a) => Err(a),
        Ok(p1) => if p1 < toks.len() && toks[p1].kind == PKind::RParen {
            match sp_expect(toks, p1 + 1, PKind::Semi) {
                Err(a) => Err(a),
                Ok(_p2) => Err(pos),
            }
        } else {
            if stepped(pos, p1, toks.len() as int) {
                match sp_args(s, toks, p1) {
                    Err(e) => Err(e),
                    Ok((args, p2)) => match sp_expect(toks, p2, PKind::RParen) {
                        Err(a) => Err(a),
                        Ok(p3) => match sp_expect(toks, p3, PKind::Semi) {
                            Err(a) => Err(a),
                            Ok(p4) => Ok((StmtView::Print(args), p4)),
                        },
                    },
                }
            } else {
                Err(p1)
            }
        },
    }
}

/// A declaration: the keyword, a name, `=`, an initializer, `;`.
pub open spec fn sp_decl(s: Seq<char>, toks: Seq<PTok>, pos: int, is_const: bool) -> Result<
    (StmtView, int),
    int,
>
    decreases toks.len() - pos, 7int,
{
    if pos + 1 >= toks.len() {
        Err(toks.len() as int)
    } else if toks[pos + 1].kind != PKind::Ident {
        Err(pos + 1)
    } else {
        let name = tok_text(s, toks[pos + 1]);
        match sp_expect(toks, pos + 2, PKind::Assign) {
            Err(a) => Err(a),
            Ok(p) => if stepped(pos, p, toks.len() as int) {
                match sp_expression(s, toks, p) {
                    Err(e) => Err(e),
                    Ok((e, p2)) => match sp_expect(toks, p2, PKind::Semi) {
                        Err(a) => Err(a),
                        Ok(p3) => Ok(
                            (
                                if is_const {
                                    StmtView::Const(name, e)
                                } else {
                                    StmtView::Let(name, e)
                                },
                                p3,
                            ),
                        ),
                    },
                }
            } else {
                Err(p)
            },
        }
    }
}

/// A conditional: `magadheera ( cond ) { then }` with an optional
/// `karthikeya { else }` block.
pub open spec fn sp_if(s: Seq<char>, toks: Seq<PTok>, pos: int) -> Result<(StmtView, int), int>
    decreases toks.len() - pos, 7int,
{
    match sp_expect(toks, pos + 1, PKind::LParen) {
        Err(a) => Err(a),
        Ok(p1) => if stepped(pos, p1, toks.len() as int) {
            match sp_expression(s, toks, p1) {
                Err(e) => Err(e),
                Ok((c, p2)) => match sp_expect(toks, p2, PKind::RParen) {
                    Err(a) => Err(a),
                    Ok(p3) => match sp_expect(toks, p3, PKind::LBrace) {
                        Err(a) => Err(a),
                        Ok(p4) => if stepped(pos, p4, toks.len() as int) {
                            match sp_statements(s, toks, p4) {
                                Err(e) => Err(e),
                                Ok((t, p5)) => match sp_expect(toks, p5, PKind::RBrace) {
                                    Err(a) => Err(a),
                                    Ok(p6) => if p6 < toks.len() && toks[p6].kind
                                        == PKind::KwElse {
                                        match sp_expect(toks, p6 + 1, PKind::LBrace) {
                                            Err(a) => Err(a),
                                            Ok(p7) => if stepped(pos, p7, toks.len() as int) {
                                                match sp_statements(s, toks, p7) {
                                                    Err(e) => Err(e),
                                                    Ok((b, p8)) => match sp_expect(
                                                        toks,
                                                        p8,
                                                        PKind::RBrace,
                                                    ) {
                                                        Err(a) => Err(a),
                                                        Ok(p9) => Ok(
                                                            (StmtView::If(c, t, Some(b)), p9),
                                                        ),
                                                    },
                                                }
                                            } else {
                                                Err(p7)
                                            },
                                        }
                                    } else {
                                        Ok((StmtView::If(c, t, None), p6))
                                    },
                                },
                            }
                        } else {
                            Err(p4)
                        },
                    },
                },
            }
        } else {
            Err(p1)
        },
    }
}

/// A loop: `pokiri ( cond ) { body }`.
pub open spec fn sp_while(s: Seq<char>, toks: Seq<PTok>, pos: int) -> Result<(StmtView, int), int>
    decreases toks.len() - pos, 7int,
{
    match sp_expect(toks, pos + 1, PKind::LParen) {
        Err(a) => Err(a),
        Ok(p1) => if stepped(pos, p1, toks.len() as int) {
            match sp_expression(s, toks, p1) {
                Err(e) => Err(e),
                Ok((c, p2)) => match sp_expect(toks, p2, PKind::RParen) {
                    Err(a) => Err(a),
                    Ok(p3) => match sp_expect(toks, p3, PKind::LBrace) {
                        Err(a) => Err(a),
                        Ok(p4) => if stepped(pos, p4, toks.len() as int) {
                            match sp_statements(s, toks, p4) {
                                Err(e) => Err(e),
                                Ok((b, p5)) => match sp_expect(toks, p5, PKind::RBrace) {
                                    Err(a) => Err(a),
                                    Ok(p6) => Ok((StmtView::While(c, b), p6)),
                                },
                            }
                        } else {
                            Err(p4)
                        },
                    },
                },
            }
        } else {
            Err(p1)
        },
    }
}

/// A three-clause loop: `eega ( init cond ; update ) { body }`, the
/// initializer being a full statement with its own terminator.
pub open spec fn sp_for(s: Seq<char>, toks: Seq<PTok>, pos: int) -> Result<(StmtView, int), int>
    decreases toks.len() - pos, 7int,
{
    match sp_expect(toks, pos + 1, PKind::LParen) {
        Err(a) => Err(a),
        Ok(p1) => if stepped(pos, p1, toks.len() as int) {
            match sp_statement(s, toks, p1) {
                Err(e) => Err(e),
                Ok((init, p2)) => if stepped(pos, p2, toks.len() as int) {
                    match sp_expression(s, toks, p2) {
                        Err(e) => Err(e),
                        Ok((c, p3)) => match sp_expect(toks, p3, PKind::Semi) {
                            Err(a) => Err(a),
                            Ok(p4) => if stepped(pos, p4, toks.len() as int) {
                                match sp_expression(s, toks, p4) {
                                    Err(e) => Err(e),
                                    Ok((u, p5)) => match sp_expect(toks, p5, PKind::RParen) {
                                        Err(a) => Err(a),
                                        Ok(p6) => match sp_expect(toks, p6, PKind::LBrace) {
                                            Err(a) => Err(a),
                                            Ok(p7) => if stepped(pos, p7, toks.len() as int) {
                                                match sp_statements(s, toks, p7) {
                                                    Err(e) => Err(e),
                                                    Ok((b, p8)) => match sp_expect(
                                                        toks,
                                                        p8,
                                                        PKind::RBrace,
                                                    ) {
                                                        Err(a) => Err(a),
                                                        Ok(p9) => Ok(
                                                            (
                                                                StmtView::For(
                                                                    Box::new(init),
                                                                    c,
                                                                    u,
                                                                    b,
                                                                ),
                                                                p9,
                                                            ),
                                                        ),
                                                    },
                                                }
                                            } else {
                                                Err(p7)
                                            },
                                        },
                                    },
                                }
                            } else {
                                Err(p4)
                            },
                        },
                    }
                } else {
                    Err(p2)
                },
            }
        } else {
            Err(p1)
        },
    }
}

/// One statement, dispatched on its leading keyword.
pub open spec fn sp_statement(s: Seq<char>, toks: Seq<PTok>, pos: int) -> Result<
    (StmtView, int),
    int,
>
    decreases toks.len() - pos, 8int,
{
    if pos < 0 || pos >= toks.len() {
        Err(toks.len() as int)
    } else {
        match toks[pos].kind {
            PKind::KwPrint => sp_print(s, toks, pos),
            PKind::KwConst => sp_decl(s, toks, pos, true),
            PKind::KwLet => sp_decl(s, toks, pos, false),
            PKind::KwIf => sp_if(s, toks, pos),
            PKind::KwWhile => sp_while(s, toks, pos),
            PKind::KwFor => sp_for(s, toks, pos),
            _ => Err(pos),
        }
    }
}

/// The statements of a block, up to the closing brace (not consumed) or
/// the end of the stream.
pub open spec fn sp_statements(s: Seq<char>, toks: Seq<PTok>, pos: int) -> Result<
    (Seq<StmtView>, int),
    int,
>
    decreases toks.len() - pos, 9int,
{
    if pos < 0 || pos >= toks.len() || toks[pos].kind == PKind::RBrace {
        Ok((Seq::empty(), pos))
    } else {
        match sp_statement(s, toks, pos) {
            Err(e) => Err(e),
            Ok((st, p2)) => if stepped(pos, p2, toks.len() as int) {
                match sp_statements(s, toks, p2) {
                    Err(e) => Err(e),
                    Ok((rest, p3)) => Ok((seq![st] + rest, p3)),
                }
            } else {
                Err(p2)
            },
        }
    }
}

/// A whole program: statements until the stream is exhausted.
pub open spec fn sp_program_toks(s: Seq<char>, toks: Seq<PTok>, pos: int) -> Result<
    Seq<StmtView>,
    int,
>
    decreases toks.len() - pos, 9int,
{
    if pos < 0 || pos >= toks.len() {
        Ok(Seq::empty())
    } else {
        match sp_statement(s, toks, pos) {
            Err(e) => Err(e),
            Ok((st, p2)) => if stepped(pos, p2, toks.len() as int) {
                match sp_program_toks(s, toks, p2) {
                    Err(e) => Err(e),
                    Ok(rest) => Ok(seq![st] + rest),
                }
            } else {
                Err(p2)
            },
        }
    }
}

/// The character offset a token-level failure points at.
pub open spec fn tok_err_offset(s: Seq<char>, toks: Seq<PTok>, at: int) -> int {
    if 0 <= at < toks.len() {
        toks[at].lo as int
    } else {
        s.len() as int
    }
}

/// What parsing a source text yields: its statements, or the character
/// offset of the failure.
pub open spec fn sp_parse(s: Seq<char>) -> Result<Seq<StmtView>, int> {
    match p_tokenize(s) {
        Err(off) => Err(off),
        Ok(toks) => match sp_program_toks(s, toks, 0) {
            Err(at) => Err(tok_err_offset(s, toks, at)),
            Ok(stmts) => Ok(stmts),
        },
    }
}

/// An empty source text tokenizes to nothing and so yields no statements:
/// parsing reports that as a failure rather than succeeding emptily.
pub proof fn lemma_empty_input_yields_no_statements()
    ensures
        sp_parse(Seq::empty()) matches Ok(sts) && sts.len() == 0,
{
    assert(p_tokenize_rec(Seq::<char>::empty(), 0) == Ok::<Seq<PTok>, int>(Seq::empty()));
    assert(sp_program_toks(Seq::empty(), Seq::empty(), 0) == Ok::<Seq<StmtView>, int>(
        Seq::empty(),
    ));
}

/// A parse failure on the way up: an advisory message and the index of the
/// offending token (the stream's length stands for its end).
struct PErr {
    msg: String,
    at: usize,
}

fn perr(msg: &str, at: usize) -> (r: PErr)
    ensures
        r.at == at,
        r.msg@ == msg@,
{
    PErr { msg: String::from_str(msg), at }
}

/// Demand token kind `k` at `pos`.
fn expect(toks: &Vec<PTok>, pos: usize, k: PKind, what: &str) -> (r: Result<usize, PErr>)
    requires
        pos <= toks@.len(),
    ensures
        sp_expect(toks@, pos as int, k) matches Ok(p) ==> (r matches Ok(p2) && p2 == p && pos < p
            <= toks@.len()),
        sp_expect(toks@, pos as int, k) matches Err(at) ==> (r matches Err(e) && e.at == at),
{
    if pos >= toks.len() {
        Err(perr(what, toks.len()))
    } else if toks[pos].kind == k {
        Ok(pos + 1)
    } else {
        Err(perr(what, pos))
    }
}

fn is_rbrace(k: PKind) -> (r: bool)
    ensures
        r == (k == PKind::RBrace),
{
    match k {
        PKind::RBrace => true,
        _ => false,
    }
}

fn is_op_exec(k: PKind) -> (r: bool)
    ensures
        r == (op_kind_text(k) is Some),
{
    match k {
        PKind::OpPlus | PKind::OpMinus | PKind::OpStar | PKind::OpSlash | PKind::OpGt
            | PKind::OpLt | PKind::OpGe | PKind::OpLe | PKind::OpEq | PKind::OpNe => true,
        _ => false,
    }
}

fn op_string(k: PKind) -> (r: String)
    requires
        op_kind_text(k) is Some,
    ensures
        r@ == op_kind_text(k)->Some_0,
{
    match k {
        PKind::OpPlus => String::from_str("+"),
        PKind::OpMinus => String::from_str("-"),
        PKind::OpStar => String::from_str("*"),
        PKind::OpSlash => String::from_str("/"),
        PKind::OpGt => String::from_str(">"),
        PKind::OpLt => String::from_str("<"),
        PKind::OpGe => String::from_str(">="),
        PKind::OpLe => String::from_str("<="),
        PKind::OpEq => String::from_str("=="),
        _ => String::from_str("!="),
    }
}

/// Parse a term: a number, identifier, string, or parenthesized expression.
fn parse_term(src: &Vec<char>, toks: &Vec<PTok>, pos: usize) -> (r: Result<
    (Expression, usize),
    PErr,
>)
    requires
        wf_toks(src@, toks@),
        pos <= toks@.len(),
    ensures
        sp_term(src@, toks@, pos as int) matches Ok(pair) ==> (r matches Ok(rp) && rp.0@ == pair.0
            && rp.1 == pair.1 && pos < rp.1 <= toks@.len()),
        sp_term(src@, toks@, pos as int) matches Err(at) ==> (r matches Err(e) && e.at == at),
    decreases toks@.len() - pos, 1int,
{
    if pos >= toks.len() {
        return Err(perr("Expected term content", toks.len()));
    }
    let t = toks[pos];
    proof {
        assert(toks@[pos as int] == t);
    }
    match t.kind {
        PKind::Num(n) => Ok((Expression::Number(n), pos + 1)),
        PKind::Ident => Ok((Expression::Identifier(span_string(src, t.lo, t.hi)), pos + 1)),
        PKind::StrLit => Ok((Expression::String(span_string(src, t.lo + 1, t.hi - 1)), pos + 1)),
        PKind::LParen => {
            match parse_expression(src, toks, pos + 1) {
                Err(e) => Err(e),
                Ok((e, p2)) => {
                    if p2 < toks.len() && toks[p2].kind == PKind::RParen {
                        Ok((e, p2 + 1))
                    } else {
                        Err(perr("Expected ')' to close expression", p2))
                    }
                },
            }
        },
        _ => Err(perr("Unknown term type", pos)),
    }
}

/// Parse an expression: a term, then a left-associative chain of
/// operator-term pairs at one uniform precedence level.
fn parse_expression(src: &Vec<char>, toks: &Vec<PTok>, pos: usize) -> (r: Result<
    (Expression, usize),
    PErr,
>)
    requires
        wf_toks(src@, toks@),
        pos <= toks@.len(),
    ensures
        sp_expression(src@, toks@, pos as int) matches Ok(pair) ==> (r matches Ok(rp) && rp.0@
            == pair.0 && rp.1 == pair.1 && pos < rp.1 <= toks@.len()),
        sp_expression(src@, toks@, pos as int) matches Err(at) ==> (r matches Err(e) && e.at
            == at),
    decreases toks@.len() - pos, 2int,
{
    let first = parse_term(src, toks, pos);
    let (mut left, mut p) = match first {
        Err(e) => {
            return Err(e);
        },
        Ok(x) => x,
    };
    while p < toks.len() && is_op_exec(toks[p].kind)
        invariant
            wf_toks(src@, toks@),
            pos < p <= toks@.len(),
            sp_expression(src@, toks@, pos as int) == sp_chain(src@, toks@, p as int, left@),
        decreases toks@.len() - p,
    {
        let ops = op_string(toks[p].kind);
        match parse_term(src, toks, p + 1) {
            Err(e) => {
                return Err(e);
            },
            Ok((right, p2)) => {
                left = Expression::BinaryOp(Box::new(left), ops, Box::new(right));
                p = p2;
            },
        }
    }
    Ok((left, p))
}

/// Parse a non-empty `,`-separated argument list.
fn parse_args(src: &Vec<char>, toks: &Vec<PTok>, pos: usize) -> (r: Result<
    (Vec<Expression>, usize),
    PErr,
>)
    requires
        wf_toks(src@, toks@),
        pos <= toks@.len(),
    ensures
        sp_args(src@, toks@, pos as int) matches Ok(pair) ==> (r matches Ok(rp) && view_exprs(
            rp.0@,
        ) == pair.0 && rp.1 == pair.1 && pos < rp.1 <= toks@.len()),
        sp_args(src@, toks@, pos as int) matches Err(at) ==> (r matches Err(e) && e.at == at),
    decreases toks@.len() - pos, 3int,
{
    let first = parse_expression(src, toks, pos);
    let (e1, mut p) = match first {
        Err(e) => {
            return Err(e);
        },
        Ok(x) => x,
    };
    let mut args: Vec<Expression> = Vec::new();
    args.push(e1);
    proof {
        assert(view_exprs(args@) =~= seq![args@[0]@]);
    }
    while p < toks.len() && toks[p].kind == PKind::Comma
        invariant
            wf_toks(src@, toks@),
            pos < p <= toks@.len(),
            sp_args(src@, toks@, pos as int) == sp_args_more(
                src@,
                toks@,
                p as int,
                view_exprs(args@),
            ),
        decreases toks@.len() - p,
    {
        let ghost acc0 = view_exprs(args@);
        match parse_expression(src, toks, p + 1) {
            Err(e) => {
                return Err(e);
            },
            Ok((e2, p2)) => {
                args.push(e2);
                proof {
                    assert(view_exprs(args@) =~= acc0.push(args@[args@.len() - 1]@));
                }
                p = p2;
            },
        }
    }
    Ok((args, p))
}

/// Parse a print statement; one with no arguments is rejected here.
fn parse_print_statement(src: &Vec<char>, toks: &Vec<PTok>, pos: usize) -> (r: Result<
    (Statement, usize),
    PErr,
>)
    requires
        wf_toks(src@, toks@),
        pos < toks@.len(),
    ensures
        sp_print(src@, toks@, pos as int) matches Ok(pair) ==> (r matches Ok(rp) && rp.0@ == pair.0
            && rp.1 == pair.1 && pos < rp.1 <= toks@.len()),
        sp_print(src@, toks@, pos as int) matches Err(at) ==> (r matches Err(e) && e.at == at),
    decreases toks@.len() - pos, 4int,
{
    let n = toks.len();
    let p1 = match expect(toks, pos + 1, PKind::LParen, "Expected '(' after bahubali") {
        Err(e) => {
            return Err(e);
        },
        Ok(p) => p,
    };
    if p1 < toks.len() && toks[p1].kind == PKind::RParen {
        match expect(toks, p1 + 1, PKind::Semi, "Expected ';' after bahubali statement") {
            Err(e) => {
                return Err(e);
            },
            Ok(_p2) => {
                return Err(perr("bahubali() requires at least one argument", pos));
            },
        }
    }
    let (args, p2) = match parse_args(src, toks, p1) {
        Err(e) => {
            return Err(e);
        },
        Ok(x) => x,
    };
    let p3 = match expect(toks, p2, PKind::RParen, "Expected ')' in bahubali statement") {
        Err(e) => {
            return Err(e);
        },
        Ok(p) => p,
    };
    let p4 = match expect(toks, p3, PKind::Semi, "Expected ';' after bahubali statement") {
        Err(e) => {
            return Err(e);
        },
        Ok(p) => p,
    };
    Ok((Statement::Print(args), p4))
}

/// Parse a declaration: keyword, name, `=`, initializer, `;`.
fn parse_decl(src: &Vec<char>, toks: &Vec<PTok>, pos: usize, is_const: bool) -> (r: Result<
    (Statement, usize),
    PErr,
>)
    requires
        wf_toks(src@, toks@),
        pos < toks@.len(),
    ensures
        sp_decl(src@, toks@, pos as int, is_const) matches Ok(pair) ==> (r matches Ok(rp) && rp.0@
            == pair.0 && rp.1 == pair.1 && pos < rp.1 <= toks@.len()),
        sp_decl(src@, toks@, pos as int, is_const) matches Err(at) ==> (r matches Err(e) && e.at
            == at),
    decreases toks@.len() - pos, 4int,
{
    let n = toks.len();
    if pos + 1 >= n {
        return Err(perr("Expected identifier in declaration", n));
    }
    let nt = toks[pos + 1];
    proof {
        assert(toks@[pos + 1] == nt);
    }
    if !(match nt.kind {
        PKind::Ident => true,
        _ => false,
    }) {
        return Err(perr("Expected identifier in declaration", pos + 1));
    }
    let name = span_string(src, nt.lo, nt.hi);
    let p = match expect(toks, pos + 2, PKind::Assign, "Expected '=' in declaration") {
        Err(e) => {
            return Err(e);
        },
        Ok(p) => p,
    };
    let (e, p2) = match parse_expression(src, toks, p) {
        Err(e) => {
            return Err(e);
        },
        Ok(x) => x,
    };
    let p3 = match expect(toks, p2, PKind::Semi, "Expected ';' after declaration") {
        Err(e) => {
            return Err(e);
        },
        Ok(p) => p,
    };
    if is_const {
        Ok((Statement::Const(name, e), p3))
    } else {
        Ok((Statement::Let(name, e), p3))
    }
}

/// Parse a `rrr` declaration.
fn parse_const_statement(src: &Vec<char>, toks: &Vec<PTok>, pos: usize) -> (r: Result<
    (Statement, usize),
    PErr,
>)
    requires
        wf_toks(src@, toks@),
        pos < toks@.len(),
    ensures
        sp_decl(src@, toks@, pos as int, true) matches Ok(pair) ==> (r matches Ok(rp) && rp.0@
            == pair.0 && rp.1 == pair.1 && pos < rp.1 <= toks@.len()),
        sp_decl(src@, toks@, pos as int, true) matches Err(at) ==> (r matches Err(e) && e.at
            == at),
    decreases toks@.len() - pos, 5int,
{
    parse_decl(src, toks, pos, true)
}

/// Parse a `pushpa` declaration.
fn parse_let_statement(src: &Vec<char>, toks: &Vec<PTok>, pos: usize) -> (r: Result<
    (Statement, usize),
    PErr,
>)
    requires
        wf_toks(src@, toks@),
        pos < toks@.len(),
    ensures
        sp_decl(src@, toks@, pos as int, false) matches Ok(pair) ==> (r matches Ok(rp) && rp.0@
            == pair.0 && rp.1 == pair.1 && pos < rp.1 <= toks@.len()),
        sp_decl(src@, toks@, pos as int, false) matches Err(at) ==> (r matches Err(e) && e.at
            == at),
    decreases toks@.len() - pos, 5int,
{
    parse_decl(src, toks, pos, false)
}

/// Parse a conditional with its optional else block.
fn parse_if_statement(src: &Vec<char>, toks: &Vec<PTok>, pos: usize) -> (r: Result<
    (Statement, usize),
    PErr,
>)
    requires
        wf_toks(src@, toks@),
        pos < toks@.len(),
    ensures
        sp_if(src@, toks@, pos as int) matches Ok(pair) ==> (r matches Ok(rp) && rp.0@ == pair.0
            && rp.1 == pair.1 && pos < rp.1 <= toks@.len()),
        sp_if(src@, toks@, pos as int) matches Err(at) ==> (r matches Err(e) && e.at == at),
    decreases toks@.len() - pos, 4int,
{
    let n = toks.len();
    let p1 = match expect(toks, pos + 1, PKind::LParen, "Expected '(' after magadheera") {
        Err(e) => {
            return Err(e);
        },
        Ok(p) => p,
    };
    let (c, p2) = match parse_expression(src, toks, p1) {
        Err(e) => {
            return Err(perr("Expected condition in magadheera statement", e.at));
        },
        Ok(x) => x,
    };
    let p3 = match expect(toks, p2, PKind::RParen, "Expected ')' after condition") {
        Err(e) => {
            return Err(e);
        },
        Ok(p) => p,
    };
    let p4 = match expect(toks, p3, PKind::LBrace, "Expected '{' to open block") {
        Err(e) => {
            return Err(e);
        },
        Ok(p) => p,
    };
    let (t, p5) = match parse_statements(src, toks, p4) {
        Err(e) => {
            return Err(e);
        },
        Ok(x) => x,
    };
    let p6 = match expect(toks, p5, PKind::RBrace, "Expected '}' to close block") {
        Err(e) => {
            return Err(e);
        },
        Ok(p) => p,
    };
    if p6 < toks.len() && toks[p6].kind == PKind::KwElse {
        let p7 = match expect(toks, p6 + 1, PKind::LBrace, "Expected '{' after karthikeya") {
            Err(e) => {
                return Err(e);
            },
            Ok(p) => p,
        };
        let (b, p8) = match parse_statements(src, toks, p7) {
            Err(e) => {
                return Err(e);
            },
            Ok(x) => x,
        };
        let p9 = match expect(toks, p8, PKind::RBrace, "Expected '}' to close karthikeya block") {
            Err(e) => {
                return Err(e);
            },
            Ok(p) => p,
        };
        Ok((Statement::If(c, t, Some(b)), p9))
    } else {
        Ok((Statement::If(c, t, None), p6))
    }
}

/// Parse a while loop.
fn parse_while_statement(src: &Vec<char>, toks: &Vec<PTok>, pos: usize) -> (r: Result<
    (Statement, usize),
    PErr,
>)
    requires
        wf_toks(src@, toks@),
        pos < toks@.len(),
    ensures
        sp_while(src@, toks@, pos as int) matches Ok(pair) ==> (r matches Ok(rp) && rp.0@ == pair.0
            && rp.1 == pair.1 && pos < rp.1 <= toks@.len()),
        sp_while(src@, toks@, pos as int) matches Err(at) ==> (r matches Err(e) && e.at == at),
    decreases toks@.len() - pos, 4int,
{
    let n = toks.len();
    let p1 = match expect(toks, pos + 1, PKind::LParen, "Expected '(' after pokiri") {
        Err(e) => {
            return Err(e);
        },
        Ok(p) => p,
    };
    let (c, p2) = match parse_expression(src, toks, p1) {
        Err(e) => {
            return Err(perr("Expected condition in pokiri statement", e.at));
        },
        Ok(x) => x,
    };
    let p3 = match expect(toks, p2, PKind::RParen, "Expected ')' after condition") {
        Err(e) => {
            return Err(e);
        },
        Ok(p) => p,
    };
    let p4 = match expect(toks, p3, PKind::LBrace, "Expected '{' to open block") {
        Err(e) => {
            return Err(e);
        },
        Ok(p) => p,
    };
    let (b, p5) = match parse_statements(src, toks, p4) {
        Err(e) => {
            return Err(e);
        },
        Ok(x) => x,
    };
    let p6 = match expect(toks, p5, PKind::RBrace, "Expected '}' to close block") {
        Err(e) => {
            return Err(e);
        },
        Ok(p) => p,
    };
    Ok((Statement::While(c, b), p6))
}

/// Parse a three-clause for loop.
fn parse_for_statement(src: &Vec<char>, toks: &Vec<PTok>, pos: usize) -> (r: Result<
    (Statement, usize),
    PErr,
>)
    requires
        wf_toks(src@, toks@),
        pos < toks@.len(),
    ensures
        sp_for(src@, toks@, pos as int) matches Ok(pair) ==> (r matches Ok(rp) && rp.0@ == pair.0
            && rp.1 == pair.1 && pos < rp.1 <= toks@.len()),
        sp_for(src@, toks@, pos as int) matches Err(at) ==> (r matches Err(e) && e.at == at),
    decreases toks@.len() - pos, 4int,
{
    let n = toks.len();
    let p1 = match expect(toks, pos + 1, PKind::LParen, "Expected '(' after eega") {
        Err(e) => {
            return Err(e);
        },
        Ok(p) => p,
    };
    let (init, p2) = match parse_statement(src, toks, p1) {
        Err(e) => {
            return Err(perr("Expected initialization in eega statement", e.at));
        },
        Ok(x) => x,
    };
    let (c, p3) = match parse_expression(src, toks, p2) {
        Err(e) => {
            return Err(perr("Expected condition in eega statement", e.at));
        },
        Ok(x) => x,
    };
    let p4 = match expect(toks, p3, PKind::Semi, "Expected ';' after eega condition") {
        Err(e) => {
            return Err(e);
        },
        Ok(p) => p,
    };
    let (u, p5) = match parse_expression(src, toks, p4) {
        Err(e) => {
            return Err(perr("Expected update expression in eega statement", e.at));
        },
        Ok(x) => x,
    };
    let p6 = match expect(toks, p5, PKind::RParen, "Expected ')' after eega clauses") {
        Err(e) => {
            return Err(e);
        },
        Ok(p) => p,
    };
    let p7 = match expect(toks, p6, PKind::LBrace, "Expected '{' to open block") {
        Err(e) => {
            return Err(e);
        },
        Ok(p) => p,
    };
    let (b, p8) = match parse_statements(src, toks, p7) {
        Err(e) => {
            return Err(e);
        },
        Ok(x) => x,
    };
    let p9 = match expect(toks, p8, PKind::RBrace, "Expected '}' to close block") {
        Err(e) => {
            return Err(e);
        },
        Ok(p) => p,
    };
    Ok((Statement::For(Box::new(init), c, u, b), p9))
}

/// Parse one statement, dispatched on its leading keyword.
fn parse_statement(src: &Vec<char>, toks: &Vec<PTok>, pos: usize) -> (r: Result<
    (Statement, usize),
    PErr,
>)
    requires
        wf_toks(src@, toks@),
        pos <= toks@.len(),
    ensures
        sp_statement(src@, toks@, pos as int) matches Ok(pair) ==> (r matches Ok(rp) && rp.0@
            == pair.0 && rp.1 == pair.1 && pos < rp.1 <= toks@.len()),
        sp_statement(src@, toks@, pos as int) matches Err(at) ==> (r matches Err(e) && e.at == at),
    decreases toks@.len() - pos, 6int,
{
    if pos >= toks.len() {
        return Err(perr("Expected statement content", toks.len()));
    }
    match toks[pos].kind {
        PKind::KwPrint => parse_print_statement(src, toks, pos),
        PKind::KwConst => parse_const_statement(src, toks, pos),
        PKind::KwLet => parse_let_statement(src, toks, pos),
        PKind::KwIf => parse_if_statement(src, toks, pos),
        PKind::KwWhile => parse_while_statement(src, toks, pos),
        PKind::KwFor => parse_for_statement(src, toks, pos),
        _ => Err(perr("Invalid statement syntax", pos)),
    }
}

/// Parse the statements of a block, up to its closing brace.
fn parse_statements(src: &Vec<char>, toks: &Vec<PTok>, pos: usize) -> (r: Result<
    (Vec<Statement>, usize),
    PErr,
>)
    requires
        wf_toks(src@, toks@),
        pos <= toks@.len(),
    ensures
        sp_statements(src@, toks@, pos as int) matches Ok(pair) ==> (r matches Ok(rp) && view_stmts(
            rp.0@,
        ) == pair.0 && rp.1 == pair.1 && pos <= rp.1 <= toks@.len()),
        sp_statements(src@, toks@, pos as int) matches Err(at) ==> (r matches Err(e) && e.at
            == at),
    decreases toks@.len() - pos, 7int,
{
    let mut out: Vec<Statement> = Vec::new();
    let mut p: usize = pos;
    proof {
        assert(view_stmts(out@) =~= Seq::<StmtView>::empty());
    }
    while p < toks.len() && !is_rbrace(toks[p].kind)
        invariant
            wf_toks(src@, toks@),
            pos <= p <= toks@.len(),
            (match sp_statements(src@, toks@, p as int) {
                Ok(pair) => sp_statements(src@, toks@, pos as int) == Ok::<
                    (Seq<StmtView>, int),
                    int,
                >((view_stmts(out@) + pair.0, pair.1)),
                Err(e) => sp_statements(src@, toks@, pos as int) == Err::<
                    (Seq<StmtView>, int),
                    int,
                >(e),
            }),
        decreases toks@.len() - p,
    {
        let ghost acc0 = view_stmts(out@);
        match parse_statement(src, toks, p) {
            Err(e) => {
                return Err(e);
            },
            Ok((st, p2)) => {
                out.push(st);
                proof {
                    assert(view_stmts(out@) =~= acc0 + seq![out@[out@.len() - 1]@]);
                    match sp_statements(src@, toks@, p2 as int) {
                        Ok(pair) => {
                            assert(acc0 + (seq![out@[out@.len() - 1]@] + pair.0) =~= view_stmts(
                                out@,
                            ) + pair.0);
                        },
                        Err(_) => {},
                    }
                }
                p = p2;
            },
        }
    }
    proof {
        assert(sp_statements(src@, toks@, p as int) == Ok::<(Seq<StmtView>, int), int>(
            (Seq::empty(), p as int),
        ));
        assert(view_stmts(out@) + Seq::<StmtView>::empty() =~= view_stmts(out@));
    }
    Ok((out, p))
}

/// Parse a whole program's statements from the token stream.
fn parse_program_toks(src: &Vec<char>, toks: &Vec<PTok>) -> (r: Result<Vec<Statement>, PErr>)
    requires
        wf_toks(src@, toks@),
    ensures
        sp_program_toks(src@, toks@, 0) matches Ok(sts) ==> (r matches Ok(rp) && view_stmts(rp@)
            == sts),
        sp_program_toks(src@, toks@, 0) matches Err(at) ==> (r matches Err(e) && e.at == at),
{
    let mut out: Vec<Statement> = Vec::new();
    let mut p: usize = 0;
    proof {
        assert(view_stmts(out@) =~= Seq::<StmtView>::empty());
    }
    while p < toks.len()
        invariant
            wf_toks(src@, toks@),
            p <= toks@.len(),
            (match sp_program_toks(src@, toks@, p as int) {
                Ok(sts) => sp_program_toks(src@, toks@, 0) == Ok::<Seq<StmtView>, int>(
                    view_stmts(out@) + sts,
                ),
                Err(e) => sp_program_toks(src@, toks@, 0) == Err::<Seq<StmtView>, int>(e),
            }),
        decreases toks@.len() - p,
    {
        let ghost acc0 = view_stmts(out@);
        match parse_statement(src, toks, p) {
            Err(e) => {
                return Err(e);
            },
            Ok((st, p2)) => {
                out.push(st);
                proof {
                    assert(view_stmts(out@) =~= acc0 + seq![out@[out@.len() - 1]@]);
                    match sp_program_toks(src@, toks@, p2 as int) {
                        Ok(sts) => {
                            assert(acc0 + (seq![out@[out@.len() - 1]@] + sts) =~= view_stmts(out@)
                                + sts);
                        },
                        Err(_) => {},
                    }
                }
                p = p2;
            },
        }
    }
    proof {
        assert(sp_program_toks(src@, toks@, p as int) == Ok::<Seq<StmtView>, int>(Seq::empty()));
        assert(view_stmts(out@) + Seq::<StmtView>::empty() =~= view_stmts(out@));
    }
    Ok(out)
}

/// Structured information about a parse failure: a category message, a
/// best-effort position, the source line it points into, and an advisory
/// suggestion.
#[derive(Debug, Clone)]
pub struct ParseErrorInfo {
    pub message: String,
    pub line: usize,
    pub column: usize,
    pub source_line: String,
    pub suggestion: Option<String>,
}

/// How many newlines `s` holds.
pub open spec fn count_nl(s: Seq<char>) -> int
    decreases s.len(),
{
    if s.len() == 0 {
        0
    } else {
        count_nl(s.drop_last()) + if s.last() == '\n' {
            1int
        } else {
            0int
        }
    }
}

/// The offset where the line containing offset `off` begins.
pub open spec fn line_start(s: Seq<char>, off: int) -> int
    decreases off,
{
    if off <= 0 {
        0
    } else if s[off - 1] == '\n' {
        off
    } else {
        line_start(s, off - 1)
    }
}

/// The 1-based line number of offset `off`.
pub open spec fn spec_line(s: Seq<char>, off: int) -> int {
    if count_nl(s.take(off)) + 1 <= usize::MAX {
        count_nl(s.take(off)) + 1
    } else {
        usize::MAX as int
    }
}

/// The 1-based column of offset `off` within its line.
pub open spec fn spec_col(s: Seq<char>, off: int) -> int {
    if off - line_start(s, off) + 1 <= usize::MAX {
        off - line_start(s, off) + 1
    } else {
        usize::MAX as int
    }
}

/// The text of the line containing offset `off`.
pub open spec fn spec_err_line(s: Seq<char>, off: int) -> Seq<char> {
    let ls = line_start(s, off);
    s.subrange(ls, ls + crate::text::first_nl(s.skip(ls)))
}

proof fn lemma_line_start_bounds(s: Seq<char>, off: int)
    requires
        0 <= off <= s.len(),
    ensures
        0 <= line_start(s, off) <= off,
    decreases off,
{
    if off > 0 && s[off - 1] != '\n' {
        lemma_line_start_bounds(s, off - 1);
    }
}

/// The line, column and line text of a character offset.
fn position_of(src: &Vec<char>, off: usize) -> (r: (usize, usize, String))
    requires
        off <= src@.len(),
    ensures
        r.0 == spec_line(src@, off as int),
        r.1 == spec_col(src@, off as int),
        r.2@ == spec_err_line(src@, off as int),
{
    let len = src.len();
    let mut cnt: usize = 0;
    let mut ls: usize = 0;
    let mut t: usize = 0;
    proof {
        assert(src@.take(0) =~= Seq::<char>::empty());
    }
    while t < off
        invariant
            t <= off <= len,
            len == src@.len(),
            cnt <= t,
            ls <= t,
            cnt == count_nl(src@.take(t as int)),
            ls == line_start(src@, t as int),
        decreases off - t,
    {
        proof {
            assert(src@.take(t + 1).drop_last() =~= src@.take(t as int));
            assert(src@.take(t + 1).last() == src@[t as int]);
        }
        if src[t] == '\n' {
            cnt = cnt + 1;
            ls = t + 1;
        }
        t = t + 1;
    }
    let line: usize = if cnt < usize::MAX {
        cnt + 1
    } else {
        cnt
    };
    let col: usize = if off - ls < usize::MAX {
        off - ls + 1
    } else {
        off - ls
    };
    let mut e: usize = ls;
    while e < len && src[e] != '\n'
        invariant
            ls <= e <= len,
            len == src@.len(),
            forall|j: int| ls <= j < e ==> src@[j] != '\n',
        decreases len - e,
    {
        e = e + 1;
    }
    proof {
        let rest = src@.skip(ls as int);
        assert forall|j: int| 0 <= j < e - ls implies rest[j] != '\n' by {
            assert(rest[j] == src@[ls + j]);
        }
        if e < len {
            assert(rest[e - ls] == src@[e as int]);
        }
        crate::text::lemma_first_nl_at(rest, e - ls);
    }
    let text = span_string(src, ls, e);
    (line, col, text)
}

/// The advisory hint chosen from the content of the offending line.
pub open spec fn spec_suggestion(line: Seq<char>) -> Seq<char> {
    if crate::text::spec_trim(line).len() == 0 {
        "Add a valid TFI statement like 'bahubali(\"Hello\");'"@
    } else if line.contains('=') && !crate::text::spec_contains(line, "rrr"@)
        && !crate::text::spec_contains(line, "pushpa"@) {
        "Variable assignments need 'rrr' (const) or 'pushpa' (let) keyword"@
    } else if crate::text::spec_contains(line, "bahubali"@) && !line.contains('(') {
        "bahubali statements need parentheses: bahubali(\"message\");"@
    } else if crate::text::spec_contains(line, "magadheera"@) && !line.contains('(') {
        "magadheera statements need parentheses: magadheera(condition) { ... }"@
    } else if crate::text::spec_contains(line, "pokiri"@) && !line.contains('(') {
        "pokiri statements need parentheses: pokiri(condition) { ... }"@
    } else if crate::text::spec_contains(line, "eega"@) && !line.contains('(') {
        "eega statements need parentheses: eega(init; condition; update) { ... }"@
    } else {
        "Check your syntax and make sure all statements end with semicolons"@
    }
}

/// Choose an advisory hint from the content of the offending source line.
pub fn generate_generic_suggestion(source_line: &str) -> (r: Option<String>)
    ensures
        r matches Some(sg) && sg@ == spec_suggestion(source_line@),
{
    let trimmed = crate::text::trim(source_line);
    if trimmed.as_str().unicode_len() == 0 {
        Some(String::from_str("Add a valid TFI statement like 'bahubali(\"Hello\");'"))
    } else if crate::text::contains_char(source_line, '=') && !crate::text::contains_str(
        source_line,
        "rrr",
    ) && !crate::text::contains_str(source_line, "pushpa") {
        Some(String::from_str("Variable assignments need 'rrr' (const) or 'pushpa' (let) keyword"))
    } else if crate::text::contains_str(source_line, "bahubali") && !crate::text::contains_char(
        source_line,
        '(',
    ) {
        Some(String::from_str("bahubali statements need parentheses: bahubali(\"message\");"))
    } else if crate::text::contains_str(source_line, "magadheera") && !crate::text::contains_char(
        source_line,
        '(',
    ) {
        Some(
            String::from_str("magadheera statements need parentheses: magadheera(condition) { ... }"),
        )
    } else if crate::text::contains_str(source_line, "pokiri") && !crate::text::contains_char(
        source_line,
        '(',
    ) {
        Some(String::from_str("pokiri statements need parentheses: pokiri(condition) { ... }"))
    } else if crate::text::contains_str(source_line, "eega") && !crate::text::contains_char(
        source_line,
        '(',
    ) {
        Some(
            String::from_str(
                "eega statements need parentheses: eega(init; condition; update) { ... }",
            ),
        )
    } else {
        Some(
            String::from_str("Check your syntax and make sure all statements end with semicolons"),
        )
    }
}

/// The view of an optional string.
pub open spec fn sugg_view(o: Option<String>) -> Option<Seq<char>> {
    match o {
        Some(s) => Some(s@),
        None => None,
    }
}

/// The rendered multi-line diagnostic for a parse failure.
pub open spec fn spec_format_parse_error(
    message: Seq<char>,
    line: usize,
    column: usize,
    source_line: Seq<char>,
    suggestion: Option<Seq<char>>,
) -> Seq<char> {
    "❌ Parse Error at line "@ + crate::text::dec_digits(line as nat) + ", column "@
        + crate::text::dec_digits(column as nat) + seq!['\n'] + "   "@ + message + seq!['\n']
        + "   "@ + source_line + seq!['\n'] + "   "@ + crate::text::repeat_char(
        ' ',
        (column - 1) as nat,
    ) + "^\n"@ + (match suggestion {
        Some(t) => "   💡 Suggestion: "@ + t + seq!['\n'],
        None => Seq::empty(),
    })
}

/// Render a parse failure as a multi-line diagnostic with a caret under
/// the failing column.
pub fn format_parse_error(error_info: &ParseErrorInfo) -> (r: String)
    requires
        error_info.column >= 1,
    ensures
        r@ == spec_format_parse_error(
            error_info.message@,
            error_info.line,
            error_info.column,
            error_info.source_line@,
            sugg_view(error_info.suggestion),
        ),
{
    let mut out = String::new();
    out.append("❌ Parse Error at line ");
    crate::text::push_usize(&mut out, error_info.line);
    out.append(", column ");
    crate::text::push_usize(&mut out, error_info.column);
    push_char(&mut out, '\n');
    out.append("   ");
    out.append(error_info.message.as_str());
    push_char(&mut out, '\n');
    out.append("   ");
    out.append(error_info.source_line.as_str());
    push_char(&mut out, '\n');
    out.append("   ");
    crate::text::push_repeat(&mut out, ' ', error_info.column - 1);
    out.append("^\n");
    match &error_info.suggestion {
        Some(t) => {
            out.append("   💡 Suggestion: ");
            out.append(t.as_str());
            push_char(&mut out, '\n');
        },
        None => {},
    }
    proof {
        assert(out@ =~= spec_format_parse_error(
            error_info.message@,
            error_info.line,
            error_info.column,
            error_info.source_line@,
            sugg_view(error_info.suggestion),
        ));
    }
    out
}

/// Builds the structured failure for a character offset, with the line's
/// text and an advisory suggestion.
fn build_error_info(src: &Vec<char>, off: usize, message: String) -> (r: ParseErrorInfo)
    requires
        off <= src@.len(),
    ensures
        r.message == message,
        r.line == spec_line(src@, off as int),
        r.column == spec_col(src@, off as int),
        r.source_line@ == spec_err_line(src@, off as int),
        r.suggestion matches Some(sg) && sg@ == spec_suggestion(spec_err_line(src@, off as int)),
{
    let (line, column, text) = position_of(src, off);
    let suggestion = generate_generic_suggestion(text.as_str());
    ParseErrorInfo { message, line, column, source_line: text, suggestion }
}

/// Parse a source text into its statements. On success the statements are
/// exactly what the grammar derives; a text that the grammar rejects, and
/// a text that yields no statements at all, each produce a structured
/// failure whose position fields point at the failure.
pub fn parse_program(input: &str) -> (r: Result<Vec<Statement>, ParseErrorInfo>)
    ensures
        sp_parse(input@) matches Ok(sts) ==> ((sts.len() > 0 ==> (r matches Ok(v) && view_stmts(
            v@,
        ) == sts)) && (sts.len() == 0 ==> (r matches Err(e) && e.message@
            == "No valid statements found. Check your syntax."@ && e.line == 1 && e.column == 1
            && e.source_line@ == spec_err_line(input@, 0)))),
        sp_parse(input@) matches Err(off) ==> (r matches Err(e) && e.line == spec_line(
            input@,
            off,
        ) && e.column == spec_col(input@, off) && e.source_line@ == spec_err_line(input@, off) && (
        e.suggestion matches Some(sg) && sg@ == spec_suggestion(spec_err_line(input@, off)))),
{
    let chars = crate::text::str_to_chars(input);
    match p_tokens(&chars) {
        Err(off) => Err(build_error_info(&chars, off, String::from_str("Syntax error"))),
        Ok(toks) => {
            match parse_program_toks(&chars, &toks) {
                Err(pe) => {
                    let off: usize = if pe.at < toks.len() {
                        toks[pe.at].lo
                    } else {
                        chars.len()
                    };
                    let msg: String = if pe.at >= toks.len() {
                        String::from_str("Unexpected end of input or invalid syntax")
                    } else {
                        pe.msg
                    };
                    Err(build_error_info(&chars, off, msg))
                },
                Ok(statements) => {
                    if statements.len() == 0 {
                        let mut info = build_error_info(
                            &chars,
                            0,
                            String::from_str("No valid statements found. Check your syntax."),
                        );
                        info.suggestion = Some(
                            String::from_str(
                                "Make sure your TFI file contains valid statements like 'bahubali(\"Hello\");' or 'rrr x = 10;'",
                            ),
                        );
                        Err(info)
                    } else {
                        Ok(statements)
                    }
                },
            }
        },
    }
}

} // verus!
