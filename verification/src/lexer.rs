//! Tokenizer for the source language. Keywords are matched over maximal
//! alphabetic runs, numbers over maximal digit runs (a value that does not
//! fit the numeric type is dropped), the two-character comparison operators
//! are matched greedily before their one-character prefixes, whitespace is
//! skipped, and unrecognized characters are dropped silently — lexical gaps
//! surface later as parse failures.

use vstd::prelude::*;
use vstd::string::StrSliceExecFns;

use crate::text::push_char;
use crate::text::str_eq;
use crate::text::lemma_skip_skip;

verus! {

/// One lexical token.
#[derive(Debug, Clone, PartialEq)]
pub enum Token {
    /// Keyword `rrr`, a constant declaration.
    Const,
    /// Keyword `pushpa`, a mutable declaration.
    Let,
    /// Keyword `bahubali`, a print statement.
    Print,
    /// Keyword `magadheera`, a conditional.
    If,
    /// Keyword `karthikeya`, an else block.
    Else,
    /// Keyword `pokiri`, a while loop.
    While,
    /// Keyword `eega`, a for loop.
    For,
    /// A variable name: a maximal alphabetic run that is no keyword.
    Identifier(String),
    /// A numeric literal.
    Number(i32),
    Assign,
    LParen,
    RParen,
    LBrace,
    RBrace,
    Semicolon,
    Plus,
    Minus,
    Multiply,
    Divide,
    Greater,
    Less,
    GreaterEqual,
    LessEqual,
    Equal,
    NotEqual,
    /// Never emitted: whitespace is skipped during tokenization.
    Whitespace,
}

/// Model of a token: identifier text as a character sequence.
pub enum TokView {
    Const,
    Let,
    Print,
    If,
    Else,
    While,
    For,
    Identifier(Seq<char>),
    Number(i32),
    Assign,
    LParen,
    RParen,
    LBrace,
    RBrace,
    Semicolon,
    Plus,
    Minus,
    Multiply,
    Divide,
    Greater,
    Less,
    GreaterEqual,
    LessEqual,
    Equal,
    NotEqual,
    Whitespace,
}

impl View for Token {
    type V = TokView;

    open spec fn view(&self) -> TokView {
        match self {
            Token::Const => TokView::Const,
            Token::Let => TokView::Let,
            Token::Print => TokView::Print,
            Token::If => TokView::If,
            Token::Else => TokView::Else,
            Token::While => TokView::While,
            Token::For => TokView::For,
            Token::Identifier(s) => TokView::Identifier(s@),
            Token::Number(n) => TokView::Number(*n),
            Token::Assign => TokView::Assign,
            Token::LParen => TokView::LParen,
            Token::RParen => TokView::RParen,
            Token::LBrace => TokView::LBrace,
            Token::RBrace => TokView::RBrace,
            Token::Semicolon => TokView::Semicolon,
            Token::Plus => TokView::Plus,
            Token::Minus => TokView::Minus,
            Token::Multiply => TokView::Multiply,
            Token::Divide => TokView::Divide,
            Token::Greater => TokView::Greater,
            Token::Less => TokView::Less,
            Token::GreaterEqual => TokView::GreaterEqual,
            Token::LessEqual => TokView::LessEqual,
            Token::Equal => TokView::Equal,
            Token::NotEqual => TokView::NotEqual,
            Token::Whitespace => TokView::Whitespace,
        }
    }
}

/// Whether a token is one of the seven keywords.
pub open spec fn spec_is_keyword(t: TokView) -> bool {
    match t {
        TokView::Const | TokView::Let | TokView::Print | TokView::If | TokView::Else
            | TokView::While | TokView::For => true,
        _ => false,
    }
}

/// The spelling of a keyword token.
pub open spec fn spec_keyword_name(t: TokView) -> Option<Seq<char>> {
    match t {
        TokView::Const => Some("rrr"@),
        TokView::Let => Some("pushpa"@),
        TokView::Print => Some("bahubali"@),
        TokView::If => Some("magadheera"@),
        TokView::Else => Some("karthikeya"@),
        TokView::While => Some("pokiri"@),
        TokView::For => Some("eega"@),
        _ => None,
    }
}

/// Whether a token is an operator or the assignment sign.
pub open spec fn spec_is_operator(t: TokView) -> bool {
    match t {
        TokView::Plus | TokView::Minus | TokView::Multiply | TokView::Divide | TokView::Greater
            | TokView::Less | TokView::GreaterEqual | TokView::LessEqual | TokView::Equal
            | TokView::NotEqual | TokView::Assign => true,
        _ => false,
    }
}

/// The spelling of an operator token.
pub open spec fn spec_operator_symbol(t: TokView) -> Option<Seq<char>> {
    match t {
        TokView::Plus => Some("+"@),
        TokView::Minus => Some("-"@),
        TokView::Multiply => Some("*"@),
        TokView::Divide => Some("/"@),
        TokView::Greater => Some(">"@),
        TokView::Less => Some("<"@),
        TokView::GreaterEqual => Some(">="@),
        TokView::LessEqual => Some("<="@),
        TokView::Equal => Some("=="@),
        TokView::NotEqual => Some("!="@),
        TokView::Assign => Some("="@),
        _ => None,
    }
}

impl Token {
    /// Whether this token is a keyword.
    pub fn is_keyword(&self) -> (r: bool)
        ensures
            r == spec_is_keyword(self@),
    {
        match self {
            Token::Const | Token::Let | Token::Print | Token::If | Token::Else | Token::While
                | Token::For => true,
            _ => false,
        }
    }

    /// The keyword's spelling, for a keyword token.
    pub fn keyword_name(&self) -> (r: Option<&'static str>)
        ensures
            r matches Some(s) ==> spec_keyword_name(self@) == Some(s@),
            r is None ==> spec_keyword_name(self@) is None,
    {
        match self {
            Token::Const => Some("rrr"),
            Token::Let => Some("pushpa"),
            Token::Print => Some("bahubali"),
            Token::If => Some("magadheera"),
            Token::Else => Some("karthikeya"),
            Token::While => Some("pokiri"),
            Token::For => Some("eega"),
            _ => None,
        }
    }

    /// Whether this token is an operator or the assignment sign.
    pub fn is_operator(&self) -> (r: bool)
        ensures
            r == spec_is_operator(self@),
    {
        match self {
            Token::Plus | Token::Minus | Token::Multiply | Token::Divide | Token::Greater
                | Token::Less | Token::GreaterEqual | Token::LessEqual | Token::Equal
                | Token::NotEqual | Token::Assign => true,
            _ => false,
        }
    }

    /// The operator's spelling, for an operator token.
    pub fn operator_symbol(&self) -> (r: Option<&'static str>)
        ensures
            r matches Some(s) ==> spec_operator_symbol(self@) == Some(s@),
            r is None ==> spec_operator_symbol(self@) is None,
    {
        match self {
            Token::Plus => Some("+"),
            Token::Minus => Some("-"),
            Token::Multiply => Some("*"),
            Token::Divide => Some("/"),
            Token::Greater => Some(">"),
            Token::Less => Some("<"),
            Token::GreaterEqual => Some(">="),
            Token::LessEqual => Some("<="),
            Token::Equal => Some("=="),
            Token::NotEqual => Some("!="),
            Token::Assign => Some("="),
            _ => None,
        }
    }
}

/// An ASCII letter.
pub open spec fn is_alpha(c: char) -> bool {
    ('a' <= c && c <= 'z') || ('A' <= c && c <= 'Z')
}

/// An ASCII digit.
pub open spec fn is_digit(c: char) -> bool {
    '0' <= c && c <= '9'
}

/// The whitespace the tokenizer skips: space, tab, newline, form feed.
pub open spec fn lex_ws(c: char) -> bool {
    c == ' ' || c == '\t' || c == '\n' || c == '\u{000c}'
}

/// The length of the maximal alphabetic prefix of `s`.
pub open spec fn alpha_run(s: Seq<char>) -> int
    decreases s.len(),
{
    if s.len() > 0 && is_alpha(s[0]) {
        1 + alpha_run(s.skip(1))
    } else {
        0
    }
}

/// The length of the maximal digit prefix of `s`.
pub open spec fn digit_run(s: Seq<char>) -> int
    decreases s.len(),
{
    if s.len() > 0 && is_digit(s[0]) {
        1 + digit_run(s.skip(1))
    } else {
        0
    }
}

proof fn lemma_alpha_run_at(s: Seq<char>, k: int)
    requires
        0 <= k <= s.len(),
        forall|j: int| 0 <= j < k ==> is_alpha(s[j]),
        k == s.len() || !is_alpha(s[k]),
    ensures
        alpha_run(s) == k,
    decreases k,
{
    if k > 0 {
        lemma_alpha_run_at(s.skip(1), k - 1);
        assert(forall|j: int| 0 <= j < k - 1 ==> s.skip(1)[j] == s[j + 1]);
        if k < s.len() {
            assert(s.skip(1)[k - 1] == s[k]);
        }
    }
}

proof fn lemma_digit_run_at(s: Seq<char>, k: int)
    requires
        0 <= k <= s.len(),
        forall|j: int| 0 <= j < k ==> is_digit(s[j]),
        k == s.len() || !is_digit(s[k]),
    ensures
        digit_run(s) == k,
    decreases k,
{
    if k > 0 {
        lemma_digit_run_at(s.skip(1), k - 1);
        assert(forall|j: int| 0 <= j < k - 1 ==> s.skip(1)[j] == s[j + 1]);
        if k < s.len() {
            assert(s.skip(1)[k - 1] == s[k]);
        }
    }
}

/// The keyword token spelled `w`, if any.
pub open spec fn keyword_tok(w: Seq<char>) -> Option<TokView> {
    if w == "rrr"@ {
        Some(TokView::Const)
    } else if w == "pushpa"@ {
        Some(TokView::Let)
    } else if w == "bahubali"@ {
        Some(TokView::Print)
    } else if w == "magadheera"@ {
        Some(TokView::If)
    } else if w == "karthikeya"@ {
        Some(TokView::Else)
    } else if w == "pokiri"@ {
        Some(TokView::While)
    } else if w == "eega"@ {
        Some(TokView::For)
    } else {
        None
    }
}

/// The value of a digit string, most significant digit first.
pub open spec fn digits_val(s: Seq<char>) -> int
    decreases s.len(),
{
    if s.len() == 0 {
        0
    } else {
        10 * digits_val(s.drop_last()) + (s.last() as u32 - 48)
    }
}

pub proof fn lemma_digits_val_nonneg(s: Seq<char>)
    requires
        forall|t: int| 0 <= t < s.len() ==> is_digit(s[t]),
    ensures
        digits_val(s) >= 0,
    decreases s.len(),
{
    if s.len() > 0 {
        lemma_digits_val_nonneg(s.drop_last());
    }
}

/// The next token of `s` and how many characters it spans: `None` for a
/// skipped span (whitespace, an unrecognized character, or a numeric run
/// whose value does not fit).
pub open spec fn spec_next(s: Seq<char>) -> (Option<TokView>, int) {
    let c = s[0];
    if is_alpha(c) {
        let n = alpha_run(s);
        let w = s.take(n);
        match keyword_tok(w) {
            Some(t) => (Some(t), n),
            None => (Some(TokView::Identifier(w)), n),
        }
    } else if is_digit(c) {
        let n = digit_run(s);
        let val = digits_val(s.take(n));
        if val <= i32::MAX {
            (Some(TokView::Number(val as i32)), n)
        } else {
            (None, n)
        }
    } else if c == '>' {
        if s.len() > 1 && s[1] == '=' {
            (Some(TokView::GreaterEqual), 2)
        } else {
            (Some(TokView::Greater), 1)
        }
    } else if c == '<' {
        if s.len() > 1 && s[1] == '=' {
            (Some(TokView::LessEqual), 2)
        } else {
            (Some(TokView::Less), 1)
        }
    } else if c == '=' {
        if s.len() > 1 && s[1] == '=' {
            (Some(TokView::Equal), 2)
        } else {
            (Some(TokView::Assign), 1)
        }
    } else if c == '!' {
        if s.len() > 1 && s[1] == '=' {
            (Some(TokView::NotEqual), 2)
        } else {
            (None, 1)
        }
    } else if c == '(' {
        (Some(TokView::LParen), 1)
    } else if c == ')' {
        (Some(TokView::RParen), 1)
    } else if c == '{' {
        (Some(TokView::LBrace), 1)
    } else if c == '}' {
        (Some(TokView::RBrace), 1)
    } else if c == ';' {
        (Some(TokView::Semicolon), 1)
    } else if c == '+' {
        (Some(TokView::Plus), 1)
    } else if c == '-' {
        (Some(TokView::Minus), 1)
    } else if c == '*' {
        (Some(TokView::Multiply), 1)
    } else if c == '/' {
        (Some(TokView::Divide), 1)
    } else {
        (None, 1)
    }
}

proof fn lemma_spec_next_bounds(s: Seq<char>)
    requires
        s.len() > 0,
    ensures
        1 <= spec_next(s).1 <= s.len(),
{
    if is_alpha(s[0]) {
        lemma_run_bounds(s);
    } else if is_digit(s[0]) {
        lemma_run_bounds(s);
    }
}

proof fn lemma_run_bounds(s: Seq<char>)
    ensures
        0 <= alpha_run(s) <= s.len(),
        0 <= digit_run(s) <= s.len(),
        s.len() > 0 && is_alpha(s[0]) ==> alpha_run(s) >= 1,
        s.len() > 0 && is_digit(s[0]) ==> digit_run(s) >= 1,
    decreases s.len(),
{
    if s.len() > 0 {
        lemma_run_bounds(s.skip(1));
    }
}

/// The token sequence of a source text.
pub open spec fn spec_tokenize(s: Seq<char>) -> Seq<TokView>
    decreases s.len(),
    via spec_tokenize_dec
{
    if s.len() == 0 {
        Seq::empty()
    } else {
        let (t, n) = spec_next(s);
        match t {
            Some(tok) => seq![tok] + spec_tokenize(s.skip(n)),
            None => spec_tokenize(s.skip(n)),
        }
    }
}

#[via_fn]
proof fn spec_tokenize_dec(s: Seq<char>) {
    if s.len() > 0 {
        lemma_spec_next_bounds(s);
    }
}

/// The models of a token vector, element by element.
pub open spec fn toks_view(ts: Seq<Token>) -> Seq<TokView> {
    Seq::new(ts.len(), |i: int| ts[i]@)
}

fn is_alpha_exec(c: char) -> (r: bool)
    ensures
        r == is_alpha(c),
{
    ('a' <= c && c <= 'z') || ('A' <= c && c <= 'Z')
}

fn is_digit_exec(c: char) -> (r: bool)
    ensures
        r == is_digit(c),
{
    '0' <= c && c <= '9'
}

/// Tokenizes a character sequence.
fn tokenize(src: &Vec<char>) -> (r: Vec<Token>)
    ensures
        toks_view(r@) == spec_tokenize(src@),
{
    let len = src.len();
    let mut out: Vec<Token> = Vec::new();
    let mut i: usize = 0;
    proof {
        assert(src@.skip(0) =~= src@);
        assert(toks_view(out@) + spec_tokenize(src@) =~= spec_tokenize(src@));
    }
    while i < len
        invariant
            i <= len,
            len == src@.len(),
            spec_tokenize(src@) == toks_view(out@) + spec_tokenize(src@.skip(i as int)),
        decreases len - i,
    {
        let ghost rest = src@.skip(i as int);
        let ghost dv0 = toks_view(out@);
        let c = src[i];
        proof {
            assert(rest[0] == c);
        }
        let mut produced: Option<Token> = None;
        let mut n: usize = 1;
        if is_alpha_exec(c) {
            let mut j: usize = i;
            while j < len && is_alpha_exec(src[j])
                invariant
                    i <= j <= len,
                    len == src@.len(),
                    forall|t: int| i <= t < j ==> is_alpha(src@[t]),
                decreases len - j,
            {
                j = j + 1;
            }
            proof {
                assert forall|t: int| 0 <= t < j - i implies is_alpha(rest[t]) by {
                    assert(rest[t] == src@[i + t]);
                }
                if j < len {
                    assert(rest[j - i] == src@[j as int]);
                }
                lemma_alpha_run_at(rest, j - i);
            }
            let mut word = String::new();
            let mut t: usize = i;
            while t < j
                invariant
                    i <= t <= j <= len,
                    len == src@.len(),
                    word@ == src@.subrange(i as int, t as int),
                decreases j - t,
            {
                push_char(&mut word, src[t]);
                proof {
                    assert(src@.subrange(i as int, t + 1) =~= src@.subrange(i as int, t as int)
                        .push(src@[t as int]));
                }
                t = t + 1;
            }
            proof {
                assert(rest.take(j - i) =~= src@.subrange(i as int, j as int));
            }
            let w = word.as_str();
            let tok: Token = if str_eq(w, "rrr") {
                Token::Const
            } else if str_eq(w, "pushpa") {
                Token::Let
            } else if str_eq(w, "bahubali") {
                Token::Print
            } else if str_eq(w, "magadheera") {
                Token::If
            } else if str_eq(w, "karthikeya") {
                Token::Else
            } else if str_eq(w, "pokiri") {
                Token::While
            } else if str_eq(w, "eega") {
                Token::For
            } else {
                Token::Identifier(word)
            };
            produced = Some(tok);
            n = j - i;
        } else if is_digit_exec(c) {
            let mut j: usize = i;
            while j < len && is_digit_exec(src[j])
                invariant
                    i <= j <= len,
                    len == src@.len(),
                    forall|t: int| i <= t < j ==> is_digit(src@[t]),
                decreases len - j,
            {
                j = j + 1;
            }
            proof {
                assert forall|t: int| 0 <= t < j - i implies is_digit(rest[t]) by {
                    assert(rest[t] == src@[i + t]);
                }
                if j < len {
                    assert(rest[j - i] == src@[j as int]);
                }
                lemma_digit_run_at(rest, j - i);
            }
            let ghost run = rest.take(j - i);
            let mut acc: u64 = 0;
            let mut over: bool = false;
            let mut t: usize = i;
            proof {
                assert(run.take(0) =~= Seq::<char>::empty());
            }
            while t < j
                invariant
                    i <= t <= j <= len,
                    len == src@.len(),
                    run == rest.take(j - i),
                    rest == src@.skip(i as int),
                    run.len() == j - i,
                    forall|u: int| 0 <= u < run.len() ==> is_digit(run[u]),
                    forall|u: int| i <= u < j ==> run[u - i] == src@[u],
                    !over ==> acc == digits_val(run.take(t - i)) && acc <= i32::MAX as u64,
                    over ==> digits_val(run.take(t - i)) > i32::MAX,
                decreases j - t,
            {
                let d: u64 = (src[t] as u32 - 48) as u64;
                proof {
                    assert(run[t - i] == src@[t as int]);
                    assert(run.take(t - i + 1).drop_last() =~= run.take(t - i));
                    assert(run.take(t - i + 1).last() == run[t - i]);
                }
                if !over {
                    acc = acc * 10 + d;
                    if acc > i32::MAX as u64 {
                        over = true;
                    }
                } else {
                    proof {
                        lemma_digits_val_nonneg(run.take(t - i));
                    }
                }
                t = t + 1;
            }
            proof {
                assert(run.take(j - i) =~= run);
            }
            if !over {
                produced = Some(Token::Number(acc as i32));
            } else {
                produced = None;
            }
            n = j - i;
        } else if c == '>' {
            if i + 1 < len && src[i + 1] == '=' {
                produced = Some(Token::GreaterEqual);
                n = 2;
            } else {
                produced = Some(Token::Greater);
                n = 1;
            }
        } else if c == '<' {
            if i + 1 < len && src[i + 1] == '=' {
                produced = Some(Token::LessEqual);
                n = 2;
            } else {
                produced = Some(Token::Less);
                n = 1;
            }
        } else if c == '=' {
            if i + 1 < len && src[i + 1] == '=' {
                produced = Some(Token::Equal);
                n = 2;
            } else {
                produced = Some(Token::Assign);
                n = 1;
            }
        } else if c == '!' {
            if i + 1 < len && src[i + 1] == '=' {
                produced = Some(Token::NotEqual);
                n = 2;
            } else {
                produced = None;
                n = 1;
            }
        } else if c == '(' {
            produced = Some(Token::LParen);
        } else if c == ')' {
            produced = Some(Token::RParen);
        } else if c == '{' {
            produced = Some(Token::LBrace);
        } else if c == '}' {
            produced = Some(Token::RBrace);
        } else if c == ';' {
            produced = Some(Token::Semicolon);
        } else if c == '+' {
            produced = Some(Token::Plus);
        } else if c == '-' {
            produced = Some(Token::Minus);
        } else if c == '*' {
            produced = Some(Token::Multiply);
        } else if c == '/' {
            produced = Some(Token::Divide);
        } else {
            produced = None;
        }
        proof {
            if i + 1 < len {
                assert(rest[1] == src@[i + 1]);
            }
            lemma_spec_next_bounds(rest);
            assert(spec_next(rest).1 == n as int);
            match &produced {
                Some(tok) => {
                    assert(spec_next(rest).0 == Some(tok@));
                },
                None => {
                    assert(spec_next(rest).0 is None);
                },
            }
            lemma_skip_skip(src@, i as int, n as int);
            assert(rest.skip(n as int) == src@.skip(i + n));
        }
        match produced {
            Some(tok) => {
                out.push(tok);
                proof {
                    assert(toks_view(out@) =~= dv0 + seq![out@[out@.len() - 1]@]);
                    assert(spec_tokenize(src@) =~= toks_view(out@) + spec_tokenize(
                        src@.skip(i + n),
                    ));
                }
            },
            None => {
                proof {
                    assert(spec_tokenize(src@) =~= toks_view(out@) + spec_tokenize(
                        src@.skip(i + n),
                    ));
                }
            },
        }
        i = i + n;
    }
    proof {
        assert(src@.skip(i as int).len() == 0);
        assert(toks_view(out@) =~= spec_tokenize(src@));
    }
    out
}

/// A token stream with a cursor.
pub struct Lexer {
    tokens: Vec<Token>,
    position: usize,
}

impl Lexer {
    /// The models of the tokens in the stream.
    pub closed spec fn toks(&self) -> Seq<TokView> {
        toks_view(self.tokens@)
    }

    /// The cursor position.
    pub closed spec fn pos(&self) -> int {
        self.position as int
    }

    /// Tokenize a source text and stand at its first token.
    pub fn new(source: &str) -> (r: Self)
        ensures
            r.toks() == spec_tokenize(source@),
            r.pos() == 0,
    {
        let chars = crate::text::str_to_chars(source);
        let tokens = tokenize(&chars);
        Lexer { tokens, position: 0 }
    }

    /// The token under the cursor, if any.
    pub fn current(&self) -> (r: Option<&Token>)
        ensures
            self.pos() < self.toks().len() ==> (r matches Some(t) && t@ == self.toks()[self.pos()]),
            self.pos() >= self.toks().len() ==> r is None,
    {
        if self.position < self.tokens.len() {
            Some(&self.tokens[self.position])
        } else {
            None
        }
    }

    /// The token after the cursor, if any.
    pub fn peek(&self) -> (r: Option<&Token>)
        ensures
            self.pos() + 1 < self.toks().len() ==> (r matches Some(t) && t@ == self.toks()[self.pos()
                + 1]),
            self.pos() + 1 >= self.toks().len() ==> r is None,
    {
        if self.position < self.tokens.len() && self.tokens.len() - self.position > 1 {
            Some(&self.tokens[self.position + 1])
        } else {
            None
        }
    }

    /// Step past the current token and return the one now under the cursor.
    pub fn advance(&mut self) -> (r: Option<&Token>)
        ensures
            old(self).pos() < old(self).toks().len() ==> final(self).pos() == old(self).pos() + 1,
            old(self).pos() >= old(self).toks().len() ==> final(self).pos() == old(self).pos(),
            final(self).toks() == old(self).toks(),
            final(self).pos() < final(self).toks().len() ==> (r matches Some(t) && t@
                == final(self).toks()[final(self).pos()]),
            final(self).pos() >= final(self).toks().len() ==> r is None,
    {
        if self.position < self.tokens.len() {
            self.position = self.position + 1;
        }
        self.current()
    }

    /// Whether the cursor stands past the last token.
    pub fn is_eof(&self) -> (r: bool)
        ensures
            r == (self.pos() >= self.toks().len()),
    {
        self.position >= self.tokens.len()
    }

    /// All tokens of the stream.
    pub fn all_tokens(&self) -> (r: &Vec<Token>)
        ensures
            toks_view(r@) == self.toks(),
    {
        &self.tokens
    }

    /// Move the cursor back to the first token.
    pub fn reset(&mut self)
        ensures
            final(self).pos() == 0,
            final(self).toks() == old(self).toks(),
    {
        self.position = 0;
    }
}

} // verus!
