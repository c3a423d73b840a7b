//! Small text utilities shared by the compiler stages: decimal rendering,
//! character-level string comparison, substring search, trimming and line
//! splitting, each with an exact character-sequence specification.

use vstd::prelude::*;
use vstd::string::StrSliceExecFns;
use vstd::string::StringExecFns;

verus! {

/// Relies on `String::push`: appends exactly the given character.
#[verifier::external_body]
pub(crate) fn push_char(s: &mut String, c: char)
    ensures
        final(s)@ == old(s)@.push(c),
{
    s.push(c);
}

/// The decimal digit character for a value below ten.
pub open spec fn digit_char(d: nat) -> char {
    ((d + 48) as u8) as char
}

/// Decimal digits of a natural number, most significant first.
pub open spec fn dec_digits(n: nat) -> Seq<char>
    decreases n,
{
    if n < 10 {
        seq![digit_char(n)]
    } else {
        dec_digits((n / 10) as nat).push(digit_char((n % 10) as nat))
    }
}

/// Decimal rendering of a signed number.
pub open spec fn spec_int_str(n: int) -> Seq<char> {
    if n >= 0 {
        dec_digits(n as nat)
    } else {
        seq!['-'] + dec_digits((-n) as nat)
    }
}

/// Appends the decimal digits of `m` to `s`.
fn push_dec_u64(s: &mut String, m: u64)
    ensures
        final(s)@ == old(s)@ + dec_digits(m as nat),
    decreases m,
{
    if m < 10 {
        let c: char = (48 + m as u8) as char;
        push_char(s, c);
        assert(final(s)@ =~= old(s)@ + dec_digits(m as nat));
    } else {
        push_dec_u64(s, m / 10);
        let c: char = (48 + (m % 10) as u8) as char;
        push_char(s, c);
        assert(final(s)@ =~= old(s)@ + dec_digits(m as nat));
    }
}

/// Appends the decimal rendering of `n` to `s`.
pub(crate) fn push_i32(s: &mut String, n: i32)
    ensures
        final(s)@ == old(s)@ + spec_int_str(n as int),
{
    if n >= 0 {
        push_dec_u64(s, n as u64);
    } else {
        push_char(s, '-');
        let m: u64 = (-(n as i64)) as u64;
        push_dec_u64(s, m);
        assert(final(s)@ =~= old(s)@ + spec_int_str(n as int));
    }
}

/// Appends the decimal rendering of `n` to `s`.
pub(crate) fn push_usize(s: &mut String, n: usize)
    ensures
        final(s)@ == old(s)@ + dec_digits(n as nat),
{
    push_dec_u64(s, n as u64);
}

/// Character-by-character string equality.
pub(crate) fn str_eq(a: &str, b: &str) -> (r: bool)
    ensures
        r == (a@ == b@),
{
    let la = a.unicode_len();
    let lb = b.unicode_len();
    if la != lb {
        return false;
    }
    let mut i: usize = 0;
    while i < la
        invariant
            i <= la,
            la == a@.len(),
            la == b@.len(),
            forall|j: int| 0 <= j < i ==> a@[j] == b@[j],
        decreases la - i,
    {
        if a.get_char(i) != b.get_char(i) {
            return false;
        }
        i = i + 1;
    }
    proof {
        assert(a@ =~= b@);
    }
    true
}

/// `needle` occurs as a contiguous run somewhere in `hay`.
pub open spec fn spec_contains(hay: Seq<char>, needle: Seq<char>) -> bool {
    exists|i: int|
        0 <= i && i + needle.len() <= hay.len() && #[trigger] hay.subrange(i, i + needle.len())
            == needle
}

/// Substring search.
pub(crate) fn contains_str(hay: &str, needle: &str) -> (r: bool)
    ensures
        r == spec_contains(hay@, needle@),
{
    let lh = hay.unicode_len();
    let ln = needle.unicode_len();
    if ln > lh {
        assert(!spec_contains(hay@, needle@));
        return false;
    }
    if ln == 0 {
        proof {
            assert(hay@.subrange(0, 0 + needle@.len() as int) =~= needle@);
        }
        return true;
    }
    let mut i: usize = 0;
    while i <= lh - ln
        invariant
            1 <= ln <= lh,
            lh == hay@.len(),
            ln == needle@.len(),
            i <= lh - ln + 1,
            forall|k: int|
                0 <= k < i ==> #[trigger] hay@.subrange(k, k + needle@.len()) != needle@,
        decreases lh - i,
    {
        if match_at(hay, i, needle) {
            return true;
        }
        i = i + 1;
    }
    false
}

/// Whether `needle` occurs in `hay` starting at index `i`.
fn match_at(hay: &str, i: usize, needle: &str) -> (r: bool)
    requires
        i + needle@.len() <= hay@.len(),
    ensures
        r == (hay@.subrange(i as int, i + needle@.len()) == needle@),
{
    let lh = hay.unicode_len();
    let ln = needle.unicode_len();
    let mut j: usize = 0;
    while j < ln
        invariant
            j <= ln,
            lh == hay@.len(),
            ln == needle@.len(),
            i + ln <= lh,
            forall|t: int| 0 <= t < j ==> hay@[i + t] == needle@[t],
        decreases ln - j,
    {
        if hay.get_char(i + j) != needle.get_char(j) {
            proof {
                assert(hay@.subrange(i as int, i + needle@.len())[j as int] != needle@[j as int]);
            }
            return false;
        }
        j = j + 1;
    }
    proof {
        assert(hay@.subrange(i as int, i + needle@.len()) =~= needle@);
    }
    true
}

/// Character search.
pub(crate) fn contains_char(hay: &str, c: char) -> (r: bool)
    ensures
        r == hay@.contains(c),
{
    let lh = hay.unicode_len();
    let mut i: usize = 0;
    while i < lh
        invariant
            i <= lh,
            lh == hay@.len(),
            forall|j: int| 0 <= j < i ==> hay@[j] != c,
        decreases lh - i,
    {
        if hay.get_char(i) == c {
            return true;
        }
        i = i + 1;
    }
    false
}

/// ASCII whitespace, as the trimming and blank-line checks understand it.
pub open spec fn is_ws(c: char) -> bool {
    c == ' ' || c == '\t' || c == '\r' || c == '\n' || c == '\u{000c}'
}

fn is_ws_exec(c: char) -> (r: bool)
    ensures
        r == is_ws(c),
{
    c == ' ' || c == '\t' || c == '\r' || c == '\n' || c == '\u{000c}'
}

/// `s` without its leading whitespace.
pub open spec fn spec_trim_start(s: Seq<char>) -> Seq<char>
    decreases s.len(),
{
    if s.len() > 0 && is_ws(s[0]) {
        spec_trim_start(s.drop_first())
    } else {
        s
    }
}

/// `s` without its trailing whitespace.
pub open spec fn spec_trim_end(s: Seq<char>) -> Seq<char>
    decreases s.len(),
{
    if s.len() > 0 && is_ws(s.last()) {
        spec_trim_end(s.drop_last())
    } else {
        s
    }
}

/// `s` without leading and trailing whitespace.
pub open spec fn spec_trim(s: Seq<char>) -> Seq<char> {
    spec_trim_end(spec_trim_start(s))
}

proof fn lemma_trim_start_skip(s: Seq<char>, a: int)
    requires
        0 <= a <= s.len(),
        forall|j: int| 0 <= j < a ==> is_ws(s[j]),
        a == s.len() || !is_ws(s[a]),
    ensures
        spec_trim_start(s) == s.skip(a),
    decreases a,
{
    if a == 0 {
        assert(s.skip(0) =~= s);
    } else {
        lemma_trim_start_skip(s.drop_first(), a - 1);
        assert(s.drop_first().skip(a - 1) =~= s.skip(a));
    }
}

proof fn lemma_trim_end_take(s: Seq<char>, b: int)
    requires
        0 <= b <= s.len(),
        forall|j: int| b <= j < s.len() ==> is_ws(s[j]),
        b == 0 || !is_ws(s[b - 1]),
    ensures
        spec_trim_end(s) == s.take(b),
    decreases s.len() - b,
{
    if b == s.len() {
        assert(s.take(b) =~= s);
    } else {
        assert(is_ws(s.last()));
        lemma_trim_end_take(s.drop_last(), b);
        assert(s.drop_last().take(b) =~= s.take(b));
    }
}

/// Returns `s` without leading and trailing ASCII whitespace.
pub(crate) fn trim(s: &str) -> (r: String)
    ensures
        r@ == spec_trim(s@),
{
    let len = s.unicode_len();
    let mut a: usize = 0;
    while a < len && is_ws_exec(s.get_char(a))
        invariant
            a <= len,
            len == s@.len(),
            forall|j: int| 0 <= j < a ==> is_ws(s@[j]),
        decreases len - a,
    {
        a = a + 1;
    }
    proof {
        lemma_trim_start_skip(s@, a as int);
    }
    let mut b: usize = len;
    while b > a && is_ws_exec(s.get_char(b - 1))
        invariant
            a <= b <= len,
            len == s@.len(),
            forall|j: int| b <= j < len ==> is_ws(s@[j]),
        decreases b,
    {
        b = b - 1;
    }
    let mut r = String::new();
    let mut i: usize = a;
    while i < b
        invariant
            a <= i <= b <= len,
            len == s@.len(),
            r@ == s@.subrange(a as int, i as int),
        decreases b - i,
    {
        push_char(&mut r, s.get_char(i));
        proof {
            assert(s@.subrange(a as int, i + 1) =~= s@.subrange(a as int, i as int).push(
                s@[i as int],
            ));
        }
        i = i + 1;
    }
    proof {
        let t = s@.skip(a as int);
        lemma_trim_end_take(t, b - a);
        assert(t.take(b - a) =~= s@.subrange(a as int, b as int));
    }
    r
}

/// The index of the first newline in `s`, or `s.len()` if there is none.
pub open spec fn first_nl(s: Seq<char>) -> int
    decreases s.len(),
{
    if s.len() == 0 {
        0
    } else if s[0] == '\n' {
        0
    } else {
        1 + first_nl(s.drop_first())
    }
}

pub proof fn lemma_first_nl(s: Seq<char>)
    ensures
        0 <= first_nl(s) <= s.len(),
        forall|j: int| 0 <= j < first_nl(s) ==> s[j] != '\n',
        first_nl(s) < s.len() ==> s[first_nl(s)] == '\n',
    decreases s.len(),
{
    if s.len() > 0 && s[0] != '\n' {
        lemma_first_nl(s.drop_first());
        assert forall|j: int| 0 <= j < first_nl(s) implies s[j] != '\n' by {
            if j > 0 {
                assert(s.drop_first()[j - 1] == s[j]);
            }
        }
    }
}

pub proof fn lemma_first_nl_at(s: Seq<char>, k: int)
    requires
        0 <= k <= s.len(),
        forall|j: int| 0 <= j < k ==> s[j] != '\n',
        k == s.len() || s[k] == '\n',
    ensures
        first_nl(s) == k,
    decreases k,
{
    if k == 0 {
    } else {
        lemma_first_nl_at(s.drop_first(), k - 1);
    }
}

/// One line's text: a trailing carriage return before the newline is dropped.
pub open spec fn strip_cr(t: Seq<char>) -> Seq<char> {
    if t.len() > 0 && t.last() == '\r' {
        t.drop_last()
    } else {
        t
    }
}

/// The lines of `s`, split at newlines, the final line ending optional,
/// carriage returns before newlines dropped.
pub open spec fn spec_lines(s: Seq<char>) -> Seq<Seq<char>>
    decreases s.len(),
    via spec_lines_dec
{
    if s.len() == 0 {
        Seq::empty()
    } else {
        let k = first_nl(s);
        if k == s.len() {
            seq![s]
        } else {
            seq![strip_cr(s.take(k))] + spec_lines(s.skip(k + 1))
        }
    }
}

#[via_fn]
proof fn spec_lines_dec(s: Seq<char>) {
    if s.len() > 0 {
        lemma_first_nl(s);
    }
}

/// Splits `s` into its lines.
pub(crate) fn lines_of(s: &str) -> (r: Vec<String>)
    ensures
        r.deep_view() == spec_lines(s@),
{
    let len = s.unicode_len();
    let mut out: Vec<String> = Vec::new();
    let mut i: usize = 0;
    proof {
        assert(s@.skip(0) =~= s@);
        assert(out.deep_view() + spec_lines(s@) =~= spec_lines(s@));
    }
    while i < len
        invariant
            i <= len,
            len == s@.len(),
            spec_lines(s@) == out.deep_view() + spec_lines(s@.skip(i as int)),
        decreases len - i,
    {
        let ghost dv0 = out.deep_view();
        let ghost rest = s@.skip(i as int);
        let mut j: usize = i;
        while j < len && s.get_char(j) != '\n'
            invariant
                i <= j <= len,
                len == s@.len(),
                forall|t: int| i <= t < j ==> s@[t] != '\n',
            decreases len - j,
        {
            j = j + 1;
        }
        proof {
            assert forall|t: int| 0 <= t < j - i implies rest[t] != '\n' by {
                assert(rest[t] == s@[i + t]);
            }
            if j < len {
                assert(rest[j - i] == s@[j as int]);
            }
            lemma_first_nl_at(rest, j - i);
        }
        let end: usize = if j < len && j > i && s.get_char(j - 1) == '\r' {
            j - 1
        } else {
            j
        };
        let mut line = String::new();
        let mut t: usize = i;
        while t < end
            invariant
                i <= t <= end <= len,
                len == s@.len(),
                line@ == s@.subrange(i as int, t as int),
            decreases end - t,
        {
            push_char(&mut line, s.get_char(t));
            proof {
                assert(s@.subrange(i as int, t + 1) =~= s@.subrange(i as int, t as int).push(
                    s@[t as int],
                ));
            }
            t = t + 1;
        }
        proof {
            let k = (j - i) as int;
            assert(rest.take(k) =~= s@.subrange(i as int, j as int));
            if j < len {
                // an inner line: strip a carriage return, then recurse past the newline
                assert(strip_cr(rest.take(k)) =~= s@.subrange(i as int, end as int));
                assert(rest.skip(k + 1) =~= s@.skip(j + 1));
                assert(spec_lines(rest) == seq![strip_cr(rest.take(k))] + spec_lines(
                    rest.skip(k + 1),
                ));
            } else {
                // the final line, with no line ending
                assert(end == j);
                assert(rest =~= s@.subrange(i as int, j as int));
                assert(spec_lines(rest) == seq![rest]);
                assert(s@.skip(j as int).len() == 0);
            }
        }
        out.push(line);
        if j < len {
            i = j + 1;
        } else {
            i = j;
        }
        proof {
            assert(out.deep_view() =~= dv0 + seq![line@]);
            assert(spec_lines(s@) =~= out.deep_view() + spec_lines(s@.skip(i as int)));
        }
    }
    proof {
        assert(s@.skip(i as int).len() == 0);
        assert(out.deep_view() =~= spec_lines(s@));
    }
    out
}

/// Turns a text into its characters.
pub(crate) fn str_to_chars(s: &str) -> (r: Vec<char>)
    ensures
        r@ == s@,
{
    let len = s.unicode_len();
    let mut out: Vec<char> = Vec::new();
    let mut i: usize = 0;
    while i < len
        invariant
            i <= len,
            len == s@.len(),
            out@ == s@.take(i as int),
        decreases len - i,
    {
        out.push(s.get_char(i));
        proof {
            assert(s@.take(i + 1) =~= s@.take(i as int).push(s@[i as int]));
        }
        i = i + 1;
    }
    proof {
        assert(s@.take(len as int) =~= s@);
    }
    out
}

/// `n` copies of `c`.
pub open spec fn repeat_char(c: char, n: nat) -> Seq<char> {
    Seq::new(n, |i: int| c)
}

/// Appends `n` copies of `c` to `s`.
pub(crate) fn push_repeat(s: &mut String, c: char, n: usize)
    ensures
        final(s)@ == old(s)@ + repeat_char(c, n as nat),
{
    let mut i: usize = 0;
    while i < n
        invariant
            i <= n,
            s@ == old(s)@ + repeat_char(c, i as nat),
        decreases n - i,
    {
        push_char(s, c);
        proof {
            assert(old(s)@ + repeat_char(c, (i + 1) as nat) =~= (old(s)@ + repeat_char(
                c,
                i as nat,
            )).push(c));
        }
        i = i + 1;
    }
}

/// `s.skip(i).skip(j)` collapses to one skip.
pub proof fn lemma_skip_skip<A>(s: Seq<A>, i: int, j: int)
    requires
        0 <= i,
        0 <= j,
        i + j <= s.len(),
    ensures
        s.skip(i).skip(j) == s.skip(i + j),
{
    assert(s.skip(i).skip(j) =~= s.skip(i + j));
}

} // verus!
