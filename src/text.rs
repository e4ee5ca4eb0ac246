use vstd::prelude::*;
use crate::lookup::{char_width, width_of};
use vstd::string::*;

verus! {

/// The characters that Unicode lists as `White_Space`, which is what
/// `char::is_whitespace` tests for.
pub open spec fn is_blank_spec(c: char) -> bool {
    ('\t' <= c && c <= '\r') || c == ' ' || c == '\u{85}' || c == '\u{a0}' || c == '\u{1680}'
        || ('\u{2000}' <= c && c <= '\u{200a}') || c == '\u{2028}' || c == '\u{2029}'
        || c == '\u{202f}' || c == '\u{205f}' || c == '\u{3000}'
}

/// Whether `c` separates words.
pub fn is_blank(c: char) -> (r: bool)
    ensures
        r == is_blank_spec(c),
{
    ('\t' <= c && c <= '\r') || c == ' ' || c == '\u{85}' || c == '\u{a0}' || c == '\u{1680}'
        || ('\u{2000}' <= c && c <= '\u{200a}') || c == '\u{2028}' || c == '\u{2029}'
        || c == '\u{202f}' || c == '\u{205f}' || c == '\u{3000}'
}

/// Relies on `String::push`: appends one character at the end.
#[verifier::external_body]
pub(crate) fn push_char(s: &mut String, c: char)
    ensures
        final(s)@ == old(s)@.push(c),
{
    s.push(c)
}

/// The text `s` with each line feed written as the two characters `\` and `n`.
pub open spec fn escape_newlines_spec(s: Seq<char>) -> Seq<char>
    decreases s.len(),
{
    if s.len() == 0 {
        Seq::empty()
    } else {
        let rest = escape_newlines_spec(s.drop_last());
        if s.last() == '\n' {
            rest.push('\\').push('n')
        } else {
            rest.push(s.last())
        }
    }
}

/// Renders `s` on one line: each line feed becomes `\n`.
pub fn escape_newlines(s: &str) -> (r: String)
    ensures
        r@ == escape_newlines_spec(s@),
{
    let n = s.unicode_len();
    let mut out = String::new();
    let mut i: usize = 0;
    while i < n
        invariant
            n == s@.len(),
            i <= n,
            out@ == escape_newlines_spec(s@.take(i as int)),
        decreases n - i,
    {
        let c = s.get_char(i);
        assert(s@.take(i + 1).drop_last() == s@.take(i as int));
        if c == '\n' {
            push_char(&mut out, '\\');
            push_char(&mut out, 'n');
        } else {
            push_char(&mut out, c);
        }
        i = i + 1;
    }
    assert(s@.take(n as int) == s@);
    out
}

/// The text `s` with each line feed preceded by a carriage return.
pub open spec fn crlf_spec(s: Seq<char>) -> Seq<char>
    decreases s.len(),
{
    if s.len() == 0 {
        Seq::empty()
    } else {
        let rest = crlf_spec(s.drop_last());
        if s.last() == '\n' {
            rest.push('\r').push('\n')
        } else {
            rest.push(s.last())
        }
    }
}

/// Makes `s` fit for a terminal in raw mode: each line feed becomes a
/// carriage return and a line feed.
pub fn with_crlf(s: &str) -> (r: String)
    ensures
        r@ == crlf_spec(s@),
{
    let n = s.unicode_len();
    let mut out = String::new();
    let mut i: usize = 0;
    while i < n
        invariant
            n == s@.len(),
            i <= n,
            out@ == crlf_spec(s@.take(i as int)),
        decreases n - i,
    {
        let c = s.get_char(i);
        assert(s@.take(i + 1).drop_last() == s@.take(i as int));
        if c == '\n' {
            push_char(&mut out, '\r');
        }
        push_char(&mut out, c);
        i = i + 1;
    }
    assert(s@.take(n as int) == s@);
    out
}

/// The columns that `s` takes on a terminal: the sum of the widths of its
/// characters, a control character counting for none.
pub open spec fn width_spec(s: Seq<char>) -> nat
    decreases s.len(),
{
    if s.len() == 0 {
        0
    } else {
        width_spec(s.drop_last()) + match width_of(s.last()) {
            Some(w) => w as nat,
            None => 0,
        }
    }
}

/// The columns that the first `n` characters of `cs` take on a terminal.
pub fn width_of_prefix(cs: &Vec<char>, n: usize) -> (r: u128)
    requires
        n <= cs@.len(),
    ensures
        r == width_spec(cs@.take(n as int)),
{
    let mut total: u128 = 0;
    let mut i: usize = 0;
    while i < n
        invariant
            n <= cs@.len(),
            i <= n,
            total == width_spec(cs@.take(i as int)),
            total <= 255 * i,
        decreases n - i,
    {
        assert(cs@.take(i + 1).drop_last() == cs@.take(i as int));
        let w: u128 = match char_width(cs[i]) {
            Some(w) => w as u128,
            None => 0,
        };
        total = total + w;
        i = i + 1;
    }
    total
}

/// The columns that `s` takes on a terminal.
pub fn text_width(s: &str) -> (r: u128)
    ensures
        r == width_spec(s@),
{
    let cs = chars_of(s);
    assert(cs@.take(cs@.len() as int) == cs@);
    width_of_prefix(&cs, cs.len())
}

/// A string holding the characters of `cs`.
pub fn string_of_chars(cs: &Vec<char>) -> (r: String)
    ensures
        r@ == cs@,
{
    let mut out = String::new();
    let mut i: usize = 0;
    while i < cs.len()
        invariant
            i <= cs@.len(),
            out@ == cs@.take(i as int),
        decreases cs@.len() - i,
    {
        assert(cs@.take(i + 1) == cs@.take(i as int).push(cs@[i as int]));
        push_char(&mut out, cs[i]);
        i = i + 1;
    }
    assert(cs@.take(cs@.len() as int) == cs@);
    out
}

/// The characters of `s`, one per element.
pub fn chars_of(s: &str) -> (r: Vec<char>)
    ensures
        r@ == s@,
{
    let n = s.unicode_len();
    let mut out: Vec<char> = Vec::new();
    let mut i: usize = 0;
    while i < n
        invariant
            n == s@.len(),
            i <= n,
            out@ == s@.take(i as int),
        decreases n - i,
    {
        assert(s@.take(i + 1) == s@.take(i as int).push(s@[i as int]));
        out.push(s.get_char(i));
        i = i + 1;
    }
    assert(s@.take(n as int) == s@);
    out
}

/// `s` without the blanks at its two ends.
pub open spec fn trim_spec(s: Seq<char>) -> Seq<char> {
    let start = leading_blanks(s);
    let end = s.len() - trailing_blanks(s);
    if start >= s.len() {
        Seq::empty()
    } else {
        s.subrange(start, end)
    }
}

/// How many blanks `s` starts with.
pub open spec fn leading_blanks(s: Seq<char>) -> int
    decreases s.len(),
{
    if s.len() == 0 || !is_blank_spec(s[0]) {
        0
    } else {
        1 + leading_blanks(s.drop_first())
    }
}

/// How many blanks `s` ends with.
pub open spec fn trailing_blanks(s: Seq<char>) -> int
    decreases s.len(),
{
    if s.len() == 0 || !is_blank_spec(s.last()) {
        0
    } else {
        1 + trailing_blanks(s.drop_last())
    }
}

proof fn lemma_leading_blanks(s: Seq<char>, i: int)
    requires
        0 <= i <= s.len(),
        forall|j: int| 0 <= j < i ==> is_blank_spec(#[trigger] s[j]),
        i == s.len() || !is_blank_spec(s[i]),
    ensures
        leading_blanks(s) == i,
    decreases i,
{
    if i > 0 {
        assert(is_blank_spec(s[0]));
        let t = s.drop_first();
        assert forall|j: int| 0 <= j < i - 1 implies is_blank_spec(#[trigger] t[j]) by {
            assert(t[j] == s[j + 1]);
        }
        if i - 1 < t.len() {
            assert(t[i - 1] == s[i]);
        }
        lemma_leading_blanks(t, i - 1);
    }
}

proof fn lemma_trailing_blanks(s: Seq<char>, k: int)
    requires
        0 <= k <= s.len(),
        forall|j: int| s.len() - k <= j < s.len() ==> is_blank_spec(#[trigger] s[j]),
        k == s.len() || !is_blank_spec(s[s.len() - k - 1]),
    ensures
        trailing_blanks(s) == k,
    decreases k,
{
    if k > 0 {
        assert(is_blank_spec(s[s.len() - 1]));
        let t = s.drop_last();
        assert forall|j: int| t.len() - (k - 1) <= j < t.len() implies is_blank_spec(
            #[trigger] t[j],
        ) by {
            assert(t[j] == s[j]);
        }
        lemma_trailing_blanks(t, k - 1);
    }
}

/// `s` without the blanks at its two ends.
pub fn trim(s: &str) -> (r: String)
    ensures
        r@ == trim_spec(s@),
{
    let n = s.unicode_len();
    let mut lo: usize = 0;
    while lo < n && is_blank(s.get_char(lo))
        invariant
            n == s@.len(),
            lo <= n,
            forall|j: int| 0 <= j < lo ==> is_blank_spec(#[trigger] s@[j]),
        decreases n - lo,
    {
        lo = lo + 1;
    }
    proof {
        lemma_leading_blanks(s@, lo as int);
    }
    if lo == n {
        return String::new();
    }
    let mut hi: usize = n;
    while hi > lo && is_blank(s.get_char(hi - 1))
        invariant
            n == s@.len(),
            lo < n,
            !is_blank_spec(s@[lo as int]),
            lo <= hi <= n,
            forall|j: int| hi <= j < n ==> is_blank_spec(#[trigger] s@[j]),
        decreases hi,
    {
        hi = hi - 1;
    }
    proof {
        lemma_trailing_blanks(s@, n - hi);
    }
    String::from_str(s.substring_char(lo, hi))
}

pub open spec fn opt_view(o: Option<String>) -> Option<Seq<char>> {
    match o {
        Some(s) => Some(s@),
        None => None,
    }
}

/// Whether `a` and `b` hold the same characters.
pub fn same_text(a: &str, b: &str) -> (r: bool)
    ensures
        r == (a@ == b@),
{
    let n = a.unicode_len();
    if n != b.unicode_len() {
        return false;
    }
    let mut i: usize = 0;
    while i < n
        invariant
            n == a@.len(),
            n == b@.len(),
            i <= n,
            forall|j: int| 0 <= j < i ==> a@[j] == b@[j],
        decreases n - i,
    {
        if a.get_char(i) != b.get_char(i) {
            return false;
        }
        i = i + 1;
    }
    assert(a@ =~= b@);
    true
}

/// How many times `c` occurs in `s`.
pub open spec fn count_char(s: Seq<char>, c: char) -> nat
    decreases s.len(),
{
    if s.len() == 0 {
        0
    } else {
        count_char(s.drop_last(), c) + if s.last() == c {
            1nat
        } else {
            0nat
        }
    }
}

} // verus!
