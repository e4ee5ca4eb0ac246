use crate::text::push_char;
use crate::tokenizer::strings_view;
use vstd::prelude::*;
use vstd::string::*;

verus! {

/// The words of `ws`, with one space between each two.
pub open spec fn joined(ws: Seq<Seq<char>>) -> Seq<char>
    decreases ws.len(),
{
    if ws.len() == 0 {
        Seq::empty()
    } else if ws.len() == 1 {
        ws[0]
    } else {
        joined(ws.drop_last()) + seq![' '] + ws.last()
    }
}

/// The arguments of `echo`, joined by single spaces.
pub fn join_words(args: &Vec<String>) -> (r: String)
    ensures
        r@ == joined(strings_view(args@)),
{
    let ghost sv = strings_view(args@);
    let mut out = String::new();
    let mut i: usize = 0;
    while i < args.len()
        invariant
            sv == strings_view(args@),
            i <= args@.len(),
            out@ == joined(sv.take(i as int)),
        decreases args@.len() - i,
    {
        let ghost t = sv.take(i + 1);
        assert(t.drop_last() =~= sv.take(i as int));
        assert(t.last() == args@[i as int]@);
        if i > 0 {
            push_char(&mut out, ' ');
        } else {
            assert(out@ =~= Seq::empty());
        }
        out.append(args[i].as_str());
        i = i + 1;
        assert(out@ =~= joined(sv.take(i as int)));
    }
    assert(sv.take(args@.len() as int) == sv);
    out
}

/// `s` without its quote characters.
pub open spec fn without_quotes(s: Seq<char>) -> Seq<char>
    decreases s.len(),
{
    if s.len() == 0 {
        Seq::empty()
    } else if s.last() == '"' || s.last() == '\'' {
        without_quotes(s.drop_last())
    } else {
        without_quotes(s.drop_last()).push(s.last())
    }
}

/// `s` read from index `i` on, each `\n` pair turned into a line feed,
/// pairs taken from the left without overlap.
pub open spec fn unescape_from(s: Seq<char>, i: int) -> Seq<char>
    decreases s.len() - i,
{
    if i < 0 || i >= s.len() {
        Seq::empty()
    } else if i + 1 < s.len() && s[i] == '\\' && s[i + 1] == 'n' {
        seq!['\n'] + unescape_from(s, i + 2)
    } else {
        seq![s[i]] + unescape_from(s, i + 1)
    }
}

/// What `echo` prints for the text `s`: the text without quotes, with each
/// `\n` pair turned into a line feed.
pub open spec fn echo_spec(s: Seq<char>) -> Seq<char> {
    unescape_from(without_quotes(s), 0)
}

/// The text that `echo` prints for `s`.
pub fn echo_text(s: &str) -> (r: String)
    ensures
        r@ == echo_spec(s@),
{
    let n = s.unicode_len();
    let mut kept: Vec<char> = Vec::new();
    let mut i: usize = 0;
    while i < n
        invariant
            n == s@.len(),
            i <= n,
            kept@ == without_quotes(s@.take(i as int)),
        decreases n - i,
    {
        let c = s.get_char(i);
        assert(s@.take(i + 1).drop_last() == s@.take(i as int));
        if c != '"' && c != '\'' {
            kept.push(c);
        }
        i = i + 1;
        assert(kept@ =~= without_quotes(s@.take(i as int)));
    }
    assert(s@.take(n as int) == s@);
    let ghost k = kept@;
    let m = kept.len();
    let mut out = String::new();
    let mut j: usize = 0;
    while j < m
        invariant
            k == kept@,
            m == k.len(),
            j <= m,
            out@ + unescape_from(k, j as int) == unescape_from(k, 0),
        decreases m - j,
    {
        if j + 1 < m && kept[j] == '\\' && kept[j + 1] == 'n' {
            assert(unescape_from(k, j as int) == seq!['\n'] + unescape_from(k, j + 2));
            push_char(&mut out, '\n');
            assert(out@ + unescape_from(k, j + 2) =~= unescape_from(k, 0)) by {
                assert(out@ + unescape_from(k, j + 2) =~= out@.drop_last() + (seq!['\n']
                    + unescape_from(k, j + 2)));
            }
            j = j + 2;
        } else {
            let c = kept[j];
            assert(unescape_from(k, j as int) == seq![c] + unescape_from(k, j + 1));
            push_char(&mut out, c);
            assert(out@ + unescape_from(k, j + 1) =~= unescape_from(k, 0)) by {
                assert(out@ + unescape_from(k, j + 1) =~= out@.drop_last() + (seq![c]
                    + unescape_from(k, j + 1)));
            }
            j = j + 1;
        }
    }
    assert(unescape_from(k, m as int) =~= Seq::empty());
    assert(out@ =~= out@ + unescape_from(k, m as int));
    out
}

/// The `echo` text once `line` has been read after it, in the `round`-th
/// read while its quotes were unbalanced (counting from 1): a line feed
/// goes between the arguments and the first line read.
pub fn extend_echo_text(text: &mut String, line: &str, round: usize)
    ensures
        final(text)@ == if round == 1 {
            old(text)@ + seq!['\n'] + line@
        } else {
            old(text)@ + line@
        },
{
    if round == 1 {
        push_char(text, '\n');
    }
    text.append(line);
}

} // verus!
