use crate::text::{count_char, is_blank, is_blank_spec, push_char};
use vstd::prelude::*;
use vstd::string::*;

verus! {

/// Where the scanner stands with respect to quoting.
#[derive(Clone, Copy, PartialEq, Eq, Structural, Debug)]
pub enum Mode {
    Normal,
    Single,
    Double,
}

/// The scanner's state between two characters: the command groups closed so
/// far, the arguments of the open group, the open token, the quoting mode and
/// whether the previous character was an escaping backslash.
pub struct ScanState {
    pub groups: Seq<Seq<Seq<char>>>,
    pub args: Seq<Seq<char>>,
    pub token: Seq<char>,
    pub mode: Mode,
    pub escaped: bool,
}

pub open spec fn initial_scan() -> ScanState {
    ScanState {
        groups: Seq::empty(),
        args: Seq::empty(),
        token: Seq::empty(),
        mode: Mode::Normal,
        escaped: false,
    }
}

/// Closes the open token, if it holds anything.
pub open spec fn close_token(st: ScanState) -> ScanState {
    if st.token.len() > 0 {
        ScanState { args: st.args.push(st.token), token: Seq::empty(), ..st }
    } else {
        st
    }
}

/// Closes the open group, if it holds anything.
pub open spec fn close_group(st: ScanState) -> ScanState {
    if st.args.len() > 0 {
        ScanState { groups: st.groups.push(st.args), args: Seq::empty(), ..st }
    } else {
        st
    }
}

pub open spec fn append(st: ScanState, c: char) -> ScanState {
    ScanState { token: st.token.push(c), ..st }
}

/// What the scanner does with the character at `i`: the next state, and the
/// index of the next character to read (`&&` is read as one unit).
pub open spec fn step(s: Seq<char>, i: int, st: ScanState) -> (ScanState, int) {
    let c = s[i];
    if st.escaped {
        let st2 = match st.mode {
            Mode::Normal => append(st, c),
            Mode::Double => if c == '"' || c == '\\' {
                append(st, c)
            } else {
                append(append(st, '\\'), c)
            },
            Mode::Single => append(append(st, '\\'), c),
        };
        (ScanState { escaped: false, ..st2 }, i + 1)
    } else {
        match st.mode {
            Mode::Normal => if c == '\\' {
                (ScanState { escaped: true, ..st }, i + 1)
            } else if c == '\'' {
                (ScanState { mode: Mode::Single, ..st }, i + 1)
            } else if c == '"' {
                (ScanState { mode: Mode::Double, ..st }, i + 1)
            } else if c == '&' && i + 1 < s.len() && s[i + 1] == '&' {
                (close_group(close_token(st)), i + 2)
            } else if is_blank_spec(c) {
                (close_token(st), i + 1)
            } else {
                (append(st, c), i + 1)
            },
            Mode::Single => if c == '\'' {
                (ScanState { mode: Mode::Normal, ..st }, i + 1)
            } else {
                (append(st, c), i + 1)
            },
            Mode::Double => if c == '\\' {
                (ScanState { escaped: true, ..st }, i + 1)
            } else if c == '"' {
                (ScanState { mode: Mode::Normal, ..st }, i + 1)
            } else {
                (append(st, c), i + 1)
            },
        }
    }
}

/// The state after reading `s` from index `i` on, starting in `st`.
pub open spec fn scan(s: Seq<char>, i: int, st: ScanState) -> ScanState
    decreases s.len() - i,
{
    if i < 0 || i >= s.len() {
        st
    } else {
        let (st2, j) = step(s, i, st);
        scan(s, j, st2)
    }
}

/// Whether the text ends inside a quote or right after an escaping backslash.
pub open spec fn is_open(s: Seq<char>) -> bool {
    let st = scan(s, 0, initial_scan());
    st.escaped || st.mode != Mode::Normal
}

/// The argument vectors of `s`, or `None` where `s` is incomplete.
pub open spec fn tokenize(s: Seq<char>) -> Option<Seq<Seq<Seq<char>>>> {
    if is_open(s) {
        None
    } else {
        Some(close_group(close_token(scan(s, 0, initial_scan()))).groups)
    }
}

pub open spec fn strings_view(v: Seq<String>) -> Seq<Seq<char>> {
    v.map_values(|t: String| t@)
}

pub open spec fn groups_view(v: Seq<Vec<String>>) -> Seq<Seq<Seq<char>>> {
    v.map_values(|a: Vec<String>| strings_view(a@))
}

/// Whether each kind of quote occurs an even number of times in `s`.
pub open spec fn quotes_balanced_spec(s: Seq<char>) -> bool {
    count_char(s, '"') % 2 == 0 && count_char(s, '\'') % 2 == 0
}

/// Whether `s` holds an even number of double quotes and an even number of
/// single quotes.
pub fn quotes_balanced(s: &str) -> (r: bool)
    ensures
        r == quotes_balanced_spec(s@),
{
    let n = s.unicode_len();
    let mut dq: usize = 0;
    let mut sq: usize = 0;
    let mut i: usize = 0;
    while i < n
        invariant
            n == s@.len(),
            i <= n,
            dq == count_char(s@.take(i as int), '"'),
            sq == count_char(s@.take(i as int), '\''),
            dq <= i,
            sq <= i,
        decreases n - i,
    {
        let c = s.get_char(i);
        assert(s@.take(i + 1).drop_last() == s@.take(i as int));
        if c == '"' {
            dq = dq + 1;
        } else if c == '\'' {
            sq = sq + 1;
        }
        i = i + 1;
    }
    assert(s@.take(n as int) == s@);
    dq % 2 == 0 && sq % 2 == 0
}

/// Every closed group holds at least one argument.
pub open spec fn groups_non_empty(st: ScanState) -> bool {
    forall|k: int| 0 <= k < st.groups.len() ==> #[trigger] st.groups[k].len() > 0
}

proof fn lemma_scan_groups_non_empty(s: Seq<char>, i: int, st: ScanState)
    requires
        groups_non_empty(st),
    ensures
        groups_non_empty(scan(s, i, st)),
    decreases s.len() - i,
{
    if 0 <= i < s.len() {
        let (st2, j) = step(s, i, st);
        assert(groups_non_empty(st2));
        lemma_scan_groups_non_empty(s, j, st2);
    }
}

/// No argument vector that the tokenizer produces is empty.
pub proof fn lemma_tokenize_groups_non_empty(s: Seq<char>)
    ensures
        tokenize(s).is_some() ==> forall|k: int|
            0 <= k < tokenize(s).unwrap().len() ==> #[trigger] tokenize(s).unwrap()[k].len() > 0,
{
    lemma_scan_groups_non_empty(s, 0, initial_scan());
    let st = close_group(close_token(scan(s, 0, initial_scan())));
    assert(groups_non_empty(st));
}

/// A character with no quoting meaning: neither quote nor backslash.
pub open spec fn is_plain(c: char) -> bool {
    c != '\'' && c != '"' && c != '\\'
}

proof fn lemma_plain_stays_normal(s: Seq<char>, i: int, st: ScanState)
    requires
        0 <= i,
        st.mode == Mode::Normal,
        !st.escaped,
        forall|k: int| i <= k < s.len() ==> is_plain(#[trigger] s[k]),
    ensures
        scan(s, i, st).mode == Mode::Normal,
        !scan(s, i, st).escaped,
    decreases s.len() - i,
{
    if i < s.len() {
        let (st2, j) = step(s, i, st);
        lemma_plain_stays_normal(s, j, st2);
    }
}

/// Reading plain characters from `i` up to `j` leaves the scanner unquoted and
/// unescaped at `j`, where `s[j]` cannot pair with an `&` before it.
proof fn lemma_plain_prefix(s: Seq<char>, i: int, j: int, st: ScanState) -> (st2: ScanState)
    requires
        0 <= i <= j <= s.len(),
        st.mode == Mode::Normal,
        !st.escaped,
        forall|k: int| i <= k < j ==> is_plain(#[trigger] s[k]),
        j < s.len() ==> s[j] != '&',
    ensures
        st2.mode == Mode::Normal,
        !st2.escaped,
        scan(s, i, st) == scan(s, j, st2),
    decreases j - i,
{
    if i == j {
        st
    } else {
        let (st3, k) = step(s, i, st);
        assert(s[i] == '&' && i + 1 < s.len() && s[i + 1] == '&' ==> i + 1 != j);
        lemma_plain_prefix(s, k, j, st3)
    }
}

proof fn lemma_single_stays_open(s: Seq<char>, i: int, st: ScanState)
    requires
        0 <= i,
        st.mode == Mode::Single,
        !st.escaped,
        forall|k: int| i <= k < s.len() ==> #[trigger] s[k] != '\'',
    ensures
        scan(s, i, st).mode == Mode::Single,
    decreases s.len() - i,
{
    if i < s.len() {
        let (st2, j) = step(s, i, st);
        lemma_single_stays_open(s, j, st2);
    }
}

proof fn lemma_double_stays_open(s: Seq<char>, i: int, st: ScanState)
    requires
        0 <= i,
        st.mode == Mode::Double,
        forall|k: int| i <= k < s.len() ==> #[trigger] s[k] != '"',
    ensures
        scan(s, i, st).mode == Mode::Double,
    decreases s.len() - i,
{
    if i < s.len() {
        let (st2, j) = step(s, i, st);
        lemma_double_stays_open(s, j, st2);
    }
}

/// Text without quotes or backslashes is always complete.
pub proof fn lemma_plain_text_is_ready(s: Seq<char>)
    requires
        forall|k: int| 0 <= k < s.len() ==> is_plain(#[trigger] s[k]),
    ensures
        tokenize(s).is_some(),
{
    lemma_plain_stays_normal(s, 0, initial_scan());
}

/// Text that opens a quote and never closes it is incomplete: here the quote
/// follows a run of plain characters, and no matching quote comes after it.
pub proof fn lemma_open_quote_is_incomplete(p: Seq<char>, quote: char, q: Seq<char>)
    requires
        quote == '\'' || quote == '"',
        forall|k: int| 0 <= k < p.len() ==> is_plain(#[trigger] p[k]),
        forall|k: int| 0 <= k < q.len() ==> #[trigger] q[k] != quote,
    ensures
        tokenize(p + seq![quote] + q).is_none(),
{
    let s = p + seq![quote] + q;
    let n = p.len() as int;
    assert forall|k: int| 0 <= k < n implies is_plain(#[trigger] s[k]) by {
        assert(s[k] == p[k]);
    }
    assert(s[n] == quote);
    let st = lemma_plain_prefix(s, 0, n, initial_scan());
    let (st2, j) = step(s, n, st);
    assert forall|k: int| j <= k < s.len() implies #[trigger] s[k] != quote by {
        assert(s[k] == q[k - n - 1]);
    }
    if quote == '\'' {
        lemma_single_stays_open(s, j, st2);
    } else {
        lemma_double_stays_open(s, j, st2);
    }
}

/// Text that ends on a backslash escaping nothing is incomplete: here the
/// backslash follows a run of plain characters.
pub proof fn lemma_trailing_backslash_is_incomplete(p: Seq<char>)
    requires
        forall|k: int| 0 <= k < p.len() ==> is_plain(#[trigger] p[k]),
    ensures
        tokenize(p.push('\\')).is_none(),
{
    let s = p.push('\\');
    let n = p.len() as int;
    assert forall|k: int| 0 <= k < n implies is_plain(#[trigger] s[k]) by {
        assert(s[k] == p[k]);
    }
    let st = lemma_plain_prefix(s, 0, n, initial_scan());
    let (st2, j) = step(s, n, st);
    assert(scan(s, j, st2) == st2);
}

/// The quoting state after reading `s` from `i` on, starting in mode `m`,
/// escaped or not: quotes open and close, a backslash escapes the next
/// character outside single quotes; nothing else matters.
pub open spec fn quoting(s: Seq<char>, i: int, m: Mode, escaped: bool) -> (Mode, bool)
    decreases s.len() - i,
{
    if i < 0 || i >= s.len() {
        (m, escaped)
    } else if escaped {
        quoting(s, i + 1, m, false)
    } else {
        let c = s[i];
        match m {
            Mode::Normal => if c == '\\' {
                quoting(s, i + 1, Mode::Normal, true)
            } else if c == '\'' {
                quoting(s, i + 1, Mode::Single, false)
            } else if c == '"' {
                quoting(s, i + 1, Mode::Double, false)
            } else {
                quoting(s, i + 1, Mode::Normal, false)
            },
            Mode::Single => if c == '\'' {
                quoting(s, i + 1, Mode::Normal, false)
            } else {
                quoting(s, i + 1, Mode::Single, false)
            },
            Mode::Double => if c == '\\' {
                quoting(s, i + 1, Mode::Double, true)
            } else if c == '"' {
                quoting(s, i + 1, Mode::Normal, false)
            } else {
                quoting(s, i + 1, Mode::Double, false)
            },
        }
    }
}

/// Every quote of `s` is closed and no backslash is left escaping nothing.
pub open spec fn quotes_closed(s: Seq<char>) -> bool {
    quoting(s, 0, Mode::Normal, false) == (Mode::Normal, false)
}

proof fn lemma_scan_follows_quoting(s: Seq<char>, i: int, st: ScanState)
    requires
        0 <= i,
        !(st.escaped && st.mode == Mode::Single),
    ensures
        (scan(s, i, st).mode, scan(s, i, st).escaped) == quoting(s, i, st.mode, st.escaped),
    decreases s.len() - i,
{
    if i < s.len() {
        let (st2, j) = step(s, i, st);
        if j == i + 2 {
            assert(quoting(s, i, st.mode, st.escaped) == quoting(s, i + 1, Mode::Normal, false));
            assert(quoting(s, i + 1, Mode::Normal, false) == quoting(s, i + 2, Mode::Normal, false));
        }
        lemma_scan_follows_quoting(s, j, st2);
    }
}

/// A text is complete exactly where its quotes are closed and it does not
/// end on an escaping backslash.
pub proof fn lemma_ready_iff_quotes_closed(s: Seq<char>)
    ensures
        tokenize(s).is_some() <==> quotes_closed(s),
{
    lemma_scan_follows_quoting(s, 0, initial_scan());
}

/// The marker that an incomplete text is reported with.
pub open spec fn incomplete_marker() -> Seq<char> {
    seq!['I', 'n', 'c', 'o', 'm', 'p', 'l', 'e', 't', 'e']
}

fn close_token_exec(token: &mut String, args: &mut Vec<String>)
    ensures
        old(token)@.len() > 0 ==> strings_view(final(args)@) == strings_view(old(args)@).push(
            old(token)@,
        ) && final(token)@.len() == 0,
        old(token)@.len() == 0 ==> *final(args) == *old(args) && *final(token) == *old(token),
{
    if !token.as_str().is_empty() {
        let mut t = String::new();
        std::mem::swap(&mut t, token);
        args.push(t);
        assert(strings_view(args@) =~= strings_view(old(args)@).push(old(token)@));
    }
}

fn close_group_exec(args: &mut Vec<String>, groups: &mut Vec<Vec<String>>)
    ensures
        old(args)@.len() > 0 ==> groups_view(final(groups)@) == groups_view(old(groups)@).push(
            strings_view(old(args)@),
        ) && final(args)@.len() == 0,
        old(args)@.len() == 0 ==> *final(args) == *old(args) && *final(groups) == *old(groups),
{
    if args.len() > 0 {
        let mut a: Vec<String> = Vec::new();
        std::mem::swap(&mut a, args);
        groups.push(a);
        assert(groups_view(groups@) =~= groups_view(old(groups)@).push(strings_view(old(args)@)));
    }
}

/// Splits `input` into argument vectors, one per `&&`-separated group, with
/// shell-style quoting; fails with "Incomplete" where the text ends inside a
/// quote or on an escaping backslash.
pub fn parse_tokens(input: &str) -> (r: Result<Vec<Vec<String>>, String>)
    ensures
        match r {
            Ok(g) => tokenize(input@) == Some(groups_view(g@)),
            Err(e) => tokenize(input@).is_none() && e@ == incomplete_marker(),
        },
{
    let n = input.unicode_len();
    let mut commands: Vec<Vec<String>> = Vec::new();
    let mut current_args: Vec<String> = Vec::new();
    let mut current_token = String::new();
    let mut mode = Mode::Normal;
    let mut escaped = false;
    let mut i: usize = 0;
    let ghost s = input@;
    assert(groups_view(commands@) =~= Seq::empty());
    assert(strings_view(current_args@) =~= Seq::empty());
    while i < n
        invariant
            n == s.len(),
            s == input@,
            i <= n,
            scan(s, i as int, ScanState {
                groups: groups_view(commands@),
                args: strings_view(current_args@),
                token: current_token@,
                mode: mode,
                escaped: escaped,
            }) == scan(s, 0, initial_scan()),
        decreases n - i,
    {
        let ghost st = ScanState {
            groups: groups_view(commands@),
            args: strings_view(current_args@),
            token: current_token@,
            mode: mode,
            escaped: escaped,
        };
        let c = input.get_char(i);
        let mut next: usize = i + 1;
        if escaped {
            match mode {
                Mode::Normal => {
                    push_char(&mut current_token, c);
                },
                Mode::Double => {
                    if c == '"' || c == '\\' {
                        push_char(&mut current_token, c);
                    } else {
                        push_char(&mut current_token, '\\');
                        push_char(&mut current_token, c);
                    }
                },
                Mode::Single => {
                    push_char(&mut current_token, '\\');
                    push_char(&mut current_token, c);
                },
            }
            escaped = false;
        } else {
            match mode {
                Mode::Normal => {
                    if c == '\\' {
                        escaped = true;
                    } else if c == '\'' {
                        mode = Mode::Single;
                    } else if c == '"' {
                        mode = Mode::Double;
                    } else if c == '&' && i + 1 < n && input.get_char(i + 1) == '&' {
                        close_token_exec(&mut current_token, &mut current_args);
                        close_group_exec(&mut current_args, &mut commands);
                        next = i + 2;
                    } else if is_blank(c) {
                        close_token_exec(&mut current_token, &mut current_args);
                    } else {
                        push_char(&mut current_token, c);
                    }
                },
                Mode::Single => {
                    if c == '\'' {
                        mode = Mode::Normal;
                    } else {
                        push_char(&mut current_token, c);
                    }
                },
                Mode::Double => {
                    if c == '\\' {
                        escaped = true;
                    } else if c == '"' {
                        mode = Mode::Normal;
                    } else {
                        push_char(&mut current_token, c);
                    }
                },
            }
        }
        let ghost st2 = ScanState {
            groups: groups_view(commands@),
            args: strings_view(current_args@),
            token: current_token@,
            mode: mode,
            escaped: escaped,
        };
        let ghost (a, b) = step(s, i as int, st);
        assert(a.groups == st2.groups && a.args == st2.args && a.token == st2.token);
        assert(step(s, i as int, st) == (st2, next as int));
        i = next;
    }
    if escaped || mode != Mode::Normal {
        proof {
            reveal_strlit("Incomplete");
        }
        let e = String::from_str("Incomplete");
        assert(e@ =~= incomplete_marker());
        return Err(e);
    }
    close_token_exec(&mut current_token, &mut current_args);
    close_group_exec(&mut current_args, &mut commands);
    Ok(commands)
}

} // verus!
