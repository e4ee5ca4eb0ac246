use crate::text::{push_char, same_text};
use crate::tokenizer::strings_view;
use vstd::prelude::*;
use vstd::string::*;

verus! {

/// The options that `ls` takes: `-a` shows hidden entries, `-l` the long
/// format, `-F` a mark after each name telling its kind.
#[derive(Debug, Clone, Copy, PartialEq, Eq, Structural)]
pub struct Flag {
    pub a: bool,
    pub l: bool,
    pub f: bool,
}

pub open spec fn is_flag_letter(c: char) -> bool {
    c == 'a' || c == 'l' || c == 'F'
}

/// Whether `arg`, after its first character, is a non-empty run of option
/// letters.
pub open spec fn is_flag_spec(arg: Seq<char>) -> bool {
    arg.len() > 1 && forall|k: int| 1 <= k < arg.len() ==> is_flag_letter(#[trigger] arg[k])
}

/// `flag` with the options that `arg` (after its first character) names
/// turned on.
pub open spec fn with_flags(flag: Flag, arg: Seq<char>) -> Flag {
    let letters = arg.drop_first();
    Flag {
        a: flag.a || letters.contains('a'),
        l: flag.l || letters.contains('l'),
        f: flag.f || letters.contains('F'),
    }
}

/// Reads an option argument such as `-la` into `flag`; returns whether it
/// was one. Where it is not, `flag` is left as it was.
pub fn is_flag(arg: &String, flag: &mut Flag) -> (r: bool)
    ensures
        r == is_flag_spec(arg@),
        r ==> *final(flag) == with_flags(*old(flag), arg@),
        !r ==> *final(flag) == *old(flag),
{
    let s = arg.as_str();
    let n = s.unicode_len();
    if n <= 1 {
        return false;
    }
    let mut i: usize = 1;
    while i < n
        invariant
            n == arg@.len(),
            s@ == arg@,
            1 <= i <= n,
            forall|k: int| 1 <= k < i ==> is_flag_letter(#[trigger] arg@[k]),
        decreases n - i,
    {
        let c = s.get_char(i);
        if !(c == 'a' || c == 'l' || c == 'F') {
            return false;
        }
        i = i + 1;
    }
    let ghost start = *flag;
    let mut j: usize = 1;
    while j < n
        invariant
            n == arg@.len(),
            s@ == arg@,
            1 <= j <= n,
            forall|k: int| 1 <= k < n ==> is_flag_letter(#[trigger] arg@[k]),
            flag.a == (start.a || arg@.subrange(1, j as int).contains('a')),
            flag.l == (start.l || arg@.subrange(1, j as int).contains('l')),
            flag.f == (start.f || arg@.subrange(1, j as int).contains('F')),
        decreases n - j,
    {
        let c = s.get_char(j);
        let ghost before = arg@.subrange(1, j as int);
        let ghost after = arg@.subrange(1, j + 1);
        assert(after == before.push(c));
        assert forall|x: char| after.contains(x) <==> (before.contains(x) || x == c) by {
            if after.contains(x) {
                let k = choose|k: int| 0 <= k < after.len() && after[k] == x;
                if k < before.len() {
                    assert(before[k] == x);
                }
            }
            if x == c {
                assert(after[after.len() - 1] == x);
            }
            if before.contains(x) {
                let k = choose|k: int| 0 <= k < before.len() && before[k] == x;
                assert(after[k] == x);
            }
        }
        if c == 'a' {
            flag.a = true;
        } else if c == 'l' {
            flag.l = true;
        } else {
            flag.f = true;
        }
        j = j + 1;
    }
    assert(arg@.subrange(1, n as int) == arg@.drop_first());
    true
}

/// Reads the arguments of `ls` from the front: `--` ends the options, an
/// argument starting with `-` before that must be an option, anything else
/// names a path. Yields the options and the paths, or the first argument that
/// is neither.
pub open spec fn ls_args_spec(
    args: Seq<Seq<char>>,
    options_ended: bool,
    flag: Flag,
    paths: Seq<Seq<char>>,
) -> Result<(Flag, Seq<Seq<char>>), Seq<char>>
    decreases args.len(),
{
    if args.len() == 0 {
        Ok((flag, paths))
    } else {
        let a = args[0];
        let rest = args.drop_first();
        if a == seq!['-', '-'] {
            ls_args_spec(rest, true, flag, paths)
        } else if a.len() > 0 && a[0] == '-' && !options_ended {
            if is_flag_spec(a) {
                ls_args_spec(rest, options_ended, with_flags(flag, a), paths)
            } else {
                Err(a)
            }
        } else {
            ls_args_spec(rest, options_ended, flag, paths.push(a))
        }
    }
}

pub open spec fn no_flags() -> Flag {
    Flag { a: false, l: false, f: false }
}

/// Splits the arguments of `ls` into its options and the paths to list; with
/// no path given, the current directory `.` is listed. Fails with the first
/// argument that looks like an option and is none.
pub fn split_ls_args(args: &Vec<String>) -> (r: Result<(Flag, Vec<String>), String>)
    ensures
        match (r, ls_args_spec(strings_view(args@), false, no_flags(), Seq::empty())) {
            (Ok((f, p)), Ok((f2, p2))) => f == f2 && strings_view(p@) == if p2.len() == 0 {
                seq![seq!['.']]
            } else {
                p2
            },
            (Err(a), Err(a2)) => a@ == a2,
            _ => false,
        },
{
    let ghost sv = strings_view(args@);
    let mut flag = Flag { a: false, l: false, f: false };
    let mut paths: Vec<String> = Vec::new();
    let mut options_ended = false;
    let mut i: usize = 0;
    let dashes = "--";
    proof {
        reveal_strlit("--");
    }
    assert(dashes@ =~= seq!['-', '-']);
    assert(strings_view(paths@) =~= Seq::empty());
    assert(sv.subrange(0, sv.len() as int) == sv);
    while i < args.len()
        invariant
            sv == strings_view(args@),
            dashes@ == seq!['-', '-'],
            i <= args@.len(),
            ls_args_spec(sv.subrange(i as int, sv.len() as int), options_ended, flag, strings_view(paths@))
                == ls_args_spec(sv, false, no_flags(), Seq::empty()),
        decreases args@.len() - i,
    {
        let a = &args[i];
        let ghost tail = sv.subrange(i as int, sv.len() as int);
        assert(tail[0] == a@);
        assert(tail.drop_first() == sv.subrange(i + 1, sv.len() as int));
        if same_text(a.as_str(), dashes) {
            options_ended = true;
        } else if !options_ended && !a.as_str().is_empty() && a.as_str().get_char(0) == '-' {
            if !is_flag(a, &mut flag) {
                return Err(a.clone());
            }
        } else {
            let ghost before = paths@;
            paths.push(a.clone());
            assert(strings_view(paths@) =~= strings_view(before).push(a@));
        }
        i = i + 1;
    }
    if paths.len() == 0 {
        let dot = String::from_str(".");
        proof {
            reveal_strlit(".");
        }
        assert(dot@ =~= seq!['.']);
        paths.push(dot);
        assert(strings_view(paths@) =~~= seq![seq!['.']]);
    }
    Ok((flag, paths))
}

/// Whether each listed directory gets a `name:` header: where anything
/// else is listed besides one directory.
pub fn show_headers(files: usize, dirs: usize, errors: usize) -> (r: bool)
    ensures
        r == (files > 0 || dirs > 1 || errors > 0),
{
    files > 0 || dirs > 1 || errors > 0
}

/// Whether a blank line goes before the listing of the `i`-th directory
/// (from 0): where something was listed before it.
pub fn blank_before_dir(i: usize, files: usize) -> (r: bool)
    ensures
        r == (i > 0 || files > 0),
{
    i > 0 || files > 0
}

/// What kind of file a directory entry is, as the listing tells them apart.
#[derive(Debug, Clone, Copy, PartialEq, Eq, Structural)]
pub enum FileKind {
    Directory,
    Symlink,
    CharDevice,
    BlockDevice,
    Fifo,
    Socket,
    Regular,
}

/// The mark that `-F` puts after a name: `/` for a directory, `@` for a
/// link, `|` for a pipe, `=` for a socket, `*` for anything executable.
pub open spec fn indicator_spec(kind: FileKind, mode: u32) -> Option<char> {
    match kind {
        FileKind::Directory => Some('/'),
        FileKind::Symlink => Some('@'),
        FileKind::Fifo => Some('|'),
        FileKind::Socket => Some('='),
        _ => if mode & 0o111 != 0 {
            Some('*')
        } else {
            None
        },
    }
}

pub fn indicator(kind: FileKind, mode: u32) -> (r: Option<char>)
    ensures
        r == indicator_spec(kind, mode),
{
    match kind {
        FileKind::Directory => Some('/'),
        FileKind::Symlink => Some('@'),
        FileKind::Fifo => Some('|'),
        FileKind::Socket => Some('='),
        _ => if mode & 0o111 != 0 {
            Some('*')
        } else {
            None
        },
    }
}

pub open spec fn with_indicator(name: Seq<char>, kind: FileKind, mode: u32) -> Seq<char> {
    match indicator_spec(kind, mode) {
        Some(c) => name.push(c),
        None => name,
    }
}

/// `name` followed by the mark of its kind, if it has one.
pub fn append_indicator(name: String, kind: FileKind, mode: u32) -> (r: String)
    ensures
        r@ == with_indicator(name@, kind, mode),
{
    let mut name = name;
    if let Some(c) = indicator(kind, mode) {
        push_char(&mut name, c);
    }
    name
}

/// Whether a name is hidden from a plain listing: it starts with a dot.
pub open spec fn is_hidden(name: Seq<char>) -> bool {
    name.len() > 0 && name[0] == '.'
}

/// `names` without the hidden ones, in order.
pub open spec fn visible_spec(names: Seq<Seq<char>>) -> Seq<Seq<char>>
    decreases names.len(),
{
    if names.len() == 0 {
        Seq::empty()
    } else if is_hidden(names.last()) {
        visible_spec(names.drop_last())
    } else {
        visible_spec(names.drop_last()).push(names.last())
    }
}

/// The names that a listing shows: all of them under `-a`, else those that
/// are not hidden, in the order given.
pub fn visible_names(names: Vec<String>, show_hidden: bool) -> (r: Vec<String>)
    ensures
        strings_view(r@) == if show_hidden {
            strings_view(names@)
        } else {
            visible_spec(strings_view(names@))
        },
{
    if show_hidden {
        return names;
    }
    let ghost sv = strings_view(names@);
    let mut out: Vec<String> = Vec::new();
    let mut i: usize = 0;
    assert(strings_view(out@) =~= visible_spec(sv.take(0)));
    while i < names.len()
        invariant
            sv == strings_view(names@),
            i <= names@.len(),
            strings_view(out@) == visible_spec(sv.take(i as int)),
        decreases names@.len() - i,
    {
        let n = &names[i];
        assert(sv.take(i + 1).drop_last() =~= sv.take(i as int));
        assert(sv.take(i + 1).last() == n@);
        let hidden = !n.as_str().is_empty() && n.as_str().get_char(0) == '.';
        if !hidden {
            let ghost before = out@;
            out.push(n.clone());
            assert(strings_view(out@) =~= strings_view(before).push(n@));
        }
        i = i + 1;
    }
    assert(sv.take(names@.len() as int) == sv);
    out
}

/// `a` comes before `b`, or equals it, comparing characters from index `i`
/// on by their code points, a prefix first.
pub open spec fn le_from(a: Seq<char>, b: Seq<char>, i: int) -> bool
    decreases a.len() - i,
{
    if i < 0 || i >= a.len() {
        true
    } else if i >= b.len() {
        false
    } else if a[i] != b[i] {
        a[i] < b[i]
    } else {
        le_from(a, b, i + 1)
    }
}

/// The order of names in a listing: by code points, a prefix first.
pub open spec fn name_le(a: Seq<char>, b: Seq<char>) -> bool {
    le_from(a, b, 0)
}

proof fn lemma_le_total(a: Seq<char>, b: Seq<char>, i: int)
    requires
        0 <= i,
    ensures
        le_from(a, b, i) || le_from(b, a, i),
    decreases a.len() - i,
{
    if i < a.len() && i < b.len() && a[i] == b[i] {
        lemma_le_total(a, b, i + 1);
    }
}

proof fn lemma_le_trans(a: Seq<char>, b: Seq<char>, c: Seq<char>, i: int)
    requires
        0 <= i,
        le_from(a, b, i),
        le_from(b, c, i),
    ensures
        le_from(a, c, i),
    decreases a.len() - i,
{
    if i < a.len() && i < b.len() && i < c.len() && a[i] == b[i] && b[i] == c[i] {
        lemma_le_trans(a, b, c, i + 1);
    }
}

/// Whether `a` comes before `b` in a listing, or equals it.
pub fn name_le_exec(a: &str, b: &str) -> (r: bool)
    ensures
        r == name_le(a@, b@),
{
    let n = a.unicode_len();
    let m = b.unicode_len();
    let mut i: usize = 0;
    while i < n
        invariant
            n == a@.len(),
            m == b@.len(),
            i <= n,
            le_from(a@, b@, i as int) == le_from(a@, b@, 0),
        decreases n - i,
    {
        if i >= m {
            return false;
        }
        let x = a.get_char(i);
        let y = b.get_char(i);
        if x != y {
            return x < y;
        }
        i = i + 1;
    }
    true
}

pub open spec fn names_sorted(v: Seq<String>) -> bool {
    forall|i: int, j: int| 0 <= i < j < v.len() ==> name_le(#[trigger] v[i]@, #[trigger] v[j]@)
}

/// The names in listing order: the same names, each as often, sorted by
/// code points.
pub fn sort_names(names: Vec<String>) -> (r: Vec<String>)
    ensures
        r@.to_multiset() == names@.to_multiset(),
        names_sorted(r@),
{
    let mut out: Vec<String> = Vec::new();
    let mut i: usize = 0;
    assert(names@.take(0) =~= Seq::<String>::empty());
    while i < names.len()
        invariant
            i <= names@.len(),
            out@.to_multiset() == names@.take(i as int).to_multiset(),
            names_sorted(out@),
        decreases names@.len() - i,
    {
        let x = names[i].clone();
        let mut p: usize = out.len();
        while p > 0 && !name_le_exec(out[p - 1].as_str(), x.as_str())
            invariant
                p <= out@.len(),
                names_sorted(out@),
                forall|j: int| p <= j < out@.len() ==> !name_le(#[trigger] out@[j]@, x@),
            decreases p,
        {
            p = p - 1;
        }
        proof {
            assert forall|j: int| p <= j < out@.len() implies name_le(x@, #[trigger] out@[j]@) by {
                lemma_le_total(out@[j]@, x@, 0);
            }
            if p > 0 {
                assert forall|j: int| 0 <= j < p implies name_le(#[trigger] out@[j]@, x@) by {
                    if j < p - 1 {
                        lemma_le_trans(out@[j]@, out@[p - 1]@, x@, 0);
                    }
                }
            }
        }
        let ghost before = out@;
        out.insert(p, x);
        proof {
            assert(names@.take(i + 1) =~= names@.take(i as int).push(names@[i as int]));
            vstd::seq_lib::to_multiset_build(names@.take(i as int), names@[i as int]);
            vstd::seq_lib::to_multiset_insert(before, p as int, names@[i as int]);
            assert forall|a: int, b: int| 0 <= a < b < out@.len() implies name_le(
                #[trigger] out@[a]@,
                #[trigger] out@[b]@,
            ) by {
                if a < p && b > p {
                    assert(out@[a] == before[a]);
                    assert(out@[b] == before[b - 1]);
                } else if a > p {
                    assert(out@[a] == before[a - 1]);
                    assert(out@[b] == before[b - 1]);
                } else if b < p {
                    assert(out@[a] == before[a]);
                    assert(out@[b] == before[b]);
                }
            }
        }
        i = i + 1;
    }
    assert(names@.take(names@.len() as int) == names@);
    out
}

} // verus!
