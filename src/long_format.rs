use crate::listing::{append_indicator, with_indicator, FileKind, Flag};
use crate::lookup::{group_name, local_time_text, user_name};
use crate::text::push_char;
use vstd::prelude::*;
use vstd::string::*;

verus! {

pub open spec fn kind_char(kind: FileKind) -> char {
    match kind {
        FileKind::Directory => 'd',
        FileKind::Symlink => 'l',
        FileKind::CharDevice => 'c',
        FileKind::BlockDevice => 'b',
        FileKind::Fifo => 'p',
        FileKind::Socket => 's',
        FileKind::Regular => '-',
    }
}

pub open spec fn bit_char(mode: u32, bit: u32, c: char) -> char {
    if mode & bit != 0 {
        c
    } else {
        '-'
    }
}

/// The execute position: `special` replaces `x` where the special bit is
/// set, upper case where the execute bit is not.
pub open spec fn exec_char(mode: u32, special_bit: u32, exec_bit: u32, special: char, upper: char) -> char {
    if mode & special_bit != 0 {
        if mode & exec_bit != 0 {
            special
        } else {
            upper
        }
    } else {
        bit_char(mode, exec_bit, 'x')
    }
}

/// The ten-character permission string of the long listing, as in `drwxr-xr-x`.
pub open spec fn permissions_spec(mode: u32, kind: FileKind) -> Seq<char> {
    seq![
        kind_char(kind),
        bit_char(mode, 0o400, 'r'),
        bit_char(mode, 0o200, 'w'),
        exec_char(mode, 0o4000, 0o100, 's', 'S'),
        bit_char(mode, 0o040, 'r'),
        bit_char(mode, 0o020, 'w'),
        exec_char(mode, 0o2000, 0o010, 's', 'S'),
        bit_char(mode, 0o004, 'r'),
        bit_char(mode, 0o002, 'w'),
        exec_char(mode, 0o1000, 0o001, 't', 'T'),
    ]
}

fn bit_char_exec(mode: u32, bit: u32, c: char) -> (r: char)
    ensures
        r == bit_char(mode, bit, c),
{
    if mode & bit != 0 {
        c
    } else {
        '-'
    }
}

fn exec_char_exec(mode: u32, special_bit: u32, exec_bit: u32, special: char, upper: char) -> (r: char)
    ensures
        r == exec_char(mode, special_bit, exec_bit, special, upper),
{
    if mode & special_bit != 0 {
        if mode & exec_bit != 0 {
            special
        } else {
            upper
        }
    } else {
        bit_char_exec(mode, exec_bit, 'x')
    }
}

/// The permission string of a file of kind `kind` with mode bits `mode`.
pub fn format_permissions(mode: u32, kind: FileKind) -> (r: String)
    ensures
        r@ == permissions_spec(mode, kind),
{
    let mut s = String::new();
    let k = match kind {
        FileKind::Directory => 'd',
        FileKind::Symlink => 'l',
        FileKind::CharDevice => 'c',
        FileKind::BlockDevice => 'b',
        FileKind::Fifo => 'p',
        FileKind::Socket => 's',
        FileKind::Regular => '-',
    };
    push_char(&mut s, k);
    push_char(&mut s, bit_char_exec(mode, 0o400, 'r'));
    push_char(&mut s, bit_char_exec(mode, 0o200, 'w'));
    push_char(&mut s, exec_char_exec(mode, 0o4000, 0o100, 's', 'S'));
    push_char(&mut s, bit_char_exec(mode, 0o040, 'r'));
    push_char(&mut s, bit_char_exec(mode, 0o020, 'w'));
    push_char(&mut s, exec_char_exec(mode, 0o2000, 0o010, 's', 'S'));
    push_char(&mut s, bit_char_exec(mode, 0o004, 'r'));
    push_char(&mut s, bit_char_exec(mode, 0o002, 'w'));
    push_char(&mut s, exec_char_exec(mode, 0o1000, 0o001, 't', 'T'));
    assert(s@ =~= permissions_spec(mode, kind));
    s
}

pub open spec fn digit_char(d: nat) -> char {
    if d == 0 {
        '0'
    } else if d == 1 {
        '1'
    } else if d == 2 {
        '2'
    } else if d == 3 {
        '3'
    } else if d == 4 {
        '4'
    } else if d == 5 {
        '5'
    } else if d == 6 {
        '6'
    } else if d == 7 {
        '7'
    } else if d == 8 {
        '8'
    } else {
        '9'
    }
}

/// `n` written in decimal, without leading zeros.
pub open spec fn decimal_spec(n: nat) -> Seq<char>
    decreases n,
{
    if n < 10 {
        seq![digit_char(n)]
    } else {
        decimal_spec(n / 10).push(digit_char(n % 10))
    }
}

fn digit(d: u128) -> (r: char)
    requires
        d < 10,
    ensures
        r == digit_char(d as nat),
{
    if d == 0 {
        '0'
    } else if d == 1 {
        '1'
    } else if d == 2 {
        '2'
    } else if d == 3 {
        '3'
    } else if d == 4 {
        '4'
    } else if d == 5 {
        '5'
    } else if d == 6 {
        '6'
    } else if d == 7 {
        '7'
    } else if d == 8 {
        '8'
    } else {
        '9'
    }
}

/// `n` in decimal.
pub fn decimal(n: u128) -> (r: String)
    ensures
        r@ == decimal_spec(n as nat),
    decreases n,
{
    if n < 10 {
        let mut s = String::new();
        push_char(&mut s, digit(n));
        assert(s@ =~= seq![digit_char(n as nat)]);
        s
    } else {
        let mut s = decimal(n / 10);
        push_char(&mut s, digit(n % 10));
        s
    }
}

/// One entry of the long listing, its columns already written out.
#[derive(Debug)]
pub struct LongEntry {
    pub perms: String,
    pub links: String,
    pub user: String,
    pub group: String,
    pub size: String,
    pub date: String,
    pub name: String,
    pub blocks: u64,
}

/// The width of each padded column of the long listing.
pub struct Widths {
    pub links: nat,
    pub user: nat,
    pub group: nat,
    pub size: nat,
    pub date: nat,
}

pub open spec fn max_nat(a: nat, b: nat) -> nat {
    if a >= b {
        a
    } else {
        b
    }
}

/// The widest value of each column over `es`.
pub open spec fn widths_of(es: Seq<LongEntry>) -> Widths
    decreases es.len(),
{
    if es.len() == 0 {
        Widths { links: 0, user: 0, group: 0, size: 0, date: 0 }
    } else {
        let w = widths_of(es.drop_last());
        let e = es.last();
        Widths {
            links: max_nat(w.links, e.links@.len()),
            user: max_nat(w.user, e.user@.len()),
            group: max_nat(w.group, e.group@.len()),
            size: max_nat(w.size, e.size@.len()),
            date: max_nat(w.date, e.date@.len()),
        }
    }
}

pub open spec fn total_blocks(es: Seq<LongEntry>) -> nat
    decreases es.len(),
{
    if es.len() == 0 {
        0
    } else {
        total_blocks(es.drop_last()) + es.last().blocks as nat
    }
}

pub open spec fn spaces(n: int) -> Seq<char> {
    Seq::new(if n > 0 {
        n as nat
    } else {
        0
    }, |i: int| ' ')
}

/// `s` behind as many spaces as make it `w` wide.
pub open spec fn pad_left_spec(s: Seq<char>, w: nat) -> Seq<char> {
    spaces(w - s.len()) + s
}

/// `s` followed by as many spaces as make it `w` wide.
pub open spec fn pad_right_spec(s: Seq<char>, w: nat) -> Seq<char> {
    s + spaces(w - s.len())
}

/// One line of the long listing: permissions, links, owner, group, size,
/// date and name, separated by single spaces, with the numbers and the date
/// aligned right and the names of owner and group left.
pub open spec fn long_line(e: LongEntry, w: Widths) -> Seq<char> {
    e.perms@ + seq![' '] + pad_left_spec(e.links@, w.links) + seq![' '] + pad_right_spec(
        e.user@,
        w.user,
    ) + seq![' '] + pad_right_spec(e.group@, w.group) + seq![' '] + pad_left_spec(
        e.size@,
        w.size,
    ) + seq![' '] + pad_left_spec(e.date@, w.date) + seq![' '] + e.name@ + seq!['\n']
}

pub open spec fn long_lines(es: Seq<LongEntry>, w: Widths) -> Seq<char>
    decreases es.len(),
{
    if es.len() == 0 {
        Seq::empty()
    } else {
        long_lines(es.drop_last(), w) + long_line(es.last(), w)
    }
}

pub open spec fn total_line(blocks: nat) -> Seq<char> {
    seq!['t', 'o', 't', 'a', 'l', ' '] + decimal_spec(blocks / 2) + seq!['\n']
}

/// The long listing of `es`, led by the total of their blocks (counted in
/// units of 1024 bytes) where `show_total` asks for it; nothing at all for no
/// entries.
pub open spec fn listing_spec(es: Seq<LongEntry>, show_total: bool) -> Seq<char> {
    if es.len() == 0 {
        Seq::empty()
    } else {
        (if show_total {
            total_line(total_blocks(es))
        } else {
            Seq::empty()
        }) + long_lines(es, widths_of(es))
    }
}

fn push_spaces(out: &mut String, n: usize)
    ensures
        final(out)@ == old(out)@ + spaces(n as int),
{
    let mut i: usize = 0;
    while i < n
        invariant
            i <= n,
            out@ == old(out)@ + spaces(i as int),
        decreases n - i,
    {
        push_char(out, ' ');
        i = i + 1;
        assert(out@ =~= old(out)@ + spaces(i as int));
    }
}

fn push_padded_left(out: &mut String, s: &str, w: usize)
    ensures
        final(out)@ == old(out)@ + pad_left_spec(s@, w as nat),
{
    let n = s.unicode_len();
    if n < w {
        push_spaces(out, w - n);
    } else {
        assert(spaces(w - n) =~= Seq::empty());
        assert(out@ =~= old(out)@ + spaces(w - n));
    }
    out.append(s);
    assert(out@ =~= old(out)@ + pad_left_spec(s@, w as nat));
}

fn push_padded_right(out: &mut String, s: &str, w: usize)
    ensures
        final(out)@ == old(out)@ + pad_right_spec(s@, w as nat),
{
    let n = s.unicode_len();
    out.append(s);
    if n < w {
        push_spaces(out, w - n);
    } else {
        assert(spaces(w - n) =~= Seq::empty());
    }
    assert(out@ =~= old(out)@ + pad_right_spec(s@, w as nat));
}

fn max_usize(a: usize, b: usize) -> (r: usize)
    ensures
        r as nat == max_nat(a as nat, b as nat),
{
    if a >= b {
        a
    } else {
        b
    }
}

fn push_long_line(
    out: &mut String,
    e: &LongEntry,
    wl: usize,
    wu: usize,
    wg: usize,
    ws: usize,
    wd: usize,
)
    ensures
        final(out)@ == old(out)@ + long_line(
            *e,
            Widths {
                links: wl as nat,
                user: wu as nat,
                group: wg as nat,
                size: ws as nat,
                date: wd as nat,
            },
        ),
{
    out.append(e.perms.as_str());
    push_char(out, ' ');
    push_padded_left(out, e.links.as_str(), wl);
    push_char(out, ' ');
    push_padded_right(out, e.user.as_str(), wu);
    push_char(out, ' ');
    push_padded_right(out, e.group.as_str(), wg);
    push_char(out, ' ');
    push_padded_left(out, e.size.as_str(), ws);
    push_char(out, ' ');
    push_padded_left(out, e.date.as_str(), wd);
    push_char(out, ' ');
    out.append(e.name.as_str());
    push_char(out, '\n');
    assert(out@ =~= old(out)@ + long_line(
        *e,
        Widths {
            links: wl as nat,
            user: wu as nat,
            group: wg as nat,
            size: ws as nat,
            date: wd as nat,
        },
    ));
}

/// Writes the long listing of `entries`: one line each, columns aligned to
/// their widest value, led by the total of blocks where `show_total` asks.
pub fn align_and_format(entries: Vec<LongEntry>, show_total: bool) -> (r: String)
    ensures
        r@ == listing_spec(entries@, show_total),
{
    if entries.len() == 0 {
        return String::new();
    }
    let ghost es = entries@;
    let mut wl: usize = 0;
    let mut wu: usize = 0;
    let mut wg: usize = 0;
    let mut ws: usize = 0;
    let mut wd: usize = 0;
    let mut total: u128 = 0;
    let mut i: usize = 0;
    assert(es.take(0) =~= Seq::<LongEntry>::empty());
    while i < entries.len()
        invariant
            es == entries@,
            i <= es.len(),
            widths_of(es.take(i as int)) == (Widths {
                links: wl as nat,
                user: wu as nat,
                group: wg as nat,
                size: ws as nat,
                date: wd as nat,
            }),
            total == total_blocks(es.take(i as int)),
            total <= i * 0xffff_ffff_ffff_ffffu128,
        decreases es.len() - i,
    {
        let e = &entries[i];
        assert(es.take(i + 1).drop_last() =~= es.take(i as int));
        wl = max_usize(wl, e.links.as_str().unicode_len());
        wu = max_usize(wu, e.user.as_str().unicode_len());
        wg = max_usize(wg, e.group.as_str().unicode_len());
        ws = max_usize(ws, e.size.as_str().unicode_len());
        wd = max_usize(wd, e.date.as_str().unicode_len());
        assert((i + 1) * 0xffff_ffff_ffff_ffffu128 <= 0xffff_ffff_ffff_ffffu128
            * 0xffff_ffff_ffff_ffffu128) by (nonlinear_arith)
            requires
                i < 0xffff_ffff_ffff_ffffu128,
        ;
        assert(total + e.blocks <= (i + 1) * 0xffff_ffff_ffff_ffffu128) by (nonlinear_arith)
            requires
                total <= i * 0xffff_ffff_ffff_ffffu128,
                e.blocks <= 0xffff_ffff_ffff_ffffu128,
        ;
        total = total + e.blocks as u128;
        i = i + 1;
    }
    assert(es.take(es.len() as int) == es);
    let ghost w = widths_of(es);
    let mut out = String::new();
    if show_total {
        out.append("total ");
        proof {
            reveal_strlit("total ");
        }
        let t = decimal(total / 2);
        out.append(t.as_str());
        push_char(&mut out, '\n');
        assert(out@ =~= total_line(total_blocks(es)));
    }
    let ghost head = out@;
    let mut j: usize = 0;
    assert(head + long_lines(es.take(0), w) =~= head);
    while j < entries.len()
        invariant
            es == entries@,
            j <= es.len(),
            w == widths_of(es),
            w == (Widths {
                links: wl as nat,
                user: wu as nat,
                group: wg as nat,
                size: ws as nat,
                date: wd as nat,
            }),
            out@ == head + long_lines(es.take(j as int), w),
        decreases es.len() - j,
    {
        let e = &entries[j];
        assert(es.take(j + 1).drop_last() =~= es.take(j as int));
        push_long_line(&mut out, e, wl, wu, wg, ws, wd);
        j = j + 1;
    }
    assert(es.take(es.len() as int) == es);
    out
}

/// What the long listing reads from a file's metadata, as plain values.
#[derive(Debug)]
pub struct EntryFacts {
    pub kind: FileKind,
    pub mode: u32,
    pub nlink: u64,
    pub uid: u32,
    pub gid: u32,
    pub size: u64,
    pub rdev: u64,
    pub blocks: u64,
    /// Seconds since the Unix epoch.
    pub modified: i64,
    /// Where a symbolic link points, where it could be read.
    pub link_target: Option<String>,
}

pub open spec fn major_of(rdev: u64) -> u64 {
    (rdev >> 8u64) & 0xfffu64
}

pub open spec fn minor_of(rdev: u64) -> u64 {
    (rdev & 0xffu64) | ((rdev >> 12u64) & 0xfff00u64)
}

/// The major and minor numbers of a device, as the long listing splits them.
pub fn device_numbers(rdev: u64) -> (r: (u64, u64))
    ensures
        r == (major_of(rdev), minor_of(rdev)),
{
    ((rdev >> 8u64) & 0xfffu64, (rdev & 0xffu64) | ((rdev >> 12u64) & 0xfff00u64))
}

pub open spec fn is_device(kind: FileKind) -> bool {
    kind == FileKind::BlockDevice || kind == FileKind::CharDevice
}

/// The size column: `major, minor` for a device, else the size in bytes.
pub open spec fn size_text(facts: EntryFacts) -> Seq<char> {
    if is_device(facts.kind) {
        pad_left_spec(decimal_spec(major_of(facts.rdev) as nat), 3) + seq![',', ' ']
            + pad_left_spec(decimal_spec(minor_of(facts.rdev) as nat), 3)
    } else {
        decimal_spec(facts.size as nat)
    }
}

/// The name column: the name, its mark under `-F`, and where a link points.
pub open spec fn name_text(name: Seq<char>, facts: EntryFacts, flag: Flag) -> Seq<char> {
    let shown = if flag.f {
        with_indicator(name, facts.kind, facts.mode)
    } else {
        name
    };
    match facts.link_target {
        Some(t) => if facts.kind == FileKind::Symlink {
            shown + seq![' ', '-', '>', ' '] + t@
        } else {
            shown
        },
        None => shown,
    }
}

/// An owner column: the name where one is known, else the number.
pub open spec fn owner_text(name: Option<Seq<char>>, id: u32) -> Seq<char> {
    match name {
        Some(n) => n,
        None => decimal_spec(id as nat),
    }
}

/// `e` is the long entry for a file named `name` with `facts`, given the
/// names of its owner and group, where known, and its date as written.
pub open spec fn is_long_entry(
    e: LongEntry,
    name: Seq<char>,
    facts: EntryFacts,
    flag: Flag,
    user: Option<Seq<char>>,
    group: Option<Seq<char>>,
    date: Seq<char>,
) -> bool {
    &&& e.perms@ == permissions_spec(facts.mode, facts.kind)
    &&& e.links@ == decimal_spec(facts.nlink as nat)
    &&& e.user@ == owner_text(user, facts.uid)
    &&& e.group@ == owner_text(group, facts.gid)
    &&& e.size@ == size_text(facts)
    &&& e.date@ == date
    &&& e.name@ == name_text(name, facts, flag)
    &&& e.blocks == facts.blocks
}

fn owner_label(name: Option<String>, id: u32) -> (r: String)
    ensures
        r@ == owner_text(crate::text::opt_view(name), id),
{
    match name {
        Some(n) => n,
        None => decimal(id as u128),
    }
}

/// Builds the long entry of a file from its facts, the names of its owner
/// and group where known, and its date as written.
pub fn long_entry(
    name: String,
    facts: &EntryFacts,
    flag: Flag,
    user: Option<String>,
    group: Option<String>,
    date: String,
) -> (r: LongEntry)
    ensures
        is_long_entry(
            r,
            name@,
            *facts,
            flag,
            crate::text::opt_view(user),
            crate::text::opt_view(group),
            date@,
        ),
{
    let mut shown = if flag.f {
        append_indicator(name, facts.kind, facts.mode)
    } else {
        name
    };
    let ghost plain = shown@;
    if let Some(t) = &facts.link_target {
        if facts.kind == FileKind::Symlink {
            proof {
                reveal_strlit(" -> ");
            }
            shown.append(" -> ");
            shown.append(t.as_str());
            assert(shown@ =~= plain + seq![' ', '-', '>', ' '] + t@);
        }
    }
    assert(shown@ == name_text(name@, *facts, flag));
    let size = if facts.kind == FileKind::BlockDevice || facts.kind == FileKind::CharDevice {
        let (major, minor) = device_numbers(facts.rdev);
        let mut s = String::new();
        let a = decimal(major as u128);
        push_padded_left(&mut s, a.as_str(), 3);
        push_char(&mut s, ',');
        push_char(&mut s, ' ');
        let b = decimal(minor as u128);
        push_padded_left(&mut s, b.as_str(), 3);
        assert(s@ =~= size_text(*facts));
        s
    } else {
        decimal(facts.size as u128)
    };
    LongEntry {
        perms: format_permissions(facts.mode, facts.kind),
        links: decimal(facts.nlink as u128),
        user: owner_label(user, facts.uid),
        group: owner_label(group, facts.gid),
        size,
        date,
        name: shown,
        blocks: facts.blocks,
    }
}

/// About six months, in seconds: older dates show the year, not the time.
pub const RECENT_SECONDS: i128 = 15552000;

/// Whether a file modified at `modified` counts as recent at `now` (both in
/// seconds since the Unix epoch): not in the future, and not older than
/// about six months.
pub open spec fn is_recent_spec(now: i64, modified: i64) -> bool {
    modified <= now && now - modified <= RECENT_SECONDS
}

pub fn is_recent(now: i64, modified: i64) -> (r: bool)
    ensures
        r == is_recent_spec(now, modified),
{
    modified <= now && (now as i128) - (modified as i128) <= RECENT_SECONDS
}

/// `n` in decimal, with a minus sign where it is negative.
pub open spec fn signed_decimal_spec(n: int) -> Seq<char> {
    if n < 0 {
        seq!['-'] + decimal_spec((-n) as nat)
    } else {
        decimal_spec(n as nat)
    }
}

pub fn signed_decimal(n: i64) -> (r: String)
    ensures
        r@ == signed_decimal_spec(n as int),
{
    if n < 0 {
        let mut s = String::new();
        push_char(&mut s, '-');
        let d = decimal((-(n as i128)) as u128);
        s.append(d.as_str());
        s
    } else {
        decimal(n as u128)
    }
}

/// How the date column is written for a file modified at `modified`, seen
/// at `now`: month, day and time for a recent file, month, day and year
/// otherwise.
pub fn date_pattern(now: i64, modified: i64) -> (r: &'static str)
    ensures
        r@ == if is_recent_spec(now, modified) {
            "%b %d %H:%M"@
        } else {
            "%b %d  %Y"@
        },
{
    if is_recent(now, modified) {
        "%b %d %H:%M"
    } else {
        "%b %d  %Y"
    }
}

/// The date column for a file modified at `modified`, seen at `now`, written
/// after `date_pattern` in the machine's time zone; the seconds themselves
/// where no date can be made of them.
pub fn format_date(now: i64, modified: i64) -> (r: String) {
    let pattern = date_pattern(now, modified);
    match local_time_text(modified, pattern) {
        Some(t) => t,
        None => signed_decimal(modified),
    }
}

/// Builds the long entry of a file, looking up the names of its owner and
/// group and writing its date as seen at `now`.
pub fn prepare_long_entry(name: String, facts: &EntryFacts, flag: Flag, now: i64) -> (r: LongEntry)
    ensures
        exists|user: Option<Seq<char>>, group: Option<Seq<char>>|
            is_long_entry(r, name@, *facts, flag, user, group, r.date@),
{
    let user = user_name(facts.uid);
    let group = group_name(facts.gid);
    let date = format_date(now, facts.modified);
    let ghost u = crate::text::opt_view(user);
    let ghost g = crate::text::opt_view(group);
    let r = long_entry(name, facts, flag, user, group, date);
    assert(is_long_entry(r, name@, *facts, flag, u, g, r.date@));
    r
}

} // verus!
