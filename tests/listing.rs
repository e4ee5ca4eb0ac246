use tiny_shell::echo::{echo_text, extend_echo_text, join_words};
use tiny_shell::listing::{
    append_indicator, blank_before_dir, is_flag, show_headers, name_le_exec, sort_names, split_ls_args, visible_names, FileKind,
    Flag,
};
use tiny_shell::long_format::{
    align_and_format, date_pattern, decimal, device_numbers, format_date, format_permissions, is_recent,
    long_entry, prepare_long_entry, signed_decimal, EntryFacts, LongEntry,
};
use tiny_shell::remove::split_rm_args;
use tiny_shell::text::{escape_newlines, trim};

fn s(x: &str) -> String {
    x.to_string()
}

fn no_flags() -> Flag {
    Flag { a: false, l: false, f: false }
}

#[test]
fn reads_option_letters() {
    let mut f = no_flags();
    assert!(is_flag(&s("-la"), &mut f));
    assert!(f.a && f.l && !f.f);
    assert!(is_flag(&s("-F"), &mut f));
    assert!(f.f);
    let mut g = no_flags();
    assert!(!is_flag(&s("-x"), &mut g));
    assert!(!is_flag(&s("-"), &mut g));
    assert!(!is_flag(&s("-lax"), &mut g));
    assert!(!g.a && !g.l && !g.f);
}

#[test]
fn splits_ls_arguments() {
    let (f, paths) = split_ls_args(&vec![s("-l"), s("src"), s("--"), s("-a")]).unwrap();
    assert!(f.l && !f.a);
    assert_eq!(paths, vec![s("src"), s("-a")]);
    let (f, paths) = split_ls_args(&vec![]).unwrap();
    assert_eq!(f, no_flags());
    assert_eq!(paths, vec![s(".")]);
    assert_eq!(split_ls_args(&vec![s("-z")]), Err(s("-z")));
}

#[test]
fn permission_strings() {
    assert_eq!(format_permissions(0o755, FileKind::Directory), "drwxr-xr-x");
    assert_eq!(format_permissions(0o644, FileKind::Regular), "-rw-r--r--");
    assert_eq!(format_permissions(0o4755, FileKind::Regular), "-rwsr-xr-x");
    assert_eq!(format_permissions(0o2644, FileKind::Regular), "-rw-r-Sr--");
    assert_eq!(format_permissions(0o1777, FileKind::Directory), "drwxrwxrwt");
    assert_eq!(format_permissions(0o1666, FileKind::Fifo), "prw-rw-rwT");
    assert_eq!(format_permissions(0o777, FileKind::Symlink), "lrwxrwxrwx");
    assert_eq!(format_permissions(0o660, FileKind::BlockDevice), "brw-rw----");
    assert_eq!(format_permissions(0o620, FileKind::CharDevice), "crw--w----");
    assert_eq!(format_permissions(0o755, FileKind::Socket), "srwxr-xr-x");
}

#[test]
fn indicators() {
    assert_eq!(append_indicator(s("d"), FileKind::Directory, 0o755), "d/");
    assert_eq!(append_indicator(s("l"), FileKind::Symlink, 0o777), "l@");
    assert_eq!(append_indicator(s("p"), FileKind::Fifo, 0o644), "p|");
    assert_eq!(append_indicator(s("k"), FileKind::Socket, 0o644), "k=");
    assert_eq!(append_indicator(s("x"), FileKind::Regular, 0o100), "x*");
    assert_eq!(append_indicator(s("f"), FileKind::Regular, 0o644), "f");
}

#[test]
fn decimals() {
    assert_eq!(decimal(0), "0");
    assert_eq!(decimal(7), "7");
    assert_eq!(decimal(1234567890), "1234567890");
    assert_eq!(decimal(u128::MAX), u128::MAX.to_string());
    assert_eq!(signed_decimal(-42), "-42");
    assert_eq!(signed_decimal(i64::MIN), i64::MIN.to_string());
}

#[test]
fn device_number_split() {
    assert_eq!(device_numbers(0x0801), (8, 1));
    assert_eq!(device_numbers(0x1234_5678), (0x456, 0x12378));
}

#[test]
fn recency() {
    assert!(is_recent(1000, 1000));
    assert!(is_recent(15552000, 0));
    assert!(!is_recent(15552001, 0));
    assert!(!is_recent(0, 1));
    assert!(!is_recent(i64::MAX, i64::MIN));
}

fn entry(links: &str, user: &str, size: &str, name: &str, blocks: u64) -> LongEntry {
    LongEntry {
        perms: s("-rw-r--r--"),
        links: s(links),
        user: s(user),
        group: s("g"),
        size: s(size),
        date: s("Jan 01 10:00"),
        name: s(name),
        blocks,
    }
}

#[test]
fn aligns_long_listing() {
    let out = align_and_format(
        vec![entry("1", "root", "5", "a", 8), entry("12", "me", "1234", "b", 3)],
        true,
    );
    assert_eq!(
        out,
        "total 5\n-rw-r--r--  1 root g    5 Jan 01 10:00 a\n-rw-r--r-- 12 me   g 1234 Jan 01 10:00 b\n"
    );
    let out = align_and_format(vec![entry("1", "u", "5", "a", 8)], false);
    assert_eq!(out, "-rw-r--r-- 1 u g 5 Jan 01 10:00 a\n");
    assert_eq!(align_and_format(vec![], true), "");
}

fn facts(kind: FileKind) -> EntryFacts {
    EntryFacts {
        kind,
        mode: 0o755,
        nlink: 3,
        uid: 4242,
        gid: 4343,
        size: 4096,
        rdev: 0x0801,
        blocks: 8,
        modified: 0,
        link_target: Some(s("target")),
    }
}

#[test]
fn builds_long_entries() {
    let flag = Flag { a: false, l: true, f: true };
    let e = long_entry(s("dir"), &facts(FileKind::Directory), flag, Some(s("me")), None, s("D"));
    assert_eq!(e.perms, "drwxr-xr-x");
    assert_eq!(e.links, "3");
    assert_eq!(e.user, "me");
    assert_eq!(e.group, "4343");
    assert_eq!(e.size, "4096");
    assert_eq!(e.date, "D");
    assert_eq!(e.name, "dir/");
    assert_eq!(e.blocks, 8);
    let e = long_entry(s("ln"), &facts(FileKind::Symlink), flag, None, None, s("D"));
    assert_eq!(e.name, "ln@ -> target");
    let e = long_entry(s("sda"), &facts(FileKind::BlockDevice), no_flags(), None, None, s("D"));
    assert_eq!(e.size, "  8,   1");
    assert_eq!(e.name, "sda");
}

#[test]
fn prepares_entry_with_lookups() {
    let mut f = facts(FileKind::Regular);
    f.uid = 0;
    f.gid = 0;
    let e = prepare_long_entry(s("file"), &f, no_flags(), 100);
    assert_eq!(e.perms, "-rwxr-xr-x");
    assert!(!e.user.is_empty());
    assert!(!e.date.is_empty());
    assert_ne!(e.date, "0");
}

#[test]
fn dates_pick_their_format() {
    let old = format_date(100_000_000, 0);
    assert!(old.ends_with("1970") || old.ends_with("1969"), "{old}");
    let recent = format_date(100, 50);
    assert!(recent.contains(':'), "{recent}");
}

#[test]
fn echo_output() {
    let text = join_words(&vec![s("a"), s("'b'"), s("c\\nd")]);
    assert_eq!(text, "a 'b' c\\nd");
    assert_eq!(echo_text(&text), "a b c\nd");
    assert_eq!(echo_text("\"x\\\"n"), "x\n");
    assert_eq!(join_words(&vec![]), "");
    let mut t = s("'a");
    extend_echo_text(&mut t, "b'", 1);
    assert_eq!(t, "'a\nb'");
    extend_echo_text(&mut t, "c", 2);
    assert_eq!(t, "'a\nb'c");
}

#[test]
fn text_helpers() {
    assert_eq!(escape_newlines("a\nb\n"), "a\\nb\\n");
    assert_eq!(trim("  a b \t"), "a b");
    assert_eq!(trim(" \u{3000} "), "");
}

#[test]
fn hides_dot_names_unless_asked() {
    let names = vec![s(".git"), s("src"), s("."), s("a.txt"), s("")];
    assert_eq!(visible_names(names.clone(), true), names);
    assert_eq!(visible_names(names, false), vec![s("src"), s("a.txt"), s("")]);
}

#[test]
fn sorts_names_by_code_points() {
    let names = vec![s("b"), s("B"), s("ab"), s("a"), s(".."), s("é"), s("a"), s("z")];
    let mut want = names.clone();
    want.sort();
    assert_eq!(sort_names(names), want);
    assert!(name_le_exec("a", "ab"));
    assert!(!name_le_exec("ab", "a"));
    assert!(name_le_exec("B", "a"));
    assert!(name_le_exec("same", "same"));
    assert_eq!(sort_names(vec![]), Vec::<String>::new());
}

#[test]
fn reads_rm_arguments() {
    let (recursive, targets) = split_rm_args(&vec![s("-f"), s("a"), s("-R"), s("b")]);
    assert!(recursive);
    assert_eq!(targets, vec![s("a"), s("b")]);
    let (recursive, targets) = split_rm_args(&vec![s("-rf"), s("x")]);
    assert!(!recursive);
    assert_eq!(targets, vec![s("x")]);
    let (_, targets) = split_rm_args(&vec![]);
    assert!(targets.is_empty());
}

#[test]
fn date_patterns() {
    assert_eq!(date_pattern(1000, 900), "%b %d %H:%M");
    assert_eq!(date_pattern(100_000_000, 0), "%b %d  %Y");
    assert_eq!(date_pattern(0, 10), "%b %d  %Y");
}

#[test]
fn listing_layout_rules() {
    assert!(!show_headers(0, 1, 0));
    assert!(show_headers(1, 1, 0));
    assert!(show_headers(0, 2, 0));
    assert!(show_headers(0, 1, 1));
    assert!(!blank_before_dir(0, 0));
    assert!(blank_before_dir(0, 1));
    assert!(blank_before_dir(2, 0));
}
