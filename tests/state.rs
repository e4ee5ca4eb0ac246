use tiny_shell::cat_input::{CatAction, CatLine};
use tiny_shell::executor::{command_cd, execute, finish_cd, Action};
use tiny_shell::history::History;
use tiny_shell::parser::CommandEnum;
use tiny_shell::pwd_state::{CdPlanError, ChangeError, PwdState};
use tiny_shell::session::{Key, Reaction, Session};

fn s(x: &str) -> String {
    x.to_string()
}

#[test]
fn history_keeps_repeated_line_once() {
    let mut h = History::new();
    h.push(&s("ls"));
    h.push(&s("ls"));
    assert_eq!(h.len(), 1);
    h.push(&s("pwd"));
    assert_eq!(h.len(), 2);
    assert_eq!(h.get(0), Some(s("ls")));
    assert_eq!(h.get(1), Some(s("pwd")));
    h.push(&s("ls"));
    assert_eq!(h.len(), 3);
}

#[test]
fn history_record_skips_blank_and_multiline() {
    let mut h = History::new();
    h.record(&s("   "));
    h.record(&s("echo 'a\nb'"));
    assert_eq!(h.len(), 0);
    h.record(&s("ls"));
    assert_eq!(h.len(), 1);
    assert_eq!(h.index(), 1);
}

#[test]
fn history_navigation_is_clamped() {
    let mut h = History::new();
    h.record(&s("a"));
    h.record(&s("b"));
    assert_eq!(h.down(), None);
    assert_eq!(h.up(), Some(s("b")));
    assert_eq!(h.up(), Some(s("a")));
    assert_eq!(h.up(), None);
    assert_eq!(h.index(), 0);
    assert_eq!(h.down(), Some(s("b")));
    assert_eq!(h.down(), Some(s("")));
    assert_eq!(h.down(), None);
    assert_eq!(h.index(), 2);
}

#[test]
fn cd_back_restores_previous_directory() {
    let mut st = PwdState::new(s("/home/u"), s("/home/u"));
    let (target, shown) = st.plan_cd(&vec![s("/tmp")], Some(s("/home/u"))).unwrap();
    assert_eq!(target, "/tmp");
    assert!(!shown);
    assert!(finish_cd(&mut st, &target, shown, Ok(s("/tmp"))).is_none());
    let (target, shown) = st.plan_cd(&vec![s("-")], Some(s("/home/u"))).unwrap();
    assert_eq!(target, "/home/u");
    assert!(shown);
    match finish_cd(&mut st, &target, shown, Ok(s("/home/u"))) {
        Some(Action::Print(m)) => assert_eq!(m, "/home/u"),
        other => panic!("{other:?}"),
    }
    assert_eq!(st.get_current_dir(), "/home/u");
    assert_eq!(st.get_previous_dir(), "/tmp");
}

#[test]
fn cd_without_home_is_a_configuration_error() {
    let st = PwdState::new(s("/a"), s("/b"));
    assert_eq!(st.plan_cd(&vec![], None), Err(CdPlanError::HomeNotSet));
    assert_eq!(st.plan_cd(&vec![s("~")], None), Err(CdPlanError::HomeNotSet));
    match execute(CommandEnum::Cd(vec![]), &st, None) {
        Action::Report(m) => assert_eq!(m, "cd: HOME environment variable not set"),
        other => panic!("{other:?}"),
    }
    assert_eq!(st.get_current_dir(), "/a");
    assert_eq!(st.get_previous_dir(), "/b");
}

#[test]
fn cd_plans() {
    let st = PwdState::new(s("/a"), s("/b"));
    assert_eq!(st.plan_cd(&vec![], Some(s("/h"))), Ok((s("/h"), false)));
    assert_eq!(st.plan_cd(&vec![s("x"), s("y")], Some(s("/h"))), Err(CdPlanError::TooManyArguments));
    assert_eq!(st.plan_cd(&vec![s("rel")], None), Ok((s("rel"), false)));
}

#[test]
fn failed_change_keeps_state_and_reports() {
    let mut st = PwdState::new(s("/a"), s("/b"));
    let cases = [
        (ChangeError::NotFound, "cd: No such file or directory: /x\\ny"),
        (ChangeError::PermissionDenied, "cd: Permission denied: /x\\ny"),
        (ChangeError::NotADirectory, "cd: Not a directory: /x\\ny"),
        (ChangeError::Other(s("boom")), "cd: error: /x\\ny"),
    ];
    for (e, want) in cases {
        match finish_cd(&mut st, &s("/x\ny"), false, Err(e)) {
            Some(Action::Report(m)) => assert_eq!(m, want),
            other => panic!("{other:?}"),
        }
        assert_eq!(st.get_current_dir(), "/a");
        assert_eq!(st.get_previous_dir(), "/b");
    }
}

#[test]
fn set_states_replaces_both() {
    let mut st = PwdState::new(s("/a"), s("/b"));
    st.set_states(s("/c"), s("/d"));
    assert_eq!(st.get_current_dir(), "/c");
    assert_eq!(st.get_previous_dir(), "/d");
}

#[test]
fn dispatch_decisions() {
    let st = PwdState::new(s("/a\nb"), s("/"));
    assert!(matches!(execute(CommandEnum::Pwd, &st, None), Action::Print(m) if m == "/a\\nb"));
    assert!(matches!(execute(CommandEnum::Exit, &st, None), Action::Stop));
    assert!(matches!(execute(CommandEnum::Rm(vec![]), &st, None), Action::Print(m) if m == "rm: missing operand"));
    assert!(matches!(execute(CommandEnum::Rm(vec![s("f")]), &st, None), Action::Run(CommandEnum::Rm(_))));
    assert!(matches!(execute(CommandEnum::Mkdir(vec![]), &st, None), Action::Print(m) if m == "mkdir: missing operand"));
    assert!(matches!(execute(CommandEnum::Mkdir(vec![s("d\ne")]), &st, None), Action::MakeDirs(d, shown) if d == vec![s("d\ne")] && shown == vec![s("d\\ne")]));
    assert!(matches!(execute(CommandEnum::Unknown(s("fo\no")), &st, None), Action::Report(m) if m == "command not found: fo\\no"));
    assert!(matches!(execute(CommandEnum::Cd(vec![s("-")]), &st, None), Action::ChangeDir(t, true) if t == "/"));
    assert!(matches!(execute(CommandEnum::Cd(vec![s("a"), s("b")]), &st, None), Action::Report(m) if m == "cd: too many arguments"));
    assert!(matches!(execute(CommandEnum::Ls(vec![]), &st, None), Action::Run(CommandEnum::Ls(_))));
}

fn feed(session: &mut Session, history: &mut History, keys: &[Key]) -> Vec<Reaction> {
    keys.iter().map(|k| session.handle_key(*k, history)).collect()
}

#[test]
fn editing_keeps_cursor_in_bounds() {
    let mut se = Session::new();
    let mut h = History::new();
    let keys = [
        Key::Left,
        Key::Backspace,
        Key::Char('a'),
        Key::Char('é'),
        Key::Char('日'),
        Key::Left,
        Key::Left,
        Key::Char('x'),
        Key::Right,
        Key::Right,
        Key::Right,
        Key::Backspace,
        Key::Left,
        Key::Left,
        Key::Left,
        Key::Left,
        Key::Backspace,
    ];
    for k in keys {
        se.handle_key(k, &mut h);
        assert!(se.cursor() <= se.current_line().chars().count());
    }
    assert_eq!(se.buffer(), "axé");
    assert_eq!(se.cursor(), 0);
}

#[test]
fn enter_runs_commands_and_records_history() {
    let mut se = Session::new();
    let mut h = History::new();
    for c in "pwd && exit".chars() {
        se.handle_key(Key::Char(c), &mut h);
    }
    match se.handle_key(Key::Enter, &mut h) {
        Reaction::Execute(cmds) => {
            assert_eq!(cmds.len(), 2);
            assert!(matches!(cmds[0], CommandEnum::Pwd));
        }
        other => panic!("{other:?}"),
    }
    assert_eq!(se.buffer(), "");
    assert_eq!(h.len(), 1);
    assert_eq!(h.get(0), Some(s("pwd && exit")));
}

#[test]
fn incomplete_entry_continues() {
    let mut se = Session::new();
    let mut h = History::new();
    feed(&mut se, &mut h, &[Key::Char('e'), Key::Char('\''), Key::Char('a')]);
    assert!(matches!(se.handle_key(Key::Enter, &mut h), Reaction::Continue));
    assert!(se.is_continuing());
    assert_eq!(se.buffer(), "e'a\n");
    assert_eq!(se.current_line(), "");
    assert_eq!(se.cursor(), 0);
    feed(&mut se, &mut h, &[Key::Char('b'), Key::Char('\'')]);
    match se.handle_key(Key::Enter, &mut h) {
        Reaction::Execute(cmds) => {
            assert!(matches!(&cmds[0], CommandEnum::Unknown(n) if n == "ea\nb"));
        }
        other => panic!("{other:?}"),
    }
    assert!(!se.is_continuing());
    assert_eq!(h.len(), 0);
}

#[test]
fn interrupt_records_and_clears() {
    let mut se = Session::new();
    let mut h = History::new();
    feed(&mut se, &mut h, &[Key::Char('l'), Key::Char('s')]);
    assert!(matches!(se.handle_key(Key::Interrupt, &mut h), Reaction::Interrupted));
    assert_eq!(se.buffer(), "");
    assert_eq!(h.get(0), Some(s("ls")));
    feed(&mut se, &mut h, &[Key::Char('l'), Key::Char('s')]);
    se.handle_key(Key::Interrupt, &mut h);
    assert_eq!(h.len(), 1);
}

#[test]
fn history_keys_replace_the_line() {
    let mut se = Session::new();
    let mut h = History::new();
    h.record(&s("first"));
    h.record(&s("second"));
    assert!(matches!(se.handle_key(Key::Up, &mut h), Reaction::RedrawLine));
    assert_eq!(se.buffer(), "second");
    assert_eq!(se.cursor(), 6);
    se.handle_key(Key::Up, &mut h);
    assert_eq!(se.buffer(), "first");
    assert!(matches!(se.handle_key(Key::Up, &mut h), Reaction::Nothing));
    se.handle_key(Key::Down, &mut h);
    se.handle_key(Key::Down, &mut h);
    assert_eq!(se.buffer(), "");
    assert_eq!(se.cursor(), 0);
    assert!(matches!(se.handle_key(Key::EndOfInput, &mut h), Reaction::Quit));
    assert!(matches!(se.handle_key(Key::Other, &mut h), Reaction::Nothing));
}

#[test]
fn cd_decisions() {
    let st = PwdState::new(s("/a"), s("/b"));
    assert!(matches!(command_cd(vec![], &st, Some(s("/h"))), Action::ChangeDir(t, false) if t == "/h"));
    assert!(matches!(command_cd(vec![s("~")], &st, Some(s("/h"))), Action::ChangeDir(t, false) if t == "/h"));
    assert!(matches!(command_cd(vec![s("-")], &st, None), Action::ChangeDir(t, true) if t == "/b"));
    assert!(matches!(command_cd(vec![s("x")], &st, None), Action::ChangeDir(t, false) if t == "x"));
    assert!(matches!(command_cd(vec![], &st, None), Action::Report(m) if m == "cd: HOME environment variable not set"));
}

#[test]
fn cat_copies_keyboard_lines() {
    let mut line = CatLine::new();
    assert!(matches!(line.handle_key(Key::Backspace), CatAction::Nothing));
    assert!(matches!(line.handle_key(Key::Char('h')), CatAction::Echo('h')));
    assert!(matches!(line.handle_key(Key::Char('x')), CatAction::Echo('x')));
    assert!(matches!(line.handle_key(Key::Backspace), CatAction::Erase));
    assert!(matches!(line.handle_key(Key::Char('i')), CatAction::Echo('i')));
    assert!(matches!(line.handle_key(Key::Enter), CatAction::Line(t) if t == "hi"));
    assert!(matches!(line.handle_key(Key::Enter), CatAction::Line(t) if t.is_empty()));
    assert!(matches!(line.handle_key(Key::Up), CatAction::Nothing));
    assert!(matches!(line.handle_key(Key::Interrupt), CatAction::Stop(true)));
    assert!(matches!(line.handle_key(Key::EndOfInput), CatAction::Stop(false)));
}

#[test]
fn raw_mode_line_ends() {
    assert_eq!(tiny_shell::text::with_crlf("a\nb\n"), "a\r\nb\r\n");
    assert_eq!(tiny_shell::text::with_crlf(""), "");
}

#[test]
fn cursor_column_counts_display_width() {
    let mut se = Session::new();
    let mut h = History::new();
    feed(&mut se, &mut h, &[Key::Char('a'), Key::Char('日'), Key::Char('é')]);
    assert_eq!(se.cursor(), 3);
    assert_eq!(se.cursor_column(), 4);
    se.handle_key(Key::Left, &mut h);
    assert_eq!(se.cursor_column(), 3);
    se.handle_key(Key::Left, &mut h);
    assert_eq!(se.cursor_column(), 1);
    assert_eq!(tiny_shell::text::text_width("日本 x"), 6);
    assert_eq!(tiny_shell::text::text_width("a\u{7}b"), 2);
}
