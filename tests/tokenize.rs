use tiny_shell::parser::{execute_all, parse_input, resolve, CommandEnum, ParseResult};
use tiny_shell::tokenizer::{parse_tokens, quotes_balanced};

fn words(v: &[&str]) -> Vec<String> {
    v.iter().map(|s| s.to_string()).collect()
}

fn ready(input: &str) -> Vec<Vec<String>> {
    parse_tokens(input).expect("complete input")
}

#[test]
fn splits_words_on_blanks() {
    assert_eq!(ready("echo a b"), vec![words(&["echo", "a", "b"])]);
}

#[test]
fn single_quotes_keep_blanks() {
    assert_eq!(ready("echo 'a b'"), vec![words(&["echo", "a b"])]);
}

#[test]
fn open_double_quote_is_incomplete() {
    assert_eq!(parse_tokens("echo \"a"), Err("Incomplete".to_string()));
    assert!(matches!(parse_input("echo \"a"), ParseResult::Incomplete));
}

#[test]
fn double_ampersand_separates_groups() {
    assert_eq!(ready("a && b"), vec![words(&["a"]), words(&["b"])]);
}

#[test]
fn lone_ampersand_is_literal() {
    assert_eq!(ready("a & b"), vec![words(&["a", "&", "b"])]);
}

#[test]
fn trailing_backslash_is_incomplete() {
    assert!(parse_tokens("echo a\\").is_err());
    assert!(parse_tokens("echo 'abc").is_err());
    assert!(parse_tokens("echo \"x\\\"").is_err());
}

#[test]
fn balanced_inputs_are_ready() {
    for s in ["", "ls -la", "echo 'x' \"y\"", "a\\ b", "cd /tmp && pwd", "echo \"it's\""] {
        assert!(parse_tokens(s).is_ok(), "{s}");
    }
}

#[test]
fn escapes_outside_quotes() {
    assert_eq!(ready("a\\ b"), vec![words(&["a b"])]);
    assert_eq!(ready("\\'x"), vec![words(&["'x"])]);
}

#[test]
fn escapes_inside_double_quotes() {
    assert_eq!(ready("\"a\\\"b\""), vec![words(&["a\"b"])]);
    assert_eq!(ready("\"a\\\\b\""), vec![words(&["a\\b"])]);
    assert_eq!(ready("\"a\\nb\""), vec![words(&["a\\nb"])]);
}

#[test]
fn no_escapes_inside_single_quotes() {
    assert_eq!(ready("'a\\b'"), vec![words(&["a\\b"])]);
}

#[test]
fn empty_groups_are_dropped() {
    assert_eq!(ready("&& a &&"), vec![words(&["a"])]);
    assert_eq!(ready("   "), Vec::<Vec<String>>::new());
    assert_eq!(ready("ab&&cd"), vec![words(&["ab"]), words(&["cd"])]);
}

#[test]
fn quotes_join_adjacent_text() {
    assert_eq!(ready("a'b c'd"), vec![words(&["ab cd"])]);
}

#[test]
fn counts_quotes() {
    assert!(quotes_balanced("'a' \"b\""));
    assert!(!quotes_balanced("it's"));
    assert!(!quotes_balanced("\"x"));
    assert!(quotes_balanced(""));
}

#[test]
fn resolves_unknown_name() {
    match resolve(&words(&["foobar"])) {
        CommandEnum::Unknown(n) => assert_eq!(n, "foobar"),
        other => panic!("{other:?}"),
    }
}

#[test]
fn resolves_builtins() {
    assert!(matches!(resolve(&words(&["pwd"])), CommandEnum::Pwd));
    assert!(matches!(resolve(&words(&["exit"])), CommandEnum::Exit));
    assert!(matches!(resolve(&words(&["clear"])), CommandEnum::Unknown(n) if n == "clear"));
    match resolve(&words(&["cd", "a\nb"])) {
        CommandEnum::Cd(a) => assert_eq!(a, words(&["a\nb"])),
        other => panic!("{other:?}"),
    }
    match resolve(&words(&["echo", "a\nb"])) {
        CommandEnum::Echo(a) => assert_eq!(a, words(&["a\nb"])),
        other => panic!("{other:?}"),
    }
    match resolve(&words(&["mkdir", "x\ny"])) {
        CommandEnum::Mkdir(a) => assert_eq!(a, words(&["x\ny"])),
        other => panic!("{other:?}"),
    }
    assert!(matches!(resolve(&words(&["LS"])), CommandEnum::Unknown(_)));
}

#[test]
fn parses_chained_commands() {
    match parse_input("  ls -l && cd .. && frob  ") {
        ParseResult::Ready(cmds) => {
            assert_eq!(cmds.len(), 3);
            assert!(matches!(&cmds[0], CommandEnum::Ls(a) if *a == words(&["-l"])));
            assert!(matches!(&cmds[1], CommandEnum::Cd(a) if *a == words(&[".."])));
            assert!(matches!(&cmds[2], CommandEnum::Unknown(n) if n == "frob"));
        }
        ParseResult::Incomplete => panic!("incomplete"),
    }
}

#[test]
fn blank_input_is_ready_and_empty() {
    assert!(matches!(parse_input(" \t "), ParseResult::Ready(c) if c.is_empty()));
}

#[test]
fn escaped_trailing_blank_is_ready() {
    match parse_input("echo a\\ ") {
        ParseResult::Ready(cmds) => {
            assert!(matches!(&cmds[0], CommandEnum::Echo(a) if *a == words(&["a "])));
        }
        ParseResult::Incomplete => panic!("incomplete"),
    }
    assert!(matches!(parse_input("echo \\ "), ParseResult::Ready(_)));
    assert!(matches!(parse_input("echo \\"), ParseResult::Incomplete));
}

#[test]
fn raw_arguments_kept() {
    match parse_input("cd \"a\nb\"") {
        ParseResult::Ready(cmds) => {
            assert_eq!(cmds.len(), 1);
            assert!(matches!(&cmds[0], CommandEnum::Cd(a) if *a == words(&["a\nb"])));
        }
        ParseResult::Incomplete => panic!("incomplete"),
    }
}

#[test]
fn runs_up_to_first_exit() {
    let cmds = vec![CommandEnum::Pwd, CommandEnum::Exit, CommandEnum::Pwd];
    let (run, keep) = execute_all(cmds);
    assert!(!keep);
    assert_eq!(run.len(), 2);
    assert!(matches!(run[1], CommandEnum::Exit));
    let (run, keep) = execute_all(vec![CommandEnum::Pwd, CommandEnum::Unknown("clear".to_string())]);
    assert!(keep);
    assert_eq!(run.len(), 2);
}
