use crate::text::same_text;
use crate::tokenizer::{
    groups_view, lemma_tokenize_groups_non_empty, parse_tokens, strings_view, tokenize,
};
use vstd::prelude::*;
use vstd::string::*;

verus! {

/// A command line resolved to the builtin it names, with its arguments.
#[derive(Debug)]
pub enum CommandEnum {
    Rm(Vec<String>),
    Cp(Vec<String>),
    Mv(Vec<String>),
    Pwd,
    Cd(Vec<String>),
    Echo(Vec<String>),
    Mkdir(Vec<String>),
    Exit,
    Unknown(String),
    Cat(Vec<String>),
    Ls(Vec<String>),
}

/// What one accepted input yields.
#[derive(Debug)]
pub enum ParseResult {
    Ready(Vec<CommandEnum>),
    /// The text ends inside a quote or on an escaping backslash: more is to come.
    Incomplete,
}

pub open spec fn is_builtin_name(name: Seq<char>) -> bool {
    name == "ls"@ || name == "cat"@ || name == "cp"@ || name == "mv"@ || name == "pwd"@ || name
        == "cd"@ || name == "echo"@ || name == "rm"@ || name == "mkdir"@ || name == "exit"@
}

/// `cmd` is what the argument vector `args` resolves to: its first element
/// picks the builtin by exact match, any other name giving `Unknown`; the
/// others are its arguments, as typed.
pub open spec fn resolves(args: Seq<Seq<char>>, cmd: CommandEnum) -> bool {
    let name = args[0];
    let rest = args.drop_first();
    match cmd {
        CommandEnum::Ls(a) => name == "ls"@ && strings_view(a@) == rest,
        CommandEnum::Cat(a) => name == "cat"@ && strings_view(a@) == rest,
        CommandEnum::Cp(a) => name == "cp"@ && strings_view(a@) == rest,
        CommandEnum::Mv(a) => name == "mv"@ && strings_view(a@) == rest,
        CommandEnum::Pwd => name == "pwd"@,
        CommandEnum::Cd(a) => name == "cd"@ && strings_view(a@) == rest,
        CommandEnum::Echo(a) => name == "echo"@ && strings_view(a@) == rest,
        CommandEnum::Rm(a) => name == "rm"@ && strings_view(a@) == rest,
        CommandEnum::Mkdir(a) => name == "mkdir"@ && strings_view(a@) == rest,
        CommandEnum::Exit => name == "exit"@,
        CommandEnum::Unknown(n) => !is_builtin_name(name) && n@ == name,
    }
}

/// The arguments after the first, as typed.
fn rest_of(args: &Vec<String>) -> (r: Vec<String>)
    requires
        args@.len() > 0,
    ensures
        strings_view(r@) == strings_view(args@).drop_first(),
{
    let mut out: Vec<String> = Vec::new();
    let mut i: usize = 1;
    while i < args.len()
        invariant
            1 <= i <= args@.len(),
            out@.len() == i - 1,
            forall|k: int| 0 <= k < i - 1 ==> (#[trigger] out@[k])@ == args@[k + 1]@,
        decreases args@.len() - i,
    {
        out.push(args[i].clone());
        i = i + 1;
    }
    assert(strings_view(out@) =~= strings_view(args@).drop_first());
    out
}

/// Resolves one argument vector to the command that its first element names.
pub fn resolve(args: &Vec<String>) -> (r: CommandEnum)
    requires
        args@.len() > 0,
    ensures
        resolves(strings_view(args@), r),
{
    let name = args[0].as_str();
    let ghost sv = strings_view(args@);
    assert(sv[0] == args@[0]@);
    if same_text(name, "ls") {
        CommandEnum::Ls(rest_of(args))
    } else if same_text(name, "cat") {
        CommandEnum::Cat(rest_of(args))
    } else if same_text(name, "cp") {
        CommandEnum::Cp(rest_of(args))
    } else if same_text(name, "mv") {
        CommandEnum::Mv(rest_of(args))
    } else if same_text(name, "pwd") {
        CommandEnum::Pwd
    } else if same_text(name, "cd") {
        CommandEnum::Cd(rest_of(args))
    } else if same_text(name, "echo") {
        CommandEnum::Echo(rest_of(args))
    } else if same_text(name, "rm") {
        CommandEnum::Rm(rest_of(args))
    } else if same_text(name, "mkdir") {
        CommandEnum::Mkdir(rest_of(args))
    } else if same_text(name, "exit") {
        CommandEnum::Exit
    } else {
        CommandEnum::Unknown(args[0].clone())
    }
}

/// `cmds` are the commands that the text `s` resolves to, one per argument
/// vector, in order.
pub open spec fn parses_to(s: Seq<char>, cmds: Seq<CommandEnum>) -> bool {
    match tokenize(s) {
        Some(g) => cmds.len() == g.len() && forall|k: int|
            0 <= k < g.len() ==> resolves(#[trigger] g[k], cmds[k]),
        None => false,
    }
}

/// Tokenizes the input and resolves each argument vector to a command.
pub fn parse_input(input: &str) -> (r: ParseResult)
    ensures
        match r {
            ParseResult::Ready(cmds) => parses_to(input@, cmds@),
            ParseResult::Incomplete => tokenize(input@).is_none(),
        },
{
    match parse_tokens(input) {
        Ok(groups) => {
            proof {
                lemma_tokenize_groups_non_empty(input@);
                assert(tokenize(input@).unwrap() == groups_view(groups@));
            }
            let ghost g = groups_view(groups@);
            let mut cmds: Vec<CommandEnum> = Vec::new();
            let mut i: usize = 0;
            while i < groups.len()
                invariant
                    g == groups_view(groups@),
                    tokenize(input@) == Some(g),
                    forall|k: int| 0 <= k < g.len() ==> #[trigger] g[k].len() > 0,
                    i <= groups@.len(),
                    cmds@.len() == i,
                    forall|k: int| 0 <= k < i ==> resolves(#[trigger] g[k], cmds@[k]),
                decreases groups@.len() - i,
            {
                assert(g[i as int] == strings_view(groups@[i as int]@));
                cmds.push(resolve(&groups[i]));
                i = i + 1;
            }
            ParseResult::Ready(cmds)
        },
        Err(_) => ParseResult::Incomplete,
    }
}

pub open spec fn is_exit(cmd: CommandEnum) -> bool {
    cmd matches CommandEnum::Exit
}

/// Decides which of `cmds` run: all of them in order, up to and including the
/// first `exit`. The flag tells whether the session goes on afterwards, that
/// is whether no `exit` was among them.
pub fn execute_all(cmds: Vec<CommandEnum>) -> (r: (Vec<CommandEnum>, bool))
    ensures
        r.1 == forall|k: int| 0 <= k < cmds@.len() ==> !is_exit(#[trigger] cmds@[k]),
        r.1 ==> r.0@ == cmds@,
        !r.1 ==> exists|k: int|
            0 <= k < cmds@.len() && is_exit(#[trigger] cmds@[k]) && (forall|j: int|
                0 <= j < k ==> !is_exit(#[trigger] cmds@[j])) && r.0@ == cmds@.take(k + 1),
{
    let mut i: usize = 0;
    while i < cmds.len()
        invariant
            i <= cmds@.len(),
            forall|j: int| 0 <= j < i ==> !is_exit(#[trigger] cmds@[j]),
        decreases cmds@.len() - i,
    {
        if let CommandEnum::Exit = &cmds[i] {
            let ghost k = i as int;
            let mut run = cmds;
            run.truncate(i + 1);
            assert(is_exit(cmds@[k]));
            return (run, false);
        }
        i = i + 1;
    }
    (cmds, true)
}

} // verus!
