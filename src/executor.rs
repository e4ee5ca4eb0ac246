use crate::parser::CommandEnum;
use crate::pwd_state::{cd_plan_spec, CdPlanError, ChangeError, PwdState};
use crate::text::{escape_newlines, escape_newlines_spec, opt_view};
use crate::tokenizer::strings_view;
use vstd::prelude::*;
use vstd::string::*;

verus! {

/// What the session does to carry out one command.
#[derive(Debug)]
pub enum Action {
    /// Writes the line to standard output.
    Print(String),
    /// Writes the line to standard error.
    Report(String),
    /// Changes to the directory; the flag asks to show it once there.
    ChangeDir(String, bool),
    /// Makes each directory in turn; the second list names them for messages.
    MakeDirs(Vec<String>, Vec<String>),
    /// Hands the command to its builtin.
    Run(CommandEnum),
    /// Ends the session.
    Stop,
}

/// Each of `a` with its line feeds written as `\n`.
pub open spec fn escaped_all(a: Seq<Seq<char>>) -> Seq<Seq<char>> {
    a.map_values(|t: Seq<char>| escape_newlines_spec(t))
}

/// Each of `args` as it is shown in a message: line feeds written as `\n`.
pub fn escape_all(args: &Vec<String>) -> (r: Vec<String>)
    ensures
        strings_view(r@) == escaped_all(strings_view(args@)),
{
    let mut out: Vec<String> = Vec::new();
    let mut i: usize = 0;
    while i < args.len()
        invariant
            i <= args@.len(),
            out@.len() == i,
            forall|k: int| 0 <= k < i ==> (#[trigger] out@[k])@ == escape_newlines_spec(args@[k]@),
        decreases args@.len() - i,
    {
        out.push(escape_newlines(args[i].as_str()));
        i = i + 1;
    }
    assert(strings_view(out@) =~= escaped_all(strings_view(args@)));
    out
}

fn message(prefix: &str, detail: &str) -> (r: String)
    ensures
        r@ == prefix@ + escape_newlines_spec(detail@),
{
    let mut m = String::from_str(prefix);
    let e = escape_newlines(detail);
    m.append(e.as_str());
    m
}

/// `r` is what `cd` with arguments `args` takes from `st`, where `home` is
/// the value of `HOME`: a change of directory where one is picked, else the
/// reason why not.
pub open spec fn cd_action(
    args: Seq<String>,
    st: crate::pwd_state::PwdView,
    home: Option<Seq<char>>,
    r: Action,
) -> bool {
    match cd_plan_spec(st, strings_view(args), home) {
        Ok((t, shown)) => r matches Action::ChangeDir(t2, shown2) && t2@ == t && shown2 == shown,
        Err(CdPlanError::TooManyArguments) => r matches Action::Report(s) && s@
            == "cd: too many arguments"@,
        Err(CdPlanError::HomeNotSet) => r matches Action::Report(s) && s@
            == "cd: HOME environment variable not set"@,
    }
}

/// Decides what `cd` with arguments `path` takes: the directory to change
/// to, or the message that says why there is none. The state is not touched.
pub fn command_cd(path: Vec<String>, pwd_state: &PwdState, home: Option<String>) -> (r: Action)
    ensures
        cd_action(path@, pwd_state@, opt_view(home), r),
{
    match pwd_state.plan_cd(&path, home) {
        Ok((t, shown)) => Action::ChangeDir(t, shown),
        Err(CdPlanError::TooManyArguments) => Action::Report(
            String::from_str("cd: too many arguments"),
        ),
        Err(CdPlanError::HomeNotSet) => Action::Report(
            String::from_str("cd: HOME environment variable not set"),
        ),
    }
}

/// Decides what carrying out `cmd` takes, given the working directory state
/// and the value of `HOME`, if set.
pub fn execute(cmd: CommandEnum, pwd_state: &PwdState, home: Option<String>) -> (r: Action)
    ensures
        match cmd {
            CommandEnum::Pwd => r matches Action::Print(s) && s@ == escape_newlines_spec(
                pwd_state@.current,
            ),
            CommandEnum::Rm(a) => if a@.len() == 0 {
                r matches Action::Print(s) && s@ == "rm: missing operand"@
            } else {
                r == Action::Run(CommandEnum::Rm(a))
            },
            CommandEnum::Mkdir(a) => if a@.len() == 0 {
                r matches Action::Print(s) && s@ == "mkdir: missing operand"@
            } else {
                r matches Action::MakeDirs(d, shown) && d == a && strings_view(shown@)
                    == escaped_all(strings_view(a@))
            },
            CommandEnum::Cd(a) => cd_action(a@, pwd_state@, opt_view(home), r),
            CommandEnum::Exit => r == Action::Stop,
            CommandEnum::Unknown(n) => r matches Action::Report(s) && s@ == "command not found: "@
                + escape_newlines_spec(n@),
            _ => r == Action::Run(cmd),
        },
{
    match cmd {
        CommandEnum::Pwd => Action::Print(escape_newlines(pwd_state.get_current_dir().as_str())),
        CommandEnum::Rm(a) => {
            if a.len() == 0 {
                Action::Print(String::from_str("rm: missing operand"))
            } else {
                Action::Run(CommandEnum::Rm(a))
            }
        },
        CommandEnum::Mkdir(a) => {
            if a.len() == 0 {
                Action::Print(String::from_str("mkdir: missing operand"))
            } else {
                let shown = escape_all(&a);
                Action::MakeDirs(a, shown)
            }
        },
        CommandEnum::Cd(a) => command_cd(a, pwd_state, home),
        CommandEnum::Exit => Action::Stop,
        CommandEnum::Unknown(n) => Action::Report(message("command not found: ", n.as_str())),
        other => Action::Run(other),
    }
}

/// How a failed change of directory is reported, before the target's name.
pub open spec fn change_error_prefix(e: ChangeError) -> Seq<char> {
    match e {
        ChangeError::NotFound => "cd: No such file or directory: "@,
        ChangeError::PermissionDenied => "cd: Permission denied: "@,
        ChangeError::NotADirectory => "cd: Not a directory: "@,
        ChangeError::Other(_) => "cd: error: "@,
    }
}

/// Takes in the outcome of a change of directory to `target`: updates the
/// state, and returns the line to show, if any: the target on success where
/// `shown` asks for it, else the reason for the failure.
pub fn finish_cd(
    pwd_state: &mut PwdState,
    target: &String,
    shown: bool,
    outcome: Result<String, ChangeError>,
) -> (r: Option<Action>)
    ensures
        match outcome {
            Ok(dir) => final(pwd_state)@ == crate::pwd_state::changed_to(old(pwd_state)@, dir@)
                && if shown {
                r matches Some(Action::Print(s)) && s@ == escape_newlines_spec(target@)
            } else {
                r.is_none()
            },
            Err(e) => final(pwd_state)@ == old(pwd_state)@ && (r matches Some(Action::Report(s))
                && s@ == change_error_prefix(e) + escape_newlines_spec(target@)),
        },
{
    pwd_state.apply_change(&outcome);
    match outcome {
        Ok(_) => {
            if shown {
                Some(Action::Print(escape_newlines(target.as_str())))
            } else {
                None
            }
        },
        Err(ChangeError::NotFound) => Some(
            Action::Report(message("cd: No such file or directory: ", target.as_str())),
        ),
        Err(ChangeError::PermissionDenied) => Some(
            Action::Report(message("cd: Permission denied: ", target.as_str())),
        ),
        Err(ChangeError::NotADirectory) => Some(
            Action::Report(message("cd: Not a directory: ", target.as_str())),
        ),
        Err(ChangeError::Other(_)) => Some(
            Action::Report(message("cd: error: ", target.as_str())),
        ),
    }
}

} // verus!
