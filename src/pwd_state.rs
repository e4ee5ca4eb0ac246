use crate::text::{opt_view, same_text};
use crate::tokenizer::strings_view;
use vstd::prelude::*;
use vstd::string::*;

verus! {

/// The session's working directory and the one it held before the last
/// successful change.
pub struct PwdState {
    current: String,
    previous: String,
}

/// A `PwdState` as values.
pub struct PwdView {
    pub current: Seq<char>,
    pub previous: Seq<char>,
}

impl View for PwdState {
    type V = PwdView;

    closed spec fn view(&self) -> PwdView {
        PwdView { current: self.current@, previous: self.previous@ }
    }
}

/// Why `cd` did not pick a directory to go to.
#[derive(Clone, Copy, PartialEq, Eq, Structural, Debug)]
pub enum CdPlanError {
    TooManyArguments,
    /// `HOME` is not set, so there is no home directory to go to.
    HomeNotSet,
}

/// Why the system refused to change to a directory.
#[derive(Debug)]
pub enum ChangeError {
    NotFound,
    PermissionDenied,
    NotADirectory,
    Other(String),
}

/// Where `cd` with arguments `args` goes from `st`, and whether it shows the
/// target; `home` is the value of `HOME`, if set.
pub open spec fn cd_plan_spec(st: PwdView, args: Seq<Seq<char>>, home: Option<Seq<char>>) -> Result<
    (Seq<char>, bool),
    CdPlanError,
> {
    if args.len() > 1 {
        Err(CdPlanError::TooManyArguments)
    } else if args.len() == 0 || args[0] == "~"@ {
        match home {
            Some(h) => Ok((h, false)),
            None => Err(CdPlanError::HomeNotSet),
        }
    } else if args[0] == "-"@ {
        Ok((st.previous, true))
    } else {
        Ok((args[0], false))
    }
}

/// The state after a successful change to `dir`.
pub open spec fn changed_to(st: PwdView, dir: Seq<char>) -> PwdView {
    PwdView { current: dir, previous: st.current }
}

impl PwdState {
    pub fn new(current: String, previous: String) -> (r: PwdState)
        ensures
            r@.current == current@,
            r@.previous == previous@,
    {
        PwdState { current, previous }
    }

    pub fn get_current_dir(&self) -> (r: String)
        ensures
            r@ == self@.current,
    {
        self.current.clone()
    }

    pub fn get_previous_dir(&self) -> (r: String)
        ensures
            r@ == self@.previous,
    {
        self.previous.clone()
    }

    pub fn set_states(&mut self, current: String, previous: String)
        ensures
            final(self)@.current == current@,
            final(self)@.previous == previous@,
    {
        self.current = current;
        self.previous = previous;
    }

    /// Picks the directory that `cd` with arguments `args` goes to: `HOME`
    /// for none or `~`, the previous directory (shown once reached) for `-`,
    /// else the argument itself. The state is not touched.
    pub fn plan_cd(&self, args: &Vec<String>, home: Option<String>) -> (r: Result<
        (String, bool),
        CdPlanError,
    >)
        ensures
            match (r, cd_plan_spec(self@, strings_view(args@), opt_view(home))) {
                (Ok((t, shown)), Ok((t2, shown2))) => t@ == t2 && shown == shown2,
                (Err(e), Err(e2)) => e == e2,
                _ => false,
            },
    {
        let ghost sv = strings_view(args@);
        if args.len() > 1 {
            return Err(CdPlanError::TooManyArguments);
        }
        if args.len() == 0 || same_text(args[0].as_str(), "~") {
            return match home {
                Some(h) => Ok((h, false)),
                None => Err(CdPlanError::HomeNotSet),
            };
        }
        assert(sv[0] == args@[0]@);
        if same_text(args[0].as_str(), "-") {
            Ok((self.previous.clone(), true))
        } else {
            Ok((args[0].clone(), false))
        }
    }

    /// Takes in the outcome of changing directory: on success the system's
    /// name for the new directory becomes current and the old current becomes
    /// previous; on failure nothing changes.
    pub fn apply_change(&mut self, outcome: &Result<String, ChangeError>)
        ensures
            match outcome {
                Ok(dir) => final(self)@ == changed_to(old(self)@, dir@),
                Err(_) => final(self)@ == old(self)@,
            },
    {
        if let Ok(dir) = outcome {
            let mut before = dir.clone();
            std::mem::swap(&mut before, &mut self.current);
            self.previous = before;
        }
    }
}

/// Going back with `cd -` after a change undoes it: the directory left
/// becomes current again, and the one just left becomes previous. Here `dir`
/// is the directory first changed to, as the system names it, and the system
/// names the way back as it was named before.
pub proof fn lemma_cd_back_restores(st: PwdView, dir: Seq<char>, home: Option<Seq<char>>)
    ensures
        cd_plan_spec(changed_to(st, dir), seq![seq!['-']], home) == Ok::<(Seq<char>, bool), CdPlanError>((st.current, true)),
        changed_to(changed_to(st, dir), st.current) == (PwdView { current: st.current, previous: dir }),
{
    reveal_strlit("~");
    reveal_strlit("-");
    assert(seq!['-'][0] != "~"@[0]);
    assert(seq!['-'] =~= "-"@);
}

} // verus!
