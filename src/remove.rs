use crate::text::same_text;
use crate::tokenizer::strings_view;
use vstd::prelude::*;
use vstd::string::*;

verus! {

pub open spec fn is_option(a: Seq<char>) -> bool {
    a.len() > 0 && a[0] == '-'
}

pub open spec fn asks_recursive(args: Seq<Seq<char>>) -> bool {
    exists|k: int| 0 <= k < args.len() && (#[trigger] args[k] == seq!['-', 'r'] || args[k] == seq!['-', 'R'])
}

/// `args` without the options, in order.
pub open spec fn operands(args: Seq<Seq<char>>) -> Seq<Seq<char>>
    decreases args.len(),
{
    if args.len() == 0 {
        Seq::empty()
    } else if is_option(args.last()) {
        operands(args.drop_last())
    } else {
        operands(args.drop_last()).push(args.last())
    }
}

/// Reads the arguments of `rm`: whether `-r` or `-R` asks to remove
/// directories with their contents, and the paths to remove, which are the
/// arguments that do not start with `-`.
pub fn split_rm_args(args: &Vec<String>) -> (r: (bool, Vec<String>))
    ensures
        r.0 == asks_recursive(strings_view(args@)),
        strings_view(r.1@) == operands(strings_view(args@)),
{
    let ghost sv = strings_view(args@);
    let r_opt = "-r";
    let upper_opt = "-R";
    proof {
        reveal_strlit("-r");
        reveal_strlit("-R");
    }
    assert(r_opt@ =~= seq!['-', 'r']);
    assert(upper_opt@ =~= seq!['-', 'R']);
    let mut recursive = false;
    let mut targets: Vec<String> = Vec::new();
    let mut i: usize = 0;
    assert(strings_view(targets@) =~= operands(sv.take(0)));
    while i < args.len()
        invariant
            sv == strings_view(args@),
            r_opt@ == seq!['-', 'r'],
            upper_opt@ == seq!['-', 'R'],
            i <= args@.len(),
            recursive == asks_recursive(sv.take(i as int)),
            strings_view(targets@) == operands(sv.take(i as int)),
        decreases args@.len() - i,
    {
        let a = &args[i];
        let ghost t = sv.take(i + 1);
        assert(t.drop_last() =~= sv.take(i as int));
        assert(t.last() == a@);
        if same_text(a.as_str(), r_opt) || same_text(a.as_str(), upper_opt) {
            recursive = true;
            assert(t[i as int] == a@);
        }
        assert(asks_recursive(t) == (asks_recursive(sv.take(i as int)) || a@ == seq!['-', 'r']
            || a@ == seq!['-', 'R'])) by {
            if asks_recursive(t) {
                let k = choose|k: int|
                    0 <= k < t.len() && (#[trigger] t[k] == seq!['-', 'r'] || t[k] == seq!['-', 'R']);
                if k < i {
                    assert(sv.take(i as int)[k] == t[k]);
                }
            }
            if asks_recursive(sv.take(i as int)) {
                let k = choose|k: int|
                    0 <= k < i && (#[trigger] sv.take(i as int)[k] == seq!['-', 'r'] || sv.take(
                        i as int,
                    )[k] == seq!['-', 'R']);
                assert(t[k] == sv.take(i as int)[k]);
            }
        }
        if a.as_str().is_empty() || a.as_str().get_char(0) != '-' {
            let ghost before = targets@;
            targets.push(a.clone());
            assert(strings_view(targets@) =~= strings_view(before).push(a@));
        }
        i = i + 1;
    }
    assert(sv.take(args@.len() as int) == sv);
    (recursive, targets)
}

} // verus!
