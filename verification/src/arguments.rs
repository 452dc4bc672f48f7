//! The command line: `lpm`, `lpm -c COMMAND`, `lpm --help`, `lpm --server`.
use vstd::prelude::*;
use crate::text::{trim, split, join, chars_of, eq_str, trim_chars, split_chars, join_from, string_from};

verus! {

/// What the command line asks for.
pub enum ArgumentAction {
    /// No arguments: the interactive prompt.
    Tui,
    /// `-c` and a command to run once.
    Command(String),
    /// `--help`.
    Help,
    /// `--server`.
    Server,
    /// Anything else: an error.
    Invalid,
}

/// The arguments after the program name, joined with single spaces.
pub open spec fn joined_arguments(args: Seq<Seq<char>>) -> Seq<char> {
    join(args.skip(1))
}

/// The first space-separated piece of the arguments, trimmed (twice, as the
/// comparison trims it again).
pub open spec fn first_argument(arguments: Seq<char>) -> Seq<char> {
    trim(trim(split(arguments)[0]))
}

/// What follows the first piece, joined with single spaces and trimmed.
pub open spec fn command_argument(arguments: Seq<char>) -> Seq<char> {
    trim(join(split(arguments).skip(1)))
}

/// Classifies the command line; `args[0]` is the program name.
pub fn check_arguments(args: &Vec<String>) -> (res: ArgumentAction)
    requires
        args@.len() >= 1,
    ensures
        joined_arguments(args.deep_view()).len() == 0 <==> res is Tui,
        joined_arguments(args.deep_view()).len() > 0 ==> {
            let a = joined_arguments(args.deep_view());
            let first = first_argument(a);
            if first == "-c"@ {
                res is Command && res->Command_0@ == command_argument(a)
            } else if first == "--help"@ {
                res is Help
            } else if first == "--server"@ {
                res is Server
            } else {
                res is Invalid
            }
        },
{
    let ghost dv = args.deep_view();
    let mut pieces: Vec<Vec<char>> = Vec::new();
    let n = args.len();
    for i in 0..n
        invariant
            n == args@.len(),
            dv == args.deep_view(),
            pieces@.len() == i,
            forall|k: int| 0 <= k < i ==> (#[trigger] pieces@[k])@ == dv[k],
    {
        let piece = chars_of(args[i].as_str());
        assert(piece@ == dv[i as int]);
        pieces.push(piece);
    }
    assert(pieces.deep_view() =~= dv) by {
        assert forall|k: int| 0 <= k < n implies pieces.deep_view()[k] == dv[k] by {
            assert(pieces@[k]@ == dv[k]);
        }
    }
    let arguments = join_from(&pieces, 1);
    if arguments.len() == 0 {
        return ArgumentAction::Tui;
    }
    let parts = split_chars(&arguments);
    assert(parts[0]@ == split(arguments@)[0]);
    let first_piece = trim_chars(&parts[0]);
    let first = trim_chars(&first_piece);
    if eq_str(&first, "-c") {
        let rest = join_from(&parts, 1);
        let command = trim_chars(&rest);
        ArgumentAction::Command(string_from(&command))
    } else if eq_str(&first, "--help") {
        ArgumentAction::Help
    } else if eq_str(&first, "--server") {
        ArgumentAction::Server
    } else {
        ArgumentAction::Invalid
    }
}

} // verus!
