//! The command line: the spelling of `-reset` that is accepted as `--reset`,
//! and what a command does about resetting the day.

use vstd::prelude::*;
use vstd::string::*;
use crate::text::equals_word;

verus! {

/// `-reset`, the single-dash spelling of the reset flag.
pub open spec fn single_dash_reset() -> Seq<char> {
    seq!['-', 'r', 'e', 's', 'e', 't']
}

/// `--reset`, the reset flag.
pub open spec fn double_dash_reset() -> Seq<char> {
    seq!['-', '-', 'r', 'e', 's', 'e', 't']
}

/// `args` with every `-reset` after the program name spelled `--reset`.
pub open spec fn normalized(args: Seq<Seq<char>>) -> Seq<Seq<char>> {
    Seq::new(
        args.len(),
        |i: int|
            if i > 0 && args[i] == single_dash_reset() {
                double_dash_reset()
            } else {
                args[i]
            },
    )
}

/// The arguments as a parser sees them: `-reset` (after the program name)
/// becomes `--reset`, everything else is kept.
pub fn normalize_argv(argv: Vec<String>) -> (r: Vec<String>)
    ensures
        r@.map_values(|a: String| a@) == normalized(argv@.map_values(|a: String| a@)),
{
    let ghost args = argv@.map_values(|a: String| a@);
    let single = vec!['-', 'r', 'e', 's', 'e', 't'];
    assert(single@ =~= single_dash_reset());
    let n = argv.len();
    let mut out: Vec<String> = Vec::new();
    let mut i: usize = 0;
    while i < n
        invariant
            n == argv@.len(),
            args == argv@.map_values(|a: String| a@),
            single@ == single_dash_reset(),
            i <= n,
            out@.len() == i,
            forall|k: int| 0 <= k < i ==> (#[trigger] out@[k])@ == normalized(args)[k],
        decreases n - i,
    {
        if i > 0 && equals_word(argv[i].as_str(), &single) {
            let flag = "--reset";
            proof {
                reveal_strlit("--reset");
            }
            assert(flag@ =~= double_dash_reset());
            out.push(String::from_str(flag));
        } else {
            out.push(argv[i].clone());
        }
        i = i + 1;
    }
    assert(out@.map_values(|a: String| a@) =~= normalized(args));
    out
}

/// The subcommands.
#[derive(Debug)]
pub enum Command {
    /// Clear today's list and exit.
    Reset,
    /// Append a task for today.
    Add(String),
    /// Remove a task by its id.
    Delete(u64),
}

/// Today's list is cleared first: the reset flag was given, or the `reset`
/// subcommand.
pub fn reset_requested(reset_flag: bool, command: &Option<Command>) -> (r: bool)
    ensures
        r == (reset_flag || command matches Some(Command::Reset)),
{
    reset_flag || matches!(command, Some(Command::Reset))
}

/// The program is done once the reset is written: the `reset` subcommand, or
/// the reset flag with no subcommand. `add` and `delete` go on after a reset.
pub fn exits_after_reset(reset_flag: bool, command: &Option<Command>) -> (r: bool)
    ensures
        r == (command matches Some(Command::Reset) || (command is None && reset_flag)),
{
    match command {
        Some(Command::Reset) => true,
        None => reset_flag,
        _ => false,
    }
}

} // verus!
