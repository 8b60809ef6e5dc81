use vstd::prelude::*;
use vstd::string::StringExecFns;

verus! {

/// Why the command line could not be read.
#[derive(Clone, Copy, PartialEq, Eq, Structural, Debug)]
pub enum ArgsError {
    /// `-f` was the last argument, with no path after it.
    MissingPath,
}

/// The state file used when the command line names none.
pub open spec fn default_state_path() -> Seq<char> {
    "timer/main_timer.json"@
}

/// The index of the first `-f` at or after `i`.
pub open spec fn first_flag_from(args: Seq<Seq<char>>, i: int) -> Option<int>
    decreases args.len() - i,
{
    if i < 0 || i >= args.len() {
        None
    } else if args[i] == "-f"@ {
        Some(i)
    } else {
        first_flag_from(args, i + 1)
    }
}

/// The state file that the command line `args` names (the program's own
/// name first): the argument after the first `-f`; the default path when
/// there is no `-f`; an error when the first `-f` ends the line.
pub open spec fn state_path_of(args: Seq<Seq<char>>) -> Result<Seq<char>, ArgsError> {
    match first_flag_from(args, 1) {
        None => Ok(default_state_path()),
        Some(i) => if i + 1 < args.len() { Ok(args[i + 1]) } else { Err(ArgsError::MissingPath) },
    }
}

/// Reads the state file's path from the command line `args`, the program's
/// own name first.
pub fn parse_args(args: &Vec<String>) -> (r: Result<String, ArgsError>)
    ensures
        match state_path_of(args@.map_values(|a: String| a@)) {
            Ok(p) => r matches Ok(q) && q@ == p,
            Err(e) => r == Err::<String, ArgsError>(e),
        },
{
    let ghost v = args@.map_values(|a: String| a@);
    let flag = String::from_str("-f");
    let mut i: usize = 1;
    while i < args.len()
        invariant
            v == args@.map_values(|a: String| a@),
            flag@ == "-f"@,
            1 <= i,
            i <= args.len() || args.len() == 0,
            first_flag_from(v, 1) == first_flag_from(v, i as int),
        decreases args.len() - i,
    {
        assert(args[i as int]@ == v[i as int]);
        if args[i] == flag {
            if i + 1 < args.len() {
                assert(args[i as int + 1]@ == v[i + 1]);
                return Ok(args[i + 1].clone());
            } else {
                return Err(ArgsError::MissingPath);
            }
        }
        i = i + 1;
    }
    Ok(String::from_str("timer/main_timer.json"))
}

} // verus!
