//! What the command line says.

use vstd::prelude::*;

verus! {

/// The arguments of the command line.
#[derive(Debug)]
pub struct Cli {
    /// The directory to start in, where one was given.
    pub path: Option<String>,
}

/// The directory to start in when none is given: the current one.
pub open spec fn default_path() -> Seq<char> {
    seq!['.']
}

/// The directory to start in: the one that was given, else the current one.
pub fn parse(args: Cli) -> (path: String)
    ensures
        path@ == match args.path {
            Some(given) => given@,
            None => default_path(),
        },
{
    match args.path {
        Some(given) => given,
        None => {
            proof {
                reveal_strlit(".");
                assert("."@ =~= default_path());
            }
            String::from_str(".")
        },
    }
}

} // verus!
