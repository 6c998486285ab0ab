//! What the command line has to say.

use vstd::prelude::*;

verus! {

/// The path of the program to load, out of the arguments that the process
/// was started with, its own name first: the second of exactly two
/// arguments. With any other number of arguments there is none.
pub fn parse_file_path(args: Vec<String>) -> (path: Option<String>)
    ensures
        path == if args@.len() == 2 {
            Some(args@[1])
        } else {
            None
        },
{
    let mut args = args;
    if args.len() != 2 {
        return None;
    }
    Some(args.remove(1))
}

} // verus!
