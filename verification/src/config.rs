//! The one setting of a run: the root directory under which the
//! registered vector files lie.

use vstd::prelude::*;
use vstd::string::StringExecFns;
use crate::error::HarnessError;

verus! {

/// The texts of a list of arguments.
pub open spec fn argument_views(args: Seq<String>) -> Seq<Seq<char>> {
    args.map_values(|a: String| a@)
}

/// The root directory that a command line selects. The first argument is
/// the program's name. With nothing behind it the root is the working
/// directory; `--katdir` and a path select that path; every other form
/// is a usage error.
pub open spec fn selected_root(args: Seq<Seq<char>>) -> Result<Seq<char>, HarnessError> {
    if args.len() <= 1 {
        Ok("."@)
    } else if args.len() == 3 && args[1] == "--katdir"@ {
        Ok(args[2])
    } else {
        Err(HarnessError::UsageError)
    }
}

/// Reads the root directory off the command line.
pub fn root_directory(args: &Vec<String>) -> (r: Result<String, HarnessError>)
    ensures
        match selected_root(argument_views(args@)) {
            Ok(root) => r is Ok && r->Ok_0@ == root,
            Err(e) => r is Err && r->Err_0 == e,
        },
{
    if args.len() <= 1 {
        Ok(String::from_str("."))
    } else if args.len() == 3 && args[1] == String::from_str("--katdir") {
        Ok(args[2].clone())
    } else {
        Err(HarnessError::UsageError)
    }
}

} // verus!
