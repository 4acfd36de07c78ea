//! The text the command line shows about the program.

use vstd::prelude::*;
use vstd::string::StringExecFns;

verus! {

/// The about text of the command line: what the program is.
pub fn clap_about() -> (s: String)
    ensures
        s@ == "storage service"@,
{
    String::from_str("storage service")
}

} // verus!
