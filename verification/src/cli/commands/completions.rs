//! `attentio completions`: shell completions, which the tool does not offer yet.

use vstd::prelude::*;
use vstd::string::*;

verus! {

/// Execute the `completions` command: always refuses, naming the command as
/// not yet implemented, whatever the shell asked for.
pub fn execute(shell: &str) -> (r: Result<(), String>)
    ensures
        r matches Err(m) && m@ == "'completions' command is not yet implemented"@,
{
    let _ = shell;
    Err("'completions' command is not yet implemented".to_owned())
}

} // verus!
