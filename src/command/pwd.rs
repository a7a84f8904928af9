use vstd::prelude::*;

use crate::command::{Action, ActionModel, Command};

verus! {

/// The command that prints the working directory `cwd`.
pub fn pwd(cwd: String) -> (r: Command)
    ensures
        r@ == ActionModel::Print(cwd@),
{
    Command::new(Action::Print(cwd))
}

} // verus!
