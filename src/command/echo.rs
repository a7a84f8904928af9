use vstd::prelude::*;

use crate::command::{Action, ActionModel, Command};

verus! {

/// The command that prints `message`.
pub fn echo(message: String) -> (r: Command)
    ensures
        r@ == ActionModel::Print(message@),
{
    Command::new(Action::Print(message))
}

} // verus!
