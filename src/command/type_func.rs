use vstd::prelude::*;

use crate::command::{
    is_builtin, is_builtin_name, result_view, Action, ActionModel, Command, CommandError,
    ErrorModel,
};
use crate::path_table::{find_path, PathTable};
use crate::text::{count_words, word_count};

verus! {

/// What `type param` does: tell whether `param` is a builtin, a program on
/// the search path (and where), or neither.
pub open spec fn type_spec(param: Seq<char>, paths: Seq<(Seq<char>, Seq<char>)>) -> Result<
    ActionModel,
    ErrorModel,
> {
    if param.len() == 0 {
        Err(ErrorModel::MissingArgument { command: "type"@ })
    } else if word_count(param) > 1 {
        Err(ErrorModel::TooManyArguments { command: "type"@ })
    } else if is_builtin(param) {
        Ok(ActionModel::Print(param + " is a shell builtin"@))
    } else {
        match find_path(paths, param) {
            Some(p) => Ok(ActionModel::Print(param + " is "@ + p)),
            None => Ok(ActionModel::Print(param + ": not found"@)),
        }
    }
}

/// The `type` builtin on its argument text `param`.
pub fn type_func_command(param: String, paths: &PathTable) -> (r: Result<Command, CommandError>)
    ensures
        result_view(r) == type_spec(param@, paths@),
{
    if param.unicode_len() == 0 {
        return Err(CommandError::MissingArgument { command: String::from_str("type") });
    }
    if count_words(param.as_str()) > 1 {
        return Err(CommandError::TooManyArguments { command: String::from_str("type") });
    }
    if is_builtin_name(param.as_str()) {
        Ok(Command::new(Action::Print(param.concat(" is a shell builtin"))))
    } else {
        match paths.lookup(param.as_str()) {
            Some(p) => Ok(Command::new(Action::Print(param.concat(" is ").concat(p.as_str())))),
            None => Ok(Command::new(Action::Print(param.concat(": not found")))),
        }
    }
}

} // verus!
