use vstd::prelude::*;

use crate::command::{
    result_view, Action, ActionModel, Command, CommandError, ErrorModel, Resolution,
    ResolutionModel,
};
use crate::path_table::opt_view;
use crate::text::{count_words, word_count};

verus! {

/// What `cd destination` resolves to, with `home` the home directory.
pub open spec fn cd_spec(destination: Seq<char>, home: Option<Seq<char>>) -> ResolutionModel {
    if destination.len() == 0 {
        ResolutionModel::Rejected(ErrorModel::MissingArgument { command: "cd"@ })
    } else if word_count(destination) > 1 {
        ResolutionModel::Rejected(ErrorModel::TooManyArguments { command: "cd"@ })
    } else if destination[0] == '~' {
        match home {
            Some(h) => ResolutionModel::NeedsDirectory {
                destination,
                target: h + destination.skip(1),
            },
            None => ResolutionModel::HomeUnset,
        }
    } else {
        ResolutionModel::NeedsDirectory { destination, target: destination }
    }
}

/// What `cd` does once it is known whether `target` exists.
pub open spec fn enter_spec(destination: Seq<char>, target: Seq<char>, exists: bool) -> Result<
    ActionModel,
    ErrorModel,
> {
    if exists {
        Ok(ActionModel::ChangeDir(target))
    } else {
        Err(ErrorModel::MissingFileOrDirectory { command: "cd"@, destination })
    }
}

/// The `cd` builtin on its argument text: checks that there is exactly one
/// word and expands a leading `~` to `home`.
pub fn cd(destination: String, home: &Option<String>) -> (r: Resolution)
    ensures
        r@ == cd_spec(destination@, opt_view(*home)),
{
    let n = destination.unicode_len();
    if n == 0 {
        return Resolution::Rejected(CommandError::MissingArgument { command: String::from_str("cd") });
    }
    if count_words(destination.as_str()) > 1 {
        return Resolution::Rejected(
            CommandError::TooManyArguments { command: String::from_str("cd") },
        );
    }
    if destination.as_str().get_char(0) == '~' {
        match home {
            Some(h) => {
                let target = h.clone().concat(destination.as_str().substring_char(1, n));
                Resolution::NeedsDirectory { destination, target }
            },
            None => Resolution::HomeUnset,
        }
    } else {
        let target = destination.clone();
        Resolution::NeedsDirectory { destination, target }
    }
}

/// Completes `cd`: the command that enters `target` where it exists, else
/// the error that names `destination`.
pub fn enter_directory(destination: String, target: String, exists: bool) -> (r: Result<
    Command,
    CommandError,
>)
    ensures
        result_view(r) == enter_spec(destination@, target@, exists),
{
    if exists {
        Ok(Command::new(Action::ChangeDir(target)))
    } else {
        Err(CommandError::MissingFileOrDirectory { command: String::from_str("cd"), destination })
    }
}

} // verus!
