use vstd::prelude::*;

pub mod cd;
pub mod echo;
pub mod exit;
pub mod pwd;
pub mod type_func;

use crate::path_table::{find_path, opt_view, PathTable};
use crate::quotations::{parse_quotes, tokens_of, DoubleQuotes};
use crate::text::{
    is_whitespace, is_whitespace_char, join_with_spaces, join_words, str_eq, string_views,
};
use self::cd::{cd, cd_spec};
use self::echo::echo;
use self::exit::{exit_code_of, parse_exit_code};
use self::pwd::pwd;
use self::type_func::{type_func_command, type_spec};

verus! {

/// What running a resolved command does.
#[derive(Debug, PartialEq, Eq)]
pub enum Action {
    /// End the shell with this status.
    Exit(i32),
    /// Print this line.
    Print(String),
    /// Make this directory the working directory.
    ChangeDir(String),
    /// Run the program at this path with these arguments and print its output.
    Run { path: String, args: Vec<String> },
}

pub enum ActionModel {
    Exit(i32),
    Print(Seq<char>),
    ChangeDir(Seq<char>),
    Run { path: Seq<char>, args: Seq<Seq<char>> },
}

impl View for Action {
    type V = ActionModel;

    open spec fn view(&self) -> ActionModel {
        match self {
            Action::Exit(code) => ActionModel::Exit(*code),
            Action::Print(text) => ActionModel::Print(text@),
            Action::ChangeDir(dir) => ActionModel::ChangeDir(dir@),
            Action::Run { path, args } => ActionModel::Run {
                path: path@,
                args: string_views(args@),
            },
        }
    }
}

/// A resolved command line: a single-shot unit of work, run by `execute`.
#[derive(Debug, PartialEq, Eq)]
pub struct Command {
    action: Action,
}

impl View for Command {
    type V = ActionModel;

    closed spec fn view(&self) -> ActionModel {
        self.action@
    }
}

/// Why a command line could not be resolved.
#[derive(Debug, PartialEq, Eq)]
pub enum CommandError {
    MissingArgument { command: String },
    TooManyArguments { command: String },
    TooFewArguments { command: String },
    MissingFileOrDirectory { command: String, destination: String },
    NotFound { command: String },
}

pub enum ErrorModel {
    MissingArgument { command: Seq<char> },
    TooManyArguments { command: Seq<char> },
    TooFewArguments { command: Seq<char> },
    MissingFileOrDirectory { command: Seq<char>, destination: Seq<char> },
    NotFound { command: Seq<char> },
}

impl View for CommandError {
    type V = ErrorModel;

    open spec fn view(&self) -> ErrorModel {
        match self {
            CommandError::MissingArgument { command } => ErrorModel::MissingArgument {
                command: command@,
            },
            CommandError::TooManyArguments { command } => ErrorModel::TooManyArguments {
                command: command@,
            },
            CommandError::TooFewArguments { command } => ErrorModel::TooFewArguments {
                command: command@,
            },
            CommandError::MissingFileOrDirectory { command, destination } =>
                ErrorModel::MissingFileOrDirectory { command: command@, destination: destination@ },
            CommandError::NotFound { command } => ErrorModel::NotFound { command: command@ },
        }
    }
}

/// The line that reports `e`.
pub open spec fn message_of(e: ErrorModel) -> Seq<char> {
    match e {
        ErrorModel::MissingArgument { command } => command + ": missing argument."@,
        ErrorModel::TooManyArguments { command } => command + ": too many arguments."@,
        ErrorModel::TooFewArguments { command } => command + ": too few arguments."@,
        ErrorModel::MissingFileOrDirectory { command, destination } => command + ": "@
            + destination + ": No such file or directory"@,
        ErrorModel::NotFound { command } => command + ": command not found"@,
    }
}

impl CommandError {
    /// The line that reports this error.
    pub fn message(&self) -> (r: String)
        ensures
            r@ == message_of(self@),
    {
        match self {
            CommandError::MissingArgument { command } => command.clone().concat(
                ": missing argument.",
            ),
            CommandError::TooManyArguments { command } => command.clone().concat(
                ": too many arguments.",
            ),
            CommandError::TooFewArguments { command } => command.clone().concat(
                ": too few arguments.",
            ),
            CommandError::MissingFileOrDirectory { command, destination } => command.clone().concat(
                ": ",
            ).concat(destination.as_str()).concat(": No such file or directory"),
            CommandError::NotFound { command } => command.clone().concat(": command not found"),
        }
    }
}

pub open spec fn result_view(r: Result<Command, CommandError>) -> Result<ActionModel, ErrorModel> {
    match r {
        Ok(c) => Ok(c@),
        Err(e) => Err(e@),
    }
}

/// The outcome of resolving a line.
#[derive(Debug, PartialEq, Eq)]
pub enum Resolution {
    /// The command is ready to run.
    Ready(Command),
    /// The line names no command that can run as given.
    Rejected(CommandError),
    /// `cd` was asked for `~`, and no home directory is known.
    HomeUnset,
    /// `pwd` was asked for, and the working directory is not known.
    NoWorkingDirectory,
    /// `cd` to `target` (`destination` as typed, `~` expanded), pending
    /// whether it exists; `enter_directory` completes it.
    NeedsDirectory { destination: String, target: String },
}

pub enum ResolutionModel {
    Ready(ActionModel),
    Rejected(ErrorModel),
    HomeUnset,
    NoWorkingDirectory,
    NeedsDirectory { destination: Seq<char>, target: Seq<char> },
}

impl View for Resolution {
    type V = ResolutionModel;

    open spec fn view(&self) -> ResolutionModel {
        match self {
            Resolution::Ready(c) => ResolutionModel::Ready(c@),
            Resolution::Rejected(e) => ResolutionModel::Rejected(e@),
            Resolution::HomeUnset => ResolutionModel::HomeUnset,
            Resolution::NoWorkingDirectory => ResolutionModel::NoWorkingDirectory,
            Resolution::NeedsDirectory { destination, target } => ResolutionModel::NeedsDirectory {
                destination: destination@,
                target: target@,
            },
        }
    }
}

/// What resolution reads of the shell's surroundings.
pub struct Environment {
    /// The programs on the search path.
    pub paths: PathTable,
    /// The home directory, where one is set.
    pub home: Option<String>,
    /// The canonical working directory, where it could be found.
    pub cwd: Option<String>,
}

pub struct EnvModel {
    pub paths: Seq<(Seq<char>, Seq<char>)>,
    pub home: Option<Seq<char>>,
    pub cwd: Option<Seq<char>>,
}

impl View for Environment {
    type V = EnvModel;

    open spec fn view(&self) -> EnvModel {
        EnvModel { paths: self.paths@, home: opt_view(self.home), cwd: opt_view(self.cwd) }
    }
}

/// The names the shell answers itself.
pub open spec fn is_builtin(name: Seq<char>) -> bool {
    name == "type"@ || name == "exit"@ || name == "echo"@ || name == "cd"@ || name == "pwd"@
}

/// The first index from `i` on that does not hold whitespace.
pub open spec fn skip_whitespace_from(s: Seq<char>, i: int) -> int
    decreases s.len() - i,
{
    if 0 <= i < s.len() && is_whitespace(s[i]) {
        skip_whitespace_from(s, i + 1)
    } else {
        i
    }
}

/// The first index from `i` on that holds whitespace, or the length of `s`.
pub open spec fn next_whitespace_from(s: Seq<char>, i: int) -> int
    decreases s.len() - i,
{
    if 0 <= i < s.len() && !is_whitespace(s[i]) {
        next_whitespace_from(s, i + 1)
    } else {
        i
    }
}

/// `j` moved down past the whitespace that ends `s[..j]`, not below `lo`.
pub open spec fn trim_back(s: Seq<char>, lo: int, j: int) -> int
    decreases j - lo,
{
    if lo < j && 0 < j <= s.len() && is_whitespace(s[j - 1]) {
        trim_back(s, lo, j - 1)
    } else {
        j
    }
}

pub open spec fn name_start(line: Seq<char>) -> int {
    skip_whitespace_from(line, 0)
}

pub open spec fn name_end(line: Seq<char>) -> int {
    next_whitespace_from(line, name_start(line))
}

pub open spec fn rest_start(line: Seq<char>) -> int {
    skip_whitespace_from(line, name_end(line))
}

pub open spec fn rest_end(line: Seq<char>) -> int {
    trim_back(line, rest_start(line), line.len() as int)
}

/// The first word of `line`.
pub open spec fn command_name(line: Seq<char>) -> Seq<char> {
    line.subrange(name_start(line), name_end(line))
}

/// What follows the first word of `line`, without the whitespace round it.
pub open spec fn rest_of(line: Seq<char>) -> Seq<char> {
    line.subrange(rest_start(line), rest_end(line))
}

/// The argument tokens of `line`: the rest of it, tokenized.
pub open spec fn arguments(line: Seq<char>) -> Seq<Seq<char>> {
    tokens_of(rest_of(line), DoubleQuotes::Strip)
}

/// What resolving `line` in `env` gives.
pub open spec fn resolve_spec(line: Seq<char>, env: EnvModel) -> ResolutionModel {
    let name = command_name(line);
    let args = arguments(line);
    let text = join_words(args);
    if name == "exit"@ {
        ResolutionModel::Ready(ActionModel::Exit(exit_code_of(text)))
    } else if name == "echo"@ {
        ResolutionModel::Ready(ActionModel::Print(text))
    } else if name == "type"@ {
        match type_spec(text, env.paths) {
            Ok(a) => ResolutionModel::Ready(a),
            Err(e) => ResolutionModel::Rejected(e),
        }
    } else if name == "pwd"@ {
        match env.cwd {
            Some(cwd) => ResolutionModel::Ready(ActionModel::Print(cwd)),
            None => ResolutionModel::NoWorkingDirectory,
        }
    } else if name == "cd"@ {
        cd_spec(text, env.home)
    } else {
        match find_path(env.paths, name) {
            Some(path) => ResolutionModel::Ready(ActionModel::Run { path, args }),
            None => ResolutionModel::Rejected(ErrorModel::NotFound { command: name }),
        }
    }
}

/// Resolution has no side effects: resolving the same line twice in the
/// same surroundings gives equal results.
pub proof fn lemma_resolution_repeatable(
    line: Seq<char>,
    env: EnvModel,
    first: Resolution,
    second: Resolution,
)
    requires
        first@ == resolve_spec(line, env),
        second@ == resolve_spec(line, env),
    ensures
        first@ == second@,
{
}

/// Whether `name` is one of the builtins.
pub fn is_builtin_name(name: &str) -> (r: bool)
    ensures
        r == is_builtin(name@),
{
    str_eq(name, "type") || str_eq(name, "exit") || str_eq(name, "echo") || str_eq(name, "cd")
        || str_eq(name, "pwd")
}

impl Command {
    pub(crate) fn new(action: Action) -> (r: Command)
        ensures
            r@ == action@,
    {
        Command { action }
    }

    /// Consumes the command and hands over the action it stands for, for the
    /// caller to perform.
    pub fn execute(self) -> (r: Action)
        ensures
            r@ == self@,
    {
        self.action
    }

    /// Whether the search path holds a program called `bin`.
    pub fn binary_exists_on_path(bin: &str, paths: &PathTable) -> (r: bool)
        ensures
            r == (find_path(paths@, bin@) is Some),
    {
        paths.lookup(bin).is_some()
    }

    /// Resolves one input line: its first word names a builtin or a program
    /// on the search path, and the rest, trimmed and tokenized, gives the
    /// arguments.
    pub fn resolve(line: &str, env: &Environment) -> (r: Resolution)
        ensures
            r@ == resolve_spec(line@, env@),
    {
        let n = line.unicode_len();
        let mut i: usize = 0;
        while i < n && is_whitespace_char(line.get_char(i))
            invariant
                i <= n,
                n == line@.len(),
                skip_whitespace_from(line@, i as int) == name_start(line@),
            decreases n - i,
        {
            i = i + 1;
        }
        let start = i;
        while i < n && !is_whitespace_char(line.get_char(i))
            invariant
                start <= i <= n,
                n == line@.len(),
                start == name_start(line@),
                next_whitespace_from(line@, i as int) == name_end(line@),
            decreases n - i,
        {
            i = i + 1;
        }
        let end = i;
        while i < n && is_whitespace_char(line.get_char(i))
            invariant
                end <= i <= n,
                n == line@.len(),
                start == name_start(line@),
                end == name_end(line@),
                skip_whitespace_from(line@, i as int) == rest_start(line@),
            decreases n - i,
        {
            i = i + 1;
        }
        let mut j: usize = n;
        while j > i && is_whitespace_char(line.get_char(j - 1))
            invariant
                i <= j <= n,
                n == line@.len(),
                i == rest_start(line@),
                trim_back(line@, i as int, j as int) == rest_end(line@),
            decreases j - i,
        {
            j = j - 1;
        }
        let name = line.substring_char(start, end);
        let rest = line.substring_char(i, j);
        let tokens = parse_quotes(rest);
        let text = join_with_spaces(&tokens);
        if str_eq(name, "exit") {
            Resolution::Ready(Command::new(Action::Exit(parse_exit_code(text.as_str()))))
        } else if str_eq(name, "echo") {
            Resolution::Ready(echo(text))
        } else if str_eq(name, "type") {
            match type_func_command(text, &env.paths) {
                Ok(c) => Resolution::Ready(c),
                Err(e) => Resolution::Rejected(e),
            }
        } else if str_eq(name, "pwd") {
            match &env.cwd {
                Some(cwd) => Resolution::Ready(pwd(cwd.clone())),
                None => Resolution::NoWorkingDirectory,
            }
        } else if str_eq(name, "cd") {
            cd(text, &env.home)
        } else {
            match env.paths.lookup(name) {
                Some(path) => Resolution::Ready(Command::new(Action::Run { path, args: tokens })),
                None => Resolution::Rejected(CommandError::NotFound { command: name.to_owned() }),
            }
        }
    }
}

} // verus!
