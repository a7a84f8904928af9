use shell::command::cd::{cd, enter_directory};
use shell::command::exit::parse_exit_code;
use shell::command::{Action, Command, CommandError, Environment, Resolution};
use shell::path_table::{search_dirs, DirEntry, PathTable};
use shell::text::{count_words, join_with_spaces, split_at_char};

fn env_with(paths: PathTable) -> Environment {
    Environment { paths, home: Some("/home/u".to_string()), cwd: Some("/work".to_string()) }
}

fn bare_env() -> Environment {
    env_with(PathTable::new())
}

fn entry(name: &str, path: &str, is_file: bool) -> DirEntry {
    DirEntry { name: name.to_string(), path: path.to_string(), is_file }
}

fn ready(r: Resolution) -> Action {
    match r {
        Resolution::Ready(c) => c.execute(),
        other => panic!("not ready: {:?}", other),
    }
}

#[test]
fn cd_without_argument() {
    assert_eq!(
        Command::resolve("cd", &bare_env()),
        Resolution::Rejected(CommandError::MissingArgument { command: "cd".to_string() })
    );
}

#[test]
fn cd_with_two_arguments() {
    assert_eq!(
        Command::resolve("cd a b", &bare_env()),
        Resolution::Rejected(CommandError::TooManyArguments { command: "cd".to_string() })
    );
}

#[test]
fn cd_to_missing_directory() {
    let r = Command::resolve("cd /nonexistent", &bare_env());
    match r {
        Resolution::NeedsDirectory { destination, target } => {
            assert_eq!(destination, "/nonexistent");
            assert_eq!(target, "/nonexistent");
            assert_eq!(
                enter_directory(destination, target, false),
                Err(CommandError::MissingFileOrDirectory {
                    command: "cd".to_string(),
                    destination: "/nonexistent".to_string(),
                })
            );
        }
        other => panic!("unexpected {:?}", other),
    }
}

#[test]
fn cd_to_existing_directory() {
    let c = enter_directory("/tmp".to_string(), "/tmp".to_string(), true).unwrap();
    assert_eq!(c.execute(), Action::ChangeDir("/tmp".to_string()));
}

#[test]
fn cd_expands_leading_tilde() {
    assert_eq!(
        cd("~/src".to_string(), &Some("/home/u".to_string())),
        Resolution::NeedsDirectory {
            destination: "~/src".to_string(),
            target: "/home/u/src".to_string()
        }
    );
    assert_eq!(cd("~/src".to_string(), &None), Resolution::HomeUnset);
    assert_eq!(
        cd("/a~b".to_string(), &None),
        Resolution::NeedsDirectory { destination: "/a~b".to_string(), target: "/a~b".to_string() }
    );
}

#[test]
fn type_of_builtin() {
    assert_eq!(
        ready(Command::resolve("type cd", &bare_env())),
        Action::Print("cd is a shell builtin".to_string())
    );
}

#[test]
fn type_of_missing_program_is_not_an_error() {
    assert_eq!(
        ready(Command::resolve("type definitely_missing_xyz", &bare_env())),
        Action::Print("definitely_missing_xyz: not found".to_string())
    );
}

#[test]
fn echo_collapses_whitespace() {
    assert_eq!(
        ready(Command::resolve("echo  hello   world", &bare_env())),
        Action::Print("hello world".to_string())
    );
}

#[test]
fn echo_keeps_quoted_spaces() {
    assert_eq!(
        ready(Command::resolve("echo 'a   b'  c", &bare_env())),
        Action::Print("a   b c".to_string())
    );
    assert_eq!(ready(Command::resolve("echo", &bare_env())), Action::Print(String::new()));
}

#[test]
fn resolving_twice_gives_equal_results() {
    let env = env_with(PathTable::from_entries(&vec![entry("ls", "/bin/ls", true)]));
    for line in ["echo  a b", "cd", "cd /x", "type ls", "ls -l", "nope", "exit 3", "pwd"] {
        assert_eq!(Command::resolve(line, &env), Command::resolve(line, &env));
    }
}

#[test]
fn unknown_command_with_empty_path() {
    let dirs = search_dirs(Some(String::new()));
    assert_eq!(dirs, vec![String::new()]);
    assert_eq!(
        Command::resolve("unknown_cmd_xyz", &bare_env()),
        Resolution::Rejected(CommandError::NotFound { command: "unknown_cmd_xyz".to_string() })
    );
}

#[test]
fn program_on_path_runs_with_tokens() {
    let env = env_with(PathTable::from_entries(&vec![entry("grep", "/usr/bin/grep", true)]));
    assert_eq!(
        ready(Command::resolve("  grep -n 'a b' file", &env)),
        Action::Run {
            path: "/usr/bin/grep".to_string(),
            args: vec!["-n".to_string(), "a b".to_string(), "file".to_string()],
        }
    );
}

#[test]
fn pwd_prints_working_directory() {
    assert_eq!(ready(Command::resolve("pwd", &bare_env())), Action::Print("/work".to_string()));
}

#[test]
fn exit_codes() {
    assert_eq!(ready(Command::resolve("exit 3", &bare_env())), Action::Exit(3));
    assert_eq!(ready(Command::resolve("exit", &bare_env())), Action::Exit(0));
    assert_eq!(ready(Command::resolve("exit abc", &bare_env())), Action::Exit(0));
    assert_eq!(parse_exit_code("-2147483648"), -2147483648);
    assert_eq!(parse_exit_code("2147483647"), 2147483647);
    assert_eq!(parse_exit_code("2147483648"), 0);
    assert_eq!(parse_exit_code("+7"), 7);
    assert_eq!(parse_exit_code("-"), 0);
    assert_eq!(parse_exit_code("1x"), 0);
    assert_eq!(parse_exit_code("99999999999999999999"), 0);
}

#[test]
fn first_directory_wins() {
    let table = PathTable::from_entries(&vec![
        entry("tool", "/a/tool", false),
        entry("tool", "/b/tool", true),
        entry("tool", "/c/tool", true),
    ]);
    assert_eq!(table.lookup("tool"), Some("/b/tool".to_string()));
    assert_eq!(table.lookup("other"), None);
    assert!(Command::binary_exists_on_path("tool", &table));
    assert!(!Command::binary_exists_on_path("other", &table));
}

#[test]
fn search_path_splitting() {
    assert_eq!(search_dirs(None), vec!["/bin", "/usr/bin"]);
    assert_eq!(search_dirs(Some("/x::/y".to_string())), vec!["/x", "", "/y"]);
    assert_eq!(split_at_char("a:b:", ':'), vec!["a", "b", ""]);
}

#[test]
fn joining_tokens() {
    assert_eq!(join_with_spaces(&vec!["a".to_string(), "b c".to_string()]), "a b c");
    assert_eq!(join_with_spaces(&vec![]), "");
}

#[test]
fn tab_separates_command_from_arguments() {
    let env = env_with(PathTable::from_entries(&vec![entry("ls", "/bin/ls", true)]));
    assert_eq!(
        ready(Command::resolve("ls\tx", &env)),
        Action::Run { path: "/bin/ls".to_string(), args: vec!["x".to_string()] }
    );
}

#[test]
fn rest_of_line_is_trimmed() {
    assert_eq!(ready(Command::resolve("echo \tx", &bare_env())), Action::Print("x".to_string()));
    assert_eq!(
        ready(Command::resolve("\t echo x \t\r", &bare_env())),
        Action::Print("x".to_string())
    );
}

#[test]
fn cd_counts_words_at_any_whitespace() {
    assert_eq!(
        cd("a\tb".to_string(), &None),
        Resolution::Rejected(CommandError::TooManyArguments { command: "cd".to_string() })
    );
}

#[test]
fn pwd_without_working_directory() {
    let env = Environment { paths: PathTable::new(), home: None, cwd: None };
    assert_eq!(Command::resolve("pwd", &env), Resolution::NoWorkingDirectory);
}

#[test]
fn counting_words() {
    assert_eq!(count_words(""), 0);
    assert_eq!(count_words(" \t "), 0);
    assert_eq!(count_words("a"), 1);
    assert_eq!(count_words(" a\u{3000}b\n c "), 3);
}
