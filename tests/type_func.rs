use shell::command::type_func::type_func_command;
use shell::command::{Action, CommandError};
use shell::path_table::{DirEntry, PathTable};

#[test]
fn err_missing_argument() {
    let func = type_func_command(String::from(""), &PathTable::new());
    assert!(func.is_err());
    assert_eq!(func.err().unwrap().message(), "type: missing argument.");
}

#[test]
fn err_multiple_arguments() {
    let func = type_func_command(String::from("arg1 arg2"), &PathTable::new());
    assert!(func.is_err());
    assert_eq!(func.err().unwrap().message(), "type: too many arguments.");
}

#[test]
fn builtin_command() {
    let built_command = type_func_command(String::from("cd"), &PathTable::new());
    assert!(built_command.is_ok());
}

#[test]
fn type_reports_builtin() {
    let c = type_func_command(String::from("pwd"), &PathTable::new()).unwrap();
    assert_eq!(c.execute(), Action::Print("pwd is a shell builtin".to_string()));
}

#[test]
fn type_reports_program_path() {
    let table = PathTable::from_entries(&vec![DirEntry {
        name: "ls".to_string(),
        path: "/bin/ls".to_string(),
        is_file: true,
    }]);
    let c = type_func_command(String::from("ls"), &table).unwrap();
    assert_eq!(c.execute(), Action::Print("ls is /bin/ls".to_string()));
}

#[test]
fn type_reports_not_found() {
    let c = type_func_command(String::from("nope"), &PathTable::new()).unwrap();
    assert_eq!(c.execute(), Action::Print("nope: not found".to_string()));
}

#[test]
fn error_messages() {
    let e = CommandError::MissingFileOrDirectory {
        command: "cd".to_string(),
        destination: "/x".to_string(),
    };
    assert_eq!(e.message(), "cd: /x: No such file or directory");
    let e = CommandError::NotFound { command: "foo".to_string() };
    assert_eq!(e.message(), "foo: command not found");
    let e = CommandError::TooFewArguments { command: "cd".to_string() };
    assert_eq!(e.message(), "cd: too few arguments.");
}

#[test]
fn type_counts_words_at_any_whitespace() {
    let func = type_func_command(String::from("a\tb"), &PathTable::new());
    assert_eq!(
        func.err().unwrap(),
        CommandError::TooManyArguments { command: "type".to_string() }
    );
}
