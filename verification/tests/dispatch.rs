use minishell::dispatch::{
    cd_command, cd_failure, cd_home, cd_home_failure, cd_refusal, command_not_found, dispatch, dispatch_tokens,
    echo_command, external_command, pwd_command, type_command, type_report, Action, Launch, PROMPT,
};

fn strings(parts: &[&str]) -> Vec<String> {
    parts.iter().map(|part| part.to_string()).collect()
}

fn print(line: &str) -> Action {
    Action::Print(line.to_string())
}

fn run(word: &str, args: &[&str]) -> Action {
    Action::Run { word: word.to_string(), args: strings(args) }
}

#[test]
fn blank_lines_are_skipped() {
    assert_eq!(dispatch(""), Action::Skip);
    assert_eq!(dispatch("\n"), Action::Skip);
    assert_eq!(dispatch("   \t \r\n"), Action::Skip);
}

#[test]
fn line_without_a_word_is_skipped() {
    assert_eq!(dispatch("'\n"), Action::Skip);
    assert_eq!(dispatch("  \"  \n"), Action::Skip);
}

#[test]
fn exit_ends_the_session() {
    assert_eq!(dispatch("exit\n"), Action::Exit);
}

#[test]
fn exit_ignores_its_arguments() {
    assert_eq!(dispatch("exit 1 now\n"), Action::Exit);
}

#[test]
fn echo_prints_its_arguments_with_single_spaces() {
    assert_eq!(dispatch("echo hello world\n"), print("hello world"));
    assert_eq!(dispatch("echo   hello    world  \n"), print("hello world"));
}

#[test]
fn echo_without_arguments_prints_an_empty_line() {
    assert_eq!(dispatch("echo\n"), print(""));
}

#[test]
fn echo_keeps_quoted_spaces() {
    assert_eq!(dispatch("echo 'a  b'  \"c  d\"\n"), print("a  b c  d"));
}

#[test]
fn echo_keeps_an_escaped_space() {
    assert_eq!(dispatch("echo a\\ b\n"), print("a b"));
}

#[test]
fn echo_does_no_escape_processing_of_its_own() {
    assert_eq!(dispatch("echo 'a\\nb' \"c\\td\"\n"), print("a\\nb c\\td"));
}

#[test]
fn echo_prints_empty_arguments_as_nothing_between_spaces() {
    assert_eq!(dispatch("echo a '' b\n"), print("a  b"));
    assert_eq!(dispatch("echo ''\n"), print(""));
}

#[test]
fn echo_command_joins_any_words() {
    assert_eq!(echo_command(&strings(&[])), "");
    assert_eq!(echo_command(&strings(&["one"])), "one");
    assert_eq!(echo_command(&strings(&["a b", "", "c"])), "a b  c");
}

#[test]
fn pwd_asks_for_the_working_directory() {
    assert_eq!(dispatch("pwd\n"), Action::PrintWorkingDirectory);
    assert_eq!(dispatch("pwd -L extra\n"), Action::PrintWorkingDirectory);
}

#[test]
fn pwd_prints_the_working_directory() {
    assert_eq!(pwd_command(Some("/")), "/");
    assert_eq!(pwd_command(Some("/home/user/my dir")), "/home/user/my dir");
}

#[test]
fn pwd_complains_when_the_directory_cannot_be_read() {
    assert_eq!(pwd_command(None), "Can't found path");
}

#[test]
fn type_of_a_builtin_is_told_at_once() {
    assert_eq!(dispatch("type echo\n"), print("echo is a shell builtin"));
    assert_eq!(dispatch("type exit\n"), print("exit is a shell builtin"));
    assert_eq!(dispatch("type type\n"), print("type is a shell builtin"));
    assert_eq!(dispatch("type pwd\n"), print("pwd is a shell builtin"));
    assert_eq!(dispatch("type cd\n"), print("cd is a shell builtin"));
}

#[test]
fn type_of_another_name_has_it_resolved() {
    assert_eq!(dispatch("type ls\n"), Action::Describe("ls".to_string()));
    assert_eq!(dispatch("type /bin/ls\n"), Action::Describe("/bin/ls".to_string()));
    assert_eq!(dispatch("type Echo\n"), Action::Describe("Echo".to_string()));
}

#[test]
fn type_without_an_argument_does_nothing() {
    assert_eq!(dispatch("type\n"), Action::Skip);
    assert_eq!(type_command(&[]), Action::Skip);
}

#[test]
fn type_looks_at_its_first_argument_only() {
    assert_eq!(dispatch("type ls echo\n"), Action::Describe("ls".to_string()));
    assert_eq!(type_command(&strings(&["cd", "ls"])), print("cd is a shell builtin"));
}

#[test]
fn type_report_names_the_path_found() {
    assert_eq!(type_report("ls", Some("/usr/bin/ls")), "ls is /usr/bin/ls");
}

#[test]
fn type_report_says_not_found() {
    assert_eq!(type_report("nosuch", None), "nosuch: not found");
}

#[test]
fn cd_without_an_argument_does_nothing() {
    assert_eq!(dispatch("cd\n"), Action::Skip);
    assert_eq!(cd_command(&[]), Action::Skip);
}

#[test]
fn cd_tilde_goes_home() {
    assert_eq!(dispatch("cd ~\n"), Action::ChangeToHome);
    assert_eq!(dispatch("cd '~'\n"), Action::ChangeToHome);
}

#[test]
fn cd_expands_the_lone_tilde_only() {
    assert_eq!(dispatch("cd ~/src\n"), Action::ChangeDirectory("~/src".to_string()));
    assert_eq!(dispatch("cd ~~\n"), Action::ChangeDirectory("~~".to_string()));
}

#[test]
fn cd_names_the_directory_to_change_to() {
    assert_eq!(dispatch("cd /\n"), Action::ChangeDirectory("/".to_string()));
    assert_eq!(dispatch("cd 'my dir'\n"), Action::ChangeDirectory("my dir".to_string()));
    assert_eq!(dispatch("cd /tmp /usr\n"), Action::ChangeDirectory("/tmp".to_string()));
    assert_eq!(cd_command(&strings(&["..", "x"])), Action::ChangeDirectory("..".to_string()));
}

#[test]
fn cd_to_an_existing_target_is_not_turned_down() {
    assert_eq!(cd_refusal("/", true), None);
    assert_eq!(cd_refusal("/etc/passwd", true), None);
}

#[test]
fn cd_home_enters_the_directory_that_the_variable_holds() {
    assert_eq!(cd_home(Some("/home/user")), Action::EnterHome("/home/user".to_string()));
    assert_eq!(cd_home(Some("")), Action::EnterHome("".to_string()));
}

#[test]
fn cd_home_without_the_variable_does_nothing() {
    assert_eq!(cd_home(None), Action::Skip);
}

#[test]
fn cd_to_a_missing_directory_is_turned_down() {
    assert_eq!(
        cd_refusal("/definitely/not/here", false),
        Some("cd: /definitely/not/here: No such file or directory".to_string())
    );
}

#[test]
fn cd_failure_carries_the_system_message() {
    assert_eq!(cd_failure("Permission denied (os error 13)"), "Connot set path : Permission denied (os error 13)");
}

#[test]
fn cd_home_failure_carries_the_system_message() {
    assert_eq!(cd_home_failure("No such file or directory (os error 2)"), "cd: No such file or directory (os error 2)");
}

#[test]
fn other_words_are_programs_to_run() {
    assert_eq!(dispatch("ls\n"), run("ls", &[]));
    assert_eq!(dispatch("ls -l 'my dir'\n"), run("ls", &["-l", "my dir"]));
    assert_eq!(dispatch("/bin/echo hi\n"), run("/bin/echo", &["hi"]));
    assert_eq!(dispatch("nosuch\n"), run("nosuch", &[]));
}

#[test]
fn builtin_names_are_matched_exactly() {
    assert_eq!(dispatch("Echo hi\n"), run("Echo", &["hi"]));
    assert_eq!(dispatch("EXIT\n"), run("EXIT", &[]));
    assert_eq!(dispatch("echoo\n"), run("echoo", &[]));
    assert_eq!(dispatch("\\echo hi\n"), print("hi"));
    assert_eq!(dispatch("'echo' hi\n"), print("hi"));
    assert_eq!(dispatch("'echo ' hi\n"), run("echo ", &["hi"]));
}

#[test]
fn line_with_an_empty_command_word_is_skipped() {
    assert_eq!(dispatch("\"\"\n"), Action::Skip);
    assert_eq!(dispatch("'' a\n"), Action::Skip);
    assert_eq!(dispatch("''\"\" echo hi\n"), Action::Skip);
    assert_eq!(dispatch_tokens(&strings(&["", "echo"])), Action::Skip);
}

#[test]
fn empty_words_after_the_command_word_are_kept() {
    assert_eq!(dispatch("ls '' \"\"\n"), run("ls", &["", ""]));
}

#[test]
fn command_word_of_a_program_is_never_empty() {
    for line in ["ls", "\"\"", "'' a", " x ", "a''", "''a b", "\\", "'", "\"\" \"\""] {
        if let Action::Run { word, .. } = dispatch(line) {
            assert!(!word.is_empty(), "{:?}", line);
        }
    }
}

#[test]
fn builtins_are_never_run_as_programs() {
    for line in ["exit", "echo hi", "type ls", "type", "pwd", "cd", "cd ~", "cd /tmp"] {
        assert!(!matches!(dispatch(line), Action::Run { .. }), "{}", line);
    }
}

#[test]
fn dispatch_tokens_routes_words_as_given() {
    assert_eq!(dispatch_tokens(&[]), Action::Skip);
    assert_eq!(dispatch_tokens(&strings(&["echo", "a  b", "c"])), print("a  b c"));
    assert_eq!(dispatch_tokens(&strings(&["ls", "-l"])), run("ls", &["-l"]));
    assert_eq!(dispatch_tokens(&strings(&["exit", "now"])), Action::Exit);
}

#[test]
fn command_not_found_names_the_word() {
    assert_eq!(command_not_found("nosuch"), "nosuch: command not found");
    assert_eq!(command_not_found(""), ": command not found");
}

#[test]
fn resolved_command_is_spawned_under_the_word_as_typed() {
    assert_eq!(
        external_command("ls", &strings(&["-l", "my dir"]), Some("/usr/bin/ls".to_string())),
        Launch::Spawn { program: "/usr/bin/ls".to_string(), argv: strings(&["ls", "-l", "my dir"]) }
    );
    assert_eq!(
        external_command("./run", &[], Some("./run".to_string())),
        Launch::Spawn { program: "./run".to_string(), argv: strings(&["./run"]) }
    );
}

#[test]
fn unresolved_command_is_reported() {
    assert_eq!(
        external_command("nosuch", &strings(&["-l"]), None),
        Launch::Report("nosuch: command not found".to_string())
    );
}

#[test]
fn prompt_is_dollar_and_space() {
    assert_eq!(PROMPT, "$ ");
    assert_eq!(PROMPT.len(), 2);
}
