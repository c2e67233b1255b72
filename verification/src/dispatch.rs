//! The dispatcher: from one input line to what the shell does about it.
//!
//! [`dispatch`] trims and tokenizes a line and routes it. A first word that
//! names a builtin always goes to the builtin; any other is a program to
//! run. The answer is an [`Action`] for the host to carry out. Where the
//! host has to look something up first (the working directory, a
//! directory's existence, an executable file), it hands what it found to
//! the function that words the outcome. Every line returned here is meant
//! for standard output and is written without its line ending.

use vstd::prelude::*;
use crate::builtin::{lemma_named_iff_name, Command};
use crate::text::{join, joined, same_text, to_owned_all, trim, trimmed};
use crate::tokenizer::{parse_args, tokenize};

verus! {

/// The prompt that the host writes, and flushes, before it reads a line.
pub const PROMPT: &'static str = "$ ";

/// What the host is to do for one input line.
#[derive(Debug, PartialEq, Eq)]
pub enum Action {
    /// Nothing: the line has no command word, or the builtin has nothing to
    /// do.
    Skip,
    /// End the session with success.
    Exit,
    /// Print this line.
    Print(String),
    /// Print the working directory, worded by [`pwd_command`].
    PrintWorkingDirectory,
    /// Read the home variable and do what [`cd_home`] says of its value.
    ChangeToHome,
    /// Change to this directory, the home; where the system refuses, print
    /// what [`cd_home_failure`] says.
    EnterHome(String),
    /// Change to this directory, if [`cd_refusal`] does not object; where
    /// the system refuses, print what [`cd_failure`] says.
    ChangeDirectory(String),
    /// Resolve this name and print what [`type_report`] says of it.
    Describe(String),
    /// Resolve `word` and run it as [`external_command`] lays out.
    Run { word: String, args: Vec<String> },
}

/// An [`Action`] with its strings as sequences of characters.
pub enum ActionView {
    Skip,
    Exit,
    Print(Seq<char>),
    PrintWorkingDirectory,
    ChangeToHome,
    EnterHome(Seq<char>),
    ChangeDirectory(Seq<char>),
    Describe(Seq<char>),
    Run { word: Seq<char>, args: Seq<Seq<char>> },
}

impl View for Action {
    type V = ActionView;

    open spec fn view(&self) -> ActionView {
        match *self {
            Action::Skip => ActionView::Skip,
            Action::Exit => ActionView::Exit,
            Action::Print(line) => ActionView::Print(line@),
            Action::PrintWorkingDirectory => ActionView::PrintWorkingDirectory,
            Action::ChangeToHome => ActionView::ChangeToHome,
            Action::EnterHome(dir) => ActionView::EnterHome(dir@),
            Action::ChangeDirectory(dir) => ActionView::ChangeDirectory(dir@),
            Action::Describe(name) => ActionView::Describe(name@),
            Action::Run { word, args } => ActionView::Run { word: word@, args: args.deep_view() },
        }
    }
}

/// How the host is to go about an external command.
#[derive(Debug, PartialEq, Eq)]
pub enum Launch {
    /// Spawn `program` with the argument vector `argv`, whose first entry is
    /// the command word as it was typed, and wait for it to end.
    Spawn { program: String, argv: Vec<String> },
    /// Print this line instead.
    Report(String),
}

/// A [`Launch`] with its strings as sequences of characters.
pub enum LaunchView {
    Spawn { program: Seq<char>, argv: Seq<Seq<char>> },
    Report(Seq<char>),
}

impl View for Launch {
    type V = LaunchView;

    open spec fn view(&self) -> LaunchView {
        match *self {
            Launch::Spawn { program, argv } => LaunchView::Spawn {
                program: program@,
                argv: argv.deep_view(),
            },
            Launch::Report(line) => LaunchView::Report(line@),
        }
    }
}

/// The line that `echo` prints: its arguments with one space between each
/// two.
pub open spec fn echo_line(args: Seq<Seq<char>>) -> Seq<char> {
    joined(args, " "@)
}

/// What `type` does with its arguments: nothing without one, else it tells
/// a builtin's name at once and has any other name resolved.
pub open spec fn type_plan(args: Seq<Seq<char>>) -> ActionView {
    if args.len() == 0 {
        ActionView::Skip
    } else if Command::named(args[0]) is Some {
        ActionView::Print(args[0] + " is a shell builtin"@)
    } else {
        ActionView::Describe(args[0])
    }
}

/// What `cd` does with its arguments: nothing without one, home for `~`,
/// else the directory named first.
pub open spec fn cd_plan(args: Seq<Seq<char>>) -> ActionView {
    if args.len() == 0 {
        ActionView::Skip
    } else if args[0] == "~"@ {
        ActionView::ChangeToHome
    } else {
        ActionView::ChangeDirectory(args[0])
    }
}

/// What the builtin `command` does with `args`.
pub open spec fn builtin_plan(command: Command, args: Seq<Seq<char>>) -> ActionView {
    match command {
        Command::Exit => ActionView::Exit,
        Command::Type => type_plan(args),
        Command::Echo => ActionView::Print(echo_line(args)),
        Command::Pwd => ActionView::PrintWorkingDirectory,
        Command::Cd => cd_plan(args),
    }
}

/// What the shell does with the words of a line. The first word is the
/// command word, and a command word is never empty: a line without a word,
/// or one that begins with a word of empty quotes, is skipped.
pub open spec fn route(tokens: Seq<Seq<char>>) -> ActionView {
    if tokens.len() == 0 || tokens[0].len() == 0 {
        ActionView::Skip
    } else {
        match Command::named(tokens[0]) {
            Some(command) => builtin_plan(command, tokens.skip(1)),
            None => ActionView::Run { word: tokens[0], args: tokens.skip(1) },
        }
    }
}

/// What the shell does with an input line: the blanks at its ends are
/// stripped, and the words of what is left are routed. A line of blanks
/// alone has no word and is skipped like any other line without a command
/// word.
pub open spec fn plan(line: Seq<char>) -> ActionView {
    route(tokenize(trimmed(line)))
}

/// The line that says where `name` was found, or that it was not.
pub open spec fn type_report_line(name: Seq<char>, found: Option<Seq<char>>) -> Seq<char> {
    match found {
        Some(path) => name + " is "@ + path,
        None => name + ": not found"@,
    }
}

/// The line that `pwd` prints: the working directory, or a complaint where
/// the host could not read it.
pub open spec fn pwd_line(working_directory: Option<Seq<char>>) -> Seq<char> {
    match working_directory {
        Some(path) => path,
        None => "Can't found path"@,
    }
}

/// What `cd ~` does once the home variable has been read: nothing where
/// the variable is unset, else a change to the directory it holds.
pub open spec fn cd_home_plan(home: Option<Seq<char>>) -> ActionView {
    match home {
        Some(dir) => ActionView::EnterHome(dir),
        None => ActionView::Skip,
    }
}

/// The line, if any, that turns a change to `dir` down before it is tried:
/// `dir` has to exist. Whether it is a directory is left to the system.
pub open spec fn cd_refusal_line(dir: Seq<char>, target_exists: bool) -> Option<Seq<char>> {
    if target_exists {
        None
    } else {
        Some("cd: "@ + dir + ": No such file or directory"@)
    }
}

/// The line for a command word that cannot be run.
pub open spec fn not_found_line(word: Seq<char>) -> Seq<char> {
    word + ": command not found"@
}

/// How an external command is run once its word has been resolved.
pub open spec fn launch_plan(
    word: Seq<char>,
    args: Seq<Seq<char>>,
    found: Option<Seq<char>>,
) -> LaunchView {
    match found {
        Some(program) => LaunchView::Spawn { program, argv: seq![word] + args },
        None => LaunchView::Report(not_found_line(word)),
    }
}

/// `echo`: the line to print for these arguments.
pub fn echo_command(args: &[String]) -> (line: String)
    ensures
        line@ == echo_line(args.deep_view()),
{
    join(args, " ")
}

/// `type`: what to do for these arguments.
pub fn type_command(args: &[String]) -> (action: Action)
    ensures
        action@ == type_plan(args.deep_view()),
{
    if args.len() == 0 {
        return Action::Skip;
    }
    let name = args[0].as_str();
    if Command::from_str(name).is_some() {
        let mut line = name.to_owned();
        line.append(" is a shell builtin");
        Action::Print(line)
    } else {
        Action::Describe(name.to_owned())
    }
}

/// `type`, once the name has been resolved: the line to print.
pub fn type_report(name: &str, found: Option<&str>) -> (line: String)
    ensures
        line@ == type_report_line(name@, found.deep_view()),
{
    let mut line = name.to_owned();
    match found {
        Some(path) => {
            line.append(" is ");
            line.append(path);
        },
        None => {
            line.append(": not found");
        },
    }
    line
}

/// `pwd`: the line to print, given the working directory or `None` where
/// the host could not read it.
pub fn pwd_command(working_directory: Option<&str>) -> (line: String)
    ensures
        line@ == pwd_line(working_directory.deep_view()),
{
    match working_directory {
        Some(path) => path.to_owned(),
        None => "Can't found path".to_owned(),
    }
}

/// `cd`: what to do for these arguments.
pub fn cd_command(args: &[String]) -> (action: Action)
    ensures
        action@ == cd_plan(args.deep_view()),
{
    if args.len() == 0 {
        return Action::Skip;
    }
    let dir = args[0].as_str();
    if same_text(dir, "~") {
        Action::ChangeToHome
    } else {
        Action::ChangeDirectory(dir.to_owned())
    }
}

/// `cd ~`, once the home variable has been read; `None` stands for a
/// variable that is unset.
pub fn cd_home(home: Option<&str>) -> (action: Action)
    ensures
        action@ == cd_home_plan(home.deep_view()),
{
    match home {
        Some(dir) => Action::EnterHome(dir.to_owned()),
        None => Action::Skip,
    }
}

/// `cd` to a named directory: the line that turns the change down, if the
/// target does not exist. With `None` the host goes ahead and tries the
/// change; a target that exists but is no directory is for the system to
/// refuse.
pub fn cd_refusal(dir: &str, target_exists: bool) -> (line: Option<String>)
    ensures
        line.deep_view() == cd_refusal_line(dir@, target_exists),
{
    if target_exists {
        None
    } else {
        let mut line = "cd: ".to_owned();
        line.append(dir);
        line.append(": No such file or directory");
        Some(line)
    }
}

/// `cd` to a named target that exists: the line for a change that the
/// system refused with the message `error`.
pub fn cd_failure(error: &str) -> (line: String)
    ensures
        line@ == "Connot set path : "@ + error@,
{
    let mut line = "Connot set path : ".to_owned();
    line.append(error);
    line
}

/// `cd ~`: the line for a change that the system refused with the message
/// `error`.
pub fn cd_home_failure(error: &str) -> (line: String)
    ensures
        line@ == "cd: "@ + error@,
{
    let mut line = "cd: ".to_owned();
    line.append(error);
    line
}

/// The line for a command word that cannot be run: it did not resolve, or
/// the program could not be started.
pub fn command_not_found(word: &str) -> (line: String)
    ensures
        line@ == not_found_line(word@),
{
    let mut line = word.to_owned();
    line.append(": command not found");
    line
}

/// An external command, once its word has been resolved: the program to
/// spawn with its argument vector, or the line that says it was not found.
pub fn external_command(word: &str, args: &[String], found: Option<String>) -> (launch: Launch)
    ensures
        launch@ == launch_plan(word@, args.deep_view(), found.deep_view()),
{
    match found {
        Some(program) => {
            let mut argv: Vec<String> = Vec::new();
            argv.push(word.to_owned());
            let mut i: usize = 0;
            while i < args.len()
                invariant
                    i <= args.len(),
                    argv.len() == i + 1,
                    argv[0]@ == word@,
                    forall|k: int| 0 <= k < i ==> (#[trigger] argv[k + 1])@ == args[k]@,
                decreases args.len() - i,
            {
                argv.push(args[i].clone());
                i = i + 1;
            }
            assert(argv.deep_view() =~= seq![word@] + args.deep_view()) by {
                assert forall|k: int| 0 <= k < argv.len() implies argv.deep_view()[k] == (seq![
                    word@,
                ] + args.deep_view())[k] by {
                    if k > 0 {
                        assert(argv[(k - 1) + 1]@ == args[k - 1]@);
                    }
                }
            }
            Launch::Spawn { program, argv }
        },
        None => Launch::Report(command_not_found(word)),
    }
}

/// Routes the words of a line: to the builtin that the first word names,
/// else to the program of that name. A builtin's name never reaches the
/// resolver, whatever the search path holds, and the word of a program to
/// run is never empty.
pub fn dispatch_tokens(tokens: &[String]) -> (action: Action)
    ensures
        action@ == route(tokens.deep_view()),
        tokens.len() > 0 && Command::named(tokens[0]@) is Some ==> !(action@ is Run),
        action@ is Run ==> action@->word.len() > 0,
{
    if tokens.len() == 0 || tokens[0].as_str().is_empty() {
        return Action::Skip;
    }
    let args = &tokens[1..tokens.len()];
    assert(args.deep_view() =~= tokens.deep_view().skip(1));
    let word = tokens[0].as_str();
    match Command::from_str(word) {
        Some(Command::Exit) => Action::Exit,
        Some(Command::Type) => type_command(args),
        Some(Command::Echo) => Action::Print(echo_command(args)),
        Some(Command::Pwd) => Action::PrintWorkingDirectory,
        Some(Command::Cd) => cd_command(args),
        None => Action::Run { word: word.to_owned(), args: to_owned_all(args) },
    }
}

/// Decides what the shell does with one input line: strips the blanks at
/// its ends, splits it into words and routes them. A line without a word
/// is skipped.
pub fn dispatch(line: &str) -> (action: Action)
    ensures
        action@ == plan(line@),
{
    let tokens = parse_args(trim(line));
    dispatch_tokens(tokens.as_slice())
}

/// Builtins take precedence: a line whose first word names a builtin is
/// handled by that builtin and never run as a program. Since routing reads
/// nothing but the words of the line, this holds whatever executable files
/// the search path leads to.
pub proof fn lemma_builtin_takes_precedence(tokens: Seq<Seq<char>>, command: Command)
    requires
        tokens.len() > 0,
        tokens[0] == command.spec_name(),
    ensures
        route(tokens) == builtin_plan(command, tokens.skip(1)),
        !(route(tokens) is Run),
{
    lemma_named_iff_name(tokens[0], command);
    reveal_strlit("exit");
    reveal_strlit("type");
    reveal_strlit("echo");
    reveal_strlit("pwd");
    reveal_strlit("cd");
}

/// The command word is never empty: whatever the line, a program that is
/// to be run has a word with at least one character, which is the first word
/// of the line, and its arguments are the words after it.
pub proof fn lemma_command_word_is_never_empty(line: Seq<char>)
    requires
        plan(line) is Run,
    ensures
        plan(line)->word.len() > 0,
        tokenize(trimmed(line)).len() > 0,
        plan(line)->word == tokenize(trimmed(line))[0],
        plan(line)->args == tokenize(trimmed(line)).skip(1),
{
    let tokens = tokenize(trimmed(line));
    if tokens.len() > 0 && tokens[0].len() > 0 {
        match Command::named(tokens[0]) {
            Some(command) => {
                lemma_named_iff_name(tokens[0], command);
                lemma_builtin_takes_precedence(tokens, command);
            },
            None => {},
        }
    }
}

/// A line whose first word is `echo` prints its remaining words joined by
/// single spaces, exactly as the tokenizer produced them.
pub proof fn lemma_echo_prints_its_arguments(line: Seq<char>)
    requires
        tokenize(trimmed(line)).len() > 0,
        tokenize(trimmed(line))[0] == "echo"@,
    ensures
        plan(line) == ActionView::Print(joined(tokenize(trimmed(line)).skip(1), " "@)),
{
    lemma_builtin_takes_precedence(tokenize(trimmed(line)), Command::Echo);
}

} // verus!
