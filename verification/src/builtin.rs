//! The builtin registry: the closed set of commands that the shell handles
//! itself. A command word names a builtin when it equals the builtin's name
//! exactly, letter case included.

use vstd::prelude::*;
use crate::text::same_text;

verus! {

/// A command that the shell runs in-process.
#[derive(Clone, Copy, Debug, PartialEq, Eq, Structural)]
pub enum Command {
    /// `exit`: end the session.
    Exit,
    /// `type`: say how a name would be run.
    Type,
    /// `echo`: print the arguments.
    Echo,
    /// `pwd`: print the working directory.
    Pwd,
    /// `cd`: change the working directory.
    Cd,
}

impl Command {
    /// The word that names this builtin.
    pub open spec fn spec_name(self) -> Seq<char> {
        match self {
            Command::Exit => "exit"@,
            Command::Type => "type"@,
            Command::Echo => "echo"@,
            Command::Pwd => "pwd"@,
            Command::Cd => "cd"@,
        }
    }

    /// The builtin that `word` names, if it names one.
    pub open spec fn named(word: Seq<char>) -> Option<Command> {
        if word == "exit"@ {
            Some(Command::Exit)
        } else if word == "type"@ {
            Some(Command::Type)
        } else if word == "echo"@ {
            Some(Command::Echo)
        } else if word == "pwd"@ {
            Some(Command::Pwd)
        } else if word == "cd"@ {
            Some(Command::Cd)
        } else {
            None
        }
    }

    /// Looks `s` up in the registry.
    pub fn from_str(s: &str) -> (r: Option<Command>)
        ensures
            r == Command::named(s@),
    {
        if same_text(s, "exit") {
            Some(Command::Exit)
        } else if same_text(s, "type") {
            Some(Command::Type)
        } else if same_text(s, "echo") {
            Some(Command::Echo)
        } else if same_text(s, "pwd") {
            Some(Command::Pwd)
        } else if same_text(s, "cd") {
            Some(Command::Cd)
        } else {
            None
        }
    }

    /// The word that names this builtin.
    pub fn name(self) -> (r: &'static str)
        ensures
            r@ == self.spec_name(),
    {
        match self {
            Command::Exit => "exit",
            Command::Type => "type",
            Command::Echo => "echo",
            Command::Pwd => "pwd",
            Command::Cd => "cd",
        }
    }
}

/// A word names a builtin exactly when it is that builtin's name: the five
/// names are pairwise distinct, and looking a name up gives its builtin back.
pub proof fn lemma_named_iff_name(word: Seq<char>, command: Command)
    ensures
        Command::named(word) == Some(command) <==> word == command.spec_name(),
        Command::named(command.spec_name()) == Some(command),
{
    reveal_strlit("exit");
    reveal_strlit("type");
    reveal_strlit("echo");
    reveal_strlit("pwd");
    reveal_strlit("cd");
    assert("exit"@.len() == 4 && "type"@.len() == 4 && "echo"@.len() == 4);
    assert("pwd"@.len() == 3 && "cd"@.len() == 2);
    assert("exit"@[0] == 'e' && "type"@[0] == 't' && "echo"@[0] == 'e');
    assert("exit"@[1] == 'x' && "echo"@[1] == 'c');
}

} // verus!
