//! The conventions that differ from one kind of host to another: how a list
//! of directories is written, how a directory and a file name are put
//! together, whether files carry execute permission bits, and where the
//! environment keeps the home directory.

use vstd::prelude::*;

verus! {

/// The kind of host the shell runs on.
#[derive(Clone, Copy, Debug, PartialEq, Eq, Structural)]
pub enum Platform {
    /// A POSIX system.
    Posix,
    /// Windows.
    Windows,
}

impl Platform {
    /// The character between the entries of a search path.
    pub open spec fn spec_list_separator(self) -> char {
        match self {
            Platform::Posix => ':',
            Platform::Windows => ';',
        }
    }

    /// The character written between a directory and a name under it.
    pub open spec fn spec_separator(self) -> char {
        match self {
            Platform::Posix => '/',
            Platform::Windows => '\\',
        }
    }

    /// Whether a directory that ends in `c` needs no separator after it.
    pub open spec fn spec_is_separator(self, c: char) -> bool {
        c == '/' || (self == Platform::Windows && c == '\\')
    }

    /// The environment variable that holds the home directory.
    pub open spec fn spec_home_variable(self) -> Seq<char> {
        match self {
            Platform::Posix => "HOME"@,
            Platform::Windows => "USERPROFILE"@,
        }
    }

    /// The character between the entries of a search path.
    #[verifier::when_used_as_spec(spec_list_separator)]
    pub fn list_separator(self) -> (c: char)
        ensures
            c == self.spec_list_separator(),
    {
        match self {
            Platform::Posix => ':',
            Platform::Windows => ';',
        }
    }

    /// The character written between a directory and a name under it.
    #[verifier::when_used_as_spec(spec_separator)]
    pub fn separator(self) -> (c: char)
        ensures
            c == self.spec_separator(),
    {
        match self {
            Platform::Posix => '/',
            Platform::Windows => '\\',
        }
    }

    /// Whether a directory that ends in `c` needs no separator after it.
    #[verifier::when_used_as_spec(spec_is_separator)]
    pub fn is_separator(self, c: char) -> (r: bool)
        ensures
            r == self.spec_is_separator(c),
    {
        c == '/' || (self == Platform::Windows && c == '\\')
    }

    /// The environment variable that holds the home directory.
    pub fn home_variable(self) -> (name: &'static str)
        ensures
            name@ == self.spec_home_variable(),
    {
        match self {
            Platform::Posix => "HOME",
            Platform::Windows => "USERPROFILE",
        }
    }
}

} // verus!
