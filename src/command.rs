//! The commands that a line of input can name.
use vstd::prelude::*;

use crate::token::views;

verus! {

/// A parsed line of input.
#[derive(Clone, Debug, PartialEq, Eq)]
pub enum Command {
    /// Print the working directory.
    Pwd,
    /// Change the working directory; `~` stands for the home directory.
    Cd(String),
    /// End the process with this status.
    Exit(i32),
    /// Print the words joined by single spaces.
    Echo(Vec<String>),
    /// Tell whether a name is a builtin, a program on the search path, or neither.
    Type(String),
    /// Run the program found at this path with these arguments.
    Bin(String, Vec<String>),
}

/// What a `Command` holds, as sequences of characters.
pub enum CommandView {
    Pwd,
    Cd(Seq<char>),
    Exit(i32),
    Echo(Seq<Seq<char>>),
    Type(Seq<char>),
    Bin(Seq<char>, Seq<Seq<char>>),
}

impl View for Command {
    type V = CommandView;

    open spec fn view(&self) -> CommandView {
        match self {
            Command::Pwd => CommandView::Pwd,
            Command::Cd(p) => CommandView::Cd(p@),
            Command::Exit(n) => CommandView::Exit(*n),
            Command::Echo(args) => CommandView::Echo(views(args@)),
            Command::Type(name) => CommandView::Type(name@),
            Command::Bin(p, args) => CommandView::Bin(p@, views(args@)),
        }
    }
}

/// A line that names no command.
#[derive(Clone, Copy, Debug, PartialEq, Eq)]
pub struct ParseError;

} // verus!
