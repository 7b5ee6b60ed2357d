//! A command invocation: the name of a command and its arguments, as one
//! line of input gives them.

use crate::text::{texts, tokenize, tokens};
use vstd::prelude::*;

verus! {

/// The command that a line names, with its arguments in the order in which
/// they were written. It borrows from the line and lives for one turn of
/// the shell.
pub struct Invocation<'a> {
    pub name: &'a str,
    pub args: Vec<&'a str>,
}

impl<'a> Invocation<'a> {
    /// The words of the invocation: the name, then the arguments.
    pub open spec fn words(&self) -> Seq<Seq<char>> {
        seq![self.name@] + texts(self.args@)
    }
}

/// Reads a line as a command invocation.
///
/// The first word of the line is the name of the command and the other
/// words are its arguments. A line without words names no command.
pub fn parse<'a>(line: &'a str) -> (invocation: Option<Invocation<'a>>)
    ensures
        match invocation {
            Some(found) => found.words() == tokens(line@),
            None => tokens(line@).len() == 0,
        },
{
    let mut words = tokenize(line);
    if words.len() == 0 {
        return None;
    }
    let ghost all = texts(words@);
    let name = words.remove(0);
    Some(Invocation { name, args: words })
}

} // verus!
