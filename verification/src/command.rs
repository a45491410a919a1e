//! The commands of the program, resolved from the words on its command line.

use vstd::prelude::*;
use crate::error::UsageError;
use crate::numeral::{numeral_value, parse_number};
use crate::text::same_text;

verus! {

/// What the program is asked to do.
#[derive(Debug, Clone, PartialEq, Eq)]
pub enum Command {
    /// Show the list.
    List,
    /// Add a task. Without a description on the command line the program
    /// asks for one.
    Create(Option<String>),
    /// Mark the task of this id as done.
    Complete(usize),
    /// Give the task of this id a new description, which the program asks
    /// for.
    Update(usize),
    /// Remove the task of this id.
    Delete(usize),
}

/// `Command` as a mathematical value.
pub enum CommandView {
    List,
    Create(Option<Seq<char>>),
    Complete(nat),
    Update(nat),
    Delete(nat),
}

impl View for Command {
    type V = CommandView;

    open spec fn view(&self) -> CommandView {
        match self {
            Command::List => CommandView::List,
            Command::Create(Some(text)) => CommandView::Create(Some(text@)),
            Command::Create(None) => CommandView::Create(None),
            Command::Complete(id) => CommandView::Complete(*id as nat),
            Command::Update(id) => CommandView::Update(*id as nat),
            Command::Delete(id) => CommandView::Delete(*id as nat),
        }
    }
}

/// The task id that a command was given: `MissingId` without a word,
/// `InvalidId` where the word is no numeral.
pub open spec fn id_of(input: Option<Seq<char>>) -> Result<nat, UsageError> {
    match input {
        Some(word) => match numeral_value(word) {
            Some(id) => Ok(id),
            None => Err(UsageError::InvalidId),
        },
        None => Err(UsageError::MissingId),
    }
}

/// The command that two words of the command line stand for.
pub open spec fn resolved(command: Option<Seq<char>>, input: Option<Seq<char>>) -> Result<
    CommandView,
    UsageError,
> {
    match command {
        None => Err(UsageError::MissingCommand),
        Some(name) => if name == "list"@ {
            Ok(CommandView::List)
        } else if name == "create"@ {
            Ok(CommandView::Create(input))
        } else if name == "complete"@ {
            match id_of(input) {
                Ok(id) => Ok(CommandView::Complete(id)),
                Err(e) => Err(e),
            }
        } else if name == "update"@ {
            match id_of(input) {
                Ok(id) => Ok(CommandView::Update(id)),
                Err(e) => Err(e),
            }
        } else if name == "delete"@ {
            match id_of(input) {
                Ok(id) => Ok(CommandView::Delete(id)),
                Err(e) => Err(e),
            }
        } else {
            Err(UsageError::InvalidCommand)
        },
    }
}

/// Reads the task id that a command needs.
pub fn parse_id(input: Option<&str>) -> (r: Result<usize, UsageError>)
    ensures
        match id_of(
            match input {
                Some(word) => Some(word@),
                None => None,
            },
        ) {
            Ok(id) => r == Ok::<usize, UsageError>(id as usize) && id <= usize::MAX,
            Err(e) => r == Err::<usize, UsageError>(e),
        },
{
    match input {
        Some(word) => match parse_number(word) {
            Some(id) => Ok(id),
            None => Err(UsageError::InvalidId),
        },
        None => Err(UsageError::MissingId),
    }
}

/// Resolves the command's name and its one optional word. The names are
/// `list`, `create`, `complete`, `update` and `delete`; the last three need a
/// task id.
pub fn parse_command(command: Option<&str>, input: Option<&str>) -> (r: Result<Command, UsageError>)
    ensures
        match resolved(
            match command {
                Some(name) => Some(name@),
                None => None,
            },
            match input {
                Some(word) => Some(word@),
                None => None,
            },
        ) {
            Ok(c) => r is Ok && r.unwrap()@ == c,
            Err(e) => r == Err::<Command, UsageError>(e),
        },
{
    let name = match command {
        Some(name) => name,
        None => {
            return Err(UsageError::MissingCommand);
        },
    };
    if same_text(name, "list") {
        Ok(Command::List)
    } else if same_text(name, "create") {
        match input {
            Some(text) => Ok(Command::Create(Some(String::from_str(text)))),
            None => Ok(Command::Create(None)),
        }
    } else if same_text(name, "complete") {
        match parse_id(input) {
            Ok(id) => Ok(Command::Complete(id)),
            Err(e) => Err(e),
        }
    } else if same_text(name, "update") {
        match parse_id(input) {
            Ok(id) => Ok(Command::Update(id)),
            Err(e) => Err(e),
        }
    } else if same_text(name, "delete") {
        match parse_id(input) {
            Ok(id) => Ok(Command::Delete(id)),
            Err(e) => Err(e),
        }
    } else {
        Err(UsageError::InvalidCommand)
    }
}

} // verus!
