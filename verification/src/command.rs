//! The commands that callers send.

use vstd::prelude::*;

verus! {

/// A request to show content on one connector or on all of them.
#[derive(Debug, PartialEq, Eq)]
pub enum Command {
    /// Show a remote address.
    SetUrl { monitor: Option<String>, url: String },
    /// Show a path of the local filesystem.
    SetPath { monitor: Option<String>, path: String },
}

/// A command as contracts see it. Without a `monitor` it is a broadcast.
pub enum CommandModel {
    SetUrl { monitor: Option<Seq<char>>, url: Seq<char> },
    SetPath { monitor: Option<Seq<char>>, path: Seq<char> },
}

/// An optional string as its optional text.
pub open spec fn text_of(value: Option<String>) -> Option<Seq<char>> {
    match value {
        Some(s) => Some(s@),
        None => None,
    }
}

/// A copy of an optional string.
pub fn copy_text(value: &Option<String>) -> (copy: Option<String>)
    ensures
        text_of(copy) == text_of(*value),
{
    match value {
        Some(s) => Some(s.clone()),
        None => None,
    }
}

impl Clone for Command {
    fn clone(&self) -> (copy: Command)
        ensures
            copy@ == self@,
    {
        match self {
            Command::SetUrl { monitor, url } => Command::SetUrl {
                monitor: copy_text(monitor),
                url: url.clone(),
            },
            Command::SetPath { monitor, path } => Command::SetPath {
                monitor: copy_text(monitor),
                path: path.clone(),
            },
        }
    }
}

impl View for Command {
    type V = CommandModel;

    open spec fn view(&self) -> CommandModel {
        match self {
            Command::SetUrl { monitor, url } => CommandModel::SetUrl {
                monitor: text_of(*monitor),
                url: url@,
            },
            Command::SetPath { monitor, path } => CommandModel::SetPath {
                monitor: text_of(*monitor),
                path: path@,
            },
        }
    }
}

/// Why a `set` invocation names no command.
#[derive(Clone, Copy, Debug, PartialEq, Eq)]
pub enum ArgsError {
    /// Both an address and a path were given.
    Conflict,
    /// Neither an address nor a path was given.
    Missing,
}

impl Command {
    /// The command that a `set` invocation asks for: exactly one of `url`
    /// and `path` has to be given.
    pub fn from_args(monitor: Option<String>, url: Option<String>, path: Option<String>) -> (made:
        Result<Command, ArgsError>)
        ensures
            match (url, path) {
                (Some(u), None) => made matches Ok(c) && c@ == (CommandModel::SetUrl {
                    monitor: text_of(monitor),
                    url: u@,
                }),
                (None, Some(p)) => made matches Ok(c) && c@ == (CommandModel::SetPath {
                    monitor: text_of(monitor),
                    path: p@,
                }),
                (Some(_), Some(_)) => made == Err::<Command, ArgsError>(ArgsError::Conflict),
                (None, None) => made == Err::<Command, ArgsError>(ArgsError::Missing),
            },
    {
        match (url, path) {
            (Some(url), None) => Ok(Command::SetUrl { monitor, url }),
            (None, Some(path)) => Ok(Command::SetPath { monitor, path }),
            (Some(_), Some(_)) => Err(ArgsError::Conflict),
            (None, None) => Err(ArgsError::Missing),
        }
    }

    /// The connector that the command names, if it names one.
    pub fn monitor(&self) -> (monitor: &Option<String>)
        ensures
            text_of(*monitor) == match self@ {
                CommandModel::SetUrl { monitor, .. } => monitor,
                CommandModel::SetPath { monitor, .. } => monitor,
            },
    {
        match self {
            Command::SetUrl { monitor, .. } => monitor,
            Command::SetPath { monitor, .. } => monitor,
        }
    }

    /// Whether the command addresses every connector.
    pub fn is_broadcast(&self) -> (all: bool)
        ensures
            all == match self@ {
                CommandModel::SetUrl { monitor, .. } => monitor is None,
                CommandModel::SetPath { monitor, .. } => monitor is None,
            },
    {
        self.monitor().is_none()
    }
}

} // verus!
