//! The wire protocol: one JSON object per message, tagged by the kind of
//! command, with the command's fields in an object under the tag.
//!
//! ```text
//! {"SetUrl":  {"monitor": <string|null>, "url":  <string>}}
//! {"SetPath": {"monitor": <string|null>, "path": <string>}}
//! ```
//!
//! A `monitor` that is absent or null makes the command a broadcast.
//! Members of the inner object that the protocol does not name are ignored.

use crate::command::{text_of, Command, CommandModel};
use crate::json::{
    empty_object, is_null, json_model, json_parse, json_text, member, member_count, null_value,
    parse_value, render_value, text, text_value, with_member, JsonModel,
};
use vstd::prelude::*;

verus! {

/// Why a message is no command.
#[derive(Clone, Copy, Debug, PartialEq, Eq)]
pub enum DecodeError {
    /// The text is not JSON.
    Syntax,
    /// The document is not an object with exactly one member.
    Envelope,
    /// The one member is called neither `SetUrl` nor `SetPath`.
    Kind,
    /// What stands under the tag is not an object.
    Body,
    /// `monitor` is there and is neither a string nor null.
    Monitor,
    /// The address or the path is missing.
    Missing,
    /// The address or the path is not a string.
    Field,
}

/// The tag of a command that shows a remote address.
pub open spec fn tag_url() -> Seq<char> {
    "SetUrl"@
}

/// The tag of a command that shows a local path.
pub open spec fn tag_path() -> Seq<char> {
    "SetPath"@
}

/// The name of the member that names the connector.
pub open spec fn key_monitor() -> Seq<char> {
    "monitor"@
}

/// The name of the member that holds a remote address.
pub open spec fn key_url() -> Seq<char> {
    "url"@
}

/// The name of the member that holds a local path.
pub open spec fn key_path() -> Seq<char> {
    "path"@
}

/// The connector and the content that the object under a tag names, where
/// the content stands under `field`.
pub open spec fn body_of(body: JsonModel, field: Seq<char>) -> Result<
    (Option<Seq<char>>, Seq<char>),
    DecodeError,
> {
    match body {
        JsonModel::Object(members) => {
            let monitor: Result<Option<Seq<char>>, DecodeError> = if members.contains_key(
                key_monitor(),
            ) {
                match members[key_monitor()] {
                    JsonModel::Null => Ok(None),
                    JsonModel::Text(name) => Ok(Some(name)),
                    _ => Err(DecodeError::Monitor),
                }
            } else {
                Ok(None)
            };
            match monitor {
                Err(e) => Err(e),
                Ok(monitor) => if !members.contains_key(field) {
                    Err(DecodeError::Missing)
                } else {
                    match members[field] {
                        JsonModel::Text(content) => Ok((monitor, content)),
                        _ => Err(DecodeError::Field),
                    }
                },
            }
        },
        _ => Err(DecodeError::Body),
    }
}

/// The command that a document stands for, or why it stands for none.
pub open spec fn command_of(document: JsonModel) -> Result<CommandModel, DecodeError> {
    match document {
        JsonModel::Object(members) => if members.len() != 1 {
            Err(DecodeError::Envelope)
        } else if members.contains_key(tag_url()) {
            match body_of(members[tag_url()], key_url()) {
                Ok((monitor, url)) => Ok(CommandModel::SetUrl { monitor, url }),
                Err(e) => Err(e),
            }
        } else if members.contains_key(tag_path()) {
            match body_of(members[tag_path()], key_path()) {
                Ok((monitor, path)) => Ok(CommandModel::SetPath { monitor, path }),
                Err(e) => Err(e),
            }
        } else {
            Err(DecodeError::Kind)
        },
        _ => Err(DecodeError::Envelope),
    }
}

/// The command that a parsed message stands for: none where the message did
/// not parse.
pub open spec fn message_of(parsed: Option<JsonModel>) -> Result<CommandModel, DecodeError> {
    match parsed {
        Some(document) => command_of(document),
        None => Err(DecodeError::Syntax),
    }
}

/// The document that stands for a connector: null for a broadcast.
pub open spec fn json_of_monitor(monitor: Option<Seq<char>>) -> JsonModel {
    match monitor {
        Some(name) => JsonModel::Text(name),
        None => JsonModel::Null,
    }
}

/// The document that stands for a command.
pub open spec fn json_of(command: CommandModel) -> JsonModel {
    match command {
        CommandModel::SetUrl { monitor, url } => JsonModel::Object(
            Map::empty().insert(
                tag_url(),
                JsonModel::Object(
                    Map::empty().insert(key_monitor(), json_of_monitor(monitor)).insert(
                        key_url(),
                        JsonModel::Text(url),
                    ),
                ),
            ),
        ),
        CommandModel::SetPath { monitor, path } => JsonModel::Object(
            Map::empty().insert(
                tag_path(),
                JsonModel::Object(
                    Map::empty().insert(key_monitor(), json_of_monitor(monitor)).insert(
                        key_path(),
                        JsonModel::Text(path),
                    ),
                ),
            ),
        ),
    }
}

/// Every command is the command that its own document stands for.
pub proof fn law_round_trip(command: CommandModel)
    ensures
        command_of(json_of(command)) == Ok::<CommandModel, DecodeError>(command),
{
    reveal_strlit("SetUrl");
    reveal_strlit("SetPath");
    reveal_strlit("monitor");
    reveal_strlit("url");
    reveal_strlit("path");
    assert(tag_url().len() == 6 && tag_path().len() == 7);
    assert(key_monitor().len() == 7 && key_url().len() == 3 && key_path().len() == 4);
}

fn read_body(body: &serde_json::Value, field: &str) -> (read: Result<
    (Option<String>, String),
    DecodeError,
>)
    ensures
        match read {
            Ok((monitor, content)) => body_of(json_model(*body), field@) == Ok::<
                (Option<Seq<char>>, Seq<char>),
                DecodeError,
            >((text_of(monitor), content@)),
            Err(e) => body_of(json_model(*body), field@) == Err::<
                (Option<Seq<char>>, Seq<char>),
                DecodeError,
            >(e),
        },
{
    if member_count(body).is_none() {
        return Err(DecodeError::Body);
    }
    let monitor = match member(body, "monitor") {
        None => None,
        Some(named) => {
            if is_null(named) {
                None
            } else {
                match text(named) {
                    Some(name) => Some(name.to_owned()),
                    None => {
                        return Err(DecodeError::Monitor);
                    },
                }
            }
        },
    };
    match member(body, field) {
        None => Err(DecodeError::Missing),
        Some(held) => match text(held) {
            Some(content) => Ok((monitor, content.to_owned())),
            None => Err(DecodeError::Field),
        },
    }
}

impl Command {
    /// The command that `document` stands for, or why it stands for none.
    pub fn from_json(document: &serde_json::Value) -> (made: Result<Command, DecodeError>)
        ensures
            match made {
                Ok(command) => command_of(json_model(*document)) == Ok::<CommandModel, DecodeError>(
                    command@,
                ),
                Err(e) => command_of(json_model(*document)) == Err::<CommandModel, DecodeError>(e),
            },
    {
        match member_count(document) {
            None => Err(DecodeError::Envelope),
            Some(n) => {
                if n != 1 {
                    return Err(DecodeError::Envelope);
                }
                match member(document, "SetUrl") {
                    Some(body) => match read_body(body, "url") {
                        Ok((monitor, url)) => Ok(Command::SetUrl { monitor, url }),
                        Err(e) => Err(e),
                    },
                    None => match member(document, "SetPath") {
                        Some(body) => match read_body(body, "path") {
                            Ok((monitor, path)) => Ok(Command::SetPath { monitor, path }),
                            Err(e) => Err(e),
                        },
                        None => Err(DecodeError::Kind),
                    },
                }
            },
        }
    }

    /// The document that stands for the command.
    pub fn to_json(&self) -> (document: serde_json::Value)
        ensures
            json_model(document) == json_of(self@),
    {
        match self {
            Command::SetUrl { monitor, url } => {
                let body = with_member(
                    with_member(empty_object(), "monitor".to_owned(), monitor_value(monitor)),
                    "url".to_owned(),
                    text_value(url.clone()),
                );
                with_member(empty_object(), "SetUrl".to_owned(), body)
            },
            Command::SetPath { monitor, path } => {
                let body = with_member(
                    with_member(empty_object(), "monitor".to_owned(), monitor_value(monitor)),
                    "path".to_owned(),
                    text_value(path.clone()),
                );
                with_member(empty_object(), "SetPath".to_owned(), body)
            },
        }
    }

    /// Reads one message. Whitespace around the document, the newline that
    /// ends a message among it, is no part of it.
    pub fn decode(message: &str) -> (made: Result<Command, DecodeError>)
        ensures
            match made {
                Ok(command) => message_of(json_parse(message@)) == Ok::<CommandModel, DecodeError>(
                    command@,
                ),
                Err(e) => message_of(json_parse(message@)) == Err::<CommandModel, DecodeError>(e),
            },
    {
        match parse_value(message) {
            Ok(document) => Command::from_json(&document),
            Err(_) => Err(DecodeError::Syntax),
        }
    }

    /// Writes the command as one message, without the newline that ends it.
    /// `None` where the document could not be written.
    pub fn encode(&self) -> (message: Option<String>)
        ensures
            text_of(message) == json_text(json_of(self@)),
    {
        let document = self.to_json();
        match render_value(&document) {
            Ok(message) => Some(message),
            Err(_) => None,
        }
    }

    /// Writes the command as one line: the message and the newline that
    /// ends it. `None` where the document could not be written.
    pub fn to_line(&self) -> (line: Option<String>)
        ensures
            match line {
                Some(line) => json_text(json_of(self@)) matches Some(message) && line@ == message
                    + seq!['\n'],
                None => json_text(json_of(self@)) is None,
            },
    {
        match self.encode() {
            Some(message) => {
                proof {
                    reveal_strlit("\n");
                }
                Some(message.concat("\n"))
            },
            None => None,
        }
    }
}

fn monitor_value(monitor: &Option<String>) -> (value: serde_json::Value)
    ensures
        json_model(value) == json_of_monitor(text_of(*monitor)),
{
    match monitor {
        Some(name) => text_value(name.clone()),
        None => null_value(),
    }
}

} // verus!
