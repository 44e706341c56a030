//! What can go wrong between a configuration text and a command, and the one
//! line that says so to the user.

use vstd::prelude::*;
use vstd::string::*;
use crate::config::{ConfigValue, ValueModel};

verus! {

/// The error of `std::io`, carried through unread: a failure to read the
/// configuration is handed on as it came.
#[verifier::external_type_specification]
#[verifier::external_body]
pub struct ExIoError(std::io::Error);

/// The error of the TOML parser, `toml::de::Error`, carried through unread.
#[verifier::external_type_specification]
#[verifier::external_body]
pub struct ExTomlError(toml::de::Error);

/// Why an entry that was found cannot be used.
#[derive(Debug)]
pub enum InvalidContentReason {
    /// A string was expected under the key; the value found comes with it.
    NotTomlString(String, ConfigValue),
    /// A table was expected under the key; the value found comes with it.
    NotTomlTable(String, ConfigValue),
    /// The key is not there.
    MissingKey(String),
}

/// Why no command came out.
#[derive(Debug)]
pub enum CommandParseError {
    /// The configuration could not be read.
    IoError(std::io::Error),
    /// The configuration is not a TOML document.
    TomlDeError(toml::de::Error),
    /// No entry has the name; the tokens from the first unknown one on come
    /// with it, joined by single spaces.
    CommandNotFoundError(String),
    /// The entry is there and cannot be used.
    CommandContentInvalid(InvalidContentReason),
}

/// An [`InvalidContentReason`] as contracts see it.
pub enum ReasonModel {
    NotTomlString(Seq<char>, ValueModel),
    NotTomlTable(Seq<char>, ValueModel),
    MissingKey(Seq<char>),
}

/// A [`CommandParseError`] as contracts see it. The two errors that come from
/// outside keep their kind and drop what they hold.
pub enum ErrorModel {
    IoError,
    TomlDeError,
    CommandNotFoundError(Seq<char>),
    CommandContentInvalid(ReasonModel),
}

impl View for InvalidContentReason {
    type V = ReasonModel;

    open spec fn view(&self) -> ReasonModel {
        match self {
            InvalidContentReason::NotTomlString(key, value) => ReasonModel::NotTomlString(
                key@,
                value@,
            ),
            InvalidContentReason::NotTomlTable(key, value) => ReasonModel::NotTomlTable(
                key@,
                value@,
            ),
            InvalidContentReason::MissingKey(key) => ReasonModel::MissingKey(key@),
        }
    }
}

impl View for CommandParseError {
    type V = ErrorModel;

    open spec fn view(&self) -> ErrorModel {
        match self {
            CommandParseError::IoError(_) => ErrorModel::IoError,
            CommandParseError::TomlDeError(_) => ErrorModel::TomlDeError,
            CommandParseError::CommandNotFoundError(tokens) => ErrorModel::CommandNotFoundError(
                tokens@,
            ),
            CommandParseError::CommandContentInvalid(reason) => ErrorModel::CommandContentInvalid(
                reason@,
            ),
        }
    }
}

/// The name under which a diagnostic speaks of a value's kind.
pub open spec fn kind_name(value: ValueModel) -> Seq<char> {
    match value {
        ValueModel::String(_) => "String"@,
        ValueModel::Integer => "Integer"@,
        ValueModel::Float => "Float"@,
        ValueModel::Boolean => "Boolean"@,
        ValueModel::Datetime => "Datetime"@,
        ValueModel::Array => "Array"@,
        ValueModel::Table(_) => "Table"@,
    }
}

/// The line that tells why an entry cannot be used.
pub open spec fn reason_message(reason: ReasonModel) -> Seq<char> {
    match reason {
        ReasonModel::NotTomlString(key, value) => "Expected key '"@ + key
            + "' to be String but got "@ + kind_name(value),
        ReasonModel::NotTomlTable(key, value) => "Expected key '"@ + key
            + "' to be Table but got "@ + kind_name(value),
        ReasonModel::MissingKey(key) => "Expected key '"@ + key + "' but it is not present"@,
    }
}

/// The line for a command that was not found.
pub open spec fn not_found_message(tokens: Seq<char>) -> Seq<char> {
    "Command `"@ + tokens + "` not found"@
}

/// The line for an entry that cannot be used.
pub open spec fn invalid_content_message(reason: ReasonModel) -> Seq<char> {
    "Command content invalid - "@ + reason_message(reason)
}

/// The line for a configuration that did not parse, around the parser's own
/// words.
pub open spec fn parse_failure_message(detail: Seq<char>) -> Seq<char> {
    "TOML parse error - "@ + detail
}

/// `text` is the line that `error` is shown as. The errors from outside speak
/// for themselves: their part of the line is what their `Display` gives.
pub open spec fn is_message_of(error: &CommandParseError, text: Seq<char>) -> bool {
    match error {
        CommandParseError::IoError(e) => exists|detail: String|
            #[trigger] to_string_from_display_ensures::<std::io::Error>(e, detail) && text
                == detail@,
        CommandParseError::TomlDeError(e) => exists|detail: String|
            #[trigger] to_string_from_display_ensures::<toml::de::Error>(e, detail) && text
                == parse_failure_message(detail@),
        CommandParseError::CommandNotFoundError(tokens) => text == not_found_message(tokens@),
        CommandParseError::CommandContentInvalid(reason) => text == invalid_content_message(
            reason@,
        ),
    }
}

/// The name of the kind of `value`, as diagnostics print it.
pub fn value_as_name(value: &ConfigValue) -> (name: &'static str)
    ensures
        name@ == kind_name(value@),
{
    match value {
        ConfigValue::String(_) => "String",
        ConfigValue::Integer => "Integer",
        ConfigValue::Float => "Float",
        ConfigValue::Boolean => "Boolean",
        ConfigValue::Datetime => "Datetime",
        ConfigValue::Array => "Array",
        ConfigValue::Table(_) => "Table",
    }
}

/// The line for a configuration that did not parse, given the parser's words.
pub fn parse_failure_text(detail: &str) -> (text: String)
    ensures
        text@ == parse_failure_message(detail@),
{
    let mut text = String::from_str("TOML parse error - ");
    text.append(detail);
    text
}

impl InvalidContentReason {
    /// The line that the reason is shown as.
    pub fn to_string(&self) -> (text: String)
        ensures
            text@ == reason_message(self@),
    {
        match self {
            InvalidContentReason::NotTomlString(key, value) => {
                let mut text = String::from_str("Expected key '");
                text.append(key.as_str());
                text.append("' to be String but got ");
                text.append(value_as_name(value));
                text
            },
            InvalidContentReason::NotTomlTable(key, value) => {
                let mut text = String::from_str("Expected key '");
                text.append(key.as_str());
                text.append("' to be Table but got ");
                text.append(value_as_name(value));
                text
            },
            InvalidContentReason::MissingKey(key) => {
                let mut text = String::from_str("Expected key '");
                text.append(key.as_str());
                text.append("' but it is not present");
                text
            },
        }
    }
}

impl CommandParseError {
    /// The line that the error is shown as.
    pub fn to_string(&self) -> (text: String)
        ensures
            is_message_of(self, text@),
    {
        match self {
            CommandParseError::IoError(e) => e.to_string(),
            CommandParseError::TomlDeError(e) => {
                let detail = e.to_string();
                parse_failure_text(detail.as_str())
            },
            CommandParseError::CommandNotFoundError(tokens) => {
                let mut text = String::from_str("Command `");
                text.append(tokens.as_str());
                text.append("` not found");
                text
            },
            CommandParseError::CommandContentInvalid(reason) => {
                let mut text = String::from_str("Command content invalid - ");
                let line = reason.to_string();
                text.append(line.as_str());
                text
            },
        }
    }
}

/// The line that ends a run that failed, around the error's own line.
pub open spec fn error_line_model(message: Seq<char>) -> Seq<char> {
    "Error: "@ + message + "\n"@
}

/// The line that ends a run that failed with `error`.
pub fn error_line(error: &CommandParseError) -> (line: String)
    ensures
        exists|message: Seq<char>|
            #[trigger] is_message_of(error, message) && line@ == error_line_model(message),
{
    let message = error.to_string();
    let mut line = String::from_str("Error: ");
    line.append(message.as_str());
    line.append("\n");
    line
}

impl From<std::io::Error> for CommandParseError {
    fn from(err: std::io::Error) -> (error: Self) {
        CommandParseError::IoError(err)
    }
}

impl vstd::std_specs::convert::FromSpecImpl<std::io::Error> for CommandParseError {
    open spec fn obeys_from_spec() -> bool {
        true
    }

    open spec fn from_spec(err: std::io::Error) -> Self {
        CommandParseError::IoError(err)
    }
}

impl From<toml::de::Error> for CommandParseError {
    fn from(err: toml::de::Error) -> (error: Self) {
        CommandParseError::TomlDeError(err)
    }
}

impl vstd::std_specs::convert::FromSpecImpl<toml::de::Error> for CommandParseError {
    open spec fn obeys_from_spec() -> bool {
        true
    }

    open spec fn from_spec(err: toml::de::Error) -> Self {
        CommandParseError::TomlDeError(err)
    }
}

impl From<InvalidContentReason> for CommandParseError {
    fn from(err: InvalidContentReason) -> (error: Self) {
        CommandParseError::CommandContentInvalid(err)
    }
}

impl vstd::std_specs::convert::FromSpecImpl<InvalidContentReason> for CommandParseError {
    open spec fn obeys_from_spec() -> bool {
        true
    }

    open spec fn from_spec(err: InvalidContentReason) -> Self {
        CommandParseError::CommandContentInvalid(err)
    }
}

} // verus!
