//! The failures that this crate reports, each with the message it is shown
//! with.

use vstd::prelude::*;

verus! {

/// What went wrong while a schema was loaded, read, removed or saved.
#[derive(Clone, Copy, Debug, PartialEq, Eq, Structural)]
pub enum EntryError {
    /// The schema's file could not be opened.
    SchemaLoadError,
    /// The schema's file was opened, but its content is not a schema.
    SchemaParseError,
    /// The schema's file could not be removed.
    SchemaRemoveError,
    /// The schema's file could not be written.
    SchemaSaveError,
}

/// Why a time given on the command line was turned down.
#[derive(Clone, Copy, Debug, PartialEq, Eq, Structural)]
pub enum TimeError {
    /// The text holds no clock time.
    UnrecognizedInput,
    /// The hour of a time with `am` or `pm` is not one of 1 to 12.
    MeridiemHour,
    /// The hour of a 24-hour time is above 23.
    Hour,
    /// The minute is above 59.
    Minute,
}

/// Why a configuration key or value was turned down.
#[derive(Clone, Copy, Debug, PartialEq, Eq, Structural)]
pub enum ConfigError {
    /// No setting has this name.
    InvalidKey,
    /// The setting cannot take this value.
    InvalidValue,
}

/// Why no editor could be named.
#[derive(Clone, Copy, Debug, PartialEq, Eq, Structural)]
pub enum EditorError {
    /// The environment names none, and none was found on the system.
    Undetermined,
}

impl EditorError {
    /// The message of this error.
    pub open spec fn message_text(self) -> Seq<char> {
        "failed to determine editor"@
    }

    /// The message that the user is shown for this error.
    pub fn message(&self) -> (text: String)
        ensures
            text@ == self.message_text(),
    {
        "failed to determine editor".to_owned()
    }
}

impl TimeError {
    /// The message of this error.
    pub open spec fn message_text(self) -> Seq<char> {
        match self {
            TimeError::UnrecognizedInput => "unrecognized time input"@,
            TimeError::MeridiemHour => "invalid hour input for meridiem time"@,
            TimeError::Hour => "invalid hour input"@,
            TimeError::Minute => "invalid minute input"@,
        }
    }

    /// The message that the user is shown for this error.
    pub fn message(&self) -> (text: String)
        ensures
            text@ == self.message_text(),
    {
        match self {
            TimeError::UnrecognizedInput => "unrecognized time input".to_owned(),
            TimeError::MeridiemHour => "invalid hour input for meridiem time".to_owned(),
            TimeError::Hour => "invalid hour input".to_owned(),
            TimeError::Minute => "invalid minute input".to_owned(),
        }
    }
}

impl ConfigError {
    /// The message of this error.
    pub open spec fn message_text(self) -> Seq<char> {
        match self {
            ConfigError::InvalidKey => "invalid key, failed to retrieve config"@,
            ConfigError::InvalidValue => "invalid value, failed to set config"@,
        }
    }

    /// The message that the user is shown for this error.
    pub fn message(&self) -> (text: String)
        ensures
            text@ == self.message_text(),
    {
        match self {
            ConfigError::InvalidKey => "invalid key, failed to retrieve config".to_owned(),
            ConfigError::InvalidValue => "invalid value, failed to set config".to_owned(),
        }
    }
}

} // verus!
