//! The library's error type: one kind per subsystem, each carrying a
//! human-readable message.

use vstd::prelude::*;
use vstd::string::StringExecFns;

verus! {

/// An error raised by the library, tagged with the subsystem it belongs to.
#[derive(Debug, Clone, PartialEq, Eq)]
pub enum Error {
    Config(String),
    Channel(String),
    Agent(String),
    Database(String),
    Plugin(String),
    Security(String),
    Media(String),
    Gateway(String),
    Skill(String),
    Mcp(String),
    Io(String),
    Serialization(String),
    NotFound(String),
    Unauthorized(String),
    Other(String),
}

impl Error {
    /// The kind prefix that the display form puts before the message;
    /// empty for `Other`.
    pub open spec fn spec_prefix(&self) -> Seq<char> {
        match self {
            Error::Config(_) => "configuration error: "@,
            Error::Channel(_) => "channel error: "@,
            Error::Agent(_) => "agent error: "@,
            Error::Database(_) => "database error: "@,
            Error::Plugin(_) => "plugin error: "@,
            Error::Security(_) => "security error: "@,
            Error::Media(_) => "media error: "@,
            Error::Gateway(_) => "gateway error: "@,
            Error::Skill(_) => "skill error: "@,
            Error::Mcp(_) => "mcp error: "@,
            Error::Io(_) => "io error: "@,
            Error::Serialization(_) => "serialization error: "@,
            Error::NotFound(_) => "not found: "@,
            Error::Unauthorized(_) => "unauthorized: "@,
            Error::Other(_) => ""@,
        }
    }

    /// The message carried inside the error.
    pub open spec fn spec_message(&self) -> Seq<char> {
        match self {
            Error::Config(m) => m@,
            Error::Channel(m) => m@,
            Error::Agent(m) => m@,
            Error::Database(m) => m@,
            Error::Plugin(m) => m@,
            Error::Security(m) => m@,
            Error::Media(m) => m@,
            Error::Gateway(m) => m@,
            Error::Skill(m) => m@,
            Error::Mcp(m) => m@,
            Error::Io(m) => m@,
            Error::Serialization(m) => m@,
            Error::NotFound(m) => m@,
            Error::Unauthorized(m) => m@,
            Error::Other(m) => m@,
        }
    }

    /// The full display form: the kind prefix followed by the message.
    pub open spec fn spec_display(&self) -> Seq<char> {
        self.spec_prefix() + self.spec_message()
    }

    /// Render the error as the text a log line or a client reply carries.
    pub fn display_string(&self) -> (r: String)
        ensures
            r@ == self.spec_display(),
    {
        let prefix: &str = match self {
            Error::Config(_) => "configuration error: ",
            Error::Channel(_) => "channel error: ",
            Error::Agent(_) => "agent error: ",
            Error::Database(_) => "database error: ",
            Error::Plugin(_) => "plugin error: ",
            Error::Security(_) => "security error: ",
            Error::Media(_) => "media error: ",
            Error::Gateway(_) => "gateway error: ",
            Error::Skill(_) => "skill error: ",
            Error::Mcp(_) => "mcp error: ",
            Error::Io(_) => "io error: ",
            Error::Serialization(_) => "serialization error: ",
            Error::NotFound(_) => "not found: ",
            Error::Unauthorized(_) => "unauthorized: ",
            Error::Other(_) => "",
        };
        let message: &String = match self {
            Error::Config(m) => m,
            Error::Channel(m) => m,
            Error::Agent(m) => m,
            Error::Database(m) => m,
            Error::Plugin(m) => m,
            Error::Security(m) => m,
            Error::Media(m) => m,
            Error::Gateway(m) => m,
            Error::Skill(m) => m,
            Error::Mcp(m) => m,
            Error::Io(m) => m,
            Error::Serialization(m) => m,
            Error::NotFound(m) => m,
            Error::Unauthorized(m) => m,
            Error::Other(m) => m,
        };
        let mut r = String::new();
        r.append(prefix);
        r.append(message.as_str());
        r
    }
}

/// The library's result type.
pub type LibResult<T> = Result<T, Error>;

} // verus!
