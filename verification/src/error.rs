//! What can go wrong while locating an installation and decoding its files.

use vstd::prelude::*;
use vstd::string::*;

use crate::text::{ascii_chars, decimal_digits, decimal_text};

verus! {

/// Why a read of the disk failed, as far as the engine tells the causes
/// apart.
#[derive(Debug, Clone, Copy, PartialEq, Eq, Structural)]
pub enum IoErrorKind {
    NotFound,
    PermissionDenied,
    /// What was read is not of the form that the read asked for.
    InvalidData,
    Other,
}

/// A failed read: its kind, and the message that the system gave.
#[derive(Debug, Clone, PartialEq, Eq)]
pub struct IoError {
    pub kind: IoErrorKind,
    pub message: String,
}

impl IoError {
    /// A failure of the given kind, without a message.
    pub fn of_kind(kind: IoErrorKind) -> (error: IoError)
        ensures
            error.kind == kind,
            error.message@.len() == 0,
    {
        IoError { kind, message: String::new() }
    }

    /// The same failure once more.
    pub fn duplicate(&self) -> (error: IoError)
        ensures
            error == *self,
    {
        IoError { kind: self.kind, message: self.message.clone() }
    }
}

/// Why no installation could be located.
#[derive(Debug, Clone)]
pub enum LocateError {
    Backend(BackendError),
    Unsupported,
}

/// A failure of the platform's own means of locating the installation.
#[derive(Debug, Clone)]
pub struct BackendError {
    pub inner: BackendErrorInner,
}

#[derive(Debug, Clone)]
pub enum BackendErrorInner {
    /// The user's home directory is not known.
    NoHome,
    /// The registry could not be read.
    Registry(IoError),
}

/// Why a directory is no Steam installation.
#[derive(Debug, Clone)]
pub struct ValidationError {
    pub inner: ValidationErrorInner,
}

#[derive(Debug, Clone, Copy, PartialEq, Eq, Structural)]
pub enum ValidationErrorInner {
    MissingDirectory,
}

/// The kind of file that failed to decode.
#[derive(Debug, Clone, Copy, PartialEq, Eq, Structural)]
pub enum ParseErrorKind {
    Config,
    LibraryFolders,
    App,
    Shortcut,
}

/// Why the fields of a decoded document do not make up the expected entity.
#[derive(Debug, Clone, Copy, PartialEq, Eq, Structural)]
pub enum DecodeError {
    /// A key that must be there is absent.
    MissingField,
    /// A key is there, but its value is not of the expected form.
    InvalidValue,
}

/// Why a file failed to decode.
#[derive(Debug, Clone, PartialEq, Eq)]
pub enum ParseErrorInner {
    /// The text is no key-value document; the message is the parser's.
    Parse(String),
    /// The document does not hold the fields of the entity.
    Decode(DecodeError),
    /// The content is not laid out as this kind of file is.
    UnexpectedStructure,
    /// The file is not there.
    Missing,
}

/// A failure to decode one file.
#[derive(Debug, Clone, PartialEq, Eq)]
pub struct ParseError {
    pub inner: ParseErrorInner,
}

/// Every failure that a query of the engine can report.
#[derive(Debug, Clone)]
pub enum Error {
    FailedLocate(LocateError),
    InvalidSteamDir(ValidationError),
    Io { inner: IoError, path: String },
    Parse { kind: ParseErrorKind, error: ParseError, path: String },
    MissingExpectedApp { app_id: u32 },
}

impl LocateError {
    /// The failure to find the user's home directory.
    pub open spec fn no_home_error() -> LocateError {
        LocateError::Backend(BackendError { inner: BackendErrorInner::NoHome })
    }

    /// The failure to read the registry.
    pub open spec fn registry_error(io: IoError) -> LocateError {
        LocateError::Backend(BackendError { inner: BackendErrorInner::Registry(io) })
    }

    /// The failure to find the user's home directory.
    pub fn no_home() -> (error: LocateError)
        ensures
            error == LocateError::no_home_error(),
    {
        LocateError::Backend(BackendError { inner: BackendErrorInner::NoHome })
    }

    /// The failure to read the registry.
    pub fn winreg(io: IoError) -> (error: LocateError)
        ensures
            error == LocateError::registry_error(io),
    {
        LocateError::Backend(BackendError { inner: BackendErrorInner::Registry(io) })
    }
}

impl ValidationError {
    /// The failure of a path that is no directory.
    pub fn missing_dir() -> (error: ValidationError)
        ensures
            error == (ValidationError { inner: ValidationErrorInner::MissingDirectory }),
    {
        ValidationError { inner: ValidationErrorInner::MissingDirectory }
    }
}

impl ParseError {
    pub fn new(inner: ParseErrorInner) -> (error: ParseError)
        ensures
            error.inner == inner,
    {
        ParseError { inner }
    }

    /// The failure of a text that the parser rejected with `message`.
    pub fn from_parser(message: String) -> (error: ParseError)
        ensures
            error.inner == ParseErrorInner::Parse(message),
    {
        ParseError::new(ParseErrorInner::Parse(message))
    }

    /// The failure of a document that does not hold the entity's fields.
    pub fn from_decode(decode: DecodeError) -> (error: ParseError)
        ensures
            error.inner == ParseErrorInner::Decode(decode),
    {
        ParseError::new(ParseErrorInner::Decode(decode))
    }

    pub fn unexpected_structure() -> (error: ParseError)
        ensures
            error.inner == ParseErrorInner::UnexpectedStructure,
    {
        ParseError::new(ParseErrorInner::UnexpectedStructure)
    }

    pub fn missing() -> (error: ParseError)
        ensures
            error.inner == ParseErrorInner::Missing,
    {
        ParseError::new(ParseErrorInner::Missing)
    }

}

impl Error {
    pub fn locate(locate: LocateError) -> (error: Error)
        ensures
            error == Error::FailedLocate(locate),
    {
        Error::FailedLocate(locate)
    }

    pub fn validation(validation: ValidationError) -> (error: Error)
        ensures
            error == Error::InvalidSteamDir(validation),
    {
        Error::InvalidSteamDir(validation)
    }

    pub fn io(io: IoError, path: &str) -> (error: Error)
        ensures
            error matches Error::Io { inner, path: at } && inner == io && at@ == path@,
    {
        Error::Io { inner: io, path: path.to_owned() }
    }

    pub fn parse(kind: ParseErrorKind, error: ParseError, path: &str) -> (failure: Error)
        ensures
            failure matches Error::Parse { kind: k, error: e, path: at } && k == kind && e == error
                && at@ == path@,
    {
        Error::Parse { kind, error, path: path.to_owned() }
    }
}

impl IoError {
    /// What the failure says: the message that the system gave.
    pub open spec fn message_text(self) -> Seq<char> {
        self.message@
    }

    /// Says what failed.
    pub fn message(&self) -> (text: String)
        ensures
            text@ == self.message_text(),
    {
        self.message.clone()
    }
}

impl BackendError {
    /// What the failure says.
    pub open spec fn message_text(self) -> Seq<char> {
        match self.inner {
            BackendErrorInner::NoHome => "Unable to locate the user's $HOME"@,
            BackendErrorInner::Registry(io) => io.message_text(),
        }
    }

    /// Says what failed.
    pub fn message(&self) -> (text: String)
        ensures
            text@ == self.message_text(),
    {
        match &self.inner {
            BackendErrorInner::NoHome => "Unable to locate the user's $HOME".to_owned(),
            BackendErrorInner::Registry(io) => io.message(),
        }
    }
}

impl LocateError {
    /// What the failure says.
    pub open spec fn message_text(self) -> Seq<char> {
        match self {
            LocateError::Backend(error) => error.message_text(),
            LocateError::Unsupported => "Unsupported platform"@,
        }
    }

    /// Says what failed.
    pub fn message(&self) -> (text: String)
        ensures
            text@ == self.message_text(),
    {
        match self {
            LocateError::Backend(error) => error.message(),
            LocateError::Unsupported => "Unsupported platform".to_owned(),
        }
    }
}

impl ValidationError {
    /// What the failure says.
    pub open spec fn message_text(self) -> Seq<char> {
        match self.inner {
            ValidationErrorInner::MissingDirectory => "The Steam installation directory either isn't a directory or doesn't exist"@,
        }
    }

    /// Says what failed.
    pub fn message(&self) -> (text: String)
        ensures
            text@ == self.message_text(),
    {
        match self.inner {
            ValidationErrorInner::MissingDirectory => "The Steam installation directory either isn't a directory or doesn't exist".to_owned(),
        }
    }
}

impl ParseErrorKind {
    /// The name of the kind.
    pub open spec fn name_text(self) -> Seq<char> {
        match self {
            ParseErrorKind::Config => "Config"@,
            ParseErrorKind::LibraryFolders => "LibraryFolders"@,
            ParseErrorKind::App => "App"@,
            ParseErrorKind::Shortcut => "Shortcut"@,
        }
    }

    /// Names the kind.
    pub fn name(&self) -> (text: &'static str)
        ensures
            text@ == self.name_text(),
    {
        match self {
            ParseErrorKind::Config => "Config",
            ParseErrorKind::LibraryFolders => "LibraryFolders",
            ParseErrorKind::App => "App",
            ParseErrorKind::Shortcut => "Shortcut",
        }
    }
}

impl ParseError {
    /// What the failure says.
    pub open spec fn message_text(self) -> Seq<char> {
        match self.inner {
            ParseErrorInner::Parse(message) => message@,
            ParseErrorInner::Decode(DecodeError::MissingField) => "A required field of the file was missing"@,
            ParseErrorInner::Decode(DecodeError::InvalidValue) => "A field of the file held a value of an unexpected form"@,
            ParseErrorInner::UnexpectedStructure => "File did not match expected structure"@,
            ParseErrorInner::Missing => "Expected file was missing"@,
        }
    }

    /// Says what failed.
    pub fn message(&self) -> (text: String)
        ensures
            text@ == self.message_text(),
    {
        match &self.inner {
            ParseErrorInner::Parse(message) => message.clone(),
            ParseErrorInner::Decode(DecodeError::MissingField) => "A required field of the file was missing".to_owned(),
            ParseErrorInner::Decode(DecodeError::InvalidValue) => "A field of the file held a value of an unexpected form".to_owned(),
            ParseErrorInner::UnexpectedStructure => "File did not match expected structure".to_owned(),
            ParseErrorInner::Missing => "Expected file was missing".to_owned(),
        }
    }
}

impl Error {
    /// What the failure says: what was being done, what went wrong, and
    /// where.
    pub open spec fn message_text(self) -> Seq<char> {
        match self {
            Error::FailedLocate(error) => "Failed locating the steam dir. Error: "@
                + error.message_text(),
            Error::InvalidSteamDir(error) => "Failed validating steam dir. Error: "@
                + error.message_text(),
            Error::Io { inner, path } => "Encountered an I/O error: "@ + inner.message_text()
                + " at "@ + path@,
            Error::Parse { kind, error, path } => "Failed parsing VDF file. File kind: "@
                + kind.name_text() + ", Error: "@ + error.message_text() + " at "@ + path@,
            Error::MissingExpectedApp { app_id } => "Missing expected app with id: "@
                + ascii_chars(decimal_digits(app_id as nat)),
        }
    }

    /// Says what failed.
    pub fn message(&self) -> (text: String)
        ensures
            text@ == self.message_text(),
    {
        match self {
            Error::FailedLocate(error) => {
                let mut text = "Failed locating the steam dir. Error: ".to_owned();
                text.append(error.message().as_str());
                text
            },
            Error::InvalidSteamDir(error) => {
                let mut text = "Failed validating steam dir. Error: ".to_owned();
                text.append(error.message().as_str());
                text
            },
            Error::Io { inner, path } => {
                let mut text = "Encountered an I/O error: ".to_owned();
                text.append(inner.message().as_str());
                text.append(" at ");
                text.append(path.as_str());
                text
            },
            Error::Parse { kind, error, path } => {
                let mut text = "Failed parsing VDF file. File kind: ".to_owned();
                text.append(kind.name());
                text.append(", Error: ");
                text.append(error.message().as_str());
                text.append(" at ");
                text.append(path.as_str());
                text
            },
            Error::MissingExpectedApp { app_id } => {
                let mut text = "Missing expected app with id: ".to_owned();
                text.append(decimal_text(*app_id as u64).as_str());
                text
            },
        }
    }
}

} // verus!
