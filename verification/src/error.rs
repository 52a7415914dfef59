//! Error types for `.repo` parsing, boolean parsing and variable expansion.
//!
//! - [`ParseError`]: INI-level syntax problems (bad headers, missing `=`, ...)
//! - [`ParseBoolError`]: a value that is not a DNF boolean
//! - [`ExpandError`]: variable substitution failures
//! - [`Error`]: the library-wide error that aggregates the others
//!
//! Each error has a `to_string` method giving its human-readable message.

use crate::text::{decimal_text, owned, push_str, spec_decimal};
use vstd::prelude::*;

verus! {

/// `std::io::Error`, carried through by the `Io` variants.
#[verifier::external_type_specification]
#[verifier::external_body]
pub struct ExIoError(std::io::Error);

/// Top-level error type for the library.
#[non_exhaustive]
#[derive(Debug)]
pub enum Error {
    /// Failed to parse a `.repo` file string.
    Parse(ParseError),
    /// Failed to parse a boolean value from a `.repo` file option.
    ParseBool(ParseBoolError),
    /// An option value is invalid for its expected type.
    InvalidValue { key: String, message: String },
    /// A repository with this ID already exists in the file.
    DuplicateRepo(String),
    /// A repository with this ID was not found.
    RepoNotFound(String),
    /// An I/O error occurred (file read/write).
    Io(std::io::Error),
    /// A generic error message.
    Other(String),
}

/// The error that an [`Error`] wraps, if any.
#[derive(Debug)]
pub enum ErrorSource<'a> {
    Parse(&'a ParseError),
    ParseBool(&'a ParseBoolError),
    Io(&'a std::io::Error),
}

/// Error when a value is not a DNF boolean (`1/0/yes/no/true/false/on/off`).
#[derive(Debug)]
pub struct ParseBoolError {
    /// The raw input string that could not be parsed as a boolean.
    pub input: String,
}

/// Error when parsing a `.repo` file fails.
#[non_exhaustive]
#[derive(Debug)]
pub enum ParseError {
    /// A section header (e.g., `[repo-name]`) has invalid syntax.
    InvalidSection { line: usize, header: String },
    /// A key-value pair is missing the `=` separator (or its key is empty).
    MissingEquals { line: usize, line_text: String },
    /// A section header with an empty name was encountered (`[]`).
    EmptySectionName,
    /// A repository ID contains invalid characters or is otherwise malformed.
    InvalidRepoId { id: String, reason: String },
    /// An I/O error occurred while reading the file.
    Io(std::io::Error),
}

/// Error when expanding DNF variables fails.
#[non_exhaustive]
#[derive(Debug)]
pub enum ExpandError {
    /// A referenced variable is not in the substitution map.
    VariableNotFound { name: String },
    /// The maximum recursion depth was exceeded.
    MaxDepthExceeded { depth: u32, expr: String },
    /// A variable expression has invalid syntax (a `$` without a name).
    MalformedExpression { expr: String },
}

/// Result type alias for convenience.
pub type Result<T> = std::result::Result<T, Error>;

impl Error {
    /// The wrapped error, for the variants that carry one.
    pub fn source(&self) -> (r: Option<ErrorSource<'_>>)
        ensures
            r is Some <==> (self is Parse || self is ParseBool || self is Io),
    {
        match self {
            Error::Parse(e) => Some(ErrorSource::Parse(e)),
            Error::ParseBool(e) => Some(ErrorSource::ParseBool(e)),
            Error::Io(e) => Some(ErrorSource::Io(e)),
            _ => None,
        }
    }

    /// The human-readable message of this error.
    pub fn to_string(&self) -> (r: String)
        ensures
            self matches Error::DuplicateRepo(id) ==> r@ == "repo '"@ + id@ + "' already exists in file"@,
            self matches Error::RepoNotFound(id) ==> r@ == "repo '"@ + id@ + "' not found"@,
            self matches Error::Other(m) ==> r@ == m@,
            self matches Error::InvalidValue { key, message } ==> r@ == "invalid option value for '"@
                + key@ + "': "@ + message@,
            self matches Error::ParseBool(e) ==> r@ == "failed to parse boolean value '"@ + (
            "invalid boolean value: '"@ + e.input@ + "'"@) + "'"@,
            self matches Error::Parse(e) ==> match parse_error_text(*e) {
                Some(t) => r@ == "failed to parse .repo file: "@ + t,
                None => starts_with(r@, "failed to parse .repo file: "@),
            },
            self is Io ==> starts_with(r@, "IO error: "@),
    {
        match self {
            Error::Parse(e) => {
                let mut r = owned("failed to parse .repo file: ");
                let ghost p = r@;
                let m = e.to_string();
                push_str(&mut r, m.as_str());
                assert(r@.subrange(0, p.len() as int) =~= p);
                r
            },
            Error::ParseBool(e) => {
                let mut r = owned("failed to parse boolean value '");
                let m = e.to_string();
                push_str(&mut r, m.as_str());
                push_str(&mut r, "'");
                r
            },
            Error::InvalidValue { key, message } => {
                let mut r = owned("invalid option value for '");
                push_str(&mut r, key.as_str());
                push_str(&mut r, "': ");
                push_str(&mut r, message.as_str());
                r
            },
            Error::DuplicateRepo(id) => {
                let mut r = owned("repo '");
                push_str(&mut r, id.as_str());
                push_str(&mut r, "' already exists in file");
                r
            },
            Error::RepoNotFound(id) => {
                let mut r = owned("repo '");
                push_str(&mut r, id.as_str());
                push_str(&mut r, "' not found");
                r
            },
            Error::Io(e) => {
                let mut r = owned("IO error: ");
                let ghost p = r@;
                let m = io_error_text(e);
                push_str(&mut r, m.as_str());
                assert(r@.subrange(0, p.len() as int) =~= p);
                r
            },
            Error::Other(m) => owned(m.as_str()),
        }
    }
}

/// The `Display` text of an I/O error (`ToString::to_string`).
#[verifier::external_body]
fn io_error_text(e: &std::io::Error) -> String {
    e.to_string()
}

impl ParseBoolError {
    /// The human-readable message of this error.
    pub fn to_string(&self) -> (r: String)
        ensures
            r@ == "invalid boolean value: '"@ + self.input@ + "'"@,
    {
        let mut r = owned("invalid boolean value: '");
        push_str(&mut r, self.input.as_str());
        push_str(&mut r, "'");
        r
    }
}

/// The message of a parse error that does not wrap an I/O error.
pub open spec fn parse_error_text(e: ParseError) -> Option<Seq<char>> {
    match e {
        ParseError::InvalidSection { line, header } => Some(
            "invalid section header at line "@ + spec_decimal(line as nat) + ": '"@ + header@ + "'"@,
        ),
        ParseError::MissingEquals { line, line_text } => Some(
            "missing '=' in key-value pair at line "@ + spec_decimal(line as nat) + ": '"@
                + line_text@ + "'"@,
        ),
        ParseError::EmptySectionName => Some("empty section name"@),
        ParseError::InvalidRepoId { id, reason } => Some(
            "invalid repo ID '"@ + id@ + "': "@ + reason@,
        ),
        ParseError::Io(_) => None,
    }
}

/// The text starts with the prefix.
pub open spec fn starts_with(s: Seq<char>, prefix: Seq<char>) -> bool {
    s.len() >= prefix.len() && s.subrange(0, prefix.len() as int) == prefix
}

impl ParseError {
    /// The human-readable message of this error.
    pub fn to_string(&self) -> (r: String)
        ensures
            match parse_error_text(*self) {
                Some(t) => r@ == t,
                None => starts_with(r@, "I/O error reading file: "@),
            },
    {
        match self {
            ParseError::InvalidSection { line, header } => {
                let mut r = owned("invalid section header at line ");
                let n = decimal_text(*line as u64);
                push_str(&mut r, n.as_str());
                push_str(&mut r, ": '");
                push_str(&mut r, header.as_str());
                push_str(&mut r, "'");
                r
            },
            ParseError::MissingEquals { line, line_text } => {
                let mut r = owned("missing '=' in key-value pair at line ");
                let n = decimal_text(*line as u64);
                push_str(&mut r, n.as_str());
                push_str(&mut r, ": '");
                push_str(&mut r, line_text.as_str());
                push_str(&mut r, "'");
                r
            },
            ParseError::EmptySectionName => owned("empty section name"),
            ParseError::InvalidRepoId { id, reason } => {
                let mut r = owned("invalid repo ID '");
                push_str(&mut r, id.as_str());
                push_str(&mut r, "': ");
                push_str(&mut r, reason.as_str());
                r
            },
            ParseError::Io(e) => {
                let mut r = owned("I/O error reading file: ");
                let ghost p = r@;
                let m = io_error_text(e);
                push_str(&mut r, m.as_str());
                assert(r@.subrange(0, p.len() as int) =~= p);
                r
            },
        }
    }
}

impl ExpandError {
    /// The human-readable message of this error.
    pub fn to_string(&self) -> (r: String)
        ensures
            self matches ExpandError::VariableNotFound { name } ==> r@ == "variable '"@ + name@
                + "' not found in substitution map"@,
            self matches ExpandError::MaxDepthExceeded { depth, expr } ==> r@
                == "maximum recursion depth ("@ + spec_decimal(depth as nat)
                + ") exceeded while expanding '"@ + expr@ + "'"@,
            self matches ExpandError::MalformedExpression { expr } ==> r@
                == "malformed variable expression: '"@ + expr@ + "'"@,
    {
        match self {
            ExpandError::VariableNotFound { name } => {
                let mut r = owned("variable '");
                push_str(&mut r, name.as_str());
                push_str(&mut r, "' not found in substitution map");
                r
            },
            ExpandError::MaxDepthExceeded { depth, expr } => {
                let mut r = owned("maximum recursion depth (");
                let n = decimal_text(*depth as u64);
                push_str(&mut r, n.as_str());
                push_str(&mut r, ") exceeded while expanding '");
                push_str(&mut r, expr.as_str());
                push_str(&mut r, "'");
                r
            },
            ExpandError::MalformedExpression { expr } => {
                let mut r = owned("malformed variable expression: '");
                push_str(&mut r, expr.as_str());
                push_str(&mut r, "'");
                r
            },
        }
    }
}

impl From<ParseError> for Error {
    fn from(e: ParseError) -> (r: Error) {
        Error::Parse(e)
    }
}

impl vstd::std_specs::convert::FromSpecImpl<ParseError> for Error {
    open spec fn obeys_from_spec() -> bool {
        true
    }

    open spec fn from_spec(e: ParseError) -> Error {
        Error::Parse(e)
    }
}

impl From<ParseBoolError> for Error {
    fn from(e: ParseBoolError) -> (r: Error) {
        Error::ParseBool(e)
    }
}

impl vstd::std_specs::convert::FromSpecImpl<ParseBoolError> for Error {
    open spec fn obeys_from_spec() -> bool {
        true
    }

    open spec fn from_spec(e: ParseBoolError) -> Error {
        Error::ParseBool(e)
    }
}

impl From<std::io::Error> for Error {
    fn from(e: std::io::Error) -> (r: Error) {
        Error::Io(e)
    }
}

impl vstd::std_specs::convert::FromSpecImpl<std::io::Error> for Error {
    open spec fn obeys_from_spec() -> bool {
        true
    }

    open spec fn from_spec(e: std::io::Error) -> Error {
        Error::Io(e)
    }
}

impl From<String> for Error {
    fn from(s: String) -> (r: Error) {
        Error::Other(s)
    }
}

impl vstd::std_specs::convert::FromSpecImpl<String> for Error {
    open spec fn obeys_from_spec() -> bool {
        true
    }

    open spec fn from_spec(s: String) -> Error {
        Error::Other(s)
    }
}

impl From<std::io::Error> for ParseError {
    fn from(e: std::io::Error) -> (r: ParseError) {
        ParseError::Io(e)
    }
}

impl vstd::std_specs::convert::FromSpecImpl<std::io::Error> for ParseError {
    open spec fn obeys_from_spec() -> bool {
        true
    }

    open spec fn from_spec(e: std::io::Error) -> ParseError {
        ParseError::Io(e)
    }
}

} // verus!
