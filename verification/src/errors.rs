//! The build's error model. Every failure aborts the build; each variant
//! carries enough context to name the offending input.
use vstd::prelude::*;
use vstd::string::StringExecFns;

verus! {

/// A fatal build error.
#[derive(Debug)]
pub enum Error {
    /// The output directory holds entries and clearing was not requested.
    NotEmpty,
    /// Excluded-topic resolution was asked for; it is not supported.
    Unsupported,
    /// An include pattern did not compile to a glob.
    InvalidGlob { pattern: String },
    /// A listed exercise file does not lie under its exercise directory.
    InvalidPath { path: String },
    /// A config file could not be read or parsed.
    Load { path: String },
    /// A filesystem operation failed.
    Io { message: String },
}

/// The diagnostic text of each error variant.
pub open spec fn message_spec(e: &Error) -> Seq<char> {
    match e {
        Error::NotEmpty => "output directory is not empty"@,
        Error::Unsupported => "excluded topics are not supported"@,
        Error::InvalidGlob { pattern } => "invalid include pattern: "@ + pattern@,
        Error::InvalidPath { path } => "file lies outside its exercise directory: "@ + path@,
        Error::Load { path } => "cannot load config file: "@ + path@,
        Error::Io { message } => "filesystem error: "@ + message@,
    }
}

impl Error {
    /// Renders the error as text for diagnostics.
    pub fn message(&self) -> (r: String)
        ensures
            r@ == message_spec(self),
    {
        match self {
            Error::NotEmpty => "output directory is not empty".to_owned(),
            Error::Unsupported => "excluded topics are not supported".to_owned(),
            Error::InvalidGlob { pattern } => "invalid include pattern: ".to_owned().concat(
                pattern.as_str(),
            ),
            Error::InvalidPath { path } => "file lies outside its exercise directory: ".to_owned()
                .concat(path.as_str()),
            Error::Load { path } => "cannot load config file: ".to_owned().concat(path.as_str()),
            Error::Io { message } => "filesystem error: ".to_owned().concat(message.as_str()),
        }
    }
}

} // verus!
