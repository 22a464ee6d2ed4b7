//! What can go wrong while a runtime is looked for.

use vstd::prelude::*;
use vstd::string::StringExecFns;

verus! {

/// The ways in which detection fails. Paths and messages are kept as text.
#[derive(Debug)]
pub enum ErrorKind {
    /// The working directory could not be determined.
    InvalidWorkDir,
    /// A text holds no version token.
    NoJavaVersionStringFound,
    /// The path, given here, does not have the shape of a launcher's path.
    LooksNotLikeJavaExecutableFile(String),
    /// The host could not start the candidate; its message is given here.
    JavaOutputFailed(String),
    /// The candidate at the path given here did not report a version.
    GettingJavaVersionFailed(String),
}

/// What an [`ErrorKind`] says, with its texts as sequences of characters.
pub enum Failure {
    InvalidWorkDir,
    NoJavaVersionStringFound,
    LooksNotLikeJavaExecutableFile(Seq<char>),
    JavaOutputFailed(Seq<char>),
    GettingJavaVersionFailed(Seq<char>),
}

impl View for ErrorKind {
    type V = Failure;

    open spec fn view(&self) -> Failure {
        match *self {
            ErrorKind::InvalidWorkDir => Failure::InvalidWorkDir,
            ErrorKind::NoJavaVersionStringFound => Failure::NoJavaVersionStringFound,
            ErrorKind::LooksNotLikeJavaExecutableFile(path) => {
                Failure::LooksNotLikeJavaExecutableFile(path@)
            },
            ErrorKind::JavaOutputFailed(message) => Failure::JavaOutputFailed(message@),
            ErrorKind::GettingJavaVersionFailed(path) => Failure::GettingJavaVersionFailed(path@),
        }
    }
}

/// An error of this library.
#[derive(Debug)]
pub struct Error {
    pub kind: ErrorKind,
}

impl View for Error {
    type V = Failure;

    open spec fn view(&self) -> Failure {
        self.kind@
    }
}

/// The message of a failure.
pub open spec fn message_of(failure: Failure) -> Seq<char> {
    match failure {
        Failure::InvalidWorkDir => "Java home directory not found"@,
        Failure::NoJavaVersionStringFound => "Invalid version string"@,
        Failure::LooksNotLikeJavaExecutableFile(path) => {
            "Path looks not like a Java executable file [**/bin/java(.exe)] : "@ + path
        },
        Failure::JavaOutputFailed(message) => "Failed to read Java output: "@ + message,
        Failure::GettingJavaVersionFailed(path) => "Failed to get Java version: "@ + path,
    }
}

impl Error {
    /// An error of the given kind.
    pub fn new(kind: ErrorKind) -> (e: Error)
        ensures
            e.kind == kind,
            e@ == kind@,
    {
        Error { kind }
    }

    /// The message of this error.
    pub fn to_string(&self) -> (s: String)
        ensures
            s@ == message_of(self@),
    {
        match &self.kind {
            ErrorKind::InvalidWorkDir => String::from_str("Java home directory not found"),
            ErrorKind::NoJavaVersionStringFound => String::from_str("Invalid version string"),
            ErrorKind::LooksNotLikeJavaExecutableFile(path) => {
                String::from_str(
                    "Path looks not like a Java executable file [**/bin/java(.exe)] : ",
                ).concat(path.as_str())
            },
            ErrorKind::JavaOutputFailed(message) => {
                String::from_str("Failed to read Java output: ").concat(message.as_str())
            },
            ErrorKind::GettingJavaVersionFailed(path) => {
                String::from_str("Failed to get Java version: ").concat(path.as_str())
            },
        }
    }
}

} // verus!
