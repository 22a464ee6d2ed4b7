//! What a host reports of a candidate path.
//!
//! The library reads no file and starts no process. Whoever calls it looks
//! at the path, runs the candidate where
//! [`JavaRuntime::looks_like_java_executable_file`](crate::JavaRuntime::looks_like_java_executable_file)
//! allows it, and hands over what was seen as an [`Observation`].

use vstd::prelude::*;
use vstd::utf8::decode_utf8;
use vstd::utf8::valid_utf8;

verus! {

/// The one argument with which a candidate is run to ask for its version.
/// The version is written to the diagnostic stream.
pub const VERSION_ARGUMENT: &'static str = "-version";

/// What came of running a candidate with its version argument.
#[derive(Debug)]
pub enum RunOutcome {
    /// The candidate was not run.
    NotRun,
    /// The host could not start the process; its message is given here.
    SpawnFailed(String),
    /// The process ended. `success` tells whether its exit status was a
    /// success, `diagnostics` holds the bytes of its diagnostic stream.
    Exited { success: bool, diagnostics: Vec<u8> },
}

/// A [`RunOutcome`] with its texts as sequences.
pub enum RunView {
    NotRun,
    SpawnFailed(Seq<char>),
    Exited { success: bool, diagnostics: Seq<u8> },
}

impl View for RunOutcome {
    type V = RunView;

    open spec fn view(&self) -> RunView {
        match *self {
            RunOutcome::NotRun => RunView::NotRun,
            RunOutcome::SpawnFailed(message) => RunView::SpawnFailed(message@),
            RunOutcome::Exited { success, diagnostics } => RunView::Exited {
                success,
                diagnostics: diagnostics@,
            },
        }
    }
}

/// What the host showed of one path.
#[derive(Debug)]
pub struct Observation {
    /// Whether a regular file stands at the path.
    pub is_file: bool,
    /// The canonical form of the path: absolute and free of symbolic
    /// links; `None` where the path could not be resolved.
    pub canonical: Option<String>,
    /// What came of running the file.
    pub run: RunOutcome,
}

/// An [`Observation`] with its texts as sequences.
pub struct ObservationView {
    pub is_file: bool,
    pub canonical: Option<Seq<char>>,
    pub run: RunView,
}

impl View for Observation {
    type V = ObservationView;

    open spec fn view(&self) -> ObservationView {
        ObservationView {
            is_file: self.is_file,
            canonical: match self.canonical {
                Some(path) => Some(path@),
                None => None,
            },
            run: self.run@,
        }
    }
}

/// The text that a lossy decoding makes of bytes that are no valid UTF-8.
pub uninterp spec fn utf8_lossy(bytes: Seq<u8>) -> Seq<char>;

/// The text of a diagnostic stream: what the bytes encode where they are
/// valid UTF-8, and else what a lossy decoding makes of them.
pub open spec fn decoded(bytes: Seq<u8>) -> Seq<char> {
    if valid_utf8(bytes) {
        decode_utf8(bytes)
    } else {
        utf8_lossy(bytes)
    }
}

/// The text of `bytes`, decoded by `String::from_utf8_lossy`. Not proved:
/// that bytes which are valid UTF-8 give the text that they encode, and
/// that the text of other bytes depends on the bytes alone. There the
/// standard library puts U+FFFD in place of each invalid sequence, which
/// is not stated here.
#[verifier::external_body]
pub(crate) fn decode_lossy(bytes: &Vec<u8>) -> (text: String)
    ensures
        text@ == if valid_utf8(bytes@) {
            decode_utf8(bytes@)
        } else {
            utf8_lossy(bytes@)
        },
{
    String::from_utf8_lossy(bytes.as_slice()).into_owned()
}

} // verus!
