//! Rules for finding Java runtimes: the version grammar, the shape of a
//! launcher's path, and what a probe of a candidate makes of what the host
//! reports. The library does no input or output of its own.
//!
//! * To turn what a walk of the file system has seen into runtimes, see
//!   [`detector`].
//! * A host is named by its operating system tag, such as `linux` or
//!   `windows`; the tag decides the launcher's file name and how paths are
//!   read.

use vstd::prelude::*;

pub mod detector;
pub mod environment;
pub mod error;
pub mod observation;
pub mod paths;
mod text;
pub mod version;

use crate::error::Error;
use crate::error::ErrorKind;
use crate::error::Failure;
use crate::observation::decode_lossy;
use crate::observation::decoded;
use crate::observation::Observation;
use crate::observation::ObservationView;
use crate::observation::RunOutcome;
use crate::observation::RunView;
use crate::paths::file_name;
use crate::paths::has_root;
use crate::paths::is_launcher_path;
use crate::paths::is_windows_name;
use crate::paths::join;
use crate::paths::join_path;
use crate::paths::launcher_name;
use crate::paths::launcher_path;
use crate::paths::parent;
use crate::paths::path_has_root;
use crate::text::chars_of;
use crate::text::same_text;
use crate::version::extracted;
use crate::version::find_token;
use crate::version::is_version_token;
use crate::version::lemma_bare_token;
use crate::version::lemma_extracted_is_first;
use crate::version::lemma_extracted_is_token;
use crate::version::lemma_extracted_none;
use crate::version::lemma_quoted;
use crate::version::lemma_token_chars;
use crate::version::quoted;
use crate::version::QUOTE;

verus! {

/// A Java runtime at a path: the operating system it was recorded under,
/// the path of its launcher, and its version.
///
/// The version of a runtime is always a version token.
#[derive(Debug)]
pub struct JavaRuntime {
    os: String,
    path: String,
    version_string: String,
}

/// What a [`JavaRuntime`] holds, as sequences of characters.
pub struct RuntimeView {
    pub os: Seq<char>,
    pub path: Seq<char>,
    pub version: Seq<char>,
}

impl View for JavaRuntime {
    type V = RuntimeView;

    closed spec fn view(&self) -> RuntimeView {
        RuntimeView { os: self.os@, path: self.path@, version: self.version_string@ }
    }
}

/// Two runtimes are the same where they have the same operating system and
/// the same path; their versions are not compared.
pub open spec fn same_runtime(a: RuntimeView, b: RuntimeView) -> bool {
    a.os == b.os && a.path == b.path
}

/// A result as its view.
pub open spec fn outcome_view(r: Result<JavaRuntime, Error>) -> Result<RuntimeView, Failure> {
    match r {
        Ok(runtime) => Ok(runtime@),
        Err(e) => Err(e@),
    }
}

/// The runtime assembled from an operating system tag, a path and a text
/// that holds a version: the version is extracted from the text.
pub open spec fn assembled(os: Seq<char>, path: Seq<char>, text: Seq<char>) -> Result<
    RuntimeView,
    Failure,
> {
    match extracted(text) {
        Some(version) => Ok(RuntimeView { os, path, version }),
        None => Err(Failure::NoJavaVersionStringFound),
    }
}

/// What was seen is a regular file whose canonical path is that of a
/// launcher on the host.
pub open spec fn fits(host: Seq<char>, seen: ObservationView) -> bool {
    &&& seen.is_file
    &&& seen.canonical is Some
    &&& is_launcher_path(seen.canonical->0, is_windows_name(host))
}

/// The version that a probe of `path` finds, given what was seen of it.
///
/// A path that does not fit is rejected, whatever came of a run. A fitting
/// candidate that could not be started, that ended in failure or that was
/// not run gives no version. Else the version is extracted from the
/// diagnostic stream, decoded leniently.
pub open spec fn probed_version(host: Seq<char>, path: Seq<char>, seen: ObservationView) -> Result<
    Seq<char>,
    Failure,
> {
    if !fits(host, seen) {
        Err(Failure::LooksNotLikeJavaExecutableFile(path))
    } else {
        match seen.run {
            RunView::NotRun => Err(Failure::GettingJavaVersionFailed(path)),
            RunView::SpawnFailed(message) => Err(Failure::JavaOutputFailed(message)),
            RunView::Exited { success, diagnostics } => {
                if !success {
                    Err(Failure::GettingJavaVersionFailed(path))
                } else {
                    match extracted(decoded(diagnostics)) {
                        Some(version) => Ok(version),
                        None => Err(Failure::NoJavaVersionStringFound),
                    }
                }
            },
        }
    }
}

/// The runtime that a probe of `path` on `host` gives: tagged with the
/// host, at the path as it was given.
pub open spec fn probed(host: Seq<char>, path: Seq<char>, seen: ObservationView) -> Result<
    RuntimeView,
    Failure,
> {
    match probed_version(host, path, seen) {
        Ok(version) => Ok(RuntimeView { os: host, path, version }),
        Err(failure) => Err(failure),
    }
}

/// A runtime assembled again from its own three fields is the same
/// runtime, with the same version.
pub proof fn lemma_fields_round_trip(runtime: RuntimeView)
    requires
        is_version_token(runtime.version),
    ensures
        assembled(runtime.os, runtime.path, runtime.version) == Ok::<RuntimeView, Failure>(runtime),
{
    lemma_bare_token(runtime.version);
}

/// Whatever is assembled or probed has a version token for its version.
pub proof fn lemma_version_conforms(
    os: Seq<char>,
    path: Seq<char>,
    text: Seq<char>,
    seen: ObservationView,
)
    ensures
        assembled(os, path, text) is Ok ==> is_version_token(assembled(os, path, text)->Ok_0.version),
        probed(os, path, seen) is Ok ==> is_version_token(probed(os, path, seen)->Ok_0.version),
{
    if assembled(os, path, text) is Ok {
        lemma_extracted_is_token(text);
    }
    if probed(os, path, seen) is Ok {
        lemma_extracted_is_token(decoded(seen.run->Exited_diagnostics));
    }
}

/// Nothing fits but a regular file whose canonical path is known and has
/// the launcher's name in a directory named `bin`: no path without a file,
/// no directory, no file in a directory of another name.
pub proof fn lemma_fits(host: Seq<char>, seen: ObservationView)
    ensures
        fits(host, seen) ==> seen.is_file && seen.canonical is Some,
        fits(host, seen) ==> file_name(seen.canonical->0, is_windows_name(host)) == launcher_name(
            is_windows_name(host),
        ),
        fits(host, seen) ==> file_name(
            parent(seen.canonical->0, is_windows_name(host)),
            is_windows_name(host),
        ) == "bin"@,
{
}

/// A probe gives a runtime exactly where the candidate fits, ran, ended in
/// success and wrote a text that holds a version.
pub proof fn lemma_probe_succeeds(host: Seq<char>, path: Seq<char>, seen: ObservationView)
    ensures
        probed(host, path, seen) is Ok <==> {
            &&& fits(host, seen)
            &&& seen.run matches RunView::Exited { success, diagnostics }
            &&& success
            &&& extracted(decoded(diagnostics)) is Some
        },
{
}

/// Two probes of one path on one host that both succeed give the same
/// runtime, whatever versions they found.
pub proof fn lemma_probe_again(
    host: Seq<char>,
    path: Seq<char>,
    first: ObservationView,
    second: ObservationView,
)
    requires
        probed(host, path, first) is Ok,
        probed(host, path, second) is Ok,
    ensures
        same_runtime(probed(host, path, first)->Ok_0, probed(host, path, second)->Ok_0),
{
}

/// Being the same runtime is an equivalence, and it does not look at the
/// version.
pub proof fn lemma_same_runtime(a: RuntimeView, b: RuntimeView, c: RuntimeView)
    ensures
        same_runtime(a, a),
        same_runtime(a, b) ==> same_runtime(b, a),
        same_runtime(a, b) && same_runtime(b, c) ==> same_runtime(a, c),
        same_runtime(a, RuntimeView { os: a.os, path: a.path, version: b.version }),
        a.os != b.os ==> !same_runtime(a, b),
        a.path != b.path ==> !same_runtime(a, b),
{
}

impl JavaRuntime {
    #[verifier::type_invariant]
    spec fn conforms(&self) -> bool {
        is_version_token(self.version_string@)
    }

    /// Probes the launcher at `path` on `host`, given what the host showed
    /// of the path.
    ///
    /// * `host` The operating system tag of the host.
    /// * `path` The path of the launcher, kept as it is given.
    /// * `seen` What the host showed of `path`.
    ///
    /// # Errors
    ///
    /// * `LooksNotLikeJavaExecutableFile` where what was seen does not fit
    ///   (see [`JavaRuntime::looks_like_java_executable_file`]), whatever
    ///   came of a run.
    /// * `JavaOutputFailed` where the candidate could not be started.
    /// * `GettingJavaVersionFailed` where it ended in failure, or was not
    ///   run.
    /// * `NoJavaVersionStringFound` where it ended in success and its
    ///   diagnostic stream holds no version.
    pub fn from_executable(host: &str, path: &str, seen: &Observation) -> (r: Result<Self, Error>)
        ensures
            outcome_view(r) == probed(host@, path@, seen@),
    {
        match Self::probe_version(host, path, seen) {
            Ok(version_string) => Ok(
                Self { os: host.to_owned(), path: path.to_owned(), version_string },
            ),
            Err(e) => Err(e),
        }
    }

    /// Assembles a runtime without looking at the host.
    ///
    /// * `os` The operating system tag; any tag is accepted.
    /// * `path` The path of the launcher, relative or absolute.
    /// * `version_string` A version such as `17.0.4.1`, or a text that
    ///   holds one in quotes, such as the output of `java -version`.
    pub fn new(os: &str, path: &str, version_string: &str) -> (r: Result<Self, Error>)
        ensures
            outcome_view(r) == assembled(os@, path@, version_string@),
    {
        match Self::extract_version(version_string) {
            Ok(version_string) => Ok(
                Self { os: os.to_owned(), path: path.to_owned(), version_string },
            ),
            Err(e) => Err(e),
        }
    }

    /// The operating system tag that the runtime was recorded under.
    pub fn get_os(&self) -> (r: &str)
        ensures
            r@ == self@.os,
    {
        self.os.as_str()
    }

    /// Whether the runtime was recorded under Windows.
    pub fn is_windows(&self) -> (r: bool)
        ensures
            r == is_windows_name(self@.os),
    {
        same_text(self.os.as_str(), "windows")
    }

    /// The path of the launcher, absolute or relative as it was given.
    pub fn get_executable(&self) -> (r: &str)
        ensures
            r@ == self@.path,
    {
        self.path.as_str()
    }

    /// Whether the path starts at a root, read as a path of the operating
    /// system that the runtime was recorded under.
    pub fn has_root(&self) -> (r: bool)
        ensures
            r == has_root(self@.path, is_windows_name(self@.os)),
    {
        let windows = self.is_windows();
        path_has_root(self.path.as_str(), windows)
    }

    /// The version of the runtime.
    pub fn get_version_string(&self) -> (r: &str)
        ensures
            r@ == self@.version,
            is_version_token(r@),
    {
        proof {
            use_type_invariant(self);
        }
        self.version_string.as_str()
    }

    /// Whether the runtime was recorded under the operating system of
    /// `host`.
    pub fn is_same_os(&self, host: &str) -> (r: bool)
        ensures
            r == (self@.os == host@),
    {
        same_text(self.os.as_str(), host)
    }

    /// The runtime with its path made absolute against the working
    /// directory `cwd`. A path that starts at a root stays as it is.
    ///
    /// # Errors
    ///
    /// `InvalidWorkDir` where `cwd` is `None`: the working directory could
    /// not be determined.
    pub fn to_absolute(&self, cwd: Option<&str>) -> (r: Result<Self, Error>)
        ensures
            match cwd {
                Some(dir) => outcome_view(r) == Ok::<RuntimeView, Failure>(
                    RuntimeView {
                        os: self@.os,
                        path: join(dir@, self@.path, is_windows_name(self@.os)),
                        version: self@.version,
                    },
                ),
                None => outcome_view(r) == Err::<RuntimeView, Failure>(Failure::InvalidWorkDir),
            },
    {
        match cwd {
            None => Err(Error::new(ErrorKind::InvalidWorkDir)),
            Some(dir) => {
                let windows = self.is_windows();
                let path_absolute = join_path(dir, self.path.as_str(), windows);
                proof {
                    use_type_invariant(self);
                    lemma_bare_token(self.version_string@);
                }
                Self::new(self.os.as_str(), path_absolute.as_str(), self.version_string.as_str())
            },
        }
    }

    /// Probes the launcher again, given what the host now shows of the
    /// runtime's path. A version that is found replaces the old one; on
    /// failure the runtime stays as it was.
    pub fn update(&mut self, host: &str, seen: &Observation) -> (r: Result<(), Error>)
        ensures
            match probed_version(host@, old(self)@.path, seen@) {
                Ok(version) => r is Ok && final(self)@ == RuntimeView {
                    os: old(self)@.os,
                    path: old(self)@.path,
                    version,
                },
                Err(failure) => r is Err && r->Err_0@ == failure && final(self)@ == old(self)@,
            },
    {
        match Self::probe_version(host, self.path.as_str(), seen) {
            Ok(version_string) => {
                self.version_string = version_string;
                Ok(())
            },
            Err(e) => Err(e),
        }
    }

    /// Whether the runtime is of the host's operating system and a probe
    /// of its path succeeds, given what the host shows of the path.
    pub fn is_available(&self, host: &str, seen: &Observation) -> (r: bool)
        ensures
            r == (self@.os == host@ && probed(host@, self@.path, seen@) is Ok),
    {
        self.is_same_os(host) && Self::from_executable(host, self.path.as_str(), seen).is_ok()
    }

    /// The version that `version_string` holds: its first version token
    /// between double quotes, the text itself counting as quoted.
    ///
    /// # Errors
    ///
    /// `NoJavaVersionStringFound` where the text holds no such token.
    pub fn extract_version(version_string: &str) -> (r: Result<String, Error>)
        ensures
            match r {
                Ok(version) => extracted(version_string@) == Some(version@),
                Err(e) => extracted(version_string@) is None && e@
                    == Failure::NoJavaVersionStringFound,
            },
    {
        let chars = chars_of(version_string);
        let mut w: Vec<char> = Vec::new();
        w.push(QUOTE);
        let n = chars.len();
        let mut k: usize = 0;
        while k < n
            invariant
                k <= n,
                n == chars.len(),
                w@ == seq![QUOTE] + chars@.take(k as int),
            decreases n - k,
        {
            w.push(chars[k]);
            k += 1;
        }
        w.push(QUOTE);
        proof {
            assert(w@ =~= quoted(version_string@));
            lemma_quoted(version_string@);
        }
        match find_token(&w) {
            Some((i, j)) => {
                proof {
                    lemma_extracted_is_first(version_string@, i as int, j as int);
                    lemma_extracted_is_token(version_string@);
                    let t = w@.subrange(i + 1, j as int);
                    lemma_token_chars(t);
                }
                Ok(version_string.substring_char(i, j - 1).to_owned())
            },
            None => {
                proof {
                    lemma_extracted_none(version_string@);
                }
                Err(Error::new(ErrorKind::NoJavaVersionStringFound))
            },
        }
    }

    /// Whether what was seen of a path is a regular file whose canonical
    /// path names `java`, on Windows `java.exe`, in a directory named
    /// `bin`. A file name alone is not enough: other files are called
    /// `java` too.
    pub fn looks_like_java_executable_file(host: &str, seen: &Observation) -> (r: bool)
        ensures
            r == fits(host@, seen@),
    {
        if !seen.is_file {
            return false;
        }
        match &seen.canonical {
            Some(path_absolute) => launcher_path(path_absolute.as_str(), same_text(host, "windows")),
            None => false,
        }
    }

    /// The file name of the launcher on `host`: `java.exe` on Windows,
    /// `java` elsewhere.
    pub fn get_java_executable_name(host: &str) -> (r: String)
        ensures
            r@ == launcher_name(is_windows_name(host@)),
    {
        if same_text(host, "windows") {
            "java.exe".to_owned()
        } else {
            "java".to_owned()
        }
    }

    /// The version that a probe of `path` finds.
    fn probe_version(host: &str, path: &str, seen: &Observation) -> (r: Result<String, Error>)
        ensures
            match r {
                Ok(version) => probed_version(host@, path@, seen@) == Ok::<Seq<char>, Failure>(
                    version@,
                ) && is_version_token(version@),
                Err(e) => probed_version(host@, path@, seen@) == Err::<Seq<char>, Failure>(e@),
            },
    {
        if !Self::looks_like_java_executable_file(host, seen) {
            return Err(Error::new(ErrorKind::LooksNotLikeJavaExecutableFile(path.to_owned())));
        }
        match &seen.run {
            RunOutcome::NotRun => Err(
                Error::new(ErrorKind::GettingJavaVersionFailed(path.to_owned())),
            ),
            RunOutcome::SpawnFailed(message) => Err(
                Error::new(ErrorKind::JavaOutputFailed(message.clone())),
            ),
            RunOutcome::Exited { success, diagnostics } => {
                if *success {
                    let version_output = decode_lossy(diagnostics);
                    let r = Self::extract_version(version_output.as_str());
                    proof {
                        if r is Ok {
                            lemma_extracted_is_token(version_output@);
                        }
                    }
                    r
                } else {
                    Err(Error::new(ErrorKind::GettingJavaVersionFailed(path.to_owned())))
                }
            },
        }
    }
}

impl Clone for JavaRuntime {
    /// An independent copy of the runtime.
    fn clone(&self) -> (r: Self)
        ensures
            r@ == self@,
    {
        proof {
            use_type_invariant(self);
        }
        Self {
            os: self.os.clone(),
            path: self.path.clone(),
            version_string: self.version_string.clone(),
        }
    }

    /// Makes the runtime a copy of `source`.
    fn clone_from(&mut self, source: &Self)
        ensures
            final(self)@ == source@,
    {
        proof {
            use_type_invariant(&*self);
            use_type_invariant(source);
        }
        self.os = source.os.clone();
        self.path = source.path.clone();
        self.version_string = source.version_string.clone();
    }
}

impl PartialEq for JavaRuntime {
    /// Whether the two runtimes have the same operating system and the
    /// same path. Their versions are not compared.
    fn eq(&self, other: &Self) -> (r: bool) {
        self.os == other.os && self.path == other.path
    }

    fn ne(&self, other: &Self) -> (r: bool) {
        !self.eq(other)
    }
}

impl vstd::std_specs::cmp::PartialEqSpecImpl for JavaRuntime {
    open spec fn obeys_eq_spec() -> bool {
        true
    }

    open spec fn eq_spec(&self, other: &Self) -> bool {
        same_runtime(self@, other@)
    }
}

} // verus!
