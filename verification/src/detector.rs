//! Turning what a walk of the file system has seen into runtimes.
//!
//! A walk starts at a root. A root that is a regular file is probed as a
//! launcher itself. Any other root is walked as a directory: each entry
//! that the walk visits, the root included, is taken for a `bin` directory,
//! and the launcher that would stand in it is probed. Entries deeper than a
//! bound are left out; the root has depth 0.
//!
//! What fails a probe is left out without a word: most entries of a walk
//! are no runtimes. Runtimes are appended in the order of the walk and none
//! is dropped as a duplicate.

use vstd::prelude::*;
use crate::observation::Observation;
use crate::observation::ObservationView;
use crate::paths::is_windows_name;
use crate::paths::join;
use crate::paths::join_path;
use crate::paths::launcher_name;
use crate::probed;
use crate::text::same_text;
use crate::JavaRuntime;
use crate::RuntimeView;

verus! {

/// The depth to which the roots named by the environment are walked.
pub const ENVIRONMENT_DEPTH: usize = 1;

/// Whether a walk goes into directories that symbolic links point to. It
/// does not: links that form a cycle would else keep it walking for ever.
pub const FOLLOW_LINKS: bool = false;

/// An entry that a walk visited.
#[derive(Debug)]
pub struct Entry {
    /// The path of the entry.
    pub path: String,
    /// How deep the entry stands under the root of the walk, which has
    /// depth 0.
    pub depth: usize,
    /// What the host showed of the launcher that would stand in the entry:
    /// of the path that [`launcher_in_bin_dir`] gives for `path`.
    pub seen: Observation,
}

/// What the host showed under one root.
#[derive(Debug)]
pub enum Walk {
    /// The root is a regular file. `seen` is what the host showed of
    /// `path` itself.
    File { path: String, seen: Observation },
    /// The root was walked as a directory; `entries` are the entries
    /// visited, in the order of the walk.
    Tree { entries: Vec<Entry> },
}

/// The views of a sequence of runtimes.
pub open spec fn views(runtimes: Seq<JavaRuntime>) -> Seq<RuntimeView> {
    runtimes.map_values(|r: JavaRuntime| r@)
}

/// The runtime that a probe gives, if it gives one.
pub open spec fn found(host: Seq<char>, path: Seq<char>, seen: ObservationView) -> Option<
    RuntimeView,
> {
    match probed(host, path, seen) {
        Ok(runtime) => Some(runtime),
        Err(_) => None,
    }
}

/// The path of the launcher in the directory `bin_dir`.
pub open spec fn launcher_in(host: Seq<char>, bin_dir: Seq<char>) -> Seq<char> {
    join(bin_dir, launcher_name(is_windows_name(host)), is_windows_name(host))
}

/// The path of the directory `bin` under `java_home`.
pub open spec fn bin_dir_in(host: Seq<char>, java_home: Seq<char>) -> Seq<char> {
    join(java_home, "bin"@, is_windows_name(host))
}

/// The runtime of the launcher that would stand in an entry, where its
/// probe gives one.
pub open spec fn entry_found(host: Seq<char>, entry: Entry) -> Option<RuntimeView> {
    found(host, launcher_in(host, entry.path@), entry.seen@)
}

/// What an entry contributes: the runtime of the launcher in it, where the
/// entry is no deeper than `max_depth` and the probe succeeds.
pub open spec fn entry_runtimes(host: Seq<char>, entry: Entry, max_depth: usize) -> Seq<
    RuntimeView,
> {
    if entry.depth <= max_depth && entry_found(host, entry) is Some {
        seq![entry_found(host, entry)->0]
    } else {
        Seq::empty()
    }
}

/// What the entries contribute, in their order.
pub open spec fn entries_runtimes(host: Seq<char>, entries: Seq<Entry>, max_depth: usize) -> Seq<
    RuntimeView,
>
    decreases entries.len(),
{
    if entries.len() == 0 {
        Seq::empty()
    } else {
        entries_runtimes(host, entries.drop_last(), max_depth) + entry_runtimes(
            host,
            entries.last(),
            max_depth,
        )
    }
}

/// The runtimes of one walk.
pub open spec fn walk_runtimes(host: Seq<char>, walk: Walk, max_depth: usize) -> Seq<RuntimeView> {
    match walk {
        Walk::File { path, seen } => match found(host, path@, seen@) {
            Some(runtime) => seq![runtime],
            None => Seq::empty(),
        },
        Walk::Tree { entries } => entries_runtimes(host, entries@, max_depth),
    }
}

/// The runtimes of several walks, each bounded by `max_depth`, in the
/// order of the walks.
pub open spec fn walks_runtimes(host: Seq<char>, walks: Seq<Walk>, max_depth: usize) -> Seq<
    RuntimeView,
>
    decreases walks.len(),
{
    if walks.len() == 0 {
        Seq::empty()
    } else {
        walks_runtimes(host, walks.drop_last(), max_depth) + walk_runtimes(
            host,
            walks.last(),
            max_depth,
        )
    }
}

/// A runtime with the view `runtime` is among those of the entries exactly
/// where the launcher of some entry no deeper than `max_depth` gives it.
pub proof fn lemma_entries_runtimes_contains(
    host: Seq<char>,
    entries: Seq<Entry>,
    max_depth: usize,
    runtime: RuntimeView,
)
    ensures
        entries_runtimes(host, entries, max_depth).contains(runtime) <==> exists|k: int|
            0 <= k < entries.len() && entries[k].depth <= max_depth && #[trigger] entry_found(
                host,
                entries[k],
            ) == Some(runtime),
    decreases entries.len(),
{
    if entries.len() > 0 {
        let all = entries_runtimes(host, entries, max_depth);
        let front = entries.drop_last();
        let of_front = entries_runtimes(host, front, max_depth);
        lemma_entries_runtimes_contains(host, front, max_depth, runtime);
        if all.contains(runtime) {
            let i = choose|i: int| 0 <= i < all.len() && all[i] == runtime;
            if i < of_front.len() {
                assert(of_front[i] == runtime);
                let k = choose|k: int|
                    0 <= k < front.len() && front[k].depth <= max_depth && #[trigger] entry_found(
                        host,
                        front[k],
                    ) == Some(runtime);
                assert(entry_found(host, entries[k]) == Some(runtime));
            } else {
                assert(entry_found(host, entries[entries.len() - 1]) == Some(runtime));
            }
        }
        if exists|k: int|
            0 <= k < entries.len() && entries[k].depth <= max_depth && #[trigger] entry_found(
                host,
                entries[k],
            ) == Some(runtime) {
            let k = choose|k: int|
                0 <= k < entries.len() && entries[k].depth <= max_depth && #[trigger] entry_found(
                    host,
                    entries[k],
                ) == Some(runtime);
            if k < front.len() {
                assert(entry_found(host, front[k]) == Some(runtime));
                let i = choose|i: int| 0 <= i < of_front.len() && of_front[i] == runtime;
                assert(all[i] == runtime);
            } else {
                assert(all[of_front.len() as int] == runtime);
            }
        }
    }
}

/// Entries of which no launcher gives a runtime give nothing.
pub proof fn lemma_no_entry_fits(host: Seq<char>, entries: Seq<Entry>, max_depth: usize)
    requires
        forall|k: int| 0 <= k < entries.len() ==> #[trigger] entry_found(host, entries[k]) is None,
    ensures
        entries_runtimes(host, entries, max_depth) == Seq::<RuntimeView>::empty(),
    decreases entries.len(),
{
    if entries.len() > 0 {
        let front = entries.drop_last();
        assert forall|k: int| 0 <= k < front.len() implies #[trigger] entry_found(
            host,
            front[k],
        ) is None by {
            assert(entry_found(host, entries[k]) is None);
        }
        lemma_no_entry_fits(host, front, max_depth);
        assert(entry_found(host, entries[entries.len() - 1]) is None);
    }
}

/// Where the launcher of one entry alone gives a runtime, the entries give
/// that runtime if the entry is no deeper than `max_depth`, and nothing if
/// it is deeper.
pub proof fn lemma_single_entry_by_depth(
    host: Seq<char>,
    entries: Seq<Entry>,
    max_depth: usize,
    at: int,
)
    requires
        0 <= at < entries.len(),
        entry_found(host, entries[at]) is Some,
        forall|k: int|
            0 <= k < entries.len() && k != at ==> #[trigger] entry_found(host, entries[k]) is None,
    ensures
        entries[at].depth <= max_depth ==> entries_runtimes(host, entries, max_depth) == seq![
            entry_found(host, entries[at])->0,
        ],
        entries[at].depth > max_depth ==> entries_runtimes(host, entries, max_depth)
            == Seq::<RuntimeView>::empty(),
    decreases entries.len(),
{
    let front = entries.drop_last();
    assert forall|k: int| 0 <= k < front.len() && k != at implies #[trigger] entry_found(
        host,
        front[k],
    ) is None by {
        assert(entry_found(host, entries[k]) is None);
    }
    if at == entries.len() - 1 {
        lemma_no_entry_fits(host, front, max_depth);
        assert(entries_runtimes(host, entries, max_depth) =~= entry_runtimes(
            host,
            entries.last(),
            max_depth,
        ));
    } else {
        lemma_single_entry_by_depth(host, front, max_depth, at);
        assert(entry_found(host, entries[entries.len() - 1]) is None);
        assert(entries_runtimes(host, entries, max_depth) =~= entries_runtimes(
            host,
            front,
            max_depth,
        ));
    }
}

/// The runtimes of walks one after another are those of the first walks
/// followed by those of the others: gathering appends, and drops nothing.
pub proof fn lemma_walks_runtimes_concat(
    host: Seq<char>,
    first: Seq<Walk>,
    others: Seq<Walk>,
    max_depth: usize,
)
    ensures
        walks_runtimes(host, first + others, max_depth) == walks_runtimes(host, first, max_depth)
            + walks_runtimes(host, others, max_depth),
    decreases others.len(),
{
    if others.len() == 0 {
        assert(first + others =~= first);
    } else {
        assert((first + others).drop_last() =~= first + others.drop_last());
        lemma_walks_runtimes_concat(host, first, others.drop_last(), max_depth);
    }
}

/// The runtime of the launcher at `path`, given what the host showed of
/// `path`; `None` where the probe fails.
pub fn detect_java_exe(host: &str, path: &str, seen: &Observation) -> (r: Option<JavaRuntime>)
    ensures
        match r {
            Some(runtime) => found(host@, path@, seen@) == Some(runtime@),
            None => found(host@, path@, seen@) is None,
        },
{
    match JavaRuntime::from_executable(host, path, seen) {
        Ok(runtime) => Some(runtime),
        Err(_) => None,
    }
}

/// The path of the launcher that would stand in the directory `bin_dir`.
pub fn launcher_in_bin_dir(host: &str, bin_dir: &str) -> (r: String)
    ensures
        r@ == launcher_in(host@, bin_dir@),
{
    let name = JavaRuntime::get_java_executable_name(host);
    join_path(bin_dir, name.as_str(), same_text(host, "windows"))
}

/// The path of the directory `bin` under the directory `java_home`.
pub fn bin_dir_in_home(host: &str, java_home: &str) -> (r: String)
    ensures
        r@ == bin_dir_in(host@, java_home@),
{
    join_path(java_home, "bin", same_text(host, "windows"))
}

/// The runtime of the launcher in the directory `bin_dir`, given what the
/// host showed of that launcher's path.
pub fn detect_java_bin_dir(host: &str, bin_dir: &str, seen: &Observation) -> (r: Option<
    JavaRuntime,
>)
    ensures
        match r {
            Some(runtime) => found(host@, launcher_in(host@, bin_dir@), seen@) == Some(runtime@),
            None => found(host@, launcher_in(host@, bin_dir@), seen@) is None,
        },
{
    let path = launcher_in_bin_dir(host, bin_dir);
    detect_java_exe(host, path.as_str(), seen)
}

/// The runtime whose home is the directory `java_home`, given what the
/// host showed of the launcher's path in its `bin` directory.
pub fn detect_java_home_dir(host: &str, java_home: &str, seen: &Observation) -> (r: Option<
    JavaRuntime,
>)
    ensures
        match r {
            Some(runtime) => found(
                host@,
                launcher_in(host@, bin_dir_in(host@, java_home@)),
                seen@,
            ) == Some(runtime@),
            None => found(host@, launcher_in(host@, bin_dir_in(host@, java_home@)), seen@) is None,
        },
{
    let bin_dir = bin_dir_in_home(host, java_home);
    detect_java_bin_dir(host, bin_dir.as_str(), seen)
}

/// Appends the runtimes of one walk to `runtimes`, leaving out entries
/// deeper than `max_depth`, and returns how many were added.
pub fn gather_java(
    runtimes: &mut Vec<JavaRuntime>,
    host: &str,
    walk: &Walk,
    max_depth: usize,
) -> (count: usize)
    ensures
        count == walk_runtimes(host@, *walk, max_depth).len(),
        final(runtimes)@.len() == old(runtimes)@.len() + count,
        final(runtimes)@.subrange(0, old(runtimes)@.len() as int) == old(runtimes)@,
        views(final(runtimes)@) == views(old(runtimes)@) + walk_runtimes(host@, *walk, max_depth),
{
    let ghost before = runtimes@;
    let begin_count = runtimes.len();
    match walk {
        Walk::File { path, seen } => {
            if let Some(runtime) = detect_java_exe(host, path.as_str(), seen) {
                runtimes.push(runtime);
            }
        },
        Walk::Tree { entries } => {
            let n = entries.len();
            let mut i: usize = 0;
            while i < n
                invariant
                    i <= n,
                    n == entries.len(),
                    begin_count == before.len(),
                    runtimes@.len() >= before.len(),
                    runtimes@.subrange(0, before.len() as int) == before,
                    views(runtimes@) == views(before) + entries_runtimes(
                        host@,
                        entries@.take(i as int),
                        max_depth,
                    ),
                decreases n - i,
            {
                let entry = &entries[i];
                let ghost so_far = runtimes@;
                if entry.depth <= max_depth {
                    if let Some(runtime) = detect_java_bin_dir(
                        host,
                        entry.path.as_str(),
                        &entry.seen,
                    ) {
                        runtimes.push(runtime);
                        proof {
                            assert(views(runtimes@) =~= views(so_far).push(runtime@));
                        }
                    }
                }
                proof {
                    assert(entries@.take(i + 1).drop_last() =~= entries@.take(i as int));
                    assert(views(runtimes@) =~= views(before) + entries_runtimes(
                        host@,
                        entries@.take(i + 1),
                        max_depth,
                    ));
                }
                i += 1;
            }
            proof {
                assert(entries@.take(n as int) =~= entries@);
            }
        },
    }
    runtimes.len() - begin_count
}

/// The runtimes of one walk, leaving out entries deeper than `max_depth`.
pub fn detect_java(host: &str, walk: &Walk, max_depth: usize) -> (runtimes: Vec<JavaRuntime>)
    ensures
        views(runtimes@) == walk_runtimes(host@, *walk, max_depth),
{
    let mut runtimes: Vec<JavaRuntime> = Vec::new();
    gather_java(&mut runtimes, host, walk, max_depth);
    runtimes
}

/// Appends the runtimes of several walks to `runtimes`, each walk bounded
/// by `max_depth`, and returns how many were added.
pub fn gather_java_in_paths(
    runtimes: &mut Vec<JavaRuntime>,
    host: &str,
    walks: &Vec<Walk>,
    max_depth: usize,
) -> (count: usize)
    ensures
        count == walks_runtimes(host@, walks@, max_depth).len(),
        final(runtimes)@.len() == old(runtimes)@.len() + count,
        final(runtimes)@.subrange(0, old(runtimes)@.len() as int) == old(runtimes)@,
        views(final(runtimes)@) == views(old(runtimes)@) + walks_runtimes(
            host@,
            walks@,
            max_depth,
        ),
{
    let ghost before = runtimes@;
    let begin_count = runtimes.len();
    let n = walks.len();
    let mut i: usize = 0;
    while i < n
        invariant
            i <= n,
            n == walks.len(),
            begin_count == before.len(),
            runtimes@.len() >= before.len(),
            runtimes@.subrange(0, before.len() as int) == before,
            views(runtimes@) == views(before) + walks_runtimes(
                host@,
                walks@.take(i as int),
                max_depth,
            ),
        decreases n - i,
    {
        let ghost so_far = runtimes@;
        gather_java(runtimes, host, &walks[i], max_depth);
        proof {
            assert(walks@.take(i + 1).drop_last() =~= walks@.take(i as int));
            assert(runtimes@.subrange(0, before.len() as int) =~= so_far.subrange(
                0,
                before.len() as int,
            ));
            assert(views(runtimes@) =~= views(before) + walks_runtimes(
                host@,
                walks@.take(i + 1),
                max_depth,
            ));
        }
        i += 1;
    }
    proof {
        assert(walks@.take(n as int) =~= walks@);
    }
    runtimes.len() - begin_count
}

/// The runtimes of several walks, each bounded by `max_depth`.
pub fn detect_java_in_paths(host: &str, walks: &Vec<Walk>, max_depth: usize) -> (runtimes: Vec<
    JavaRuntime,
>)
    ensures
        views(runtimes@) == walks_runtimes(host@, walks@, max_depth),
{
    let mut runtimes: Vec<JavaRuntime> = Vec::new();
    gather_java_in_paths(&mut runtimes, host, walks, max_depth);
    runtimes
}

/// The runtimes of the walks of the roots that the environment names (see
/// [`environment_roots`](crate::environment::environment_roots)), each walk
/// bounded by [`ENVIRONMENT_DEPTH`].
pub fn detect_java_in_environments(host: &str, walks: &Vec<Walk>) -> (runtimes: Vec<JavaRuntime>)
    ensures
        views(runtimes@) == walks_runtimes(host@, walks@, ENVIRONMENT_DEPTH),
{
    detect_java_in_paths(host, walks, ENVIRONMENT_DEPTH)
}

} // verus!
