//! Paths as text: their separators, their last component, their root, and
//! the shape of a launcher's path.
//!
//! Two families of hosts are told apart. On Windows both `\` and `/`
//! separate components and a drive letter may stand before the root;
//! elsewhere only `/` separates.

use vstd::prelude::*;
use crate::text::chars_of;
use crate::text::range_is;

verus! {

/// The name that the operating system tag of a Windows host spells.
pub open spec fn is_windows_name(os: Seq<char>) -> bool {
    os == "windows"@
}

/// A character that separates the components of a path.
pub open spec fn is_separator(windows: bool, c: char) -> bool {
    c == '/' || (windows && c == '\\')
}

/// The separator that a host writes between components.
pub open spec fn main_separator(windows: bool) -> char {
    if windows {
        '\\'
    } else {
        '/'
    }
}

/// The index just after the last separator of `p`, 0 where it has none.
pub open spec fn cut(p: Seq<char>, windows: bool) -> int
    decreases p.len(),
{
    if p.len() == 0 {
        0
    } else if is_separator(windows, p.last()) {
        p.len() as int
    } else {
        cut(p.drop_last(), windows)
    }
}

/// The last component of `p`: what follows its last separator.
pub open spec fn file_name(p: Seq<char>, windows: bool) -> Seq<char> {
    p.subrange(cut(p, windows), p.len() as int)
}

/// What stands before the last separator of `p`; empty where it has none.
pub open spec fn parent(p: Seq<char>, windows: bool) -> Seq<char> {
    if cut(p, windows) == 0 {
        Seq::empty()
    } else {
        p.subrange(0, cut(p, windows) - 1)
    }
}

/// The file name of a Java launcher.
pub open spec fn launcher_name(windows: bool) -> Seq<char> {
    if windows {
        "java.exe"@
    } else {
        "java"@
    }
}

/// The path names a launcher in a directory named `bin`.
pub open spec fn is_launcher_path(p: Seq<char>, windows: bool) -> bool {
    &&& file_name(p, windows) == launcher_name(windows)
    &&& file_name(parent(p, windows), windows) == "bin"@
}

/// A letter that may name a drive.
pub open spec fn is_drive_letter(c: char) -> bool {
    ('a' <= c && c <= 'z') || ('A' <= c && c <= 'Z')
}

/// The path starts at a root: with a separator, or on Windows with a drive
/// letter, a colon and a separator.
pub open spec fn has_root(p: Seq<char>, windows: bool) -> bool {
    ||| p.len() >= 1 && is_separator(windows, p[0])
    ||| windows && p.len() >= 3 && is_drive_letter(p[0]) && p[1] == ':' && is_separator(
        windows,
        p[2],
    )
}

/// `name` under `base`: `name` itself where it starts at a root, else
/// `base`, a separator unless `base` is empty or ends with one, and `name`.
pub open spec fn join(base: Seq<char>, name: Seq<char>, windows: bool) -> Seq<char> {
    if has_root(name, windows) {
        name
    } else if base.len() == 0 || is_separator(windows, base.last()) {
        base + name
    } else {
        base + seq![main_separator(windows)] + name
    }
}

/// Where the last component starts: after a separator that no separator
/// follows, or at 0 in a path without separators.
pub proof fn lemma_cut(p: Seq<char>, windows: bool)
    ensures
        0 <= cut(p, windows) <= p.len(),
        cut(p, windows) > 0 ==> is_separator(windows, p[cut(p, windows) - 1]),
        forall|k: int| cut(p, windows) <= k < p.len() ==> !is_separator(windows, #[trigger] p[k]),
    decreases p.len(),
{
    if p.len() > 0 && !is_separator(windows, p.last()) {
        let q = p.drop_last();
        lemma_cut(q, windows);
        assert forall|k: int| cut(p, windows) <= k < p.len() implies !is_separator(
            windows,
            #[trigger] p[k],
        ) by {
            if k < q.len() {
                assert(p[k] == q[k]);
            }
        }
    }
}

/// Characters without a separator after a path do not move the start of
/// its last component.
pub proof fn lemma_cut_append(p: Seq<char>, tail: Seq<char>, windows: bool)
    requires
        forall|k: int| 0 <= k < tail.len() ==> !is_separator(windows, #[trigger] tail[k]),
    ensures
        cut(p + tail, windows) == cut(p, windows),
    decreases tail.len(),
{
    if tail.len() > 0 {
        let front = tail.drop_last();
        assert((p + tail).drop_last() =~= p + front);
        lemma_cut_append(p, front, windows);
    }
}

/// The name of a launcher and the name `bin` hold no separator.
pub proof fn lemma_names(windows: bool)
    ensures
        forall|k: int|
            0 <= k < launcher_name(windows).len() ==> !is_separator(
                windows,
                #[trigger] launcher_name(windows)[k],
            ),
        forall|k: int| 0 <= k < "bin"@.len() ==> !is_separator(windows, #[trigger] "bin"@[k]),
        launcher_name(windows).len() > 0,
        "bin"@.len() == 3,
{
    reveal_strlit("java.exe");
    reveal_strlit("java");
    reveal_strlit("bin");
}

/// `p` is `head`, then `bin`, the separator `s` and the launcher's name,
/// where `head` is empty or ends with a separator.
pub open spec fn launcher_form(p: Seq<char>, windows: bool, head: Seq<char>, s: char) -> bool {
    &&& is_separator(windows, s)
    &&& (head.len() == 0 || is_separator(windows, head.last()))
    &&& p == head + "bin"@ + seq![s] + launcher_name(windows)
}

/// The paths of launchers are those that end with `bin`, a separator and
/// the launcher's name, where `bin` starts the path or follows a
/// separator.
pub proof fn lemma_launcher_path(p: Seq<char>, windows: bool)
    ensures
        is_launcher_path(p, windows) <==> exists|head: Seq<char>, s: char|
            launcher_form(p, windows, head, s),
{
    lemma_names(windows);
    lemma_cut(p, windows);
    let name = launcher_name(windows);
    if is_launcher_path(p, windows) {
        let c = cut(p, windows);
        let dir = parent(p, windows);
        lemma_cut(dir, windows);
        let head = dir.subrange(0, cut(dir, windows));
        let s = p[c - 1];
        assert(p =~= head + "bin"@ + seq![s] + name);
        assert(launcher_form(p, windows, head, s));
    }
    if exists|head: Seq<char>, s: char| launcher_form(p, windows, head, s) {
        let (head, s) = choose|head: Seq<char>, s: char| launcher_form(p, windows, head, s);
        let dir = head + "bin"@;
        let upto = dir + seq![s];
        lemma_cut_append(upto, name, windows);
        assert(file_name(p, windows) =~= name);
        assert(parent(p, windows) =~= dir);
        lemma_cut_append(head, "bin"@, windows);
        assert(file_name(dir, windows) =~= "bin"@);
    }
}

/// A path joined under a base starts at a root where the base or the path
/// itself does.
pub proof fn lemma_join_rooted(base: Seq<char>, name: Seq<char>, windows: bool)
    requires
        has_root(base, windows) || has_root(name, windows),
    ensures
        has_root(join(base, name, windows), windows),
{
}

/// The launcher joined under a directory named `bin` has a launcher's
/// path.
pub proof fn lemma_join_launcher(head: Seq<char>, windows: bool)
    requires
        head.len() == 0 || is_separator(windows, head.last()),
    ensures
        is_launcher_path(join(head + "bin"@, launcher_name(windows), windows), windows),
{
    reveal_strlit("java.exe");
    reveal_strlit("java");
    reveal_strlit("bin");
    let path = join(head + "bin"@, launcher_name(windows), windows);
    assert(launcher_form(path, windows, head, main_separator(windows)));
    lemma_launcher_path(path, windows);
}

/// Whether `c` separates components.
fn separator(windows: bool, c: char) -> (r: bool)
    ensures
        r == is_separator(windows, c),
{
    c == '/' || (windows && c == '\\')
}

/// The index just after the last separator among the first `end`
/// characters of `p`.
fn cut_before(p: &Vec<char>, end: usize, windows: bool) -> (c: usize)
    requires
        end <= p.len(),
    ensures
        c == cut(p@.subrange(0, end as int), windows),
        c <= end,
{
    let mut c: usize = end;
    while c > 0 && !separator(windows, p[c - 1])
        invariant
            c <= end <= p.len(),
            cut(p@.subrange(0, end as int), windows) == cut(p@.subrange(0, c as int), windows),
        decreases c,
    {
        proof {
            assert(p@.subrange(0, c as int).drop_last() =~= p@.subrange(0, c - 1));
        }
        c -= 1;
    }
    c
}

/// Whether `path` names a launcher in a directory named `bin`.
pub fn launcher_path(path: &str, windows: bool) -> (r: bool)
    ensures
        r == is_launcher_path(path@, windows),
{
    let p = chars_of(path);
    let n = p.len();
    proof {
        assert(p@.subrange(0, n as int) =~= p@);
    }
    let c = cut_before(&p, n, windows);
    let name = if windows {
        chars_of("java.exe")
    } else {
        chars_of("java")
    };
    if !range_is(&p, c, n, &name) {
        return false;
    }
    if c == 0 {
        proof {
            reveal_strlit("bin");
            assert(file_name(parent(p@, windows), windows).len() == 0);
        }
        return false;
    }
    let d = cut_before(&p, c - 1, windows);
    let bin = chars_of("bin");
    proof {
        assert(p@.subrange(0, c - 1).subrange(d as int, c - 1) =~= p@.subrange(d as int, c - 1));
    }
    range_is(&p, d, c - 1, &bin)
}

/// Whether `c` may name a drive.
fn drive_letter(c: char) -> (r: bool)
    ensures
        r == is_drive_letter(c),
{
    ('a' <= c && c <= 'z') || ('A' <= c && c <= 'Z')
}

/// Whether the characters `p` start at a root.
fn chars_have_root(p: &Vec<char>, windows: bool) -> (r: bool)
    ensures
        r == has_root(p@, windows),
{
    if p.len() >= 1 && separator(windows, p[0]) {
        return true;
    }
    windows && p.len() >= 3 && drive_letter(p[0]) && p[1] == ':' && separator(windows, p[2])
}

/// Whether `path` starts at a root.
pub fn path_has_root(path: &str, windows: bool) -> (r: bool)
    ensures
        r == has_root(path@, windows),
{
    let p = chars_of(path);
    chars_have_root(&p, windows)
}

/// The path of `name` under `base`.
pub fn join_path(base: &str, name: &str, windows: bool) -> (r: String)
    ensures
        r@ == join(base@, name@, windows),
{
    let n = chars_of(name);
    if chars_have_root(&n, windows) {
        return name.to_owned();
    }
    let b = chars_of(base);
    let mut r = base.to_owned();
    if b.len() > 0 && !separator(windows, b[b.len() - 1]) {
        if windows {
            proof {
                reveal_strlit("\\");
            }
            r.append("\\");
        } else {
            proof {
                reveal_strlit("/");
            }
            r.append("/");
        }
    }
    r.append(name);
    r
}

} // verus!
