//! The roots that the environment names.
//!
//! Four variables may each name the home of a runtime; they are read in a
//! fixed order. The search path names a list of directories, separated by
//! `;` on Windows and by `:` elsewhere. An environment is handed over as
//! pairs of a variable's name and its value; of two pairs with one name the
//! first counts.

use vstd::prelude::*;
use vstd::string::StringExecFns;
use crate::paths::is_windows_name;
use crate::text::chars_of;
use crate::text::same_text;

verus! {

/// The character that separates the directories of a search path.
pub open spec fn list_separator(windows: bool) -> char {
    if windows {
        ';'
    } else {
        ':'
    }
}

/// The texts of a sequence of strings.
pub open spec fn texts(strings: Seq<String>) -> Seq<Seq<char>> {
    strings.map_values(|s: String| s@)
}

/// The pieces of `text` between the occurrences of `sep`, in order. A text
/// without `sep` is one piece; two occurrences side by side, or one at
/// either end, give an empty piece.
pub open spec fn split(text: Seq<char>, sep: char) -> Seq<Seq<char>>
    decreases text.len(),
{
    if text.len() == 0 {
        seq![Seq::empty()]
    } else {
        let rest = split(text.drop_last(), sep);
        if text.last() == sep {
            rest.push(Seq::empty())
        } else {
            rest.drop_last().push(rest.last().push(text.last()))
        }
    }
}

/// The pieces with `sep` between them.
pub open spec fn joined(pieces: Seq<Seq<char>>, sep: char) -> Seq<char>
    decreases pieces.len(),
{
    if pieces.len() == 0 {
        Seq::empty()
    } else if pieces.len() == 1 {
        pieces[0]
    } else {
        joined(pieces.drop_last(), sep) + seq![sep] + pieces.last()
    }
}

/// A text splits into at least one piece, no piece holds the separator,
/// and the pieces with the separator between them are the text again.
pub proof fn lemma_split(text: Seq<char>, sep: char)
    ensures
        split(text, sep).len() >= 1,
        forall|i: int, k: int|
            0 <= i < split(text, sep).len() && 0 <= k < split(text, sep)[i].len() ==> (
            #[trigger] split(text, sep)[i][k]) != sep,
        joined(split(text, sep), sep) == text,
    decreases text.len(),
{
    if text.len() > 0 {
        let rest = split(text.drop_last(), sep);
        lemma_split(text.drop_last(), sep);
        let all = split(text, sep);
        if text.last() == sep {
            assert(all.drop_last() =~= rest);
        } else if rest.len() > 1 {
            assert(all.drop_last() =~= rest.drop_last());
            assert(joined(all, sep) =~= joined(rest, sep).push(text.last()));
        }
    }
}

/// The value of the variable `name`: that of the first pair with that
/// name.
pub open spec fn value_of(vars: Seq<(String, String)>, name: Seq<char>) -> Option<Seq<char>>
    decreases vars.len(),
{
    if vars.len() == 0 {
        None
    } else if vars[0].0@ == name {
        Some(vars[0].1@)
    } else {
        value_of(vars.drop_first(), name)
    }
}

/// The root that the variable `name` gives: its value, where it is set.
pub open spec fn root_of(vars: Seq<(String, String)>, name: Seq<char>) -> Seq<Seq<char>> {
    match value_of(vars, name) {
        Some(value) => seq![value],
        None => Seq::empty(),
    }
}

/// The names of the variables that may each name the home of a runtime, in
/// the order in which they are read.
pub open spec fn home_names() -> Seq<Seq<char>> {
    seq!["JAVA_HOME"@, "JAVA_ROOT"@, "JDK_HOME"@, "JRE_HOME"@]
}

/// The roots that the variables `names` give, in the order of the names.
pub open spec fn named_roots(vars: Seq<(String, String)>, names: Seq<Seq<char>>) -> Seq<Seq<char>>
    decreases names.len(),
{
    if names.len() == 0 {
        Seq::empty()
    } else {
        named_roots(vars, names.drop_last()) + root_of(vars, names.last())
    }
}

/// The directories that the search path `PATH` lists on a host.
pub open spec fn search_roots(host: Seq<char>, vars: Seq<(String, String)>) -> Seq<Seq<char>> {
    match value_of(vars, "PATH"@) {
        Some(value) => split(value, list_separator(is_windows_name(host))),
        None => Seq::empty(),
    }
}

/// The roots that an environment names on a host: the homes that are set,
/// in the order of their variables, and then the directories of the search
/// path.
pub open spec fn roots_of(host: Seq<char>, vars: Seq<(String, String)>) -> Seq<Seq<char>> {
    named_roots(vars, home_names()) + search_roots(host, vars)
}

/// The pieces of `text` between the occurrences of `sep`.
pub fn split_list(text: &str, sep: char) -> (pieces: Vec<String>)
    ensures
        texts(pieces@) == split(text@, sep),
{
    let chars = chars_of(text);
    let n = chars.len();
    let mut pieces: Vec<String> = Vec::new();
    let mut start: usize = 0;
    let mut k: usize = 0;
    proof {
        assert(chars@.take(0) =~= Seq::<char>::empty());
    }
    while k < n
        invariant
            start <= k <= n,
            n == chars.len(),
            chars@ == text@,
            texts(pieces@).push(chars@.subrange(start as int, k as int)) == split(
                chars@.take(k as int),
                sep,
            ),
        decreases n - k,
    {
        let ghost current = chars@.subrange(start as int, k as int);
        proof {
            assert(chars@.take(k + 1).drop_last() =~= chars@.take(k as int));
        }
        if chars[k] == sep {
            pieces.push(text.substring_char(start, k).to_owned());
            start = k + 1;
            proof {
                assert(chars@.subrange(start as int, k + 1) =~= Seq::<char>::empty());
            }
        } else {
            proof {
                assert(chars@.subrange(start as int, k + 1) =~= current.push(chars[k as int]));
            }
        }
        k += 1;
    }
    pieces.push(text.substring_char(start, n).to_owned());
    proof {
        assert(chars@.take(n as int) =~= chars@);
    }
    pieces
}

/// The value of the variable `name` in `vars`, where it is set.
pub fn lookup<'a>(vars: &'a Vec<(String, String)>, name: &str) -> (r: Option<&'a str>)
    ensures
        match r {
            Some(value) => value_of(vars@, name@) == Some(value@),
            None => value_of(vars@, name@) is None,
        },
{
    let n = vars.len();
    let mut i: usize = 0;
    proof {
        assert(vars@.skip(0) =~= vars@);
    }
    while i < n
        invariant
            i <= n,
            n == vars.len(),
            value_of(vars@, name@) == value_of(vars@.skip(i as int), name@),
        decreases n - i,
    {
        if same_text(vars[i].0.as_str(), name) {
            return Some(vars[i].1.as_str());
        }
        proof {
            assert(vars@.skip(i as int).drop_first() =~= vars@.skip(i + 1));
        }
        i += 1;
    }
    None
}

/// The names of the variables that may each name the home of a runtime, in
/// the order in which they are read.
pub fn home_variables() -> (names: Vec<String>)
    ensures
        texts(names@) == home_names(),
{
    let mut names: Vec<String> = Vec::new();
    names.push(String::from_str("JAVA_HOME"));
    names.push(String::from_str("JAVA_ROOT"));
    names.push(String::from_str("JDK_HOME"));
    names.push(String::from_str("JRE_HOME"));
    names
}

/// The name of the variable that holds the search path.
pub fn search_path_variable() -> (name: String)
    ensures
        name@ == "PATH"@,
{
    String::from_str("PATH")
}

/// The roots that the environment `vars` names on `host`, in the order in
/// which they are to be walked.
pub fn environment_roots(host: &str, vars: &Vec<(String, String)>) -> (roots: Vec<String>)
    ensures
        texts(roots@) == roots_of(host@, vars@),
{
    let mut roots: Vec<String> = Vec::new();
    let names = home_variables();
    let n = names.len();
    let mut i: usize = 0;
    while i < n
        invariant
            i <= n,
            n == names.len(),
            texts(names@) == home_names(),
            texts(roots@) == named_roots(vars@, home_names().take(i as int)),
        decreases n - i,
    {
        proof {
            assert(home_names().take(i + 1).drop_last() =~= home_names().take(i as int));
            assert(texts(names@)[i as int] == names@[i as int]@);
        }
        if let Some(value) = lookup(vars, names[i].as_str()) {
            roots.push(value.to_owned());
        }
        i += 1;
    }
    proof {
        assert(home_names().take(n as int) =~= home_names());
    }
    let path = search_path_variable();
    if let Some(value) = lookup(vars, path.as_str()) {
        let sep = if same_text(host, "windows") {
            ';'
        } else {
            ':'
        };
        let mut pieces = split_list(value, sep);
        roots.append(&mut pieces);
    }
    roots
}

} // verus!
