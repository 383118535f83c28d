//! Names and path strings: the marker name the scan looks for, the
//! hidden-name rule, and the small amount of path-string parsing the
//! library needs (joining a child name onto a directory path, and reading
//! the parent directory's name out of a path).
//!
//! Paths are read the way the platform reads them: a run of separators
//! counts as one separator, a trailing separator does not change the object
//! named, and a `.` step names no directory of its own.

use vstd::prelude::*;
use vstd::string::StrSliceExecFns;
use vstd::string::StringExecFns;

verus! {

/// The directory name a scan searches for.
pub open spec fn marker() -> Seq<char> {
    "node_modules"@
}

/// The sentinel reported when a parent name cannot be determined.
pub open spec fn unknown_parent() -> Seq<char> {
    "Unknown"@
}

pub fn marker_string() -> (s: String)
    ensures
        s@ == marker(),
{
    String::from_str("node_modules")
}

/// A name is hidden when it starts with a dot.
pub open spec fn is_hidden_name(name: Seq<char>) -> bool {
    name.len() > 0 && name[0] == '.'
}

pub fn check_hidden(name: &String) -> (b: bool)
    ensures
        b == is_hidden_name(name@),
{
    let s = name.as_str();
    if s.unicode_len() == 0 {
        false
    } else {
        s.get_char(0) == '.'
    }
}

/// The position of the last `/` in `s`, if any.
pub open spec fn last_slash_at(s: Seq<char>) -> Option<int>
    decreases s.len(),
{
    if s.len() == 0 {
        Option::None
    } else if s[s.len() - 1] == '/' {
        Option::Some(s.len() - 1)
    } else {
        last_slash_at(s.drop_last())
    }
}

proof fn lemma_last_slash_found(s: Seq<char>, j: int)
    requires
        0 <= j < s.len(),
        s[j] == '/',
        forall|k: int| j < k < s.len() ==> s[k] != '/',
    ensures
        last_slash_at(s) == Option::Some(j),
    decreases s.len(),
{
    if j < s.len() - 1 {
        lemma_last_slash_found(s.drop_last(), j);
    }
}

proof fn lemma_last_slash_none(s: Seq<char>)
    requires
        forall|k: int| 0 <= k < s.len() ==> s[k] != '/',
    ensures
        last_slash_at(s) is None,
    decreases s.len(),
{
    if s.len() > 0 {
        lemma_last_slash_none(s.drop_last());
    }
}

proof fn lemma_last_slash_bounds(s: Seq<char>)
    ensures
        last_slash_at(s) matches Option::Some(j) ==> 0 <= j < s.len(),
    decreases s.len(),
{
    if s.len() > 0 && s[s.len() - 1] != '/' {
        lemma_last_slash_bounds(s.drop_last());
    }
}

/// Scans `s` from the end for the last `/`.
#[verifier::loop_isolation(false)]
fn find_last_slash(s: &str) -> (r: Option<usize>)
    ensures
        match r {
            Option::Some(j) => last_slash_at(s@) == Option::Some(j as int) && j < s@.len(),
            Option::None => last_slash_at(s@) is None,
        },
{
    let n = s.unicode_len();
    let mut i: usize = n;
    while i > 0
        invariant
            i <= n,
            forall|k: int| i <= k < s@.len() ==> s@[k] != '/',
        decreases i,
    {
        if s.get_char(i - 1) == '/' {
            proof {
                lemma_last_slash_found(s@, i - 1);
            }
            return Some(i - 1);
        }
        i = i - 1;
    }
    proof {
        lemma_last_slash_none(s@);
    }
    None
}

/// The components of a path string: the maximal runs of non-separator
/// characters, in order. A run of separators thus counts as one separator,
/// and leading or trailing separators name no component.
pub open spec fn path_components(s: Seq<char>) -> Seq<Seq<char>>
    decreases s.len(),
    via path_components_decreases
{
    if s.len() == 0 {
        Seq::empty()
    } else if s.last() == '/' {
        path_components(s.drop_last())
    } else {
        match last_slash_at(s) {
            Option::None => seq![s],
            Option::Some(j) => path_components(s.subrange(0, j)).push(
                s.subrange(j + 1, s.len() as int),
            ),
        }
    }
}

#[via_fn]
proof fn path_components_decreases(s: Seq<char>) {
    lemma_last_slash_bounds(s);
}

/// Components with the `.` steps dropped, as the platform's path reading
/// drops them: `a/./b` names the same object as `a/b`.
pub open spec fn drop_dot_steps(cs: Seq<Seq<char>>) -> Seq<Seq<char>>
    decreases cs,
{
    if cs.len() == 0 {
        Seq::empty()
    } else {
        drop_dot_steps(cs.drop_last()) + (if cs.last() == "."@ {
            Seq::<Seq<char>>::empty()
        } else {
            seq![cs.last()]
        })
    }
}

/// The steps of a path that name directories or files.
pub open spec fn named_components(s: Seq<char>) -> Seq<Seq<char>> {
    drop_dot_steps(path_components(s))
}

/// The name of the directory containing the object at path `s`: the
/// next-to-last named component — the last names the object itself — or
/// the sentinel when there is no such component or it is a `..` step,
/// whose target no path string shows.
pub open spec fn parent_name_of(s: Seq<char>) -> Seq<char> {
    let comps = named_components(s);
    if comps.len() >= 2 && comps[comps.len() - 2] != ".."@ {
        comps[comps.len() - 2]
    } else {
        unknown_parent()
    }
}

/// The views of a list of owned components.
pub open spec fn chunk_views(v: Seq<String>) -> Seq<Seq<char>> {
    v.map_values(|c: String| c@)
}

/// Splits a path string into its components.
fn path_chunks(s: &str) -> (v: Vec<String>)
    ensures
        chunk_views(v@) == path_components(s@),
    decreases s@.len(),
{
    let n = s.unicode_len();
    if n == 0 {
        let v: Vec<String> = Vec::new();
        proof {
            assert(chunk_views(v@) =~= path_components(s@));
        }
        v
    } else if s.get_char(n - 1) == '/' {
        let head = s.substring_char(0, n - 1);
        let v = path_chunks(head);
        proof {
            assert(head@ =~= s@.drop_last());
        }
        v
    } else {
        match find_last_slash(s) {
            None => {
                let mut v: Vec<String> = Vec::new();
                v.push(s.to_owned());
                proof {
                    assert(chunk_views(v@) =~= path_components(s@));
                }
                v
            },
            Some(j) => {
                let head = s.substring_char(0, j);
                let mut v = path_chunks(head);
                v.push(s.substring_char(j + 1, n).to_owned());
                proof {
                    assert(chunk_views(v@) =~= path_components(head@).push(
                        s@.subrange(j + 1, s@.len() as int),
                    ));
                }
                v
            },
        }
    }
}

/// The name of the immediate parent directory of `path`, or `"Unknown"`
/// when it cannot be determined.
#[verifier::loop_isolation(false)]
pub fn get_parent_project(path: &str) -> (r: String)
    ensures
        r@ == parent_name_of(path@),
{
    let chunks = path_chunks(path);
    let ghost cs = chunk_views(chunks@);
    let dot = String::from_str(".");
    let mut named: Vec<String> = Vec::new();
    let mut i: usize = 0;
    while i < chunks.len()
        invariant
            i <= chunks@.len(),
            chunk_views(named@) == drop_dot_steps(cs.subrange(0, i as int)),
        decreases chunks@.len() - i,
    {
        proof {
            let pre = cs.subrange(0, i as int);
            let nxt = cs.subrange(0, i as int + 1);
            assert(nxt.drop_last() =~= pre);
            assert(nxt.last() == cs[i as int]);
        }
        if chunks[i] != dot {
            named.push(chunks[i].clone());
        }
        proof {
            assert(chunk_views(named@) =~= drop_dot_steps(cs.subrange(0, i as int + 1)));
        }
        i = i + 1;
    }
    proof {
        assert(cs.subrange(0, cs.len() as int) =~= cs);
    }
    let k = named.len();
    if k >= 2 {
        let dotdot = String::from_str("..");
        if named[k - 2] == dotdot {
            String::from_str("Unknown")
        } else {
            named[k - 2].clone()
        }
    } else {
        String::from_str("Unknown")
    }
}

/// The full path of an entry named `name` inside the directory at
/// `dir_path`.
pub open spec fn child_path(dir_path: Seq<char>, name: Seq<char>) -> Seq<char> {
    dir_path + seq!['/'] + name
}

pub fn join_path(dir_path: &String, name: &String) -> (r: String)
    ensures
        r@ == child_path(dir_path@, name@),
{
    let mut r = dir_path.clone();
    r.append("/");
    r.append(name.as_str());
    proof {
        reveal_strlit("/");
        assert(r@ =~= child_path(dir_path@, name@));
    }
    r
}

} // verus!
