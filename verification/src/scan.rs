//! Match discovery and report assembly: walking the tree under the pruning
//! policy, sizing each match, and packaging the result.

use crate::paths::{
    check_hidden, child_path, get_parent_project, is_hidden_name, join_path, marker, marker_string,
    parent_name_of,
};
use crate::tree::{calculate_dir_size, size_modulus, tree_size, FsTree};
use vstd::arithmetic::div_mod::{lemma_add_mod_noop, lemma_mod_bound, lemma_small_mod};
use vstd::prelude::*;
use vstd::string::StringExecFns;

verus! {

/// What one reported folder says, at the specification level.
pub ghost struct MatchView {
    pub path: Seq<char>,
    pub size: int,
    pub parent: Seq<char>,
}

/// A matched marker directory: its full path, its total size in bytes, and
/// the name of the directory that contains it.
#[derive(Debug, Clone)]
pub struct NodeModulesFolder {
    pub path: String,
    pub size: u64,
    pub parent_project: String,
}

impl View for NodeModulesFolder {
    type V = MatchView;

    open spec fn view(&self) -> MatchView {
        MatchView { path: self.path@, size: self.size as int, parent: self.parent_project@ }
    }
}

/// A full scan report. `total_size` always equals the sum of the folders'
/// sizes, taken modulo the width of the 64-bit accumulator; whenever that
/// sum fits, it equals it exactly.
#[derive(Debug)]
pub struct ScanResult {
    pub folders: Vec<NodeModulesFolder>,
    pub total_size: u64,
    pub scan_path: String,
}

impl ScanResult {
    /// The report's internal invariant: the total accounts for each
    /// reported folder exactly once — no double counting, no omissions —
    /// modulo the accumulator's width.
    pub open spec fn consistent(self) -> bool {
        self.total_size as int == sum_sizes(self.folders@) % size_modulus()
    }
}

/// The folders a scan reports under one node that the walk reached (the
/// pruning rules already let the node itself through): a marker-named
/// directory is reported as a single opaque match and nothing nested inside
/// it is looked at again; any other directory contributes whatever its
/// non-hidden entries contribute; files contribute nothing.
pub open spec fn node_matches(t: FsTree, path: Seq<char>, parent: Seq<char>) -> Seq<MatchView>
    decreases t,
{
    match t {
        FsTree::Dir { name, entries } => {
            if name@ == marker() {
                seq![
                    MatchView { path, size: tree_size(t) as int % size_modulus(), parent },
                ]
            } else {
                entries_matches(entries@, path, name@)
            }
        },
        _ => Seq::empty(),
    }
}

/// The folders contributed by the entries of a directory at `dir_path`
/// named `dir_name`, in entry order; a hidden entry is pruned together with
/// everything beneath it.
pub open spec fn entries_matches(s: Seq<FsTree>, dir_path: Seq<char>, dir_name: Seq<char>) -> Seq<
    MatchView,
>
    decreases s,
{
    if s.len() == 0 {
        Seq::empty()
    } else {
        entries_matches(s.drop_last(), dir_path, dir_name) + (if is_hidden_name(
            s.last().spec_name(),
        ) {
            Seq::<MatchView>::empty()
        } else {
            node_matches(s.last(), child_path(dir_path, s.last().spec_name()), dir_name)
        })
    }
}

/// What a scan of the tree `root`, reached via `path`, reports. The root is
/// exempt from the hidden-name rule; it is pruned entirely when the
/// directory containing it is itself named like the marker, since a match
/// is never descended into.
pub open spec fn scan_matches(root: FsTree, path: Seq<char>) -> Seq<MatchView> {
    if parent_name_of(path) == marker() {
        Seq::empty()
    } else {
        node_matches(root, path, parent_name_of(path))
    }
}

/// The view of a reported folder list.
pub open spec fn folders_view(v: Seq<NodeModulesFolder>) -> Seq<MatchView> {
    v.map_values(|f: NodeModulesFolder| f@)
}

/// Mathematical sum of the sizes in a folder list.
pub open spec fn sum_sizes(v: Seq<NodeModulesFolder>) -> int
    decreases v,
{
    if v.len() == 0 {
        0
    } else {
        sum_sizes(v.drop_last()) + v.last().size
    }
}

pub proof fn lemma_sum_sizes_nonneg(v: Seq<NodeModulesFolder>)
    ensures
        sum_sizes(v) >= 0,
    decreases v,
{
    if v.len() > 0 {
        lemma_sum_sizes_nonneg(v.drop_last());
    }
}

/// Walks one subtree node that the pruning rules let through and collects
/// every reported folder beneath it, in discovery order, each already
/// paired with its size and its containing directory's name.
#[verifier::loop_isolation(false)]
fn collect_matches(t: &FsTree, path: String, parent: &String) -> (v: Vec<NodeModulesFolder>)
    ensures
        folders_view(v@) == node_matches(*t, path@, parent@),
    decreases *t,
{
    match t {
        FsTree::Dir { name, entries } => {
            let m = marker_string();
            if *name == m {
                let size = calculate_dir_size(t);
                let mut v: Vec<NodeModulesFolder> = Vec::new();
                v.push(NodeModulesFolder { path, size, parent_project: parent.clone() });
                proof {
                    assert(folders_view(v@) =~= node_matches(*t, path@, parent@));
                }
                v
            } else {
                let mut v: Vec<NodeModulesFolder> = Vec::new();
                let mut i: usize = 0;
                while i < entries.len()
                    invariant
                        i <= entries@.len(),
                        folders_view(v@) == entries_matches(
                            entries@.subrange(0, i as int),
                            path@,
                            name@,
                        ),
                    decreases entries@.len() - i,
                {
                    let child = &entries[i];
                    if !check_hidden(child.name()) {
                        let cpath = join_path(&path, child.name());
                        proof {
                            vstd::std_specs::vec::axiom_vec_index_decreases(*entries, i as int);
                            assert(decreases_to!(*t => t->Dir_entries));
                            assert(decreases_to!(*t => entries@[i as int]));
                        }
                        let mut sub = collect_matches(child, cpath, name);
                        proof {
                            assert(folders_view(v@ + sub@) =~= folders_view(v@) + folders_view(
                                sub@,
                            ));
                        }
                        v.append(&mut sub);
                    }
                    proof {
                        let pre = entries@.subrange(0, i as int);
                        let nxt = entries@.subrange(0, i as int + 1);
                        assert(nxt.drop_last() =~= pre);
                        assert(nxt.last() == entries@[i as int]);
                        assert(folders_view(v@) =~= entries_matches(nxt, path@, name@));
                    }
                    i = i + 1;
                }
                proof {
                    assert(entries@.subrange(0, entries@.len() as int) =~= entries@);
                }
                v
            }
        },
        _ => {
            let v: Vec<NodeModulesFolder> = Vec::new();
            proof {
                assert(folders_view(v@) =~= node_matches(*t, path@, parent@));
            }
            v
        },
    }
}

/// Adds up the reported folder sizes for the report's total, modulo the
/// accumulator's width.
#[verifier::loop_isolation(false)]
fn total_of(v: &Vec<NodeModulesFolder>) -> (total: u64)
    ensures
        total as int == sum_sizes(v@) % size_modulus(),
{
    let mut total: u64 = 0;
    let mut i: usize = 0;
    proof {
        lemma_small_mod(0nat, size_modulus() as nat);
    }
    while i < v.len()
        invariant
            i <= v@.len(),
            total as int == sum_sizes(v@.subrange(0, i as int)) % size_modulus(),
        decreases v@.len() - i,
    {
        proof {
            let pre = v@.subrange(0, i as int);
            let nxt = v@.subrange(0, i as int + 1);
            assert(nxt.drop_last() =~= pre);
            assert(nxt.last() == v@[i as int]);
            lemma_add_mod_noop(sum_sizes(pre), v@[i as int].size as int, size_modulus());
            lemma_small_mod(v@[i as int].size as nat, size_modulus() as nat);
            lemma_mod_bound(sum_sizes(pre) + v@[i as int].size as int, size_modulus());
            lemma_sum_sizes_nonneg(pre);
        }
        let wide: u128 = total as u128 + v[i].size as u128;
        total = (wide % 0x1_0000_0000_0000_0000u128) as u64;
        i = i + 1;
    }
    proof {
        assert(v@.subrange(0, v@.len() as int) =~= v@);
    }
    total
}

/// Scans the subtree `root`, reached via `path`, for directories named like
/// the marker. Fails exactly when the caller found no file-system object at
/// `path` (then `root` is `None`) or found one that is not a directory;
/// otherwise reports every match with its size and containing directory,
/// and a total that accounts for each reported folder exactly once.
pub fn scan_for_node_modules(root: Option<&FsTree>, path: String) -> (r: Result<
    ScanResult,
    String,
>)
    ensures
        match r {
            Result::Ok(res) => {
                &&& root matches Some(t) && *t is Dir
                &&& res.scan_path@ == path@
                &&& folders_view(res.folders@) == scan_matches(*root.unwrap(), path@)
                &&& res.consistent()
                &&& sum_sizes(res.folders@) < size_modulus() ==> res.total_size as int
                    == sum_sizes(res.folders@)
            },
            Result::Err(e) => {
                &&& root is None || !(*root.unwrap() is Dir)
                &&& root is None ==> e@ == "Path does not exist"@
                &&& !(root is None) ==> e@ == "Path is not a directory"@
            },
        },
{
    match root {
        None => Err(String::from_str("Path does not exist")),
        Some(t) => {
            if !t.is_directory() {
                Err(String::from_str("Path is not a directory"))
            } else {
                let parent = get_parent_project(path.as_str());
                let m = marker_string();
                let folders: Vec<NodeModulesFolder> = if parent == m {
                    Vec::new()
                } else {
                    collect_matches(t, path.clone(), &parent)
                };
                let total_size = total_of(&folders);
                proof {
                    lemma_sum_sizes_nonneg(folders@);
                    if sum_sizes(folders@) < size_modulus() {
                        lemma_small_mod(sum_sizes(folders@) as nat, size_modulus() as nat);
                    }
                    if parent_name_of(path@) == marker() {
                        assert(folders_view(folders@) =~= scan_matches(*t, path@));
                    }
                }
                Ok(ScanResult { folders, total_size, scan_path: path })
            }
        },
    }
}

/// The total size of the subtree the caller found at the requested path:
/// fails exactly when nothing was found there (then `root` is `None`).
/// A total that would not fit in 64 bits wraps, it never panics.
pub fn get_folder_size(root: Option<&FsTree>) -> (r: Result<u64, String>)
    ensures
        match r {
            Result::Ok(n) => {
                &&& root matches Some(t)
                &&& n as int == tree_size(*root.unwrap()) as int % size_modulus()
                &&& tree_size(*root.unwrap()) < size_modulus() ==> n == tree_size(*root.unwrap())
            },
            Result::Err(e) => root is None && e@ == "Path does not exist"@,
        },
{
    match root {
        None => Err(String::from_str("Path does not exist")),
        Some(t) => {
            proof {
                if tree_size(*t) < size_modulus() {
                    lemma_small_mod(tree_size(*t), size_modulus() as nat);
                }
            }
            Ok(calculate_dir_size(t))
        },
    }
}

/// How many marker-named directories a scan reports under one reached
/// node: one for a marker directory itself — occurrences nested inside it
/// are never counted again — and otherwise the count over the non-hidden
/// entries.
pub open spec fn marker_count(t: FsTree) -> nat
    decreases t,
{
    match t {
        FsTree::Dir { name, entries } => {
            if name@ == marker() {
                1
            } else {
                entries_marker_count(entries@)
            }
        },
        _ => 0,
    }
}

/// [`marker_count`] summed over the non-hidden entries of a directory.
pub open spec fn entries_marker_count(s: Seq<FsTree>) -> nat
    decreases s,
{
    if s.len() == 0 {
        0
    } else {
        entries_marker_count(s.drop_last()) + (if is_hidden_name(s.last().spec_name()) {
            0nat
        } else {
            marker_count(s.last())
        })
    }
}

/// A scan reports exactly one folder per occurrence of the marker name that
/// is neither nested inside another occurrence nor hidden away: the list
/// [`node_matches`] yields has [`marker_count`] entries.
pub proof fn lemma_match_count(t: FsTree, path: Seq<char>, parent: Seq<char>)
    ensures
        node_matches(t, path, parent).len() == marker_count(t),
    decreases t,
{
    match t {
        FsTree::Dir { name, entries } => {
            if name@ != marker() {
                lemma_entries_match_count(entries@, path, name@);
            }
        },
        _ => {},
    }
}

pub proof fn lemma_entries_match_count(s: Seq<FsTree>, dir_path: Seq<char>, dir_name: Seq<char>)
    ensures
        entries_matches(s, dir_path, dir_name).len() == entries_marker_count(s),
    decreases s,
{
    if s.len() > 0 {
        lemma_entries_match_count(s.drop_last(), dir_path, dir_name);
        if !is_hidden_name(s.last().spec_name()) {
            lemma_match_count(s.last(), child_path(dir_path, s.last().spec_name()), dir_name);
        }
    }
}

/// Every marker-named directory anywhere in a subtree, nested or hidden or
/// not: what a walk matching on the name alone, without the pruning rules,
/// would report.
pub open spec fn naive_marker_count(t: FsTree) -> nat
    decreases t,
{
    match t {
        FsTree::Dir { name, entries } => (if name@ == marker() {
            1nat
        } else {
            0nat
        }) + entries_naive_marker_count(entries@),
        _ => 0,
    }
}

/// [`naive_marker_count`] summed over all entries of a directory.
pub open spec fn entries_naive_marker_count(s: Seq<FsTree>) -> nat
    decreases s,
{
    if s.len() == 0 {
        0
    } else {
        entries_naive_marker_count(s.drop_last()) + naive_marker_count(s.last())
    }
}

/// The pruning rules only ever shrink the report: a scan never yields more
/// folders than the subtree holds marker-named directories in all.
pub proof fn lemma_pruning_only_reduces(t: FsTree)
    ensures
        marker_count(t) <= naive_marker_count(t),
    decreases t,
{
    match t {
        FsTree::Dir { name, entries } => {
            if name@ != marker() {
                lemma_entries_pruning_only_reduces(entries@);
            }
        },
        _ => {},
    }
}

pub proof fn lemma_entries_pruning_only_reduces(s: Seq<FsTree>)
    ensures
        entries_marker_count(s) <= entries_naive_marker_count(s),
    decreases s,
{
    if s.len() > 0 {
        lemma_entries_pruning_only_reduces(s.drop_last());
        lemma_pruning_only_reduces(s.last());
    }
}

/// A whole scan reports exactly one folder per occurrence of the marker
/// name that is neither nested inside another occurrence nor hidden away —
/// none at all when the scanned root sits directly inside such an
/// occurrence itself.
pub proof fn lemma_scan_match_count(root: FsTree, path: Seq<char>)
    ensures
        parent_name_of(path) != marker() ==> scan_matches(root, path).len() == marker_count(root),
        parent_name_of(path) == marker() ==> scan_matches(root, path).len() == 0,
{
    lemma_match_count(root, path, parent_name_of(path));
}

/// `p` names the object at `base` itself, or one strictly beneath it.
pub open spec fn path_at_or_under(p: Seq<char>, base: Seq<char>) -> bool {
    p == base || (p.len() > base.len() && p.subrange(0, base.len() as int) == base && p[base.len() as int]
        == '/')
}

/// Every folder reported under a node lies at or strictly beneath that
/// node's own path. A marker-named directory therefore contributes exactly
/// its own path — the single record [`node_matches`] gives it — and a whole
/// scan never reports anything outside the scanned subtree.
pub proof fn lemma_matches_under_path(t: FsTree, path: Seq<char>, parent: Seq<char>)
    ensures
        forall|i: int|
            0 <= i < node_matches(t, path, parent).len() ==> path_at_or_under(
                (#[trigger] node_matches(t, path, parent)[i]).path,
                path,
            ),
    decreases t,
{
    match t {
        FsTree::Dir { name, entries } => {
            if name@ == marker() {
                assert(node_matches(t, path, parent)[0].path == path);
            } else {
                lemma_entries_under_path(entries@, path, name@);
                assert forall|i: int| 0 <= i < node_matches(t, path, parent).len() implies
                path_at_or_under((#[trigger] node_matches(t, path, parent)[i]).path, path) by {
                    assert(node_matches(t, path, parent)[i] == entries_matches(
                        entries@,
                        path,
                        name@,
                    )[i]);
                }
            }
        },
        _ => {},
    }
}

pub proof fn lemma_entries_under_path(s: Seq<FsTree>, dir_path: Seq<char>, dir_name: Seq<char>)
    ensures
        forall|i: int|
            0 <= i < entries_matches(s, dir_path, dir_name).len() ==> path_at_or_under(
                (#[trigger] entries_matches(s, dir_path, dir_name)[i]).path,
                dir_path,
            ),
    decreases s,
{
    if s.len() > 0 {
        lemma_entries_under_path(s.drop_last(), dir_path, dir_name);
        let whole = entries_matches(s, dir_path, dir_name);
        let front = entries_matches(s.drop_last(), dir_path, dir_name);
        if is_hidden_name(s.last().spec_name()) {
            assert forall|i: int| 0 <= i < whole.len() implies path_at_or_under(
                whole[i].path,
                dir_path,
            ) by {
                assert(whole[i] == front[i]);
            }
        } else {
            let cp = child_path(dir_path, s.last().spec_name());
            let rear = node_matches(s.last(), cp, dir_name);
            lemma_matches_under_path(s.last(), cp, dir_name);
            assert(cp.subrange(0, dir_path.len() as int) =~= dir_path);
            assert(cp[dir_path.len() as int] == '/');
            assert forall|i: int| 0 <= i < whole.len() implies path_at_or_under(
                whole[i].path,
                dir_path,
            ) by {
                if i < front.len() {
                    assert(whole[i] == front[i]);
                } else {
                    assert(whole[i] == rear[i - front.len()]);
                    assert(path_at_or_under(rear[i - front.len()].path, cp));
                    let q = whole[i].path;
                    if q != cp {
                        assert(q.subrange(0, dir_path.len() as int) =~= dir_path);
                    }
                }
            }
        }
    }
}

/// Hidden entries are pruned together with everything beneath them: a
/// directory entry whose name starts with a dot contributes nothing, so
/// removing it changes neither the reported folders nor, therefore, any
/// total derived from them.
pub proof fn lemma_hidden_entry_excluded(
    s: Seq<FsTree>,
    j: int,
    dir_path: Seq<char>,
    dir_name: Seq<char>,
)
    requires
        0 <= j < s.len(),
        is_hidden_name(s[j].spec_name()),
    ensures
        entries_matches(s.remove(j), dir_path, dir_name) == entries_matches(
            s,
            dir_path,
            dir_name,
        ),
    decreases s.len(),
{
    if j == s.len() - 1 {
        assert(s.remove(j) =~= s.drop_last());
        assert(entries_matches(s.remove(j), dir_path, dir_name) =~= entries_matches(
            s,
            dir_path,
            dir_name,
        ));
    } else {
        lemma_hidden_entry_excluded(s.drop_last(), j, dir_path, dir_name);
        assert(s.remove(j).drop_last() =~= s.drop_last().remove(j));
        assert(s.remove(j).last() == s.last());
        assert(entries_matches(s.remove(j), dir_path, dir_name) =~= entries_matches(
            s,
            dir_path,
            dir_name,
        ));
    }
}

} // verus!
