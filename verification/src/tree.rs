//! The value-level picture of a file-system subtree, and the size
//! aggregation over it.

use vstd::arithmetic::div_mod::{lemma_add_mod_noop, lemma_mod_bound, lemma_small_mod};
use vstd::prelude::*;

verus! {

/// A file-system subtree as handed to the library by its caller.
/// `name` is a single path component (the node's own name); `size` is the
/// byte length of a file. Entries the caller could not read are simply
/// absent from the tree, mirroring a walk that skips unreadable entries.
pub enum FsTree {
    File { name: String, size: u64 },
    Dir { name: String, entries: Vec<FsTree> },
    Other { name: String },
}

impl FsTree {
    /// The node's own name (its last path component).
    pub open spec fn spec_name(self) -> Seq<char> {
        match self {
            FsTree::File { name, .. } => name@,
            FsTree::Dir { name, .. } => name@,
            FsTree::Other { name } => name@,
        }
    }

    pub fn name(&self) -> (n: &String)
        ensures
            n@ == self.spec_name(),
    {
        match self {
            FsTree::File { name, .. } => name,
            FsTree::Dir { name, .. } => name,
            FsTree::Other { name } => name,
        }
    }

    pub fn is_directory(&self) -> (b: bool)
        ensures
            b == (self is Dir),
    {
        match self {
            FsTree::Dir { .. } => true,
            _ => false,
        }
    }
}

/// One more than the largest byte count a report can carry; sizes are
/// accumulated modulo this, as a machine-word accumulator does.
pub open spec fn size_modulus() -> int {
    0x1_0000_0000_0000_0000
}

/// Total number of file bytes in a subtree: a file counts its length, a
/// directory the sum over its entries, anything else nothing. Directories
/// themselves contribute no bytes of their own.
pub open spec fn tree_size(t: FsTree) -> nat
    decreases t,
{
    match t {
        FsTree::File { size, .. } => size as nat,
        FsTree::Dir { entries, .. } => entries_size(entries@),
        FsTree::Other { .. } => 0,
    }
}

/// Sum of [`tree_size`] over a sequence of sibling entries.
pub open spec fn entries_size(s: Seq<FsTree>) -> nat
    decreases s,
{
    if s.len() == 0 {
        0
    } else {
        entries_size(s.drop_last()) + tree_size(s.last())
    }
}

/// Computes the total size of a subtree: the sum of the byte lengths of
/// every file anywhere under it, taken modulo the accumulator's width
/// (an on-disk total that overflows a 64-bit count wraps, it never panics).
#[verifier::loop_isolation(false)]
pub fn calculate_dir_size(t: &FsTree) -> (total: u64)
    ensures
        total as int == tree_size(*t) as int % size_modulus(),
    decreases *t,
{
    match t {
        FsTree::File { size, .. } => {
            proof {
                lemma_small_mod(*size as nat, size_modulus() as nat);
            }
            *size
        },
        FsTree::Other { .. } => {
            proof {
                lemma_small_mod(0nat, size_modulus() as nat);
            }
            0
        },
        FsTree::Dir { entries, .. } => {
            let mut total: u64 = 0;
            let mut i: usize = 0;
            proof {
                lemma_small_mod(0nat, size_modulus() as nat);
            }
            while i < entries.len()
                invariant
                    i <= entries@.len(),
                    total as int == entries_size(entries@.subrange(0, i as int)) as int
                        % size_modulus(),
                decreases entries@.len() - i,
            {
                proof {
                    vstd::std_specs::vec::axiom_vec_index_decreases(*entries, i as int);
                    assert(decreases_to!(*t => t->Dir_entries));
                    assert(decreases_to!(*t => entries@[i as int]));
                }
                let part = calculate_dir_size(&entries[i]);
                proof {
                    let prefix = entries@.subrange(0, i as int);
                    let next = entries@.subrange(0, i as int + 1);
                    assert(next.drop_last() =~= prefix);
                    assert(next.last() == entries@[i as int]);
                    lemma_add_mod_noop(
                        entries_size(prefix) as int,
                        tree_size(entries@[i as int]) as int,
                        size_modulus(),
                    );
                    lemma_mod_bound(
                        entries_size(prefix) as int + tree_size(entries@[i as int]) as int,
                        size_modulus(),
                    );
                }
                let wide: u128 = total as u128 + part as u128;
                total = (wide % 0x1_0000_0000_0000_0000u128) as u64;
                i = i + 1;
            }
            proof {
                assert(entries@.subrange(0, entries@.len() as int) =~= entries@);
            }
            total
        },
    }
}

} // verus!
