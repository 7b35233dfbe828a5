//! The directory tree model and the verified size summation.
//!
//! A tree is plain data: a file with its byte length, or a directory with
//! its entries, each entry carrying the absolute path it was listed under.
//! The total of a tree under an ignore set skips every entry whose path is
//! in the set — the entry's whole subtree contributes nothing.

use crate::ignore::IgnoreSet;
use vstd::prelude::*;

verus! {

/// One entry of a directory listing: the absolute path it was found under,
/// and what it is.
pub struct FsEntry {
    pub path: Vec<u8>,
    pub node: FsNode,
}

/// A node of the tree being measured.
pub enum FsNode {
    File { size: u64 },
    Dir { entries: Vec<FsEntry> },
}

/// Total byte size of a node with no exclusions: a file's length, or the
/// sum over a directory's entries.
pub open spec fn node_size(n: FsNode) -> nat
    decreases n,
{
    match n {
        FsNode::File { size } => size as nat,
        FsNode::Dir { entries } => entries_size(entries@),
    }
}

/// Sum of [`entry_size`] over a sequence of entries.
pub open spec fn entries_size(s: Seq<FsEntry>) -> nat
    decreases s,
{
    if s.len() == 0 {
        0
    } else {
        entries_size(s.drop_last()) + entry_size(s.last())
    }
}

/// Byte size contributed by one entry with no exclusions.
pub open spec fn entry_size(e: FsEntry) -> nat
    decreases e,
{
    node_size(e.node)
}

/// Total byte size of a node under an ignore set `ig`: as [`node_size`],
/// except that an entry whose path is in `ig` contributes nothing.
pub open spec fn node_total(n: FsNode, ig: Set<Seq<u8>>) -> nat
    decreases n,
{
    match n {
        FsNode::File { size } => size as nat,
        FsNode::Dir { entries } => entries_total(entries@, ig),
    }
}

/// Sum of [`entry_total`] over a sequence of entries.
pub open spec fn entries_total(s: Seq<FsEntry>, ig: Set<Seq<u8>>) -> nat
    decreases s,
{
    if s.len() == 0 {
        0
    } else {
        entries_total(s.drop_last(), ig) + entry_total(s.last(), ig)
    }
}

/// Byte size contributed by one entry under `ig`: zero if the entry's path
/// is excluded, the size of its subtree otherwise.
pub open spec fn entry_total(e: FsEntry, ig: Set<Seq<u8>>) -> nat
    decreases e,
{
    if ig.contains(e.path@) {
        0
    } else {
        node_total(e.node, ig)
    }
}

/// A prefix of a sequence of entries never sums to more than the whole.
proof fn lemma_entries_total_take_le(s: Seq<FsEntry>, i: int, ig: Set<Seq<u8>>)
    requires
        0 <= i <= s.len(),
    ensures
        entries_total(s.take(i), ig) <= entries_total(s, ig),
    decreases s.len(),
{
    if i == s.len() {
        assert(s.take(i) =~= s);
    } else {
        assert(s.drop_last().take(i) =~= s.take(i));
        lemma_entries_total_take_le(s.drop_last(), i, ig);
    }
}

/// Extending a prefix by one entry adds exactly that entry's contribution.
proof fn lemma_entries_total_take_succ(s: Seq<FsEntry>, i: int, ig: Set<Seq<u8>>)
    requires
        0 <= i < s.len(),
    ensures
        entries_total(s.take(i + 1), ig) == entries_total(s.take(i), ig) + entry_total(
            s[i],
            ig,
        ),
{
    assert(s.take(i + 1).drop_last() =~= s.take(i));
    assert(s.take(i + 1).last() == s[i]);
}

/// Sum of the byte lengths of a sequence of file entries, read straight
/// off the `File` nodes.
pub open spec fn file_sizes_sum(s: Seq<FsEntry>) -> nat
    recommends
        forall|i: int| 0 <= i < s.len() ==> s[i].node is File,
    decreases s,
{
    if s.len() == 0 {
        0
    } else {
        file_sizes_sum(s.drop_last()) + s.last().node->size as nat
    }
}

/// Sum of the subtree totals of a sequence of entries, ignoring the
/// entries' own paths: each immediate child contributes the total of the
/// tree below it.
pub open spec fn children_total(s: Seq<FsEntry>, ig: Set<Seq<u8>>) -> nat
    decreases s,
{
    if s.len() == 0 {
        0
    } else {
        children_total(s.drop_last(), ig) + node_total(s.last().node, ig)
    }
}

/// Taking one entry out of a sequence takes exactly its contribution out
/// of the sum.
pub proof fn lemma_entries_total_remove(s: Seq<FsEntry>, i: int, ig: Set<Seq<u8>>)
    requires
        0 <= i < s.len(),
    ensures
        entries_total(s, ig) == entry_total(s[i], ig) + entries_total(s.remove(i), ig),
    decreases s.len(),
{
    if i == s.len() - 1 {
        assert(s.remove(i) =~= s.drop_last());
    } else {
        lemma_entries_total_remove(s.drop_last(), i, ig);
        assert(s.drop_last()[i] == s[i]);
        assert(s.remove(i).drop_last() =~= s.drop_last().remove(i));
        assert(s.remove(i).last() == s.last());
    }
}

/// A directory's total does not depend on the order its entries were
/// listed in: two listings holding the same entries, however arranged,
/// sum to the same total.
pub proof fn lemma_total_order_independent(s1: Seq<FsEntry>, s2: Seq<FsEntry>, ig: Set<Seq<u8>>)
    requires
        s1.to_multiset() == s2.to_multiset(),
    ensures
        entries_total(s1, ig) == entries_total(s2, ig),
    decreases s1.len(),
{
    broadcast use vstd::seq_lib::group_to_multiset_ensures;

    if s1.len() == 0 {
        assert(s2.len() == s2.to_multiset().len());
    } else {
        let e = s1.last();
        assert(s1[s1.len() - 1] == e);
        assert(s1.contains(e));
        assert(s2.to_multiset().count(e) > 0);
        assert(s2.contains(e));
        let j = choose|j: int| 0 <= j < s2.len() && s2[j] == e;
        lemma_entries_total_remove(s2, j, ig);
        assert(s1.remove(s1.len() - 1) =~= s1.drop_last());
        assert(s1.drop_last().to_multiset() == s1.to_multiset().remove(e));
        assert(s2.remove(j).to_multiset() == s2.to_multiset().remove(e));
        lemma_total_order_independent(s1.drop_last(), s2.remove(j), ig);
    }
}

/// For a directory with no subdirectories, none of whose files is
/// excluded, the total is exactly the sum of the file byte lengths.
pub proof fn lemma_flat_dir_total(s: Seq<FsEntry>, ig: Set<Seq<u8>>)
    requires
        forall|i: int| 0 <= i < s.len() ==> s[i].node is File,
        forall|i: int| 0 <= i < s.len() ==> !ig.contains(s[i].path@),
    ensures
        entries_total(s, ig) == file_sizes_sum(s),
    decreases s.len(),
{
    if s.len() > 0 {
        assert(forall|i: int| 0 <= i < s.drop_last().len() ==> s.drop_last()[i] == s[i]);
        lemma_flat_dir_total(s.drop_last(), ig);
        assert(s[s.len() - 1] == s.last());
        assert(s[s.len() - 1].node is File);
        assert(!ig.contains(s[s.len() - 1].path@));
        assert(entry_total(s.last(), ig) == s.last().node->size as nat);
    }
}

/// Recursive additivity: when none of a directory's immediate entries is
/// excluded, its total is the sum of the totals of its immediate children.
pub proof fn lemma_dir_additivity(d: FsNode, ig: Set<Seq<u8>>)
    requires
        d is Dir,
        forall|i: int| 0 <= i < d->entries@.len() ==> !ig.contains(d->entries@[i].path@),
    ensures
        node_total(d, ig) == children_total(d->entries@, ig),
{
    lemma_entries_children_total(d->entries@, ig);
}

/// Helper for [`lemma_dir_additivity`]: entry by entry, an entry that is
/// not excluded contributes exactly its subtree's total.
proof fn lemma_entries_children_total(s: Seq<FsEntry>, ig: Set<Seq<u8>>)
    requires
        forall|i: int| 0 <= i < s.len() ==> !ig.contains(s[i].path@),
    ensures
        entries_total(s, ig) == children_total(s, ig),
    decreases s.len(),
{
    if s.len() > 0 {
        assert(forall|i: int| 0 <= i < s.drop_last().len() ==> s.drop_last()[i] == s[i]);
        lemma_entries_children_total(s.drop_last(), ig);
        assert(s[s.len() - 1] == s.last());
        assert(!ig.contains(s[s.len() - 1].path@));
        assert(entry_total(s.last(), ig) == node_total(s.last().node, ig));
    }
}

/// An excluded entry contributes nothing at all: neither its own size nor
/// anything beneath it.
pub proof fn lemma_excluded_entry(e: FsEntry, ig: Set<Seq<u8>>)
    requires
        ig.contains(e.path@),
    ensures
        entry_total(e, ig) == 0,
{
}

/// Excluding an entry removes its whole subtree's bytes from the
/// directory's total: the directory sums the same as if the entry were
/// not there.
pub proof fn lemma_exclusion_prunes(s: Seq<FsEntry>, i: int, ig: Set<Seq<u8>>)
    requires
        0 <= i < s.len(),
        ig.contains(s[i].path@),
    ensures
        entries_total(s, ig) == entries_total(s.remove(i), ig),
{
    lemma_entries_total_remove(s, i, ig);
}

/// Under the empty ignore set the filtered total is the plain size of the
/// tree: walking with an empty exclusion set behaves exactly as walking
/// with exclusion disabled.
pub proof fn lemma_empty_ignore(n: FsNode)
    ensures
        node_total(n, Set::<Seq<u8>>::empty()) == node_size(n),
    decreases n,
{
    match n {
        FsNode::File { size } => {
        },
        FsNode::Dir { entries } => {
            lemma_empty_ignore_entries(entries@);
        },
    }
}

/// Helper for [`lemma_empty_ignore`], over a sequence of entries.
proof fn lemma_empty_ignore_entries(s: Seq<FsEntry>)
    ensures
        entries_total(s, Set::<Seq<u8>>::empty()) == entries_size(s),
    decreases s,
{
    if s.len() > 0 {
        lemma_empty_ignore_entries(s.drop_last());
        lemma_empty_ignore(s.last().node);
        assert(!Set::<Seq<u8>>::empty().contains(s.last().path@));
        assert(entry_total(s.last(), Set::<Seq<u8>>::empty()) == node_size(s.last().node));
        assert(entry_size(s.last()) == node_size(s.last().node));
        assert(entries_size(s) == entries_size(s.drop_last()) + entry_size(s.last()));
        assert(entries_total(s, Set::<Seq<u8>>::empty()) == entries_total(
            s.drop_last(),
            Set::<Seq<u8>>::empty(),
        ) + entry_total(s.last(), Set::<Seq<u8>>::empty()));
    }
}

/// Total byte size of the tree `n` under the ignore set `ig`, or `None`
/// when the mathematical total does not fit in 64 bits.
pub fn total_size(n: &FsNode, ig: &IgnoreSet) -> (r: Option<u64>)
    ensures
        r == (if node_total(*n, ig@) <= u64::MAX {
            Some(node_total(*n, ig@) as u64)
        } else {
            None::<u64>
        }),
    decreases *n,
{
    match n {
        FsNode::File { size } => Some(*size),
        FsNode::Dir { entries } => {
            let ghost s = entries@;
            let mut total: u64 = 0;
            let mut i: usize = 0;
            while i < entries.len()
                invariant
                    i <= s.len(),
                    entries@ == s,
                    *n is Dir,
                    n->entries@ == s,
                    total == entries_total(s.take(i as int), ig@),
                decreases s.len() - i,
            {
                proof {
                    lemma_entries_total_take_succ(s, i as int, ig@);
                    assert(decreases_to!(*n => n->entries@[i as int].node));
                }
                let e = &entries[i];
                if !ig.contains(&e.path) {
                    let sub = total_size(&e.node, ig);
                    match sub {
                        Some(sz) => {
                            match total.checked_add(sz) {
                                Some(t) => {
                                    total = t;
                                },
                                None => {
                                    proof {
                                        lemma_entries_total_take_le(s, i + 1, ig@);
                                    }
                                    return None;
                                },
                            }
                        },
                        None => {
                            proof {
                                lemma_entries_total_take_le(s, i + 1, ig@);
                            }
                            return None;
                        },
                    }
                }
                i = i + 1;
            }
            proof {
                assert(s.take(i as int) =~= s);
            }
            Some(total)
        },
    }
}

} // verus!
