//! Total disk usage of a directory tree, with gitignore-style exclusions
//! and human-readable size formatting.
//!
//! The tree being measured is modelled as plain data ([`walk::FsNode`]): a
//! caller lists the file system (or builds a tree by hand, as the tests do)
//! and this crate computes the total, applies the ignore set, and renders
//! the result.

pub mod ignore;
pub mod units;
pub mod walk;

use vstd::prelude::*;

verus! {

/// The tool's output line for a tree under an ignore set: the total byte
/// size, rendered in its unit with two decimal places — or `None` when
/// the total does not fit in 64 bits.
pub fn report(n: &walk::FsNode, ig: &ignore::IgnoreSet) -> (r: Option<String>)
    ensures
        walk::node_total(*n, ig@) <= u64::MAX ==> (r matches Some(line) && line@
            == units::spec_format(walk::node_total(*n, ig@) as u64)),
        walk::node_total(*n, ig@) > u64::MAX ==> r is None,
{
    match walk::total_size(n, ig) {
        Some(total) => Some(units::format_size(total)),
        None => None,
    }
}

} // verus!
