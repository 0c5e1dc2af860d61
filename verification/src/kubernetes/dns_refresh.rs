//! Swapping a re-resolved backend set into the live route table. Another task
//! writes that table too, so the swap is a compare-and-swap against the table
//! that was live when the refresh began.
use crate::dup::Dup;
use crate::order;
use crate::order::sort_vec;
use crate::text::str_eq;
use vstd::prelude::*;

verus! {

/// The backend addresses that a route table was built from.
#[derive(Clone, Debug, Default, PartialEq, Eq)]
pub struct ResolvedTable {
    pub addresses: Vec<String>,
}

/// What became of one refresh.
#[derive(Clone, Copy, Debug, PartialEq, Eq, Structural)]
pub enum SwapOutcome {
    /// The backend set has not changed: no swap.
    Unchanged,
    /// The re-resolved table is in place.
    Swapped,
    /// Another writer was first: the re-resolved table is dropped.
    Superseded,
}

impl ResolvedTable {
    /// The addresses in order.
    pub open spec fn signature(&self) -> Seq<Seq<char>> {
        order::sort_seq::<String>(self.addresses.deep_view())
    }

    /// The addresses in order.
    pub fn dns_signature(&self) -> (r: Vec<String>)
        ensures
            r.deep_view() == self.signature(),
    {
        sort_vec(self.addresses.dup())
    }
}

/// Whether the table that was built differs from the current one in its
/// addresses, so that a swap is to be tried.
pub fn backends_changed(current: &ResolvedTable, built: &ResolvedTable) -> (r: bool)
    ensures
        r == (current.signature() != built.signature()),
{
    let a = current.dns_signature();
    let b = built.dns_signature();
    if a.len() != b.len() {
        assert(a.deep_view().len() != b.deep_view().len());
        return true;
    }
    let mut i: usize = 0;
    while i < a.len()
        invariant
            i <= a@.len() == b@.len(),
            a.deep_view() == current.signature(),
            b.deep_view() == built.signature(),
            forall|j: int| 0 <= j < i ==> #[trigger] a.deep_view()[j] == b.deep_view()[j],
        decreases a.len() - i,
    {
        if !str_eq(a[i].as_str(), b[i].as_str()) {
            assert(a.deep_view()[i as int] != b.deep_view()[i as int]);
            return true;
        }
        i += 1;
    }
    assert(a.deep_view() =~= b.deep_view());
    false
}

/// What became of a refresh: whether the backends changed, and whether the
/// compare-and-swap found the table that it was to replace.
pub fn swap_outcome(changed: bool, replaced: bool) -> (r: SwapOutcome)
    ensures
        r == SwapOutcome::Unchanged <==> !changed,
        r == SwapOutcome::Swapped <==> changed && replaced,
        r == SwapOutcome::Superseded <==> changed && !replaced,
{
    if !changed {
        SwapOutcome::Unchanged
    } else if replaced {
        SwapOutcome::Swapped
    } else {
        SwapOutcome::Superseded
    }
}

/// A resolver that hands out the same records in another order changes
/// nothing.
pub proof fn law_reordered_records_are_unchanged(a: ResolvedTable, b: ResolvedTable)
    requires
        a.addresses.deep_view().to_multiset() == b.addresses.deep_view().to_multiset(),
    ensures
        a.signature() == b.signature(),
{
    order::law_sort_ignores_order(a.addresses.deep_view(), b.addresses.deep_view());
}

/// A record that comes or goes is a change: tables with one signature have the
/// same addresses.
pub proof fn law_signature_tells_addresses(a: ResolvedTable, b: ResolvedTable)
    requires
        a.signature() == b.signature(),
    ensures
        a.addresses.deep_view().to_multiset() == b.addresses.deep_view().to_multiset(),
{
    order::lemma_sort_multiset::<String>(a.addresses.deep_view());
    order::lemma_sort_multiset::<String>(b.addresses.deep_view());
}

} // verus!
