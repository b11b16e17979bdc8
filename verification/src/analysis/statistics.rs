//! Totals of an address set: how many addresses, how many distinct ones,
//! how many repeats.

use vstd::prelude::*;

verus! {

/// A count per distinct address, held in a `hashbrown::HashMap`.
#[verifier::external_body]
pub struct AddressCounts {
    map: hashbrown::HashMap<u128, usize>,
}

/// What an [`AddressCounts`] holds: for each address seen, its count.
pub uninterp spec fn address_counts_contents(m: AddressCounts) -> Map<u128, usize>;

/// An empty map, made by `hashbrown::HashMap::new`.
#[verifier::external_body]
fn address_counts_new() -> (r: AddressCounts)
    ensures
        address_counts_contents(r).dom().is_empty(),
{
    AddressCounts { map: hashbrown::HashMap::new() }
}

/// The count of `k`, by `hashbrown::HashMap::get`: `None` when `k` has no
/// entry.
#[verifier::external_body]
fn address_counts_get(m: &AddressCounts, k: u128) -> (r: Option<usize>)
    ensures
        r == (if address_counts_contents(*m).contains_key(k) {
            Some(address_counts_contents(*m)[k])
        } else {
            None
        }),
{
    m.map.get(&k).copied()
}

/// Sets the count of `k` to `v`, by `hashbrown::HashMap::insert`, which
/// gives back the count it replaces, if any.
#[verifier::external_body]
fn address_counts_insert(m: &mut AddressCounts, k: u128, v: usize) -> (r: Option<usize>)
    ensures
        address_counts_contents(*final(m)) == address_counts_contents(*old(m)).insert(k, v),
        r == (if address_counts_contents(*old(m)).contains_key(k) {
            Some(address_counts_contents(*old(m))[k])
        } else {
            None
        }),
{
    m.map.insert(k, v)
}

/// The number of entries, by `hashbrown::HashMap::len`.
#[verifier::external_body]
fn address_counts_len(m: &AddressCounts) -> (r: usize)
    ensures
        r == address_counts_contents(*m).dom().len(),
{
    m.map.len()
}

/// The totals reported by the statistics analysis.
#[derive(Clone, Copy, Debug)]
pub struct StatisticsSummary {
    pub total_count: usize,
    pub unique_count: usize,
    pub duplicate_count: usize,
}

/// Counts addresses, and how many times each distinct address occurs.
pub struct StatisticsAnalysis {
    address_counts: AddressCounts,
    total_count: usize,
    absorbed: Ghost<Seq<u128>>,
}

impl StatisticsAnalysis {
    /// The addresses absorbed so far, in order.
    pub closed spec fn spec_absorbed(self) -> Seq<u128> {
        self.absorbed@
    }

    /// The map holds an entry for each distinct address absorbed, with a
    /// count no larger than the number of addresses.
    pub closed spec fn wf(self) -> bool {
        let m = address_counts_contents(self.address_counts);
        &&& m.dom() == self.absorbed@.to_set()
        &&& self.total_count == self.absorbed@.len()
        &&& forall|k: u128| #[trigger] m.contains_key(k) ==> m[k] <= self.total_count
    }

    /// A fresh analysis with no address.
    pub fn new() -> (r: Self)
        ensures
            r.wf(),
            r.spec_absorbed() == Seq::<u128>::empty(),
    {
        let r = StatisticsAnalysis {
            address_counts: address_counts_new(),
            total_count: 0,
            absorbed: Ghost(Seq::empty()),
        };
        assert(Seq::<u128>::empty().to_set() =~= Set::empty());
        r
    }

    /// Counts one more occurrence of `addr`.
    pub fn absorb(&mut self, addr: u128)
        requires
            old(self).wf(),
            old(self).spec_absorbed().len() < usize::MAX,
        ensures
            final(self).wf(),
            final(self).spec_absorbed() == old(self).spec_absorbed().push(addr),
    {
        let c = match address_counts_get(&self.address_counts, addr) {
            Some(c) => c,
            None => 0,
        };
        address_counts_insert(&mut self.address_counts, addr, c + 1);
        self.total_count = self.total_count + 1;
        self.absorbed = Ghost(self.absorbed@.push(addr));
        proof {
            old(self).absorbed@.lemma_push_to_set_commute(addr);
            assert(self.absorbed@.to_set() =~= address_counts_contents(self.address_counts).dom());
        }
    }

    /// The number of addresses, of distinct addresses, and of repeats (the
    /// difference of the two).
    pub fn finalize(&self) -> (r: StatisticsSummary)
        requires
            self.wf(),
        ensures
            r.total_count == self.spec_absorbed().len(),
            r.unique_count == self.spec_absorbed().to_set().len(),
            r.duplicate_count == r.total_count - r.unique_count,
    {
        let unique_count = address_counts_len(&self.address_counts);
        proof {
            self.absorbed@.lemma_cardinality_of_set();
        }
        StatisticsSummary {
            total_count: self.total_count,
            unique_count,
            duplicate_count: self.total_count - unique_count,
        }
    }
}

} // verus!
