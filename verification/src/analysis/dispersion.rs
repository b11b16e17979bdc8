//! Dispersion of an address set: Hamming distances between every pair of
//! addresses.

use vstd::prelude::*;
use crate::addr::{hamming, count_ones};

verus! {

/// Summary of the pairwise Hamming distances of an address set.
#[derive(Clone, Copy, Debug)]
pub struct DispersionSummary {
    /// The smallest distance, or `u32::MAX` when there is no pair.
    pub min_distance: u32,
    /// The largest distance, or 0 when there is no pair.
    pub max_distance: u32,
    /// The sum of all distances, wrapping at 2^64.
    pub total_distance: u64,
    /// The number of pairs.
    pub total_pairs: u64,
}

/// The sum of the distances from `s[j]` to each of `s[0..k]`.
pub open spec fn row_distance_sum(s: Seq<u128>, j: int, k: int) -> nat
    decreases k,
{
    if k <= 0 {
        0
    } else {
        row_distance_sum(s, j, k - 1) + hamming(s[k - 1], s[j])
    }
}

/// The sum of the distances of all pairs of `s[0..n]`.
pub open spec fn pair_distance_sum(s: Seq<u128>, n: int) -> nat
    decreases n,
{
    if n <= 0 {
        0
    } else {
        pair_distance_sum(s, n - 1) + row_distance_sum(s, n - 1, n - 1)
    }
}

/// `d` is what the dispersion analysis reports for the addresses `s`.
pub open spec fn summarizes(s: Seq<u128>, d: DispersionSummary) -> bool {
    &&& d.total_pairs == s.len() * (s.len() - 1) / 2
    &&& d.total_distance == pair_distance_sum(s, s.len() as int) % 0x1_0000_0000_0000_0000
    &&& forall|i: int, j: int| 0 <= i < j < s.len() ==> d.min_distance <= #[trigger] hamming(s[i], s[j]) <= d.max_distance
    &&& s.len() < 2 ==> d.min_distance == u32::MAX && d.max_distance == 0
    &&& s.len() >= 2 ==> exists|i: int, j: int| 0 <= i < j < s.len() && #[trigger] hamming(s[i], s[j]) == d.min_distance
    &&& s.len() >= 2 ==> exists|i: int, j: int| 0 <= i < j < s.len() && #[trigger] hamming(s[i], s[j]) == d.max_distance
}

/// Collects addresses and reports their pairwise Hamming distances.
pub struct DispersionAnalysis {
    addresses: Vec<u128>,
}

impl DispersionAnalysis {
    /// The addresses collected so far.
    pub closed spec fn spec_addresses(self) -> Seq<u128> {
        self.addresses@
    }

    /// A fresh analysis with no address.
    pub fn new() -> (r: Self)
        ensures
            r.spec_addresses() == Seq::<u128>::empty(),
    {
        DispersionAnalysis { addresses: Vec::new() }
    }

    /// Adds one address.
    pub fn absorb(&mut self, addr: u128)
        ensures
            final(self).spec_addresses() == old(self).spec_addresses().push(addr),
    {
        self.addresses.push(addr);
    }

    /// Reports the distances between all pairs of the collected addresses,
    /// and forgets them.
    pub fn finalize(&mut self) -> (r: DispersionSummary)
        requires
            old(self).spec_addresses().len() * (old(self).spec_addresses().len() - 1) / 2 <= u64::MAX,
        ensures
            summarizes(old(self).spec_addresses(), r),
            final(self).spec_addresses() == Seq::<u128>::empty(),
    {
        let r = summarize_distances(&self.addresses);
        self.addresses.clear();
        r
    }
}

/// The pairwise Hamming distances of `s`.
pub fn summarize_distances(s: &Vec<u128>) -> (r: DispersionSummary)
    requires
        s@.len() * (s@.len() - 1) / 2 <= u64::MAX,
    ensures
        summarizes(s@, r),
{
    let n = s.len();
    let mut min_distance: u32 = u32::MAX;
    let mut max_distance: u32 = 0;
    let mut total_distance: u64 = 0;
    let mut pair_count: u64 = 0;
    let mut j: usize = 0;
    while j < n
        invariant
            n == s@.len(),
            n * (n - 1) / 2 <= u64::MAX,
            0 <= j <= n,
            pair_count == j * (j - 1) / 2,
            total_distance == pair_distance_sum(s@, j as int) % 0x1_0000_0000_0000_0000,
            forall|a: int, b: int| 0 <= a < b < j ==> min_distance <= #[trigger] hamming(s@[a], s@[b]) <= max_distance,
            j < 2 ==> min_distance == u32::MAX && max_distance == 0,
            j >= 2 ==> exists|a: int, b: int| 0 <= a < b < j && #[trigger] hamming(s@[a], s@[b]) == min_distance,
            j >= 2 ==> exists|a: int, b: int| 0 <= a < b < j && #[trigger] hamming(s@[a], s@[b]) == max_distance,
        decreases n - j,
    {
        let mut k: usize = 0;
        let ghost row_start_sum = pair_distance_sum(s@, j as int);
        while k < j
            invariant
                n == s@.len(),
                n * (n - 1) / 2 <= u64::MAX,
                0 <= k <= j < n,
                pair_count == j * (j - 1) / 2 + k,
                row_start_sum == pair_distance_sum(s@, j as int),
                total_distance == (row_start_sum + row_distance_sum(s@, j as int, k as int)) % 0x1_0000_0000_0000_0000,
                forall|a: int, b: int| 0 <= a < b < j ==> min_distance <= #[trigger] hamming(s@[a], s@[b]) <= max_distance,
                forall|a: int| 0 <= a < k ==> min_distance <= #[trigger] hamming(s@[a], s@[j as int]) <= max_distance,
                j + k < 2 ==> min_distance == u32::MAX && max_distance == 0,
                (j >= 2 || k >= 1) ==> exists|a: int, b: int| 0 <= a < b <= j && (b < j || a < k) && #[trigger] hamming(s@[a], s@[b]) == min_distance,
                (j >= 2 || k >= 1) ==> exists|a: int, b: int| 0 <= a < b <= j && (b < j || a < k) && #[trigger] hamming(s@[a], s@[b]) == max_distance,
            decreases j - k,
        {
            let dist = count_ones(s[k] ^ s[j]);
            assert(dist == hamming(s@[k as int], s@[j as int]));
            proof {
                assert(j * (j - 1) / 2 + k + 1 <= n * (n - 1) / 2) by (nonlinear_arith)
                    requires
                        0 <= k < j < n,
                ;
            }
            if dist < min_distance {
                min_distance = dist;
            }
            if dist > max_distance {
                max_distance = dist;
            }
            total_distance = total_distance.wrapping_add(dist as u64);
            pair_count = pair_count + 1;
            k = k + 1;
        }
        proof {
            assert((j + 1) * j / 2 == j * (j - 1) / 2 + j) by (nonlinear_arith);
        }
        j = j + 1;
    }
    DispersionSummary { min_distance, max_distance, total_distance, total_pairs: pair_count }
}

/// With two addresses or more, the smallest distance reported is at most
/// the largest.
pub proof fn lemma_min_at_most_max(s: Seq<u128>, d: DispersionSummary)
    requires
        summarizes(s, d),
        s.len() >= 2,
    ensures
        d.min_distance <= d.max_distance,
{
    assert(d.min_distance <= hamming(s[0], s[1]) <= d.max_distance);
}

} // verus!
