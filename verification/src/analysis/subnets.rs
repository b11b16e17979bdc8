//! Distribution of addresses over the subnets of a fixed prefix length.

use vstd::prelude::*;
use std::collections::HashMap;
use vstd::arithmetic::power2::{pow2, lemma_pow2_unfold, lemma_pow2_pos};
use vstd::arithmetic::div_mod::lemma_fundamental_div_mod;
use crate::addr::{block_size, net_contains, lemma_pow2_128};
use crate::analysis::ranking::{top_by_count, keys_distinct, is_top_by_count, has_key};

verus! {

broadcast use vstd::std_specs::hash::group_hash_axioms;

/// The network address of the subnet of prefix length `len` that holds
/// `addr`: `addr` with its low `128 - len` bits cleared.
pub open spec fn subnet_of(addr: u128, len: u8) -> u128 {
    (addr as nat - addr as nat % block_size(len)) as u128
}

/// How many of the addresses of `s` lie in the subnet `net/len`.
pub open spec fn count_in_subnet(s: Seq<u128>, len: u8, net: u128) -> nat
    decreases s.len(),
{
    if s.len() == 0 {
        0
    } else {
        count_in_subnet(s.drop_last(), len, net) + if subnet_of(s.last(), len) == net {
            1nat
        } else {
            0nat
        }
    }
}

/// The number of addresses of `s` in each subnet of prefix length `len`
/// that holds any.
pub open spec fn subnet_map(s: Seq<u128>, len: u8) -> Map<u128, u64> {
    Map::new(|k: u128| count_in_subnet(s, len, k) > 0, |k: u128| count_in_subnet(s, len, k) as u64)
}

/// `r` is the `limit` entries of `m` with the largest counts, largest
/// first: as many as `limit` allows, each an entry of `m`, no key twice,
/// counts not increasing, no entry left out with a larger count than one
/// taken.
pub open spec fn is_top_of_map(m: Map<u128, u64>, limit: nat, r: Seq<(u128, u64)>) -> bool {
    &&& r.len() == (if limit < m.dom().len() { limit } else { m.dom().len() })
    &&& forall|i: int| 0 <= i < r.len() ==> m.contains_key(#[trigger] r[i].0) && m[r[i].0] == r[i].1
    &&& keys_distinct(r)
    &&& forall|i: int, j: int| 0 <= i < j < r.len() ==> #[trigger] r[i].1 >= #[trigger] r[j].1
    &&& forall|k: u128, i: int|
        #[trigger] m.contains_key(k) && 0 <= i < r.len() && !has_key(r, k) ==> m[k] <= #[trigger] r[i].1
}

/// Counts addresses per subnet of a fixed prefix length.
pub struct SubnetAnalysis {
    subnet_counts: HashMap<u128, u64>,
    subnet_order: Vec<u128>,
    block: u128,
    max_subnets: usize,
    prefix_length: u8,
    absorbed: Ghost<Seq<u128>>,
}

impl SubnetAnalysis {
    /// The addresses absorbed so far.
    pub closed spec fn spec_absorbed(self) -> Seq<u128> {
        self.absorbed@
    }

    /// The count of each subnet seen so far.
    pub closed spec fn spec_counts(self) -> Map<u128, u64> {
        self.subnet_counts@
    }

    /// The prefix length of the subnets.
    pub closed spec fn spec_prefix_length(self) -> u8 {
        self.prefix_length
    }

    /// How many subnets the report holds at most.
    pub closed spec fn spec_max_subnets(self) -> usize {
        self.max_subnets
    }

    /// The counts are those of the absorbed addresses; the order list names
    /// each subnet seen once.
    pub closed spec fn wf(self) -> bool {
        &&& 1 <= self.prefix_length <= 128
        &&& self.block as nat == block_size(self.prefix_length)
        &&& self.subnet_order@.no_duplicates()
        &&& self.subnet_order@.to_set() == self.subnet_counts@.dom()
        &&& forall|k: u128| #[trigger] self.subnet_counts@.contains_key(k) ==> self.subnet_counts@[k] == count_in_subnet(self.absorbed@, self.prefix_length, k)
        &&& forall|k: u128| #[trigger] self.subnet_counts@.contains_key(k) <==> count_in_subnet(self.absorbed@, self.prefix_length, k) > 0
        &&& self.subnet_counts@.dom().finite()
    }

    /// A fresh analysis of the subnets of prefix length `prefix_length`,
    /// reporting at most `max_subnets` of them.
    pub fn new_with_options(max_subnets: usize, prefix_length: u8) -> (r: Self)
        requires
            1 <= prefix_length <= 128,
        ensures
            r.wf(),
            r.spec_absorbed() == Seq::<u128>::empty(),
            r.spec_prefix_length() == prefix_length,
            r.spec_max_subnets() == max_subnets,
    {
        let steps: u8 = 128 - prefix_length;
        let mut block: u128 = 1;
        let mut i: u8 = 0;
        proof {
            vstd::arithmetic::power2::lemma2_to64();
        }
        while i < steps
            invariant
                0 <= i <= steps,
                steps == 128 - prefix_length,
                1 <= prefix_length <= 128,
                block as nat == pow2(i as nat),
            decreases steps - i,
        {
            proof {
                lemma_pow2_unfold((i + 1) as nat);
                vstd::arithmetic::power2::lemma_pow2_strictly_increases((i + 1) as nat, 128);
                lemma_pow2_128();
            }
            block = block * 2;
            i = i + 1;
        }
        let r = SubnetAnalysis {
            subnet_counts: HashMap::new(),
            subnet_order: Vec::new(),
            block,
            max_subnets,
            prefix_length,
            absorbed: Ghost(Seq::empty()),
        };
        assert(r.subnet_order@.to_set() =~= r.subnet_counts@.dom());
        r
    }

    /// The network address of the subnet that holds `addr`.
    fn get_subnet(&self, addr: &u128) -> (r: u128)
        requires
            self.wf(),
        ensures
            r == subnet_of(*addr, self.spec_prefix_length()),
    {
        proof {
            lemma_pow2_pos((128 - self.prefix_length) as nat);
            vstd::arithmetic::div_mod::lemma_mod_decreases(*addr as nat, self.block as nat);
        }
        *addr - *addr % self.block
    }

    /// Counts one more address in its subnet.
    pub fn absorb(&mut self, addr: u128)
        requires
            old(self).wf(),
            old(self).spec_absorbed().len() < u64::MAX,
        ensures
            final(self).wf(),
            final(self).spec_absorbed() == old(self).spec_absorbed().push(addr),
            final(self).spec_prefix_length() == old(self).spec_prefix_length(),
            final(self).spec_max_subnets() == old(self).spec_max_subnets(),
    {
        let subnet = self.get_subnet(&addr);
        let ghost s0 = self.absorbed@;
        let ghost p = self.prefix_length;
        proof {
            lemma_count_bounded(s0, p, subnet);
        }
        let c: u64 = match self.subnet_counts.get(&subnet) {
            Some(c) => *c,
            None => 0,
        };
        if c == 0 {
            self.subnet_order.push(subnet);
        }
        self.subnet_counts.insert(subnet, c + 1);
        self.absorbed = Ghost(s0.push(addr));
        proof {
            let s1 = s0.push(addr);
            assert(s1.drop_last() =~= s0);
            assert forall|k: u128| #[trigger] self.subnet_counts@.contains_key(k) implies self.subnet_counts@[k] == count_in_subnet(s1, p, k) by {}
            assert forall|k: u128| #[trigger] self.subnet_counts@.contains_key(k) <==> count_in_subnet(s1, p, k) > 0 by {}
            if c == 0 {
                old(self).subnet_order@.lemma_push_to_set_commute(subnet);
                assert(!old(self).subnet_order@.contains(subnet));
            }
            assert(self.subnet_order@.to_set() =~= self.subnet_counts@.dom());
        }
    }

    /// The `max_subnets` subnets with the most addresses, each with its
    /// count, largest count first.
    pub fn finalize(&self) -> (r: Vec<(u128, u64)>)
        requires
            self.wf(),
        ensures
            is_top_of_map(self.spec_counts(), self.spec_max_subnets() as nat, r@),
            is_top_of_map(
                subnet_map(self.spec_absorbed(), self.spec_prefix_length()),
                self.spec_max_subnets() as nat,
                r@,
            ),
    {
        proof {
            assert(self.subnet_counts@ =~= subnet_map(self.absorbed@, self.prefix_length));
        }
        let mut entries: Vec<(u128, u64)> = Vec::new();
        let mut i: usize = 0;
        while i < self.subnet_order.len()
            invariant
                self.wf(),
                0 <= i <= self.subnet_order.len(),
                entries@.len() == i,
                forall|j: int| 0 <= j < i ==> #[trigger] entries@[j].0 == self.subnet_order@[j] && entries@[j].1 == self.subnet_counts@[self.subnet_order@[j]],
            decreases self.subnet_order.len() - i,
        {
            let k = self.subnet_order[i];
            assert(self.subnet_order@.to_set().contains(k));
            let c = match self.subnet_counts.get(&k) {
                Some(c) => *c,
                None => 0,
            };
            entries.push((k, c));
            i = i + 1;
        }
        let ghost m = self.subnet_counts@;
        let ghost order = self.subnet_order@;
        proof {
            assert(keys_distinct(entries@)) by {
                assert forall|a: int, b: int| 0 <= a < entries@.len() && 0 <= b < entries@.len() && a != b implies #[trigger] entries@[a].0 != #[trigger] entries@[b].0 by {
                    assert(order[a] != order[b]);
                }
            }
        }
        let r = top_by_count(&entries, self.max_subnets);
        proof {
            order.unique_seq_to_set();
            assert forall|q: int| 0 <= q < r@.len() implies m.contains_key(#[trigger] r@[q].0) && m[r@[q].0] == r@[q].1 by {
                let j = choose|j: int| 0 <= j < entries@.len() && entries@[j] == r@[q];
                assert(order.to_set().contains(order[j]));
            }
            assert forall|k: u128, q: int| #[trigger] m.contains_key(k) && 0 <= q < r@.len() && !has_key(r@, k) implies m[k] <= #[trigger] r@[q].1 by {
                assert(order.to_set().contains(k));
                let j = choose|j: int| 0 <= j < order.len() && order[j] == k;
                assert(entries@[j].0 == k);
            }
        }
        r
    }
}

/// A subnet never holds more addresses than were absorbed.
proof fn lemma_count_bounded(s: Seq<u128>, len: u8, net: u128)
    ensures
        count_in_subnet(s, len, net) <= s.len(),
    decreases s.len(),
{
    if s.len() > 0 {
        lemma_count_bounded(s.drop_last(), len, net);
    }
}

/// Every address lies in its own subnet.
pub proof fn lemma_subnet_contains_address(addr: u128, len: u8)
    requires
        1 <= len <= 128,
    ensures
        net_contains(subnet_of(addr, len), len, addr),
        subnet_of(subnet_of(addr, len), len) == subnet_of(addr, len),
{
    let b = block_size(len);
    lemma_pow2_pos((128 - len) as nat);
    lemma_fundamental_div_mod(addr as int, b as int);
    let q = addr as nat / b;
    let n = (addr as nat - addr as nat % b) as nat;
    assert(n == b * q);
    vstd::arithmetic::mul::lemma_mul_is_commutative(b as int, q as int);
    vstd::arithmetic::div_mod::lemma_div_multiples_vanish(q as int, b as int);
    vstd::arithmetic::div_mod::lemma_mod_multiples_basic(q as int, b as int);
    assert(n % b == 0);
    assert(subnet_of(addr, len) as nat == n);
}

} // verus!
