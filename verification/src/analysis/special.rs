//! Which special-purpose blocks the addresses fall into.

use vstd::prelude::*;
use crate::addr::{net_contains, prefix_contains};
use crate::predicates::{AMT_NET, AS112_V6_NET, BENCHMARKING_NET, DEPRECATED_ORCHID_NET, DIRECT_AS112_NET, DISCARD_ONLY_NET, DNS_SD_NET, DOCUMENTATION_2_NET, DOCUMENTATION_NET, DRONE_REMOTE_ID_NET, DUMMY_PREFIX_NET, EXTENDED_IPV4_NET, IETF_PROTOCOL_NET, IPV4_MAPPED_NET, IPV4_TO_IPV6_NET, IPV6_TO_IPV4_NET, LINK_LOCAL_NET, LOOPBACK_NET, ORCHID_V2_NET, PORT_CONTROL_NET, SEGMENT_ROUTING_NET, TEREDO_NET, TURN_NET, UNIQUE_LOCAL_NET, UNSPECIFIED_NET};
use crate::analysis::ranking::{top_by_count, keys_distinct, is_top_by_count, has_key};

verus! {

/// A special-purpose address block: its network, prefix length and the
/// position of its name in the list of block names.
#[derive(Clone, Copy, Debug)]
pub struct SpecialAddressBlock {
    pub net: u128,
    pub len: u8,
    pub name_id: usize,
}

/// Number of blocks.
pub const NUM_SPECIAL_BLOCKS: usize = 25;

/// Number of distinct block names.
pub const NUM_BLOCK_NAMES: usize = 24;

/// The special-purpose blocks, in list order.
pub open spec fn spec_special_blocks() -> Seq<SpecialAddressBlock> {
    seq![
        SpecialAddressBlock { net: LOOPBACK_NET, len: 128, name_id: 0 },
        SpecialAddressBlock { net: UNSPECIFIED_NET, len: 128, name_id: 1 },
        SpecialAddressBlock { net: IPV4_MAPPED_NET, len: 96, name_id: 2 },
        SpecialAddressBlock { net: IPV4_TO_IPV6_NET, len: 96, name_id: 3 },
        SpecialAddressBlock { net: EXTENDED_IPV4_NET, len: 48, name_id: 4 },
        SpecialAddressBlock { net: DISCARD_ONLY_NET, len: 64, name_id: 5 },
        SpecialAddressBlock { net: DUMMY_PREFIX_NET, len: 64, name_id: 6 },
        SpecialAddressBlock { net: IETF_PROTOCOL_NET, len: 23, name_id: 7 },
        SpecialAddressBlock { net: TEREDO_NET, len: 32, name_id: 8 },
        SpecialAddressBlock { net: PORT_CONTROL_NET, len: 128, name_id: 9 },
        SpecialAddressBlock { net: TURN_NET, len: 128, name_id: 10 },
        SpecialAddressBlock { net: DNS_SD_NET, len: 128, name_id: 11 },
        SpecialAddressBlock { net: BENCHMARKING_NET, len: 48, name_id: 12 },
        SpecialAddressBlock { net: AMT_NET, len: 32, name_id: 13 },
        SpecialAddressBlock { net: AS112_V6_NET, len: 48, name_id: 14 },
        SpecialAddressBlock { net: DEPRECATED_ORCHID_NET, len: 28, name_id: 15 },
        SpecialAddressBlock { net: ORCHID_V2_NET, len: 28, name_id: 16 },
        SpecialAddressBlock { net: DRONE_REMOTE_ID_NET, len: 28, name_id: 17 },
        SpecialAddressBlock { net: IPV6_TO_IPV4_NET, len: 16, name_id: 18 },
        SpecialAddressBlock { net: DIRECT_AS112_NET, len: 48, name_id: 19 },
        SpecialAddressBlock { net: DOCUMENTATION_NET, len: 32, name_id: 20 },
        SpecialAddressBlock { net: DOCUMENTATION_2_NET, len: 20, name_id: 20 },
        SpecialAddressBlock { net: SEGMENT_ROUTING_NET, len: 16, name_id: 21 },
        SpecialAddressBlock { net: UNIQUE_LOCAL_NET, len: 7, name_id: 22 },
        SpecialAddressBlock { net: LINK_LOCAL_NET, len: 10, name_id: 23 },
    ]
}

/// The name of a block, by its name position.
pub open spec fn spec_block_name(name_id: int) -> Seq<char> {
    if name_id == 0 {
        "Loopback"@
    } else if name_id == 1 {
        "Unspecified"@
    } else if name_id == 2 {
        "IPv4-Mapped"@
    } else if name_id == 3 {
        "IPv4 to IPv6"@
    } else if name_id == 4 {
        "Extended IPv4-IPv6 Translation"@
    } else if name_id == 5 {
        "Discard-Only"@
    } else if name_id == 6 {
        "Dummy Prefix"@
    } else if name_id == 7 {
        "IETF Protocol"@
    } else if name_id == 8 {
        "Teredo"@
    } else if name_id == 9 {
        "Port Control Protocol"@
    } else if name_id == 10 {
        "TURN"@
    } else if name_id == 11 {
        "DNS-SD"@
    } else if name_id == 12 {
        "Benchmarking"@
    } else if name_id == 13 {
        "AMT"@
    } else if name_id == 14 {
        "AS112-v6"@
    } else if name_id == 15 {
        "Deprecated ORCHID"@
    } else if name_id == 16 {
        "ORCHIDv2"@
    } else if name_id == 17 {
        "Drone Remote ID"@
    } else if name_id == 18 {
        "IPv6 to IPv4"@
    } else if name_id == 19 {
        "Direct AS112"@
    } else if name_id == 20 {
        "Documentation"@
    } else if name_id == 21 {
        "Segment Routing"@
    } else if name_id == 22 {
        "Unique Local"@
    } else if name_id == 23 {
        "Link Local"@
    } else {
        Seq::empty()
    }
}

/// The name of a block, by its name position.
pub fn block_name(name_id: usize) -> (r: &'static str)
    requires
        name_id < NUM_BLOCK_NAMES,
    ensures
        r@ == spec_block_name(name_id as int),
{
    if name_id == 0 {
        "Loopback"
    } else if name_id == 1 {
        "Unspecified"
    } else if name_id == 2 {
        "IPv4-Mapped"
    } else if name_id == 3 {
        "IPv4 to IPv6"
    } else if name_id == 4 {
        "Extended IPv4-IPv6 Translation"
    } else if name_id == 5 {
        "Discard-Only"
    } else if name_id == 6 {
        "Dummy Prefix"
    } else if name_id == 7 {
        "IETF Protocol"
    } else if name_id == 8 {
        "Teredo"
    } else if name_id == 9 {
        "Port Control Protocol"
    } else if name_id == 10 {
        "TURN"
    } else if name_id == 11 {
        "DNS-SD"
    } else if name_id == 12 {
        "Benchmarking"
    } else if name_id == 13 {
        "AMT"
    } else if name_id == 14 {
        "AS112-v6"
    } else if name_id == 15 {
        "Deprecated ORCHID"
    } else if name_id == 16 {
        "ORCHIDv2"
    } else if name_id == 17 {
        "Drone Remote ID"
    } else if name_id == 18 {
        "IPv6 to IPv4"
    } else if name_id == 19 {
        "Direct AS112"
    } else if name_id == 20 {
        "Documentation"
    } else if name_id == 21 {
        "Segment Routing"
    } else if name_id == 22 {
        "Unique Local"
    } else if name_id == 23 {
        "Link Local"
    } else {
        ""
    }
}

/// The block at position `i` of the list.
pub fn special_block(i: usize) -> (r: SpecialAddressBlock)
    requires
        i < NUM_SPECIAL_BLOCKS,
    ensures
        r == spec_special_blocks()[i as int],
{
    let blocks = [
        SpecialAddressBlock { net: LOOPBACK_NET, len: 128, name_id: 0 },
        SpecialAddressBlock { net: UNSPECIFIED_NET, len: 128, name_id: 1 },
        SpecialAddressBlock { net: IPV4_MAPPED_NET, len: 96, name_id: 2 },
        SpecialAddressBlock { net: IPV4_TO_IPV6_NET, len: 96, name_id: 3 },
        SpecialAddressBlock { net: EXTENDED_IPV4_NET, len: 48, name_id: 4 },
        SpecialAddressBlock { net: DISCARD_ONLY_NET, len: 64, name_id: 5 },
        SpecialAddressBlock { net: DUMMY_PREFIX_NET, len: 64, name_id: 6 },
        SpecialAddressBlock { net: IETF_PROTOCOL_NET, len: 23, name_id: 7 },
        SpecialAddressBlock { net: TEREDO_NET, len: 32, name_id: 8 },
        SpecialAddressBlock { net: PORT_CONTROL_NET, len: 128, name_id: 9 },
        SpecialAddressBlock { net: TURN_NET, len: 128, name_id: 10 },
        SpecialAddressBlock { net: DNS_SD_NET, len: 128, name_id: 11 },
        SpecialAddressBlock { net: BENCHMARKING_NET, len: 48, name_id: 12 },
        SpecialAddressBlock { net: AMT_NET, len: 32, name_id: 13 },
        SpecialAddressBlock { net: AS112_V6_NET, len: 48, name_id: 14 },
        SpecialAddressBlock { net: DEPRECATED_ORCHID_NET, len: 28, name_id: 15 },
        SpecialAddressBlock { net: ORCHID_V2_NET, len: 28, name_id: 16 },
        SpecialAddressBlock { net: DRONE_REMOTE_ID_NET, len: 28, name_id: 17 },
        SpecialAddressBlock { net: IPV6_TO_IPV4_NET, len: 16, name_id: 18 },
        SpecialAddressBlock { net: DIRECT_AS112_NET, len: 48, name_id: 19 },
        SpecialAddressBlock { net: DOCUMENTATION_NET, len: 32, name_id: 20 },
        SpecialAddressBlock { net: DOCUMENTATION_2_NET, len: 20, name_id: 20 },
        SpecialAddressBlock { net: SEGMENT_ROUTING_NET, len: 16, name_id: 21 },
        SpecialAddressBlock { net: UNIQUE_LOCAL_NET, len: 7, name_id: 22 },
        SpecialAddressBlock { net: LINK_LOCAL_NET, len: 10, name_id: 23 },
    ];
    blocks[i]
}
/// Every block is a valid network and names a listed name.
pub proof fn lemma_special_blocks_valid(i: int)
    requires
        0 <= i < NUM_SPECIAL_BLOCKS,
    ensures
        spec_special_blocks().len() == NUM_SPECIAL_BLOCKS,
        spec_special_blocks()[i].len <= 128,
        spec_special_blocks()[i].name_id < NUM_BLOCK_NAMES,
{
}

/// Some block of the list holds `addr`.
pub open spec fn in_some_block(addr: u128) -> bool {
    exists|i: int| 0 <= i < NUM_SPECIAL_BLOCKS && #[trigger] block_holds(i, addr)
}

/// The block at position `i` holds `addr`.
pub open spec fn block_holds(i: int, addr: u128) -> bool {
    net_contains(spec_special_blocks()[i].net, spec_special_blocks()[i].len, addr)
}

/// A row of the report: a block and the count of the addresses it took.
#[derive(Clone, Copy, Debug)]
pub struct SpecialResults {
    pub block: SpecialAddressBlock,
    pub name: &'static str,
    pub count: u64,
}

/// Counts, per block, the addresses that fall into it.
pub struct SpecialAnalysis {
    counts: Vec<u64>,
    total: Ghost<nat>,
}

impl SpecialAnalysis {
    /// The count of each block, in list order.
    pub closed spec fn spec_counts(self) -> Seq<u64> {
        self.counts@
    }

    /// The number of addresses absorbed.
    pub closed spec fn spec_total(self) -> nat {
        self.total@
    }

    /// One count per block, none above the number of addresses absorbed.
    pub closed spec fn wf(self) -> bool {
        &&& self.counts@.len() == NUM_SPECIAL_BLOCKS
        &&& forall|i: int| 0 <= i < NUM_SPECIAL_BLOCKS ==> #[trigger] self.counts@[i] <= self.total@
    }

    /// A fresh analysis with every count at zero.
    pub fn new() -> (r: Self)
        ensures
            r.wf(),
            r.spec_total() == 0,
            forall|i: int| 0 <= i < NUM_SPECIAL_BLOCKS ==> #[trigger] r.spec_counts()[i] == 0,
    {
        let mut counts: Vec<u64> = Vec::new();
        let mut i: usize = 0;
        while i < NUM_SPECIAL_BLOCKS
            invariant
                0 <= i <= NUM_SPECIAL_BLOCKS,
                counts@.len() == i,
                forall|j: int| 0 <= j < i ==> #[trigger] counts@[j] == 0,
            decreases NUM_SPECIAL_BLOCKS - i,
        {
            counts.push(0);
            i = i + 1;
        }
        SpecialAnalysis { counts, total: Ghost(0) }
    }

    /// A block that holds `addr`, if any block does.
    fn matches_block(&self, addr: u128) -> (r: Option<usize>)
        ensures
            match r {
                Some(i) => i < NUM_SPECIAL_BLOCKS && block_holds(i as int, addr),
                None => !in_some_block(addr),
            },
    {
        let mut i: usize = 0;
        while i < NUM_SPECIAL_BLOCKS
            invariant
                0 <= i <= NUM_SPECIAL_BLOCKS,
                forall|j: int| 0 <= j < i ==> !#[trigger] block_holds(j, addr),
            decreases NUM_SPECIAL_BLOCKS - i,
        {
            let b = special_block(i);
            proof {
                lemma_special_blocks_valid(i as int);
            }
            if prefix_contains(b.net, b.len, addr) {
                return Some(i);
            }
            i = i + 1;
        }
        None
    }

    /// Counts `addr` in a block that holds it; an address in no block is
    /// not counted. Where blocks overlap, which of them counts the address
    /// is left open.
    pub fn absorb(&mut self, addr: u128)
        requires
            old(self).wf(),
            old(self).spec_total() < u64::MAX,
        ensures
            final(self).wf(),
            final(self).spec_total() == old(self).spec_total() + 1,
            !in_some_block(addr) ==> final(self).spec_counts() == old(self).spec_counts(),
            in_some_block(addr) ==> exists|i: int|
                0 <= i < NUM_SPECIAL_BLOCKS && #[trigger] block_holds(i, addr) && final(self).spec_counts()
                    == old(self).spec_counts().update(i, (old(self).spec_counts()[i] + 1) as u64),
    {
        match self.matches_block(addr) {
            Some(i) => {
                let c = self.counts[i];
                self.counts.set(i, c + 1);
            },
            None => {},
        }
        self.total = Ghost(self.total@ + 1);
    }

    /// One row per block that took at least one address, with its count,
    /// largest count first.
    pub fn finalize(&self) -> (r: Vec<SpecialResults>)
        requires
            self.wf(),
        ensures
            forall|q: int| 0 <= q < r@.len() ==> {
                let row = #[trigger] r@[q];
                &&& exists|i: int| 0 <= i < NUM_SPECIAL_BLOCKS && row.block == spec_special_blocks()[i]
                    && row.count == self.spec_counts()[i]
                &&& row.count > 0
                &&& row.name@ == spec_block_name(row.block.name_id as int)
            },
            forall|i: int|
                0 <= i < NUM_SPECIAL_BLOCKS && self.spec_counts()[i] > 0
                    ==> exists|q: int| 0 <= q < r@.len() && #[trigger] r@[q].block == spec_special_blocks()[i],
            forall|a: int, b: int| 0 <= a < r@.len() && 0 <= b < r@.len() && a != b ==> #[trigger] r@[a].block != #[trigger] r@[b].block,
            forall|a: int, b: int| 0 <= a < b < r@.len() ==> #[trigger] r@[a].count >= #[trigger] r@[b].count,
    {
        let mut entries: Vec<(u128, u64)> = Vec::new();
        let mut i: usize = 0;
        while i < NUM_SPECIAL_BLOCKS
            invariant
                self.wf(),
                0 <= i <= NUM_SPECIAL_BLOCKS,
                keys_distinct(entries@),
                forall|m: int| 0 <= m < entries@.len() ==> #[trigger] entries@[m].0 < i && entries@[m].1 == self.counts@[entries@[m].0 as int] && entries@[m].1 > 0,
                forall|j: int| 0 <= j < i && self.counts@[j] > 0 ==> #[trigger] has_key(entries@, j as u128),
            decreases NUM_SPECIAL_BLOCKS - i,
        {
            let c = self.counts[i];
            if c > 0 {
                let ghost before = entries@;
                entries.push((i as u128, c));
                proof {
                    assert(entries@[entries@.len() - 1].0 == i as u128);
                    assert forall|j: int| 0 <= j < i + 1 && self.counts@[j] > 0 implies #[trigger] has_key(entries@, j as u128) by {
                        if j < i {
                            assert(has_key(before, j as u128));
                            let m = choose|m: int| 0 <= m < before.len() && #[trigger] before[m].0 == j as u128;
                            assert(entries@[m].0 == j as u128);
                        } else {
                            assert(entries@[entries@.len() - 1].0 == j as u128);
                        }
                    }
                }
            }
            i = i + 1;
        }
        let ranked = top_by_count(&entries, entries.len());
        let mut r: Vec<SpecialResults> = Vec::new();
        let mut m: usize = 0;
        while m < ranked.len()
            invariant
                self.wf(),
                0 <= m <= ranked.len(),
                is_top_by_count(entries@, entries@.len(), ranked@),
                forall|q: int| 0 <= q < entries@.len() ==> #[trigger] entries@[q].0 < NUM_SPECIAL_BLOCKS && entries@[q].1 == self.counts@[entries@[q].0 as int] && entries@[q].1 > 0,
                r@.len() == m,
                forall|q: int| 0 <= q < m ==> (#[trigger] r@[q]).block == spec_special_blocks()[ranked@[q].0 as int] && r@[q].count == ranked@[q].1 && r@[q].name@ == spec_block_name(r@[q].block.name_id as int),
            decreases ranked.len() - m,
        {
            let (key, c) = ranked[m];
            proof {
                let q = choose|q: int| 0 <= q < entries@.len() && entries@[q] == ranked@[m as int];
                assert(entries@[q].0 < NUM_SPECIAL_BLOCKS);
            }
            let b = special_block(key as usize);
            proof {
                lemma_special_blocks_valid(key as int);
            }
            r.push(SpecialResults { block: b, name: block_name(b.name_id), count: c });
            m = m + 1;
        }
        proof {
            assert forall|q: int| 0 <= q < r@.len() implies {
                let row = #[trigger] r@[q];
                &&& exists|i: int| 0 <= i < NUM_SPECIAL_BLOCKS && row.block == spec_special_blocks()[i]
                    && row.count == self.spec_counts()[i]
                &&& row.count > 0
                &&& row.name@ == spec_block_name(row.block.name_id as int)
            } by {
                let e = choose|e: int| 0 <= e < entries@.len() && entries@[e] == ranked@[q];
                assert(entries@[e].0 < NUM_SPECIAL_BLOCKS);
                let i = ranked@[q].0 as int;
                assert(r@[q].block == spec_special_blocks()[i]);
            }
            assert forall|i: int|
                0 <= i < NUM_SPECIAL_BLOCKS && self.spec_counts()[i] > 0
                    implies exists|q: int| 0 <= q < r@.len() && #[trigger] r@[q].block == spec_special_blocks()[i] by {
                assert(has_key(entries@, i as u128));
                let e = choose|e: int| 0 <= e < entries@.len() && #[trigger] entries@[e].0 == i as u128;
                crate::analysis::count::lemma_top_full(entries@, ranked@, e);
                let q = choose|q: int| 0 <= q < ranked@.len() && #[trigger] ranked@[q].0 == i as u128;
                assert(r@[q].block == spec_special_blocks()[i]);
            }
            assert forall|a: int, b: int| 0 <= a < r@.len() && 0 <= b < r@.len() && a != b implies #[trigger] r@[a].block != #[trigger] r@[b].block by {
                assert(ranked@[a].0 != ranked@[b].0);
                let ea = choose|e: int| 0 <= e < entries@.len() && entries@[e] == ranked@[a];
                let eb = choose|e: int| 0 <= e < entries@.len() && entries@[e] == ranked@[b];
                lemma_blocks_distinct(ranked@[a].0 as int, ranked@[b].0 as int);
            }
            assert forall|a: int, b: int| 0 <= a < b < r@.len() implies #[trigger] r@[a].count >= #[trigger] r@[b].count by {
                assert(ranked@[a].1 >= ranked@[b].1);
            }
        }
        r
    }
}

/// No two positions of the list hold the same block.
pub proof fn lemma_blocks_distinct(i: int, j: int)
    requires
        0 <= i < NUM_SPECIAL_BLOCKS,
        0 <= j < NUM_SPECIAL_BLOCKS,
        i != j,
    ensures
        spec_special_blocks()[i] != spec_special_blocks()[j],
{
}

} // verus!
