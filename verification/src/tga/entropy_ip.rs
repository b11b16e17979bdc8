//! Entropy/IP: addresses are cut into segments of nybbles where the
//! variability of the seeds changes, the values each segment takes in the
//! seeds are mined with their counts, and new addresses are assembled from
//! values drawn segment by segment in proportion to those counts.
//!
//! The variability of a nybble position is its Shannon entropy over the
//! seeds, a floating-point quantity; it is computed by the caller from the
//! counts that `nybble_counts` gives, and the caller hands back, per
//! position, whether the entropy changes enough there to start a segment.

use vstd::prelude::*;
use rand::distributions::{Distribution, WeightedIndex};
use vstd::arithmetic::power2::pow2;
use crate::tga::{TGA, TgaInfo};
use crate::tga::octets::{octets_of, be_value};

verus! {

/// The number of nybbles in an address.
pub const NYBBLES: usize = 32;

/// Nybble `i` of `addr`, counting from the most significant (`i == 0`).
pub open spec fn nybble(addr: u128, i: int) -> nat {
    (addr as nat / pow2((4 * (31 - i)) as nat)) % 16
}

/// The 32 nybbles of `addr`, most significant first.
pub open spec fn nybble_seq(addr: u128) -> Seq<u8> {
    Seq::new(32, |i: int| nybble(addr, i) as u8)
}

/// The number whose base-16 digits, most significant first, are `ds`.
pub open spec fn digits_value(ds: Seq<u8>) -> nat
    decreases ds.len(),
{
    if ds.len() == 0 {
        0
    } else {
        digits_value(ds.drop_last()) * 16 + ds.last() as nat
    }
}

/// The value that the nybbles `start..=end` of `addr` spell.
pub open spec fn segment_value(addr: u128, start: int, end: int) -> nat {
    digits_value(nybble_seq(addr).subrange(start, end + 1))
}

/// Digits below 16 spell a number below `16^n`, `n` being their number.
proof fn lemma_digits_bound(ds: Seq<u8>)
    requires
        forall|i: int| 0 <= i < ds.len() ==> #[trigger] ds[i] < 16,
    ensures
        digits_value(ds) < pow2(4 * ds.len()),
    decreases ds.len(),
{
    vstd::arithmetic::power2::lemma_pow2_pos(4 * ds.len());
    if ds.len() > 0 {
        let p = ds.drop_last();
        assert forall|i: int| 0 <= i < p.len() implies #[trigger] p[i] < 16 by {
            assert(p[i] == ds[i]);
        }
        lemma_digits_bound(p);
        vstd::arithmetic::power2::lemma_pow2_adds(4 * p.len(), 4);
        vstd::arithmetic::power2::lemma2_to64();
        let q = pow2(4 * p.len());
        assert(ds.last() < 16);
        assert(digits_value(p) * 16 + ds.last() < q * 16) by (nonlinear_arith)
            requires
                digits_value(p) < q,
                ds.last() < 16,
        ;
    }
}

/// `2^(4k) * 16 == 2^(4(k+1))`.
proof fn lemma_pow16_step(k: nat)
    ensures
        pow2(4 * k) * 16 == pow2(4 * (k + 1)),
{
    vstd::arithmetic::power2::lemma_pow2_adds(4 * k, 4);
    vstd::arithmetic::power2::lemma2_to64();
}

/// The 32 nybbles of `addr`, most significant first.
pub fn nybbles_of(addr: u128) -> (r: Vec<u8>)
    ensures
        r@ == nybble_seq(addr),
{
    let mut low: Vec<u8> = Vec::new();
    let mut rest: u128 = addr;
    let mut k: usize = 0;
    proof {
        vstd::arithmetic::power2::lemma2_to64();
        assert(addr as nat / 1 == addr as nat);
    }
    while k < 32
        invariant
            0 <= k <= 32,
            low@.len() == k,
            rest as nat == addr as nat / pow2(4 * k as nat),
            forall|j: int| 0 <= j < k ==> #[trigger] low@[j] == nybble(addr, 31 - j),
        decreases 32 - k,
    {
        let d: u8 = (rest % 16) as u8;
        proof {
            assert(nybble(addr, 31 - k) == (addr as nat / pow2((4 * k) as nat)) % 16);
            lemma_pow16_step(k as nat);
            vstd::arithmetic::power2::lemma_pow2_pos(4 * k as nat);
            vstd::arithmetic::div_mod::lemma_div_denominator(addr as int, pow2(4 * k as nat) as int, 16);
        }
        low.push(d);
        rest = rest / 16;
        k = k + 1;
    }
    let mut r: Vec<u8> = Vec::new();
    let mut i: usize = 0;
    while i < 32
        invariant
            0 <= i <= 32,
            low@.len() == 32,
            forall|j: int| 0 <= j < 32 ==> #[trigger] low@[j] == nybble(addr, 31 - j),
            r@ == nybble_seq(addr).take(i as int),
        decreases 32 - i,
    {
        r.push(low[31 - i]);
        i = i + 1;
        assert(r@ =~= nybble_seq(addr).take(i as int));
    }
    assert(nybble_seq(addr).take(32) =~= nybble_seq(addr));
    r
}

/// The value that the digits `ds[start..=end]` spell.
pub fn digits_to_value(ds: &Vec<u8>, start: usize, end: usize) -> (r: u128)
    requires
        start <= end < ds@.len(),
        end - start < 32,
        forall|i: int| 0 <= i < ds@.len() ==> #[trigger] ds@[i] < 16,
    ensures
        r == digits_value(ds@.subrange(start as int, end + 1)),
{
    let mut acc: u128 = 0;
    let mut i: usize = start;
    let n = ds.len();
    while i <= end
        invariant
            n == ds@.len(),
            start <= i <= end + 1,
            end < ds@.len(),
            end - start < 32,
            forall|j: int| 0 <= j < ds@.len() ==> #[trigger] ds@[j] < 16,
            acc == digits_value(ds@.subrange(start as int, i as int)),
        decreases end + 1 - i,
    {
        let ghost next = ds@.subrange(start as int, i + 1);
        proof {
            assert(next.drop_last() =~= ds@.subrange(start as int, i as int));
            assert forall|j: int| 0 <= j < next.len() implies #[trigger] next[j] < 16 by {
                assert(next[j] == ds@[start + j]);
            }
            lemma_digits_bound(next);
            if next.len() < 32 {
                vstd::arithmetic::power2::lemma_pow2_strictly_increases(4 * next.len(), 128);
            }
            crate::addr::lemma_pow2_128();
        }
        acc = acc * 16 + ds[i] as u128;
        i = i + 1;
    }
    acc
}

/// The value that the nybbles `start..=end` of `addr` spell.
pub fn segment_value_of(addr: u128, start: usize, end: usize) -> (r: u128)
    requires
        start <= end < 32,
    ensures
        r == segment_value(addr, start as int, end as int),
{
    let ns = nybbles_of(addr);
    digits_to_value(&ns, start, end)
}

// ---------------------------------------------------------------------------
// Step 1: counts of each nybble value at each position
// ---------------------------------------------------------------------------

/// How many addresses of `s` have the value `v` at nybble `i`.
pub open spec fn count_nybble(s: Seq<u128>, i: int, v: nat) -> nat
    decreases s.len(),
{
    if s.len() == 0 {
        0
    } else {
        count_nybble(s.drop_last(), i, v) + if nybble(s.last(), i) == v {
            1nat
        } else {
            0nat
        }
    }
}

/// No count exceeds the number of addresses.
proof fn lemma_count_nybble_bound(s: Seq<u128>, i: int, v: nat)
    ensures
        count_nybble(s, i, v) <= s.len(),
    decreases s.len(),
{
    if s.len() > 0 {
        lemma_count_nybble_bound(s.drop_last(), i, v);
    }
}

/// For each nybble position `i` and value `v`, how many of `addresses` have
/// `v` at `i`: entry `i` of the result holds the 16 counts of position `i`.
/// The entropy of position `i` is computed from these.
pub fn nybble_counts(addresses: &Vec<u128>) -> (r: Vec<[u64; 16]>)
    requires
        addresses@.len() <= u64::MAX,
    ensures
        r@.len() == 32,
        forall|i: int, v: int| 0 <= i < 32 && 0 <= v < 16 ==> #[trigger] r@[i]@[v] == count_nybble(
            addresses@,
            i,
            v as nat,
        ),
{
    let mut counts: Vec<[u64; 16]> = Vec::new();
    let mut p: usize = 0;
    while p < 32
        invariant
            0 <= p <= 32,
            counts@.len() == p,
            forall|i: int, v: int| 0 <= i < p && 0 <= v < 16 ==> #[trigger] counts@[i]@[v] == 0,
        decreases 32 - p,
    {
        counts.push([0u64; 16]);
        p = p + 1;
    }
    let mut a: usize = 0;
    while a < addresses.len()
        invariant
            0 <= a <= addresses.len(),
            addresses@.len() <= u64::MAX,
            counts@.len() == 32,
            forall|i: int, v: int| 0 <= i < 32 && 0 <= v < 16 ==> #[trigger] counts@[i]@[v]
                == count_nybble(addresses@.take(a as int), i, v as nat),
        decreases addresses.len() - a,
    {
        let ghost pre = addresses@.take(a as int);
        let ghost cur = addresses@.take(a + 1);
        assert(cur.drop_last() =~= pre);
        let addr = addresses[a];
        let ns = nybbles_of(addr);
        let mut i: usize = 0;
        while i < 32
            invariant
                0 <= i <= 32,
                ns@ == nybble_seq(addr),
                cur.drop_last() == pre,
                cur.last() == addr,
                cur.len() == a + 1,
                a < addresses@.len() <= u64::MAX,
                counts@.len() == 32,
                forall|j: int, v: int| 0 <= j < i && 0 <= v < 16 ==> #[trigger] counts@[j]@[v]
                    == count_nybble(cur, j, v as nat),
                forall|j: int, v: int| i <= j < 32 && 0 <= v < 16 ==> #[trigger] counts@[j]@[v]
                    == count_nybble(pre, j, v as nat),
            decreases 32 - i,
        {
            let d = ns[i] as usize;
            proof {
                lemma_count_nybble_bound(pre, i as int, d as nat);
                assert(nybble(addr, i as int) == d);
            }
            let mut row = counts[i];
            row[d] = row[d] + 1;
            counts.set(i, row);
            proof {
                assert forall|v: int| 0 <= v < 16 implies #[trigger] counts@[i as int]@[v] == count_nybble(cur, i as int, v as nat) by {
                    if v != d {
                        assert(nybble(addr, i as int) != v);
                    }
                }
            }
            i = i + 1;
        }
        a = a + 1;
    }
    assert(addresses@.take(addresses.len() as int) =~= addresses@);
    counts
}

// ---------------------------------------------------------------------------
// Step 2: segmentation
// ---------------------------------------------------------------------------

/// A value a segment takes in the seeds, with how many seeds take it.
#[derive(Debug, Clone, Copy)]
pub struct SegmentValue {
    pub value: u128,
    pub count: u64,
}

/// The nybbles `start_nybble..=end_nybble` of an address, with the values
/// they take in the seeds.
#[derive(Debug)]
pub struct Segment {
    pub start_nybble: usize,
    pub end_nybble: usize,
    pub values: Vec<SegmentValue>,
}

/// The segments from position `i` on, the current one having started at
/// `cur`: a boundary is always put before nybble 16, and before any other
/// position whose entropy change is marked significant.
pub open spec fn bounds_from(sig: Seq<bool>, i: int, cur: int) -> Seq<(int, int)>
    decreases 32 - i,
{
    if i >= 32 {
        seq![(cur, 31)]
    } else if i == 16 {
        seq![(cur, 15)] + bounds_from(sig, 17, 16)
    } else if sig[i] {
        seq![(cur, i - 1)] + bounds_from(sig, i + 1, i)
    } else {
        bounds_from(sig, i + 1, cur)
    }
}

/// The segments of an address: nybbles 0 to 7 (the /32 prefix), then
/// segments from nybble 8 on, cut before nybble 16 and wherever
/// `significant` marks an entropy change. Position 8 is never compared with
/// position 7, so `significant[8]` plays no part, nor does
/// `significant[16]`.
pub open spec fn spec_segment_bounds(significant: Seq<bool>) -> Seq<(int, int)> {
    seq![(0int, 7int)] + bounds_from(significant, 9, 8)
}

/// The bounds of a list of segments.
pub open spec fn bounds_of(segs: Seq<Segment>) -> Seq<(int, int)> {
    segs.map_values(|s: Segment| (s.start_nybble as int, s.end_nybble as int))
}

/// `b` cuts the nybbles `from..=31` into consecutive non-empty segments,
/// in order.
pub open spec fn tiles_from(b: Seq<(int, int)>, from: int) -> bool {
    &&& b.len() > 0
    &&& b[0].0 == from
    &&& b.last().1 == 31
    &&& forall|k: int| 0 <= k < b.len() ==> #[trigger] b[k].0 <= b[k].1
    &&& forall|k: int| 0 < k < b.len() ==> #[trigger] b[k].0 == b[k - 1].1 + 1
}

/// The segments from any position tile what is left of the address.
proof fn lemma_bounds_from_tile(sig: Seq<bool>, i: int, cur: int)
    requires
        8 <= cur < i <= 32,
        i <= 16 ==> cur < 16,
        cur < i,
    ensures
        tiles_from(bounds_from(sig, i, cur), cur),
    decreases 32 - i,
{
    let b = bounds_from(sig, i, cur);
    if i >= 32 {
    } else if i == 16 {
        lemma_bounds_from_tile(sig, 17, 16);
        let t = bounds_from(sig, 17, 16);
        assert(b == seq![(cur, 15)] + t);
        assert forall|k: int| 0 < k < b.len() implies #[trigger] b[k].0 == b[k - 1].1 + 1 by {
            if k > 1 {
                assert(b[k] == t[k - 1]);
                assert(b[k - 1] == t[k - 2]);
            }
        }
        assert forall|k: int| 0 <= k < b.len() implies #[trigger] b[k].0 <= b[k].1 by {
            if k > 0 {
                assert(b[k] == t[k - 1]);
            }
        }
    } else if sig[i] {
        lemma_bounds_from_tile(sig, i + 1, i);
        let t = bounds_from(sig, i + 1, i);
        assert(b == seq![(cur, i - 1)] + t);
        assert forall|k: int| 0 < k < b.len() implies #[trigger] b[k].0 == b[k - 1].1 + 1 by {
            if k > 1 {
                assert(b[k] == t[k - 1]);
                assert(b[k - 1] == t[k - 2]);
            }
        }
        assert forall|k: int| 0 <= k < b.len() implies #[trigger] b[k].0 <= b[k].1 by {
            if k > 0 {
                assert(b[k] == t[k - 1]);
            }
        }
    } else {
        lemma_bounds_from_tile(sig, i + 1, cur);
    }
}

/// The segmentation tiles the whole address, from nybble 0 to nybble 31,
/// the first segment being the /32 prefix and a segment starting at
/// nybble 16.
pub proof fn lemma_segments_tile(significant: Seq<bool>)
    ensures
        tiles_from(spec_segment_bounds(significant), 0),
        spec_segment_bounds(significant)[0] == (0int, 7int),
        exists|k: int| 0 <= k < spec_segment_bounds(significant).len() && #[trigger] spec_segment_bounds(significant)[k].0 == 16,
{
    let b = spec_segment_bounds(significant);
    let t = bounds_from(significant, 9, 8);
    lemma_bounds_from_tile(significant, 9, 8);
    assert(b == seq![(0int, 7int)] + t);
    assert forall|k: int| 0 < k < b.len() implies #[trigger] b[k].0 == b[k - 1].1 + 1 by {
        if k > 1 {
            assert(b[k] == t[k - 1]);
            assert(b[k - 1] == t[k - 2]);
        }
    }
    assert forall|k: int| 0 <= k < b.len() implies #[trigger] b[k].0 <= b[k].1 by {
        if k > 0 {
            assert(b[k] == t[k - 1]);
        }
    }
    lemma_segment_at_16(significant, 9, 8);
    let k = choose|k: int| 0 <= k < t.len() && #[trigger] t[k].0 == 16;
    assert(b[k + 1] == t[k]);
}

/// Some segment from position `i <= 16` on starts at nybble 16.
proof fn lemma_segment_at_16(sig: Seq<bool>, i: int, cur: int)
    requires
        8 <= cur < i <= 16,
    ensures
        exists|k: int| 0 <= k < bounds_from(sig, i, cur).len() && #[trigger] bounds_from(sig, i, cur)[k].0 == 16,
    decreases 16 - i,
{
    let b = bounds_from(sig, i, cur);
    if i == 16 {
        let t = bounds_from(sig, 17, 16);
        lemma_bounds_from_tile(sig, 17, 16);
        assert(b[1] == t[0]);
    } else if sig[i] {
        let t = bounds_from(sig, i + 1, i);
        lemma_segment_at_16(sig, i + 1, i);
        let k = choose|k: int| 0 <= k < t.len() && #[trigger] t[k].0 == 16;
        assert(b[k + 1] == t[k]);
    } else {
        lemma_segment_at_16(sig, i + 1, cur);
    }
}

/// A segment with no values yet.
fn empty_segment(start_nybble: usize, end_nybble: usize) -> (r: Segment)
    ensures
        r.start_nybble == start_nybble,
        r.end_nybble == end_nybble,
        r.values@.len() == 0,
{
    Segment { start_nybble, end_nybble, values: Vec::new() }
}

/// Cuts an address into segments (with no values yet): the /32 prefix, a
/// boundary before nybble 16, and a boundary before each other position
/// from 9 on that `significant` marks. The segments tile the address.
pub fn segment_addresses(significant: &Vec<bool>) -> (r: Vec<Segment>)
    requires
        significant@.len() == 32,
    ensures
        bounds_of(r@) == spec_segment_bounds(significant@),
        forall|k: int| 0 <= k < r@.len() ==> #[trigger] r@[k].values@.len() == 0,
        tiles_from(bounds_of(r@), 0),
{
    let ghost sig = significant@;
    let mut segs: Vec<Segment> = Vec::new();
    segs.push(empty_segment(0, 7));
    let mut cur: usize = 8;
    let mut i: usize = 9;
    assert(bounds_of(segs@) =~= seq![(0int, 7int)]);
    while i < 32
        invariant
            9 <= i <= 32,
            8 <= cur < i,
            i <= 16 ==> cur < 16,
            sig == significant@,
            sig.len() == 32,
            bounds_of(segs@) + bounds_from(sig, i as int, cur as int) == spec_segment_bounds(sig),
            forall|k: int| 0 <= k < segs@.len() ==> #[trigger] segs@[k].values@.len() == 0,
        decreases 32 - i,
    {
        let ghost before = bounds_of(segs@);
        if i == 16 {
            let old_cur = cur;
            segs.push(empty_segment(cur, 15));
            assert(bounds_of(segs@) =~= before + seq![(old_cur as int, 15int)]);
            assert(bounds_from(sig, 16, old_cur as int) == seq![(old_cur as int, 15int)] + bounds_from(sig, 17, 16));
            assert(bounds_of(segs@) + bounds_from(sig, 17, 16) =~= before + bounds_from(sig, 16, old_cur as int));
            cur = 16;
            i = 17;
        } else {
            if significant[i] {
                let old_cur = cur;
                segs.push(empty_segment(cur, i - 1));
                assert(bounds_of(segs@) =~= before + seq![(old_cur as int, i - 1)]);
                assert(bounds_of(segs@) + bounds_from(sig, i + 1, i as int) =~= before + bounds_from(sig, i as int, old_cur as int));
                cur = i;
            }
            i = i + 1;
        }
    }
    proof {
        lemma_segments_tile(sig);
        assert(bounds_of(segs@) + seq![(cur as int, 31int)] == spec_segment_bounds(sig));
    }
    segs.push(empty_segment(cur, 31));
    assert(bounds_of(segs@) =~= spec_segment_bounds(sig));
    segs
}

// ---------------------------------------------------------------------------
// Step 3: mining the values of each segment
// ---------------------------------------------------------------------------

/// How many addresses of `s` spell `v` in the nybbles `start..=end`.
pub open spec fn count_value(s: Seq<u128>, start: int, end: int, v: nat) -> nat
    decreases s.len(),
{
    if s.len() == 0 {
        0
    } else {
        count_value(s.drop_last(), start, end, v) + if segment_value(s.last(), start, end) == v {
            1nat
        } else {
            0nat
        }
    }
}

/// The sum of the counts of `vals`.
pub open spec fn count_sum(vals: Seq<SegmentValue>) -> nat
    decreases vals.len(),
{
    if vals.len() == 0 {
        0
    } else {
        count_sum(vals.drop_last()) + vals.last().count as nat
    }
}

/// `vals` lists each value that the nybbles `start..=end` take in `s`
/// once, with the number of addresses that take it, and nothing else.
pub open spec fn mined(s: Seq<u128>, start: int, end: int, vals: Seq<SegmentValue>) -> bool {
    &&& forall|k: int|
        0 <= k < vals.len() ==> #[trigger] vals[k].count == count_value(s, start, end, vals[k].value as nat)
            && vals[k].count > 0
    &&& forall|i: int, j: int|
        0 <= i < vals.len() && 0 <= j < vals.len() && i != j ==> #[trigger] vals[i].value
            != #[trigger] vals[j].value
    &&& forall|x: nat|
        #[trigger] count_value(s, start, end, x) > 0 ==> exists|k: int| 0 <= k < vals.len() && vals[k].value == x
    &&& count_sum(vals) == s.len()
}

/// Raising one count by one raises the sum by one.
proof fn lemma_count_sum_update(vals: Seq<SegmentValue>, j: int, v: SegmentValue)
    requires
        0 <= j < vals.len(),
        v.count == vals[j].count + 1,
    ensures
        count_sum(vals.update(j, v)) == count_sum(vals) + 1,
    decreases vals.len(),
{
    let u = vals.update(j, v);
    if j == vals.len() - 1 {
        assert(u.drop_last() =~= vals.drop_last());
    } else {
        lemma_count_sum_update(vals.drop_last(), j, v);
        assert(u.drop_last() =~= vals.drop_last().update(j, v));
    }
}

/// The values that the nybbles `start..=end` take in `addresses`, each with
/// its count.
pub fn mine_values(addresses: &Vec<u128>, start: usize, end: usize) -> (r: Vec<SegmentValue>)
    requires
        start <= end < 32,
        addresses@.len() <= u64::MAX,
    ensures
        mined(addresses@, start as int, end as int, r@),
{
    let mut vals: Vec<SegmentValue> = Vec::new();
    let mut a: usize = 0;
    while a < addresses.len()
        invariant
            0 <= a <= addresses.len() <= u64::MAX,
            start <= end < 32,
            mined(addresses@.take(a as int), start as int, end as int, vals@),
        decreases addresses.len() - a,
    {
        let ghost pre = addresses@.take(a as int);
        let ghost cur = addresses@.take(a + 1);
        assert(cur.drop_last() =~= pre);
        let v = segment_value_of(addresses[a], start, end);
        assert(cur.last() == addresses@[a as int]);
        let mut j: usize = 0;
        while j < vals.len() && vals[j].value != v
            invariant
                0 <= j <= vals.len(),
                forall|k: int| 0 <= k < j ==> vals@[k].value != v,
            decreases vals.len() - j,
        {
            j = j + 1;
        }
        let found = j < vals.len();
        let ghost before = vals@;
        if found {
            let c = vals[j].count;
            assert(c == count_value(pre, start as int, end as int, v as nat));
            assert(count_sum(before) == pre.len());
            proof {
                lemma_count_value_bound(pre, start as int, end as int, v as nat);
            }
            let nv = SegmentValue { value: v, count: c + 1 };
            vals.set(j, nv);
            proof {
                lemma_count_sum_update(before, j as int, nv);
            }
        } else {
            proof {
                if count_value(pre, start as int, end as int, v as nat) > 0 {
                    let k = choose|k: int| 0 <= k < before.len() && before[k].value == v as nat;
                    assert(false);
                }
            }
            vals.push(SegmentValue { value: v, count: 1 });
            assert(vals@.drop_last() =~= before);
        }
        proof {
            let s0 = start as int;
            let e0 = end as int;
            assert forall|k: int| 0 <= k < vals@.len() implies #[trigger] vals@[k].count == count_value(cur, s0, e0, vals@[k].value as nat)
                && vals@[k].count > 0 by {
                if k < before.len() && !(found && k == j) {
                    assert(vals@[k] == before[k]);
                    assert(before[k].value != v);
                }
            }
            assert forall|x: nat| #[trigger] count_value(cur, s0, e0, x) > 0 implies exists|k: int| 0 <= k < vals@.len() && vals@[k].value == x by {
                if x == v as nat {
                    if found {
                        assert(vals@[j as int].value == x);
                    } else {
                        assert(vals@[before.len() as int].value == x);
                    }
                } else {
                    assert(count_value(pre, s0, e0, x) > 0);
                    let k = choose|k: int| 0 <= k < before.len() && before[k].value == x;
                    assert(vals@[k].value == x);
                }
            }
        }
        a = a + 1;
    }
    assert(addresses@.take(addresses.len() as int) =~= addresses@);
    vals
}

/// No value is taken by more addresses than there are.
proof fn lemma_count_value_bound(s: Seq<u128>, start: int, end: int, v: nat)
    ensures
        count_value(s, start, end, v) <= s.len(),
    decreases s.len(),
{
    if s.len() > 0 {
        lemma_count_value_bound(s.drop_last(), start, end, v);
    }
}

/// Fills each segment with the values it takes in `addresses`, each with
/// its count.
pub fn mine_segments(segments: &mut Vec<Segment>, addresses: &Vec<u128>)
    requires
        forall|k: int| 0 <= k < old(segments)@.len() ==> #[trigger] old(segments)@[k].start_nybble
            <= old(segments)@[k].end_nybble && old(segments)@[k].end_nybble < 32,
        addresses@.len() <= u64::MAX,
    ensures
        bounds_of(final(segments)@) == bounds_of(old(segments)@),
        forall|k: int| 0 <= k < final(segments)@.len() ==> mined(
            addresses@,
            #[trigger] final(segments)@[k].start_nybble as int,
            final(segments)@[k].end_nybble as int,
            final(segments)@[k].values@,
        ),
{
    let mut out: Vec<Segment> = Vec::new();
    let mut k: usize = 0;
    while k < segments.len()
        invariant
            0 <= k <= segments.len(),
            segments@ == old(segments)@,
            addresses@.len() <= u64::MAX,
            forall|q: int| 0 <= q < segments@.len() ==> #[trigger] segments@[q].start_nybble
                <= segments@[q].end_nybble && segments@[q].end_nybble < 32,
            bounds_of(out@) == bounds_of(segments@).take(k as int),
            forall|q: int| 0 <= q < out@.len() ==> mined(
                addresses@,
                #[trigger] out@[q].start_nybble as int,
                out@[q].end_nybble as int,
                out@[q].values@,
            ),
        decreases segments.len() - k,
    {
        let s = segments[k].start_nybble;
        let e = segments[k].end_nybble;
        let values = mine_values(addresses, s, e);
        let ghost before = out@;
        out.push(Segment { start_nybble: s, end_nybble: e, values });
        assert(bounds_of(out@) =~= bounds_of(before).push((s as int, e as int)));
        k = k + 1;
        assert(bounds_of(out@) =~= bounds_of(segments@).take(k as int));
    }
    assert(bounds_of(segments@).take(segments@.len() as int) =~= bounds_of(segments@));
    *segments = out;
}

// ---------------------------------------------------------------------------
// The model and generation
// ---------------------------------------------------------------------------

/// The digit `k` places from the right of `v` in base 16.
pub open spec fn digit(v: nat, k: nat) -> nat {
    (v / pow2(4 * k)) % 16
}

/// `ns` with the nybbles `start..=end` set to the last `end - start + 1`
/// base-16 digits of `v`.
pub open spec fn write_digits(ns: Seq<u8>, start: int, end: int, v: nat) -> Seq<u8> {
    Seq::new(
        ns.len(),
        |i: int|
            if start <= i <= end {
                digit(v, (end - i) as nat) as u8
            } else {
                ns[i]
            },
    )
}

/// The nybbles of the address `::`.
pub open spec fn zero_nybbles() -> Seq<u8> {
    Seq::new(32, |i: int| 0u8)
}

/// The sum of `w`.
pub open spec fn weight_sum(w: Seq<u64>) -> nat
    decreases w.len(),
{
    if w.len() == 0 {
        0
    } else {
        weight_sum(w.drop_last()) + w.last() as nat
    }
}

/// One choice per segment: the index of a value with a positive count, or
/// `None` when the segment has no such value.
pub open spec fn choices_ok(segs: Seq<Segment>, c: Seq<Option<int>>) -> bool {
    &&& c.len() == segs.len()
    &&& forall|j: int|
        0 <= j < segs.len() ==> match #[trigger] c[j] {
            None => forall|i: int| 0 <= i < segs[j].values@.len() ==> segs[j].values@[i].count == 0,
            Some(i) => 0 <= i < segs[j].values@.len() && segs[j].values@[i].count > 0,
        }
}

/// The nybbles of the address assembled from the choices `c`: starting from
/// `::`, each segment in turn is set to the value chosen for it, and a
/// segment with no choice is left as it is.
pub open spec fn apply_choices(segs: Seq<Segment>, c: Seq<Option<int>>) -> Seq<u8>
    decreases segs.len(),
{
    if segs.len() == 0 || c.len() != segs.len() {
        zero_nybbles()
    } else {
        let prev = apply_choices(segs.drop_last(), c.drop_last());
        match c.last() {
            None => prev,
            Some(i) => write_digits(
                prev,
                segs.last().start_nybble as int,
                segs.last().end_nybble as int,
                segs.last().values@[i].value as nat,
            ),
        }
    }
}

/// The segments of an address learned from seeds.
#[derive(Debug)]
pub struct EntropyIpModel {
    pub segments: Vec<Segment>,
}

impl EntropyIpModel {
    /// Each segment lies inside an address and is shorter than the whole
    /// address, its values fit in it, and its counts add up to a `u64`.
    pub open spec fn wf(&self) -> bool {
        forall|j: int|
            0 <= j < self.segments@.len() ==> {
                let s = #[trigger] self.segments@[j];
                &&& s.start_nybble <= s.end_nybble < 32
                &&& s.end_nybble - s.start_nybble < 31
                &&& count_sum(s.values@) <= u64::MAX
                &&& forall|i: int|
                    0 <= i < s.values@.len() ==> (#[trigger] s.values@[i]).value < pow2(
                        (4 * (s.end_nybble - s.start_nybble + 1)) as nat,
                    )
            }
    }

    /// A new address: for each segment in turn, a value is drawn at random
    /// with probability proportional to its count and written into the
    /// segment's nybbles; a segment none of whose values has a positive
    /// count is left as it is. Nybbles of no segment stay 0.
    pub fn generate(&self) -> (r: u128)
        requires
            self.wf(),
        ensures
            exists|c: Seq<Option<int>>| #[trigger] choices_ok(self.segments@, c) && r == digits_value(
                apply_choices(self.segments@, c),
            ),
    {
        let mut ns: Vec<u8> = Vec::new();
        let mut p: usize = 0;
        while p < 32
            invariant
                0 <= p <= 32,
                ns@ == zero_nybbles().take(p as int),
            decreases 32 - p,
        {
            ns.push(0u8);
            p = p + 1;
            assert(ns@ =~= zero_nybbles().take(p as int));
        }
        assert(zero_nybbles().take(32) =~= zero_nybbles());
        let ghost segs = self.segments@;
        let ghost mut c: Seq<Option<int>> = Seq::empty();
        assert(apply_choices(segs.take(0), c) == zero_nybbles());
        let mut j: usize = 0;
        while j < self.segments.len()
            invariant
                0 <= j <= self.segments.len(),
                segs == self.segments@,
                self.wf(),
                c.len() == j,
                choices_ok(segs.take(j as int), c),
                ns@ == apply_choices(segs.take(j as int), c),
                ns@.len() == 32,
            decreases self.segments.len() - j,
        {
            let seg = &self.segments[j];
            let ghost sj = segs[j as int];
            assert(sj == self.segments@[j as int]);
            let w = segment_weights(seg);
            let ghost c_old = c;
            let pick = weighted_pick(&w);
            match pick {
                None => {
                    proof {
                        c = c.push(None);
                        assert forall|i: int| 0 <= i < sj.values@.len() implies sj.values@[i].count == 0 by {
                            assert(w@[i] == sj.values@[i].count);
                        }
                    }
                },
                Some(i) => {
                    let v = seg.values[i].value;
                    write_value(&mut ns, seg.start_nybble, seg.end_nybble, v);
                    proof {
                        c = c.push(Some(i as int));
                        assert(w@[i as int] == sj.values@[i as int].count);
                    }
                },
            }
            proof {
                let t = segs.take(j + 1);
                assert(t.drop_last() =~= segs.take(j as int));
                assert(c.drop_last() =~= c_old);
                assert(t[j as int] == sj);
                assert forall|q: int| 0 <= q < t.len() implies match #[trigger] c[q] {
                    None => forall|i: int| 0 <= i < t[q].values@.len() ==> t[q].values@[i].count == 0,
                    Some(i) => 0 <= i < t[q].values@.len() && t[q].values@[i].count > 0,
                } by {
                    if q < j {
                        assert(c[q] == c_old[q]);
                        assert(t[q] == segs.take(j as int)[q]);
                    }
                }
            }
            j = j + 1;
        }
        assert(segs.take(segs.len() as int) =~= segs);
        proof {
            lemma_apply_choices_digits(segs, c);
            assert(choices_ok(self.segments@, c));
            assert(ns@ == apply_choices(self.segments@, c));
            assert(ns@.subrange(0, 32) =~= ns@);
        }
        digits_to_value(&ns, 0, 31)
    }
}

/// The nybbles assembled from choices are digits.
proof fn lemma_apply_choices_digits(segs: Seq<Segment>, c: Seq<Option<int>>)
    ensures
        apply_choices(segs, c).len() == 32,
        forall|i: int| 0 <= i < 32 ==> #[trigger] apply_choices(segs, c)[i] < 16,
    decreases segs.len(),
{
    if segs.len() > 0 && c.len() == segs.len() {
        lemma_apply_choices_digits(segs.drop_last(), c.drop_last());
    }
}

/// The counts of the values of a segment.
fn segment_weights(seg: &Segment) -> (w: Vec<u64>)
    ensures
        w@.len() == seg.values@.len(),
        forall|i: int| 0 <= i < w@.len() ==> #[trigger] w@[i] == seg.values@[i].count,
        weight_sum(w@) == count_sum(seg.values@),
{
    let mut w: Vec<u64> = Vec::new();
    let mut i: usize = 0;
    while i < seg.values.len()
        invariant
            0 <= i <= seg.values.len(),
            w@.len() == i,
            forall|k: int| 0 <= k < i ==> #[trigger] w@[k] == seg.values@[k].count,
            weight_sum(w@) == count_sum(seg.values@.take(i as int)),
        decreases seg.values.len() - i,
    {
        let ghost before = w@;
        w.push(seg.values[i].count);
        assert(w@.drop_last() =~= before);
        assert(seg.values@.take(i + 1).drop_last() =~= seg.values@.take(i as int));
        i = i + 1;
    }
    assert(seg.values@.take(seg.values.len() as int) =~= seg.values@);
    w
}

/// One draw from `rand::distributions::WeightedIndex::new(weights)` with
/// `rand::thread_rng`. The crate's source builds the cumulative sums of the
/// weights (summing in the weight type, so the sum must fit in a `u64`),
/// fails when there is no weight or they sum to 0, and otherwise draws a
/// number below the sum and returns the first index whose cumulative sum
/// exceeds it: an index whose weight is positive. Which such index comes
/// back is left open: it is random.
#[verifier::external_body]
fn weighted_pick(weights: &Vec<u64>) -> (r: Option<usize>)
    requires
        weight_sum(weights@) <= u64::MAX,
    ensures
        match r {
            None => forall|i: int| 0 <= i < weights@.len() ==> weights@[i] == 0,
            Some(i) => i < weights@.len() && weights@[i as int] > 0,
        },
{
    match WeightedIndex::new(weights) {
        Ok(dist) => Some(dist.sample(&mut rand::thread_rng())),
        Err(_) => None,
    }
}

/// Sets the nybbles `start..=end` of `ns` to the last digits of `v`.
fn write_value(ns: &mut Vec<u8>, start: usize, end: usize, v: u128)
    requires
        old(ns)@.len() == 32,
        start <= end < 32,
    ensures
        final(ns)@ == write_digits(old(ns)@, start as int, end as int, v as nat),
{
    let ghost orig = ns@;
    let n: usize = end - start + 1;
    let mut rest: u128 = v;
    let mut k: usize = 0;
    proof {
        vstd::arithmetic::power2::lemma2_to64();
        assert(v as nat / 1 == v as nat);
    }
    while k < n
        invariant
            0 <= k <= n,
            n == end - start + 1,
            end < 32,
            ns@.len() == 32,
            rest as nat == v as nat / pow2(4 * k as nat),
            ns@ == Seq::new(
                32,
                |p: int|
                    if end - k < p <= end {
                        digit(v as nat, (end - p) as nat) as u8
                    } else {
                        orig[p]
                    },
            ),
        decreases n - k,
    {
        let d: u8 = (rest % 16) as u8;
        let pos = end - k;
        proof {
            lemma_pow16_step(k as nat);
            vstd::arithmetic::power2::lemma_pow2_pos(4 * k as nat);
            vstd::arithmetic::div_mod::lemma_div_denominator(v as int, pow2(4 * k as nat) as int, 16);
            assert(d == digit(v as nat, k as nat));
        }
        ns.set(pos, d);
        rest = rest / 16;
        k = k + 1;
        assert(ns@ =~= Seq::new(
            32,
            |p: int|
                if end - k < p <= end {
                    digit(v as nat, (end - p) as nat) as u8
                } else {
                    orig[p]
                },
        ));
    }
    assert(ns@ =~= write_digits(orig, start as int, end as int, v as nat));
}

/// The Entropy/IP TGA: a model learned from seeds.
pub struct EntropyIpTga {
    model: EntropyIpModel,
}

impl EntropyIpTga {
    pub const NAME: &'static str = "entropy_ip";
    pub const DESCRIPTION: &'static str = "Entropy/IP: segments addresses by nybble entropy and draws each segment from the values mined from the seeds";

    /// The model is well formed.
    #[verifier::type_invariant]
    spec fn inv(self) -> bool {
        self.model.wf()
    }

    /// The model learned.
    pub closed spec fn spec_model(&self) -> &EntropyIpModel {
        &self.model
    }

    /// The model is the one learned from `addresses` with the segmentation
    /// `significant`: no segment when there is no seed; otherwise the
    /// segments that `significant` gives (see `segment_addresses`), each
    /// holding the values it takes in the seeds and their counts.
    pub open spec fn is_built_from(&self, addresses: Seq<u128>, significant: Seq<bool>) -> bool {
        &&& addresses.len() == 0 ==> self.spec_model().segments@.len() == 0
        &&& addresses.len() > 0 ==> bounds_of(self.spec_model().segments@) == spec_segment_bounds(significant)
        &&& forall|k: int| 0 <= k < self.spec_model().segments@.len() ==> mined(
            addresses,
            #[trigger] self.spec_model().segments@[k].start_nybble as int,
            self.spec_model().segments@[k].end_nybble as int,
            self.spec_model().segments@[k].values@,
        )
    }

    /// Learns a model from `addresses` with the segmentation `significant`.
    pub fn build(addresses: &Vec<u128>, significant: &Vec<bool>) -> (r: Self)
        requires
            addresses@.len() <= u64::MAX,
            significant@.len() == 32,
        ensures
            r.is_built_from(addresses@, significant@),
    {
        if addresses.len() == 0 {
            return EntropyIpTga { model: EntropyIpModel { segments: Vec::new() } };
        }
        let mut segments = segment_addresses(significant);
        proof {
            lemma_segments_tile(significant@);
            assert forall|k: int| 0 <= k < segments@.len() implies #[trigger] segments@[k].start_nybble
                <= segments@[k].end_nybble && segments@[k].end_nybble < 32 by {
                assert(bounds_of(segments@)[k] == (segments@[k].start_nybble as int, segments@[k].end_nybble as int));
                lemma_tile_within(bounds_of(segments@), k);
            }
        }
        let ghost b = bounds_of(segments@);
        mine_segments(&mut segments, addresses);
        let model = EntropyIpModel { segments };
        proof {
            assert forall|j: int| 0 <= j < model.segments@.len() implies {
                let s = #[trigger] model.segments@[j];
                &&& s.start_nybble <= s.end_nybble < 32
                &&& s.end_nybble - s.start_nybble < 31
                &&& count_sum(s.values@) <= u64::MAX
                &&& forall|i: int|
                    0 <= i < s.values@.len() ==> (#[trigger] s.values@[i]).value < pow2(
                        (4 * (s.end_nybble - s.start_nybble + 1)) as nat,
                    )
            } by {
                let s = model.segments@[j];
                assert(bounds_of(model.segments@)[j] == b[j]);
                lemma_tile_within(b, j);
                lemma_tile_short(b, j);
                assert forall|i: int| 0 <= i < s.values@.len() implies (#[trigger] s.values@[i]).value < pow2(
                    (4 * (s.end_nybble - s.start_nybble + 1)) as nat,
                ) by {
                    let x = s.values@[i].value;
                    assert(mined(addresses@, s.start_nybble as int, s.end_nybble as int, s.values@));
                    assert(s.values@[i].count > 0);
                    assert(count_value(addresses@, s.start_nybble as int, s.end_nybble as int, x as nat) > 0);
                    lemma_counted_value_fits(addresses@, s.start_nybble as int, s.end_nybble as int, x as nat);
                }
            }
        }
        EntropyIpTga { model }
    }

    /// The TGA of a model given whole (as read back from a saved model), or
    /// `None` when the model is not well formed.
    pub fn from_model(model: EntropyIpModel) -> (r: Option<Self>)
        ensures
            model.wf() ==> (r matches Some(t) && *t.spec_model() == model),
            !model.wf() ==> r is None,
    {
        if model_is_wf(&model) {
            Some(EntropyIpTga { model })
        } else {
            None
        }
    }

    /// The model learned.
    pub fn model(&self) -> (r: &EntropyIpModel)
        ensures
            r == self.spec_model(),
            r.wf(),
    {
        proof {
            use_type_invariant(self);
        }
        &self.model
    }
}

/// Whether a model is well formed.
fn model_is_wf(m: &EntropyIpModel) -> (r: bool)
    ensures
        r == m.wf(),
{
    let mut j: usize = 0;
    while j < m.segments.len()
        invariant
            0 <= j <= m.segments.len(),
            forall|q: int| 0 <= q < j ==> segment_ok(#[trigger] m.segments@[q]),
        decreases m.segments.len() - j,
    {
        if !segment_is_ok(&m.segments[j]) {
            return false;
        }
        j = j + 1;
    }
    true
}

/// A segment as a well-formed model has it.
pub open spec fn segment_ok(s: Segment) -> bool {
    &&& s.start_nybble <= s.end_nybble < 32
    &&& s.end_nybble - s.start_nybble < 31
    &&& count_sum(s.values@) <= u64::MAX
    &&& forall|i: int|
        0 <= i < s.values@.len() ==> (#[trigger] s.values@[i]).value < pow2(
            (4 * (s.end_nybble - s.start_nybble + 1)) as nat,
        )
}

/// Whether a segment is as a well-formed model has it.
fn segment_is_ok(s: &Segment) -> (r: bool)
    ensures
        r == segment_ok(*s),
{
    if !(s.start_nybble <= s.end_nybble && s.end_nybble < 32 && s.end_nybble - s.start_nybble < 31) {
        return false;
    }
    let n: usize = s.end_nybble - s.start_nybble + 1;
    let mut limit: u128 = 1;
    let mut k: usize = 0;
    proof {
        vstd::arithmetic::power2::lemma2_to64();
    }
    while k < n
        invariant
            0 <= k <= n <= 31,
            limit as nat == pow2(4 * k as nat),
        decreases n - k,
    {
        proof {
            lemma_pow16_step(k as nat);
            vstd::arithmetic::power2::lemma_pow2_strictly_increases(4 * (k + 1) as nat, 128);
            crate::addr::lemma_pow2_128();
        }
        limit = limit * 16;
        k = k + 1;
    }
    let mut sum: u64 = 0;
    let mut i: usize = 0;
    while i < s.values.len()
        invariant
            0 <= i <= s.values.len(),
            limit as nat == pow2(4 * n as nat),
            n == s.end_nybble - s.start_nybble + 1,
            sum == count_sum(s.values@.take(i as int)),
            forall|q: int| 0 <= q < i ==> (#[trigger] s.values@[q]).value < limit,
        decreases s.values.len() - i,
    {
        assert(s.values@.take(i + 1).drop_last() =~= s.values@.take(i as int));
        let v = s.values[i];
        if v.value >= limit {
            return false;
        }
        match sum.checked_add(v.count) {
            Some(t) => {
                sum = t;
            },
            None => {
                proof {
                    lemma_count_sum_prefix(s.values@, i + 1);
                }
                return false;
            },
        }
        i = i + 1;
    }
    assert(s.values@.take(s.values@.len() as int) =~= s.values@);
    true
}

/// The counts of a prefix add up to no more than all the counts.
proof fn lemma_count_sum_prefix(vals: Seq<SegmentValue>, i: int)
    requires
        0 <= i <= vals.len(),
    ensures
        count_sum(vals.take(i)) <= count_sum(vals),
    decreases vals.len() - i,
{
    if i < vals.len() {
        lemma_count_sum_prefix(vals, i + 1);
        assert(vals.take(i + 1).drop_last() =~= vals.take(i));
    } else {
        assert(vals.take(i) =~= vals);
    }
}

/// A segment of a tiling lies inside the address.
proof fn lemma_tile_within(b: Seq<(int, int)>, k: int)
    requires
        tiles_from(b, 0),
        0 <= k < b.len(),
    ensures
        0 <= b[k].0 <= b[k].1 <= 31,
    decreases b.len() - k,
{
    lemma_tile_start_bound(b, k);
    lemma_tile_end_bound(b, k);
}

/// The starts of a tiling are at least 0.
proof fn lemma_tile_start_bound(b: Seq<(int, int)>, k: int)
    requires
        tiles_from(b, 0),
        0 <= k < b.len(),
    ensures
        b[k].0 >= 0,
    decreases k,
{
    if k > 0 {
        lemma_tile_start_bound(b, k - 1);
    }
}

/// The ends of a tiling are at most 31.
proof fn lemma_tile_end_bound(b: Seq<(int, int)>, k: int)
    requires
        tiles_from(b, 0),
        0 <= k < b.len(),
    ensures
        b[k].1 <= 31,
    decreases b.len() - k,
{
    if k < b.len() - 1 {
        lemma_tile_end_bound(b, k + 1);
        assert(b[k + 1].0 == b[k].1 + 1);
        assert(b[k + 1].0 <= b[k + 1].1);
    }
}

/// A segment of a tiling with more than one segment is shorter than the
/// address.
proof fn lemma_tile_short(b: Seq<(int, int)>, k: int)
    requires
        tiles_from(b, 0),
        b.len() > 1,
        0 <= k < b.len(),
    ensures
        b[k].1 - b[k].0 < 31,
{
    lemma_tile_within(b, k);
    if k == 0 {
        lemma_tile_within(b, 1);
    } else {
        lemma_tile_within(b, 0);
        lemma_tile_within(b, k - 1);
    }
}

/// A value some seed takes in a segment fits in the segment.
proof fn lemma_counted_value_fits(s: Seq<u128>, start: int, end: int, x: nat)
    requires
        0 <= start <= end < 32,
        count_value(s, start, end, x) > 0,
    ensures
        x < pow2((4 * (end - start + 1)) as nat),
    decreases s.len(),
{
    if segment_value(s.last(), start, end) == x {
        let ds = nybble_seq(s.last()).subrange(start, end + 1);
        assert forall|i: int| 0 <= i < ds.len() implies #[trigger] ds[i] < 16 by {
            assert(ds[i] == nybble_seq(s.last())[start + i]);
        }
        lemma_digits_bound(ds);
    } else {
        lemma_counted_value_fits(s.drop_last(), start, end, x);
    }
}

impl TgaInfo for EntropyIpTga {
    const NAME: &'static str = "entropy_ip";
    const DESCRIPTION: &'static str = "Entropy/IP: segments addresses by nybble entropy and draws each segment from the values mined from the seeds";
}

impl TGA for EntropyIpTga {
    /// The address `a` can come from the model: for some choice of a mined
    /// value with a positive count in each segment (see
    /// `EntropyIpModel::generate`), its octets spell the address so
    /// assembled.
    open spec fn can_generate(&self, a: [u8; 16]) -> bool {
        exists|c: Seq<Option<int>>| #[trigger] choices_ok(self.spec_model().segments@, c) && be_value(a@)
            == digits_value(apply_choices(self.spec_model().segments@, c))
    }

    /// A new address from the model, as sixteen octets.
    fn generate(&self) -> (r: [u8; 16])
        ensures
            exists|c: Seq<Option<int>>| #[trigger] choices_ok(self.spec_model().segments@, c) && be_value(r@)
                == digits_value(apply_choices(self.spec_model().segments@, c)),
    {
        proof {
            use_type_invariant(self);
        }
        let x = self.model.generate();
        let r = octets_of(x);
        proof {
            let c = choose|c: Seq<Option<int>>| #[trigger] choices_ok(self.model.segments@, c) && x == digits_value(
                apply_choices(self.model.segments@, c),
            );
            assert(choices_ok(self.spec_model().segments@, c));
        }
        r
    }

    fn name(&self) -> (r: &'static str)
        ensures
            r@ == Self::NAME@,
    {
        Self::NAME
    }

    fn description(&self) -> (r: &'static str)
        ensures
            r@ == Self::DESCRIPTION@,
    {
        Self::DESCRIPTION
    }
}

} // verus!
