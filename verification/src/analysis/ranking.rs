//! Ordering counted entries, largest count first.

use vstd::prelude::*;

verus! {

/// No two entries share a key.
pub open spec fn keys_distinct(s: Seq<(u128, u64)>) -> bool {
    forall|i: int, j: int| 0 <= i < s.len() && 0 <= j < s.len() && i != j ==> #[trigger] s[i].0
        != #[trigger] s[j].0
}

/// Counts never increase along the sequence.
pub open spec fn sorted_by_count_desc(s: Seq<(u128, u64)>) -> bool {
    forall|i: int, j: int| 0 <= i < j < s.len() ==> #[trigger] s[i].1 >= #[trigger] s[j].1
}

/// `key` is the key of some entry of `s`.
pub open spec fn has_key(s: Seq<(u128, u64)>, key: u128) -> bool {
    exists|i: int| 0 <= i < s.len() && #[trigger] s[i].0 == key
}

/// `r` is the `limit` entries of `entries` with the largest counts, largest
/// first: as many entries as `limit` allows, each one of `entries`, no key
/// twice, counts not increasing, and no entry left out with a larger count
/// than one taken.
pub open spec fn is_top_by_count(entries: Seq<(u128, u64)>, limit: nat, r: Seq<(u128, u64)>) -> bool {
    &&& r.len() == (if limit < entries.len() { limit } else { entries.len() })
    &&& forall|i: int| 0 <= i < r.len() ==> entries.contains(#[trigger] r[i])
    &&& keys_distinct(r)
    &&& sorted_by_count_desc(r)
    &&& forall|j: int, i: int|
        0 <= j < entries.len() && 0 <= i < r.len() && !has_key(r, #[trigger] entries[j].0)
            ==> entries[j].1 <= #[trigger] r[i].1
}

/// The `limit` entries with the largest counts, largest first.
pub fn top_by_count(entries: &Vec<(u128, u64)>, limit: usize) -> (r: Vec<(u128, u64)>)
    requires
        keys_distinct(entries@),
    ensures
        is_top_by_count(entries@, limit as nat, r@),
{
    let n = entries.len();
    let rounds = if limit < n {
        limit
    } else {
        n
    };
    let mut taken: Vec<bool> = Vec::new();
    let mut t: usize = 0;
    while t < n
        invariant
            0 <= t <= n,
            taken@.len() == t,
            forall|j: int| 0 <= j < t ==> !#[trigger] taken@[j],
        decreases n - t,
    {
        taken.push(false);
        t = t + 1;
    }
    let mut r: Vec<(u128, u64)> = Vec::new();
    let ghost mut idx: Seq<int> = Seq::empty();
    let mut round: usize = 0;
    while round < rounds
        invariant
            n == entries@.len(),
            rounds <= n,
            rounds == (if limit < n { limit } else { n }),
            keys_distinct(entries@),
            0 <= round <= rounds,
            taken@.len() == n,
            r@.len() == round,
            idx.len() == round,
            forall|i: int| 0 <= i < round ==> 0 <= #[trigger] idx[i] < n,
            forall|i: int| 0 <= i < round ==> r@[i] == entries@[#[trigger] idx[i]],
            forall|i: int, k: int| 0 <= i < k < round ==> #[trigger] idx[i] != #[trigger] idx[k],
            forall|j: int| 0 <= j < n ==> (#[trigger] taken@[j] <==> idx.contains(j)),
            sorted_by_count_desc(r@),
            forall|j: int, i: int|
                0 <= j < n && 0 <= i < round && !#[trigger] taken@[j] ==> entries@[j].1
                    <= #[trigger] r@[i].1,
        decreases rounds - round,
    {
        // some entry is still free
        proof {
            lemma_free_index(taken@, idx, n as int);
        }
        let mut best: usize = n;
        let mut j: usize = 0;
        while j < n
            invariant
                n == entries@.len(),
                taken@.len() == n,
                0 <= j <= n,
                best == n || (best < j && !taken@[best as int]),
                best == n ==> forall|m: int| 0 <= m < j ==> #[trigger] taken@[m],
                best < n ==> forall|m: int|
                    0 <= m < j && !#[trigger] taken@[m] ==> entries@[m].1 <= entries@[best as int].1,
            decreases n - j,
        {
            if !taken[j] {
                if best == n || entries[j].1 > entries[best].1 {
                    best = j;
                }
            }
            j = j + 1;
        }
        proof {
            if best == n {
                let m = choose|m: int| 0 <= m < n && !taken@[m];
                assert(taken@[m]);
            }
        }
        let ghost old_taken = taken@;
        let ghost old_r = r@;
        taken.set(best, true);
        r.push(entries[best]);
        proof {
            let old_idx = idx;
            idx = idx.push(best as int);
            assert(!old_taken[best as int]);
            assert(!old_idx.contains(best as int));
            assert forall|j: int| 0 <= j < n implies (#[trigger] taken@[j] <==> idx.contains(j)) by {
                if j == best as int {
                    assert(idx[idx.len() - 1] == j);
                    assert(idx.contains(j));
                } else {
                    assert(taken@[j] == old_taken[j]);
                    assert(old_taken[j] <==> old_idx.contains(j));
                    if idx.contains(j) {
                        let q = choose|q: int| 0 <= q < idx.len() && idx[q] == j;
                        assert(q < idx.len() - 1);
                        assert(old_idx[q] == j);
                        assert(old_idx.contains(j));
                    }
                    if old_idx.contains(j) {
                        let q = choose|q: int| 0 <= q < old_idx.len() && old_idx[q] == j;
                        assert(idx[q] == j);
                        assert(idx.contains(j));
                    }
                }
            }
            assert forall|i: int, k: int| 0 <= i < k < round + 1 implies #[trigger] idx[i]
                != #[trigger] idx[k] by {
                if k == round as int {
                    assert(old_taken[idx[i]]);
                }
            }
            assert forall|a: int, b: int| 0 <= a < b < r@.len() implies #[trigger] r@[a].1
                >= #[trigger] r@[b].1 by {
                if b == round as int {
                    assert(!old_taken[best as int]);
                    assert(entries@[best as int].1 <= old_r[a].1);
                }
            }
        }
        round = round + 1;
    }
    proof {
        assert forall|i: int| 0 <= i < r@.len() implies entries@.contains(#[trigger] r@[i]) by {
            assert(entries@[idx[i]] == r@[i]);
        }
        assert forall|a: int, b: int|
            0 <= a < r@.len() && 0 <= b < r@.len() && a != b implies #[trigger] r@[a].0
            != #[trigger] r@[b].0 by {
            if a < b {
                assert(idx[a] != idx[b]);
            } else {
                assert(idx[b] != idx[a]);
            }
        }
        assert forall|j: int, i: int|
            0 <= j < entries@.len() && 0 <= i < r@.len() && !has_key(
                r@,
                #[trigger] entries@[j].0,
            ) implies entries@[j].1 <= #[trigger] r@[i].1 by {
            if taken@[j] {
                let q = choose|q: int| 0 <= q < idx.len() && idx[q] == j;
                assert(r@[q].0 == entries@[j].0);
            }
        }
    }
    r
}

/// While fewer entries are taken than there are, one is still free.
proof fn lemma_free_index(taken: Seq<bool>, idx: Seq<int>, n: int)
    requires
        taken.len() == n,
        idx.len() < n,
        forall|i: int| 0 <= i < idx.len() ==> 0 <= #[trigger] idx[i] < n,
        forall|i: int, k: int| 0 <= i < k < idx.len() ==> #[trigger] idx[i] != #[trigger] idx[k],
        forall|j: int| 0 <= j < n ==> (#[trigger] taken[j] <==> idx.contains(j)),
    ensures
        exists|m: int| 0 <= m < n && !taken[m],
{
    if forall|m: int| 0 <= m < n ==> taken[m] {
        // every index below n occurs in idx: an injection from n into fewer places
        let s = Set::new(|m: int| 0 <= m < n);
        let t = idx.to_set();
        assert forall|m: int| s.contains(m) implies t.contains(m) by {
            assert(taken[m]);
        }
        vstd::set_lib::lemma_int_range(0, n);
        assert(s =~= vstd::set_lib::set_int_range(0, n));
        idx.unique_seq_to_set();
        vstd::set_lib::lemma_len_subset(s, t);
    }
}

} // verus!
