//! Counting how many addresses each named predicate holds of.

use vstd::prelude::*;
use crate::predicates::{
    PredicateKind, NUM_PREDICATES, get_all_predicates, predicate_at, spec_all_predicates,
    lemma_all_predicates_indexed, lemma_position_indexed,
};
use crate::analysis::ranking::{top_by_count, keys_distinct, is_top_by_count, has_key};

verus! {

/// How many of the addresses counted a predicate holds of.
#[derive(Clone, Copy, Debug)]
pub struct PredicateCount {
    pub predicate: PredicateKind,
    pub count: u64,
}

/// Counts, for each named predicate, the addresses it holds of.
pub struct CountAnalysis {
    predicate_name: Option<String>,
    predicate_counts: Vec<u64>,
    total_addresses: u64,
}

/// `r` lists the predicates with a non-zero count in `counts`, each once
/// with its count, largest count first.
pub open spec fn ranks_counts(counts: Seq<u64>, r: Seq<PredicateCount>) -> bool {
    &&& forall|i: int|
        0 <= i < r.len() ==> #[trigger] r[i].count == counts[r[i].predicate.spec_index()]
            && r[i].count > 0
    &&& forall|k: PredicateKind|
        counts[k.spec_index()] > 0 ==> exists|i: int| 0 <= i < r.len() && #[trigger] r[i].predicate
            == k
    &&& forall|i: int, j: int|
        0 <= i < r.len() && 0 <= j < r.len() && i != j ==> #[trigger] r[i].predicate
            != #[trigger] r[j].predicate
    &&& forall|i: int, j: int| 0 <= i < j < r.len() ==> #[trigger] r[i].count >= #[trigger] r[j].count
}

impl CountAnalysis {
    /// The counts, by position of the predicate in the list.
    pub closed spec fn spec_counts(self) -> Seq<u64> {
        self.predicate_counts@
    }

    /// How many addresses were absorbed.
    pub closed spec fn spec_total(self) -> u64 {
        self.total_addresses
    }

    /// The name of the one predicate to count, if only one is counted.
    pub closed spec fn spec_predicate_name(self) -> Option<Seq<char>> {
        match self.predicate_name {
            Some(n) => Some(n@),
            None => None,
        }
    }

    /// Whether the predicate `k` is counted.
    pub open spec fn selects(self, k: PredicateKind) -> bool {
        match self.spec_predicate_name() {
            None => true,
            Some(n) => k.spec_name() == n,
        }
    }

    /// One count per predicate, none above the number of addresses.
    pub closed spec fn wf(self) -> bool {
        &&& self.predicate_counts@.len() == NUM_PREDICATES
        &&& forall|i: int| 0 <= i < NUM_PREDICATES ==> #[trigger] self.predicate_counts@[i] <= self.total_addresses
    }

    /// A fresh analysis that counts every predicate, or only the one named
    /// `predicate_name`.
    pub fn new(predicate_name: Option<String>) -> (r: Self)
        ensures
            r.wf(),
            r.spec_total() == 0,
            r.spec_counts() == Seq::new(NUM_PREDICATES as nat, |i: int| 0u64),
            r.spec_predicate_name() == match predicate_name {
                Some(n) => Some(n@),
                None => None::<Seq<char>>,
            },
    {
        let mut predicate_counts: Vec<u64> = Vec::new();
        let mut i: usize = 0;
        while i < NUM_PREDICATES
            invariant
                0 <= i <= NUM_PREDICATES,
                predicate_counts@ == Seq::new(i as nat, |j: int| 0u64),
            decreases NUM_PREDICATES - i,
        {
            predicate_counts.push(0);
            i = i + 1;
        }
        CountAnalysis { predicate_name, predicate_counts, total_addresses: 0 }
    }

    /// The number of addresses absorbed.
    pub fn total_addresses(&self) -> (r: u64)
        ensures
            r == self.spec_total(),
    {
        self.total_addresses
    }

    /// Whether predicate `k` is counted.
    fn is_selected(&self, k: PredicateKind) -> (r: bool)
        ensures
            r == self.selects(k),
    {
        match &self.predicate_name {
            None => true,
            Some(n) => {
                let a = k.name().to_owned();
                a == *n
            },
        }
    }

    /// Counts one more address: every counted predicate that holds of it
    /// goes up by one.
    pub fn absorb(&mut self, addr: u128)
        requires
            old(self).wf(),
            old(self).spec_total() < u64::MAX,
        ensures
            final(self).wf(),
            final(self).spec_total() == old(self).spec_total() + 1,
            final(self).spec_predicate_name() == old(self).spec_predicate_name(),
            forall|k: PredicateKind| #[trigger] final(self).spec_counts()[k.spec_index()]
                == old(self).spec_counts()[k.spec_index()] + if old(self).selects(k) && k.spec_holds(addr) {
                    1int
                } else {
                    0int
                },
    {
        self.total_addresses = self.total_addresses + 1;
        let all = get_all_predicates();
        let mut i: usize = 0;
        while i < NUM_PREDICATES
            invariant
                all@ == spec_all_predicates(),
                0 <= i <= NUM_PREDICATES,
                self.predicate_counts@.len() == NUM_PREDICATES,
                self.total_addresses == old(self).total_addresses + 1,
                self.predicate_name == old(self).predicate_name,
                forall|j: int| 0 <= j < NUM_PREDICATES ==> #[trigger] old(self).predicate_counts@[j] <= old(self).total_addresses,
                forall|j: int|
                    0 <= j < NUM_PREDICATES ==> #[trigger] self.predicate_counts@[j] == old(self).predicate_counts@[j] + if j < i && old(self).selects(spec_all_predicates()[j]) && spec_all_predicates()[j].spec_holds(addr) {
                        1int
                    } else {
                        0int
                    },
            decreases NUM_PREDICATES - i,
        {
            let k = all[i];
            if self.is_selected(k) && k.holds(addr) {
                let c = self.predicate_counts[i];
                self.predicate_counts.set(i, c + 1);
            }
            i = i + 1;
        }
        proof {
            assert forall|k: PredicateKind| #[trigger] self.spec_counts()[k.spec_index()]
                == old(self).spec_counts()[k.spec_index()] + if old(self).selects(k) && k.spec_holds(addr) {
                    1int
                } else {
                    0int
                } by {
                lemma_all_predicates_indexed(k);
            }
        }
    }

    /// The predicates with a non-zero count, each with its count, largest
    /// count first.
    pub fn finalize(&self) -> (r: Vec<PredicateCount>)
        requires
            self.wf(),
        ensures
            ranks_counts(self.spec_counts(), r@),
    {
        rank_counts(&self.predicate_counts)
    }
}

/// The predicates with a non-zero count in `counts`, each with its count,
/// largest count first.
pub fn rank_counts(counts: &Vec<u64>) -> (r: Vec<PredicateCount>)
    requires
        counts@.len() == NUM_PREDICATES,
    ensures
        ranks_counts(counts@, r@),
{
    let mut entries: Vec<(u128, u64)> = Vec::new();
    let mut i: usize = 0;
    while i < NUM_PREDICATES
        invariant
            0 <= i <= NUM_PREDICATES,
            counts@.len() == NUM_PREDICATES,
            keys_distinct(entries@),
            forall|m: int| 0 <= m < entries@.len() ==> #[trigger] entries@[m].0 < i && entries@[m].1 == counts@[entries@[m].0 as int] && entries@[m].1 > 0,
            forall|j: int| 0 <= j < i && counts@[j] > 0 ==> #[trigger] has_key(entries@, j as u128),
        decreases NUM_PREDICATES - i,
    {
        if counts[i] > 0 {
            let ghost before = entries@;
            entries.push((i as u128, counts[i]));
            proof {
                assert(entries@[entries@.len() - 1].0 == i as u128);
                assert forall|j: int| 0 <= j < i + 1 && counts@[j] > 0 implies #[trigger] has_key(entries@, j as u128) by {
                    if j < i {
                        assert(has_key(before, j as u128));
                        let m = choose|m: int| 0 <= m < before.len() && #[trigger] before[m].0 == j as u128;
                        assert(entries@[m].0 == j as u128);
                    } else {
                        assert(entries@[entries@.len() - 1].0 == j as u128);
                    }
                }
            }
        }
        i = i + 1;
    }
    let ranked = top_by_count(&entries, entries.len());
    let mut r: Vec<PredicateCount> = Vec::new();
    let mut m: usize = 0;
    while m < ranked.len()
        invariant
            0 <= m <= ranked.len(),
            counts@.len() == NUM_PREDICATES,
            is_top_by_count(entries@, entries@.len(), ranked@),
            forall|q: int| 0 <= q < entries@.len() ==> #[trigger] entries@[q].0 < NUM_PREDICATES && entries@[q].1 == counts@[entries@[q].0 as int] && entries@[q].1 > 0,
            r@.len() == m,
            forall|q: int| 0 <= q < m ==> (#[trigger] r@[q]).predicate.spec_index() == ranked@[q].0 && r@[q].count == ranked@[q].1,
        decreases ranked.len() - m,
    {
        let (key, c) = ranked[m];
        proof {
            let q = choose|q: int| 0 <= q < entries@.len() && entries@[q] == ranked@[m as int];
            assert(entries@[q].0 < NUM_PREDICATES);
        }
        let k = predicate_at(key as usize);
        r.push(PredicateCount { predicate: k, count: c });
        m = m + 1;
    }
    proof {
        assert forall|q: int| 0 <= q < r@.len() implies #[trigger] r@[q].count == counts@[r@[q].predicate.spec_index()] && r@[q].count > 0 by {
            let e = choose|e: int| 0 <= e < entries@.len() && entries@[e] == ranked@[q];
            assert(entries@[e].0 < NUM_PREDICATES);
        }
        assert forall|k: PredicateKind| counts@[k.spec_index()] > 0 implies exists|q: int| 0 <= q < r@.len() && #[trigger] r@[q].predicate == k by {
            lemma_all_predicates_indexed(k);
            let j = k.spec_index();
            assert(has_key(entries@, j as u128));
            let e = choose|e: int| 0 <= e < entries@.len() && #[trigger] entries@[e].0 == j as u128;
            if !has_key(ranked@, j as u128) {
                // then ranked would be shorter than entries
                lemma_top_full(entries@, ranked@, e);
            }
            let q = choose|q: int| 0 <= q < ranked@.len() && #[trigger] ranked@[q].0 == j as u128;
            lemma_index_unique(r@[q].predicate, k);
        }
        assert forall|a: int, b: int| 0 <= a < r@.len() && 0 <= b < r@.len() && a != b implies #[trigger] r@[a].predicate != #[trigger] r@[b].predicate by {
            assert(ranked@[a].0 != ranked@[b].0);
        }
        assert forall|a: int, b: int| 0 <= a < b < r@.len() implies #[trigger] r@[a].count >= #[trigger] r@[b].count by {
            assert(ranked@[a].1 >= ranked@[b].1);
        }
    }
    r
}

/// Two predicates at the same position are the same.
proof fn lemma_index_unique(a: PredicateKind, b: PredicateKind)
    requires
        a.spec_index() == b.spec_index(),
    ensures
        a == b,
{
    lemma_all_predicates_indexed(a);
    lemma_all_predicates_indexed(b);
}

/// A ranking of all entries leaves none out.
pub proof fn lemma_top_full(entries: Seq<(u128, u64)>, ranked: Seq<(u128, u64)>, e: int)
    requires
        is_top_by_count(entries, entries.len(), ranked),
        keys_distinct(entries),
        0 <= e < entries.len(),
    ensures
        has_key(ranked, entries[e].0),
{
    // every entry of ranked is an entry of entries, no key twice, and there are as many
    if !has_key(ranked, entries[e].0) {
        let f = |x: (u128, u64)| x.0;
        let rk = ranked.map_values(f).to_set();
        let ek = entries.map_values(f).to_set();
        assert forall|x: u128| rk.contains(x) implies ek.contains(x) by {
            let i = choose|i: int| 0 <= i < ranked.map_values(f).len() && ranked.map_values(f)[i] == x;
            assert(entries.contains(ranked[i]));
            let j = choose|j: int| 0 <= j < entries.len() && entries[j] == ranked[i];
            assert(entries.map_values(f)[j] == x);
        }
        assert(ek.contains(entries[e].0)) by {
            assert(entries.map_values(f)[e] == entries[e].0);
        }
        assert(!rk.contains(entries[e].0)) by {
            if rk.contains(entries[e].0) {
                let i = choose|i: int| 0 <= i < ranked.map_values(f).len() && ranked.map_values(f)[i] == entries[e].0;
                assert(ranked[i].0 == entries[e].0);
            }
        }
        assert(ranked.map_values(f).no_duplicates()) by {
            assert forall|a: int, b: int| 0 <= a < ranked.len() && 0 <= b < ranked.len() && a != b implies ranked.map_values(f)[a] != ranked.map_values(f)[b] by {
                assert(ranked[a].0 != ranked[b].0);
            }
        }
        assert(entries.map_values(f).no_duplicates()) by {
            assert forall|a: int, b: int| 0 <= a < entries.len() && 0 <= b < entries.len() && a != b implies entries.map_values(f)[a] != entries.map_values(f)[b] by {
                assert(entries[a].0 != entries[b].0);
            }
        }
        ranked.map_values(f).unique_seq_to_set();
        entries.map_values(f).unique_seq_to_set();
        assert(rk.subset_of(ek.remove(entries[e].0)));
        vstd::set_lib::lemma_len_subset(rk, ek.remove(entries[e].0));
    }
}

/// How many of the addresses of `col` the predicate `k` holds of.
pub open spec fn spec_count_matching(col: Seq<Option<u128>>, k: PredicateKind) -> nat
    decreases col.len(),
{
    if col.len() == 0 {
        0
    } else {
        spec_count_matching(col.drop_last(), k) + match col.last() {
            Some(a) => if k.spec_holds(a) { 1nat } else { 0nat },
            None => 0nat,
        }
    }
}

/// For each predicate, how many of the addresses of the column it holds of;
/// the predicates that hold of none are left out, the others come largest
/// count first. `None` stands for a cell that is not an address.
pub fn count_predicates(column: &Vec<Option<u128>>) -> (r: Vec<PredicateCount>)
    ensures
        ranks_counts(Seq::new(NUM_PREDICATES as nat, |i: int| spec_count_matching(column@, spec_all_predicates()[i]) as u64), r@),
{
    let mut analysis = CountAnalysis::new(None);
    let mut i: usize = 0;
    while i < column.len()
        invariant
            0 <= i <= column.len(),
            analysis.wf(),
            analysis.spec_predicate_name() is None,
            analysis.spec_total() <= i,
            forall|k: PredicateKind| #[trigger] analysis.spec_counts()[k.spec_index()] == spec_count_matching(column@.take(i as int), k),
        decreases column.len() - i,
    {
        assert(column@.take(i + 1).drop_last() =~= column@.take(i as int));
        match column[i] {
            Some(a) => analysis.absorb(a),
            None => {},
        }
        i = i + 1;
    }
    assert(column@.take(column.len() as int) =~= column@);
    let r = analysis.finalize();
    proof {
        let want = Seq::new(NUM_PREDICATES as nat, |i: int| spec_count_matching(column@, spec_all_predicates()[i]) as u64);
        assert forall|j: int| 0 <= j < NUM_PREDICATES implies want[j] == analysis.spec_counts()[j] by {
            let k = spec_all_predicates()[j];
            lemma_position_indexed(j);
        }
        assert(want =~= analysis.spec_counts());
    }
    r
}

} // verus!
