//! Selecting the addresses of a column on which a named predicate holds.

use vstd::prelude::*;
use crate::predicates::{PredicateKind, lookup_predicate, spec_lookup_predicate};
use crate::analysis::count::spec_count_matching;

verus! {

/// Why an analysis refused to run.
#[derive(Debug)]
pub enum AnalysisError {
    /// No predicate of the list has this name.
    NoSuchPredicate(String),
}

/// The addresses of `col` on which `k` holds, in order.
pub open spec fn spec_matching(col: Seq<Option<u128>>, k: PredicateKind) -> Seq<u128>
    decreases col.len(),
{
    if col.len() == 0 {
        Seq::empty()
    } else {
        let prev = spec_matching(col.drop_last(), k);
        match col.last() {
            Some(a) => if k.spec_holds(a) { prev.push(a) } else { prev },
            None => prev,
        }
    }
}

/// Keeps the addresses on which the predicate of a given name holds.
pub struct FilterAnalysis {
    predicate_name: String,
}

impl FilterAnalysis {
    /// The name of the predicate.
    pub closed spec fn spec_predicate_name(self) -> Seq<char> {
        self.predicate_name@
    }

    /// A filter on the predicate named `predicate_name`.
    pub fn new(predicate_name: String) -> (r: Self)
        ensures
            r.spec_predicate_name() == predicate_name@,
    {
        FilterAnalysis { predicate_name }
    }

    /// The addresses of the column, in order, on which the predicate holds;
    /// fails when no predicate has the name. `None` stands for a cell that
    /// is not an address.
    pub fn analyze(&self, column: &Vec<Option<u128>>) -> (r: Result<Vec<u128>, AnalysisError>)
        ensures
            match spec_lookup_predicate(self.spec_predicate_name()) {
                None => r matches Err(AnalysisError::NoSuchPredicate(n)) && n@ == self.spec_predicate_name(),
                Some(k) => r matches Ok(v) && v@ == spec_matching(column@, k),
            },
    {
        let k = match lookup_predicate(self.predicate_name.as_str()) {
            Some(k) => k,
            None => {
                return Err(AnalysisError::NoSuchPredicate(self.predicate_name.clone()));
            },
        };
        let mut out: Vec<u128> = Vec::new();
        let mut i: usize = 0;
        while i < column.len()
            invariant
                0 <= i <= column.len(),
                out@ == spec_matching(column@.take(i as int), k),
            decreases column.len() - i,
        {
            assert(column@.take(i + 1).drop_last() =~= column@.take(i as int));
            match column[i] {
                Some(a) => {
                    if k.holds(a) {
                        out.push(a);
                    }
                },
                None => {},
            }
            i = i + 1;
        }
        assert(column@.take(column.len() as int) =~= column@);
        Ok(out)
    }
}

/// The filter keeps as many addresses as the column has addresses on which
/// the predicate holds, repeats included.
pub proof fn lemma_matching_count(col: Seq<Option<u128>>, k: PredicateKind)
    ensures
        spec_matching(col, k).len() == spec_count_matching(col, k),
    decreases col.len(),
{
    if col.len() > 0 {
        lemma_matching_count(col.drop_last(), k);
    }
}

/// Filtering works cell by cell: filtering two columns one after the other
/// gives the two filtered columns one after the other.
pub proof fn lemma_matching_concat(c1: Seq<Option<u128>>, c2: Seq<Option<u128>>, k: PredicateKind)
    ensures
        spec_matching(c1 + c2, k) == spec_matching(c1, k) + spec_matching(c2, k),
    decreases c2.len(),
{
    if c2.len() == 0 {
        assert(c1 + c2 =~= c1);
        assert(spec_matching(c1, k) + spec_matching(c2, k) =~= spec_matching(c1, k));
    } else {
        lemma_matching_concat(c1, c2.drop_last(), k);
        assert((c1 + c2).drop_last() =~= c1 + c2.drop_last());
        assert((c1 + c2).last() == c2.last());
        let p1 = spec_matching(c1, k);
        let p2 = spec_matching(c2.drop_last(), k);
        match c2.last() {
            Some(a) => if k.spec_holds(a) {
                assert(p1 + p2.push(a) =~= (p1 + p2).push(a));
            },
            None => {},
        }
    }
}

/// Each address the filter keeps satisfies the predicate and is an
/// address of the column.
pub proof fn lemma_matching_holds(col: Seq<Option<u128>>, k: PredicateKind)
    ensures
        forall|i: int| 0 <= i < spec_matching(col, k).len() ==> k.spec_holds(#[trigger] spec_matching(col, k)[i])
            && col.contains(Some(spec_matching(col, k)[i])),
    decreases col.len(),
{
    if col.len() > 0 {
        let p = col.drop_last();
        lemma_matching_holds(p, k);
        assert forall|i: int| 0 <= i < spec_matching(col, k).len() implies k.spec_holds(
            #[trigger] spec_matching(col, k)[i],
        ) && col.contains(Some(spec_matching(col, k)[i])) by {
            if i < spec_matching(p, k).len() {
                assert(spec_matching(col, k)[i] == spec_matching(p, k)[i]);
                let j = choose|j: int| 0 <= j < p.len() && p[j] == Some(spec_matching(p, k)[i]);
                assert(col[j] == p[j]);
            } else {
                assert(col[col.len() - 1] == col.last());
            }
        }
    }
}

} // verus!
