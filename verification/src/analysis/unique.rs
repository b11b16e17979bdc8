//! The distinct addresses of a column.

use vstd::prelude::*;
use std::collections::HashSet;
use crate::predicates::{lookup_predicate, spec_lookup_predicate};
use crate::analysis::filter::AnalysisError;
use crate::analysis::column::{present, lemma_present_contains};

verus! {

broadcast use vstd::std_specs::hash::group_hash_axioms;

/// Lists the distinct addresses of a column, after checking that the
/// predicate it is given, if any, exists.
pub struct UniqueAnalysis {
    predicate_name: Option<String>,
}

impl UniqueAnalysis {
    /// The name of the predicate, if one was given.
    pub closed spec fn spec_predicate_name(self) -> Option<Seq<char>> {
        match self.predicate_name {
            Some(n) => Some(n@),
            None => None,
        }
    }

    /// A unique analysis checking the predicate named `predicate_name`.
    pub fn new(predicate_name: Option<String>) -> (r: Self)
        ensures
            r.spec_predicate_name() == match predicate_name {
                Some(n) => Some(n@),
                None => None::<Seq<char>>,
            },
    {
        UniqueAnalysis { predicate_name }
    }

    /// Each distinct address of the column once. Fails when a predicate
    /// name was given and no predicate has it. `None` stands for a cell
    /// that is not an address.
    pub fn analyze(&self, column: &Vec<Option<u128>>) -> (r: Result<Vec<u128>, AnalysisError>)
        ensures
            match self.spec_predicate_name() {
                Some(n) => spec_lookup_predicate(n) is None ==> (r matches Err(AnalysisError::NoSuchPredicate(m)) && m@ == n),
                None => true,
            },
            (match self.spec_predicate_name() {
                Some(n) => spec_lookup_predicate(n) is Some,
                None => true,
            }) ==> (r matches Ok(v) && v@.no_duplicates() && v@.to_set() == present(column@).to_set()),
    {
        match &self.predicate_name {
            Some(n) => {
                if lookup_predicate(n.as_str()).is_none() {
                    return Err(AnalysisError::NoSuchPredicate(n.clone()));
                }
            },
            None => {},
        }
        let mut seen: HashSet<u128> = HashSet::new();
        let mut out: Vec<u128> = Vec::new();
        let mut i: usize = 0;
        while i < column.len()
            invariant
                0 <= i <= column.len(),
                out@.no_duplicates(),
                out@.to_set() == seen@,
                out@.to_set() == present(column@.take(i as int)).to_set(),
            decreases column.len() - i,
        {
            let ghost pre = column@.take(i as int);
            let ghost cur = column@.take(i + 1);
            assert(cur.drop_last() =~= pre);
            match column[i] {
                Some(a) => {
                    if !seen.contains(&a) {
                        proof {
                            out@.lemma_push_to_set_commute(a);
                        }
                        seen.insert(a);
                        out.push(a);
                    }
                    proof {
                        present(pre).lemma_push_to_set_commute(a);
                        assert(present(cur) == present(pre).push(a));
                    }
                },
                None => {
                    assert(present(cur) == present(pre));
                },
            }
            i = i + 1;
        }
        assert(column@.take(column.len() as int) =~= column@);
        Ok(out)
    }
}

} // verus!
