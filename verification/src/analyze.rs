//! Running one analysis on the first column of a table of addresses.

use vstd::prelude::*;
use crate::analysis::column::present;
use crate::analysis::count::{PredicateCount, ranks_counts, spec_count_matching, count_predicates};
use crate::analysis::dispersion::{DispersionSummary, DispersionAnalysis, summarizes};
use crate::analysis::entropy::{
    EntropySummary, ShannonEntropyAnalysis, positions_in_address, ones_in,
};
use crate::analysis::subnets::{SubnetAnalysis, is_top_of_map, subnet_map};
use crate::analysis::unique::UniqueAnalysis;
use crate::predicates::{NUM_PREDICATES, spec_all_predicates};

verus! {

/// The analyses that can be run on a column.
#[derive(Debug, Clone, Copy, PartialEq, Eq, Structural)]
pub enum AnalysisType {
    /// The distinct addresses.
    Unique,
    /// Hamming distances between the addresses.
    Dispersion,
    /// Bit statistics of the positions `start_bit..end_bit`.
    Entropy { start_bit: u8, end_bit: u8 },
    /// The subnets of a prefix length holding the most addresses.
    Subnets { max_subnets: usize, prefix_length: u8 },
    /// How many addresses each predicate holds of.
    Counts,
    /// Special-purpose address blocks (not offered here).
    Special,
    /// EUI-64 interface identifiers (not offered here).
    Eui64,
}

/// What an analysis reports.
#[derive(Debug)]
pub enum AnalysisOutput {
    Unique(Vec<u128>),
    Dispersion(DispersionSummary),
    Entropy(EntropySummary),
    Subnets(Vec<(u128, u64)>),
    Counts(Vec<PredicateCount>),
}

/// Why an analysis was not run.
#[derive(Debug, Clone, Copy, PartialEq, Eq, Structural)]
pub enum AnalyzeError {
    /// The table has no column.
    NoData,
    /// The special-block analysis is not offered.
    SpecialNotImplemented,
    /// The EUI-64 analysis is not offered.
    Eui64NotImplemented,
}

/// The set bits at the positions `lo..hi` of all the addresses of `s`.
pub open spec fn ones_total(s: Seq<u128>, lo: int, hi: int) -> nat
    decreases s.len(),
{
    if s.len() == 0 {
        0
    } else {
        ones_total(s.drop_last(), lo, hi) + ones_in(s.last(), lo, hi)
    }
}

/// The number of pairs of the addresses of `col` fits the `u64` pair
/// counter of the dispersion analysis.
pub open spec fn pairs_fit(col: Seq<Option<u128>>) -> bool {
    present(col).len() * (present(col).len() - 1) / 2 <= u64::MAX
}

/// A column small enough for the counters of the analysis `t`: the pair
/// count for dispersion, the bit count (a `usize`) for entropy; the other
/// analyses count no further than the column's length.
pub open spec fn column_fits(col: Seq<Option<u128>>, t: AnalysisType) -> bool {
    match t {
        AnalysisType::Dispersion => pairs_fit(col),
        AnalysisType::Entropy { .. } => col.len() * 128 + 128 <= usize::MAX,
        _ => true,
    }
}

/// A subnet analysis of `col` has a prefix length it can work with: one
/// from 1 to 128, whenever the column holds an address.
pub open spec fn subnet_prefix_ok(col: Seq<Option<u128>>, t: AnalysisType) -> bool {
    match t {
        AnalysisType::Subnets { prefix_length, .. } => present(col).len() > 0 ==> 1 <= prefix_length <= 128,
        _ => true,
    }
}

/// What `analyze` owes for the column `col` and the analysis `t`, once the
/// table has a first column and the analysis is offered.
pub open spec fn analysis_result(col: Seq<Option<u128>>, t: AnalysisType, out: AnalysisOutput) -> bool {
    let s = present(col);
    match t {
        AnalysisType::Unique => out matches AnalysisOutput::Unique(v) && v@.no_duplicates()
            && v@.to_set() == s.to_set(),
        AnalysisType::Dispersion => out matches AnalysisOutput::Dispersion(d) && summarizes(s, d),
        AnalysisType::Entropy { start_bit, end_bit } => out matches AnalysisOutput::Entropy(e) && {
            &&& e.total_bits == s.len() * positions_in_address(start_bit as int, end_bit as int)
            &&& e.one_bits == ones_total(s, start_bit as int, end_bit as int)
            &&& e.zero_bits + e.one_bits == e.total_bits
        },
        AnalysisType::Subnets { max_subnets, prefix_length } => out matches AnalysisOutput::Subnets(
            v,
        ) && is_top_of_map(subnet_map(s, prefix_length), max_subnets as nat, v@),
        AnalysisType::Counts => out matches AnalysisOutput::Counts(v) && ranks_counts(
            Seq::new(
                NUM_PREDICATES as nat,
                |i: int| spec_count_matching(col, spec_all_predicates()[i]) as u64,
            ),
            v@,
        ),
        _ => false,
    }
}

/// Runs the analysis `analysis_type` on `column`, the first column of the
/// table (`None` when the table has none). A cell is `None` when it is not
/// an address; such cells are passed over. The special-block and EUI-64
/// analyses are refused whatever the table holds.
pub fn analyze(column: Option<&Vec<Option<u128>>>, analysis_type: AnalysisType) -> (r: Result<
    AnalysisOutput,
    AnalyzeError,
>)
    requires
        match column {
            Some(c) => column_fits(c@, analysis_type) && subnet_prefix_ok(c@, analysis_type),
            None => true,
        },
    ensures
        analysis_type == AnalysisType::Special ==> r == Err::<AnalysisOutput, AnalyzeError>(
            AnalyzeError::SpecialNotImplemented,
        ),
        analysis_type == AnalysisType::Eui64 ==> r == Err::<AnalysisOutput, AnalyzeError>(
            AnalyzeError::Eui64NotImplemented,
        ),
        analysis_type != AnalysisType::Special && analysis_type != AnalysisType::Eui64 ==> match column {
            None => r == Err::<AnalysisOutput, AnalyzeError>(AnalyzeError::NoData),
            Some(c) => r matches Ok(out) && analysis_result(c@, analysis_type, out),
        },
{
    match analysis_type {
        AnalysisType::Special => {
            return Err(AnalyzeError::SpecialNotImplemented);
        },
        AnalysisType::Eui64 => {
            return Err(AnalyzeError::Eui64NotImplemented);
        },
        _ => {},
    }
    let col = match column {
        None => {
            return Err(AnalyzeError::NoData);
        },
        Some(c) => c,
    };
    match analysis_type {
        AnalysisType::Unique => {
            let analyzer = UniqueAnalysis::new(None);
            match analyzer.analyze(col) {
                Ok(v) => Ok(AnalysisOutput::Unique(v)),
                Err(_) => Err(AnalyzeError::NoData),
            }
        },
        AnalysisType::Dispersion => Ok(AnalysisOutput::Dispersion(run_dispersion(col))),
        AnalysisType::Entropy { start_bit, end_bit } => Ok(
            AnalysisOutput::Entropy(run_entropy(col, start_bit, end_bit)),
        ),
        AnalysisType::Subnets { max_subnets, prefix_length } => {
            if prefix_length < 1 || prefix_length > 128 {
                proof {
                    assert(subnet_map(present(col@), prefix_length).dom() =~= Set::<u128>::empty());
                }
                return Ok(AnalysisOutput::Subnets(Vec::new()));
            }
            Ok(AnalysisOutput::Subnets(run_subnets(col, max_subnets, prefix_length)))
        },
        AnalysisType::Counts => Ok(AnalysisOutput::Counts(count_predicates(col))),
        _ => Err(AnalyzeError::NoData),
    }
}

/// The addresses of a prefix of a column, one cell further on.
proof fn lemma_present_step(col: Seq<Option<u128>>, i: int)
    requires
        0 <= i < col.len(),
    ensures
        present(col.take(i + 1)) == match col[i] {
            Some(a) => present(col.take(i)).push(a),
            None => present(col.take(i)),
        },
        present(col.take(i)).len() <= i,
{
    assert(col.take(i + 1).drop_last() =~= col.take(i));
    crate::analysis::column::lemma_present_len(col.take(i));
}

fn run_dispersion(col: &Vec<Option<u128>>) -> (d: DispersionSummary)
    requires
        pairs_fit(col@),
    ensures
        summarizes(present(col@), d),
{
    let mut analyzer = DispersionAnalysis::new();
    let mut i: usize = 0;
    while i < col.len()
        invariant
            0 <= i <= col.len(),
            analyzer.spec_addresses() == present(col@.take(i as int)),
        decreases col.len() - i,
    {
        proof {
            lemma_present_step(col@, i as int);
        }
        match col[i] {
            Some(a) => analyzer.absorb(a),
            None => {},
        }
        i = i + 1;
    }
    assert(col@.take(col.len() as int) =~= col@);
    analyzer.finalize()
}

fn run_entropy(col: &Vec<Option<u128>>, start_bit: u8, end_bit: u8) -> (e: EntropySummary)
    requires
        col@.len() * 128 + 128 <= usize::MAX,
    ensures
        e.total_bits == present(col@).len() * positions_in_address(start_bit as int, end_bit as int),
        e.one_bits == ones_total(present(col@), start_bit as int, end_bit as int),
        e.zero_bits + e.one_bits == e.total_bits,
{
    let mut analyzer = ShannonEntropyAnalysis::new_with_options(start_bit, end_bit);
    let ghost w = positions_in_address(start_bit as int, end_bit as int);
    let mut i: usize = 0;
    while i < col.len()
        invariant
            0 <= i <= col.len(),
            col@.len() * 128 + 128 <= usize::MAX,
            w == positions_in_address(start_bit as int, end_bit as int),
            w <= 128,
            analyzer.wf(),
            analyzer.spec_start() == start_bit,
            analyzer.spec_end() == end_bit,
            analyzer.spec_summary().total_bits == present(col@.take(i as int)).len() * w,
            analyzer.spec_summary().one_bits == ones_total(
                present(col@.take(i as int)),
                start_bit as int,
                end_bit as int,
            ),
        decreases col.len() - i,
    {
        proof {
            lemma_present_step(col@, i as int);
            let p = present(col@.take(i as int)).len();
            assert(p * w + 128 <= usize::MAX) by (nonlinear_arith)
                requires
                    p <= i,
                    i < col@.len(),
                    w <= 128,
                    col@.len() * 128 + 128 <= usize::MAX,
            ;
        }
        match col[i] {
            Some(a) => {
                analyzer.absorb(a);
                proof {
                    let s = present(col@.take(i as int));
                    assert(s.push(a).drop_last() =~= s);
                    assert((s.len() + 1) * w == s.len() * w + w) by (nonlinear_arith);
                }
            },
            None => {},
        }
        i = i + 1;
    }
    assert(col@.take(col.len() as int) =~= col@);
    analyzer.finalize()
}

fn run_subnets(col: &Vec<Option<u128>>, max_subnets: usize, prefix_length: u8) -> (v: Vec<(u128, u64)>)
    requires
        1 <= prefix_length <= 128,
    ensures
        is_top_of_map(subnet_map(present(col@), prefix_length), max_subnets as nat, v@),
{
    let mut analyzer = SubnetAnalysis::new_with_options(max_subnets, prefix_length);
    let mut i: usize = 0;
    while i < col.len()
        invariant
            0 <= i <= col.len(),
            analyzer.wf(),
            analyzer.spec_prefix_length() == prefix_length,
            analyzer.spec_max_subnets() == max_subnets,
            analyzer.spec_absorbed() == present(col@.take(i as int)),
        decreases col.len() - i,
    {
        proof {
            lemma_present_step(col@, i as int);
        }
        match col[i] {
            Some(a) => analyzer.absorb(a),
            None => {},
        }
        i = i + 1;
    }
    assert(col@.take(col.len() as int) =~= col@);
    analyzer.finalize()
}

} // verus!
