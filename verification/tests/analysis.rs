use rmap::analysis::count::{count_predicates, rank_counts, CountAnalysis};
use rmap::analysis::dispersion::{summarize_distances, DispersionAnalysis};
use rmap::analysis::entropy::ShannonEntropyAnalysis;
use rmap::analysis::filter::{AnalysisError, FilterAnalysis};
use rmap::analysis::ranking::top_by_count;
use rmap::analysis::special::{SpecialAnalysis, NUM_BLOCK_NAMES};
use rmap::analysis::statistics::StatisticsAnalysis;
use rmap::analysis::subnets::SubnetAnalysis;
use rmap::analysis::unique::UniqueAnalysis;
use rmap::analyze::{analyze, AnalysisOutput, AnalysisType, AnalyzeError};
use rmap::predicates::PredicateKind;

const LL1: u128 = 0xfe80_0000_0000_0000_0000_0000_0000_0001;
const LL2: u128 = 0xfe80_0000_0000_0000_0000_0000_0000_0002;
const DOC1: u128 = 0x2001_0db8_0000_0000_0000_0000_0000_0001;
const DOC2: u128 = 0x2001_0db8_0000_0000_0000_0000_0000_0002;
const DOC_OTHER_NET: u128 = 0x2001_0db8_0000_0001_0000_0000_0000_0001;

#[test]
fn counts_rank_predicates_by_count() {
    let col = vec![Some(1u128), Some(LL1), Some(LL2), None];
    let r = count_predicates(&col);
    assert_eq!(r.len(), 3);
    assert_eq!(r[0].predicate, PredicateKind::LowByteHost);
    assert_eq!(r[0].count, 3);
    assert_eq!(r[1].predicate, PredicateKind::LinkLocal);
    assert_eq!(r[1].count, 2);
    assert_eq!(r[2].predicate, PredicateKind::Loopback);
    assert_eq!(r[2].count, 1);
}

#[test]
fn counts_of_nothing_are_empty() {
    assert!(count_predicates(&vec![None, None]).is_empty());
    assert!(rank_counts(&vec![0u64; 29]).is_empty());
}

#[test]
fn count_analysis_restricted_to_one_predicate() {
    let mut a = CountAnalysis::new(Some("loopback".to_string()));
    a.absorb(1);
    a.absorb(LL1);
    assert_eq!(a.total_addresses(), 2);
    let r = a.finalize();
    assert_eq!(r.len(), 1);
    assert_eq!(r[0].predicate, PredicateKind::Loopback);
}

#[test]
fn dispersion_of_three_addresses() {
    let d = summarize_distances(&vec![0u128, 1, 3]);
    assert_eq!(d.min_distance, 1);
    assert_eq!(d.max_distance, 2);
    assert_eq!(d.total_distance, 4);
    assert_eq!(d.total_pairs, 3);
}

#[test]
fn dispersion_of_one_address_has_no_pair() {
    let mut a = DispersionAnalysis::new();
    a.absorb(5);
    let d = a.finalize();
    assert_eq!(d.total_pairs, 0);
    assert_eq!(d.min_distance, u32::MAX);
    assert_eq!(d.max_distance, 0);
    let again = a.finalize();
    assert_eq!(again.total_pairs, 0);
}

#[test]
fn dispersion_of_opposite_addresses_is_128() {
    let d = summarize_distances(&vec![0u128, u128::MAX]);
    assert_eq!(d.min_distance, 128);
    assert_eq!(d.max_distance, 128);
    assert!(d.min_distance <= d.max_distance);
}

#[test]
fn entropy_counts_bits_of_the_first_byte() {
    let mut a = ShannonEntropyAnalysis::new_with_options(0, 8);
    a.absorb(0xff00_0000_0000_0000_0000_0000_0000_0000);
    a.absorb(0);
    let e = a.finalize();
    assert_eq!(e.total_bits, 16);
    assert_eq!(e.one_bits, 8);
    assert_eq!(e.zero_bits, 8);
    assert_eq!(e.zero_bits + e.one_bits, e.total_bits);
}

#[test]
fn entropy_positions_past_the_address_are_not_counted() {
    let mut a = ShannonEntropyAnalysis::new_with_options(120, 200);
    a.absorb(0x01);
    let e = a.finalize();
    assert_eq!(e.total_bits, 8);
    assert_eq!(e.one_bits, 1);
}

#[test]
fn statistics_counts_repeats() {
    let mut a = StatisticsAnalysis::new();
    a.absorb(1);
    a.absorb(1);
    a.absorb(2);
    let s = a.finalize();
    assert_eq!(s.total_count, 3);
    assert_eq!(s.unique_count, 2);
    assert_eq!(s.duplicate_count, 1);
}

#[test]
fn subnets_by_slash_64() {
    let mut a = SubnetAnalysis::new_with_options(10, 64);
    a.absorb(DOC1);
    a.absorb(DOC2);
    a.absorb(DOC_OTHER_NET);
    let r = a.finalize();
    assert_eq!(r, vec![(0x2001_0db8_0000_0000_0000_0000_0000_0000, 2), (0x2001_0db8_0000_0001_0000_0000_0000_0000, 1)]);
}

#[test]
fn subnets_report_at_most_the_limit() {
    let mut a = SubnetAnalysis::new_with_options(1, 128);
    a.absorb(DOC1);
    a.absorb(DOC2);
    a.absorb(DOC2);
    assert_eq!(a.finalize(), vec![(DOC2, 2)]);
}

#[test]
fn special_blocks_are_counted_by_name() {
    let mut a = SpecialAnalysis::new();
    a.absorb(DOC1);
    a.absorb(0x3fff_0000_0000_0000_0000_0000_0000_0001);
    a.absorb(1);
    a.absorb(0x2001_4860_4860_0000_0000_0000_0000_8888);
    let r = a.finalize();
    assert_eq!(r.len(), 3);
    assert!(r.iter().all(|row| row.count == 1));
    assert_eq!(r.iter().filter(|row| row.name == "Documentation").count(), 2);
    assert_eq!(r.iter().filter(|row| row.name == "Loopback").count(), 1);
    let mut one = SpecialAnalysis::new();
    one.absorb(DOC1);
    let r1 = one.finalize();
    assert_eq!(r1.len(), 1);
    assert_eq!(r1[0].name, "Documentation");
    assert_eq!(r1[0].block.net, 0x2001_0db8_0000_0000_0000_0000_0000_0000);
    assert_eq!(r1[0].block.len, 32);
    assert_eq!(r1[0].count, 1);
    assert!(NUM_BLOCK_NAMES > 0);
}

#[test]
fn filter_analysis_keeps_matching_addresses() {
    let col = vec![Some(1u128), Some(2), None, Some(1)];
    assert_eq!(FilterAnalysis::new("loopback".to_string()).analyze(&col).unwrap(), vec![1, 1]);
    match FilterAnalysis::new("nope".to_string()).analyze(&col) {
        Err(AnalysisError::NoSuchPredicate(n)) => assert_eq!(n, "nope"),
        Ok(_) => panic!("expected an error"),
    }
}

#[test]
fn unique_analysis_lists_each_address_once() {
    let col = vec![Some(1u128), Some(2), Some(1), None];
    assert_eq!(UniqueAnalysis::new(None).analyze(&col).unwrap(), vec![1, 2]);
    assert_eq!(UniqueAnalysis::new(Some("loopback".to_string())).analyze(&col).unwrap(), vec![1, 2]);
    assert!(UniqueAnalysis::new(Some("nope".to_string())).analyze(&col).is_err());
}

#[test]
fn top_by_count_takes_largest_first() {
    let e = vec![(1u128, 5u64), (2, 9), (3, 7)];
    assert_eq!(top_by_count(&e, 2), vec![(2, 9), (3, 7)]);
    assert_eq!(top_by_count(&e, 0), vec![]);
    assert_eq!(top_by_count(&e, 10).len(), 3);
}

#[test]
fn analyze_dispatches() {
    let col = vec![Some(1u128), Some(1), None, Some(DOC1)];
    match analyze(Some(&col), AnalysisType::Unique).unwrap() {
        AnalysisOutput::Unique(v) => assert_eq!(v, vec![1, DOC1]),
        _ => panic!("wrong output"),
    }
    match analyze(Some(&col), AnalysisType::Dispersion).unwrap() {
        AnalysisOutput::Dispersion(d) => assert_eq!(d.total_pairs, 3),
        _ => panic!("wrong output"),
    }
    match analyze(Some(&col), AnalysisType::Entropy { start_bit: 0, end_bit: 128 }).unwrap() {
        AnalysisOutput::Entropy(e) => {
            assert_eq!(e.total_bits, 3 * 128);
            assert_eq!(e.one_bits, 1 + 1 + 10);
        }
        _ => panic!("wrong output"),
    }
    match analyze(Some(&col), AnalysisType::Subnets { max_subnets: 5, prefix_length: 32 }).unwrap() {
        AnalysisOutput::Subnets(v) => assert_eq!(v, vec![(0, 2), (0x2001_0db8_0000_0000_0000_0000_0000_0000, 1)]),
        _ => panic!("wrong output"),
    }
    match analyze(Some(&col), AnalysisType::Counts).unwrap() {
        AnalysisOutput::Counts(v) => {
            assert_eq!(v[0].predicate, PredicateKind::LowByteHost);
            assert_eq!(v[0].count, 3);
            assert_eq!(v[1].predicate, PredicateKind::Loopback);
            assert_eq!(v[1].count, 2);
        }
        _ => panic!("wrong output"),
    }
}

#[test]
fn analyze_refusals() {
    let col: Vec<Option<u128>> = vec![];
    assert_eq!(analyze(Some(&col), AnalysisType::Special).unwrap_err(), AnalyzeError::SpecialNotImplemented);
    assert_eq!(analyze(None, AnalysisType::Eui64).unwrap_err(), AnalyzeError::Eui64NotImplemented);
    assert_eq!(analyze(None, AnalysisType::Counts).unwrap_err(), AnalyzeError::NoData);
}
