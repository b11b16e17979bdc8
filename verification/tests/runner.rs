use rmap::analyze::{AnalysisOutput, AnalyzeError};
use rmap::runner::{
    apply_filter, apply_filter_and_unique, apply_unique, run_analyze, AddressPredicate, AnalyzeCommand, Frame, Row,
    RunError,
};

const DOC1: u128 = 0x2001_0db8_0000_0000_0000_0000_0000_0001;

fn row(text: &str, addr: Option<u128>) -> Row {
    Row { cells: vec![Some(text.to_string())], addr }
}

fn frame(rows: Vec<Row>) -> Frame {
    Frame { width: 1, rows }
}

fn texts(f: &Frame) -> Vec<String> {
    f.rows.iter().map(|r| r.cells[0].clone().unwrap()).collect()
}

fn sample() -> Frame {
    frame(vec![
        row("::1", Some(1)),
        row("fe80::1", Some(0xfe80_0000_0000_0000_0000_0000_0000_0001)),
        row("not an address", None),
        row("2001:db8::1", Some(DOC1)),
        row("::1", Some(1)),
    ])
}

#[test]
fn filter_names_are_snake_case() {
    assert_eq!(AddressPredicate::Loopback.to_filter_name(), "loopback");
    assert_eq!(AddressPredicate::Documentation2.to_filter_name(), "documentation_2");
    assert_eq!(AddressPredicate::As112V6.to_filter_name(), "as112_v6");
    assert_eq!(AddressPredicate::Eui64.to_filter_name(), "eui64");
    assert_eq!(AddressPredicate::LowByteHost.to_filter_name(), "low_byte_host");
}

#[test]
fn include_keeps_matching_rows() {
    let f = apply_filter(sample(), AddressPredicate::Loopback, true).unwrap();
    assert_eq!(texts(&f), vec!["::1", "::1"]);
    assert_eq!(f.width, 1);
}

#[test]
fn exclude_drops_matching_rows_and_non_addresses() {
    let f = apply_filter(sample(), AddressPredicate::Loopback, false).unwrap();
    assert_eq!(texts(&f), vec!["fe80::1", "2001:db8::1"]);
}

#[test]
fn include_and_exclude_split_the_address_rows() {
    let kept = apply_filter(sample(), AddressPredicate::LinkLocal, true).unwrap();
    let dropped = apply_filter(sample(), AddressPredicate::LinkLocal, false).unwrap();
    assert_eq!(kept.rows.len() + dropped.rows.len(), 4);
}

#[test]
fn filters_commute_on_an_example() {
    let a = apply_filter(apply_filter(sample(), AddressPredicate::Loopback, false).unwrap(), AddressPredicate::LinkLocal, false)
        .unwrap();
    let b = apply_filter(apply_filter(sample(), AddressPredicate::LinkLocal, false).unwrap(), AddressPredicate::Loopback, false)
        .unwrap();
    assert_eq!(texts(&a), texts(&b));
    assert_eq!(texts(&a), vec!["2001:db8::1"]);
}

#[test]
fn filter_on_every_predicate_runs() {
    let f = apply_filter(sample(), AddressPredicate::Documentation2, true).unwrap();
    assert!(f.rows.is_empty());
    let eui = frame(vec![row("fe80::211:22ff:fe33:4455", Some(0xfe80_0000_0000_0000_0211_22ff_fe33_4455)), row("::1", Some(1))]);
    let kept = apply_filter(eui, AddressPredicate::Eui64, true).unwrap();
    assert_eq!(texts(&kept), vec!["fe80::211:22ff:fe33:4455"]);
    let low = apply_filter(sample(), AddressPredicate::LowByteHost, true).unwrap();
    assert_eq!(texts(&low), vec!["::1", "fe80::1", "2001:db8::1", "::1"]);
}

#[test]
fn filter_on_empty_table_is_identity_even_for_unlisted_names() {
    let f = apply_filter(frame(vec![]), AddressPredicate::Eui64, true).unwrap();
    assert_eq!(f.rows.len(), 0);
}

#[test]
fn unique_keeps_first_of_each() {
    let f = apply_unique(&sample());
    assert_eq!(texts(&f), vec!["::1", "fe80::1", "not an address", "2001:db8::1"]);
    let g = apply_unique(&f);
    assert_eq!(texts(&g), texts(&f));
}

#[test]
fn filter_and_unique_pipeline() {
    let f = apply_filter_and_unique(sample(), &vec![], &vec![AddressPredicate::LinkLocal], true).unwrap();
    assert_eq!(texts(&f), vec!["::1", "2001:db8::1"]);
    let same = apply_filter_and_unique(sample(), &vec![], &vec![], false).unwrap();
    assert_eq!(texts(&same), texts(&sample()));
}

#[test]
fn run_analyze_counts_after_filtering() {
    match run_analyze(sample(), &vec![], &vec![AddressPredicate::Documentation], false, AnalyzeCommand::Counts).unwrap() {
        AnalysisOutput::Counts(v) => {
            assert_eq!(v.len(), 3);
            assert_eq!(v[0].count, 3);
            assert_eq!(v[1].count, 2);
        }
        _ => panic!("wrong output"),
    }
}

#[test]
fn run_analyze_refuses_empty_bit_range() {
    let r = run_analyze(sample(), &vec![], &vec![], false, AnalyzeCommand::Entropy { start_bit: 8, end_bit: 8 });
    assert!(matches!(r, Err(RunError::BitRangeEmpty)));
}

#[test]
fn run_analyze_checks_bit_range_after_filtering() {
    let r = run_analyze(
        sample(),
        &vec![AddressPredicate::As112V6],
        &vec![],
        false,
        AnalyzeCommand::Entropy { start_bit: 8, end_bit: 8 },
    );
    assert!(matches!(r, Err(RunError::BitRangeEmpty)));
}

#[test]
fn run_analyze_without_columns_has_no_data() {
    let r = run_analyze(Frame { width: 0, rows: vec![] }, &vec![], &vec![], false, AnalyzeCommand::Dispersion);
    assert!(matches!(r, Err(RunError::Analysis(AnalyzeError::NoData))));
}

#[test]
fn run_analyze_subnets() {
    match run_analyze(sample(), &vec![], &vec![], true, AnalyzeCommand::Subnets { max_subnets: 1, prefix_length: 10 })
        .unwrap()
    {
        AnalysisOutput::Subnets(v) => assert_eq!(v.len(), 1),
        _ => panic!("wrong output"),
    }
}
