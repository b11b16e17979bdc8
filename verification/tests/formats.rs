use rmap::formats::{classify, Format, FormatError, FormatSniffer, IpListIterator, LineAction, ScanResultIterator, SniffPhase};

fn chars(s: &str) -> Vec<char> {
    s.chars().collect()
}

fn text(v: &[char]) -> String {
    v.iter().collect()
}

#[test]
fn ip_list_lines() {
    let mut it = IpListIterator::new(());
    assert_eq!(it.next_line(b"2001:db8::1\n"), LineAction::Parse { start: 0, end: 11 });
    assert_eq!(it.next_line(b"  ::1 \t\r\n"), LineAction::Parse { start: 2, end: 5 });
    assert_eq!(it.next_line(b"# a comment\n"), LineAction::Skip);
    assert_eq!(it.next_line(b""), LineAction::Skip);
    assert_eq!(it.total_lines(), 4);
    assert_eq!(it.bytes_read(), 12 + 9 + 12);
}

#[test]
fn ip_list_blank_line_is_parsed_from_its_first_byte() {
    let mut it = IpListIterator::new(());
    assert_eq!(it.next_line(b"\n"), LineAction::Parse { start: 0, end: 1 });
    assert_eq!(it.next_line(b"   \n"), LineAction::Parse { start: 0, end: 1 });
}

#[test]
fn scan_result_header() {
    let h = chars("saddr,daddr,type\n");
    let it = ScanResultIterator::new((), Some(&h)).unwrap();
    assert_eq!(it.bytes_read(), 0);
    let h2 = chars("daddr,type\n");
    assert!(matches!(ScanResultIterator::new((), Some(&h2)), Err(FormatError::NoSaddrColumn)));
    assert!(matches!(ScanResultIterator::new((), None), Err(FormatError::UnexpectedEof)));
    let h3 = chars("saddr ,type");
    assert!(matches!(ScanResultIterator::new((), Some(&h3)), Err(FormatError::NoSaddrColumn)));
    let h4 = chars("  saddr, type  ");
    let mut it4 = ScanResultIterator::new((), Some(&h4)).unwrap();
    let row = it4.next_line(&chars("2001:db8::9,129")).unwrap().unwrap();
    assert_eq!(text(&row.address_text), "2001:db8::9");
    assert!(!row.is_active);
}

#[test]
fn scan_result_rows() {
    let h = chars("type,saddr\n");
    let mut it = ScanResultIterator::new((), Some(&h)).unwrap();
    let row = it.next_line(&chars(" 129 , 2001:db8::1 \n")).unwrap().unwrap();
    assert_eq!(row.fields.len(), 2);
    assert_eq!(text(&row.fields[0]), "129");
    assert_eq!(text(&row.address_text), "2001:db8::1");
    assert!(row.is_active);
    let row = it.next_line(&chars("1,2001:db8::2\n")).unwrap().unwrap();
    assert!(!row.is_active);
    assert!(it.next_line(&chars("# comment\n")).unwrap().is_none());
    assert!(it.next_line(&chars("   \n")).unwrap().is_none());
    match it.next_line(&chars(" 129 \n")) {
        Err(FormatError::TooFewFields(t)) => assert_eq!(text(&t), "129"),
        _ => panic!("expected a short row"),
    }
    let total: usize = [" 129 , 2001:db8::1 \n", "1,2001:db8::2\n", "# comment\n", "   \n", " 129 \n"]
        .iter()
        .map(|l| l.len())
        .sum();
    assert_eq!(it.bytes_read(), total as u64);
}

#[test]
fn scan_result_without_type_column_has_no_active_rows() {
    let h = chars("saddr");
    let mut it = ScanResultIterator::new((), Some(&h)).unwrap();
    let row = it.next_line(&chars("2001:db8::1,129")).unwrap().unwrap();
    assert!(!row.is_active);
}

#[test]
fn bytes_read_counts_utf8_bytes() {
    let h = chars("saddr");
    let mut it = ScanResultIterator::new((), Some(&h)).unwrap();
    let _ = it.next_line(&chars("é€\n"));
    assert_eq!(it.bytes_read(), 2 + 3 + 1);
}

#[test]
fn classify_lines() {
    assert_eq!(classify(&chars("saddr,daddr"), false), Format::ScanResult);
    assert_eq!(classify(&chars("SAddr,daddr"), false), Format::ScanResult);
    assert_eq!(classify(&chars("2001:db8::1"), true), Format::IpList);
    assert_eq!(classify(&chars("a,b"), false), Format::ScanResult);
    assert_eq!(classify(&chars("hello"), false), Format::Unknown);
    assert_eq!(classify(&chars("saddr"), false), Format::Unknown);
}

#[test]
fn sniffer_takes_first_content_line() {
    let mut s = FormatSniffer::new();
    assert_eq!(s.feed(Some(&chars("2001:db8::1\n"))).unwrap(), false);
    assert_eq!(text(&s.content()), "2001:db8::1");
}

#[test]
fn sniffer_after_comment_takes_the_next_content_line() {
    let mut s = FormatSniffer::new();
    assert_eq!(s.feed(Some(&chars("# header\n"))).unwrap(), true);
    assert_eq!(s.feed(Some(&chars("# more\n"))).unwrap(), true);
    assert_eq!(s.feed(Some(&chars("2001:db8::1\n"))).unwrap(), false);
    assert_eq!(text(&s.content()), "2001:db8::1");
    assert_eq!(classify(&s.content(), true), Format::IpList);
}

#[test]
fn sniffer_after_blank_line_reads_on() {
    let mut s = FormatSniffer::new();
    assert_eq!(s.feed(Some(&chars("\n"))).unwrap(), true);
    assert_eq!(s.feed(Some(&chars("::1\n"))).unwrap(), false);
    assert_eq!(text(&s.content()), "::1");
}

#[test]
fn sniffer_on_empty_input_fails() {
    let mut s = FormatSniffer::new();
    assert!(matches!(s.feed(None), Err(FormatError::Empty)));
}

#[test]
fn sniffer_holds_nothing_after_comments_only() {
    let mut s = FormatSniffer::new();
    assert_eq!(s.feed(Some(&chars("# only\n"))).unwrap(), true);
    assert_eq!(s.feed(None).unwrap(), false);
    assert_eq!(text(&s.content()), "");
    assert_eq!(classify(&s.content(), false), Format::Unknown);
    let _ = SniffPhase::Done;
}
