use pnet::packet::icmpv6::{checksum, Icmpv6Packet};
use rmap::frontends::{answer_command, execute_command_response, remote_url, CommandOutcome, McpFrontend, ServerMetrics};
use rmap::plugin::{Entropy, EntropyCfg};
use rmap::probe::{IcmpProbe, Scanner};
use rmap::scan::{
    combine_interface_results, discovery_request, is_discovery_reply, plan_scan, probe_reply_rtt_v4, probe_reply_rtt_v6,
    probe_request_v4, probe_request_v6, reply_payload_too_short, report_progress, scan_range_v4, scan_range_v6, select_source_address, sorted_distinct, timestamp_payload, usable_interface,
    parse_target, resolved_target, target_kind, DiscoveryError, IpValue, ParsedTarget, ScanError, ScanPlan, ScanType, TargetError, TargetValue,
    ALL_NODES_MULTICAST,
};
use rmap::view::{App, Key};

const LL1: u128 = 0xfe80_0000_0000_0000_0000_0000_0000_0001;

#[test]
fn view_moves_down_and_up() {
    let mut app = App::new(5, 2);
    let w = app.table_window(6, 45);
    assert_eq!((w.start_row, w.end_row, w.first_col, w.max_cols), (0, 3, 0, 2));
    assert_eq!(w.selected_in_window, Some(0));
    app.next();
    app.next();
    app.next();
    let w = app.table_window(6, 45);
    assert_eq!((w.start_row, w.end_row), (1, 4));
    assert_eq!(w.selected_in_window, Some(2));
    app.previous();
    let w = app.table_window(6, 45);
    assert_eq!(w.selected_in_window, Some(1));
}

#[test]
fn view_stops_at_the_edges() {
    let mut app = App::new(2, 1);
    app.previous();
    assert_eq!(app.table_window(10, 10).selected_in_window, Some(0));
    app.next();
    app.next();
    app.next();
    assert_eq!(app.table_window(10, 10).selected_in_window, Some(1));
    app.next_col();
    assert_eq!(app.table_window(10, 10).first_col, 0);
}

#[test]
fn view_columns_scroll() {
    let mut app = App::new(1, 3);
    app.next_col();
    app.next_col();
    app.next_col();
    assert_eq!(app.table_window(5, 100).first_col, 2);
    app.previous_col();
    assert_eq!(app.table_window(5, 100).first_col, 1);
}

#[test]
fn view_of_empty_table_selects_nothing() {
    let mut app = App::new(0, 3);
    app.next();
    assert_eq!(app.table_window(10, 10).selected_in_window, None);
    assert_eq!(app.table_window(2, 0).end_row, 0);
}

#[test]
fn source_address_is_first_link_local() {
    let ips = vec![None, Some(0x2001_0db8_0000_0000_0000_0000_0000_0001u128), Some(LL1), Some(LL1 + 1)];
    assert_eq!(select_source_address(&ips), Some(LL1));
    assert_eq!(select_source_address(&vec![None, Some(1)]), None);
    assert_eq!(select_source_address(&vec![Some(0xfec0_0000_0000_0000_0000_0000_0000_0001)]), None);
}

#[test]
fn interfaces_scanned() {
    assert!(usable_interface(true, false, true));
    assert!(!usable_interface(true, true, true));
    assert!(!usable_interface(false, false, true));
    assert!(!usable_interface(true, false, false));
}

#[test]
fn discovery_request_matches_pnet() {
    let p = discovery_request(LL1);
    assert_eq!(p.len(), 56);
    assert_eq!(p[0], 128);
    assert_eq!(&p[4..8], &[0x13, 0x37, 0, 0]);
    assert!(p[8..].iter().all(|b| *b == 0));
    let mut zeroed = p.clone();
    zeroed[2] = 0;
    zeroed[3] = 0;
    let c = checksum(&Icmpv6Packet::new(&zeroed).unwrap(), &LL1.into(), &ALL_NODES_MULTICAST.into());
    assert_eq!(u16::from_be_bytes([p[2], p[3]]), c);
    assert_ne!(c, 0);
}

#[test]
fn probe_requests_carry_a_timestamp() {
    let payload = timestamp_payload(0x0102_0304);
    assert_eq!(payload.len(), 48);
    assert_eq!(&payload[0..4], &[1, 2, 3, 4]);
    let v6 = probe_request_v6(LL1, LL1 + 1, 7);
    assert_eq!(v6[0], 128);
    assert_eq!(&v6[8..12], &[0, 0, 0, 7]);
    let v4 = probe_request_v4(7);
    assert_eq!(v4[0], 8);
    let mut zeroed = v4.clone();
    zeroed[2] = 0;
    zeroed[3] = 0;
    let c = pnet::packet::icmp::checksum(&pnet::packet::icmp::IcmpPacket::new(&zeroed).unwrap());
    assert_eq!(u16::from_be_bytes([v4[2], v4[3]]), c);
    // 0x0800 + 0x1337 + 0x0007, complemented.
    assert_eq!(u16::from_be_bytes([v4[2], v4[3]]), 0xffff - 0x1b3e);
    // ::1 to ::1: pseudo-header 1 + 1 + 58 + 56, then 0x8000 + 0x1337 + 0x0007.
    let v6 = probe_request_v6(1, 1, 7);
    assert_eq!(u16::from_be_bytes([v6[2], v6[3]]), 0xffff - (1 + 1 + 58 + 56 + 0x8000 + 0x1337 + 0x0007));
}

#[test]
fn replies_are_recognised() {
    let mut reply = vec![129u8, 0, 0, 0, 0x13, 0x37, 0, 0];
    assert!(is_discovery_reply(&reply));
    reply[5] = 0x38;
    assert!(!is_discovery_reply(&reply));
    assert!(!is_discovery_reply(&[129, 0, 0, 0, 0x13, 0x37]));
    let with_time = vec![0u8, 0, 0, 0, 0x13, 0x37, 0, 0, 0, 0, 0, 5];
    assert_eq!(probe_reply_rtt_v4(&with_time, 12), Some(7));
    assert_eq!(probe_reply_rtt_v4(&with_time, 3), Some(0));
    assert_eq!(probe_reply_rtt_v6(&with_time, 12), Some(7));
    let mut wrong_type = with_time.clone();
    wrong_type[0] = 8;
    assert_eq!(probe_reply_rtt_v4(&wrong_type, 12), None);
    assert_eq!(probe_reply_rtt_v6(&wrong_type, 12), Some(7));
    assert_eq!(probe_reply_rtt_v4(&with_time[0..8], 12), None);
}

#[test]
fn hosts_are_merged_in_order() {
    assert_eq!(sorted_distinct(&vec![5u128, 1, 5, 3]), vec![1, 3, 5]);
    let r = combine_interface_results(&vec![Some(vec![9u128, 2]), None, Some(vec![2, 4])]).unwrap();
    assert_eq!(r, vec![2, 4, 9]);
    assert_eq!(combine_interface_results(&vec![]), Err(DiscoveryError::NoInterfaces));
    assert_eq!(combine_interface_results(&vec![None]), Ok(vec![]));
}

#[test]
fn scan_plans() {
    assert_eq!(plan_scan(ScanType::Icmpv4, Some(ParsedTarget::Network4)), Ok(ScanPlan::ProbeNetwork4));
    assert_eq!(plan_scan(ScanType::Icmpv6, Some(ParsedTarget::Network6)), Ok(ScanPlan::ProbeNetwork6));
    assert_eq!(plan_scan(ScanType::LinkLocal, Some(ParsedTarget::SingleIp)), Ok(ScanPlan::DiscoverLinkLocal));
    assert_eq!(plan_scan(ScanType::Icmpv4, Some(ParsedTarget::Network6)), Err(ScanError::Unsupported));
    assert_eq!(plan_scan(ScanType::LinkLocal, None), Ok(ScanPlan::DiscoverLinkLocal));
    assert_eq!(plan_scan(ScanType::Icmpv6, None), Err(ScanError::TargetRequired));
}

#[test]
fn probe_settings() {
    let p = IcmpProbe::new();
    assert_eq!((p.timeout_ms, p.identifier, p.payload_size), (5000, 0x1337, 48));
    assert_eq!(IcmpProbe::default(), p);
    assert_eq!(IcmpProbe::with_timeout(10).timeout_ms, 10);
    assert_eq!(IcmpProbe::with_timeout(10).identifier, 0x1337);
    let q = IcmpProbe::with_settings(1, 2, 3);
    assert_eq!((q.timeout_ms, q.identifier, q.payload_size), (1, 2, 3));
    let packet = q.update_v4();
    assert_eq!(packet.len(), 13);
    assert_eq!(&packet[4..6], &[0, 2]);
    let u6 = q.update_v6(LL1, LL1);
    assert_eq!(u6.len(), 13);
    assert_eq!(u6[0], 128);
    let s = Scanner::default();
    assert_eq!(s.max_active_probes, usize::MAX);
    assert_eq!(s.delay_after_probe(true), None);
    let t = Scanner { max_active_probes: 4, new_probe_delay_ms: Some(20) };
    assert_eq!(t.delay_after_probe(true), Some(20));
    assert_eq!(t.delay_after_probe(false), None);
}

#[test]
fn entropy_plugin_counts_tail_bytes() {
    let e = Entropy::new(EntropyCfg { tail_bytes: Some(2) });
    let (counts, n) = e.byte_counts(&[1, 2, 3, 3]);
    assert_eq!(n, 2);
    assert_eq!(counts[3], 2);
    assert_eq!(counts[1], 0);
    let all = Entropy::new(EntropyCfg { tail_bytes: None });
    let (counts, n) = all.byte_counts(&[1, 2, 3, 3]);
    assert_eq!(n, 4);
    assert_eq!(counts[1], 1);
    let big = Entropy::new(EntropyCfg { tail_bytes: Some(10) });
    assert_eq!(big.byte_counts(&[7]).1, 1);
}

#[test]
fn server_metrics_and_responses() {
    let mut m = ServerMetrics::new();
    assert_eq!(m.record_request(true), (1, 1));
    assert_eq!(m.record_request(false), (1, 2));
    assert_eq!(m.successful_requests + m.failed_requests, m.total_requests);
    let r = execute_command_response(CommandOutcome::BadCommand("eof".to_string()));
    assert!(!r.success);
    assert_eq!(r.error, "Failed to deserialize command: eof");
    let r = execute_command_response(CommandOutcome::Done("{}".to_string()));
    assert!(r.success);
    assert_eq!(r.dataframe_json, "{}");
    assert_eq!(r.error, "");
    let r = execute_command_response(CommandOutcome::SerializeFailed("x".to_string()));
    assert_eq!(r.error, "Failed to serialize DataFrame: x");
    let r = execute_command_response(CommandOutcome::Failed("boom".to_string()));
    assert_eq!(r.error, "boom");
    assert_eq!(McpFrontend::new(), McpFrontend::default());
}

#[test]
fn remote_urls() {
    assert_eq!(remote_url("127.0.0.1:50051"), "http://127.0.0.1:50051");
    assert_eq!(remote_url("http://h:1"), "http://h:1");
    assert_eq!(remote_url("https://h:1"), "https://h:1");
    assert_eq!(remote_url("http:/"), "http://http:/");
}

#[test]
fn scan_ranges() {
    assert_eq!(scan_range_v4(0x0a01_0100, 24), (0x0a01_0101, 0x0a01_01fe));
    assert_eq!(scan_range_v4(0x0a01_0107, 30), (0x0a01_0105, 0x0a01_0106));
    assert_eq!(scan_range_v4(0x0a01_0107, 31), (0x0a01_0106, 0x0a01_0107));
    assert_eq!(scan_range_v4(0x0a01_0107, 32), (0x0a01_0107, 0x0a01_0107));
    assert_eq!(scan_range_v6(0xfd00_0000_0000_0000_0000_0000_0000_0005, 126), (0xfd00_0000_0000_0000_0000_0000_0000_0004, 0xfd00_0000_0000_0000_0000_0000_0000_0007));
    assert!(report_progress(50));
    assert!(!report_progress(49));
}

#[test]
fn viewer_keys() {
    let mut app = App::new(3, 3);
    assert!(!app.handle_key(Key::Down));
    assert!(!app.handle_key(Key::Right));
    assert!(!app.handle_key(Key::Other));
    assert!(!app.handle_key(Key::Char('x')));
    let w = app.table_window(10, 100);
    assert_eq!(w.selected_in_window, Some(1));
    assert_eq!(w.first_col, 1);
    assert!(!app.handle_key(Key::Up));
    assert!(!app.handle_key(Key::Left));
    let w = app.table_window(10, 100);
    assert_eq!((w.selected_in_window, w.first_col), (Some(0), 0));
    assert!(app.handle_key(Key::Char('q')));
}

#[test]
fn scan_targets_are_read() {
    assert_eq!(parse_target("::1", Some(IpValue::V6(1))), Ok(TargetValue::SingleIp(IpValue::V6(1))));
    let n6 = parse_target("2001:db8::/32", None);
    assert_eq!(n6, Ok(TargetValue::Network { is_v6: true, addr: 0x2001_0db8_0000_0000_0000_0000_0000_0000, prefix_len: 32 }));
    assert_eq!(target_kind(&n6.unwrap()), ParsedTarget::Network6);
    let n4 = parse_target("10.1.2.3/8", None);
    assert_eq!(n4, Ok(TargetValue::Network { is_v6: false, addr: 0x0a01_0203, prefix_len: 8 }));
    assert_eq!(target_kind(&n4.unwrap()), ParsedTarget::Network4);
    assert_eq!(parse_target("example.com", None), Err(TargetError::Unresolved));
    assert_eq!(parse_target("10.0.0.0/33", None), Err(TargetError::Unresolved));
    assert_eq!(resolved_target("nowhere.example", vec![]), Err(TargetError::NoAddressFound));
    let host = resolved_target("host.example", vec![IpValue::V4(0x0a00_0001)]).unwrap();
    assert_eq!(
        host,
        TargetValue::Hostname { name: "host.example".to_string(), addresses: vec![IpValue::V4(0x0a00_0001)] }
    );
    assert_eq!(target_kind(&host), ParsedTarget::Hostname);
    assert_eq!(plan_scan(ScanType::Icmpv4, Some(ParsedTarget::Hostname)), Err(ScanError::Unsupported));
}

#[test]
fn short_payloads_matter_only_in_replies_to_probes() {
    let other = [0u8, 0, 0, 0, 0x12, 0x34, 0, 0, 1, 2];
    assert!(!reply_payload_too_short(&other, true));
    assert!(!reply_payload_too_short(&other, false));
    assert_eq!(probe_reply_rtt_v6(&other, 5), None);
    assert_eq!(probe_reply_rtt_v4(&other, 5), None);
    let ours = [0u8, 0, 0, 0, 0x13, 0x37, 0, 0, 1, 2];
    assert!(reply_payload_too_short(&ours, true));
    assert!(reply_payload_too_short(&ours, false));
    let mut request = ours;
    request[0] = 8;
    assert!(!reply_payload_too_short(&request, true));
    assert_eq!(probe_reply_rtt_v4(&request, 5), None);
}

#[test]
fn answering_a_command_counts_it() {
    let mut m = ServerMetrics::new();
    let (resp, rate) = answer_command(&mut m, CommandOutcome::Done("{}".to_string()));
    assert!(resp.success);
    assert_eq!(rate, (1, 1));
    let (resp, rate) = answer_command(&mut m, CommandOutcome::Failed("boom".to_string()));
    assert!(!resp.success);
    assert_eq!(resp.error, "boom");
    assert_eq!(rate, (1, 2));
    assert_eq!((m.total_requests, m.successful_requests, m.failed_requests), (2, 1, 1));
}
