use rmap::tga::entropy_ip::{
    mine_segments, mine_values, nybble_counts, nybbles_of, segment_addresses, segment_value_of, EntropyIpTga, Segment,
};
use rmap::tga::octets::{octets_key, octets_of};
use rmap::tga::python::{
    create_python_tga_train_fn, decode_address, decode_generated_addresses, encode_addresses, get_build_time_python_tgas,
    python_tga_infos, read_generate_reply, read_train_reply, trained_tga_name, ReplyError, AddressTextError, HexError, PythonTgaInfo, PythonTrainFn, TgaListError,
};
use rmap::tga::random_ip::{random_ip_train_fn, RandomIpTga};
use rmap::tga::registry::{
    get_all_available_tga_names, get_available_tga_names, train_tga_by_name, ResolvedTga, TgaError, TgaKind, TgaRegistry,
    TrainedTga,
};
use rmap::tga::{generate_targets, DrawTally, TgaInfo, MAX_ATTEMPTS, TGA};

const DOC1: u128 = 0x2001_0db8_0000_0000_0000_0000_0000_0001;

#[test]
fn test_inventory_registration() {
    let tgas = TgaRegistry::get_available_tgas();
    assert!(!tgas.is_empty(), "No TGAs registered in inventory");
    assert!(tgas.contains(&"entropy_ip"), "entropy_ip not found in registry");
    assert!(tgas.contains(&"random_ip"), "random_ip not found in registry");

    let help_text = TgaRegistry::get_tga_help_text();
    assert!(help_text.contains("entropy_ip"), "Help text missing entropy_ip");
    assert!(help_text.contains("random_ip"), "Help text missing random_ip");

    println!("Registered TGAs: {:?}", tgas);
    println!("Help text:\n{}", help_text);
}

#[test]
fn help_text_lists_one_line_per_tga() {
    let help = TgaRegistry::get_tga_help_text();
    let expected = format!(
        "Type of TGA to train. Available types:\n  entropy_ip - {}\n  random_ip - {}\n",
        EntropyIpTga::DESCRIPTION,
        RandomIpTga::DESCRIPTION
    );
    assert_eq!(help, expected);
}

#[test]
fn registry_lookups() {
    assert_eq!(get_available_tga_names(), vec!["entropy_ip", "random_ip"]);
    assert_eq!(TgaRegistry::get_tga_description("random_ip"), Some(RandomIpTga::DESCRIPTION));
    assert_eq!(TgaRegistry::get_tga_description("nope"), None);
    assert_eq!(TgaRegistry::lookup("entropy_ip"), Some(TgaKind::EntropyIp));
    let python = vec![
        PythonTgaInfo { name: "lstm_ipv6".to_string(), description: "LSTM".to_string() },
        PythonTgaInfo { name: "six_gen".to_string(), description: "6Gen".to_string() },
    ];
    assert_eq!(TgaRegistry::resolve_tga("random_ip", &python).unwrap(), ResolvedTga::Builtin(TgaKind::RandomIp));
    assert_eq!(TgaRegistry::resolve_tga("six_gen", &python).unwrap(), ResolvedTga::Python(1));
    match TgaRegistry::resolve_tga("nope", &python) {
        Err(TgaError::UnknownTga(n)) => assert_eq!(n, "nope"),
        _ => panic!("expected an unknown TGA"),
    }
    assert_eq!(get_all_available_tga_names(&python), vec!["entropy_ip", "random_ip", "lstm_ipv6", "six_gen"]);
    assert_eq!(get_all_available_tga_names(&vec![]), vec!["entropy_ip", "random_ip"]);
}

#[test]
fn octets_round_trip() {
    let b = octets_of(DOC1);
    assert_eq!(b, [0x20, 0x01, 0x0d, 0xb8, 0, 0, 0, 0, 0, 0, 0, 0, 0, 0, 0, 1]);
    assert_eq!(octets_key(&b), DOC1);
    assert_eq!(octets_key(&octets_of(u128::MAX)), u128::MAX);
    assert_eq!(u128::from_be_bytes(octets_of(12345)), 12345);
}

#[test]
fn random_tga_generates_distinct_addresses() {
    let tga = RandomIpTga::train(vec![]).unwrap();
    let v = tga.generate_unique(20);
    assert_eq!(v.len(), 20);
    let mut s = v.clone();
    s.sort();
    s.dedup();
    assert_eq!(s.len(), 20);
    assert_eq!(tga.name(), "random_ip");
    assert_eq!(<RandomIpTga as TgaInfo>::NAME, "random_ip");
    let _ = random_ip_train_fn(vec![[0u8; 16]]);
}

#[test]
fn generate_targets_with_random_tga() {
    let tga = RandomIpTga {};
    let v = generate_targets(&tga, 50, true).unwrap();
    assert_eq!(v.len(), 50);
    let w = generate_targets(&tga, 3, false).unwrap();
    assert_eq!(w.len(), 3);
}

struct Constant;

impl TGA for Constant {
    fn generate(&self) -> [u8; 16] {
        octets_of(DOC1)
    }
    fn name(&self) -> &'static str {
        "constant"
    }
    fn description(&self) -> &'static str {
        "always the same address"
    }
}

#[test]
fn generate_targets_gives_up_on_endless_duplicates() {
    let e = generate_targets(&Constant, 2, true).unwrap_err();
    assert_eq!(e.generated, 1);
    assert_eq!(e.count, 2);
    assert_eq!(e.attempts, MAX_ATTEMPTS);
    assert_eq!(generate_targets(&Constant, 4, false).unwrap().len(), 4);
    assert_eq!(Constant.generate_unique(3).len(), 1);
}

#[test]
fn nybbles_of_an_address() {
    let n = nybbles_of(DOC1);
    assert_eq!(n.len(), 32);
    assert_eq!(&n[0..8], &[2, 0, 0, 1, 0, 0xd, 0xb, 8]);
    assert_eq!(n[31], 1);
    assert_eq!(segment_value_of(DOC1, 0, 7), 0x2001_0db8);
    assert_eq!(segment_value_of(DOC1, 28, 31), 1);
}

#[test]
fn nybble_counts_per_position() {
    let c = nybble_counts(&vec![DOC1, 1, 0]);
    assert_eq!(c.len(), 32);
    assert_eq!(c[0][2], 1);
    assert_eq!(c[0][0], 2);
    assert_eq!(c[31][1], 2);
    assert_eq!(c[31][0], 1);
}

fn bounds(s: &[Segment]) -> Vec<(usize, usize)> {
    s.iter().map(|x| (x.start_nybble, x.end_nybble)).collect()
}

#[test]
fn segmentation_rules() {
    let none = vec![false; 32];
    assert_eq!(bounds(&segment_addresses(&none)), vec![(0, 7), (8, 15), (16, 31)]);
    let mut sig = vec![false; 32];
    sig[8] = true;
    sig[10] = true;
    sig[16] = true;
    sig[20] = true;
    assert_eq!(bounds(&segment_addresses(&sig)), vec![(0, 7), (8, 9), (10, 15), (16, 19), (20, 31)]);
    let all = vec![true; 32];
    let b = bounds(&segment_addresses(&all));
    assert_eq!(b[0], (0, 7));
    assert_eq!(b[1], (8, 8));
    assert_eq!(b.last(), Some(&(31, 31)));
    assert_eq!(b.len(), 25);
}

#[test]
fn mining_counts_segment_values() {
    let seeds = vec![DOC1, DOC1 + 1, DOC1, 0x2001_0db9_0000_0000_0000_0000_0000_0001];
    let v = mine_values(&seeds, 0, 7);
    assert_eq!(v.len(), 2);
    assert_eq!((v[0].value, v[0].count), (0x2001_0db8, 3));
    assert_eq!((v[1].value, v[1].count), (0x2001_0db9, 1));
    let mut segs = segment_addresses(&vec![false; 32]);
    mine_segments(&mut segs, &seeds);
    assert_eq!(segs[2].values.len(), 2);
    assert_eq!(segs[1].values.len(), 1);
    assert_eq!(segs[1].values[0].count, 4);
}

#[test]
fn entropy_ip_generates_from_mined_values() {
    let seeds: Vec<u128> = (1..=9u128).map(|i| DOC1 - 1 + i).collect();
    let tga = EntropyIpTga::build(&seeds, &vec![false; 32]);
    for _ in 0..20 {
        let a = octets_key(&tga.generate());
        assert_eq!(a >> 96, 0x2001_0db8);
        assert!((1..=9).contains(&(a & 0xffff_ffff_ffff_ffff)));
        assert_eq!((a >> 64) & 0xffff_ffff, 0);
    }
    assert_eq!(tga.name(), "entropy_ip");
    assert_eq!(tga.model().segments.len(), 3);
}

#[test]
fn entropy_ip_without_seeds_generates_zero() {
    let tga = EntropyIpTga::build(&vec![], &vec![false; 32]);
    assert_eq!(tga.model().segments.len(), 0);
    assert_eq!(tga.generate(), [0u8; 16]);
}

#[test]
fn train_by_name_dispatches() {
    let seeds = vec![octets_of(DOC1), octets_of(DOC1 + 1), octets_of(DOC1 + 0x1_0000_0000_0000_0000)];
    let python = vec![PythonTgaInfo { name: "lstm_ipv6".to_string(), description: "LSTM".to_string() }];
    let flat = vec![false; 32];
    match train_tga_by_name("entropy_ip", seeds.clone(), &flat, &python) {
        Ok(TrainedTga::EntropyIp(t)) => {
            let segs = &t.model().segments;
            assert_eq!(segs.len(), 3);
            assert_eq!(segs[0].values.len(), 1);
            assert_eq!(segs[0].values[0].count, 3);
            assert_eq!(segs[1].values.len(), 2);
            assert_eq!(segs[2].values.len(), 2);
        }
        _ => panic!("entropy_ip did not train"),
    }
    assert!(matches!(train_tga_by_name("random_ip", seeds.clone(), &flat, &python), Ok(TrainedTga::RandomIp(_))));
    assert!(matches!(train_tga_by_name("lstm_ipv6", seeds.clone(), &flat, &python), Ok(TrainedTga::Python(0))));
    match train_tga_by_name("nope", seeds, &flat, &python) {
        Err(TgaError::UnknownTga(n)) => assert_eq!(n, "nope"),
        _ => panic!("an unknown name was accepted"),
    }
}

#[test]
fn python_train_routines() {
    assert_eq!(create_python_tga_train_fn("lstm_ipv6"), PythonTrainFn::LstmIpv6);
    assert_eq!(create_python_tga_train_fn("six_gen"), PythonTrainFn::Generic);
    assert_eq!(trained_tga_name(PythonTrainFn::Generic), "lstm_ipv6");
    assert!(get_build_time_python_tgas().is_empty());
}

#[test]
fn python_addresses_decode() {
    let a = decode_address("20010db8000000000000000000000001").unwrap();
    assert_eq!(octets_key(&a), DOC1);
    assert_eq!(decode_address("20010DB8000000000000000000000001").unwrap(), a);
    assert_eq!(decode_address("123").unwrap_err(), AddressTextError::Hex(HexError::OddLength));
    assert_eq!(
        decode_address("20zz").unwrap_err(),
        AddressTextError::Hex(HexError::InvalidHexCharacter { c: 'z', index: 2 })
    );
    assert_eq!(decode_address("2001").unwrap_err(), AddressTextError::InvalidLength(2));
    let ok = decode_generated_addresses(&vec![Some("00000000000000000000000000000001".to_string())]).unwrap();
    assert_eq!(octets_key(&ok[0]), 1);
    assert_eq!(
        decode_generated_addresses(&vec![Some("00000000000000000000000000000001".to_string()), None]).unwrap_err(),
        AddressTextError::InvalidFormat
    );
}

#[test]
fn python_addresses_encode() {
    let t = encode_addresses(&vec![octets_of(DOC1), octets_of(0xff)]);
    assert_eq!(t, vec!["20010db8000000000000000000000001", "000000000000000000000000000000ff"]);
    let back = decode_address(&t[1]).unwrap();
    assert_eq!(octets_key(&back), 0xff);
}

#[test]
fn hex_text_round_trips() {
    let addresses = vec![octets_of(DOC1), octets_of(0xff), octets_of(u128::MAX)];
    let text: Vec<Option<String>> = encode_addresses(&addresses).into_iter().map(Some).collect();
    assert_eq!(decode_generated_addresses(&text).unwrap(), addresses);
    assert_eq!(
        decode_address("0123456789ABCDEFabcdef0000000000").unwrap(),
        [0x01, 0x23, 0x45, 0x67, 0x89, 0xab, 0xcd, 0xef, 0xab, 0xcd, 0xef, 0, 0, 0, 0, 0]
    );
    assert_eq!(
        decode_address("0g").unwrap_err(),
        AddressTextError::Hex(HexError::InvalidHexCharacter { c: 'g', index: 1 })
    );
    let good = Some("00000000000000000000000000000001".to_string());
    assert_eq!(
        decode_generated_addresses(&vec![good.clone(), Some("abc".to_string()), None]).unwrap_err(),
        AddressTextError::Hex(HexError::OddLength)
    );
    assert_eq!(
        decode_generated_addresses(&vec![good.clone(), Some("00".to_string())]).unwrap_err(),
        AddressTextError::InvalidLength(1)
    );
    assert_eq!(
        decode_generated_addresses(&vec![good, Some("zz00".to_string())]).unwrap_err(),
        AddressTextError::Hex(HexError::InvalidHexCharacter { c: 'z', index: 0 })
    );
}

#[test]
fn python_tga_list_checks_entries() {
    let ok = python_tga_infos(vec![(Some("a".to_string()), Some("A".to_string()))]).unwrap();
    assert_eq!(ok[0].name, "a");
    assert_eq!(ok[0].description, "A");
    assert_eq!(python_tga_infos(vec![(None, None)]).unwrap_err(), TgaListError::MissingName);
    assert_eq!(
        python_tga_infos(vec![(Some("a".to_string()), Some("A".to_string())), (Some("b".to_string()), None)]).unwrap_err(),
        TgaListError::MissingDescription
    );
    assert!(python_tga_infos(vec![]).unwrap().is_empty());
}

#[test]
fn draw_tally_keeps_new_draws_and_counts_repeats() {
    let mut t = DrawTally::new(true);
    assert!(t.absorb_draw([1u8; 16]));
    assert!(!t.absorb_draw([1u8; 16]));
    assert!(!t.absorb_draw([1u8; 16]));
    assert_eq!(t.run(), 2);
    assert!(t.absorb_draw([2u8; 16]));
    assert_eq!(t.run(), 0);
    assert_eq!(t.kept_len(), 2);
    assert_eq!(t.into_kept(), vec![[1u8; 16], [2u8; 16]]);
    let mut all = DrawTally::new(false);
    assert!(all.absorb_draw([1u8; 16]));
    assert!(all.absorb_draw([1u8; 16]));
    assert_eq!(all.into_kept().len(), 2);
}

#[test]
fn python_replies_are_read() {
    assert_eq!(read_train_reply(None, Some(Some("m.pt".to_string()))).unwrap(), "m.pt");
    assert!(matches!(read_train_reply(Some("\"bad\"".to_string()), None), Err(ReplyError::Failed(e)) if e == "\"bad\""));
    assert!(matches!(read_train_reply(None, None), Err(ReplyError::Missing)));
    let good = Some("00000000000000000000000000000001".to_string());
    assert_eq!(read_generate_reply(None, Some(vec![good.clone()])).unwrap(), vec![octets_of(1)]);
    assert!(matches!(read_generate_reply(Some("x".to_string()), Some(vec![good])), Err(ReplyError::Failed(_))));
    assert!(matches!(read_generate_reply(None, None), Err(ReplyError::Missing)));
    assert!(matches!(
        read_generate_reply(None, Some(vec![None])),
        Err(ReplyError::Address(AddressTextError::InvalidFormat))
    ));
}
