use rmap::predicates::{
    get_all_predicates, lookup_predicate, predicate_at, Documentation2Predicate, IsGloballyRoutablePredicate,
    LinkLocalPredicate, LoopbackPredicate, PredicateKind, UniqueLocalPredicate, NUM_PREDICATES,
};

const DOC_1: u128 = 0x2001_0db8_0000_0000_0000_0000_0000_0001;
const GOOGLE_DNS: u128 = 0x2001_4860_4860_0000_0000_0000_0000_8888;

#[test]
fn loopback_holds_of_one_only() {
    assert!(LoopbackPredicate.predicate(1));
    assert!(!LoopbackPredicate.predicate(2));
    assert!(!LoopbackPredicate.predicate(0));
}

#[test]
fn link_local_is_fe80_slash_10() {
    assert!(LinkLocalPredicate.predicate(0xfe80_0000_0000_0000_0000_0000_0000_0001));
    assert!(LinkLocalPredicate.predicate(0xfebf_ffff_ffff_ffff_ffff_ffff_ffff_ffff));
    assert!(!LinkLocalPredicate.predicate(0xfec0_0000_0000_0000_0000_0000_0000_0001));
}

#[test]
fn unique_local_is_fc00_slash_7() {
    assert!(UniqueLocalPredicate.predicate(0xfd00_0000_0000_0000_0000_0000_0000_0001));
    assert!(UniqueLocalPredicate.predicate(0xfc00_0000_0000_0000_0000_0000_0000_0000));
    assert!(!UniqueLocalPredicate.predicate(0xfe00_0000_0000_0000_0000_0000_0000_0000));
}

#[test]
fn documentation_2_is_3fff_slash_20() {
    assert!(Documentation2Predicate.predicate(0x3fff_0fff_0000_0000_0000_0000_0000_0001));
    assert!(!Documentation2Predicate.predicate(0x3fff_1000_0000_0000_0000_0000_0000_0001));
}

#[test]
fn globally_routable_excludes_special_blocks() {
    let p = IsGloballyRoutablePredicate;
    assert!(p.predicate(GOOGLE_DNS));
    assert!(!p.predicate(DOC_1));
    assert!(!p.predicate(1));
    assert!(!p.predicate(0));
    assert!(!p.predicate(0xff02_0000_0000_0000_0000_0000_0000_0001));
    assert!(!p.predicate(0x0000_0000_0000_0000_0000_ffff_c000_0201));
}

#[test]
fn predicate_list_has_every_predicate_once() {
    let all = get_all_predicates();
    assert_eq!(all.len(), NUM_PREDICATES);
    assert_eq!(all[0], PredicateKind::Loopback);
    assert_eq!(all[26], PredicateKind::DroneRemoteId);
    assert_eq!(all[28], PredicateKind::LowByteHost);
    for (i, k) in all.iter().enumerate() {
        assert_eq!(k.index(), i);
        assert_eq!(predicate_at(i), *k);
    }
}

#[test]
fn lookup_by_name() {
    assert_eq!(lookup_predicate("loopback"), Some(PredicateKind::Loopback));
    assert_eq!(lookup_predicate("documentation_2"), Some(PredicateKind::Documentation2));
    assert_eq!(lookup_predicate("as112_v6"), Some(PredicateKind::As112V6));
    assert_eq!(lookup_predicate("documentation2"), None);
    assert_eq!(lookup_predicate("eui64"), Some(PredicateKind::Eui64));
    assert_eq!(lookup_predicate("low_byte_host"), Some(PredicateKind::LowByteHost));
    assert_eq!(lookup_predicate(""), None);
}

#[test]
fn interface_identifier_predicates() {
    assert!(PredicateKind::Eui64.holds(0xfe80_0000_0000_0000_0211_22ff_fe33_4455));
    assert!(!PredicateKind::Eui64.holds(DOC_1));
    assert!(PredicateKind::LowByteHost.holds(DOC_1));
    assert!(PredicateKind::LowByteHost.holds(0x2001_0db8_0000_0000_0000_0000_0000_00ff));
    assert!(!PredicateKind::LowByteHost.holds(0x2001_0db8_0000_0000_0000_0000_0000_0100));
}

#[test]
fn kinds_agree_with_their_names() {
    for k in get_all_predicates() {
        assert_eq!(lookup_predicate(k.name()), Some(k));
    }
    assert!(PredicateKind::Documentation.holds(DOC_1));
    assert!(!PredicateKind::Documentation.holds(GOOGLE_DNS));
}
