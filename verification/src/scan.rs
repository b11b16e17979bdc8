//! Scanning and link-local discovery: the echo requests that are sent, the
//! replies that are accepted, and how the hosts found are gathered. Sending
//! and receiving packets, and waiting, are left to the caller.

use vstd::prelude::*;
use pnet::packet::Packet;
use ipnet::{Ipv4Net, Ipv6Net};
use vstd::arithmetic::power2::pow2;
use crate::addr::net_contains;

verus! {

/// The identifier carried by every echo request this tool sends.
pub const PROBE_IDENTIFIER: u16 = 0x1337;

/// The payload size of the echo requests, in bytes.
pub const PAYLOAD_SIZE: usize = 48;

/// `ff02::1`, the all-nodes link-local multicast group.
pub const ALL_NODES_MULTICAST: u128 = 0xff02_0000_0000_0000_0000_0000_0000_0001;

/// The ICMPv6 type of an echo request.
pub const ECHO_REQUEST_V6: u8 = 128;

/// The ICMPv6 type of an echo reply.
pub const ECHO_REPLY_V6: u8 = 129;

/// The ICMP (v4) type of an echo request.
pub const ECHO_REQUEST_V4: u8 = 8;

/// The ICMP (v4) type of an echo reply.
pub const ECHO_REPLY_V4: u8 = 0;

// ---------------------------------------------------------------------------
// Choosing the source address
// ---------------------------------------------------------------------------

/// An address whose first octet is `fe` and whose second octet has `10`
/// as its top two bits: a link-local unicast address (`fe80::/10`).
pub open spec fn is_link_local_source(addr: u128) -> bool {
    addr as nat / pow2(118) == 0x3fa
}

/// Being a link-local source address is lying in `fe80::/10`.
pub proof fn lemma_link_local_source_is_fe80_10(addr: u128)
    ensures
        is_link_local_source(addr) <==> net_contains(0xfe80_0000_0000_0000_0000_0000_0000_0000, 10, addr),
{
    crate::addr::lemma_block_size_10();
}

/// The first IPv6 address of an interface that is link-local; `None`
/// entries stand for the interface's IPv4 addresses.
pub fn select_source_address(ips: &Vec<Option<u128>>) -> (r: Option<u128>)
    ensures
        match r {
            Some(a) => exists|i: int| {
                &&& 0 <= i < ips@.len()
                &&& #[trigger] ips@[i] == Some(a)
                &&& is_link_local_source(a)
                &&& forall|k: int| 0 <= k < i ==> !(#[trigger] ips@[k] matches Some(b) && is_link_local_source(b))
            },
            None => forall|k: int| 0 <= k < ips@.len() ==> !(#[trigger] ips@[k] matches Some(b) && is_link_local_source(b)),
        },
{
    let mut i: usize = 0;
    proof {
        vstd::arithmetic::power2::lemma2_to64();
        crate::addr::lemma_pow2_118();
    }
    while i < ips.len()
        invariant
            0 <= i <= ips.len(),
            pow2(118) == 0x40_0000_0000_0000_0000_0000_0000_0000,
            forall|k: int| 0 <= k < i ==> !(#[trigger] ips@[k] matches Some(b) && is_link_local_source(b)),
        decreases ips.len() - i,
    {
        match ips[i] {
            Some(a) => {
                if a / 0x40_0000_0000_0000_0000_0000_0000_0000 == 0x3fa {
                    assert(ips@[i as int] == Some(a));
                    return Some(a);
                }
            },
            None => {},
        }
        i = i + 1;
    }
    None
}

/// Whether an interface is scanned: it is up, it is not the loopback
/// interface, and it has an IPv6 address.
pub fn usable_interface(is_up: bool, is_loopback: bool, has_ipv6: bool) -> (r: bool)
    ensures
        r == (is_up && !is_loopback && has_ipv6),
{
    is_up && !is_loopback && has_ipv6
}

// ---------------------------------------------------------------------------
// Echo requests
// ---------------------------------------------------------------------------

/// The bytes of an echo message: type, code 0, checksum, identifier and
/// sequence number (each big-endian), then the payload.
pub open spec fn echo_layout(msg_type: u8, checksum: u16, identifier: u16, sequence: u16, payload: Seq<u8>) -> Seq<u8> {
    seq![
        msg_type,
        0u8,
        (checksum / 256) as u8,
        (checksum % 256) as u8,
        (identifier / 256) as u8,
        (identifier % 256) as u8,
        (sequence / 256) as u8,
        (sequence % 256) as u8,
    ] + payload
}

/// The sum of the 16-bit big-endian words of `data` from word `i` on,
/// word `skip` left out; an odd last byte counts as the high byte of a
/// word.
pub open spec fn be_word_sum(data: Seq<u8>, skip: int, i: int) -> nat
    decreases data.len() - 2 * i,
{
    if i < 0 || 2 * i >= data.len() {
        0
    } else if 2 * i + 1 == data.len() {
        if i == skip {
            0
        } else {
            data[2 * i] as nat * 256
        }
    } else {
        (if i == skip {
            0
        } else {
            data[2 * i] as nat * 256 + data[2 * i + 1] as nat
        }) + be_word_sum(data, skip, i + 1)
    }
}

/// The sum of the last `n` 16-bit words of `a`.
pub open spec fn address_word_sum(a: nat, n: nat) -> nat
    decreases n,
{
    if n == 0 {
        0
    } else {
        a % 0x10000 + address_word_sum(a / 0x10000, (n - 1) as nat)
    }
}

/// `s` folded to 16 bits: the carries above bit 16 added back in until
/// none is left.
pub open spec fn fold16(s: nat) -> nat
    decreases s,
{
    if s < 0x10000 {
        s
    } else {
        proof {
            assert(s / 0x10000 + s % 0x10000 < s) by (nonlinear_arith)
                requires
                    s >= 0x10000,
            ;
        }
        fold16(s / 0x10000 + s % 0x10000)
    }
}

/// The Internet checksum of a sum of words: the ones' complement of the
/// sum folded to 16 bits.
pub open spec fn ones_complement(sum: nat) -> u16 {
    (0xffff - fold16(sum)) as u16
}

/// The ICMPv6 checksum of the message `packet` sent from `source` to
/// `destination`, as `pnet::packet::icmpv6::checksum` computes it: over
/// the pseudo-header (both addresses, the next header 58 and the length of
/// the message) and the words of the message, its checksum word left out.
pub open spec fn checksum_v6_of(packet: Seq<u8>, source: u128, destination: u128) -> u16 {
    ones_complement(
        address_word_sum(source as nat, 8) + address_word_sum(destination as nat, 8) + 58 + packet.len()
            + be_word_sum(packet, 1, 0),
    )
}

/// The ICMP (v4) checksum of the message `packet`, as
/// `pnet::packet::icmp::checksum` computes it: over the words of the
/// message, its checksum word left out (0 for an empty message).
pub open spec fn checksum_v4_of(packet: Seq<u8>) -> u16 {
    if packet.len() == 0 {
        0
    } else {
        ones_complement(be_word_sum(packet, 1, 0))
    }
}

/// An ICMPv6 echo request built with pnet's
/// `icmpv6::echo_request::MutableEchoRequestPacket` on a zeroed buffer of
/// `8 + payload.len()` bytes, setting the type, checksum, identifier,
/// sequence number and payload. The packet's definition in pnet lays these
/// out as `echo_layout` says, the code byte staying 0.
#[verifier::external_body]
fn v6_echo_bytes(msg_type: u8, checksum: u16, identifier: u16, sequence: u16, payload: &[u8]) -> (r: Vec<u8>)
    ensures
        r@ == echo_layout(msg_type, checksum, identifier, sequence, payload@),
{
    let mut buffer = vec![0u8; 8 + payload.len()];
    let mut p = pnet::packet::icmpv6::echo_request::MutableEchoRequestPacket::new(&mut buffer).unwrap();
    p.set_icmpv6_type(pnet::packet::icmpv6::Icmpv6Type(msg_type));
    p.set_checksum(checksum);
    p.set_identifier(identifier);
    p.set_sequence_number(sequence);
    p.set_payload(payload);
    buffer
}

/// An ICMP (v4) echo request built with pnet's
/// `icmp::echo_request::MutableEchoRequestPacket` in the same way; the
/// packet's definition lays it out as `echo_layout` says.
#[verifier::external_body]
fn v4_echo_bytes(msg_type: u8, checksum: u16, identifier: u16, sequence: u16, payload: &[u8]) -> (r: Vec<u8>)
    ensures
        r@ == echo_layout(msg_type, checksum, identifier, sequence, payload@),
{
    let mut buffer = vec![0u8; 8 + payload.len()];
    let mut p = pnet::packet::icmp::echo_request::MutableEchoRequestPacket::new(&mut buffer).unwrap();
    p.set_icmp_type(pnet::packet::icmp::IcmpType(msg_type));
    p.set_checksum(checksum);
    p.set_identifier(identifier);
    p.set_sequence_number(sequence);
    p.set_payload(payload);
    buffer
}

/// `pnet::packet::icmpv6::checksum` of the message `packet` from `source`
/// to `destination` (`Icmpv6Packet::new` needs at least 4 bytes; a message
/// of at most 65535 bytes keeps pnet's `u32` sum from overflowing).
#[verifier::external_body]
fn checksum_v6(packet: &[u8], source: u128, destination: u128) -> (r: u16)
    requires
        4 <= packet@.len() <= 0xffff,
    ensures
        r == checksum_v6_of(packet@, source, destination),
{
    let p = pnet::packet::icmpv6::Icmpv6Packet::new(packet).unwrap();
    pnet::packet::icmpv6::checksum(&p, &source.into(), &destination.into())
}

/// `pnet::packet::icmp::checksum` of the message `packet`
/// (`IcmpPacket::new` needs at least 4 bytes; a message of at most 65535
/// bytes keeps pnet's `u32` sum from overflowing).
#[verifier::external_body]
fn checksum_v4(packet: &[u8]) -> (r: u16)
    requires
        4 <= packet@.len() <= 0xffff,
    ensures
        r == checksum_v4_of(packet@),
{
    let p = pnet::packet::icmp::IcmpPacket::new(packet).unwrap();
    pnet::packet::icmp::checksum(&p)
}

/// An ICMPv6 echo request from `source` to `target`: the message is laid
/// out with a zero checksum, its checksum is computed, and the message is
/// laid out again with that checksum. The message fits the 65535 bytes of
/// an IPv6 payload.
pub fn echo_request_v6(
    msg_type: u8,
    identifier: u16,
    sequence: u16,
    payload: &[u8],
    source: u128,
    target: u128,
) -> (r: Vec<u8>)
    requires
        payload@.len() <= 0xffff - 8,
    ensures
        r@ == echo_layout(
            msg_type,
            checksum_v6_of(echo_layout(msg_type, 0, identifier, sequence, payload@), source, target),
            identifier,
            sequence,
            payload@,
        ),
{
    let unchecked = v6_echo_bytes(msg_type, 0, identifier, sequence, payload);
    let checksum = checksum_v6(unchecked.as_slice(), source, target);
    v6_echo_bytes(msg_type, checksum, identifier, sequence, payload)
}

/// An ICMP (v4) echo request, checksummed in the same way.
pub fn echo_request_v4(msg_type: u8, identifier: u16, sequence: u16, payload: &[u8]) -> (r: Vec<u8>)
    requires
        payload@.len() <= 0xffff - 8,
    ensures
        r@ == echo_layout(
            msg_type,
            checksum_v4_of(echo_layout(msg_type, 0, identifier, sequence, payload@)),
            identifier,
            sequence,
            payload@,
        ),
{
    let unchecked = v4_echo_bytes(msg_type, 0, identifier, sequence, payload);
    let checksum = checksum_v4(unchecked.as_slice());
    v4_echo_bytes(msg_type, checksum, identifier, sequence, payload)
}

/// `PAYLOAD_SIZE` zero bytes.
pub open spec fn zero_payload() -> Seq<u8> {
    Seq::new(PAYLOAD_SIZE as nat, |i: int| 0u8)
}

/// `PAYLOAD_SIZE` bytes starting with `now_ms` (big-endian), the rest 0.
pub open spec fn timestamp_payload_spec(now_ms: u32) -> Seq<u8> {
    Seq::new(
        PAYLOAD_SIZE as nat,
        |i: int|
            if i == 0 {
                (now_ms / 0x100_0000) as u8
            } else if i == 1 {
                ((now_ms / 0x1_0000) % 256) as u8
            } else if i == 2 {
                ((now_ms / 256) % 256) as u8
            } else if i == 3 {
                (now_ms % 256) as u8
            } else {
                0u8
            },
    )
}

/// The payload of a probe: a millisecond timestamp, then zeros.
pub fn timestamp_payload(now_ms: u32) -> (r: Vec<u8>)
    ensures
        r@ == timestamp_payload_spec(now_ms),
{
    let mut r: Vec<u8> = Vec::new();
    r.push((now_ms / 0x100_0000) as u8);
    r.push(((now_ms / 0x1_0000) % 256) as u8);
    r.push(((now_ms / 256) % 256) as u8);
    r.push((now_ms % 256) as u8);
    let mut i: usize = 4;
    while i < PAYLOAD_SIZE
        invariant
            4 <= i <= PAYLOAD_SIZE,
            r@ == timestamp_payload_spec(now_ms).take(i as int),
        decreases PAYLOAD_SIZE - i,
    {
        r.push(0u8);
        i = i + 1;
        assert(r@ =~= timestamp_payload_spec(now_ms).take(i as int));
    }
    assert(timestamp_payload_spec(now_ms).take(PAYLOAD_SIZE as int) =~= timestamp_payload_spec(now_ms));
    r
}

/// The discovery message sent from `source` to all nodes of the link: an
/// ICMPv6 echo request with the probe identifier, sequence number 0 and a
/// payload of zeros.
pub fn discovery_request(source: u128) -> (r: Vec<u8>)
    ensures
        r@ == echo_layout(
            ECHO_REQUEST_V6,
            checksum_v6_of(
                echo_layout(ECHO_REQUEST_V6, 0, PROBE_IDENTIFIER, 0, zero_payload()),
                source,
                ALL_NODES_MULTICAST,
            ),
            PROBE_IDENTIFIER,
            0,
            zero_payload(),
        ),
{
    let payload = zeros(PAYLOAD_SIZE);
    echo_request_v6(ECHO_REQUEST_V6, PROBE_IDENTIFIER, 0, payload.as_slice(), source, ALL_NODES_MULTICAST)
}

/// `n` zero bytes.
fn zeros(n: usize) -> (r: Vec<u8>)
    ensures
        r@ == Seq::new(n as nat, |i: int| 0u8),
{
    let mut r: Vec<u8> = Vec::new();
    let mut i: usize = 0;
    while i < n
        invariant
            0 <= i <= n,
            r@ == Seq::new(i as nat, |k: int| 0u8),
        decreases n - i,
    {
        r.push(0u8);
        i = i + 1;
        assert(r@ =~= Seq::new(i as nat, |k: int| 0u8));
    }
    r
}

/// The ICMPv6 probe of a scan, from `source` to `target`: an echo request
/// (type 128) with the probe identifier, sequence number 0 and a timestamp
/// payload.
pub fn probe_request_v6(source: u128, target: u128, now_ms: u32) -> (r: Vec<u8>)
    ensures
        r@ == echo_layout(
            ECHO_REQUEST_V6,
            checksum_v6_of(
                echo_layout(ECHO_REQUEST_V6, 0, PROBE_IDENTIFIER, 0, timestamp_payload_spec(now_ms)),
                source,
                target,
            ),
            PROBE_IDENTIFIER,
            0,
            timestamp_payload_spec(now_ms),
        ),
{
    let payload = timestamp_payload(now_ms);
    echo_request_v6(ECHO_REQUEST_V6, PROBE_IDENTIFIER, 0, payload.as_slice(), source, target)
}

/// The ICMP (v4) probe of a scan: an echo request with the probe
/// identifier, sequence number 0 and a timestamp payload.
pub fn probe_request_v4(now_ms: u32) -> (r: Vec<u8>)
    ensures
        r@ == echo_layout(
            ECHO_REQUEST_V4,
            checksum_v4_of(echo_layout(ECHO_REQUEST_V4, 0, PROBE_IDENTIFIER, 0, timestamp_payload_spec(now_ms))),
            PROBE_IDENTIFIER,
            0,
            timestamp_payload_spec(now_ms),
        ),
{
    let payload = timestamp_payload(now_ms);
    echo_request_v4(ECHO_REQUEST_V4, PROBE_IDENTIFIER, 0, payload.as_slice())
}

// ---------------------------------------------------------------------------
// Echo replies
// ---------------------------------------------------------------------------

/// The fields of an echo reply: type, identifier and payload.
#[derive(Debug)]
pub struct EchoFields {
    pub msg_type: u8,
    pub identifier: u16,
    pub payload: Vec<u8>,
}

/// The fields of `packet` read as an echo message: `None` when it is
/// shorter than the 8-byte header.
pub open spec fn echo_fields_ok(packet: Seq<u8>, r: Option<EchoFields>) -> bool {
    if packet.len() < 8 {
        r is None
    } else {
        r matches Some(f) && f.msg_type == packet[0] && f.identifier == packet[4] as int * 256
            + packet[5] as int && f.payload@ == packet.subrange(8, packet.len() as int)
    }
}

/// The fields of an ICMPv6 echo reply, read with pnet's
/// `icmpv6::echo_reply::EchoReplyPacket` (which needs 8 bytes); the
/// packet's definition places them as `echo_layout` says.
#[verifier::external_body]
fn v6_echo_fields(packet: &[u8]) -> (r: Option<EchoFields>)
    ensures
        echo_fields_ok(packet@, r),
{
    match pnet::packet::icmpv6::echo_reply::EchoReplyPacket::new(packet) {
        Some(p) => Some(EchoFields { msg_type: p.get_icmpv6_type().0, identifier: p.get_identifier(), payload: p.payload().to_vec() }),
        None => None,
    }
}

/// The fields of an ICMP (v4) echo reply, read with pnet's
/// `icmp::echo_reply::EchoReplyPacket` in the same way.
#[verifier::external_body]
fn v4_echo_fields(packet: &[u8]) -> (r: Option<EchoFields>)
    ensures
        echo_fields_ok(packet@, r),
{
    match pnet::packet::icmp::echo_reply::EchoReplyPacket::new(packet) {
        Some(p) => Some(EchoFields { msg_type: p.get_icmp_type().0, identifier: p.get_identifier(), payload: p.payload().to_vec() }),
        None => None,
    }
}

/// Whether an ICMPv6 message received during discovery answers it: an echo
/// reply carrying the probe identifier.
pub fn is_discovery_reply(packet: &[u8]) -> (r: bool)
    ensures
        r == (packet@.len() >= 8 && packet@[0] == ECHO_REPLY_V6 && packet@[4] as int * 256
            + packet@[5] as int == PROBE_IDENTIFIER),
{
    match v6_echo_fields(packet) {
        Some(f) => f.msg_type == ECHO_REPLY_V6 && f.identifier == PROBE_IDENTIFIER,
        None => false,
    }
}

/// The big-endian `u32` of the first four bytes of `p`.
pub open spec fn be32(p: Seq<u8>) -> nat {
    ((p[0] as nat * 256 + p[1] as nat) * 256 + p[2] as nat) * 256 + p[3] as nat
}

/// The round-trip time that an echo reply to a probe gives, `now_ms` being
/// the current timestamp: `now_ms` less the timestamp in the payload, or 0
/// when the timestamp is later. `None` for a reply that does not carry the
/// probe identifier or has an empty payload, or (with `want_type`) is not of
/// the type wanted.
pub open spec fn reply_rtt(packet: Seq<u8>, want_type: Option<u8>, now_ms: u32) -> Option<u32> {
    if packet.len() < 8 || packet[4] as int * 256 + packet[5] as int != PROBE_IDENTIFIER || (
    want_type matches Some(t) && packet[0] != t) || packet.len() == 8 {
        None
    } else {
        let sent = be32(packet.subrange(8, packet.len() as int));
        Some(if now_ms >= sent {
            (now_ms - sent) as u32
        } else {
            0u32
        })
    }
}

/// A payload that is empty or holds a whole timestamp.
pub open spec fn payload_fits_timestamp(packet: Seq<u8>) -> bool {
    packet.len() <= 8 || packet.len() >= 12
}

/// An echo message that answers a probe: a whole header carrying the probe
/// identifier and (with `want_type`) of the type wanted. Its payload is
/// read as a timestamp.
pub open spec fn is_probe_reply(packet: Seq<u8>, want_type: Option<u8>) -> bool {
    &&& packet.len() >= 8
    &&& packet[4] as int * 256 + packet[5] as int == PROBE_IDENTIFIER
    &&& !(want_type matches Some(t) && packet[0] != t)
}

/// Whether `packet` answers a probe (an ICMP (v4) echo reply when `v4`,
/// any ICMPv6 echo message otherwise) but carries a payload too short for
/// its timestamp, which the reader of the reply cannot take.
pub fn reply_payload_too_short(packet: &[u8], v4: bool) -> (r: bool)
    ensures
        r == (is_probe_reply(packet@, if v4 {
            Some(ECHO_REPLY_V4)
        } else {
            None
        }) && !payload_fits_timestamp(packet@)),
{
    if packet.len() < 8 || packet.len() > 8 && packet.len() >= 12 || packet.len() == 8 {
        return false;
    }
    let id: u16 = packet[4] as u16 * 256 + packet[5] as u16;
    id == PROBE_IDENTIFIER && (!v4 || packet[0] == ECHO_REPLY_V4)
}

/// The round-trip time of an ICMPv6 reply to a scan probe (of any type).
pub fn probe_reply_rtt_v6(packet: &[u8], now_ms: u32) -> (r: Option<u32>)
    requires
        is_probe_reply(packet@, None) ==> payload_fits_timestamp(packet@),
    ensures
        r == reply_rtt(packet@, None, now_ms),
{
    match v6_echo_fields(packet) {
        Some(f) => rtt_of(&f, None, now_ms, Ghost(packet@)),
        None => None,
    }
}

/// The round-trip time of an ICMP (v4) echo reply to a scan probe.
pub fn probe_reply_rtt_v4(packet: &[u8], now_ms: u32) -> (r: Option<u32>)
    requires
        is_probe_reply(packet@, Some(ECHO_REPLY_V4)) ==> payload_fits_timestamp(packet@),
    ensures
        r == reply_rtt(packet@, Some(ECHO_REPLY_V4), now_ms),
{
    match v4_echo_fields(packet) {
        Some(f) => rtt_of(&f, Some(ECHO_REPLY_V4), now_ms, Ghost(packet@)),
        None => None,
    }
}

fn rtt_of(f: &EchoFields, want_type: Option<u8>, now_ms: u32, Ghost(packet): Ghost<Seq<u8>>) -> (r: Option<u32>)
    requires
        echo_fields_ok(packet, Some(*f)),
        is_probe_reply(packet, want_type) ==> payload_fits_timestamp(packet),
    ensures
        r == reply_rtt(packet, want_type, now_ms),
{
    if f.identifier != PROBE_IDENTIFIER {
        return None;
    }
    match want_type {
        Some(t) => if f.msg_type != t {
            return None;
        },
        None => {},
    }
    assert(f.payload@ == packet.subrange(8, packet.len() as int));
    rtt_from_payload(&f.payload, now_ms)
}

/// `now_ms` less the timestamp at the start of `payload` (0 when the
/// timestamp is later), or `None` for an empty payload.
fn rtt_from_payload(payload: &Vec<u8>, now_ms: u32) -> (r: Option<u32>)
    requires
        payload@.len() == 0 || payload@.len() >= 4,
    ensures
        payload@.len() == 0 ==> r is None,
        payload@.len() > 0 ==> r == Some(
            if now_ms >= be32(payload@) {
                (now_ms - be32(payload@)) as u32
            } else {
                0u32
            },
        ),
{
    if payload.len() == 0 {
        return None;
    }
    let sent: u64 = ((payload[0] as u64 * 256 + payload[1] as u64) * 256 + payload[2] as u64) * 256
        + payload[3] as u64;
    if (now_ms as u64) >= sent {
        Some((now_ms as u64 - sent) as u32)
    } else {
        Some(0)
    }
}

// ---------------------------------------------------------------------------
// Gathering the hosts found
// ---------------------------------------------------------------------------

/// `s` is in strictly increasing order.
pub open spec fn strictly_increasing(s: Seq<u128>) -> bool {
    forall|i: int, j: int| 0 <= i < j < s.len() ==> #[trigger] s[i] < #[trigger] s[j]
}

/// The distinct addresses of `addrs`, in increasing order.
pub fn sorted_distinct(addrs: &Vec<u128>) -> (r: Vec<u128>)
    ensures
        strictly_increasing(r@),
        r@.to_set() == addrs@.to_set(),
{
    let mut out: Vec<u128> = Vec::new();
    let mut i: usize = 0;
    while i < addrs.len()
        invariant
            0 <= i <= addrs.len(),
            strictly_increasing(out@),
            out@.to_set() == addrs@.take(i as int).to_set(),
        decreases addrs.len() - i,
    {
        let a = addrs[i];
        let ghost before = out@;
        assert(addrs@.take(i + 1) =~= addrs@.take(i as int).push(a));
        insert_sorted(&mut out, a);
        proof {
            addrs@.take(i as int).lemma_push_to_set_commute(a);
        }
        i = i + 1;
    }
    assert(addrs@.take(addrs.len() as int) =~= addrs@);
    out
}

/// Puts `a` into the increasing list `v`, unless it is there already.
fn insert_sorted(v: &mut Vec<u128>, a: u128)
    requires
        strictly_increasing(old(v)@),
    ensures
        strictly_increasing(final(v)@),
        final(v)@.to_set() == old(v)@.to_set().insert(a),
{
    let mut k: usize = 0;
    while k < v.len() && v[k] < a
        invariant
            0 <= k <= v.len(),
            v@ == old(v)@,
            forall|j: int| 0 <= j < k ==> #[trigger] v@[j] < a,
        decreases v.len() - k,
    {
        k = k + 1;
    }
    if k < v.len() && v[k] == a {
        assert(v@.to_set() =~= v@.to_set().insert(a)) by {
            assert(v@.contains(a));
        }
        return;
    }
    let ghost before = v@;
    v.insert(k, a);
    proof {
        assert(v@ =~= before.subrange(0, k as int).push(a) + before.subrange(k as int, before.len() as int));
        assert forall|i: int, j: int| 0 <= i < j < v@.len() implies #[trigger] v@[i] < #[trigger] v@[j] by {
            if j < k {
                assert(v@[i] == before[i] && v@[j] == before[j]);
            } else if j == k {
                assert(v@[i] == before[i]);
            } else if i < k {
                assert(v@[i] == before[i] && v@[j] == before[j - 1]);
            } else if i == k {
                assert(v@[j] == before[j - 1]);
                assert(before[k as int] > a);
                if j - 1 > k {
                    assert(before[k as int] < before[j - 1]);
                }
            } else {
                assert(v@[i] == before[i - 1] && v@[j] == before[j - 1]);
            }
        }
        assert forall|x: u128| v@.to_set().contains(x) <==> before.to_set().insert(a).contains(x) by {
            if v@.to_set().contains(x) {
                let i = choose|i: int| 0 <= i < v@.len() && v@[i] == x;
                if i < k {
                    assert(before[i] == x);
                } else if i > k {
                    assert(before[i - 1] == x);
                }
            }
            if before.to_set().contains(x) {
                let i = choose|i: int| 0 <= i < before.len() && before[i] == x;
                if i < k {
                    assert(v@[i] == x);
                } else {
                    assert(v@[i + 1] == x);
                }
            }
            if x == a {
                assert(v@[k as int] == a);
            }
        }
        assert(v@.to_set() =~= before.to_set().insert(a));
    }
}

/// Why discovery found nothing to scan.
#[derive(Debug, Clone, Copy, PartialEq, Eq, Structural)]
pub enum DiscoveryError {
    /// No interface is up, not the loopback one, and has an IPv6 address.
    NoInterfaces,
}

/// The hosts found on the interfaces where discovery worked (`None` for an
/// interface where it failed).
pub open spec fn found_set(results: Seq<Option<Vec<u128>>>) -> Set<u128>
    decreases results.len(),
{
    if results.len() == 0 {
        Set::empty()
    } else {
        found_set(results.drop_last()) + match results.last() {
            Some(v) => v@.to_set(),
            None => Set::empty(),
        }
    }
}

/// Gathers what discovery found on each usable interface (`None` for one
/// where it failed, which is passed over): the distinct hosts, in
/// increasing order. Fails when there was no usable interface.
pub fn combine_interface_results(results: &Vec<Option<Vec<u128>>>) -> (r: Result<Vec<u128>, DiscoveryError>)
    ensures
        results@.len() == 0 ==> r == Err::<Vec<u128>, DiscoveryError>(DiscoveryError::NoInterfaces),
        results@.len() > 0 ==> (r matches Ok(v) && strictly_increasing(v@) && v@.to_set() == found_set(results@)),
{
    if results.len() == 0 {
        return Err(DiscoveryError::NoInterfaces);
    }
    let mut all: Vec<u128> = Vec::new();
    let mut k: usize = 0;
    assert(all@.to_set() =~= Set::<u128>::empty());
    while k < results.len()
        invariant
            0 <= k <= results.len(),
            all@.to_set() == found_set(results@.take(k as int)),
        decreases results.len() - k,
    {
        let ghost before = all@;
        assert(results@.take(k + 1).drop_last() =~= results@.take(k as int));
        match &results[k] {
            Some(hosts) => {
                let mut j: usize = 0;
                assert(hosts@.take(0).to_set() =~= Set::<u128>::empty());
                assert(all@.to_set() =~= before.to_set() + hosts@.take(0).to_set());
                while j < hosts.len()
                    invariant
                        0 <= j <= hosts.len(),
                        all@.to_set() == before.to_set() + hosts@.take(j as int).to_set(),
                    decreases hosts.len() - j,
                {
                    let x = hosts[j];
                    let ghost b2 = all@;
                    all.push(x);
                    proof {
                        b2.lemma_push_to_set_commute(x);
                        assert(hosts@.take(j + 1) =~= hosts@.take(j as int).push(x));
                        hosts@.take(j as int).lemma_push_to_set_commute(x);
                        assert(all@.to_set() =~= before.to_set() + hosts@.take(j + 1).to_set());
                    }
                    j = j + 1;
                }
                assert(hosts@.take(hosts.len() as int) =~= hosts@);
            },
            None => {
                assert(all@.to_set() =~= found_set(results@.take(k + 1)));
            },
        }
        k = k + 1;
    }
    assert(results@.take(results.len() as int) =~= results@);
    let r = sorted_distinct(&all);
    Ok(r)
}

// ---------------------------------------------------------------------------
// What a scan command runs
// ---------------------------------------------------------------------------

/// The kinds of scan.
#[derive(Debug, Clone, Copy, PartialEq, Eq, Structural)]
pub enum ScanType {
    Icmpv4,
    Icmpv6,
    LinkLocal,
}

/// What a scan target was read as.
#[derive(Debug, Clone, Copy, PartialEq, Eq, Structural)]
pub enum ParsedTarget {
    /// A single address.
    SingleIp,
    /// An IPv4 network.
    Network4,
    /// An IPv6 network.
    Network6,
    /// A host name and the addresses it resolves to.
    Hostname,
}

/// What a scan command does.
#[derive(Debug, Clone, Copy, PartialEq, Eq, Structural)]
pub enum ScanPlan {
    /// Probe the hosts of the IPv4 network.
    ProbeNetwork4,
    /// Probe the hosts of the IPv6 network.
    ProbeNetwork6,
    /// Discover the hosts on the links.
    DiscoverLinkLocal,
}

/// An IP address as plain values.
#[derive(Debug, Clone, Copy, PartialEq, Eq, Structural)]
pub enum IpValue {
    V4(u32),
    V6(u128),
}

/// A scan target as read: a single address; a network given by whether it
/// is IPv6, its address and its prefix length; or a host name with the
/// addresses it resolves to.
#[derive(Debug, Clone, PartialEq, Eq)]
pub enum TargetValue {
    SingleIp(IpValue),
    Network { is_v6: bool, addr: u128, prefix_len: u8 },
    Hostname { name: String, addresses: Vec<IpValue> },
}

/// Why a scan target could not be read.
#[derive(Debug, Clone, Copy, PartialEq, Eq, Structural)]
pub enum TargetError {
    /// The text is neither an address nor a network: a host name, which
    /// the caller resolves (see `resolved_target`).
    Unresolved,
    /// A host name resolved to no address.
    NoAddressFound,
}

/// What `ipnet` reads from the text of a network (`IpNet`'s `FromStr`):
/// whether it is IPv6, its address and its prefix length; `None` when the
/// text is no network.
pub uninterp spec fn ipnet_reading(text: Seq<char>) -> Option<(bool, u128, u8)>;

/// Reads `text` as an `ipnet::IpNet`. The prefix length that ipnet accepts
/// is at most 32 for IPv4 and 128 for IPv6, and an IPv4 address fits in 32
/// bits.
#[verifier::external_body]
fn read_network(text: &str) -> (r: Option<(bool, u128, u8)>)
    ensures
        r == ipnet_reading(text@),
        r matches Some((v6, a, l)) ==> if v6 {
            l <= 128
        } else {
            l <= 32 && a < 0x1_0000_0000
        },
{
    match text.parse::<ipnet::IpNet>() {
        Ok(ipnet::IpNet::V4(n)) => Some((false, u32::from(n.addr()) as u128, n.prefix_len())),
        Ok(ipnet::IpNet::V6(n)) => Some((true, u128::from(n.addr()), n.prefix_len())),
        Err(_) => None,
    }
}

/// Reads a scan target: the address `address` when the text was read as
/// one (by the caller), else the network that ipnet reads from `text`.
pub fn parse_target(text: &str, address: Option<IpValue>) -> (r: Result<TargetValue, TargetError>)
    ensures
        address matches Some(a) ==> r == Ok::<TargetValue, TargetError>(TargetValue::SingleIp(a)),
        address is None ==> r == match ipnet_reading(text@) {
            Some(n) => Ok((TargetValue::Network { is_v6: n.0, addr: n.1, prefix_len: n.2 })),
            None => Err(TargetError::Unresolved),
        },
{
    if let Some(a) = address {
        return Ok(TargetValue::SingleIp(a));
    }
    match read_network(text) {
        Some((is_v6, addr, prefix_len)) => Ok(TargetValue::Network { is_v6, addr, prefix_len }),
        None => Err(TargetError::Unresolved),
    }
}

/// The target named by the host name `name`, which resolved (by the
/// caller's resolver) to `addresses`; a name with no address is refused.
pub fn resolved_target(name: &str, addresses: Vec<IpValue>) -> (r: Result<TargetValue, TargetError>)
    ensures
        addresses@.len() == 0 ==> r == Err::<TargetValue, TargetError>(TargetError::NoAddressFound),
        addresses@.len() > 0 ==> (r matches Ok(TargetValue::Hostname { name: n, addresses: a }) && n@ == name@
            && a@ == addresses@),
{
    if addresses.len() == 0 {
        return Err(TargetError::NoAddressFound);
    }
    Ok(TargetValue::Hostname { name: name.to_owned(), addresses })
}

/// What a target was read as, for planning a scan.
pub fn target_kind(t: &TargetValue) -> (r: ParsedTarget)
    ensures
        r == match t {
            TargetValue::SingleIp(_) => ParsedTarget::SingleIp,
            TargetValue::Network { is_v6: false, .. } => ParsedTarget::Network4,
            TargetValue::Network { is_v6: true, .. } => ParsedTarget::Network6,
            TargetValue::Hostname { .. } => ParsedTarget::Hostname,
        },
{
    match t {
        TargetValue::SingleIp(_) => ParsedTarget::SingleIp,
        TargetValue::Network { is_v6: false, .. } => ParsedTarget::Network4,
        TargetValue::Network { is_v6: true, .. } => ParsedTarget::Network6,
        TargetValue::Hostname { .. } => ParsedTarget::Hostname,
    }
}

/// Why a scan command was refused.
#[derive(Debug, Clone, Copy, PartialEq, Eq, Structural)]
pub enum ScanError {
    /// No target was given for a scan that needs one.
    TargetRequired,
    /// The scan type cannot be run on the target.
    Unsupported,
}

/// What a scan of type `scan_type` does with the target as read (`None`
/// when no target was given). A link-local scan needs no target: it
/// discovers the hosts on the links whatever target is given.
pub fn plan_scan(scan_type: ScanType, target: Option<ParsedTarget>) -> (r: Result<ScanPlan, ScanError>)
    ensures
        r == match (scan_type, target) {
            (ScanType::LinkLocal, _) => Ok(ScanPlan::DiscoverLinkLocal),
            (_, None) => Err(ScanError::TargetRequired),
            (ScanType::Icmpv4, Some(ParsedTarget::Network4)) => Ok(ScanPlan::ProbeNetwork4),
            (ScanType::Icmpv6, Some(ParsedTarget::Network6)) => Ok(ScanPlan::ProbeNetwork6),
            _ => Err(ScanError::Unsupported),
        },
{
    match (scan_type, target) {
        (ScanType::LinkLocal, _) => Ok(ScanPlan::DiscoverLinkLocal),
        (_, None) => Err(ScanError::TargetRequired),
        (ScanType::Icmpv4, Some(ParsedTarget::Network4)) => Ok(ScanPlan::ProbeNetwork4),
        (ScanType::Icmpv6, Some(ParsedTarget::Network6)) => Ok(ScanPlan::ProbeNetwork6),
        _ => Err(ScanError::Unsupported),
    }
}


// ---------------------------------------------------------------------------
// The hosts of a network
// ---------------------------------------------------------------------------

/// The lowest address of the IPv4 network `net/len`.
pub open spec fn v4_network(net: u32, len: u8) -> nat {
    (net as nat / pow2((32 - len) as nat)) * pow2((32 - len) as nat)
}

/// The highest address of the IPv4 network `net/len`.
pub open spec fn v4_broadcast(net: u32, len: u8) -> nat {
    (v4_network(net, len) + pow2((32 - len) as nat) - 1) as nat
}

/// The lowest address of the IPv6 network `net/len`.
pub open spec fn v6_network(net: u128, len: u8) -> nat {
    (net as nat / pow2((128 - len) as nat)) * pow2((128 - len) as nat)
}

/// The highest address of the IPv6 network `net/len`.
pub open spec fn v6_broadcast(net: u128, len: u8) -> nat {
    (v6_network(net, len) + pow2((128 - len) as nat) - 1) as nat
}

/// The first and last host of the IPv4 network `net/len`, as
/// `ipnet::Ipv4Net::hosts` yields them: from the network address to the
/// broadcast address, both left out when the prefix is shorter than 31.
#[verifier::external_body]
fn ipv4_host_range(net: u32, len: u8) -> (r: (u32, u32))
    requires
        len <= 32,
    ensures
        len < 31 ==> r.0 == v4_network(net, len) + 1 && r.1 == v4_broadcast(net, len) - 1,
        len >= 31 ==> r.0 == v4_network(net, len) && r.1 == v4_broadcast(net, len),
{
    let mut hosts = Ipv4Net::new_assert(net.into(), len).hosts();
    let first = hosts.next().unwrap();
    let last = hosts.next_back().unwrap_or(first);
    (first.into(), last.into())
}

/// The first and last host of the IPv6 network `net/len`, as
/// `ipnet::Ipv6Net::hosts` yields them: from the network address to the
/// broadcast address.
#[verifier::external_body]
fn ipv6_host_range(net: u128, len: u8) -> (r: (u128, u128))
    requires
        len <= 128,
    ensures
        r.0 == v6_network(net, len),
        r.1 == v6_broadcast(net, len),
{
    let mut hosts = Ipv6Net::new_assert(net.into(), len).hosts();
    let first = hosts.next().unwrap();
    let last = hosts.next_back().unwrap_or(first);
    (first.into(), last.into())
}

/// The range of hosts an ICMPv4 scan of `net/len` probes, first and last
/// included.
pub fn scan_range_v4(net: u32, len: u8) -> (r: (u32, u32))
    requires
        len <= 32,
    ensures
        len < 31 ==> r.0 == v4_network(net, len) + 1 && r.1 == v4_broadcast(net, len) - 1,
        len >= 31 ==> r.0 == v4_network(net, len) && r.1 == v4_broadcast(net, len),
{
    ipv4_host_range(net, len)
}

/// The range of hosts an ICMPv6 scan of `net/len` probes, first and last
/// included: every address of the network.
pub fn scan_range_v6(net: u128, len: u8) -> (r: (u128, u128))
    requires
        len <= 128,
    ensures
        r.0 == v6_network(net, len),
        r.1 == v6_broadcast(net, len),
{
    ipv6_host_range(net, len)
}

/// Whether progress is reported after sending the `sent`-th probe: every
/// 50 probes.
pub fn report_progress(sent: usize) -> (r: bool)
    ensures
        r == (sent % 50 == 0),
{
    sent % 50 == 0
}

} // verus!
