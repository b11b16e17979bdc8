//! The address model shared by the whole library, and the calls into
//! `ipnet` and std that turn text into addresses and back.

use vstd::prelude::*;
use ipnet::Ipv6Net;
use vstd::arithmetic::power2::{pow2, lemma_pow2_unfold, lemma2_to64, lemma_pow2_adds};

verus! {

/// The number of addresses in a network of prefix length `len`.
pub open spec fn block_size(len: u8) -> nat {
    pow2((128 - len) as nat)
}

/// `addr` lies in the network `net/len`: it agrees with `net` on the top
/// `len` bits, that is, both fall in the same aligned block of
/// `2^(128 - len)` addresses.
pub open spec fn net_contains(net: u128, len: u8, addr: u128) -> bool {
    addr as nat / block_size(len) == net as nat / block_size(len)
}

/// Whether the network `net/len` contains `addr`.
///
/// Calls `ipnet::Ipv6Net::contains` (its impl for an address) on the
/// network built by `Ipv6Net::new_assert`; the two `u128` arguments are
/// turned into addresses by std's `From<u128>`. ipnet tests
/// `network() <= addr <= broadcast()`, where `network()` clears and
/// `broadcast()` sets the low `128 - len` bits of `net`: the addresses
/// between them are those of the aligned block of `2^(128 - len)`
/// addresses that holds `net`, which is what the contract states.
#[verifier::external_body]
pub(crate) fn prefix_contains(net: u128, len: u8, addr: u128) -> (r: bool)
    requires
        len <= 128,
    ensures
        r == net_contains(net, len, addr),
{
    let network = Ipv6Net::new_assert(net.into(), len);
    let host = Ipv6Net::new_assert(addr.into(), 128).addr();
    network.contains(&host)
}

/// The number of set bits of `x`.
pub open spec fn popcount(x: u128) -> nat
    decreases x,
{
    if x == 0 {
        0
    } else {
        (x % 2) as nat + popcount(x / 2)
    }
}

/// The Hamming distance between two addresses: the number of bits in which
/// they differ.
pub open spec fn hamming(a: u128, b: u128) -> nat {
    popcount(a ^ b)
}

/// 2^128 is one more than the largest `u128`.
pub proof fn lemma_pow2_128()
    ensures
        pow2(128) == 0x1_0000_0000_0000_0000_0000_0000_0000_0000,
        pow2(128) == u128::MAX + 1,
{
    lemma2_to64();
    lemma_pow2_adds(64, 64);
}

/// The number of set bits of `x`.
pub fn count_ones(x: u128) -> (r: u32)
    ensures
        r == popcount(x),
        r <= 128,
{
    let mut v = x;
    let mut c: u32 = 0;
    let ghost mut i: nat = 0;
    proof {
        lemma_pow2_128();
    }
    while v != 0
        invariant
            c as nat + popcount(v) == popcount(x),
            c <= i,
            i <= 128,
            (v as nat) < pow2((128 - i) as nat),
        decreases v,
    {
        proof {
            if i == 128 {
                lemma2_to64();
            }
            lemma_pow2_unfold((128 - i) as nat);
        }
        c = c + (v % 2) as u32;
        v = v / 2;
        proof {
            i = i + 1;
        }
    }
    c
}

/// 2^118, the size of a /10 network.
pub proof fn lemma_pow2_118()
    ensures
        pow2(118) == 0x40_0000_0000_0000_0000_0000_0000_0000,
{
    lemma2_to64();
    lemma_pow2_adds(32, 22);
    assert(pow2(54) == 0x40_0000_0000_0000);
    lemma_pow2_adds(64, 54);
}

/// A /10 network holds 2^118 addresses, and `fe80::` lies in the 0x3fa-th
/// of them.
pub proof fn lemma_block_size_10()
    ensures
        block_size(10) == pow2(118),
        pow2(118) == 0x40_0000_0000_0000_0000_0000_0000_0000,
        0xfe80_0000_0000_0000_0000_0000_0000_0000u128 as nat / pow2(118) == 0x3fa,
{
    lemma_pow2_118();
}

} // verus!
