//! The sixteen octets of an address and the integer they spell.

use vstd::prelude::*;

verus! {

/// The integer whose big-endian bytes are `b`.
pub open spec fn be_value(b: Seq<u8>) -> nat
    decreases b.len(),
{
    if b.len() == 0 {
        0
    } else {
        be_value(b.drop_last()) * 256 + b.last() as nat
    }
}

/// `b` spells a number below `256^n`, `n` being its length.
pub proof fn lemma_be_value_bound(b: Seq<u8>)
    ensures
        be_value(b) < vstd::arithmetic::power::pow(256, b.len()),
    decreases b.len(),
{
    vstd::arithmetic::power::lemma_pow_positive(256, b.len());
    if b.len() > 0 {
        let p = b.drop_last();
        lemma_be_value_bound(p);
        vstd::arithmetic::power::lemma_pow_adds(256, p.len(), 1);
        vstd::arithmetic::power::lemma_pow1(256);
        let q = vstd::arithmetic::power::pow(256, p.len());
        assert(be_value(p) * 256 + b.last() < q * 256) by (nonlinear_arith)
            requires
                be_value(p) < q,
                b.last() < 256,
        ;
    }
}

/// Two byte strings of one length that spell the same number are equal.
pub proof fn lemma_be_value_injective(a: Seq<u8>, b: Seq<u8>)
    requires
        a.len() == b.len(),
        be_value(a) == be_value(b),
    ensures
        a == b,
    decreases a.len(),
{
    if a.len() > 0 {
        let pa = a.drop_last();
        let pb = b.drop_last();
        let x = be_value(pa);
        let y = be_value(pb);
        let u = a.last() as int;
        let v = b.last() as int;
        assert(u == v && x == y) by (nonlinear_arith)
            requires
                x * 256 + u == y * 256 + v,
                0 <= u < 256,
                0 <= v < 256,
                x >= 0,
                y >= 0,
        ;
        lemma_be_value_injective(pa, pb);
        assert(a =~= pa.push(a.last()));
        assert(b =~= pb.push(b.last()));
    }
}

/// `256^16 == 2^128`.
pub proof fn lemma_pow256_16()
    ensures
        vstd::arithmetic::power::pow(256, 16) == 0x1_0000_0000_0000_0000_0000_0000_0000_0000,
{
    vstd::arithmetic::power::lemma_pow1(256);
    vstd::arithmetic::power::lemma_pow_adds(256, 1, 1);
    assert(vstd::arithmetic::power::pow(256, 2) == 0x1_0000);
    vstd::arithmetic::power::lemma_pow_adds(256, 2, 2);
    assert(vstd::arithmetic::power::pow(256, 4) == 0x1_0000_0000);
    vstd::arithmetic::power::lemma_pow_adds(256, 4, 4);
    assert(vstd::arithmetic::power::pow(256, 8) == 0x1_0000_0000_0000_0000);
    vstd::arithmetic::power::lemma_pow_adds(256, 8, 8);
}

/// The integer spelled by the octets `b` (`u128::from_be_bytes`).
pub fn octets_key(b: &[u8; 16]) -> (r: u128)
    ensures
        r == be_value(b@),
{
    let mut acc: u128 = 0;
    let mut i: usize = 0;
    while i < 16
        invariant
            0 <= i <= 16,
            b@.len() == 16,
            acc == be_value(b@.take(i as int)),
        decreases 16 - i,
    {
        proof {
            assert(b@.take(i + 1).drop_last() =~= b@.take(i as int));
            lemma_be_value_bound(b@.take(i + 1));
            vstd::arithmetic::power::lemma_pow_increases(256, (i + 1) as nat, 16);
            lemma_pow256_16();
        }
        acc = acc * 256 + b[i] as u128;
        i = i + 1;
    }
    assert(b@.take(16) =~= b@);
    acc
}

/// The octets of `x` (`u128::to_be_bytes`).
pub fn octets_of(x: u128) -> (r: [u8; 16])
    ensures
        be_value(r@) == x,
{
    let mut r: [u8; 16] = [0u8; 16];
    let mut rest: u128 = x;
    let mut i: usize = 16;
    proof {
        vstd::arithmetic::power::lemma_pow0(256);
        assert(r@.subrange(16, 16) =~= Seq::<u8>::empty());
    }
    while i > 0
        invariant
            0 <= i <= 16,
            r@.len() == 16,
            x == rest * vstd::arithmetic::power::pow(256, (16 - i) as nat) + be_value(r@.subrange(i as int, 16)),
        decreases i,
    {
        let d: u8 = (rest % 256) as u8;
        let ghost old_r = r@;
        let ghost old_rest = rest;
        r[i - 1] = d;
        rest = rest / 256;
        proof {
            let n = (16 - i) as nat;
            let tail_old = old_r.subrange(i as int, 16);
            let tail_new = r@.subrange(i - 1, 16);
            assert(tail_old =~= r@.subrange(i as int, 16));
            assert(tail_new.drop_last() =~= r@.subrange(i - 1, 15));
            vstd::arithmetic::power::lemma_pow_adds(256, 1, n);
            vstd::arithmetic::power::lemma_pow1(256);
            lemma_be_value_bound(tail_old);
            assert(tail_old.len() == n);
            lemma_prepend_be(d, tail_old);
            assert(r@.subrange(i - 1, 16) =~= seq![d] + tail_old);
            let p = vstd::arithmetic::power::pow(256, n);
            assert(x == rest * (256 * p) + (d * p + be_value(tail_old))) by (nonlinear_arith)
                requires
                    x == old_rest * p + be_value(tail_old),
                    old_rest == rest * 256 + d,
            ;
        }
        i = i - 1;
    }
    proof {
        assert(r@.subrange(0, 16) =~= r@);
        vstd::arithmetic::power::lemma_pow_positive(256, 16);
        lemma_be_value_bound(r@);
        lemma_pow256_16();
        assert(rest == 0) by (nonlinear_arith)
            requires
                x == rest * vstd::arithmetic::power::pow(256, 16) + be_value(r@),
                x < vstd::arithmetic::power::pow(256, 16) + 0,
                rest >= 0,
                be_value(r@) >= 0,
        ;
    }
    r
}

/// A byte put in front of a byte string adds its value times the weight of
/// the string's length.
proof fn lemma_prepend_be(d: u8, t: Seq<u8>)
    ensures
        be_value(seq![d] + t) == d * vstd::arithmetic::power::pow(256, t.len()) + be_value(t),
    decreases t.len(),
{
    if t.len() == 0 {
        assert(seq![d] + t =~= seq![d]);
        assert(seq![d].drop_last() =~= Seq::<u8>::empty());
        assert(be_value(Seq::<u8>::empty()) == 0);
        vstd::arithmetic::power::lemma_pow0(256);
    } else {
        let p = t.drop_last();
        lemma_prepend_be(d, p);
        assert((seq![d] + t).drop_last() =~= seq![d] + p);
        assert((seq![d] + t).last() == t.last());
        vstd::arithmetic::power::lemma_pow_adds(256, p.len(), 1);
        vstd::arithmetic::power::lemma_pow1(256);
        let q = vstd::arithmetic::power::pow(256, p.len());
        assert((d * q + be_value(p)) * 256 + t.last() == d * (q * 256) + (be_value(p) * 256 + t.last()))
            by (nonlinear_arith);
    }
}

} // verus!
