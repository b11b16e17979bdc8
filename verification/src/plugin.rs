//! The entropy plugin: byte statistics of an address, from which its
//! Shannon entropy is computed.

use vstd::prelude::*;

verus! {

/// The settings of the entropy plugin: when `tail_bytes` is set, only that
/// many bytes at the end of each address are looked at.
#[derive(Debug, Clone, Copy, PartialEq, Eq, Structural)]
pub struct EntropyCfg {
    pub tail_bytes: Option<usize>,
}

/// The bytes of `buf` the plugin looks at: the last `n` of them when
/// `tail_bytes` is `Some(n)` (all when there are fewer), else all.
pub open spec fn examined(buf: Seq<u8>, tail_bytes: Option<usize>) -> Seq<u8> {
    match tail_bytes {
        Some(n) => if buf.len() >= n {
            buf.subrange(buf.len() - n, buf.len() as int)
        } else {
            buf
        },
        None => buf,
    }
}

/// How many bytes of `s` equal `b`.
pub open spec fn byte_count(s: Seq<u8>, b: u8) -> nat
    decreases s.len(),
{
    if s.len() == 0 {
        0
    } else {
        byte_count(s.drop_last(), b) + if s.last() == b {
            1nat
        } else {
            0nat
        }
    }
}

/// The entropy plugin.
#[derive(Debug, Clone, Copy, PartialEq, Eq, Structural)]
pub struct Entropy {
    pub cfg: EntropyCfg,
}

impl Entropy {
    pub const NAME: &'static str = "entropy";
    pub const VERSION: &'static str = "0.1.0";
    pub const ABOUT: &'static str = "Compute Shannon entropy per IPv6 address";

    /// The plugin with settings `cfg`.
    pub fn new(cfg: EntropyCfg) -> (r: Self)
        ensures
            r.cfg == cfg,
    {
        Entropy { cfg }
    }

    /// How many times each byte value occurs among the bytes looked at, and
    /// how many bytes are looked at. The entropy is the sum, over the byte
    /// values that occur, of `-p log2 p` with `p` the count over the total.
    pub fn byte_counts(&self, buf: &[u8]) -> (r: (Vec<u32>, usize))
        requires
            buf@.len() <= u32::MAX,
        ensures
            r.0@.len() == 256,
            r.1 == examined(buf@, self.cfg.tail_bytes).len(),
            forall|b: int| 0 <= b < 256 ==> #[trigger] r.0@[b] == byte_count(examined(buf@, self.cfg.tail_bytes), b as u8),
    {
        let start: usize = match self.cfg.tail_bytes {
            Some(n) => if buf.len() >= n {
                buf.len() - n
            } else {
                0
            },
            None => 0,
        };
        let ghost s = buf@.subrange(start as int, buf@.len() as int);
        assert(s =~= examined(buf@, self.cfg.tail_bytes));
        let mut counts: Vec<u32> = Vec::new();
        let mut v: usize = 0;
        while v < 256
            invariant
                0 <= v <= 256,
                counts@.len() == v,
                forall|b: int| 0 <= b < v ==> #[trigger] counts@[b] == 0,
            decreases 256 - v,
        {
            counts.push(0);
            v = v + 1;
        }
        let mut i: usize = start;
        while i < buf.len()
            invariant
                start <= i <= buf.len() <= u32::MAX,
                s == buf@.subrange(start as int, buf@.len() as int),
                counts@.len() == 256,
                forall|b: int| 0 <= b < 256 ==> #[trigger] counts@[b] == byte_count(s.take(i - start), b as u8),
            decreases buf.len() - i,
        {
            let x = buf[i];
            assert(s.take(i + 1 - start).drop_last() =~= s.take(i - start));
            assert(s.take(i + 1 - start).last() == x);
            proof {
                lemma_byte_count_bound(s.take(i - start), x);
            }
            let c = counts[x as usize];
            counts.set(x as usize, c + 1);
            i = i + 1;
        }
        assert(s.take(buf.len() - start) =~= s);
        (counts, buf.len() - start)
    }
}

/// No byte value occurs more often than there are bytes.
proof fn lemma_byte_count_bound(s: Seq<u8>, b: u8)
    ensures
        byte_count(s, b) <= s.len(),
    decreases s.len(),
{
    if s.len() > 0 {
        lemma_byte_count_bound(s.drop_last(), b);
    }
}

} // verus!
