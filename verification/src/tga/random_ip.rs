//! A TGA that ignores its seeds and draws addresses uniformly at random.

use vstd::prelude::*;
use rand::Rng;
use crate::tga::{TGA, TgaInfo};

verus! {

/// Draws each address as sixteen random bytes.
#[derive(Debug, Clone, Copy)]
pub struct RandomIpTga {}

impl RandomIpTga {
    pub const NAME: &'static str = "random_ip";
    pub const DESCRIPTION: &'static str = "Random IPv6 address generation using cryptographically secure random bytes";

    /// A random TGA; the seeds play no part.
    pub fn train(seeds: Vec<[u8; 16]>) -> (r: Result<Self, String>)
        ensures
            r is Ok,
    {
        Ok(RandomIpTga {})
    }
}

impl TgaInfo for RandomIpTga {
    const NAME: &'static str = "random_ip";
    const DESCRIPTION: &'static str = "Random IPv6 address generation using cryptographically secure random bytes";
}

/// Sixteen bytes from `rand::thread_rng`, through `Rng::fill`. Nothing is
/// claimed of them: they are random.
#[verifier::external_body]
fn random_octets() -> (r: [u8; 16]) {
    let mut rng = rand::thread_rng();
    let mut bytes = [0u8; 16];
    rng.fill(&mut bytes);
    bytes
}

impl TGA for RandomIpTga {
    fn generate(&self) -> [u8; 16] {
        random_octets()
    }

    fn name(&self) -> (r: &'static str)
        ensures
            r@ == Self::NAME@,
    {
        Self::NAME
    }

    fn description(&self) -> (r: &'static str)
        ensures
            r@ == Self::DESCRIPTION@,
    {
        Self::DESCRIPTION
    }
}

/// Trains the random TGA on `addresses` (which it ignores).
pub fn random_ip_train_fn(addresses: Vec<[u8; 16]>) -> (r: RandomIpTga) {
    RandomIpTga {}
}

} // verus!
