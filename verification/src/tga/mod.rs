//! Target generation algorithms (TGAs): models trained on seed addresses
//! that produce new candidate addresses, and the registry that names them.

pub mod octets;
pub mod random_ip;
pub mod entropy_ip;
pub mod python;
pub mod registry;

use vstd::prelude::*;
use std::collections::HashSet;
use crate::tga::octets::{be_value, octets_key, lemma_be_value_injective};

verus! {

broadcast use vstd::std_specs::hash::group_hash_axioms;

/// The most draws `generate_unique` makes, and the most duplicates in a row
/// that `generate_targets` accepts.
pub const MAX_ATTEMPTS: usize = 1_000_000;

/// The name and description of a TGA.
pub trait TgaInfo {
    /// The name under which the TGA is registered.
    const NAME: &'static str;
    /// One line saying what the TGA does.
    const DESCRIPTION: &'static str;
}

/// A trained model that produces candidate addresses.
pub trait TGA {
    /// Whether `generate` may return `a`. Unless a TGA says more, any
    /// address may come.
    open spec fn can_generate(&self, a: [u8; 16]) -> bool {
        true
    }

    /// A new candidate address, as its sixteen octets.
    fn generate(&self) -> (r: [u8; 16])
        ensures
            self.can_generate(r),
    ;

    /// The name of this TGA type.
    fn name(&self) -> &'static str;

    /// The description of this TGA type.
    fn description(&self) -> &'static str;

    /// Up to `count` distinct addresses: draws are made until `count`
    /// distinct ones were seen or `MAX_ATTEMPTS` draws were made, and the
    /// distinct addresses drawn come back in the order of their first
    /// draw. So some sequence of draws `d` gives the result: what `d`
    /// keeps, `d` being as long as the run went on.
    fn generate_unique(&self, count: usize) -> (r: Vec<[u8; 16]>)
        ensures
            r@.len() <= count,
            r@.len() <= MAX_ATTEMPTS,
            r@.no_duplicates(),
            count > 0 ==> r@.len() >= 1,
            exists|d: Seq<[u8; 16]>|
                #[trigger] unique_run(count as nat, d) && r@ == draws_state(true, d).0 && forall|i: int|
                    0 <= i < d.len() ==> self.can_generate(#[trigger] d[i]),
    {
        let mut tally = DrawTally::new(true);
        let ghost mut draws: Seq<[u8; 16]> = Seq::empty();
        let mut attempts: usize = 0;
        while tally.kept_len() < count && attempts < MAX_ATTEMPTS
            invariant
                tally.wf(),
                tally.spec_unique(),
                (tally.spec_kept(), tally.spec_run()) == draws_state(true, draws),
                draws.len() == attempts,
                attempts <= MAX_ATTEMPTS,
                tally.spec_run() <= attempts,
                tally.spec_kept().len() <= count,
                tally.spec_kept().len() <= attempts,
                attempts > 0 ==> tally.spec_kept().len() >= 1,
                forall|k: int| 0 <= k < draws.len() ==> (#[trigger] draws_state(true, draws.take(k))).0.len() < count,
                forall|i: int| 0 <= i < draws.len() ==> self.can_generate(#[trigger] draws[i]),
            decreases MAX_ATTEMPTS - attempts,
        {
            let a = self.generate();
            let ghost before = draws;
            proof {
                lemma_draws_push(true, draws, a);
            }
            let fresh = tally.absorb_draw(a);
            proof {
                draws = draws.push(a);
                assert forall|k: int| 0 <= k < draws.len() implies (#[trigger] draws_state(true, draws.take(k))).0.len()
                    < count by {
                    if k < before.len() {
                        assert(draws.take(k) =~= before.take(k));
                    } else {
                        assert(draws.take(k) =~= before);
                    }
                }
            }
            attempts = attempts + 1;
        }
        proof {
            assert(unique_run(count as nat, draws));
        }
        tally.into_kept()
    }
}

/// One draw of a run: with `unique`, a draw already kept only adds to the
/// tally of duplicates in a row; any other draw is kept and ends that
/// tally.
pub open spec fn draw_step(unique: bool, st: (Seq<[u8; 16]>, nat), d: [u8; 16]) -> (Seq<[u8; 16]>, nat) {
    if !unique || !st.0.contains(d) {
        (st.0.push(d), 0)
    } else {
        (st.0, st.1 + 1)
    }
}

/// The addresses kept, and the duplicates in a row at the end, after the
/// draws `draws`.
pub open spec fn draws_state(unique: bool, draws: Seq<[u8; 16]>) -> (Seq<[u8; 16]>, nat)
    decreases draws.len(),
{
    if draws.len() == 0 {
        (Seq::empty(), 0)
    } else {
        draw_step(unique, draws_state(unique, draws.drop_last()), draws.last())
    }
}

/// The draws `d` make up a whole run of `generate_unique` for `count`:
/// it stops after `d`, when `count` addresses are kept or `MAX_ATTEMPTS`
/// draws were made, and not before.
pub open spec fn unique_run(count: nat, d: Seq<[u8; 16]>) -> bool {
    &&& d.len() <= MAX_ATTEMPTS
    &&& (draws_state(true, d).0.len() >= count || d.len() == MAX_ATTEMPTS)
    &&& forall|k: int| 0 <= k < d.len() ==> (#[trigger] draws_state(true, d.take(k))).0.len() < count
}

/// A run of `generate_targets` has stopped: `count` addresses are kept, or
/// the last `MAX_ATTEMPTS` draws were all duplicates.
pub open spec fn targets_stopped(count: nat, st: (Seq<[u8; 16]>, nat)) -> bool {
    st.0.len() >= count || st.1 >= MAX_ATTEMPTS
}

/// The draws `d` make up a whole run of `generate_targets`: it stops after
/// `d` and not before.
pub open spec fn targets_run(count: nat, unique: bool, d: Seq<[u8; 16]>) -> bool {
    &&& targets_stopped(count, draws_state(unique, d))
    &&& forall|k: int| 0 <= k < d.len() ==> !targets_stopped(count, #[trigger] draws_state(unique, d.take(k)))
}

/// One more draw steps the state once.
proof fn lemma_draws_push(unique: bool, draws: Seq<[u8; 16]>, a: [u8; 16])
    ensures
        draws_state(unique, draws.push(a)) == draw_step(unique, draws_state(unique, draws), a),
{
    assert(draws.push(a).drop_last() =~= draws);
}

/// The draws of a run so far: the addresses kept, in the order of their
/// first draw, and (with `unique`) the duplicates drawn in a row since the
/// last address kept.
pub struct DrawTally {
    seen: HashSet<u128>,
    kept: Vec<[u8; 16]>,
    run: usize,
    unique: bool,
}

impl DrawTally {
    /// The addresses kept.
    pub closed spec fn spec_kept(&self) -> Seq<[u8; 16]> {
        self.kept@
    }

    /// The duplicates drawn in a row since the last address kept.
    pub closed spec fn spec_run(&self) -> nat {
        self.run as nat
    }

    /// Whether a draw already kept is passed over.
    pub closed spec fn spec_unique(&self) -> bool {
        self.unique
    }

    /// The set of seen values is that of the addresses kept, which (with
    /// `unique`) are distinct.
    pub closed spec fn wf(&self) -> bool {
        &&& forall|k: u128| self.seen@.contains(k) <==> exists|i: int|
            0 <= i < self.kept@.len() && #[trigger] be_value(self.kept@[i]@) == k
        &&& self.unique ==> self.kept@.no_duplicates()
    }

    /// A run with no draw yet.
    pub fn new(unique: bool) -> (r: Self)
        ensures
            r.wf(),
            r.spec_kept() == Seq::<[u8; 16]>::empty(),
            r.spec_run() == 0,
            r.spec_unique() == unique,
    {
        DrawTally { seen: HashSet::new(), kept: Vec::new(), run: 0, unique }
    }

    /// How many addresses are kept.
    pub fn kept_len(&self) -> (r: usize)
        ensures
            r == self.spec_kept().len(),
    {
        self.kept.len()
    }

    /// The duplicates drawn in a row since the last address kept.
    pub fn run(&self) -> (r: usize)
        ensures
            r == self.spec_run(),
    {
        self.run
    }

    /// The addresses kept.
    pub fn into_kept(self) -> (r: Vec<[u8; 16]>)
        requires
            self.wf(),
        ensures
            r@ == self.spec_kept(),
            self.spec_unique() ==> r@.no_duplicates(),
    {
        self.kept
    }

    /// Takes one draw: keeps it unless `unique` is set and it is kept
    /// already, and says whether it was kept.
    pub fn absorb_draw(&mut self, draw: [u8; 16]) -> (fresh: bool)
        requires
            old(self).wf(),
            old(self).spec_run() < MAX_ATTEMPTS,
        ensures
            final(self).wf(),
            final(self).spec_unique() == old(self).spec_unique(),
            fresh == (!old(self).spec_unique() || !old(self).spec_kept().contains(draw)),
            (final(self).spec_kept(), final(self).spec_run()) == draw_step(
                old(self).spec_unique(),
                (old(self).spec_kept(), old(self).spec_run()),
                draw,
            ),
    {
        let k = octets_key(&draw);
        let fresh = if self.seen.contains(&k) {
            proof {
                let i = choose|i: int| 0 <= i < self.kept@.len() && #[trigger] be_value(self.kept@[i]@) == k;
                let x = self.kept@[i];
                lemma_be_value_injective(x@, draw@);
                assert(x =~= draw);
                assert(self.kept@.contains(draw));
            }
            !self.unique
        } else {
            proof {
                assert forall|i: int| 0 <= i < self.kept@.len() implies self.kept@[i] != draw by {
                    if self.kept@[i] == draw {
                        assert(be_value(self.kept@[i]@) == k);
                    }
                }
            }
            true
        };
        if fresh {
            let ghost before = self.kept@;
            if !self.seen.contains(&k) {
                self.seen.insert(k);
            }
            self.kept.push(draw);
            self.run = 0;
            proof {
                assert forall|x: u128| self.seen@.contains(x) <==> exists|i: int|
                    0 <= i < self.kept@.len() && #[trigger] be_value(self.kept@[i]@) == x by {
                    if self.seen@.contains(x) && x != k {
                        let i = choose|i: int| 0 <= i < before.len() && #[trigger] be_value(before[i]@) == x;
                        assert(self.kept@[i] == before[i]);
                    }
                    if x == k {
                        assert(be_value(self.kept@[before.len() as int]@) == x);
                    }
                    if exists|i: int| 0 <= i < self.kept@.len() && #[trigger] be_value(self.kept@[i]@) == x {
                        let i = choose|i: int| 0 <= i < self.kept@.len() && #[trigger] be_value(self.kept@[i]@) == x;
                        if i < before.len() {
                            assert(before[i] == self.kept@[i]);
                        }
                    }
                }
            }
        } else {
            self.run = self.run + 1;
        }
        fresh
    }
}

/// Why generation stopped short.
#[derive(Debug, Clone, Copy, PartialEq, Eq, Structural)]
pub struct GenerateError {
    /// How many addresses were generated.
    pub generated: usize,
    /// How many were asked for.
    pub count: usize,
    /// How many duplicates in a row ended the run.
    pub attempts: usize,
}

/// `count` addresses from `tga`. With `unique`, an address already produced
/// is drawn again, and the run fails once `MAX_ATTEMPTS` draws in a row were
/// all duplicates; a new address resets that tally. So some sequence of
/// draws `d`, a whole run, gives the result: the addresses it keeps, or the
/// failure when its last `MAX_ATTEMPTS` draws were duplicates.
pub fn generate_targets<G: TGA>(tga: &G, count: usize, unique: bool) -> (r: Result<
    Vec<[u8; 16]>,
    GenerateError,
>)
    ensures
        match r {
            Ok(v) => v@.len() == count && (unique ==> v@.no_duplicates()),
            Err(e) => unique && e.generated < count && e.count == count && e.attempts
                == MAX_ATTEMPTS,
        },
        !unique ==> r is Ok,
        exists|d: Seq<[u8; 16]>| #[trigger] targets_run(count as nat, unique, d) && (forall|i: int|
            0 <= i < d.len() ==> tga.can_generate(#[trigger] d[i])) && match r {
            Ok(v) => v@ == draws_state(unique, d).0,
            Err(e) => draws_state(unique, d).1 == MAX_ATTEMPTS && e.generated == draws_state(unique, d).0.len(),
        },
{
    let mut tally = DrawTally::new(unique);
    let ghost mut draws: Seq<[u8; 16]> = Seq::empty();
    while tally.kept_len() < count
        invariant
            tally.wf(),
            tally.spec_unique() == unique,
            (tally.spec_kept(), tally.spec_run()) == draws_state(unique, draws),
            tally.spec_kept().len() <= count,
            tally.spec_run() < MAX_ATTEMPTS,
            !unique ==> tally.spec_run() == 0,
            forall|k: int| 0 <= k < draws.len() ==> !targets_stopped(count as nat, #[trigger] draws_state(unique, draws.take(k))),
            forall|i: int| 0 <= i < draws.len() ==> tga.can_generate(#[trigger] draws[i]),
        decreases count - tally.spec_kept().len(), MAX_ATTEMPTS - tally.spec_run(),
    {
        let a = tga.generate();
        let ghost before = draws;
        proof {
            lemma_draws_push(unique, draws, a);
        }
        tally.absorb_draw(a);
        proof {
            draws = draws.push(a);
            assert forall|k: int| 0 <= k < draws.len() implies !targets_stopped(
                count as nat,
                #[trigger] draws_state(unique, draws.take(k)),
            ) by {
                if k < before.len() {
                    assert(draws.take(k) =~= before.take(k));
                } else {
                    assert(draws.take(k) =~= before);
                }
            }
        }
        if tally.run() >= MAX_ATTEMPTS {
            proof {
                assert(targets_run(count as nat, unique, draws));
            }
            return Err(GenerateError { generated: tally.kept_len(), count, attempts: MAX_ATTEMPTS });
        }
    }
    proof {
        assert(targets_run(count as nat, unique, draws));
    }
    Ok(tally.into_kept())
}

} // verus!
