//! The TGAs that can be trained by name.

use vstd::prelude::*;
use crate::tga::entropy_ip::EntropyIpTga;
use crate::tga::random_ip::RandomIpTga;
use crate::tga::python::PythonTgaInfo;
use crate::tga::octets::{be_value, octets_key};

verus! {

/// The TGAs built into the library.
#[derive(Debug, Clone, Copy, PartialEq, Eq, Structural)]
pub enum TgaKind {
    EntropyIp,
    RandomIp,
}

/// A TGA as the registry lists it.
#[derive(Debug, Clone, Copy)]
pub struct TgaRegistration {
    pub name: &'static str,
    pub description: &'static str,
    pub kind: TgaKind,
}

/// The registered TGAs, in order.
pub open spec fn registered_kinds() -> Seq<TgaKind> {
    seq![TgaKind::EntropyIp, TgaKind::RandomIp]
}

/// The name under which a TGA is registered.
pub open spec fn registered_name(k: TgaKind) -> Seq<char> {
    match k {
        TgaKind::EntropyIp => EntropyIpTga::NAME@,
        TgaKind::RandomIp => RandomIpTga::NAME@,
    }
}

/// The description under which a TGA is registered.
pub open spec fn registered_description(k: TgaKind) -> Seq<char> {
    match k {
        TgaKind::EntropyIp => EntropyIpTga::DESCRIPTION@,
        TgaKind::RandomIp => RandomIpTga::DESCRIPTION@,
    }
}

/// The registered TGA of a given name.
pub open spec fn spec_lookup_tga(name: Seq<char>) -> Option<TgaKind> {
    if name == registered_name(TgaKind::EntropyIp) {
        Some(TgaKind::EntropyIp)
    } else if name == registered_name(TgaKind::RandomIp) {
        Some(TgaKind::RandomIp)
    } else {
        None
    }
}

/// The first line of the help text.
pub open spec fn help_header() -> Seq<char> {
    "Type of TGA to train. Available types:\n"@
}

/// The line of the help text for a TGA.
pub open spec fn help_line(k: TgaKind) -> Seq<char> {
    "  "@ + registered_name(k) + " - "@ + registered_description(k) + "\n"@
}

/// The first Python TGA of `infos` named `name`, from position `i` on.
pub open spec fn python_index_from(infos: Seq<PythonTgaInfo>, name: Seq<char>, i: int) -> Option<int>
    decreases infos.len() - i,
{
    if i < 0 || i >= infos.len() {
        None
    } else if infos[i].name@ == name {
        Some(i)
    } else {
        python_index_from(infos, name, i + 1)
    }
}

/// A TGA found by name.
#[derive(Debug, Clone, Copy, PartialEq, Eq, Structural)]
pub enum ResolvedTga {
    /// A TGA of the library.
    Builtin(TgaKind),
    /// The Python TGA at this position of the list given.
    Python(usize),
}

/// Why no TGA was found.
#[derive(Debug)]
pub enum TgaError {
    /// No TGA has this name.
    UnknownTga(String),
}

/// Whether two strings are equal.
fn same_text(a: &str, b: &str) -> (r: bool)
    ensures
        r == (a@ == b@),
{
    let x = a.to_owned();
    let y = b.to_owned();
    x == y
}

/// The registry of TGAs.
pub struct TgaRegistry;

impl TgaRegistry {
    /// The registered TGAs, in order.
    pub fn registrations() -> (r: Vec<TgaRegistration>)
        ensures
            r@.len() == registered_kinds().len(),
            forall|i: int| 0 <= i < r@.len() ==> {
                &&& (#[trigger] r@[i]).kind == registered_kinds()[i]
                &&& r@[i].name@ == registered_name(r@[i].kind)
                &&& r@[i].description@ == registered_description(r@[i].kind)
            },
    {
        let mut r: Vec<TgaRegistration> = Vec::new();
        r.push(TgaRegistration { name: EntropyIpTga::NAME, description: EntropyIpTga::DESCRIPTION, kind: TgaKind::EntropyIp });
        r.push(TgaRegistration { name: RandomIpTga::NAME, description: RandomIpTga::DESCRIPTION, kind: TgaKind::RandomIp });
        r
    }

    /// The names of the registered TGAs, in order.
    pub fn get_available_tgas() -> (r: Vec<&'static str>)
        ensures
            r@.len() == registered_kinds().len(),
            forall|i: int| 0 <= i < r@.len() ==> (#[trigger] r@[i])@ == registered_name(registered_kinds()[i]),
    {
        let regs = Self::registrations();
        let mut names: Vec<&'static str> = Vec::new();
        let mut i: usize = 0;
        while i < regs.len()
            invariant
                0 <= i <= regs.len(),
                regs@.len() == registered_kinds().len(),
                forall|k: int| 0 <= k < regs@.len() ==> {
                    &&& (#[trigger] regs@[k]).kind == registered_kinds()[k]
                    &&& regs@[k].name@ == registered_name(regs@[k].kind)
                },
                names@.len() == i,
                forall|k: int| 0 <= k < i ==> (#[trigger] names@[k])@ == registered_name(registered_kinds()[k]),
            decreases regs.len() - i,
        {
            names.push(regs[i].name);
            i = i + 1;
        }
        names
    }

    /// The description of the registered TGA named `name`, if any.
    pub fn get_tga_description(name: &str) -> (r: Option<&'static str>)
        ensures
            match spec_lookup_tga(name@) {
                Some(k) => r matches Some(d) && d@ == registered_description(k),
                None => r is None,
            },
    {
        match Self::lookup(name) {
            Some(TgaKind::EntropyIp) => Some(EntropyIpTga::DESCRIPTION),
            Some(TgaKind::RandomIp) => Some(RandomIpTga::DESCRIPTION),
            None => None,
        }
    }

    /// The registered TGA named `name`, if any.
    pub fn lookup(name: &str) -> (r: Option<TgaKind>)
        ensures
            r == spec_lookup_tga(name@),
    {
        if same_text(name, EntropyIpTga::NAME) {
            Some(TgaKind::EntropyIp)
        } else if same_text(name, RandomIpTga::NAME) {
            Some(TgaKind::RandomIp)
        } else {
            None
        }
    }

    /// The help text that lists the registered TGAs, one per line.
    pub fn get_tga_help_text() -> (r: String)
        ensures
            r@ == help_header() + help_line(TgaKind::EntropyIp) + help_line(TgaKind::RandomIp),
    {
        let mut help = String::from_str("Type of TGA to train. Available types:\n");
        let regs = Self::registrations();
        let mut i: usize = 0;
        let ghost mut expected = help_header();
        while i < regs.len()
            invariant
                0 <= i <= regs.len(),
                regs@.len() == 2,
                forall|k: int| 0 <= k < regs@.len() ==> {
                    &&& (#[trigger] regs@[k]).kind == registered_kinds()[k]
                    &&& regs@[k].name@ == registered_name(regs@[k].kind)
                    &&& regs@[k].description@ == registered_description(regs@[k].kind)
                },
                help@ == if i == 0 {
                    help_header()
                } else if i == 1 {
                    help_header() + help_line(TgaKind::EntropyIp)
                } else {
                    help_header() + help_line(TgaKind::EntropyIp) + help_line(TgaKind::RandomIp)
                },
            decreases regs.len() - i,
        {
            let ghost before = help@;
            help.append("  ");
            help.append(regs[i].name);
            help.append(" - ");
            help.append(regs[i].description);
            help.append("\n");
            proof {
                let k = regs@[i as int].kind;
                assert(help@ =~= before + help_line(k));
            }
            i = i + 1;
        }
        help
    }

    /// Finds the TGA named `name`: a registered one first, then the first
    /// of the Python TGAs `python_tgas` with that name.
    pub fn resolve_tga(name: &str, python_tgas: &Vec<PythonTgaInfo>) -> (r: Result<ResolvedTga, TgaError>)
        ensures
            match spec_lookup_tga(name@) {
                Some(k) => r == Ok::<ResolvedTga, TgaError>(ResolvedTga::Builtin(k)),
                None => match python_index_from(python_tgas@, name@, 0) {
                    Some(i) => r matches Ok(ResolvedTga::Python(j)) && j == i,
                    None => r matches Err(TgaError::UnknownTga(n)) && n@ == name@,
                },
            },
    {
        if let Some(k) = Self::lookup(name) {
            return Ok(ResolvedTga::Builtin(k));
        }
        let mut i: usize = 0;
        while i < python_tgas.len()
            invariant
                0 <= i <= python_tgas.len(),
                spec_lookup_tga(name@) is None,
                python_index_from(python_tgas@, name@, 0) == python_index_from(python_tgas@, name@, i as int),
            decreases python_tgas.len() - i,
        {
            if same_text(python_tgas[i].name.as_str(), name) {
                assert(python_tgas@[i as int].name@ == name@);
                assert(python_index_from(python_tgas@, name@, i as int) == Some(i as int));
                return Ok(ResolvedTga::Python(i));
            }
            i = i + 1;
        }
        Err(TgaError::UnknownTga(name.to_owned()))
    }
}

/// A TGA trained by name.
pub enum TrainedTga {
    EntropyIp(EntropyIpTga),
    RandomIp(RandomIpTga),
    /// The Python TGA at this position of the list given; it is trained in
    /// the Python process.
    Python(usize),
}

/// The seeds as numbers, each read big-endian.
pub open spec fn seed_keys(seeds: Seq<[u8; 16]>) -> Seq<u128> {
    Seq::new(seeds.len(), |i: int| be_value(seeds[i]@) as u128)
}

/// Trains the TGA named `name` (a registered one first, then the first of
/// the Python TGAs `python_tgas` with that name) on `addresses`. Entropy/IP
/// segments the seeds where `significant` marks a marked change of entropy
/// between a nybble and the one before it.
pub fn train_tga_by_name(
    name: &str,
    addresses: Vec<[u8; 16]>,
    significant: &Vec<bool>,
    python_tgas: &Vec<PythonTgaInfo>,
) -> (r: Result<TrainedTga, TgaError>)
    requires
        addresses@.len() <= u64::MAX,
        significant@.len() == 32,
    ensures
        match spec_lookup_tga(name@) {
            Some(TgaKind::EntropyIp) => r matches Ok(TrainedTga::EntropyIp(t)) && t.is_built_from(
                seed_keys(addresses@),
                significant@,
            ),
            Some(TgaKind::RandomIp) => r matches Ok(TrainedTga::RandomIp(_)),
            None => match python_index_from(python_tgas@, name@, 0) {
                Some(i) => r matches Ok(TrainedTga::Python(j)) && j == i,
                None => r matches Err(TgaError::UnknownTga(n)) && n@ == name@,
            },
        },
{
    match TgaRegistry::resolve_tga(name, python_tgas) {
        Ok(ResolvedTga::Builtin(TgaKind::EntropyIp)) => {
            let mut keys: Vec<u128> = Vec::new();
            let mut i: usize = 0;
            while i < addresses.len()
                invariant
                    0 <= i <= addresses@.len(),
                    keys@ == seed_keys(addresses@).take(i as int),
                decreases addresses@.len() - i,
            {
                let k = octets_key(&addresses[i]);
                keys.push(k);
                i = i + 1;
                assert(keys@ =~= seed_keys(addresses@).take(i as int));
            }
            assert(seed_keys(addresses@).take(addresses@.len() as int) =~= seed_keys(addresses@));
            Ok(TrainedTga::EntropyIp(EntropyIpTga::build(&keys, significant)))
        },
        Ok(ResolvedTga::Builtin(TgaKind::RandomIp)) => match RandomIpTga::train(addresses) {
            Ok(t) => Ok(TrainedTga::RandomIp(t)),
            Err(_) => Ok(TrainedTga::RandomIp(RandomIpTga {})),
        },
        Ok(ResolvedTga::Python(i)) => Ok(TrainedTga::Python(i)),
        Err(e) => Err(e),
    }
}

/// The names of the registered TGAs.
pub fn get_available_tga_names() -> (r: Vec<&'static str>)
    ensures
        r@.len() == registered_kinds().len(),
        forall|i: int| 0 <= i < r@.len() ==> (#[trigger] r@[i])@ == registered_name(registered_kinds()[i]),
{
    TgaRegistry::get_available_tgas()
}

/// The names of all TGAs: `entropy_ip`, `random_ip`, then the names of the
/// Python TGAs `python_tgas`, in order.
pub fn get_all_available_tga_names(python_tgas: &Vec<PythonTgaInfo>) -> (r: Vec<String>)
    ensures
        r@.len() == 2 + python_tgas@.len(),
        r@[0]@ == "entropy_ip"@,
        r@[1]@ == "random_ip"@,
        forall|i: int| 0 <= i < python_tgas@.len() ==> (#[trigger] r@[i + 2])@ == python_tgas@[i].name@,
{
    let mut names: Vec<String> = Vec::new();
    names.push(String::from_str("entropy_ip"));
    names.push(String::from_str("random_ip"));
    let mut i: usize = 0;
    while i < python_tgas.len()
        invariant
            0 <= i <= python_tgas.len(),
            names@.len() == 2 + i,
            names@[0]@ == "entropy_ip"@,
            names@[1]@ == "random_ip"@,
            forall|k: int| 0 <= k < i ==> (#[trigger] names@[k + 2])@ == python_tgas@[k].name@,
        decreases python_tgas.len() - i,
    {
        names.push(python_tgas[i].name.clone());
        i = i + 1;
    }
    names
}

/// A TGA has a description exactly when its name is among the names the
/// registry lists.
pub proof fn lemma_described_iff_listed(name: Seq<char>)
    ensures
        spec_lookup_tga(name) is Some <==> exists|i: int| 0 <= i < registered_kinds().len() && #[trigger] registered_name(registered_kinds()[i]) == name,
{
    if spec_lookup_tga(name) is Some {
        if name == registered_name(TgaKind::EntropyIp) {
            assert(registered_name(registered_kinds()[0]) == name);
        } else {
            assert(registered_name(registered_kinds()[1]) == name);
        }
    }
}

} // verus!
