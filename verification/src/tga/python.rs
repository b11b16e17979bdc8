//! TGAs that run in a Python process: what the library knows of them, and
//! the checking of the addresses such a process sends back as hex text.

use vstd::prelude::*;
use vstd::string::StringSliceAdditionalSpecFns;

verus! {

/// The name and description of a TGA offered by the Python side.
#[derive(Debug)]
pub struct PythonTgaInfo {
    pub name: String,
    pub description: String,
}

/// The Python TGAs known when the library was built: none.
pub fn get_build_time_python_tgas() -> (r: Vec<(String, String)>)
    ensures
        r@.len() == 0,
{
    Vec::new()
}

/// How a Python TGA of a given name is trained.
#[derive(Debug, Clone, Copy, PartialEq, Eq, Structural)]
pub enum PythonTrainFn {
    /// The LSTM model.
    LstmIpv6,
    /// Any other Python TGA.
    Generic,
}

/// The training routine for the Python TGA `tga_name`: the LSTM one for
/// `lstm_ipv6`, the generic one otherwise.
pub fn create_python_tga_train_fn(tga_name: &str) -> (r: PythonTrainFn)
    ensures
        r == if tga_name@ == "lstm_ipv6"@ {
            PythonTrainFn::LstmIpv6
        } else {
            PythonTrainFn::Generic
        },
{
    let a = tga_name.to_owned();
    let b = "lstm_ipv6".to_owned();
    if a == b {
        PythonTrainFn::LstmIpv6
    } else {
        PythonTrainFn::Generic
    }
}

/// The name of the Python TGA that a training routine asks the Python side
/// to train. Both routines ask for `lstm_ipv6`.
pub fn trained_tga_name(f: PythonTrainFn) -> (r: &'static str)
    ensures
        r@ == "lstm_ipv6"@,
{
    match f {
        PythonTrainFn::LstmIpv6 => "lstm_ipv6",
        PythonTrainFn::Generic => "lstm_ipv6",
    }
}

// ---------------------------------------------------------------------------
// Hex text
// ---------------------------------------------------------------------------

/// The value of a hex digit (either case), or `None` for another byte.
pub open spec fn hex_val(b: u8) -> Option<u8> {
    if 48 <= b <= 57 {
        Some((b - 48) as u8)
    } else if 97 <= b <= 102 {
        Some((b - 87) as u8)
    } else if 65 <= b <= 70 {
        Some((b - 55) as u8)
    } else {
        None
    }
}

/// The lower-case hex digit of `d < 16`.
pub open spec fn hex_char(d: nat) -> char {
    if d < 10 {
        (48 + d) as char
    } else {
        (87 + d) as char
    }
}

/// The lower-case hex text of `b`, two digits per byte.
pub open spec fn hex_text(b: Seq<u8>) -> Seq<char>
    decreases b.len(),
{
    if b.len() == 0 {
        Seq::empty()
    } else {
        hex_text(b.drop_last()) + seq![hex_char(b.last() as nat / 16), hex_char(b.last() as nat % 16)]
    }
}

/// Why hex text did not decode.
#[derive(Debug, Clone, Copy, PartialEq, Eq, Structural)]
pub enum HexError {
    /// The byte at `index`, shown as `c`, is not a hex digit.
    InvalidHexCharacter { c: char, index: usize },
    /// The text has an odd number of bytes.
    OddLength,
    /// The text does not fit the container decoded into.
    InvalidStringLength,
}

/// `hex::decode`. Its source checks that the length is even (else
/// `OddLength`), then decodes the bytes two by two in order, a digit of
/// either case giving its value and the first byte that is no hex digit
/// giving `InvalidHexCharacter` with that byte and its position; each pair
/// gives the byte `16 * first + second`.
#[verifier::external_body]
fn hex_decode(data: &[u8]) -> (r: Result<Vec<u8>, HexError>)
    ensures
        data@.len() % 2 == 1 ==> r matches Err(HexError::OddLength),
        data@.len() % 2 == 0 && (forall|i: int| 0 <= i < data@.len() ==> #[trigger] hex_val(data@[i]) is Some)
            ==> (r matches Ok(v) && v@.len() == data@.len() / 2 && forall|i: int|
            0 <= i < v@.len() ==> #[trigger] v@[i] == hex_val(data@[2 * i])->0 * 16 + hex_val(
                data@[2 * i + 1],
            )->0),
        data@.len() % 2 == 0 && !(forall|i: int| 0 <= i < data@.len() ==> #[trigger] hex_val(data@[i]) is Some)
            ==> (r matches Err(HexError::InvalidHexCharacter { c, index }) && index < data@.len()
            && hex_val(data@[index as int]) is None && c == data@[index as int] as char && forall|i: int|
            0 <= i < index ==> #[trigger] hex_val(data@[i]) is Some),
{
    match hex::decode(data) {
        Ok(v) => Ok(v),
        Err(hex::FromHexError::InvalidHexCharacter { c, index }) => Err(
            HexError::InvalidHexCharacter { c, index },
        ),
        Err(hex::FromHexError::OddLength) => Err(HexError::OddLength),
        Err(hex::FromHexError::InvalidStringLength) => Err(HexError::InvalidStringLength),
    }
}

/// `hex::encode`: the lower-case hex text of `data`, two digits per byte.
#[verifier::external_body]
fn hex_encode(data: &[u8]) -> (r: String)
    ensures
        r@ == hex_text(data@),
{
    hex::encode(data)
}

/// Why an address sent back by the Python side was refused.
#[derive(Debug, Clone, Copy, PartialEq, Eq, Structural)]
pub enum AddressTextError {
    /// The entry is not a string.
    InvalidFormat,
    /// The text is not hex.
    Hex(HexError),
    /// The text decodes to this many bytes, not 16.
    InvalidLength(usize),
}

/// Whether `t` is the hex text of sixteen octets: 32 hex digits.
pub open spec fn address_text_ok(t: Seq<u8>) -> bool {
    t.len() == 32 && forall|i: int| 0 <= i < 32 ==> #[trigger] hex_val(t[i]) is Some
}

/// The octets that the hex digits of `t` spell, two digits per octet.
pub open spec fn hex_octets(t: Seq<u8>) -> Seq<u8> {
    Seq::new(t.len() / 2, |i: int| (hex_val(t[2 * i])->0 * 16 + hex_val(t[2 * i + 1])->0) as u8)
}

/// Whether every byte of `t` is a hex digit.
pub open spec fn all_hex(t: Seq<u8>) -> bool {
    forall|i: int| 0 <= i < t.len() ==> #[trigger] hex_val(t[i]) is Some
}

/// The position of the first byte of `t`, from `i` on, that is not a hex
/// digit (`t.len()` when there is none).
pub open spec fn first_non_hex(t: Seq<u8>, i: int) -> int
    decreases t.len() - i,
{
    if i < 0 || i >= t.len() {
        t.len() as int
    } else if hex_val(t[i]) is None {
        i
    } else {
        first_non_hex(t, i + 1)
    }
}

/// Why the text `t` is not the hex text of sixteen octets (meaningful when
/// it is not): an odd length; else the first byte that is no hex digit;
/// else the number of octets it spells.
pub open spec fn address_text_error(t: Seq<u8>) -> AddressTextError {
    if t.len() % 2 == 1 {
        AddressTextError::Hex(HexError::OddLength)
    } else if !all_hex(t) {
        let k = first_non_hex(t, 0);
        AddressTextError::Hex(HexError::InvalidHexCharacter { c: t[k] as char, index: k as usize })
    } else {
        AddressTextError::InvalidLength((t.len() / 2) as usize)
    }
}

/// The first byte that is no hex digit is the one whose predecessors all
/// are hex digits.
proof fn lemma_first_non_hex(t: Seq<u8>, i: int, index: int)
    requires
        0 <= i <= index < t.len(),
        hex_val(t[index]) is None,
        all_hex(t.take(index)),
    ensures
        first_non_hex(t, i) == index,
    decreases index - i,
{
    if i < index {
        assert(t.take(index)[i] == t[i]);
        lemma_first_non_hex(t, i + 1, index);
    }
}

/// The sixteen octets that the hex text `text` spells, when it spells
/// sixteen.
pub fn decode_address(text: &str) -> (r: Result<[u8; 16], AddressTextError>)
    ensures
        r is Ok <==> address_text_ok(text.spec_bytes()),
        r matches Ok(a) ==> a@ == hex_octets(text.spec_bytes()),
        !address_text_ok(text.spec_bytes()) ==> r == Err::<[u8; 16], AddressTextError>(
            address_text_error(text.spec_bytes()),
        ),
{
    proof {
        let t = text.spec_bytes();
        if t.len() % 2 == 0 && !all_hex(t) {
            let k = choose|k: int| 0 <= k < t.len() && !(#[trigger] hex_val(t[k]) is Some);
            assert(first_non_hex(t, 0) <= k) by {
                lemma_first_non_hex_at_most(t, 0, k);
            }
        }
    }
    let bytes = match hex_decode(text.as_bytes()) {
        Ok(b) => b,
        Err(e) => {
            proof {
                let t = text.spec_bytes();
                if t.len() % 2 == 0 && !all_hex(t) {
                    match e {
                        HexError::InvalidHexCharacter { c, index } => {
                            assert forall|i: int| 0 <= i < index implies #[trigger] hex_val(t.take(index as int)[i]) is Some by {
                                assert(t.take(index as int)[i] == t[i]);
                            }
                            lemma_first_non_hex(t, 0, index as int);
                        },
                        _ => {},
                    }
                }
            }
            return Err(AddressTextError::Hex(e));
        },
    };
    if bytes.len() != 16 {
        return Err(AddressTextError::InvalidLength(bytes.len()));
    }
    let mut a: [u8; 16] = [0u8; 16];
    let mut i: usize = 0;
    while i < 16
        invariant
            0 <= i <= 16,
            bytes@.len() == 16,
            a@.len() == 16,
            forall|k: int| 0 <= k < i ==> a@[k] == bytes@[k],
        decreases 16 - i,
    {
        a[i] = bytes[i];
        i = i + 1;
    }
    assert(a@ =~= bytes@);
    assert(a@ =~= hex_octets(text.spec_bytes()));
    Ok(a)
}

/// There is a byte that is no hex digit at or before any such byte.
proof fn lemma_first_non_hex_at_most(t: Seq<u8>, i: int, k: int)
    requires
        0 <= i <= k < t.len(),
        hex_val(t[k]) is None,
    ensures
        i <= first_non_hex(t, i) <= k,
        hex_val(t[first_non_hex(t, i)]) is None,
    decreases k - i,
{
    if i < k && hex_val(t[i]) is Some {
        lemma_first_non_hex_at_most(t, i + 1, k);
    }
}

/// The UTF-8 bytes of the text of `entry`.
pub open spec fn entry_bytes(entry: String) -> Seq<u8> {
    vstd::utf8::encode_utf8(entry@)
}

/// Whether every entry of `entries` is the hex text of sixteen octets.
pub open spec fn entries_ok(entries: Seq<Option<String>>) -> bool {
    forall|i: int| 0 <= i < entries.len() ==> #[trigger] entries[i] is Some && address_text_ok(entry_bytes(entries[i]->0))
}

/// The addresses sent back by the Python side, each entry being the hex
/// text of an address (`None` for an entry that is not a string); fails at
/// the first entry that is not the hex text of sixteen octets.
pub fn decode_generated_addresses(entries: &Vec<Option<String>>) -> (r: Result<Vec<[u8; 16]>, AddressTextError>)
    ensures
        r is Ok <==> entries_ok(entries@),
        r matches Ok(v) ==> v@.len() == entries@.len() && forall|i: int|
            0 <= i < entries@.len() ==> (#[trigger] v@[i])@ == hex_octets(entry_bytes(entries@[i]->0)),
        forall|i: int|
            0 <= i < entries@.len() && entries_ok(entries@.take(i)) && #[trigger] entries@[i] is None
                ==> r == Err::<Vec<[u8; 16]>, AddressTextError>(AddressTextError::InvalidFormat),
        forall|i: int|
            0 <= i < entries@.len() && entries_ok(entries@.take(i)) && #[trigger] entries@[i] is Some
                && !address_text_ok(entry_bytes(entries@[i]->0)) ==> r == Err::<Vec<[u8; 16]>, AddressTextError>(
                address_text_error(entry_bytes(entries@[i]->0)),
            ),
{
    let mut out: Vec<[u8; 16]> = Vec::new();
    let mut i: usize = 0;
    while i < entries.len()
        invariant
            0 <= i <= entries.len(),
            out@.len() == i,
            entries_ok(entries@.take(i as int)),
            forall|k: int| 0 <= k < i ==> (#[trigger] out@[k])@ == hex_octets(entry_bytes(entries@[k]->0)),
        decreases entries.len() - i,
    {
        match &entries[i] {
            None => {
                proof {
                    assert(!entries_ok(entries@)) by {
                        assert(entries@[i as int] is None);
                    }
                    assert forall|j: int|
                        0 <= j < entries@.len() && entries_ok(entries@.take(j)) implies j <= i && (j < i ==> #[trigger] entries@[j] is Some
                        && address_text_ok(entry_bytes(entries@[j]->0))) by {
                        if j > i {
                            assert(entries@.take(j)[i as int] == entries@[i as int]);
                        } else if j < i {
                            assert(entries@.take(i as int)[j] == entries@[j]);
                        }
                    }
                }
                return Err(AddressTextError::InvalidFormat);
            },
            Some(t) => {
                let d = decode_address(t.as_str());
                match d {
                    Err(e) => {
                        proof {
                            assert(!entries_ok(entries@)) by {
                                assert(entries@[i as int] is Some);
                            }
                            assert forall|j: int|
                                0 <= j < entries@.len() && entries_ok(entries@.take(j)) implies #[trigger] entries@[j] is Some
                                && (!address_text_ok(entry_bytes(entries@[j]->0)) ==> j == i) by {
                                if j > i {
                                    assert(entries@.take(j)[i as int] == entries@[i as int]);
                                } else if j < i {
                                    assert(entries@.take(i as int)[j] == entries@[j]);
                                }
                            }
                        }
                        return Err(e);
                    },
                    Ok(a) => {
                        out.push(a);
                    },
                }
            },
        }
        proof {
            assert forall|k: int| 0 <= k < i + 1 implies #[trigger] entries@.take(i + 1)[k] is Some && address_text_ok(
                entry_bytes(entries@.take(i + 1)[k]->0),
            ) by {
                if k < i {
                    assert(entries@.take(i as int)[k] == entries@[k]);
                }
            }
        }
        i = i + 1;
    }
    assert(entries@.take(i as int) =~= entries@);
    Ok(out)
}

/// Hex text gives back the octets it was made of: each octet becomes two
/// lower-case hex digits, which decode to that octet again.
pub proof fn lemma_hex_text_decodes(b: Seq<u8>)
    ensures
        all_hex(vstd::utf8::encode_utf8(hex_text(b))),
        vstd::utf8::encode_utf8(hex_text(b)).len() == 2 * b.len(),
        hex_octets(vstd::utf8::encode_utf8(hex_text(b))) == b,
        b.len() == 16 ==> address_text_ok(vstd::utf8::encode_utf8(hex_text(b))),
{
    lemma_hex_text_shape(b);
    let t = hex_text(b);
    assert(vstd::utf8::is_ascii_chars(t));
    vstd::utf8::is_ascii_chars_encode_utf8(t);
    let e = vstd::utf8::encode_utf8(t);
    assert forall|i: int| 0 <= i < e.len() implies #[trigger] hex_val(e[i]) is Some by {
        lemma_hex_char_value(t, i);
    }
    assert forall|i: int| 0 <= i < b.len() implies #[trigger] hex_octets(e)[i] == b[i] by {
        lemma_hex_char_value(t, 2 * i);
        lemma_hex_char_value(t, 2 * i + 1);
    }
    assert(hex_octets(e) =~= b);
}

/// Hex text has two digits per octet: the high half, then the low half.
proof fn lemma_hex_text_shape(b: Seq<u8>)
    ensures
        hex_text(b).len() == 2 * b.len(),
        forall|i: int|
            0 <= i < b.len() ==> hex_text(b)[2 * i] == hex_char(#[trigger] b[i] as nat / 16) && hex_text(b)[2 * i + 1]
                == hex_char(b[i] as nat % 16),
        forall|j: int| 0 <= j < hex_text(b).len() ==> exists|d: nat| d < 16 && #[trigger] hex_text(b)[j] == hex_char(d),
    decreases b.len(),
{
    if b.len() > 0 {
        let p = b.drop_last();
        lemma_hex_text_shape(p);
        assert forall|i: int| 0 <= i < b.len() implies hex_text(b)[2 * i] == hex_char(#[trigger] b[i] as nat / 16)
            && hex_text(b)[2 * i + 1] == hex_char(b[i] as nat % 16) by {
            if i < b.len() - 1 {
                assert(b[i] == p[i]);
            }
        }
        assert forall|j: int| 0 <= j < hex_text(b).len() implies exists|d: nat|
            d < 16 && #[trigger] hex_text(b)[j] == hex_char(d) by {
            if j < hex_text(p).len() {
                assert(hex_text(b)[j] == hex_text(p)[j]);
            } else if j == hex_text(p).len() {
                let d = b.last() as nat / 16;
                assert(hex_text(b)[j] == hex_char(d));
            } else {
                let d = b.last() as nat % 16;
                assert(hex_text(b)[j] == hex_char(d));
            }
        }
    }
}

/// A digit of hex text is an ASCII hex digit whose value is the digit.
proof fn lemma_hex_char_value(t: Seq<char>, j: int)
    requires
        0 <= j < t.len(),
        exists|d: nat| d < 16 && #[trigger] t[j] == hex_char(d),
        vstd::utf8::encode_utf8(t).len() == t.len(),
        forall|i: int| 0 <= i < t.len() ==> t[i] as u8 == #[trigger] vstd::utf8::encode_utf8(t)[i],
    ensures
        hex_val(vstd::utf8::encode_utf8(t)[j]) is Some,
        forall|d: nat| d < 16 && t[j] == hex_char(d) ==> hex_val(#[trigger] vstd::utf8::encode_utf8(t)[j])->0 == d,
{
    let d = choose|d: nat| d < 16 && #[trigger] t[j] == hex_char(d);
    assert(t[j] as u8 == vstd::utf8::encode_utf8(t)[j]);
}

/// Why a reply of the Python side was refused.
#[derive(Debug)]
pub enum ReplyError {
    /// The reply reports this error.
    Failed(String),
    /// The reply holds none of what was asked for.
    Missing,
    /// An address of the reply is not the hex text of sixteen octets.
    Address(AddressTextError),
}

/// Reads the reply to a training request: `error` is the error it
/// reports, if any, and `model_path` its model path (`Some(None)` when
/// that is not a string, which cannot be read). The error comes first;
/// then the model path is owed.
pub fn read_train_reply(error: Option<String>, model_path: Option<Option<String>>) -> (r: Result<String, ReplyError>)
    requires
        error is None ==> !(model_path matches Some(None)),
    ensures
        match error {
            Some(e) => r matches Err(ReplyError::Failed(m)) && m@ == e@,
            None => match model_path {
                Some(Some(path)) => r matches Ok(p) && p@ == path@,
                _ => r matches Err(ReplyError::Missing),
            },
        },
{
    match error {
        Some(e) => Err(ReplyError::Failed(e)),
        None => match model_path {
            Some(Some(path)) => Ok(path),
            _ => Err(ReplyError::Missing),
        },
    }
}

/// Reads the reply to a generation request: `error` is the error it
/// reports, if any, and `addresses` its list of addresses (`None` when it
/// has none), each entry the hex text of an address or `None` when not a
/// string. The error comes first; then the list is owed, and every entry
/// must be the hex text of sixteen octets.
pub fn read_generate_reply(error: Option<String>, addresses: Option<Vec<Option<String>>>) -> (r: Result<
    Vec<[u8; 16]>,
    ReplyError,
>)
    ensures
        match error {
            Some(e) => r matches Err(ReplyError::Failed(m)) && m@ == e@,
            None => match addresses {
                None => r matches Err(ReplyError::Missing),
                Some(entries) => {
                    &&& r is Ok <==> entries_ok(entries@)
                    &&& (r matches Ok(v) ==> v@.len() == entries@.len() && forall|i: int|
                        0 <= i < entries@.len() ==> (#[trigger] v@[i])@ == hex_octets(entry_bytes(entries@[i]->0)))
                    &&& forall|i: int|
                        0 <= i < entries@.len() && entries_ok(entries@.take(i)) && #[trigger] entries@[i] is None
                            ==> (r matches Err(ReplyError::Address(AddressTextError::InvalidFormat)))
                    &&& forall|i: int|
                        0 <= i < entries@.len() && entries_ok(entries@.take(i)) && #[trigger] entries@[i] is Some
                            && !address_text_ok(entry_bytes(entries@[i]->0)) ==> (r matches Err(
                            ReplyError::Address(e),
                        ) && e == address_text_error(entry_bytes(entries@[i]->0)))
                },
            },
        },
{
    match error {
        Some(e) => Err(ReplyError::Failed(e)),
        None => match addresses {
            None => Err(ReplyError::Missing),
            Some(entries) => match decode_generated_addresses(&entries) {
                Ok(v) => Ok(v),
                Err(e) => Err(ReplyError::Address(e)),
            },
        },
    }
}

/// The hex text of each address, as sent to the Python side for training.
pub fn encode_addresses(addresses: &Vec<[u8; 16]>) -> (r: Vec<String>)
    ensures
        r@.len() == addresses@.len(),
        forall|i: int| 0 <= i < r@.len() ==> #[trigger] r@[i]@ == hex_text(addresses@[i]@),
{
    let mut out: Vec<String> = Vec::new();
    let mut i: usize = 0;
    while i < addresses.len()
        invariant
            0 <= i <= addresses.len(),
            out@.len() == i,
            forall|k: int| 0 <= k < i ==> #[trigger] out@[k]@ == hex_text(addresses@[k]@),
        decreases addresses.len() - i,
    {
        let a: [u8; 16] = addresses[i];
        let s = hex_encode(a.as_slice());
        out.push(s);
        i = i + 1;
    }
    out
}

/// Why the list of Python TGAs could not be read.
#[derive(Debug, Clone, Copy, PartialEq, Eq, Structural)]
pub enum TgaListError {
    /// An entry has no name.
    MissingName,
    /// An entry has no description.
    MissingDescription,
}

/// The Python TGAs listed by the Python side, each entry holding its name
/// and description when they are strings; fails at the first entry without
/// a name or without a description (the name is checked first).
pub fn python_tga_infos(entries: Vec<(Option<String>, Option<String>)>) -> (r: Result<Vec<PythonTgaInfo>, TgaListError>)
    ensures
        (forall|i: int| 0 <= i < entries@.len() ==> #[trigger] entries@[i].0 is Some && entries@[i].1 is Some)
            ==> (r matches Ok(v) && v@.len() == entries@.len() && forall|i: int| 0 <= i < v@.len() ==> (#[trigger] v@[i]).name@
            == entries@[i].0->0@ && v@[i].description@ == entries@[i].1->0@),
        forall|i: int|
            0 <= i < entries@.len() && (forall|k: int| 0 <= k < i ==> #[trigger] entries@[k].0 is Some && entries@[k].1 is Some)
                ==> (#[trigger] entries@[i].0 is None ==> r == Err::<Vec<PythonTgaInfo>, TgaListError>(TgaListError::MissingName))
                && (entries@[i].0 is Some && entries@[i].1 is None ==> r == Err::<Vec<PythonTgaInfo>, TgaListError>(TgaListError::MissingDescription)),
{
    let mut out: Vec<PythonTgaInfo> = Vec::new();
    let ghost all = entries@;
    let mut i: usize = 0;
    while i < entries.len()
        invariant
            entries@ == all,
            0 <= i <= all.len(),
            out@.len() == i,
            forall|k: int| 0 <= k < i ==> #[trigger] all[k].0 is Some && all[k].1 is Some,
            forall|k: int| 0 <= k < i ==> (#[trigger] out@[k]).name@ == all[k].0->0@ && out@[k].description@ == all[k].1->0@,
        decreases all.len() - i,
    {
        let (name, description) = match &entries[i] {
            (None, _) => {
                return Err(TgaListError::MissingName);
            },
            (Some(_), None) => {
                return Err(TgaListError::MissingDescription);
            },
            (Some(n), Some(d)) => (n.clone(), d.clone()),
        };
        out.push(PythonTgaInfo { name, description });
        i = i + 1;
    }
    Ok(out)
}

} // verus!
