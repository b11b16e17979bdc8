//! The two input formats, address lists and scan results, read line by
//! line. The reading itself is left to the caller, which hands each line
//! over and acts on what comes back.

use vstd::prelude::*;
use crate::text::{
    trim, split_commas, views, utf8_len, utf8_length, trim_chars, split_on_commas,
    chars_equal,
};

verus! {

/// What an input holds.
#[derive(Debug, Clone, Copy, PartialEq, Eq, Structural)]
pub enum Format {
    IpList,
    ScanResult,
    Unknown,
}

/// Why an input could not be read.
#[derive(Debug)]
pub enum FormatError {
    /// The input has no line at all.
    Empty,
    /// A scan result ended before its header.
    UnexpectedEof,
    /// The header of a scan result names no `saddr` column.
    NoSaddrColumn,
    /// A row, here trimmed, has no field at the `saddr` position.
    TooFewFields(Vec<char>),
    /// The `saddr` field of a row, given here, is no IPv6 address.
    InvalidAddress(Vec<char>),
}

// ---------------------------------------------------------------------------
// Address lists
// ---------------------------------------------------------------------------

/// `u8::is_ascii_whitespace`: space, tab, line feed, form feed and carriage
/// return.
pub open spec fn is_ascii_ws(b: u8) -> bool {
    b == 32u8 || b == 9u8 || b == 10u8 || b == 12u8 || b == 13u8
}

/// Every byte of `line` is white space.
pub open spec fn all_ascii_ws(line: Seq<u8>) -> bool {
    forall|i: int| 0 <= i < line.len() ==> is_ascii_ws(#[trigger] line[i])
}

/// What to do with one line of an address list.
#[derive(Debug, Clone, Copy, PartialEq, Eq, Structural)]
pub enum LineAction {
    /// Nothing to read on this line.
    Skip,
    /// Parse the bytes `start..end` of the line as an address.
    Parse { start: usize, end: usize },
}

/// The action for `line`: an empty line and a comment line (starting with
/// `#`) are skipped; otherwise the line without its surrounding white space
/// is parsed. A line of white space alone has no first or last visible
/// byte, and both positions then default to 0, so its first byte is parsed.
pub open spec fn ip_line_action(line: Seq<u8>, r: LineAction) -> bool {
    if line.len() == 0 || line[0] == 35u8 {
        r is Skip
    } else if all_ascii_ws(line) {
        r == (LineAction::Parse { start: 0, end: 1 })
    } else {
        r matches LineAction::Parse { start, end } && {
            &&& start < end <= line.len()
            &&& !is_ascii_ws(line[start as int])
            &&& !is_ascii_ws(line[end - 1])
            &&& forall|i: int| 0 <= i < start ==> is_ascii_ws(#[trigger] line[i])
            &&& forall|i: int| end <= i < line.len() ==> is_ascii_ws(#[trigger] line[i])
        }
    }
}

/// Whether a byte is ASCII white space.
fn ascii_ws(b: u8) -> (r: bool)
    ensures
        r == is_ascii_ws(b),
{
    b == 32u8 || b == 9u8 || b == 10u8 || b == 12u8 || b == 13u8
}

/// Reads an address list: one address per line, comments and empty lines
/// skipped. The caller reads the lines from `reader`.
pub struct IpListIterator<R> {
    pub reader: R,
    total_lines: usize,
    bytes_read: u64,
}

impl<R> IpListIterator<R> {
    /// The source the lines come from.
    pub closed spec fn spec_reader(&self) -> R {
        self.reader
    }

    /// The bytes of all the lines handed over so far.
    pub closed spec fn spec_bytes_read(&self) -> u64 {
        self.bytes_read
    }

    /// How many lines were handed over so far.
    pub closed spec fn spec_total_lines(&self) -> usize {
        self.total_lines
    }

    /// A reader of an address list from `reader`, with nothing read yet.
    pub fn new(reader: R) -> (r: Self)
        ensures
            r.spec_reader() == reader,
            r.spec_bytes_read() == 0,
            r.spec_total_lines() == 0,
    {
        IpListIterator { reader, total_lines: 0, bytes_read: 0 }
    }

    /// The bytes of all the lines handed over so far.
    pub fn bytes_read(&self) -> (r: u64)
        ensures
            r == self.spec_bytes_read(),
    {
        self.bytes_read
    }

    /// How many lines were handed over so far.
    pub fn total_lines(&self) -> (r: usize)
        ensures
            r == self.spec_total_lines(),
    {
        self.total_lines
    }

    /// Counts one more line, `line` with its line ending, and says what to
    /// do with it.
    pub fn next_line(&mut self, line: &[u8]) -> (r: LineAction)
        requires
            old(self).spec_total_lines() < usize::MAX,
            old(self).spec_bytes_read() + line@.len() <= u64::MAX,
        ensures
            final(self).spec_reader() == old(self).spec_reader(),
            final(self).spec_total_lines() == old(self).spec_total_lines() + 1,
            final(self).spec_bytes_read() == old(self).spec_bytes_read() + line@.len(),
            ip_line_action(line@, r),
    {
        self.total_lines = self.total_lines + 1;
        self.bytes_read = self.bytes_read + line.len() as u64;
        let n = line.len();
        if n == 0 || line[0] == 35u8 {
            return LineAction::Skip;
        }
        let mut start: usize = 0;
        while start < n && ascii_ws(line[start])
            invariant
                0 <= start <= n == line@.len(),
                forall|i: int| 0 <= i < start ==> is_ascii_ws(#[trigger] line@[i]),
            decreases n - start,
        {
            start = start + 1;
        }
        if start == n {
            return LineAction::Parse { start: 0, end: 1 };
        }
        let mut end: usize = n;
        while end > start && ascii_ws(line[end - 1])
            invariant
                start < n == line@.len(),
                start < end <= n,
                !is_ascii_ws(line@[start as int]),
                forall|i: int| end <= i < n ==> is_ascii_ws(#[trigger] line@[i]),
            decreases end - start,
        {
            end = end - 1;
        }
        proof {
            assert(!all_ascii_ws(line@));
        }
        LineAction::Parse { start, end }
    }
}

// ---------------------------------------------------------------------------
// Scan results
// ---------------------------------------------------------------------------

/// The column that holds the source address.
pub open spec fn saddr_word() -> Seq<char> {
    seq!['s', 'a', 'd', 'd', 'r']
}

/// The column that holds the ICMP type.
pub open spec fn type_word() -> Seq<char> {
    seq!['t', 'y', 'p', 'e']
}

/// The ICMP type of an echo reply.
pub open spec fn echo_reply_word() -> Seq<char> {
    seq!['1', '2', '9']
}

fn saddr_chars() -> (r: Vec<char>)
    ensures
        r@ == saddr_word(),
{
    let mut r: Vec<char> = Vec::new();
    r.push('s');
    r.push('a');
    r.push('d');
    r.push('d');
    r.push('r');
    assert(r@ =~= saddr_word());
    r
}

fn type_chars() -> (r: Vec<char>)
    ensures
        r@ == type_word(),
{
    let mut r: Vec<char> = Vec::new();
    r.push('t');
    r.push('y');
    r.push('p');
    r.push('e');
    assert(r@ =~= type_word());
    r
}

fn echo_reply_chars() -> (r: Vec<char>)
    ensures
        r@ == echo_reply_word(),
{
    let mut r: Vec<char> = Vec::new();
    r.push('1');
    r.push('2');
    r.push('9');
    assert(r@ =~= echo_reply_word());
    r
}

/// The first position at or after `from` where `cols` holds `name`.
pub open spec fn position_from(cols: Seq<Seq<char>>, name: Seq<char>, from: int) -> Option<int>
    decreases cols.len() - from,
{
    if from < 0 || from >= cols.len() {
        None
    } else if cols[from] == name {
        Some(from)
    } else {
        position_from(cols, name, from + 1)
    }
}

/// The first position where `cols` holds `name`.
pub open spec fn position_of(cols: Seq<Seq<char>>, name: Seq<char>) -> Option<int> {
    position_from(cols, name, 0)
}

/// A position found is one of `cols`.
proof fn lemma_position_in_range(cols: Seq<Seq<char>>, name: Seq<char>, from: int)
    requires
        0 <= from,
    ensures
        match position_from(cols, name, from) {
            Some(i) => from <= i < cols.len(),
            None => true,
        },
    decreases cols.len() - from,
{
    if from < cols.len() && cols[from] != name {
        lemma_position_in_range(cols, name, from + 1);
    }
}

/// The first position where `cols` holds `name`.
fn find_column(cols: &Vec<Vec<char>>, name: &Vec<char>) -> (r: Option<usize>)
    ensures
        match position_of(views(cols@), name@) {
            Some(i) => 0 <= i < cols.len() && r == Some(i as usize),
            None => r is None,
        },
{
    let ghost v = views(cols@);
    proof {
        lemma_position_in_range(v, name@, 0);
    }
    let mut i: usize = 0;
    while i < cols.len()
        invariant
            0 <= i <= cols.len(),
            v == views(cols@),
            v.len() == cols.len(),
            position_of(v, name@) == position_from(v, name@, i as int),
        decreases cols.len() - i,
    {
        assert(v[i as int] == cols@[i as int]@);
        if chars_equal(&cols[i], name) {
            return Some(i);
        }
        i = i + 1;
    }
    None
}

/// The fields of a scan row: the trimmed line split on commas, each piece
/// trimmed.
pub open spec fn row_fields(trimmed: Seq<char>) -> Seq<Seq<char>> {
    split_commas(trimmed).map_values(|f: Seq<char>| trim(f))
}

/// A line of a scan result that is skipped: empty or a comment once
/// trimmed.
pub open spec fn is_blank_or_comment(trimmed: Seq<char>) -> bool {
    trimmed.len() == 0 || trimmed[0] == '#'
}

/// One row of a scan result.
#[derive(Debug)]
pub struct ScanRow {
    /// The trimmed fields of the row.
    pub fields: Vec<Vec<char>>,
    /// The field at the `saddr` position.
    pub address_text: Vec<char>,
    /// Whether the row is an echo reply (ICMP type 129).
    pub is_active: bool,
}

/// Reads a scan result: a CSV header naming a `saddr` column (and maybe a
/// `type` column), then one row per line. The caller reads the lines from
/// `reader`.
pub struct ScanResultIterator<R> {
    pub reader: R,
    bytes_read: u64,
    saddr_idx: usize,
    type_idx: Option<usize>,
}

impl<R> ScanResultIterator<R> {
    /// The source the lines come from.
    pub closed spec fn spec_reader(&self) -> R {
        self.reader
    }

    /// The bytes of the rows handed over so far (the header is not
    /// counted).
    pub closed spec fn spec_bytes_read(&self) -> u64 {
        self.bytes_read
    }

    /// The position of the `saddr` column.
    pub closed spec fn spec_saddr_idx(&self) -> usize {
        self.saddr_idx
    }

    /// The position of the `type` column, if there is one.
    pub closed spec fn spec_type_idx(&self) -> Option<usize> {
        self.type_idx
    }

    /// A reader of a scan result from `reader`, whose first line, as read
    /// from it, is `header` (`None` when the input had no line).
    pub fn new(reader: R, header: Option<&Vec<char>>) -> (r: Result<Self, FormatError>)
        ensures
            match header {
                None => r matches Err(FormatError::UnexpectedEof),
                Some(h) => match position_of(split_commas(trim(h@)), saddr_word()) {
                    None => r matches Err(FormatError::NoSaddrColumn),
                    Some(s) => r matches Ok(it) && {
                        &&& it.spec_reader() == reader
                        &&& it.spec_bytes_read() == 0
                        &&& it.spec_saddr_idx() == s
                        &&& match position_of(split_commas(trim(h@)), type_word()) {
                            Some(t) => it.spec_type_idx() == Some(t as usize),
                            None => it.spec_type_idx() is None,
                        }
                    },
                },
            },
    {
        let h = match header {
            None => {
                return Err(FormatError::UnexpectedEof);
            },
            Some(h) => h,
        };
        let t = trim_chars(h);
        let cols = split_on_commas(&t);
        let saddr_idx = match find_column(&cols, &saddr_chars()) {
            None => {
                return Err(FormatError::NoSaddrColumn);
            },
            Some(i) => i,
        };
        let type_idx = find_column(&cols, &type_chars());
        Ok(ScanResultIterator { reader, bytes_read: 0, saddr_idx, type_idx })
    }

    /// The bytes of the rows handed over so far.
    pub fn bytes_read(&self) -> (r: u64)
        ensures
            r == self.spec_bytes_read(),
    {
        self.bytes_read
    }

    /// Counts one more line, `line` with its line ending, and reads it:
    /// `None` for an empty or comment line, the row otherwise. Fails on a
    /// row with no field at the `saddr` position.
    pub fn next_line(&mut self, line: &Vec<char>) -> (r: Result<Option<ScanRow>, FormatError>)
        requires
            old(self).spec_bytes_read() + utf8_len(line@) <= u64::MAX,
        ensures
            final(self).spec_reader() == old(self).spec_reader(),
            final(self).spec_saddr_idx() == old(self).spec_saddr_idx(),
            final(self).spec_type_idx() == old(self).spec_type_idx(),
            final(self).spec_bytes_read() == old(self).spec_bytes_read() + utf8_len(line@),
            is_blank_or_comment(trim(line@)) ==> r matches Ok(None),
            !is_blank_or_comment(trim(line@)) && row_fields(trim(line@)).len() <= old(self).spec_saddr_idx()
                ==> (r matches Err(FormatError::TooFewFields(t)) && t@ == trim(line@)),
            !is_blank_or_comment(trim(line@)) && row_fields(trim(line@)).len() > old(self).spec_saddr_idx()
                ==> (r matches Ok(Some(row)) && {
                &&& views(row.fields@) == row_fields(trim(line@))
                &&& row.address_text@ == row_fields(trim(line@))[old(self).spec_saddr_idx() as int]
                &&& row.is_active == match old(self).spec_type_idx() {
                    Some(k) => k < row_fields(trim(line@)).len() && row_fields(trim(line@))[k as int]
                        == echo_reply_word(),
                    None => false,
                }
            }),
    {
        let n = utf8_length(line);
        self.bytes_read = self.bytes_read + n;
        let t = trim_chars(line);
        if t.len() == 0 || t[0] == '#' {
            return Ok(None);
        }
        let pieces = split_on_commas(&t);
        let ghost target = row_fields(t@);
        let mut fields: Vec<Vec<char>> = Vec::new();
        let mut i: usize = 0;
        while i < pieces.len()
            invariant
                0 <= i <= pieces.len(),
                views(pieces@) == split_commas(t@),
                target == row_fields(t@),
                views(fields@) == target.take(i as int),
            decreases pieces.len() - i,
        {
            let f = trim_chars(&pieces[i]);
            assert(views(pieces@)[i as int] == pieces@[i as int]@);
            assert(target.len() == pieces.len());
            assert(target[i as int] == trim(pieces@[i as int]@));
            let ghost prev = views(fields@);
            fields.push(f);
            assert(views(fields@) =~= prev.push(target[i as int]));
            assert(prev.push(target[i as int]) =~= target.take(i + 1));
            i = i + 1;
        }
        assert(views(fields@) =~= target);
        if fields.len() <= self.saddr_idx {
            return Err(FormatError::TooFewFields(t));
        }
        let is_active = match self.type_idx {
            Some(k) => k < fields.len() && chars_equal(&fields[k], &echo_reply_chars()),
            None => false,
        };
        let address_text = copy_all(&fields[self.saddr_idx]);
        proof {
            assert(views(fields@)[self.saddr_idx as int] == fields@[self.saddr_idx as int]@);
            match self.type_idx {
                Some(k) => if k < fields.len() {
                    assert(views(fields@)[k as int] == fields@[k as int]@);
                },
                None => {},
            }
        }
        Ok(Some(ScanRow { fields, address_text, is_active }))
    }
}

/// A copy of `s`.
fn copy_all(s: &Vec<char>) -> (r: Vec<char>)
    ensures
        r@ == s@,
{
    let r = crate::text::copy_range(s, 0, s.len());
    assert(s@.subrange(0, s@.len() as int) =~= s@);
    r
}

/// A row of a scan result whose `saddr` field is an IPv6 address.
#[derive(Debug)]
pub struct ScanResultRow {
    pub address: u128,
    pub is_active: bool,
    pub raw_fields: Vec<Vec<char>>,
}

/// Finishes a row: `address` is what its `saddr` field reads as an IPv6
/// address (`None` when it is none, as the caller's parser says); a row
/// whose field is no address fails with that field.
pub fn finish_row(row: ScanRow, address: Option<u128>) -> (r: Result<ScanResultRow, FormatError>)
    ensures
        match address {
            Some(a) => r matches Ok(res) && res.address == a && res.is_active == row.is_active && views(
                res.raw_fields@,
            ) == views(row.fields@),
            None => r matches Err(FormatError::InvalidAddress(t)) && t@ == row.address_text@,
        },
{
    match address {
        Some(a) => Ok(ScanResultRow { address: a, is_active: row.is_active, raw_fields: row.fields }),
        None => Err(FormatError::InvalidAddress(row.address_text)),
    }
}

// ---------------------------------------------------------------------------
// Telling the formats apart
// ---------------------------------------------------------------------------

/// A line with something to read: not blank and not a comment once
/// trimmed.
pub open spec fn is_content(line: Seq<char>) -> bool {
    !is_blank_or_comment(trim(line))
}

/// How far the search for the first line worth reading has come.
#[derive(Debug, Clone, Copy, PartialEq, Eq, Structural)]
pub enum SniffPhase {
    /// No line read yet.
    Start,
    /// The first line was blank or a comment; more lines are read.
    Skipping,
    /// The line to look at is known.
    Done,
}

/// Finds the line from which the format of an input is told: the first
/// line that is neither blank nor a comment. Blank and comment lines are
/// passed over, and nothing of them is kept.
pub struct FormatSniffer {
    line: Vec<char>,
    phase: SniffPhase,
}

impl FormatSniffer {
    /// The text held.
    pub closed spec fn spec_line(&self) -> Seq<char> {
        self.line@
    }

    /// How far the search has come.
    pub closed spec fn spec_phase(&self) -> SniffPhase {
        self.phase
    }

    /// A search with no line read.
    pub fn new() -> (r: Self)
        ensures
            r.spec_phase() == SniffPhase::Start,
            r.spec_line() == Seq::<char>::empty(),
    {
        FormatSniffer { line: Vec::new(), phase: SniffPhase::Start }
    }

    /// Takes what the next read gave (`None` at the end of the input) and
    /// says whether another line is wanted. Fails when the input has no
    /// line at all; when the input ends after blank and comment lines only,
    /// no text is held.
    pub fn feed(&mut self, read: Option<&Vec<char>>) -> (r: Result<bool, FormatError>)
        requires
            old(self).spec_phase() != SniffPhase::Done,
        ensures
            match read {
                None => {
                    &&& final(self).spec_phase() == SniffPhase::Done
                    &&& final(self).spec_line() == old(self).spec_line()
                    &&& if old(self).spec_phase() == SniffPhase::Start {
                        r matches Err(FormatError::Empty)
                    } else {
                        r == Ok::<bool, FormatError>(false)
                    }
                },
                Some(l) => if is_content(l@) {
                    &&& r == Ok::<bool, FormatError>(false)
                    &&& final(self).spec_phase() == SniffPhase::Done
                    &&& final(self).spec_line() == l@
                } else {
                    &&& r == Ok::<bool, FormatError>(true)
                    &&& final(self).spec_phase() == SniffPhase::Skipping
                    &&& final(self).spec_line() == Seq::<char>::empty()
                },
            },
    {
        match read {
            None => {
                let was_start = match self.phase {
                    SniffPhase::Start => true,
                    _ => false,
                };
                self.phase = SniffPhase::Done;
                if was_start {
                    Err(FormatError::Empty)
                } else {
                    Ok(false)
                }
            },
            Some(l) => {
                let t = trim_chars(l);
                if t.len() == 0 || t[0] == '#' {
                    self.line = Vec::new();
                    self.phase = SniffPhase::Skipping;
                    Ok(true)
                } else {
                    self.line = copy_all(l);
                    self.phase = SniffPhase::Done;
                    Ok(false)
                }
            },
        }
    }

    /// The trimmed text from which the format is told.
    pub fn content(&self) -> (r: Vec<char>)
        ensures
            r@ == trim(self.spec_line()),
    {
        trim_chars(&self.line)
    }
}

/// `c` lowered if it is an ASCII capital letter.
pub open spec fn ascii_lower(c: char) -> char {
    if 'A' <= c <= 'Z' {
        ((c as u32) + 32) as char
    } else {
        c
    }
}

/// Some five consecutive characters of `s` read `saddr` once ASCII capitals
/// are lowered. This is what `s.to_lowercase().contains("saddr")` tests: no
/// character but `S`, `A`, `D`, `R` and the letters themselves lowers to
/// one of these letters.
pub open spec fn mentions_saddr(s: Seq<char>) -> bool {
    exists|i: int| 0 <= i && i + 5 <= s.len() && #[trigger] saddr_at(s, i)
}

/// The five characters of `s` from position `i` read `saddr` once ASCII
/// capitals are lowered.
pub open spec fn saddr_at(s: Seq<char>, i: int) -> bool {
    forall|k: int| 0 <= k < 5 ==> #[trigger] ascii_lower(s[i + k]) == saddr_word()[k]
}

/// `s` holds a comma.
pub open spec fn has_comma(s: Seq<char>) -> bool {
    exists|i: int| 0 <= i < s.len() && s[i] == ','
}

/// The format told by a trimmed content line, given whether that line
/// parses as an IP address: a comma-separated line naming `saddr` is a scan
/// result; an address is an address list; any other comma-separated line
/// is a scan result; the rest is unknown.
pub open spec fn spec_classify(trimmed: Seq<char>, parses_as_ip: bool) -> Format {
    if has_comma(trimmed) && mentions_saddr(trimmed) {
        Format::ScanResult
    } else if parses_as_ip {
        Format::IpList
    } else if has_comma(trimmed) {
        Format::ScanResult
    } else {
        Format::Unknown
    }
}

fn lower_ascii(c: char) -> (r: char)
    ensures
        r == ascii_lower(c),
{
    if 'A' <= c && c <= 'Z' {
        let u = (c as u32) + 32;
        assert(0x61 <= u <= 0x7a);
        char_of(u)
    } else {
        c
    }
}

/// The lower-case ASCII letter with code `u`.
fn char_of(u: u32) -> (r: char)
    requires
        0x61 <= u <= 0x7a,
    ensures
        r == u as char,
{
    let b: u8 = u as u8;
    b as char
}

fn window_is_saddr(s: &Vec<char>, i: usize) -> (r: bool)
    requires
        i + 5 <= s.len(),
    ensures
        r == saddr_at(s@, i as int),
{
    let w = saddr_chars();
    let mut k: usize = 0;
    while k < 5
        invariant
            0 <= k <= 5,
            i + 5 <= s.len(),
            w@ == saddr_word(),
            forall|j: int| 0 <= j < k ==> #[trigger] ascii_lower(s@[i + j]) == saddr_word()[j],
        decreases 5 - k,
    {
        if lower_ascii(s[i + k]) != w[k] {
            return false;
        }
        k = k + 1;
    }
    true
}

/// Whether some five consecutive characters of `s` read `saddr`, ignoring
/// ASCII case.
fn contains_saddr(s: &Vec<char>) -> (r: bool)
    ensures
        r == mentions_saddr(s@),
{
    if s.len() < 5 {
        return false;
    }
    let mut i: usize = 0;
    while i <= s.len() - 5
        invariant
            5 <= s.len(),
            0 <= i <= s.len() - 4,
            forall|j: int| 0 <= j < i ==> !#[trigger] saddr_at(s@, j),
        decreases s.len() - i,
    {
        if window_is_saddr(s, i) {
            return true;
        }
        i = i + 1;
    }
    false
}

fn contains_comma(s: &Vec<char>) -> (r: bool)
    ensures
        r == has_comma(s@),
{
    let mut i: usize = 0;
    while i < s.len()
        invariant
            0 <= i <= s.len(),
            forall|j: int| 0 <= j < i ==> s@[j] != ',',
        decreases s.len() - i,
    {
        if s[i] == ',' {
            return true;
        }
        i = i + 1;
    }
    false
}

/// The format told by the trimmed content line `trimmed`; `parses_as_ip`
/// says whether that line parses as an IP address.
pub fn classify(trimmed: &Vec<char>, parses_as_ip: bool) -> (r: Format)
    ensures
        r == spec_classify(trimmed@, parses_as_ip),
{
    let comma = contains_comma(trimmed);
    if comma && contains_saddr(trimmed) {
        Format::ScanResult
    } else if parses_as_ip {
        Format::IpList
    } else if comma {
        Format::ScanResult
    } else {
        Format::Unknown
    }
}

} // verus!
