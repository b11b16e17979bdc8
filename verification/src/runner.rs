//! The command-level data flow: tables of address text, the predicates a
//! user names on the command line, and the filtering and de-duplicating
//! steps that run before an analysis.

use vstd::prelude::*;
use crate::predicates::{
    PredicateKind, lookup_predicate, spec_lookup_predicate, lemma_lookup_own_name,
};
use crate::analyze::{AnalysisType, AnalysisOutput, AnalyzeError, analyze, analysis_result, column_fits, subnet_prefix_ok};

verus! {

/// A predicate as it is named on the command line.
#[derive(Clone, Copy, Debug, PartialEq, Eq, Structural)]
pub enum AddressPredicate {
    Loopback,
    Unspecified,
    LinkLocal,
    UniqueLocal,
    Multicast,
    SolicitedNode,
    Ipv4Mapped,
    Ipv4ToIpv6,
    ExtendedIpv4,
    Ipv6ToIpv4,
    Documentation,
    Documentation2,
    Benchmarking,
    Teredo,
    IetfProtocol,
    PortControl,
    Turn,
    DnsSd,
    Amt,
    SegmentRouting,
    DiscardOnly,
    DummyPrefix,
    As112V6,
    DirectAs112,
    DeprecatedOrchid,
    OrchidV2,
    DroneRemoteId,
    Eui64,
    LowByteHost,
}

impl AddressPredicate {
    /// The name by which the predicate is looked up in the predicate list.
    pub open spec fn spec_filter_name(self) -> Seq<char> {
        match self {
            AddressPredicate::Loopback => "loopback"@,
            AddressPredicate::Unspecified => "unspecified"@,
            AddressPredicate::LinkLocal => "link_local"@,
            AddressPredicate::UniqueLocal => "unique_local"@,
            AddressPredicate::Multicast => "multicast"@,
            AddressPredicate::SolicitedNode => "solicited_node"@,
            AddressPredicate::Ipv4Mapped => "ipv4_mapped"@,
            AddressPredicate::Ipv4ToIpv6 => "ipv4_to_ipv6"@,
            AddressPredicate::ExtendedIpv4 => "extended_ipv4"@,
            AddressPredicate::Ipv6ToIpv4 => "ipv6_to_ipv4"@,
            AddressPredicate::Documentation => "documentation"@,
            AddressPredicate::Documentation2 => "documentation_2"@,
            AddressPredicate::Benchmarking => "benchmarking"@,
            AddressPredicate::Teredo => "teredo"@,
            AddressPredicate::IetfProtocol => "ietf_protocol"@,
            AddressPredicate::PortControl => "port_control"@,
            AddressPredicate::Turn => "turn"@,
            AddressPredicate::DnsSd => "dns_sd"@,
            AddressPredicate::Amt => "amt"@,
            AddressPredicate::SegmentRouting => "segment_routing"@,
            AddressPredicate::DiscardOnly => "discard_only"@,
            AddressPredicate::DummyPrefix => "dummy_prefix"@,
            AddressPredicate::As112V6 => "as112_v6"@,
            AddressPredicate::DirectAs112 => "direct_as112"@,
            AddressPredicate::DeprecatedOrchid => "deprecated_orchid"@,
            AddressPredicate::OrchidV2 => "orchid_v2"@,
            AddressPredicate::DroneRemoteId => "drone_remote_id"@,
            AddressPredicate::Eui64 => "eui64"@,
            AddressPredicate::LowByteHost => "low_byte_host"@,
        }
    }

    /// The predicate of the list that the command-line predicate stands for.
    pub open spec fn spec_kind(self) -> PredicateKind {
        match self {
            AddressPredicate::Loopback => PredicateKind::Loopback,
            AddressPredicate::Unspecified => PredicateKind::Unspecified,
            AddressPredicate::LinkLocal => PredicateKind::LinkLocal,
            AddressPredicate::UniqueLocal => PredicateKind::UniqueLocal,
            AddressPredicate::Multicast => PredicateKind::Multicast,
            AddressPredicate::SolicitedNode => PredicateKind::SolicitedNode,
            AddressPredicate::Ipv4Mapped => PredicateKind::Ipv4Mapped,
            AddressPredicate::Ipv4ToIpv6 => PredicateKind::Ipv4ToIpv6,
            AddressPredicate::ExtendedIpv4 => PredicateKind::ExtendedIpv4,
            AddressPredicate::Ipv6ToIpv4 => PredicateKind::Ipv6ToIpv4,
            AddressPredicate::Documentation => PredicateKind::Documentation,
            AddressPredicate::Documentation2 => PredicateKind::Documentation2,
            AddressPredicate::Benchmarking => PredicateKind::Benchmarking,
            AddressPredicate::Teredo => PredicateKind::Teredo,
            AddressPredicate::IetfProtocol => PredicateKind::IetfProtocol,
            AddressPredicate::PortControl => PredicateKind::PortControl,
            AddressPredicate::Turn => PredicateKind::Turn,
            AddressPredicate::DnsSd => PredicateKind::DnsSd,
            AddressPredicate::Amt => PredicateKind::Amt,
            AddressPredicate::SegmentRouting => PredicateKind::SegmentRouting,
            AddressPredicate::DiscardOnly => PredicateKind::DiscardOnly,
            AddressPredicate::DummyPrefix => PredicateKind::DummyPrefix,
            AddressPredicate::As112V6 => PredicateKind::As112V6,
            AddressPredicate::DirectAs112 => PredicateKind::DirectAs112,
            AddressPredicate::DeprecatedOrchid => PredicateKind::DeprecatedOrchid,
            AddressPredicate::OrchidV2 => PredicateKind::OrchidV2,
            AddressPredicate::DroneRemoteId => PredicateKind::DroneRemoteId,
            AddressPredicate::Eui64 => PredicateKind::Eui64,
            AddressPredicate::LowByteHost => PredicateKind::LowByteHost,
        }
    }

    /// The name by which the predicate is looked up in the predicate list.
    pub fn to_filter_name(&self) -> (r: String)
        ensures
            r@ == self.spec_filter_name(),
    {
        let s: &str = match self {
            AddressPredicate::Loopback => "loopback",
            AddressPredicate::Unspecified => "unspecified",
            AddressPredicate::LinkLocal => "link_local",
            AddressPredicate::UniqueLocal => "unique_local",
            AddressPredicate::Multicast => "multicast",
            AddressPredicate::SolicitedNode => "solicited_node",
            AddressPredicate::Ipv4Mapped => "ipv4_mapped",
            AddressPredicate::Ipv4ToIpv6 => "ipv4_to_ipv6",
            AddressPredicate::ExtendedIpv4 => "extended_ipv4",
            AddressPredicate::Ipv6ToIpv4 => "ipv6_to_ipv4",
            AddressPredicate::Documentation => "documentation",
            AddressPredicate::Documentation2 => "documentation_2",
            AddressPredicate::Benchmarking => "benchmarking",
            AddressPredicate::Teredo => "teredo",
            AddressPredicate::IetfProtocol => "ietf_protocol",
            AddressPredicate::PortControl => "port_control",
            AddressPredicate::Turn => "turn",
            AddressPredicate::DnsSd => "dns_sd",
            AddressPredicate::Amt => "amt",
            AddressPredicate::SegmentRouting => "segment_routing",
            AddressPredicate::DiscardOnly => "discard_only",
            AddressPredicate::DummyPrefix => "dummy_prefix",
            AddressPredicate::As112V6 => "as112_v6",
            AddressPredicate::DirectAs112 => "direct_as112",
            AddressPredicate::DeprecatedOrchid => "deprecated_orchid",
            AddressPredicate::OrchidV2 => "orchid_v2",
            AddressPredicate::DroneRemoteId => "drone_remote_id",
            AddressPredicate::Eui64 => "eui64",
            AddressPredicate::LowByteHost => "low_byte_host",
        };
        s.to_owned()
    }
}
/// One row of a table of text cells. `addr` is the IPv6 address that the
/// caller read from the text of the first cell (`None` when there is no
/// first cell, it is null or it is no IPv6 address); the library takes it
/// as given, the text parser of IPv6 addresses lying outside it.
#[derive(Debug)]
pub struct Row {
    pub cells: Vec<Option<String>>,
    pub addr: Option<u128>,
}

/// A table of text cells: `width` columns, each row holding one cell per
/// column.
#[derive(Debug)]
pub struct Frame {
    pub width: usize,
    pub rows: Vec<Row>,
}

/// The view of a cell: its text, or `None` for a null cell.
pub open spec fn cell_view(c: Option<String>) -> Option<Seq<char>> {
    match c {
        Some(s) => Some(s@),
        None => None,
    }
}

/// The cells of a row, by their text.
pub open spec fn row_key(r: Row) -> Seq<Option<Seq<char>>> {
    r.cells@.map_values(|c: Option<String>| cell_view(c))
}

impl Frame {
    /// Every row has one cell per column, and a table without columns has
    /// no rows.
    pub open spec fn wf(self) -> bool {
        &&& forall|i: int| 0 <= i < self.rows@.len() ==> #[trigger] self.rows@[i].cells@.len()
            == self.width
        &&& self.width == 0 ==> self.rows@.len() == 0
    }
}

/// What a row holds, seen as values: the text of its cells and its address.
pub open spec fn row_view(r: Row) -> (Seq<Option<Seq<char>>>, Option<u128>) {
    (row_key(r), r.addr)
}

/// The views of the rows of a table.
pub open spec fn rows_view(rows: Seq<Row>) -> Seq<(Seq<Option<Seq<char>>>, Option<u128>)> {
    rows.map_values(|r: Row| row_view(r))
}

/// The text of the first cell of a row, when there is one and it is not
/// null.
pub open spec fn first_text(v: (Seq<Option<Seq<char>>>, Option<u128>)) -> Option<Seq<char>> {
    if v.0.len() > 0 {
        v.0[0]
    } else {
        None
    }
}

/// Whether a filter keeps a row: its first cell has text, that text is an
/// address, and the predicate's verdict on it is `keep_matching`.
pub open spec fn filter_keeps(
    v: (Seq<Option<Seq<char>>>, Option<u128>),
    k: PredicateKind,
    keep_matching: bool,
) -> bool {
    &&& first_text(v) is Some
    &&& v.1 is Some
    &&& k.spec_holds(v.1->0) == keep_matching
}

/// What a filter makes of `rows`: for each kept row, in order, a row of one
/// cell holding the text of its first cell, with its address.
pub open spec fn spec_filter_rows(
    rows: Seq<(Seq<Option<Seq<char>>>, Option<u128>)>,
    k: PredicateKind,
    keep_matching: bool,
) -> Seq<(Seq<Option<Seq<char>>>, Option<u128>)>
    decreases rows.len(),
{
    if rows.len() == 0 {
        Seq::empty()
    } else {
        let prev = spec_filter_rows(rows.drop_last(), k, keep_matching);
        let last = rows.last();
        if filter_keeps(last, k, keep_matching) {
            prev.push((seq![first_text(last)], last.1))
        } else {
            prev
        }
    }
}

/// Why a step of the command pipeline failed.
#[derive(Debug)]
pub enum RunError {
    /// No predicate of the list has this name.
    NoSuchPredicate(String),
    /// An entropy range whose start is not below its end.
    BitRangeEmpty,
    /// The analysis refused to run.
    Analysis(AnalyzeError),
}

/// A row of one cell holding a copy of `text`, with address `addr`.
fn address_row(text: &String, addr: u128) -> (r: Row)
    ensures
        row_view(r) == (seq![Some(text@)], Some(addr)),
        r.cells@.len() == 1,
{
    let mut cells: Vec<Option<String>> = Vec::new();
    cells.push(Some(text.clone()));
    let r = Row { cells, addr: Some(addr) };
    assert(row_key(r) =~= seq![Some(text@)]);
    r
}

/// The rows of `rows` that a filter on `k` keeps, as address rows.
pub fn filter_rows(rows: &Vec<Row>, k: PredicateKind, keep_matching: bool) -> (out: Vec<Row>)
    ensures
        rows_view(out@) == spec_filter_rows(rows_view(rows@), k, keep_matching),
        forall|j: int| 0 <= j < out@.len() ==> #[trigger] out@[j].cells@.len() == 1,
{
    let mut out: Vec<Row> = Vec::new();
    let mut i: usize = 0;
    while i < rows.len()
        invariant
            0 <= i <= rows.len(),
            rows_view(out@) == spec_filter_rows(rows_view(rows@).take(i as int), k, keep_matching),
            forall|j: int| 0 <= j < out@.len() ==> #[trigger] out@[j].cells@.len() == 1,
        decreases rows.len() - i,
    {
        let row = &rows[i];
        let ghost pre = rows_view(rows@).take(i as int);
        let ghost cur = rows_view(rows@).take(i + 1);
        assert(cur.drop_last() =~= pre);
        assert(cur.last() == row_view(rows@[i as int]));
        let ghost before = out@;
        if row.cells.len() > 0 {
            match &row.cells[0] {
                Some(text) => {
                    match row.addr {
                        Some(a) => {
                            if k.holds(a) == keep_matching {
                                let nr = address_row(text, a);
                                out.push(nr);
                                assert(rows_view(out@) =~= rows_view(before).push(row_view(nr)));
                            }
                        },
                        None => {},
                    }
                },
                None => {},
            }
        }
        i = i + 1;
    }
    assert(rows_view(rows@).take(rows.len() as int) =~= rows_view(rows@));
    out
}

/// Keeps (`keep_matching`) or drops (`!keep_matching`) the rows whose first-column
/// address satisfies the predicate named by `filter_predicate`.
///
/// An empty table comes back unchanged. Otherwise the predicate is looked
/// up by its filter name, and the result is a one-column table of the
/// first-column text of the kept rows, in their order.
pub fn apply_filter(frame: Frame, filter_predicate: AddressPredicate, keep_matching: bool) -> (r: Result<
    Frame,
    RunError,
>)
    requires
        frame.wf(),
    ensures
        frame.rows@.len() == 0 ==> r == Ok::<Frame, RunError>(frame),
        frame.rows@.len() > 0 ==> match spec_lookup_predicate(filter_predicate.spec_filter_name()) {
            None => r matches Err(RunError::NoSuchPredicate(n)) && n@
                == filter_predicate.spec_filter_name(),
            Some(k) => r matches Ok(f) && f.width == 1 && f.wf() && rows_view(f.rows@)
                == spec_filter_rows(rows_view(frame.rows@), k, keep_matching),
        },
{
    if frame.rows.len() == 0 {
        return Ok(frame);
    }
    let filter_name = filter_predicate.to_filter_name();
    let kind = match lookup_predicate(filter_name.as_str()) {
        Some(k) => k,
        None => {
            return Err(RunError::NoSuchPredicate(filter_name));
        },
    };
    let rows = filter_rows(&frame.rows, kind, keep_matching);
    Ok(Frame { width: 1, rows })
}

/// Whether an earlier row of `s` than the one at `i` has the same cells.
pub open spec fn seen_before(s: Seq<(Seq<Option<Seq<char>>>, Option<u128>)>, i: int) -> bool {
    exists|j: int| 0 <= j < i && #[trigger] s[j].0 == s[i].0
}

/// The rows of `s` whose cells no earlier row has: the first row of each
/// group of rows with equal cells, in order.
pub open spec fn spec_unique_rows(s: Seq<(Seq<Option<Seq<char>>>, Option<u128>)>) -> Seq<
    (Seq<Option<Seq<char>>>, Option<u128>),
>
    decreases s.len(),
{
    if s.len() == 0 {
        Seq::empty()
    } else {
        let prev = spec_unique_rows(s.drop_last());
        if seen_before(s, s.len() - 1) {
            prev
        } else {
            prev.push(s.last())
        }
    }
}

/// The rows kept by de-duplication have, between them, exactly the cells of
/// the rows given.
pub proof fn lemma_unique_rows_keys(
    s: Seq<(Seq<Option<Seq<char>>>, Option<u128>)>,
    x: Seq<Option<Seq<char>>>,
)
    ensures
        (exists|j: int| 0 <= j < s.len() && #[trigger] s[j].0 == x) <==> (exists|k: int|
            0 <= k < spec_unique_rows(s).len() && #[trigger] spec_unique_rows(s)[k].0 == x),
    decreases s.len(),
{
    if s.len() > 0 {
        let p = s.drop_last();
        lemma_unique_rows_keys(p, x);
        let u = spec_unique_rows(s);
        let pu = spec_unique_rows(p);
        if exists|j: int| 0 <= j < s.len() && #[trigger] s[j].0 == x {
            let j = choose|j: int| 0 <= j < s.len() && #[trigger] s[j].0 == x;
            if j < s.len() - 1 {
                assert(p[j].0 == x);
                let k = choose|k: int| 0 <= k < pu.len() && #[trigger] pu[k].0 == x;
                assert(u[k].0 == x);
            } else if seen_before(s, s.len() - 1) {
                let j2 = choose|j2: int| 0 <= j2 < s.len() - 1 && #[trigger] s[j2].0 == s[s.len()
                    - 1].0;
                assert(p[j2].0 == x);
                let k = choose|k: int| 0 <= k < pu.len() && #[trigger] pu[k].0 == x;
                assert(u[k].0 == x);
            } else {
                assert(u[u.len() - 1].0 == x);
            }
        }
        if exists|k: int| 0 <= k < u.len() && #[trigger] u[k].0 == x {
            let k = choose|k: int| 0 <= k < u.len() && #[trigger] u[k].0 == x;
            if k < pu.len() {
                assert(pu[k].0 == x);
                let j = choose|j: int| 0 <= j < p.len() && #[trigger] p[j].0 == x;
                assert(s[j].0 == x);
            } else {
                assert(s[s.len() - 1].0 == x);
            }
        }
    }
}

/// Whether two rows have the same cells.
fn cells_equal(a: &Vec<Option<String>>, b: &Vec<Option<String>>) -> (r: bool)
    ensures
        r == (a@.map_values(|c: Option<String>| cell_view(c)) == b@.map_values(
            |c: Option<String>| cell_view(c),
        )),
{
    let ghost va = a@.map_values(|c: Option<String>| cell_view(c));
    let ghost vb = b@.map_values(|c: Option<String>| cell_view(c));
    if a.len() != b.len() {
        assert(va.len() != vb.len());
        return false;
    }
    let mut i: usize = 0;
    while i < a.len()
        invariant
            a.len() == b.len(),
            0 <= i <= a.len(),
            va == a@.map_values(|c: Option<String>| cell_view(c)),
            vb == b@.map_values(|c: Option<String>| cell_view(c)),
            forall|j: int| 0 <= j < i ==> va[j] == vb[j],
        decreases a.len() - i,
    {
        let same = match (&a[i], &b[i]) {
            (Some(x), Some(y)) => <String as PartialEq>::eq(x, y),
            (None, None) => true,
            _ => false,
        };
        if !same {
            assert(va[i as int] != vb[i as int]);
            return false;
        }
        i = i + 1;
    }
    assert(va =~= vb);
    true
}

/// A copy of a row.
fn copy_row(r: &Row) -> (o: Row)
    ensures
        row_view(o) == row_view(*r),
{
    let mut cells: Vec<Option<String>> = Vec::new();
    let mut i: usize = 0;
    while i < r.cells.len()
        invariant
            0 <= i <= r.cells.len(),
            cells@.len() == i,
            forall|j: int| 0 <= j < i ==> cell_view(#[trigger] cells@[j]) == cell_view(r.cells@[j]),
        decreases r.cells.len() - i,
    {
        let c = match &r.cells[i] {
            Some(s) => Some(s.clone()),
            None => None,
        };
        cells.push(c);
        i = i + 1;
    }
    let o = Row { cells, addr: r.addr };
    assert(row_key(o) =~= row_key(*r));
    o
}

/// Removes the rows whose cells an earlier row already has, keeping the
/// first row of each group of equal rows.
pub fn apply_unique(frame: &Frame) -> (r: Frame)
    requires
        frame.wf(),
    ensures
        r.width == frame.width,
        r.wf(),
        rows_view(r.rows@) == spec_unique_rows(rows_view(frame.rows@)),
{
    let ghost s = rows_view(frame.rows@);
    let mut out: Vec<Row> = Vec::new();
    let mut i: usize = 0;
    while i < frame.rows.len()
        invariant
            frame.wf(),
            0 <= i <= frame.rows.len(),
            s == rows_view(frame.rows@),
            rows_view(out@) == spec_unique_rows(s.take(i as int)),
            forall|j: int| 0 <= j < out@.len() ==> #[trigger] out@[j].cells@.len() == frame.width,
        decreases frame.rows.len() - i,
    {
        let ghost pre = s.take(i as int);
        let ghost cur = s.take(i + 1);
        assert(cur.drop_last() =~= pre);
        let mut seen = false;
        let mut k: usize = 0;
        while k < out.len()
            invariant
                0 <= k <= out.len(),
                0 <= i < frame.rows.len(),
                seen ==> exists|m: int| 0 <= m < out@.len() && #[trigger] row_key(out@[m]) == row_key(
                    frame.rows@[i as int],
                ),
                !seen ==> forall|m: int| 0 <= m < k ==> #[trigger] row_key(out@[m]) != row_key(
                    frame.rows@[i as int],
                ),
            decreases out.len() - k,
        {
            if !seen && cells_equal(&out[k].cells, &frame.rows[i].cells) {
                seen = true;
                assert(row_key(out@[k as int]) == row_key(frame.rows@[i as int]));
            }
            k = k + 1;
        }
        proof {
            let x = row_key(frame.rows@[i as int]);
            let u = spec_unique_rows(pre);
            assert(rows_view(out@) == u);
            lemma_unique_rows_keys(pre, x);
            assert(cur[i as int].0 == x);
            if seen {
                let m = choose|m: int| 0 <= m < out@.len() && #[trigger] row_key(out@[m]) == x;
                assert(u[m].0 == x);
                let j = choose|j: int| 0 <= j < pre.len() && #[trigger] pre[j].0 == x;
                assert(cur[j].0 == cur[i as int].0);
                assert(seen_before(cur, i as int));
            } else {
                if seen_before(cur, i as int) {
                    let j = choose|j: int| 0 <= j < i && #[trigger] cur[j].0 == cur[i as int].0;
                    assert(pre[j].0 == x);
                    let m = choose|m: int| 0 <= m < u.len() && #[trigger] u[m].0 == x;
                    assert(row_key(out@[m]) == x);
                }
            }
        }
        if !seen {
            let row = copy_row(&frame.rows[i]);
            out.push(row);
            proof {
                assert(rows_view(out@) =~= rows_view(out@.drop_last()).push(row_view(row)));
            }
        }
        i = i + 1;
    }
    assert(s.take(frame.rows.len() as int) =~= s);
    Frame { width: frame.width, rows: out }
}

/// A table seen as values: its width and the views of its rows.
pub open spec fn frame_view(f: Frame) -> (nat, Seq<(Seq<Option<Seq<char>>>, Option<u128>)>) {
    (f.width as nat, rows_view(f.rows@))
}

/// One filter step on a table: an empty table stays as it is; otherwise the
/// predicate is looked up by its filter name (failing with that name when
/// there is none) and the rows are filtered by it.
pub open spec fn spec_filter_step(
    fv: (nat, Seq<(Seq<Option<Seq<char>>>, Option<u128>)>),
    p: AddressPredicate,
    keep_matching: bool,
) -> Result<(nat, Seq<(Seq<Option<Seq<char>>>, Option<u128>)>), Seq<char>> {
    if fv.1.len() == 0 {
        Ok(fv)
    } else {
        match spec_lookup_predicate(p.spec_filter_name()) {
            None => Err(p.spec_filter_name()),
            Some(k) => Ok((1nat, spec_filter_rows(fv.1, k, keep_matching))),
        }
    }
}

/// The filter steps for `ps`, one after the other, stopping at the first
/// failure.
pub open spec fn spec_filter_steps(
    fv: (nat, Seq<(Seq<Option<Seq<char>>>, Option<u128>)>),
    ps: Seq<AddressPredicate>,
    keep_matching: bool,
) -> Result<(nat, Seq<(Seq<Option<Seq<char>>>, Option<u128>)>), Seq<char>>
    decreases ps.len(),
{
    if ps.len() == 0 {
        Ok(fv)
    } else {
        match spec_filter_steps(fv, ps.drop_last(), keep_matching) {
            Ok(f) => spec_filter_step(f, ps.last(), keep_matching),
            Err(e) => Err(e),
        }
    }
}

/// Keeping the rows that match each of `keep_preds`, then dropping those
/// that match any of `drop_preds`, then, if asked, removing repeated rows.
pub open spec fn spec_filter_and_unique(
    fv: (nat, Seq<(Seq<Option<Seq<char>>>, Option<u128>)>),
    keep_preds: Seq<AddressPredicate>,
    drop_preds: Seq<AddressPredicate>,
    unique: bool,
) -> Result<(nat, Seq<(Seq<Option<Seq<char>>>, Option<u128>)>), Seq<char>> {
    match spec_filter_steps(fv, keep_preds, true) {
        Err(e) => Err(e),
        Ok(f1) => match spec_filter_steps(f1, drop_preds, false) {
            Err(e) => Err(e),
            Ok(f2) => Ok(
                if unique {
                    (f2.0, spec_unique_rows(f2.1))
                } else {
                    f2
                },
            ),
        },
    }
}

/// The outcome of the filtering steps agrees with their specification.
pub open spec fn frame_result_matches(
    r: Result<Frame, RunError>,
    s: Result<(nat, Seq<(Seq<Option<Seq<char>>>, Option<u128>)>), Seq<char>>,
) -> bool {
    match (r, s) {
        (Ok(f), Ok(v)) => f.wf() && frame_view(f) == v,
        (Err(RunError::NoSuchPredicate(n)), Err(e)) => n@ == e,
        _ => false,
    }
}

/// Applies the filter steps for `ps` one after the other.
fn apply_filters(frame: Frame, ps: &Vec<AddressPredicate>, keep_matching: bool) -> (r: Result<
    Frame,
    RunError,
>)
    requires
        frame.wf(),
    ensures
        frame_result_matches(r, spec_filter_steps(frame_view(frame), ps@, keep_matching)),
{
    let mut cur = frame;
    let mut i: usize = 0;
    while i < ps.len()
        invariant
            0 <= i <= ps.len(),
            cur.wf(),
            spec_filter_steps(frame_view(frame), ps@.take(i as int), keep_matching) == Ok::<
                (nat, Seq<(Seq<Option<Seq<char>>>, Option<u128>)>),
                Seq<char>,
            >(frame_view(cur)),
        decreases ps.len() - i,
    {
        assert(ps@.take(i + 1).drop_last() =~= ps@.take(i as int));
        assert(ps@.take(i + 1).last() == ps@[i as int]);
        let ghost before = frame_view(cur);
        match apply_filter(cur, ps[i], keep_matching) {
            Ok(f) => {
                cur = f;
            },
            Err(e) => {
                proof {
                    let t = ps@.take(i + 1);
                    assert(spec_filter_steps(frame_view(frame), t, keep_matching) == spec_filter_step(
                        before,
                        ps@[i as int],
                        keep_matching,
                    ));
                    let j = i + 1;
                    lemma_filter_steps_stop(frame_view(frame), ps@, keep_matching, j as int);
                }
                return Err(e);
            },
        }
        i = i + 1;
    }
    assert(ps@.take(ps.len() as int) =~= ps@);
    Ok(cur)
}

/// Once a filter step has failed, the later steps fail with the same name.
pub proof fn lemma_filter_steps_stop(
    fv: (nat, Seq<(Seq<Option<Seq<char>>>, Option<u128>)>),
    ps: Seq<AddressPredicate>,
    keep_matching: bool,
    j: int,
)
    requires
        0 <= j <= ps.len(),
        spec_filter_steps(fv, ps.take(j), keep_matching) is Err,
    ensures
        spec_filter_steps(fv, ps, keep_matching) == spec_filter_steps(fv, ps.take(j), keep_matching),
    decreases ps.len() - j,
{
    if j < ps.len() {
        assert(ps.take(j + 1).drop_last() =~= ps.take(j));
        lemma_filter_steps_stop(fv, ps, keep_matching, j + 1);
    } else {
        assert(ps.take(j) =~= ps);
    }
}

/// Keeps the rows that match every predicate of `keep_preds`, then drops
/// the rows that match any of `drop_preds`, then, when `unique` is set,
/// removes repeated rows. Fails at the first predicate that has no entry in
/// the predicate list.
pub fn apply_filter_and_unique(
    frame: Frame,
    keep_preds: &Vec<AddressPredicate>,
    drop_preds: &Vec<AddressPredicate>,
    unique: bool,
) -> (r: Result<Frame, RunError>)
    requires
        frame.wf(),
    ensures
        frame_result_matches(
            r,
            spec_filter_and_unique(frame_view(frame), keep_preds@, drop_preds@, unique),
        ),
{
    let ghost fv = frame_view(frame);
    let f1 = apply_filters(frame, keep_preds, true)?;
    let f2 = apply_filters(f1, drop_preds, false)?;
    if unique {
        Ok(apply_unique(&f2))
    } else {
        Ok(f2)
    }
}


/// The analyses offered by the `analyze` command.
#[derive(Clone, Copy, Debug, PartialEq, Eq, Structural)]
pub enum AnalyzeCommand {
    /// Hamming distances between the addresses.
    Dispersion,
    /// Bit statistics of the positions `start_bit..end_bit`.
    Entropy { start_bit: u8, end_bit: u8 },
    /// The subnets of a prefix length holding the most addresses.
    Subnets { max_subnets: usize, prefix_length: u8 },
    /// How many addresses each predicate holds of.
    Counts,
}

impl AnalyzeCommand {
    /// The analysis that the command runs.
    pub open spec fn spec_analysis_type(self) -> AnalysisType {
        match self {
            AnalyzeCommand::Dispersion => AnalysisType::Dispersion,
            AnalyzeCommand::Entropy { start_bit, end_bit } => AnalysisType::Entropy { start_bit, end_bit },
            AnalyzeCommand::Subnets { max_subnets, prefix_length } => AnalysisType::Subnets {
                max_subnets,
                prefix_length,
            },
            AnalyzeCommand::Counts => AnalysisType::Counts,
        }
    }
}

/// The first-column addresses of the rows of a table, `None` for a row
/// whose first cell is not an address.
pub open spec fn address_column(rows: Seq<(Seq<Option<Seq<char>>>, Option<u128>)>) -> Seq<Option<u128>> {
    rows.map_values(|v: (Seq<Option<Seq<char>>>, Option<u128>)| v.1)
}

/// A filter keeps no more rows than it is given.
pub proof fn lemma_filter_rows_len(
    rows: Seq<(Seq<Option<Seq<char>>>, Option<u128>)>,
    k: PredicateKind,
    keep_matching: bool,
)
    ensures
        spec_filter_rows(rows, k, keep_matching).len() <= rows.len(),
    decreases rows.len(),
{
    if rows.len() > 0 {
        lemma_filter_rows_len(rows.drop_last(), k, keep_matching);
    }
}

/// De-duplication keeps no more rows than it is given.
pub proof fn lemma_unique_rows_len(s: Seq<(Seq<Option<Seq<char>>>, Option<u128>)>)
    ensures
        spec_unique_rows(s).len() <= s.len(),
    decreases s.len(),
{
    if s.len() > 0 {
        lemma_unique_rows_len(s.drop_last());
    }
}

/// Filter steps keep no more rows than they are given.
pub proof fn lemma_filter_steps_len(
    fv: (nat, Seq<(Seq<Option<Seq<char>>>, Option<u128>)>),
    ps: Seq<AddressPredicate>,
    keep_matching: bool,
)
    ensures
        spec_filter_steps(fv, ps, keep_matching) matches Ok(f) ==> f.1.len() <= fv.1.len(),
    decreases ps.len(),
{
    if ps.len() > 0 {
        lemma_filter_steps_len(fv, ps.drop_last(), keep_matching);
        match spec_filter_steps(fv, ps.drop_last(), keep_matching) {
            Ok(f) => {
                if f.1.len() > 0 {
                    match spec_lookup_predicate(ps.last().spec_filter_name()) {
                        Some(k) => lemma_filter_rows_len(f.1, k, keep_matching),
                        None => {},
                    }
                }
            },
            Err(_) => {},
        }
    }
}

/// The filtering and de-duplicating steps keep no more rows than they are
/// given.
pub proof fn lemma_filter_and_unique_len(
    fv: (nat, Seq<(Seq<Option<Seq<char>>>, Option<u128>)>),
    keep_preds: Seq<AddressPredicate>,
    drop_preds: Seq<AddressPredicate>,
    unique: bool,
)
    ensures
        spec_filter_and_unique(fv, keep_preds, drop_preds, unique) matches Ok(f) ==> f.1.len()
            <= fv.1.len(),
{
    lemma_filter_steps_len(fv, keep_preds, true);
    match spec_filter_steps(fv, keep_preds, true) {
        Ok(f1) => {
            lemma_filter_steps_len(f1, drop_preds, false);
            match spec_filter_steps(f1, drop_preds, false) {
                Ok(f2) => lemma_unique_rows_len(f2.1),
                Err(_) => {},
            }
        },
        Err(_) => {},
    }
}

/// The first-column addresses of a table's rows.
fn first_column(rows: &Vec<Row>) -> (r: Vec<Option<u128>>)
    ensures
        r@ == address_column(rows_view(rows@)),
{
    let mut r: Vec<Option<u128>> = Vec::new();
    let mut i: usize = 0;
    while i < rows.len()
        invariant
            0 <= i <= rows.len(),
            r@ == address_column(rows_view(rows@)).take(i as int),
        decreases rows.len() - i,
    {
        r.push(rows[i].addr);
        i = i + 1;
        assert(r@ =~= address_column(rows_view(rows@)).take(i as int));
    }
    assert(address_column(rows_view(rows@)).take(rows.len() as int) =~= address_column(rows_view(rows@)));
    r
}

/// The `analyze` command on a loaded table: keeps the rows matching each of
/// `keep_preds`, drops those matching any of `drop_preds`, removes repeated rows
/// when `unique` is set, and runs `analysis` on the first column of what is
/// left. An entropy range that does not start below its end is refused
/// once the filters have run.
pub fn run_analyze(
    frame: Frame,
    keep_preds: &Vec<AddressPredicate>,
    drop_preds: &Vec<AddressPredicate>,
    unique: bool,
    analysis: AnalyzeCommand,
) -> (r: Result<AnalysisOutput, RunError>)
    requires
        frame.wf(),
        match spec_filter_and_unique(frame_view(frame), keep_preds@, drop_preds@, unique) {
            Ok(fv) => column_fits(address_column(fv.1), analysis.spec_analysis_type()) && subnet_prefix_ok(
                address_column(fv.1),
                analysis.spec_analysis_type(),
            ),
            Err(_) => true,
        },
    ensures
        match spec_filter_and_unique(frame_view(frame), keep_preds@, drop_preds@, unique) {
            Err(e) => r matches Err(RunError::NoSuchPredicate(n)) && n@ == e,
            Ok(fv) => if analysis matches AnalyzeCommand::Entropy { start_bit, end_bit } && start_bit
                >= end_bit {
                r matches Err(RunError::BitRangeEmpty)
            } else if fv.0 == 0 {
                r matches Err(RunError::Analysis(AnalyzeError::NoData))
            } else {
                r matches Ok(out) && analysis_result(
                    address_column(fv.1),
                    analysis.spec_analysis_type(),
                    out,
                )
            },
        },
{
    proof {
        lemma_filter_and_unique_len(frame_view(frame), keep_preds@, drop_preds@, unique);
    }
    let ghost n0 = frame.rows@.len();
    let processed = apply_filter_and_unique(frame, keep_preds, drop_preds, unique)?;
    let kind = match analysis {
        AnalyzeCommand::Dispersion => AnalysisType::Dispersion,
        AnalyzeCommand::Entropy { start_bit, end_bit } => {
            if start_bit >= end_bit {
                return Err(RunError::BitRangeEmpty);
            }
            AnalysisType::Entropy { start_bit, end_bit }
        },
        AnalyzeCommand::Subnets { max_subnets, prefix_length } => AnalysisType::Subnets {
            max_subnets,
            prefix_length,
        },
        AnalyzeCommand::Counts => AnalysisType::Counts,
    };
    let col = first_column(&processed.rows);
    let result = if processed.width == 0 {
        analyze(None, kind)
    } else {
        analyze(Some(&col), kind)
    };
    match result {
        Ok(out) => Ok(out),
        Err(e) => Err(RunError::Analysis(e)),
    }
}


/// Every predicate of the command line names a predicate of the list,
/// the one of the same kind, so filtering on any of them can run.
pub proof fn lemma_filter_names(p: AddressPredicate)
    ensures
        spec_lookup_predicate(p.spec_filter_name()) == Some(p.spec_kind()),
{
    match p {
        AddressPredicate::Loopback => lemma_lookup_own_name(PredicateKind::Loopback),
        AddressPredicate::Unspecified => lemma_lookup_own_name(PredicateKind::Unspecified),
        AddressPredicate::LinkLocal => lemma_lookup_own_name(PredicateKind::LinkLocal),
        AddressPredicate::UniqueLocal => lemma_lookup_own_name(PredicateKind::UniqueLocal),
        AddressPredicate::Multicast => lemma_lookup_own_name(PredicateKind::Multicast),
        AddressPredicate::SolicitedNode => lemma_lookup_own_name(PredicateKind::SolicitedNode),
        AddressPredicate::Ipv4Mapped => lemma_lookup_own_name(PredicateKind::Ipv4Mapped),
        AddressPredicate::Ipv4ToIpv6 => lemma_lookup_own_name(PredicateKind::Ipv4ToIpv6),
        AddressPredicate::ExtendedIpv4 => lemma_lookup_own_name(PredicateKind::ExtendedIpv4),
        AddressPredicate::Ipv6ToIpv4 => lemma_lookup_own_name(PredicateKind::Ipv6ToIpv4),
        AddressPredicate::Documentation => lemma_lookup_own_name(PredicateKind::Documentation),
        AddressPredicate::Documentation2 => lemma_lookup_own_name(PredicateKind::Documentation2),
        AddressPredicate::Benchmarking => lemma_lookup_own_name(PredicateKind::Benchmarking),
        AddressPredicate::Teredo => lemma_lookup_own_name(PredicateKind::Teredo),
        AddressPredicate::IetfProtocol => lemma_lookup_own_name(PredicateKind::IetfProtocol),
        AddressPredicate::PortControl => lemma_lookup_own_name(PredicateKind::PortControl),
        AddressPredicate::Turn => lemma_lookup_own_name(PredicateKind::Turn),
        AddressPredicate::DnsSd => lemma_lookup_own_name(PredicateKind::DnsSd),
        AddressPredicate::Amt => lemma_lookup_own_name(PredicateKind::Amt),
        AddressPredicate::SegmentRouting => lemma_lookup_own_name(PredicateKind::SegmentRouting),
        AddressPredicate::DiscardOnly => lemma_lookup_own_name(PredicateKind::DiscardOnly),
        AddressPredicate::DummyPrefix => lemma_lookup_own_name(PredicateKind::DummyPrefix),
        AddressPredicate::As112V6 => lemma_lookup_own_name(PredicateKind::As112V6),
        AddressPredicate::DirectAs112 => lemma_lookup_own_name(PredicateKind::DirectAs112),
        AddressPredicate::DeprecatedOrchid => lemma_lookup_own_name(PredicateKind::DeprecatedOrchid),
        AddressPredicate::OrchidV2 => lemma_lookup_own_name(PredicateKind::OrchidV2),
        AddressPredicate::DroneRemoteId => lemma_lookup_own_name(PredicateKind::DroneRemoteId),
        AddressPredicate::Eui64 => lemma_lookup_own_name(PredicateKind::Eui64),
        AddressPredicate::LowByteHost => lemma_lookup_own_name(PredicateKind::LowByteHost),
    }
}

/// No two predicates of the command line share a filter name.
pub proof fn lemma_filter_names_distinct(p: AddressPredicate, q: AddressPredicate)
    requires
        p != q,
    ensures
        p.spec_filter_name() != q.spec_filter_name(),
{
    lemma_filter_names(p);
    lemma_filter_names(q);
    assert(p.spec_kind() != q.spec_kind());
}

/// A row whose first cell holds the text of an address.
pub open spec fn is_address_row(v: (Seq<Option<Seq<char>>>, Option<u128>)) -> bool {
    first_text(v) is Some && v.1 is Some
}

/// How many rows of `rows` hold the text of an address in their first
/// cell.
pub open spec fn address_row_count(rows: Seq<(Seq<Option<Seq<char>>>, Option<u128>)>) -> nat
    decreases rows.len(),
{
    if rows.len() == 0 {
        0
    } else {
        address_row_count(rows.drop_last()) + if is_address_row(rows.last()) {
            1nat
        } else {
            0nat
        }
    }
}

/// Keeping the rows that match a predicate and keeping those that do not
/// split the address rows between them: every address row goes to exactly
/// one side, and the other rows to neither.
pub proof fn lemma_filter_partition(rows: Seq<(Seq<Option<Seq<char>>>, Option<u128>)>, k: PredicateKind)
    ensures
        spec_filter_rows(rows, k, true).len() + spec_filter_rows(rows, k, false).len()
            == address_row_count(rows),
    decreases rows.len(),
{
    if rows.len() > 0 {
        lemma_filter_partition(rows.drop_last(), k);
    }
}

/// The one-cell row a filter keeps of `v`.
pub open spec fn one_cell(v: (Seq<Option<Seq<char>>>, Option<u128>)) -> (Seq<Option<Seq<char>>>, Option<u128>) {
    (seq![first_text(v)], v.1)
}

/// The rows that two filters both keep, as one-cell rows.
pub open spec fn filter_both(
    rows: Seq<(Seq<Option<Seq<char>>>, Option<u128>)>,
    k1: PredicateKind,
    b1: bool,
    k2: PredicateKind,
    b2: bool,
) -> Seq<(Seq<Option<Seq<char>>>, Option<u128>)>
    decreases rows.len(),
{
    if rows.len() == 0 {
        Seq::empty()
    } else {
        let prev = filter_both(rows.drop_last(), k1, b1, k2, b2);
        if filter_keeps(rows.last(), k1, b1) && filter_keeps(rows.last(), k2, b2) {
            prev.push(one_cell(rows.last()))
        } else {
            prev
        }
    }
}

/// Two filters one after the other keep the rows that both keep.
proof fn lemma_filter_twice(
    rows: Seq<(Seq<Option<Seq<char>>>, Option<u128>)>,
    k1: PredicateKind,
    b1: bool,
    k2: PredicateKind,
    b2: bool,
)
    ensures
        spec_filter_rows(spec_filter_rows(rows, k1, b1), k2, b2) == filter_both(rows, k1, b1, k2, b2),
    decreases rows.len(),
{
    if rows.len() > 0 {
        lemma_filter_twice(rows.drop_last(), k1, b1, k2, b2);
        let last = rows.last();
        let f1 = spec_filter_rows(rows, k1, b1);
        if filter_keeps(last, k1, b1) {
            let c = one_cell(last);
            assert(f1.drop_last() =~= spec_filter_rows(rows.drop_last(), k1, b1));
            assert(first_text(c) == first_text(last));
            assert(one_cell(c) =~= c);
        }
    }
}

/// Filters commute: filtering by one predicate and then another keeps the
/// same rows, in the same order, as filtering in the other order.
pub proof fn lemma_filters_commute(
    rows: Seq<(Seq<Option<Seq<char>>>, Option<u128>)>,
    k1: PredicateKind,
    b1: bool,
    k2: PredicateKind,
    b2: bool,
)
    ensures
        spec_filter_rows(spec_filter_rows(rows, k1, b1), k2, b2) == spec_filter_rows(
            spec_filter_rows(rows, k2, b2),
            k1,
            b1,
        ),
{
    lemma_filter_twice(rows, k1, b1, k2, b2);
    lemma_filter_twice(rows, k2, b2, k1, b1);
    lemma_filter_both_symmetric(rows, k1, b1, k2, b2);
}

proof fn lemma_filter_both_symmetric(
    rows: Seq<(Seq<Option<Seq<char>>>, Option<u128>)>,
    k1: PredicateKind,
    b1: bool,
    k2: PredicateKind,
    b2: bool,
)
    ensures
        filter_both(rows, k1, b1, k2, b2) == filter_both(rows, k2, b2, k1, b1),
    decreases rows.len(),
{
    if rows.len() > 0 {
        lemma_filter_both_symmetric(rows.drop_last(), k1, b1, k2, b2);
    }
}

/// No two rows of `s` have the same cells.
pub open spec fn keys_distinct_rows(s: Seq<(Seq<Option<Seq<char>>>, Option<u128>)>) -> bool {
    forall|i: int, j: int| 0 <= i < j < s.len() ==> #[trigger] s[i].0 != #[trigger] s[j].0
}

/// De-duplication leaves no two rows with the same cells.
pub proof fn lemma_unique_rows_distinct(s: Seq<(Seq<Option<Seq<char>>>, Option<u128>)>)
    ensures
        keys_distinct_rows(spec_unique_rows(s)),
    decreases s.len(),
{
    if s.len() > 0 {
        let p = s.drop_last();
        lemma_unique_rows_distinct(p);
        if !seen_before(s, s.len() - 1) {
            let u = spec_unique_rows(s);
            let pu = spec_unique_rows(p);
            let x = s.last().0;
            lemma_unique_rows_keys(p, x);
            assert forall|i: int, j: int| 0 <= i < j < u.len() implies #[trigger] u[i].0 != #[trigger] u[j].0 by {
                if j == u.len() - 1 {
                    if u[i].0 == x {
                        assert(pu[i].0 == x);
                        let jj = choose|jj: int| 0 <= jj < p.len() && #[trigger] p[jj].0 == x;
                        assert(s[jj].0 == s[s.len() - 1].0);
                        assert(seen_before(s, s.len() - 1));
                    }
                } else {
                    assert(u[i] == pu[i] && u[j] == pu[j]);
                }
            }
        }
    }
}

/// Rows with pairwise different cells are left as they are by
/// de-duplication.
proof fn lemma_unique_rows_of_distinct(s: Seq<(Seq<Option<Seq<char>>>, Option<u128>)>)
    requires
        keys_distinct_rows(s),
    ensures
        spec_unique_rows(s) == s,
    decreases s.len(),
{
    if s.len() > 0 {
        let p = s.drop_last();
        assert(keys_distinct_rows(p)) by {
            assert forall|i: int, j: int| 0 <= i < j < p.len() implies #[trigger] p[i].0 != #[trigger] p[j].0 by {
                assert(p[i] == s[i] && p[j] == s[j]);
            }
        }
        lemma_unique_rows_of_distinct(p);
        if seen_before(s, s.len() - 1) {
            let j = choose|j: int| 0 <= j < s.len() - 1 && #[trigger] s[j].0 == s[s.len() - 1].0;
            assert(false);
        }
        assert(p.push(s.last()) =~= s);
    }
}

/// De-duplicating twice is de-duplicating once.
pub proof fn lemma_unique_rows_idempotent(s: Seq<(Seq<Option<Seq<char>>>, Option<u128>)>)
    ensures
        spec_unique_rows(spec_unique_rows(s)) == spec_unique_rows(s),
{
    lemma_unique_rows_distinct(s);
    lemma_unique_rows_of_distinct(spec_unique_rows(s));
}

/// With no predicate and no de-duplication, the table comes back as it
/// was.
pub proof fn lemma_no_steps_is_identity(fv: (nat, Seq<(Seq<Option<Seq<char>>>, Option<u128>)>))
    ensures
        spec_filter_and_unique(fv, Seq::empty(), Seq::empty(), false) == Ok::<
            (nat, Seq<(Seq<Option<Seq<char>>>, Option<u128>)>),
            Seq<char>,
        >(fv),
{
}

} // verus!
