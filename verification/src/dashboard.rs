//! What a dashboard shows of a snapshot of the status store: how many
//! endpoints are in each state, the order of the rows, and the time of
//! the last check as text.

use crate::store::views_of;
use crate::text::{decimal_string, decimal_text};
use crate::types::{EndpointInfo, EndpointStatus, RecordView, StatusView};
use vstd::prelude::*;
use vstd::seq_lib::*;
use vstd::string::*;
use vstd::utf8::encode_utf8;

verus! {

/// The place of a status in the table: online first, then checking,
/// unknown, offline.
pub open spec fn rank_of(status: StatusView) -> u8 {
    match status {
        StatusView::Online { .. } => 0,
        StatusView::Checking => 1,
        StatusView::Unknown => 2,
        StatusView::Offline { .. } => 3,
    }
}

/// The number of records of one rank.
pub open spec fn count_rank(records: Seq<RecordView>, rank: u8) -> nat
    decreases records.len(),
{
    if records.len() == 0 {
        0
    } else {
        count_rank(records.drop_last(), rank) + if rank_of(records.last().status) == rank {
            1nat
        } else {
            0nat
        }
    }
}

/// Byte strings in dictionary order, compared from position `from` on:
/// the first byte that differs decides, and a string comes before
/// every string that it begins.
pub open spec fn bytes_le_from(a: Seq<u8>, b: Seq<u8>, from: int) -> bool
    decreases a.len() - from,
{
    if from < 0 || from >= a.len() {
        true
    } else if from >= b.len() {
        false
    } else if a[from] != b[from] {
        a[from] < b[from]
    } else {
        bytes_le_from(a, b, from + 1)
    }
}

/// Byte strings in dictionary order.
pub open spec fn bytes_le(a: Seq<u8>, b: Seq<u8>) -> bool {
    bytes_le_from(a, b, 0)
}

/// The order of the rows: by rank of the status, and within one rank
/// by name, the names compared byte by byte.
pub open spec fn shown_before(a: RecordView, b: RecordView) -> bool {
    rank_of(a.status) < rank_of(b.status) || (rank_of(a.status) == rank_of(b.status) && bytes_le(
        encode_utf8(a.endpoint.name),
        encode_utf8(b.endpoint.name),
    ))
}

/// Each row stands before the next.
pub open spec fn rows_in_order(records: Seq<RecordView>) -> bool {
    forall|i: int|
        0 <= i < records.len() - 1 ==> shown_before(#[trigger] records[i], records[i + 1])
}

/// Of two byte strings one comes before the other.
pub proof fn lemma_bytes_le_total(a: Seq<u8>, b: Seq<u8>, from: int)
    requires
        0 <= from,
    ensures
        bytes_le_from(a, b, from) || bytes_le_from(b, a, from),
    decreases a.len() - from,
{
    if from < a.len() && from < b.len() && a[from] == b[from] {
        lemma_bytes_le_total(a, b, from + 1);
    }
}

/// Dictionary order is transitive.
pub proof fn lemma_bytes_le_transitive(a: Seq<u8>, b: Seq<u8>, c: Seq<u8>, from: int)
    requires
        0 <= from,
        bytes_le_from(a, b, from),
        bytes_le_from(b, c, from),
    ensures
        bytes_le_from(a, c, from),
    decreases a.len() - from,
{
    if from < a.len() && from < b.len() && from < c.len() && a[from] == b[from] && b[from]
        == c[from] {
        lemma_bytes_le_transitive(a, b, c, from + 1);
    }
}

/// The order of the rows is total and transitive: of two records one
/// may stand before the other, and in rows that are in order every row
/// stands before every later row.
pub proof fn lemma_shown_before_is_an_order(a: RecordView, b: RecordView, c: RecordView)
    ensures
        shown_before(a, b) || shown_before(b, a),
        shown_before(a, b) && shown_before(b, c) ==> shown_before(a, c),
{
    lemma_bytes_le_total(encode_utf8(a.endpoint.name), encode_utf8(b.endpoint.name), 0);
    if shown_before(a, b) && shown_before(b, c) && rank_of(a.status) == rank_of(b.status)
        && rank_of(b.status) == rank_of(c.status) {
        lemma_bytes_le_transitive(
            encode_utf8(a.endpoint.name),
            encode_utf8(b.endpoint.name),
            encode_utf8(c.endpoint.name),
            0,
        );
    }
}

/// In rows that are in order every row stands before every later row.
pub proof fn lemma_rows_in_order_pairwise(records: Seq<RecordView>, i: int, j: int)
    requires
        rows_in_order(records),
        0 <= i < j < records.len(),
    ensures
        shown_before(records[i], records[j]),
    decreases j - i,
{
    if i + 1 < j {
        lemma_rows_in_order_pairwise(records, i, j - 1);
        assert(shown_before(records[j - 1], records[j - 1 + 1]));
        lemma_shown_before_is_an_order(records[i], records[j - 1], records[j]);
    }
}

/// The rank of a status.
pub fn status_priority(status: &EndpointStatus) -> (rank: u8)
    ensures
        rank == rank_of(status@),
{
    match status {
        EndpointStatus::Online { .. } => 0,
        EndpointStatus::Checking => 1,
        EndpointStatus::Unknown => 2,
        EndpointStatus::Offline { .. } => 3,
    }
}

fn bytes_before(a: &[u8], b: &[u8]) -> (before: bool)
    ensures
        before == bytes_le(a@, b@),
{
    let mut i: usize = 0;
    while i < a.len() && i < b.len() && a[i] == b[i]
        invariant
            i <= a@.len(),
            i <= b@.len(),
            bytes_le(a@, b@) == bytes_le_from(a@, b@, i as int),
        decreases a@.len() - i,
    {
        i += 1;
    }
    if i >= a.len() {
        true
    } else if i >= b.len() {
        false
    } else {
        a[i] < b[i]
    }
}

/// Whether the row of `a` may stand before the row of `b`.
pub fn stands_before(a: &EndpointInfo, b: &EndpointInfo) -> (before: bool)
    ensures
        before == shown_before(a@, b@),
{
    let rank_a = status_priority(&a.status);
    let rank_b = status_priority(&b.status);
    if rank_a != rank_b {
        rank_a < rank_b
    } else {
        bytes_before(a.endpoint.name.as_str().as_bytes(), b.endpoint.name.as_str().as_bytes())
    }
}

/// How many endpoints are in each state.
#[derive(Debug, Clone, Copy, PartialEq, Eq)]
pub struct StatusSummary {
    pub online: usize,
    pub offline: usize,
    pub checking: usize,
    pub unknown: usize,
}

/// Counts the records of a snapshot by state.
pub fn status_summary(records: &Vec<EndpointInfo>) -> (summary: StatusSummary)
    ensures
        summary.online == count_rank(views_of(records@), 0),
        summary.checking == count_rank(views_of(records@), 1),
        summary.unknown == count_rank(views_of(records@), 2),
        summary.offline == count_rank(views_of(records@), 3),
        summary.online + summary.offline + summary.checking + summary.unknown == records@.len(),
{
    let mut summary = StatusSummary { online: 0, offline: 0, checking: 0, unknown: 0 };
    let mut i: usize = 0;
    while i < records.len()
        invariant
            i <= records@.len(),
            summary.online == count_rank(views_of(records@).subrange(0, i as int), 0),
            summary.checking == count_rank(views_of(records@).subrange(0, i as int), 1),
            summary.unknown == count_rank(views_of(records@).subrange(0, i as int), 2),
            summary.offline == count_rank(views_of(records@).subrange(0, i as int), 3),
            summary.online + summary.offline + summary.checking + summary.unknown == i,
        decreases records@.len() - i,
    {
        proof {
            let next = views_of(records@).subrange(0, i + 1);
            assert(next.drop_last() == views_of(records@).subrange(0, i as int));
            assert(next.last() == records@[i as int]@);
        }
        match &records[i].status {
            EndpointStatus::Online { .. } => {
                summary.online += 1;
            },
            EndpointStatus::Offline { .. } => {
                summary.offline += 1;
            },
            EndpointStatus::Checking => {
                summary.checking += 1;
            },
            EndpointStatus::Unknown => {
                summary.unknown += 1;
            },
        }
        i += 1;
    }
    assert(views_of(records@).subrange(0, i as int) == views_of(records@));
    summary
}

/// A record put between a row that stands before it and a row that it
/// stands before leaves the rows in order.
proof fn lemma_insert_row_keeps_order(before: Seq<RecordView>, at: int, record: RecordView)
    requires
        rows_in_order(before),
        0 <= at <= before.len(),
        at > 0 ==> shown_before(before[at - 1], record),
        at < before.len() ==> shown_before(record, before[at]),
    ensures
        rows_in_order(before.insert(at, record)),
{
    let after = before.insert(at, record);
    assert forall|k: int| 0 <= k < after.len() - 1 implies shown_before(
        #[trigger] after[k],
        after[k + 1],
    ) by {
        if k + 1 < at {
            assert(after[k] == before[k] && after[k + 1] == before[k + 1]);
            assert(shown_before(before[k], before[k + 1]));
        } else if k + 1 == at {
            assert(after[k] == before[k] && after[k + 1] == record);
        } else if k == at {
            assert(after[k] == record && after[k + 1] == before[k]);
        } else {
            assert(after[k] == before[k - 1] && after[k + 1] == before[k]);
            assert(shown_before(before[k - 1], before[k - 1 + 1]));
        }
    }
}

/// A record put into a list is in it once more than before, and every
/// other record as often as before.
proof fn lemma_insert_row_adds_one(before: Seq<RecordView>, at: int, record: RecordView)
    requires
        0 <= at <= before.len(),
    ensures
        before.insert(at, record).to_multiset() == before.to_multiset().insert(record),
{
    let front = before.subrange(0, at);
    let back = before.subrange(at, before.len() as int);
    assert(before =~= front + back);
    assert(before.insert(at, record) =~= front.push(record) + back);
    lemma_multiset_commutative(front, back);
    lemma_multiset_commutative(front.push(record), back);
    to_multiset_build(front, record);
    assert(front.to_multiset().insert(record).add(back.to_multiset()) =~= front.to_multiset().add(
        back.to_multiset(),
    ).insert(record));
}

/// The values of a list with one more record at its end.
proof fn lemma_views_of_prefix(records: Seq<EndpointInfo>, i: int)
    requires
        0 <= i < records.len(),
    ensures
        views_of(records).subrange(0, i + 1) == views_of(records).subrange(0, i).push(
            records[i]@,
        ),
        views_of(records).subrange(0, i + 1).to_multiset() == views_of(records).subrange(
            0,
            i,
        ).to_multiset().insert(records[i]@),
{
    let done = views_of(records).subrange(0, i);
    assert(views_of(records).subrange(0, i + 1) =~= done.push(records[i]@));
    to_multiset_build(done, records[i]@);
}

/// The values of a list into which a record was put.
proof fn lemma_views_of_insert(before: Seq<EndpointInfo>, at: int, record: EndpointInfo)
    requires
        0 <= at <= before.len(),
    ensures
        views_of(before.insert(at, record)) == views_of(before).insert(at, record@),
{
    assert(views_of(before.insert(at, record)) =~= views_of(before).insert(at, record@));
}

/// The place of a record among rows that are in order: behind the last
/// row that stands before it.
fn place_of(rows: &Vec<EndpointInfo>, record: &EndpointInfo) -> (at: usize)
    ensures
        at <= rows@.len(),
        at > 0 ==> shown_before(rows@[at - 1]@, record@),
        at < rows@.len() ==> shown_before(record@, rows@[at as int]@),
{
    let mut at: usize = rows.len();
    while at > 0 && !stands_before(&rows[at - 1], record)
        invariant
            at <= rows@.len(),
            at < rows@.len() ==> shown_before(record@, rows@[at as int]@),
        decreases at,
    {
        proof {
            lemma_shown_before_is_an_order(rows@[at - 1]@, record@, record@);
        }
        at -= 1;
    }
    at
}

/// The records of a snapshot as the rows of the table: the same
/// records, each as often as before, in the order of the rows.
pub fn sorted_endpoints(records: &Vec<EndpointInfo>) -> (rows: Vec<EndpointInfo>)
    ensures
        rows_in_order(views_of(rows@)),
        views_of(rows@).to_multiset() == views_of(records@).to_multiset(),
        rows@.len() == records@.len(),
{
    let mut rows: Vec<EndpointInfo> = Vec::new();
    let mut i: usize = 0;
    assert(views_of(rows@) == views_of(records@).subrange(0, 0));
    while i < records.len()
        invariant
            i <= records@.len(),
            rows@.len() == i,
            rows_in_order(views_of(rows@)),
            views_of(rows@).to_multiset() == views_of(records@).subrange(0, i as int).to_multiset(),
        decreases records@.len() - i,
    {
        let record = records[i].duplicate();
        let at = place_of(&rows, &record);
        proof {
            lemma_views_of_insert(rows@, at as int, record);
            lemma_insert_row_keeps_order(views_of(rows@), at as int, record@);
            lemma_insert_row_adds_one(views_of(rows@), at as int, record@);
            lemma_views_of_prefix(records@, i as int);
        }
        rows.insert(at, record);
        i += 1;
    }
    assert(views_of(records@).subrange(0, i as int) == views_of(records@));
    rows
}

/// The pattern in which a time is written: year-month-day, then
/// hour:minute:second, then the zone.
pub open spec fn timestamp_pattern() -> Seq<char> {
    "%Y-%m-%d %H:%M:%S UTC"@
}

/// What `chrono::DateTime::from_timestamp`, followed by
/// `DateTime::format` and `to_string`, gives for a time in whole
/// seconds since the Unix epoch and a pattern: the time in UTC written
/// after the pattern, or nothing for a time that the calendar cannot
/// express. The name stands for the composition of the three calls.
pub uninterp spec fn utc_timestamp_text(seconds: i64, pattern: Seq<char>) -> Option<Seq<char>>;

/// Calls `chrono::DateTime::from_timestamp` with no nanoseconds and,
/// where that gives a time, `DateTime::format` with `pattern` and
/// `to_string` on what it returns. None of the calls is verified; the
/// contract only gives the text a name, and claims that it depends on
/// nothing but the number of seconds and the pattern. Only the one
/// pattern is admitted, which chrono can parse: writing after a pattern
/// that it cannot parse would panic.
#[verifier::external_body]
fn utc_text(seconds: i64, pattern: &str) -> (text: Option<String>)
    requires
        pattern@ == timestamp_pattern(),
    ensures
        match text {
            Some(written) => utc_timestamp_text(seconds, pattern@) == Some(written@),
            None => utc_timestamp_text(seconds, pattern@) is None,
        },
{
    match chrono::DateTime::from_timestamp(seconds, 0) {
        Some(time) => Some(time.format(pattern).to_string()),
        None => None,
    }
}

/// The label for a time of last check, given the calendar's text for
/// it: that text, or a dash where the calendar has none.
pub open spec fn timestamp_label_of(written: Option<Seq<char>>) -> Seq<char> {
    match written {
        Some(text) => text,
        None => "—"@,
    }
}

/// What the table shows as the time of the last check: "Never" before
/// the first probe has completed, then the label of the time.
pub open spec fn last_check_label_of(last_check: Option<i64>) -> Seq<char> {
    match last_check {
        None => "Never"@,
        Some(seconds) => timestamp_label_of(utc_timestamp_text(seconds, timestamp_pattern())),
    }
}

/// The label for the calendar's text of a time.
pub fn timestamp_label(written: Option<String>) -> (label: String)
    ensures
        label@ == timestamp_label_of(
            match written {
                Some(text) => Some(text@),
                None => None,
            },
        ),
{
    match written {
        Some(text) => text,
        None => String::from_str("—"),
    }
}

/// A time in seconds since the Unix epoch as date and time in UTC.
pub fn format_timestamp(seconds: i64) -> (label: String)
    ensures
        label@ == timestamp_label_of(utc_timestamp_text(seconds, timestamp_pattern())),
{
    timestamp_label(utc_text(seconds, "%Y-%m-%d %H:%M:%S UTC"))
}

/// The time of a record's last check as the table shows it.
pub fn last_check_label(record: &EndpointInfo) -> (label: String)
    ensures
        label@ == last_check_label_of(record@.last_check),
{
    match record.last_check {
        None => String::from_str("Never"),
        Some(seconds) => format_timestamp(seconds),
    }
}

/// What the table shows as response time: the milliseconds of an
/// online endpoint, a dash for every other.
pub open spec fn response_label_of(status: StatusView) -> Seq<char> {
    match status {
        StatusView::Online { response_time_ms } => decimal_text(response_time_ms as nat) + "ms"@,
        _ => "—"@,
    }
}

/// What the table shows as details: the reason of an offline
/// endpoint, a notice while a probe is in flight, a dash otherwise.
pub open spec fn details_label_of(status: StatusView) -> Seq<char> {
    match status {
        StatusView::Offline { error } => error,
        StatusView::Checking => "Connecting..."@,
        _ => "—"@,
    }
}

/// The response time of a status as the table shows it.
pub fn response_label(status: &EndpointStatus) -> (label: String)
    ensures
        label@ == response_label_of(status@),
{
    match status {
        EndpointStatus::Online { response_time_ms } => decimal_string(*response_time_ms).concat(
            "ms",
        ),
        _ => String::from_str("—"),
    }
}

/// The details of a status as the table shows them.
pub fn details_label(status: &EndpointStatus) -> (label: String)
    ensures
        label@ == details_label_of(status@),
{
    match status {
        EndpointStatus::Offline { error } => error.clone(),
        EndpointStatus::Checking => String::from_str("Connecting..."),
        _ => String::from_str("—"),
    }
}

} // verus!
