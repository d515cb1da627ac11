//! The status table: one record per endpoint key, created once and then
//! only rewritten in place.

use crate::types::{Endpoint, EndpointInfo, EndpointStatus, RecordView, StatusView};
use vstd::prelude::*;

verus! {

/// The table that a list of records stands for: each record under its
/// key, a later record replacing an earlier one with the same key.
pub open spec fn table_of(records: Seq<RecordView>) -> Map<(Seq<char>, u16), RecordView>
    decreases records.len(),
{
    if records.len() == 0 {
        Map::empty()
    } else {
        table_of(records.drop_last()).insert(records.last().key(), records.last())
    }
}

/// No two records of the list have the same key.
pub open spec fn distinct_keys(records: Seq<RecordView>) -> bool {
    forall|i: int, j: int|
        0 <= i < j < records.len() ==> (#[trigger] records[i]).key() != (#[trigger] records[j]).key()
}

/// The values of a list of records.
pub open spec fn views_of(records: Seq<EndpointInfo>) -> Seq<RecordView> {
    Seq::new(records.len(), |i: int| records[i]@)
}

/// One never-probed record for each configured endpoint, in order.
pub open spec fn initial_records(endpoints: Seq<Endpoint>) -> Seq<RecordView> {
    Seq::new(endpoints.len(), |i: int| RecordView::unknown(endpoints[i]@))
}

/// The table after the probe of `key` has started: the status of that
/// record becomes `Checking` and nothing else changes. A key that the
/// table does not hold changes nothing.
pub open spec fn marked_checking(
    table: Map<(Seq<char>, u16), RecordView>,
    key: (Seq<char>, u16),
) -> Map<(Seq<char>, u16), RecordView> {
    if table.contains_key(key) {
        table.insert(key, RecordView { status: StatusView::Checking, ..table[key] })
    } else {
        table
    }
}

/// The table after the probe of `key` has completed at time `at` with
/// `status`: status and time of that record are replaced together. A
/// key that the table does not hold changes nothing.
pub open spec fn completed(
    table: Map<(Seq<char>, u16), RecordView>,
    key: (Seq<char>, u16),
    status: StatusView,
    at: i64,
) -> Map<(Seq<char>, u16), RecordView> {
    if table.contains_key(key) {
        table.insert(key, RecordView { status, last_check: Some(at), ..table[key] })
    } else {
        table
    }
}

proof fn lemma_table_push(records: Seq<RecordView>, record: RecordView)
    ensures
        table_of(records.push(record)) == table_of(records).insert(record.key(), record),
{
    assert(records.push(record).drop_last() == records);
}

proof fn lemma_table_contains(records: Seq<RecordView>, key: (Seq<char>, u16))
    ensures
        table_of(records).contains_key(key) <==> exists|i: int|
            0 <= i < records.len() && (#[trigger] records[i]).key() == key,
        table_of(records).contains_key(key) ==> exists|i: int|
            0 <= i < records.len() && (#[trigger] records[i]) == table_of(records)[key]
                && records[i].key() == key,
    decreases records.len(),
{
    if records.len() > 0 {
        let front = records.drop_last();
        lemma_table_contains(front, key);
        if records.last().key() == key {
            assert(records[records.len() - 1].key() == key);
        } else {
            if table_of(front).contains_key(key) {
                let i = choose|i: int|
                    0 <= i < front.len() && (#[trigger] front[i]) == table_of(front)[key]
                        && front[i].key() == key;
                assert(records[i] == front[i]);
            }
            if exists|i: int| 0 <= i < records.len() && (#[trigger] records[i]).key() == key {
                let i = choose|i: int|
                    0 <= i < records.len() && (#[trigger] records[i]).key() == key;
                assert(front[i] == records[i]);
            }
        }
    }
}

proof fn lemma_table_lookup(records: Seq<RecordView>, i: int)
    requires
        distinct_keys(records),
        0 <= i < records.len(),
    ensures
        table_of(records).contains_key(records[i].key()),
        table_of(records)[records[i].key()] == records[i],
    decreases records.len(),
{
    let front = records.drop_last();
    if i < records.len() - 1 {
        assert(front[i] == records[i]);
        assert(records[i].key() != records[records.len() - 1].key());
        assert(distinct_keys(front)) by {
            assert forall|a: int, b: int| 0 <= a < b < front.len() implies (#[trigger] front[a]).key()
                != (#[trigger] front[b]).key() by {
                assert(front[a] == records[a] && front[b] == records[b]);
            }
        }
        lemma_table_lookup(front, i);
    }
}

proof fn lemma_distinct_front(records: Seq<RecordView>)
    requires
        distinct_keys(records),
        records.len() > 0,
    ensures
        distinct_keys(records.drop_last()),
{
    let front = records.drop_last();
    assert forall|a: int, b: int| 0 <= a < b < front.len() implies (#[trigger] front[a]).key()
        != (#[trigger] front[b]).key() by {
        assert(front[a] == records[a] && front[b] == records[b]);
    }
}

proof fn lemma_table_update(records: Seq<RecordView>, i: int, record: RecordView)
    requires
        distinct_keys(records),
        0 <= i < records.len(),
        record.key() == records[i].key(),
    ensures
        distinct_keys(records.update(i, record)),
        table_of(records.update(i, record)) == table_of(records).insert(record.key(), record),
    decreases records.len(),
{
    let updated = records.update(i, record);
    let front = records.drop_last();
    assert forall|a: int, b: int| 0 <= a < b < updated.len() implies (#[trigger] updated[a]).key()
        != (#[trigger] updated[b]).key() by {
        assert(updated[a].key() == records[a].key());
        assert(updated[b].key() == records[b].key());
    }
    if i == records.len() - 1 {
        assert(updated.drop_last() == front);
        assert(table_of(updated) =~= table_of(records).insert(record.key(), record));
    } else {
        assert(updated.drop_last() == front.update(i, record));
        assert(updated.last() == records.last());
        assert(front[i] == records[i]);
        assert(records[i].key() != records[records.len() - 1].key());
        lemma_distinct_front(records);
        lemma_table_update(front, i, record);
        assert(table_of(updated) =~= table_of(records).insert(record.key(), record));
    }
}

proof fn lemma_table_len(records: Seq<RecordView>)
    requires
        distinct_keys(records),
    ensures
        table_of(records).dom().finite(),
        table_of(records).len() == records.len(),
    decreases records.len(),
{
    if records.len() > 0 {
        let front = records.drop_last();
        lemma_distinct_front(records);
        lemma_table_len(front);
        lemma_table_contains(front, records.last().key());
        if table_of(front).contains_key(records.last().key()) {
            let i = choose|i: int|
                0 <= i < front.len() && (#[trigger] front[i]).key() == records.last().key();
            assert(front[i] == records[i]);
            assert(records[i].key() != records[records.len() - 1].key());
        }
    }
}

/// The table of the latest status of every configured endpoint.
#[derive(Debug, Clone, PartialEq, Eq)]
pub struct StatusStore {
    records: Vec<EndpointInfo>,
}

impl View for StatusStore {
    type V = Map<(Seq<char>, u16), RecordView>;

    open spec fn view(&self) -> Map<(Seq<char>, u16), RecordView> {
        table_of(self.listing())
    }
}

impl StatusStore {
    /// The records in the order in which their keys were first seen.
    pub closed spec fn listing(&self) -> Seq<RecordView> {
        views_of(self.records@)
    }

    /// Each key has one record.
    pub open spec fn wf(&self) -> bool {
        distinct_keys(self.listing())
    }

    fn position(&self, address: &String, port: u16) -> (found: Option<usize>)
        ensures
            match found {
                Some(i) => i < self.listing().len() && self.listing()[i as int].key() == (
                    address@,
                    port,
                ),
                None => forall|i: int|
                    0 <= i < self.listing().len() ==> (#[trigger] self.listing()[i]).key() != (
                        address@,
                        port,
                    ),
            },
    {
        let mut i: usize = 0;
        while i < self.records.len()
            invariant
                i <= self.records@.len(),
                forall|j: int|
                    0 <= j < i ==> (#[trigger] self.listing()[j]).key() != (address@, port),
            decreases self.records@.len() - i,
        {
            let record = &self.records[i];
            if record.endpoint.port == port && record.endpoint.address == *address {
                return Some(i);
            }
            i += 1;
        }
        None
    }

    /// The store at startup: every configured endpoint has a record,
    /// never probed. Where two endpoints share a key, the later one's
    /// record stands.
    pub fn new(endpoints: &Vec<Endpoint>) -> (store: StatusStore)
        ensures
            store.wf(),
            store@ == table_of(initial_records(endpoints@)),
    {
        let mut store = StatusStore { records: Vec::new() };
        let mut i: usize = 0;
        while i < endpoints.len()
            invariant
                i <= endpoints@.len(),
                store.wf(),
                store@ == table_of(initial_records(endpoints@).subrange(0, i as int)),
            decreases endpoints@.len() - i,
        {
            let endpoint = &endpoints[i];
            let record = EndpointInfo {
                endpoint: endpoint.duplicate(),
                status: EndpointStatus::Unknown,
                last_check: None,
            };
            proof {
                let before = initial_records(endpoints@).subrange(0, i as int);
                assert(initial_records(endpoints@).subrange(0, i + 1) == before.push(record@));
                lemma_table_push(before, record@);
            }
            store.put(record);
            i += 1;
        }
        assert(initial_records(endpoints@).subrange(0, i as int) == initial_records(endpoints@));
        store
    }

    /// Writes `record` under its key, in place of the record that the
    /// key had, if any.
    fn put(&mut self, record: EndpointInfo)
        requires
            old(self).wf(),
        ensures
            final(self).wf(),
            final(self)@ == old(self)@.insert(record@.key(), record@),
            final(self).listing().len() >= old(self).listing().len(),
    {
        let ghost before = self.listing();
        match self.position(&record.endpoint.address, record.endpoint.port) {
            Some(i) => {
                proof {
                    lemma_table_update(before, i as int, record@);
                }
                self.records.set(i, record);
                assert(self.listing() == before.update(i as int, record@));
            },
            None => {
                proof {
                    lemma_table_push(before, record@);
                }
                self.records.push(record);
                assert(self.listing() == before.push(record@));
                assert forall|a: int, b: int| 0 <= a < b < self.listing().len() implies (
                #[trigger] self.listing()[a]).key() != (#[trigger] self.listing()[b]).key() by {
                    assert(self.listing()[a] == before[a]);
                    if b < before.len() {
                        assert(self.listing()[b] == before[b]);
                    }
                }
            },
        }
    }

    /// The number of records.
    pub fn len(&self) -> (count: usize)
        requires
            self.wf(),
        ensures
            self@.dom().finite(),
            count == self@.len(),
    {
        proof {
            lemma_table_len(self.listing());
        }
        self.records.len()
    }

    /// The record of one key, if the store holds the key.
    pub fn get(&self, address: &String, port: u16) -> (found: Option<&EndpointInfo>)
        requires
            self.wf(),
        ensures
            match found {
                Some(record) => self@.contains_key((address@, port)) && record@ == self@[(
                    address@,
                    port,
                )],
                None => !self@.contains_key((address@, port)),
            },
    {
        proof {
            lemma_table_contains(self.listing(), (address@, port));
        }
        match self.position(address, port) {
            Some(i) => {
                proof {
                    lemma_table_lookup(self.listing(), i as int);
                }
                Some(&self.records[i])
            },
            None => None,
        }
    }

    /// Marks the probe of `endpoint` as started: its status becomes
    /// `Checking`, its time of last check stays.
    pub fn mark_checking(&mut self, endpoint: &Endpoint)
        requires
            old(self).wf(),
        ensures
            final(self).wf(),
            final(self)@ == marked_checking(old(self)@, endpoint@.key()),
            final(self)@.dom() == old(self)@.dom(),
    {
        assert(marked_checking(self@, endpoint@.key()).dom() =~= self@.dom());
        proof {
            lemma_table_contains(self.listing(), endpoint@.key());
        }
        match self.position(&endpoint.address, endpoint.port) {
            Some(i) => {
                proof {
                    lemma_table_lookup(self.listing(), i as int);
                }
                let current = &self.records[i];
                let record = EndpointInfo {
                    endpoint: current.endpoint.duplicate(),
                    status: EndpointStatus::Checking,
                    last_check: current.last_check,
                };
                self.put(record);
            },
            None => {},
        }
    }

    /// Writes the outcome of the probe of `endpoint`: status and time
    /// of completion, together.
    pub fn record_result(&mut self, endpoint: &Endpoint, status: EndpointStatus, completed_at: i64)
        requires
            old(self).wf(),
        ensures
            final(self).wf(),
            final(self)@ == completed(old(self)@, endpoint@.key(), status@, completed_at),
            final(self)@.dom() == old(self)@.dom(),
    {
        assert(completed(self@, endpoint@.key(), status@, completed_at).dom() =~= self@.dom());
        proof {
            lemma_table_contains(self.listing(), endpoint@.key());
        }
        match self.position(&endpoint.address, endpoint.port) {
            Some(i) => {
                proof {
                    lemma_table_lookup(self.listing(), i as int);
                }
                let current = &self.records[i];
                let record = EndpointInfo {
                    endpoint: current.endpoint.duplicate(),
                    status,
                    last_check: Some(completed_at),
                };
                self.put(record);
            },
            None => {},
        }
    }

    /// A copy of every record, taken at one instant: one entry per key.
    pub fn snapshot(&self) -> (records: Vec<EndpointInfo>)
        requires
            self.wf(),
        ensures
            views_of(records@) == self.listing(),
            distinct_keys(views_of(records@)),
            table_of(views_of(records@)) == self@,
    {
        let mut copy: Vec<EndpointInfo> = Vec::new();
        let mut i: usize = 0;
        while i < self.records.len()
            invariant
                i <= self.records@.len(),
                copy@.len() == i,
                views_of(copy@) == self.listing().subrange(0, i as int),
            decreases self.records@.len() - i,
        {
            let ghost before = copy@;
            copy.push(self.records[i].duplicate());
            assert(views_of(copy@) =~= self.listing().subrange(0, i + 1)) by {
                assert forall|j: int| 0 <= j < i + 1 implies views_of(copy@)[j]
                    == self.listing().subrange(0, i + 1)[j] by {
                    if j < i {
                        assert(copy@[j] == before[j]);
                        assert(views_of(before)[j] == self.listing().subrange(0, i as int)[j]);
                    }
                }
            }
            i += 1;
        }
        assert(self.listing().subrange(0, i as int) == self.listing());
        copy
    }
}

/// One write to the table, as the checks of a cycle make them.
pub enum StoreWrite {
    /// The probe of `key` has started.
    Started { key: (Seq<char>, u16) },
    /// The probe of `key` has completed at time `at` with `status`.
    Completed { key: (Seq<char>, u16), status: StatusView, at: i64 },
}

/// The table after one write.
pub open spec fn after_write(
    table: Map<(Seq<char>, u16), RecordView>,
    write: StoreWrite,
) -> Map<(Seq<char>, u16), RecordView> {
    match write {
        StoreWrite::Started { key } => marked_checking(table, key),
        StoreWrite::Completed { key, status, at } => completed(table, key, status, at),
    }
}

/// The table after a run of writes, in the order in which they land.
pub open spec fn after_writes(
    table: Map<(Seq<char>, u16), RecordView>,
    writes: Seq<StoreWrite>,
) -> Map<(Seq<char>, u16), RecordView>
    decreases writes.len(),
{
    if writes.len() == 0 {
        table
    } else {
        after_write(after_writes(table, writes.drop_last()), writes.last())
    }
}

/// A record's time of last check is set where a probe of it has
/// completed, and is not set where none was ever made.
pub open spec fn times_settled(table: Map<(Seq<char>, u16), RecordView>) -> bool {
    forall|key: (Seq<char>, u16)| #[trigger]
        table.contains_key(key) ==> (table[key].status.is_terminal() ==> table[key].last_check
            is Some) && (table[key].status is Unknown ==> table[key].last_check is None)
}

/// Every completion among the writes carries the outcome of a probe:
/// `Online` or `Offline`.
pub open spec fn completions_are_outcomes(writes: Seq<StoreWrite>) -> bool {
    forall|i: int|
        0 <= i < writes.len() ==> ((#[trigger] writes[i]) matches StoreWrite::Completed {
            status,
            ..
        } ==> status.is_terminal())
}

/// At startup the store holds a key exactly if a configured endpoint
/// has it, and the record of every key is that of a never-probed
/// endpoint with this key: status `Unknown`, no time of last check.
pub proof fn lemma_initial_table(endpoints: Seq<Endpoint>, key: (Seq<char>, u16))
    ensures
        table_of(initial_records(endpoints)).contains_key(key) <==> exists|i: int|
            0 <= i < endpoints.len() && (#[trigger] endpoints[i])@.key() == key,
        table_of(initial_records(endpoints)).contains_key(key) ==> {
            let record = table_of(initial_records(endpoints))[key];
            &&& record.key() == key
            &&& record.status is Unknown
            &&& record.last_check is None
        },
        times_settled(table_of(initial_records(endpoints))),
{
    let records = initial_records(endpoints);
    lemma_table_contains(records, key);
    if table_of(records).contains_key(key) {
        let i = choose|i: int| 0 <= i < records.len() && (#[trigger] records[i]).key() == key;
        assert(endpoints[i]@.key() == key);
    }
    if exists|i: int| 0 <= i < endpoints.len() && (#[trigger] endpoints[i])@.key() == key {
        let i = choose|i: int| 0 <= i < endpoints.len() && (#[trigger] endpoints[i])@.key() == key;
        assert(records[i].key() == key);
    }
    assert forall|other: (Seq<char>, u16)| #[trigger]
        table_of(records).contains_key(other) implies table_of(records)[other].status
        is Unknown && table_of(records)[other].last_check is None by {
        lemma_table_contains(records, other);
    }
}

/// Where no two configured endpoints share a key, the store at startup
/// holds exactly as many records as there are endpoints.
pub proof fn lemma_initial_count(endpoints: Seq<Endpoint>)
    requires
        forall|i: int, j: int|
            0 <= i < j < endpoints.len() ==> (#[trigger] endpoints[i])@.key() != (
            #[trigger] endpoints[j])@.key(),
    ensures
        table_of(initial_records(endpoints)).dom().finite(),
        table_of(initial_records(endpoints)).len() == endpoints.len(),
{
    let records = initial_records(endpoints);
    assert forall|i: int, j: int| 0 <= i < j < records.len() implies (#[trigger] records[i]).key()
        != (#[trigger] records[j]).key() by {
        assert(records[i].key() == endpoints[i]@.key());
        assert(records[j].key() == endpoints[j]@.key());
    }
    lemma_table_len(records);
}

/// No run of writes, in whatever order the checks land, adds a key to
/// the table or takes one away, and none renames a record: the set of
/// keys is the one the table started with.
pub proof fn lemma_writes_keep_keys(
    table: Map<(Seq<char>, u16), RecordView>,
    writes: Seq<StoreWrite>,
)
    ensures
        after_writes(table, writes).dom() == table.dom(),
        forall|key: (Seq<char>, u16)| #[trigger]
            table.contains_key(key) ==> after_writes(table, writes)[key].endpoint
                == table[key].endpoint,
    decreases writes.len(),
{
    if writes.len() > 0 {
        lemma_writes_keep_keys(table, writes.drop_last());
        let before = after_writes(table, writes.drop_last());
        assert(after_write(before, writes.last()).dom() =~= before.dom());
    }
}

/// A write to one key leaves the record of every other key as it was.
pub proof fn lemma_write_touches_one_key(
    table: Map<(Seq<char>, u16), RecordView>,
    write: StoreWrite,
    other: (Seq<char>, u16),
)
    requires
        other != (match write {
            StoreWrite::Started { key } => key,
            StoreWrite::Completed { key, .. } => key,
        }),
    ensures
        after_write(table, write).contains_key(other) == table.contains_key(other),
        after_write(table, write)[other] == table[other],
{
}

/// Writes to two different keys give the same table in either order.
pub proof fn lemma_writes_to_different_keys_commute(
    table: Map<(Seq<char>, u16), RecordView>,
    first: StoreWrite,
    second: StoreWrite,
)
    requires
        (match first {
            StoreWrite::Started { key } => key,
            StoreWrite::Completed { key, .. } => key,
        }) != (match second {
            StoreWrite::Started { key } => key,
            StoreWrite::Completed { key, .. } => key,
        }),
    ensures
        after_write(after_write(table, first), second) == after_write(
            after_write(table, second),
            first,
        ),
{
    assert(after_write(after_write(table, first), second) =~= after_write(
        after_write(table, second),
        first,
    ));
}

/// A completed probe sets status and time together: right after the
/// write the record has the status written and a time of last check.
/// A started probe changes the status alone: the time stays what it
/// was, so a record that was never completed still has none.
pub proof fn lemma_time_is_set_on_completion(
    table: Map<(Seq<char>, u16), RecordView>,
    key: (Seq<char>, u16),
    status: StatusView,
    at: i64,
)
    requires
        table.contains_key(key),
    ensures
        completed(table, key, status, at)[key].status == status,
        completed(table, key, status, at)[key].last_check == Some(at),
        marked_checking(table, key)[key].status is Checking,
        marked_checking(table, key)[key].last_check == table[key].last_check,
{
}

/// A write keeps the times settled, provided that a completion carries
/// `Online` or `Offline`.
pub proof fn lemma_write_keeps_times_settled(
    table: Map<(Seq<char>, u16), RecordView>,
    write: StoreWrite,
)
    requires
        times_settled(table),
        write matches StoreWrite::Completed { status, .. } ==> status.is_terminal(),
    ensures
        times_settled(after_write(table, write)),
{
    let after = after_write(table, write);
    assert forall|key: (Seq<char>, u16)| #[trigger] after.contains_key(key) implies (
    after[key].status.is_terminal() ==> after[key].last_check is Some) && (after[key].status
        is Unknown ==> after[key].last_check is None) by {
        assert(table.contains_key(key));
    }
}

/// Through any run of writes whose completions carry `Online` or
/// `Offline`, every `Online` or `Offline` record has a time of last
/// check and every `Unknown` record has none.
pub proof fn lemma_writes_keep_times_settled(
    table: Map<(Seq<char>, u16), RecordView>,
    writes: Seq<StoreWrite>,
)
    requires
        times_settled(table),
        completions_are_outcomes(writes),
    ensures
        times_settled(after_writes(table, writes)),
    decreases writes.len(),
{
    if writes.len() > 0 {
        let front = writes.drop_last();
        assert forall|i: int| 0 <= i < front.len() implies ((#[trigger] front[i])
            matches StoreWrite::Completed { status, .. } ==> status.is_terminal()) by {
            assert(front[i] == writes[i]);
        }
        lemma_writes_keep_times_settled(table, front);
        assert(writes.last() == writes[writes.len() - 1]);
        lemma_write_keeps_times_settled(after_writes(table, front), writes.last());
    }
}

} // verus!
