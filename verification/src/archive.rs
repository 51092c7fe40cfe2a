//! The archive contract: batches of old transaction records, kept under
//! consecutive batch ids.

use vstd::prelude::*;
use crate::address::Address;
use crate::history::{duplicate_records, record_views, TransactionRecord, TransactionRecordView};

verus! {

/// The kinds of storage entries the archive contract keeps.
#[derive(Clone, Copy, Debug, PartialEq, Eq, Structural)]
pub enum ArchiveDataKey {
    Admin,
    ArchiveThreshold,
    ArchiveBatchCount,
    ArchiveBatch(u64),
}

/// A batch of archived records and the time span they cover.
#[derive(Debug)]
pub struct CompressedArchive {
    pub batch_id: u64,
    pub start_time: u64,
    pub end_time: u64,
    pub records: Vec<TransactionRecord>,
}

pub struct CompressedArchiveView {
    pub batch_id: u64,
    pub start_time: u64,
    pub end_time: u64,
    pub records: Seq<TransactionRecordView>,
}

impl View for CompressedArchive {
    type V = CompressedArchiveView;

    open spec fn view(&self) -> CompressedArchiveView {
        CompressedArchiveView {
            batch_id: self.batch_id,
            start_time: self.start_time,
            end_time: self.end_time,
            records: record_views(self.records@),
        }
    }
}

impl CompressedArchive {
    pub fn duplicate(&self) -> (r: CompressedArchive)
        ensures
            r@ == self@,
    {
        CompressedArchive {
            batch_id: self.batch_id,
            start_time: self.start_time,
            end_time: self.end_time,
            records: duplicate_records(&self.records),
        }
    }
}

/// The errors the archive contract answers with.
#[derive(Clone, Copy, Debug, PartialEq, Eq, Structural)]
pub enum ArchiveError {
    NotInitialized,
    AlreadyInitialized,
    Unauthorized,
    NoRecordsToArchive,
    InvalidThreshold,
}

impl ArchiveError {
    /// The contract error code of the error.
    pub fn code(&self) -> (c: u32)
        ensures
            1 <= c <= 5,
            c == self.spec_code(),
    {
        match self {
            ArchiveError::NotInitialized => 1,
            ArchiveError::AlreadyInitialized => 2,
            ArchiveError::Unauthorized => 3,
            ArchiveError::NoRecordsToArchive => 4,
            ArchiveError::InvalidThreshold => 5,
        }
    }

    /// The contract error code of the error, as a number.
    pub open spec fn spec_code(&self) -> u32 {
        match self {
            ArchiveError::NotInitialized => 1,
            ArchiveError::AlreadyInitialized => 2,
            ArchiveError::Unauthorized => 3,
            ArchiveError::NoRecordsToArchive => 4,
            ArchiveError::InvalidThreshold => 5,
        }
    }
}

/// An event published by the archive contract.
#[derive(Clone, Copy, Debug, PartialEq, Eq, Structural)]
pub enum ArchiveEvent {
    BatchArchived { batch_id: u64, record_count: u32, timestamp: u64 },
}

impl ArchiveEvent {
    /// The names of the two topics the event is published under.
    pub open spec fn topic_names(&self) -> (Seq<char>, Seq<char>) {
        match self {
            ArchiveEvent::BatchArchived { .. } => ("archive"@, "batched"@),
        }
    }

    /// The two topics the event is published under.
    pub fn topics(&self) -> (r: (&'static str, &'static str))
        ensures
            (r.0@, r.1@) == self.topic_names(),
    {
        match self {
            ArchiveEvent::BatchArchived { .. } => ("archive", "batched"),
        }
    }
}

/// The log of the events the archive contract has published, oldest first.
pub struct ArchiveEvents {
    log: Vec<ArchiveEvent>,
}

impl View for ArchiveEvents {
    type V = Seq<ArchiveEvent>;

    closed spec fn view(&self) -> Seq<ArchiveEvent> {
        self.log@
    }
}

impl ArchiveEvents {
    pub fn new() -> (r: ArchiveEvents)
        ensures
            r@ == Seq::<ArchiveEvent>::empty(),
    {
        ArchiveEvents { log: Vec::new() }
    }

    pub fn all(&self) -> (r: &Vec<ArchiveEvent>)
        ensures
            r@ == self@,
    {
        &self.log
    }

    pub fn batch_archived(&mut self, batch_id: u64, record_count: u32, timestamp: u64)
        ensures
            final(self)@ == old(self)@.push(ArchiveEvent::BatchArchived { batch_id, record_count, timestamp }),
    {
        self.log.push(ArchiveEvent::BatchArchived { batch_id, record_count, timestamp });
    }
}

// ---------------------------------------------------------------------------
// Selecting the records old enough to archive
// ---------------------------------------------------------------------------

/// The latest time a record may carry to be archived: `now - threshold`,
/// or 0 when the threshold reaches back before time 0.
pub open spec fn cutoff(now: u64, threshold: u64) -> u64 {
    if now >= threshold { (now - threshold) as u64 } else { 0 }
}

/// The records, in order, whose timestamp is at most `cutoff`.
pub open spec fn archivable(records: Seq<TransactionRecordView>, cutoff: u64) -> Seq<TransactionRecordView>
    decreases records.len(),
{
    if records.len() == 0 {
        Seq::empty()
    } else {
        let kept = archivable(records.drop_last(), cutoff);
        if records.last().timestamp <= cutoff { kept.push(records.last()) } else { kept }
    }
}

/// The earliest timestamp of the records; `u64::MAX` for no records.
pub open spec fn earliest(records: Seq<TransactionRecordView>) -> u64
    decreases records.len(),
{
    if records.len() == 0 {
        u64::MAX
    } else {
        let e = earliest(records.drop_last());
        if records.last().timestamp < e { records.last().timestamp } else { e }
    }
}

/// The latest timestamp of the records; 0 for no records.
pub open spec fn latest(records: Seq<TransactionRecordView>) -> u64
    decreases records.len(),
{
    if records.len() == 0 {
        0
    } else {
        let l = latest(records.drop_last());
        if records.last().timestamp > l { records.last().timestamp } else { l }
    }
}

/// Keeps the records whose timestamp is at most `cutoff`, in order, and
/// answers them with their earliest and latest timestamps.
pub fn select_archivable(records: &Vec<TransactionRecord>, cutoff: u64) -> (r: (Vec<TransactionRecord>, u64, u64))
    ensures
        record_views(r.0@) == archivable(record_views(records@), cutoff),
        r.1 == earliest(archivable(record_views(records@), cutoff)),
        r.2 == latest(archivable(record_views(records@), cutoff)),
{
    let mut kept: Vec<TransactionRecord> = Vec::new();
    let mut min_time: u64 = u64::MAX;
    let mut max_time: u64 = 0;
    let n = records.len();
    let mut i: usize = 0;
    while i < n
        invariant
            n == records@.len(),
            i <= n,
            record_views(kept@) == archivable(record_views(records@.take(i as int)), cutoff),
            min_time == earliest(archivable(record_views(records@.take(i as int)), cutoff)),
            max_time == latest(archivable(record_views(records@.take(i as int)), cutoff)),
        decreases n - i,
    {
        let ghost before = record_views(records@.take(i as int));
        let ghost after = record_views(records@.take(i + 1));
        proof {
            assert(after.drop_last() =~= before);
            assert(after.last() == records@[i as int]@);
        }
        let t = records[i].timestamp;
        if t <= cutoff {
            let ghost kept_before = kept@;
            let copy = records[i].duplicate();
            kept.push(copy);
            proof {
                assert(record_views(kept@) =~= record_views(kept_before).push(records@[i as int]@));
                let sel = archivable(after, cutoff);
                assert(sel.drop_last() =~= archivable(before, cutoff));
            }
            if t < min_time {
                min_time = t;
            }
            if t > max_time {
                max_time = t;
            }
        }
        i = i + 1;
    }
    assert(records@.take(n as int) =~= records@);
    (kept, min_time, max_time)
}

// ---------------------------------------------------------------------------
// The contract
// ---------------------------------------------------------------------------

/// What the archive contract holds, as mathematical values.
pub struct ArchiveView {
    pub admin: Option<Address>,
    pub threshold: u64,
    pub batches: Seq<CompressedArchiveView>,
    pub timestamp: u64,
    pub events: Seq<ArchiveEvent>,
}

/// The archive contract: its storage, the ledger timestamp it sees and the
/// events it has published. Batch `k` is kept at position `k - 1`.
pub struct ArchiveContract {
    admin: Option<Address>,
    threshold: u64,
    batches: Vec<CompressedArchive>,
    timestamp: u64,
    events: ArchiveEvents,
}

pub open spec fn batch_views(batches: Seq<CompressedArchive>) -> Seq<CompressedArchiveView> {
    batches.map_values(|b: CompressedArchive| b@)
}

impl View for ArchiveContract {
    type V = ArchiveView;

    closed spec fn view(&self) -> ArchiveView {
        ArchiveView {
            admin: self.admin,
            threshold: self.threshold,
            batches: batch_views(self.batches@),
            timestamp: self.timestamp,
            events: self.events@,
        }
    }
}

impl ArchiveView {
    /// Batch ids are consecutive from 1, and each batch holds at least one record.
    pub open spec fn consistent(&self) -> bool {
        &&& self.batches.len() <= u64::MAX
        &&& forall|i: int| 0 <= i < self.batches.len() ==> (#[trigger] self.batches[i]).batch_id == i + 1
            && self.batches[i].records.len() > 0
    }
}

/// The answer to a call that only the admin may make.
pub open spec fn admin_result(admin: Option<Address>, caller: Address) -> Result<(), ArchiveError> {
    match admin {
        None => Err(ArchiveError::NotInitialized),
        Some(a) => if a == caller { Ok(()) } else { Err(ArchiveError::Unauthorized) },
    }
}

impl ArchiveContract {
    pub closed spec fn wf(&self) -> bool {
        self@.consistent()
    }

    /// A freshly deployed contract: nothing stored, at ledger time 0.
    pub fn new() -> (c: ArchiveContract)
        ensures
            c.wf(),
            c@ == (ArchiveView {
                admin: None,
                threshold: 0,
                batches: Seq::empty(),
                timestamp: 0,
                events: Seq::empty(),
            }),
    {
        let c = ArchiveContract {
            admin: None,
            threshold: 0,
            batches: Vec::new(),
            timestamp: 0,
            events: ArchiveEvents::new(),
        };
        assert(c@.batches =~= Seq::<CompressedArchiveView>::empty());
        c
    }

    /// Sets the ledger timestamp the contract sees.
    pub fn set_ledger_timestamp(&mut self, timestamp: u64)
        requires
            old(self).wf(),
        ensures
            final(self).wf(),
            final(self)@ == (ArchiveView { timestamp, ..old(self)@ }),
    {
        self.timestamp = timestamp;
    }

    /// The events published so far, oldest first.
    pub fn events(&self) -> (r: &Vec<ArchiveEvent>)
        ensures
            r@ == self@.events,
    {
        self.events.all()
    }

    /// Stores the admin and the archive threshold; only once.
    pub fn initialize(&mut self, admin: Address, threshold_seconds: u64) -> (r: Result<(), ArchiveError>)
        requires
            old(self).wf(),
        ensures
            final(self).wf(),
            match initialize_outcome(old(self)@, admin, threshold_seconds) {
                Ok(v) => r is Ok && final(self)@ == v,
                Err(e) => r == Err::<(), ArchiveError>(e) && final(self)@ == old(self)@,
            },
    {
        initialize_archive(self, admin, threshold_seconds)
    }

    /// Changes the archive threshold; admin only, and never to 0.
    pub fn set_threshold(&mut self, caller: Address, threshold_seconds: u64) -> (r: Result<(), ArchiveError>)
        requires
            old(self).wf(),
        ensures
            final(self).wf(),
            match set_threshold_outcome(old(self)@, caller, threshold_seconds) {
                Ok(v) => r is Ok && final(self)@ == v,
                Err(e) => r == Err::<(), ArchiveError>(e) && final(self)@ == old(self)@,
            },
    {
        set_threshold(self, caller, threshold_seconds)
    }

    /// Archives, as the next batch, the records at least the threshold old;
    /// admin only. Answers the new batch id.
    pub fn archive_records(&mut self, caller: Address, records: Vec<TransactionRecord>) -> (r: Result<u64, ArchiveError>)
        requires
            old(self).wf(),
            records@.len() <= u32::MAX,
            old(self)@.batches.len() < u64::MAX,
        ensures
            final(self).wf(),
            match archive_outcome(old(self)@, caller, record_views(records@)) {
                Ok(v) => r == Ok::<u64, ArchiveError>((old(self)@.batches.len() + 1) as u64) && final(self)@ == v,
                Err(e) => r == Err::<u64, ArchiveError>(e) && final(self)@ == old(self)@,
            },
    {
        archive_records(self, caller, records)
    }

    /// The batch archived under `batch_id`, if there is one.
    pub fn get_archive_batch(&self, batch_id: u64) -> (r: Option<CompressedArchive>)
        requires
            self.wf(),
        ensures
            match r {
                Some(b) => 1 <= batch_id <= self@.batches.len() && b@ == self@.batches[batch_id - 1],
                None => !(1 <= batch_id <= self@.batches.len()),
            },
    {
        get_archive_batch(self, batch_id)
    }
}

/// The contract after `initialize`, or the error it answers.
pub open spec fn initialize_outcome(s: ArchiveView, admin: Address, threshold: u64) -> Result<ArchiveView, ArchiveError> {
    if s.admin is Some {
        Err(ArchiveError::AlreadyInitialized)
    } else {
        Ok(ArchiveView { admin: Some(admin), threshold, batches: Seq::empty(), ..s })
    }
}

/// The contract after `set_threshold`, or the error it answers.
pub open spec fn set_threshold_outcome(s: ArchiveView, caller: Address, threshold: u64) -> Result<ArchiveView, ArchiveError> {
    match admin_result(s.admin, caller) {
        Err(e) => Err(e),
        Ok(_) => if threshold == 0 {
            Err(ArchiveError::InvalidThreshold)
        } else {
            Ok(ArchiveView { threshold, ..s })
        },
    }
}

/// The contract after `archive_records`, or the error it answers.
pub open spec fn archive_outcome(s: ArchiveView, caller: Address, records: Seq<TransactionRecordView>) -> Result<ArchiveView, ArchiveError> {
    match admin_result(s.admin, caller) {
        Err(e) => Err(e),
        Ok(_) => {
            let kept = archivable(records, cutoff(s.timestamp, s.threshold));
            if records.len() == 0 || kept.len() == 0 {
                Err(ArchiveError::NoRecordsToArchive)
            } else {
                let id = (s.batches.len() + 1) as u64;
                Ok(ArchiveView {
                    batches: s.batches.push(CompressedArchiveView {
                        batch_id: id,
                        start_time: earliest(kept),
                        end_time: latest(kept),
                        records: kept,
                    }),
                    events: s.events.push(ArchiveEvent::BatchArchived {
                        batch_id: id,
                        record_count: kept.len() as u32,
                        timestamp: s.timestamp,
                    }),
                    ..s
                })
            }
        },
    }
}

proof fn lemma_archivable_len(records: Seq<TransactionRecordView>, cutoff: u64)
    ensures
        archivable(records, cutoff).len() <= records.len(),
    decreases records.len(),
{
    if records.len() > 0 {
        lemma_archivable_len(records.drop_last(), cutoff);
    }
}

/// Stores the admin and the archive threshold, and starts the batch count at 0; only once.
pub fn initialize_archive(contract: &mut ArchiveContract, admin: Address, threshold_seconds: u64) -> (r: Result<(), ArchiveError>)
    requires
        old(contract).wf(),
    ensures
        final(contract).wf(),
        match initialize_outcome(old(contract)@, admin, threshold_seconds) {
            Ok(v) => r is Ok && final(contract)@ == v,
            Err(e) => r == Err::<(), ArchiveError>(e) && final(contract)@ == old(contract)@,
        },
{
    if contract.admin.is_some() {
        return Err(ArchiveError::AlreadyInitialized);
    }
    contract.admin = Some(admin);
    contract.threshold = threshold_seconds;
    contract.batches = Vec::new();
    assert(contract@.batches =~= Seq::<CompressedArchiveView>::empty());
    Ok(())
}

/// Checks that `caller` is the admin of a contract whose admin is `admin`.
pub fn authorize(admin: Option<Address>, caller: Address) -> (r: Result<(), ArchiveError>)
    ensures
        r == admin_result(admin, caller),
{
    match admin {
        None => Err(ArchiveError::NotInitialized),
        Some(a) => if a != caller { Err(ArchiveError::Unauthorized) } else { Ok(()) },
    }
}

/// Checks that `caller` is the admin.
pub fn require_admin(contract: &ArchiveContract, caller: &Address) -> (r: Result<(), ArchiveError>)
    ensures
        r == admin_result(contract@.admin, *caller),
{
    authorize(contract.admin, *caller)
}

/// Checks a new archive threshold: never 0.
pub fn check_threshold(threshold_seconds: u64) -> (r: Result<(), ArchiveError>)
    ensures
        r == (if threshold_seconds == 0 { Err(ArchiveError::InvalidThreshold) } else { Ok(()) }),
{
    if threshold_seconds == 0 {
        return Err(ArchiveError::InvalidThreshold);
    }
    Ok(())
}

/// The latest time a record may carry to be archived at ledger time `now`.
pub fn archive_cutoff(now: u64, threshold_seconds: u64) -> (r: u64)
    ensures
        r == cutoff(now, threshold_seconds),
{
    if now >= threshold_seconds { now - threshold_seconds } else { 0 }
}

/// The batch `batch_id` of the records at least `threshold_seconds` old at
/// ledger time `now`; refused when there are no records or none is old enough.
pub fn build_batch(records: &Vec<TransactionRecord>, now: u64, threshold_seconds: u64, batch_id: u64) -> (r: Result<CompressedArchive, ArchiveError>)
    ensures
        ({
            let kept = archivable(record_views(records@), cutoff(now, threshold_seconds));
            match r {
                Err(e) => e == ArchiveError::NoRecordsToArchive && (records@.len() == 0 || kept.len() == 0),
                Ok(b) => records@.len() > 0 && kept.len() > 0 && b@ == (CompressedArchiveView {
                    batch_id,
                    start_time: earliest(kept),
                    end_time: latest(kept),
                    records: kept,
                }),
            }
        }),
{
    if records.len() == 0 {
        return Err(ArchiveError::NoRecordsToArchive);
    }
    let cut = archive_cutoff(now, threshold_seconds);
    let (kept, min_time, max_time) = select_archivable(records, cut);
    if kept.len() == 0 {
        return Err(ArchiveError::NoRecordsToArchive);
    }
    Ok(CompressedArchive { batch_id, start_time: min_time, end_time: max_time, records: kept })
}

/// Changes the archive threshold; admin only, and never to 0.
pub fn set_threshold(contract: &mut ArchiveContract, caller: Address, threshold_seconds: u64) -> (r: Result<(), ArchiveError>)
    requires
        old(contract).wf(),
    ensures
        final(contract).wf(),
        match set_threshold_outcome(old(contract)@, caller, threshold_seconds) {
            Ok(v) => r is Ok && final(contract)@ == v,
            Err(e) => r == Err::<(), ArchiveError>(e) && final(contract)@ == old(contract)@,
        },
{
    require_admin(contract, &caller)?;
    check_threshold(threshold_seconds)?;
    contract.threshold = threshold_seconds;
    Ok(())
}

/// Archives, as the next batch, the records whose timestamp is at most the
/// ledger time less the threshold; admin only. Newer records are left out;
/// when none is old enough nothing is archived. Answers the new batch id.
pub fn archive_records(contract: &mut ArchiveContract, caller: Address, records: Vec<TransactionRecord>) -> (r: Result<u64, ArchiveError>)
    requires
        old(contract).wf(),
        records@.len() <= u32::MAX,
        old(contract)@.batches.len() < u64::MAX,
    ensures
        final(contract).wf(),
        match archive_outcome(old(contract)@, caller, record_views(records@)) {
            Ok(v) => r == Ok::<u64, ArchiveError>((old(contract)@.batches.len() + 1) as u64) && final(contract)@ == v,
            Err(e) => r == Err::<u64, ArchiveError>(e) && final(contract)@ == old(contract)@,
        },
{
    require_admin(contract, &caller)?;
    let batch_id = contract.batches.len() as u64 + 1;
    let batch = build_batch(&records, contract.timestamp, contract.threshold, batch_id)?;
    proof { lemma_archivable_len(record_views(records@), cutoff(contract@.timestamp, contract@.threshold)); }
    let count = batch.records.len() as u32;
    let ghost old_batches = contract.batches@;
    contract.batches.push(batch);
    assert(batch_views(contract.batches@) =~= batch_views(old_batches).push(batch@));
    let t = contract.timestamp;
    contract.events.batch_archived(batch_id, count, t);
    Ok(batch_id)
}

/// The batch archived under `batch_id`, if there is one.
pub fn get_archive_batch(contract: &ArchiveContract, batch_id: u64) -> (r: Option<CompressedArchive>)
    requires
        contract.wf(),
    ensures
        match r {
            Some(b) => 1 <= batch_id <= contract@.batches.len() && b@ == contract@.batches[batch_id - 1],
            None => !(1 <= batch_id <= contract@.batches.len()),
        },
{
    if batch_id == 0 || batch_id > contract.batches.len() as u64 {
        return None;
    }
    Some(contract.batches[(batch_id - 1) as usize].duplicate())
}

/// Every state the contract reaches keeps its batches under consecutive ids
/// from 1, each holding at least one record.
pub proof fn reachable_states_are_consistent(c: &ArchiveContract)
    requires
        c.wf(),
    ensures
        c@.consistent(),
{
}

/// Only records at least the threshold old are archived, and a batch's time
/// span covers every record in it.
pub proof fn archived_records_are_old_enough(records: Seq<TransactionRecordView>, cutoff: u64)
    ensures
        forall|i: int| 0 <= i < archivable(records, cutoff).len() ==> {
            let r = #[trigger] archivable(records, cutoff)[i];
            &&& earliest(archivable(records, cutoff)) <= r.timestamp
            &&& r.timestamp <= latest(archivable(records, cutoff))
            &&& r.timestamp <= cutoff
        },
    decreases records.len(),
{
    if records.len() > 0 {
        archived_records_are_old_enough(records.drop_last(), cutoff);
        let kept = archivable(records.drop_last(), cutoff);
        if records.last().timestamp <= cutoff {
            let now = archivable(records, cutoff);
            assert(now.drop_last() =~= kept);
            assert forall|i: int| 0 <= i < now.len() implies {
                let r = #[trigger] now[i];
                &&& earliest(now) <= r.timestamp
                &&& r.timestamp <= latest(now)
                &&& r.timestamp <= cutoff
            } by {
                if i < kept.len() {
                    assert(now[i] == kept[i]);
                }
            }
        }
    }
}

/// A batch just archived is what `get_archive_batch` gives back for the id
/// it was answered with, and the batches before it are untouched.
pub proof fn archived_batch_is_read_back(s: ArchiveView, caller: Address, records: Seq<TransactionRecordView>)
    requires
        archive_outcome(s, caller, records) is Ok,
        s.batches.len() < u64::MAX,
    ensures
        archive_outcome(s, caller, records) matches Ok(v) && {
            let id = s.batches.len() + 1;
            let kept = archivable(records, cutoff(s.timestamp, s.threshold));
            &&& v.batches.len() == id
            &&& v.batches[id - 1].records == kept
            &&& v.batches[id - 1].batch_id == id
            &&& forall|i: int| 0 <= i < s.batches.len() ==> v.batches[i] == s.batches[i]
        },
{
}

/// Whether a record stamped `timestamp` is old enough to archive at ledger
/// time `now` under `threshold`: at least `threshold` seconds old, or, while
/// the ledger is younger than the threshold, stamped at time 0.
pub open spec fn old_enough(timestamp: u64, now: u64, threshold: u64) -> bool {
    timestamp + threshold <= now || (now < threshold && timestamp == 0)
}

proof fn lemma_archivable_is_filter(records: Seq<TransactionRecordView>, now: u64, threshold: u64)
    ensures
        archivable(records, cutoff(now, threshold))
            == records.filter(|r: TransactionRecordView| old_enough(r.timestamp, now, threshold)),
    decreases records.len(),
{
    reveal(Seq::filter);
    if records.len() > 0 {
        lemma_archivable_is_filter(records.drop_last(), now, threshold);
    }
}

/// The admin's archive keeps, in order, exactly the records that are old
/// enough (see `old_enough`), and is refused as having nothing to archive
/// exactly when none of the records is.
pub proof fn archive_keeps_exactly_the_old_records(s: ArchiveView, caller: Address, records: Seq<TransactionRecordView>)
    requires
        s.admin == Some(caller),
    ensures
        ({
            let old = records.filter(|r: TransactionRecordView| old_enough(r.timestamp, s.timestamp, s.threshold));
            &&& archive_outcome(s, caller, records) is Err <==> old.len() == 0
            &&& old.len() == 0 ==> archive_outcome(s, caller, records)
                == Err::<ArchiveView, ArchiveError>(ArchiveError::NoRecordsToArchive)
            &&& archive_outcome(s, caller, records) matches Ok(v) ==> v.batches.last().records == old
                && forall|i: int| 0 <= i < v.batches.last().records.len() ==> {
                    let t = (#[trigger] v.batches.last().records[i]).timestamp;
                    t + s.threshold <= s.timestamp || (s.timestamp < s.threshold && t == 0)
                }
        }),
{
    lemma_archivable_is_filter(records, s.timestamp, s.threshold);
    let old = records.filter(|r: TransactionRecordView| old_enough(r.timestamp, s.timestamp, s.threshold));
    if old.len() > 0 {
        records.lemma_filter_len(|r: TransactionRecordView| old_enough(r.timestamp, s.timestamp, s.threshold));
    }
    assert forall|i: int| 0 <= i < old.len() implies old_enough(old[i].timestamp, s.timestamp, s.threshold) by {
        records.lemma_filter_pred(|r: TransactionRecordView| old_enough(r.timestamp, s.timestamp, s.threshold), i);
    }
}

} // verus!
