//! Fee events: one topic naming the kind of fee event, and the user, the
//! amount and the ledger time.

use vstd::prelude::*;
use crate::address::Address;

verus! {

/// The kinds of fee events.
#[derive(Clone, Copy, Debug, PartialEq, Eq, Structural)]
pub enum FeeEventType {
    Collected,
    Withdrawn,
    Refunded,
}

impl FeeEventType {
    pub open spec fn spec_symbol(&self) -> Seq<char> {
        match self {
            FeeEventType::Collected => "FEE_COL"@,
            FeeEventType::Withdrawn => "FEE_WDR"@,
            FeeEventType::Refunded => "FEE_REF"@,
        }
    }

    /// The symbol the kind is published under.
    pub fn as_symbol(&self) -> (r: &'static str)
        ensures
            r@ == self.spec_symbol(),
    {
        match self {
            FeeEventType::Collected => "FEE_COL",
            FeeEventType::Withdrawn => "FEE_WDR",
            FeeEventType::Refunded => "FEE_REF",
        }
    }
}

/// What a fee event carries.
#[derive(Clone, Copy, Debug, PartialEq, Eq, Structural)]
pub struct FeeEventData {
    pub user: Address,
    pub amount: i128,
    pub timestamp: u64,
}

/// A published fee event.
#[derive(Clone, Copy, Debug, PartialEq, Eq, Structural)]
pub struct FeeEventRecord {
    pub event_type: FeeEventType,
    pub data: FeeEventData,
}

impl FeeEventRecord {
    /// The two topics the event is published under.
    pub fn topics(&self) -> (r: (&'static str, &'static str))
        ensures
            r.0@ == "FEE"@,
            r.1@ == self.event_type.spec_symbol(),
    {
        ("FEE", self.event_type.as_symbol())
    }
}

/// The ledger time and the fee events published so far.
pub struct FeeEventLog {
    timestamp: u64,
    events: Vec<FeeEventRecord>,
}

impl View for FeeEventLog {
    type V = Seq<FeeEventRecord>;

    closed spec fn view(&self) -> Seq<FeeEventRecord> {
        self.events@
    }
}

impl FeeEventLog {
    /// The ledger time the log stamps events with.
    pub closed spec fn time(&self) -> u64 {
        self.timestamp
    }

    /// The ledger time the log stamps events with.
    pub fn timestamp(&self) -> (r: u64)
        ensures
            r == self.time(),
    {
        self.timestamp
    }

    /// An empty log at ledger time `timestamp`.
    pub fn new(timestamp: u64) -> (r: FeeEventLog)
        ensures
            r.time() == timestamp,
            r@ == Seq::<FeeEventRecord>::empty(),
    {
        FeeEventLog { timestamp, events: Vec::new() }
    }

    /// The events published so far, oldest first.
    pub fn all(&self) -> (r: &Vec<FeeEventRecord>)
        ensures
            r@ == self@,
    {
        &self.events
    }
}

impl FeeEventData {
    /// The data of a fee event for `user` and `amount` at the log's ledger time.
    pub fn new(log: &FeeEventLog, user: Address, amount: i128) -> (r: FeeEventData)
        ensures
            r == (FeeEventData { user, amount, timestamp: log.time() }),
    {
        FeeEventData { user, amount, timestamp: log.timestamp }
    }
}

/// Publishes a fee event of the given kind.
pub fn emit_fee_event(log: &mut FeeEventLog, event_type: FeeEventType, data: FeeEventData)
    ensures
        final(log).time() == old(log).time(),
        final(log)@ == old(log)@.push(FeeEventRecord { event_type, data }),
{
    log.events.push(FeeEventRecord { event_type, data });
}

pub fn log_fee_collected(log: &mut FeeEventLog, user: Address, amount: i128)
    ensures
        final(log).time() == old(log).time(),
        final(log)@ == old(log)@.push(FeeEventRecord {
            event_type: FeeEventType::Collected,
            data: FeeEventData { user, amount, timestamp: old(log).time() },
        }),
{
    let data = FeeEventData::new(log, user, amount);
    emit_fee_event(log, FeeEventType::Collected, data);
}

pub fn log_fee_withdrawn(log: &mut FeeEventLog, user: Address, amount: i128)
    ensures
        final(log).time() == old(log).time(),
        final(log)@ == old(log)@.push(FeeEventRecord {
            event_type: FeeEventType::Withdrawn,
            data: FeeEventData { user, amount, timestamp: old(log).time() },
        }),
{
    let data = FeeEventData::new(log, user, amount);
    emit_fee_event(log, FeeEventType::Withdrawn, data);
}

pub fn log_fee_refunded(log: &mut FeeEventLog, user: Address, amount: i128)
    ensures
        final(log).time() == old(log).time(),
        final(log)@ == old(log)@.push(FeeEventRecord {
            event_type: FeeEventType::Refunded,
            data: FeeEventData { user, amount, timestamp: old(log).time() },
        }),
{
    let data = FeeEventData::new(log, user, amount);
    emit_fee_event(log, FeeEventType::Refunded, data);
}

} // verus!
