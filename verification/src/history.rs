//! Transaction records, as the archive stores them.

use vstd::prelude::*;
use crate::address::{copy_bytes, Address};

verus! {

/// A 256-bit unsigned integer, as its high and low 128-bit halves.
#[derive(Clone, Copy, Debug, PartialEq, Eq, Structural)]
pub struct U256 {
    pub hi: u128,
    pub lo: u128,
}

impl U256 {
    pub fn from_u32(v: u32) -> (r: U256)
        ensures
            r.hi == 0,
            r.lo == v,
    {
        U256 { hi: 0, lo: v as u128 }
    }
}

#[derive(Clone, Copy, Debug, PartialEq, Eq, Structural)]
pub enum TransactionType {
    Payment,
}

#[derive(Clone, Copy, Debug, PartialEq, Eq, Structural)]
pub enum TransactionStatus {
    Completed,
}

/// A recorded transaction.
#[derive(Debug)]
pub struct TransactionRecord {
    pub id: U256,
    pub from: Address,
    pub to: Address,
    pub amount: i128,
    pub timestamp: u64,
    pub description: Vec<u8>,
    pub transaction_type: TransactionType,
    pub block_number: u64,
    pub status: TransactionStatus,
}

/// A recorded transaction as a mathematical value.
pub struct TransactionRecordView {
    pub id: U256,
    pub from: Address,
    pub to: Address,
    pub amount: i128,
    pub timestamp: u64,
    pub description: Seq<u8>,
    pub transaction_type: TransactionType,
    pub block_number: u64,
    pub status: TransactionStatus,
}

impl View for TransactionRecord {
    type V = TransactionRecordView;

    open spec fn view(&self) -> TransactionRecordView {
        TransactionRecordView {
            id: self.id,
            from: self.from,
            to: self.to,
            amount: self.amount,
            timestamp: self.timestamp,
            description: self.description@,
            transaction_type: self.transaction_type,
            block_number: self.block_number,
            status: self.status,
        }
    }
}

impl TransactionRecord {
    /// A copy of the record.
    pub fn duplicate(&self) -> (r: TransactionRecord)
        ensures
            r@ == self@,
    {
        TransactionRecord {
            id: self.id,
            from: self.from,
            to: self.to,
            amount: self.amount,
            timestamp: self.timestamp,
            description: copy_bytes(&self.description),
            transaction_type: self.transaction_type,
            block_number: self.block_number,
            status: self.status,
        }
    }
}

/// The views of a sequence of records.
pub open spec fn record_views(records: Seq<TransactionRecord>) -> Seq<TransactionRecordView> {
    records.map_values(|r: TransactionRecord| r@)
}

/// Copies a sequence of records.
pub fn duplicate_records(records: &Vec<TransactionRecord>) -> (r: Vec<TransactionRecord>)
    ensures
        record_views(r@) == record_views(records@),
{
    let mut r: Vec<TransactionRecord> = Vec::new();
    let n = records.len();
    let mut i: usize = 0;
    while i < n
        invariant
            n == records@.len(),
            i <= n,
            r@.len() == i,
            forall|j: int| 0 <= j < i ==> (#[trigger] r@[j])@ == records@[j]@,
        decreases n - i,
    {
        let copy = records[i].duplicate();
        r.push(copy);
        i = i + 1;
    }
    assert(record_views(r@) =~= record_views(records@));
    r
}

} // verus!
