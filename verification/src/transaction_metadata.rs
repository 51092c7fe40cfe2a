//! The transaction metadata contract: a small key/value map attached to a
//! transaction id.

use vstd::prelude::*;
use crate::address::copy_bytes;
use crate::store::{byte_entries, KeyMap};

verus! {

/// The most bytes the keys and values of a transaction's metadata may hold together.
pub const MAX_METADATA_SIZE: u32 = 1024;

/// Why the metadata contract rejects a call.
#[derive(Clone, Copy, Debug, PartialEq, Eq, Structural)]
pub enum MetadataError {
    /// The metadata exceeds the maximum allowed size.
    MetadataTooLarge,
}

/// The metadata of a transaction: values under distinct keys.
#[derive(Debug)]
pub struct TransactionMetadata {
    pub data: KeyMap<Vec<u8>, Vec<u8>>,
}

impl View for TransactionMetadata {
    type V = Seq<(Seq<u8>, Seq<u8>)>;

    open spec fn view(&self) -> Seq<(Seq<u8>, Seq<u8>)> {
        byte_entries(self.data.entries())
    }
}

impl TransactionMetadata {
    pub fn duplicate(&self) -> (r: TransactionMetadata)
        requires
            self.data.wf(),
        ensures
            r.data.wf(),
            r@ == self@,
    {
        TransactionMetadata { data: self.data.duplicate_bytes() }
    }
}

/// The bytes that the keys and values of the entries hold together.
pub open spec fn metadata_size(entries: Seq<(Seq<u8>, Seq<u8>)>) -> int
    decreases entries.len(),
{
    if entries.len() == 0 {
        0
    } else {
        metadata_size(entries.drop_last()) + entries.last().0.len() + entries.last().1.len()
    }
}

proof fn lemma_metadata_size_grows(entries: Seq<(Seq<u8>, Seq<u8>)>, k: int)
    requires
        0 <= k <= entries.len(),
    ensures
        metadata_size(entries.take(k)) <= metadata_size(entries),
    decreases entries.len() - k,
{
    if k < entries.len() {
        assert(entries.take(k + 1).drop_last() =~= entries.take(k));
        lemma_metadata_size_grows(entries, k + 1);
    } else {
        assert(entries.take(k) =~= entries);
    }
}

/// Checks that the keys and values hold at most `MAX_METADATA_SIZE` bytes together.
pub fn validate_metadata(metadata: &KeyMap<Vec<u8>, Vec<u8>>) -> (r: Result<(), MetadataError>)
    requires
        metadata.wf(),
    ensures
        r is Ok <==> metadata_size(byte_entries(metadata.entries())) <= MAX_METADATA_SIZE,
{
    let ghost all = byte_entries(metadata.entries());
    let n = metadata.len();
    let mut total_size: u64 = 0;
    let mut i: usize = 0;
    while i < n
        invariant
            n == metadata.entries().len(),
            all == byte_entries(metadata.entries()),
            i <= n,
            total_size == metadata_size(all.take(i as int)),
            total_size <= MAX_METADATA_SIZE,
        decreases n - i,
    {
        let (key, value) = metadata.entry_at(i);
        proof {
            assert(all.take(i + 1).drop_last() =~= all.take(i as int));
            assert(all.take(i + 1).last() == (key@, value@));
        }
        let key_len = key.len() as u64;
        let value_len = value.len() as u64;
        if key_len > MAX_METADATA_SIZE as u64 || value_len > MAX_METADATA_SIZE as u64
            || total_size + key_len + value_len > MAX_METADATA_SIZE as u64 {
            proof { lemma_metadata_size_grows(all, i + 1); }
            return Err(MetadataError::MetadataTooLarge);
        }
        total_size = total_size + key_len + value_len;
        i = i + 1;
    }
    assert(all.take(n as int) =~= all);
    Ok(())
}

/// An event published by the metadata contract.
#[derive(Debug)]
pub enum MetadataEvent {
    MetadataSet { transaction_id: Vec<u8>, metadata: TransactionMetadata },
}

impl MetadataEvent {
    /// The two topics the event is published under: the name `metadata_set`
    /// and the id of the transaction.
    pub open spec fn topic_names(&self) -> (Seq<char>, Seq<u8>) {
        match self {
            MetadataEvent::MetadataSet { transaction_id, .. } => ("metadata_set"@, transaction_id@),
        }
    }

    /// The two topics the event is published under.
    pub fn topics(&self) -> (r: (&'static str, &Vec<u8>))
        ensures
            (r.0@, r.1@) == self.topic_names(),
    {
        match self {
            MetadataEvent::MetadataSet { transaction_id, .. } => ("metadata_set", transaction_id),
        }
    }
}

/// What the metadata contract holds, as mathematical values.
pub struct MetadataView {
    pub records: Map<Seq<u8>, Seq<(Seq<u8>, Seq<u8>)>>,
    pub events: Seq<(Seq<u8>, Seq<(Seq<u8>, Seq<u8>)>)>,
}

/// The transaction metadata contract: its storage and the events it has published.
pub struct TransactionMetadataContract {
    records: KeyMap<Vec<u8>, TransactionMetadata>,
    events: Vec<MetadataEvent>,
}

pub open spec fn event_view(e: MetadataEvent) -> (Seq<u8>, Seq<(Seq<u8>, Seq<u8>)>) {
    match e {
        MetadataEvent::MetadataSet { transaction_id, metadata } => (transaction_id@, metadata@),
    }
}

impl View for TransactionMetadataContract {
    type V = MetadataView;

    closed spec fn view(&self) -> MetadataView {
        MetadataView {
            records: self.records.map().map_values(|m: TransactionMetadata| m@),
            events: self.events@.map_values(|e: MetadataEvent| event_view(e)),
        }
    }
}

impl TransactionMetadataContract {
    pub closed spec fn wf(&self) -> bool {
        &&& self.records.wf()
        &&& forall|k: Seq<u8>| #[trigger] self.records.map().contains_key(k) ==> self.records.map()[k].data.wf()
    }

    /// A freshly deployed contract: nothing stored.
    pub fn new() -> (c: TransactionMetadataContract)
        ensures
            c.wf(),
            c@.records == Map::<Seq<u8>, Seq<(Seq<u8>, Seq<u8>)>>::empty(),
            c@.events == Seq::<(Seq<u8>, Seq<(Seq<u8>, Seq<u8>)>)>::empty(),
    {
        let c = TransactionMetadataContract { records: KeyMap::new(), events: Vec::new() };
        assert(c@.records =~= Map::<Seq<u8>, Seq<(Seq<u8>, Seq<u8>)>>::empty());
        assert(c@.events =~= Seq::<(Seq<u8>, Seq<(Seq<u8>, Seq<u8>)>)>::empty());
        c
    }

    /// The events published so far, oldest first.
    pub fn events(&self) -> (r: &Vec<MetadataEvent>)
        ensures
            r@.map_values(|e: MetadataEvent| event_view(e)) == self@.events,
    {
        &self.events
    }

    /// Stores `metadata` for `transaction_id`, replacing earlier metadata;
    /// refused when its keys and values hold more than `MAX_METADATA_SIZE` bytes.
    pub fn set_metadata(&mut self, transaction_id: Vec<u8>, metadata: KeyMap<Vec<u8>, Vec<u8>>) -> (r: Result<(), MetadataError>)
        requires
            old(self).wf(),
            metadata.wf(),
        ensures
            final(self).wf(),
            r is Ok <==> metadata_size(byte_entries(metadata.entries())) <= MAX_METADATA_SIZE,
            r is Ok ==> final(self)@ == (MetadataView {
                records: old(self)@.records.insert(transaction_id@, byte_entries(metadata.entries())),
                events: old(self)@.events.push((transaction_id@, byte_entries(metadata.entries()))),
            }),
            r is Err ==> final(self)@ == old(self)@,
    {
        validate_metadata(&metadata)?;
        let ghost key = transaction_id@;
        let ghost value = byte_entries(metadata.entries());
        let event = MetadataEvent::MetadataSet {
            transaction_id: copy_bytes(&transaction_id),
            metadata: TransactionMetadata { data: metadata.duplicate_bytes() },
        };
        let stored = TransactionMetadata { data: metadata };
        let ghost old_map = self.records.map();
        self.records.insert(transaction_id, stored);
        assert(self.records.map().map_values(|m: TransactionMetadata| m@)
            =~= old_map.map_values(|m: TransactionMetadata| m@).insert(key, value));
        let ghost before = self.events@;
        self.events.push(event);
        assert(self.events@.map_values(|e: MetadataEvent| event_view(e))
            =~= before.map_values(|e: MetadataEvent| event_view(e)).push((key, value)));
        Ok(())
    }

    /// The metadata stored for `transaction_id`, if any.
    pub fn get_metadata(&self, transaction_id: Vec<u8>) -> (r: Option<TransactionMetadata>)
        requires
            self.wf(),
        ensures
            match r {
                Some(m) => self@.records.contains_key(transaction_id@) && m@ == self@.records[transaction_id@],
                None => !self@.records.contains_key(transaction_id@),
            },
    {
        match self.records.get(&transaction_id) {
            Some(m) => Some(m.duplicate()),
            None => None,
        }
    }
}

/// Metadata stored for a transaction is what `get_metadata` gives back for
/// it; the metadata of other transactions is untouched.
pub proof fn stored_metadata_is_read_back(
    s: MetadataView,
    transaction_id: Seq<u8>,
    entries: Seq<(Seq<u8>, Seq<u8>)>,
    other: Seq<u8>,
)
    requires
        other != transaction_id,
    ensures
        s.records.insert(transaction_id, entries).contains_key(transaction_id),
        s.records.insert(transaction_id, entries)[transaction_id] == entries,
        s.records.insert(transaction_id, entries).contains_key(other) == s.records.contains_key(other),
        s.records.contains_key(other) ==> s.records.insert(transaction_id, entries)[other] == s.records[other],
{
}

} // verus!
