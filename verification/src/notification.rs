//! The notification contract: sends a batch of notifications, each in a
//! supported language with a non-empty message.

use vstd::prelude::*;
use crate::address::{copy_bytes, Address};

verus! {

/// The errors the notification contract answers with.
#[derive(Clone, Copy, Debug, PartialEq, Eq, Structural)]
pub enum NotificationError {
    EmptyBatch,
    InvalidLanguage,
    EmptyMessage,
}

impl NotificationError {
    /// The contract error code of the error.
    pub fn code(&self) -> (c: u32)
        ensures
            1 <= c <= 3,
            c == self.spec_code(),
    {
        match self {
            NotificationError::EmptyBatch => 1,
            NotificationError::InvalidLanguage => 2,
            NotificationError::EmptyMessage => 3,
        }
    }

    /// The contract error code of the error, as a number.
    pub open spec fn spec_code(&self) -> u32 {
        match self {
            NotificationError::EmptyBatch => 1,
            NotificationError::InvalidLanguage => 2,
            NotificationError::EmptyMessage => 3,
        }
    }
}

/// A notification: its recipient, the language code and the message.
#[derive(Debug)]
pub struct Notification {
    pub recipient: Address,
    pub language: Vec<u8>,
    pub message: Vec<u8>,
}

pub struct NotificationView {
    pub recipient: Address,
    pub language: Seq<u8>,
    pub message: Seq<u8>,
}

impl View for Notification {
    type V = NotificationView;

    open spec fn view(&self) -> NotificationView {
        NotificationView { recipient: self.recipient, language: self.language@, message: self.message@ }
    }
}

/// Whether the notification to `recipient` was sent.
#[derive(Clone, Copy, Debug, PartialEq, Eq, Structural)]
pub struct NotificationResult {
    pub recipient: Address,
    pub success: bool,
}

/// A sent notification, as published.
#[derive(Debug)]
pub struct NotificationSent {
    pub recipient: Address,
    pub message: Vec<u8>,
}

impl NotificationSent {
    /// The topic the event is published under.
    pub fn topic(&self) -> (r: &'static str)
        ensures
            r@ == "notification_sent"@,
    {
        "notification_sent"
    }
}

/// The supported language codes: en, fr, es and de.
pub open spec fn supported_language(lang: Seq<u8>) -> bool {
    ||| lang == seq![101u8, 110u8]
    ||| lang == seq![102u8, 114u8]
    ||| lang == seq![101u8, 115u8]
    ||| lang == seq![100u8, 101u8]
}

/// A notification is sent when its message is not empty and its language is supported.
pub open spec fn deliverable(n: NotificationView) -> bool {
    n.message.len() != 0 && supported_language(n.language)
}

/// Whether `lang` is one of the supported language codes.
pub fn is_supported_language(lang: &Vec<u8>) -> (r: bool)
    ensures
        r == supported_language(lang@),
{
    if lang.len() != 2 {
        return false;
    }
    let a = lang[0];
    let b = lang[1];
    let r = (a == 101 && b == 110) || (a == 102 && b == 114) || (a == 101 && b == 115) || (a == 100 && b == 101);
    proof {
        assert(lang@ == seq![a, b]);
    }
    r
}

/// The results of a batch: each recipient, in order, and whether its notification was sent.
pub open spec fn batch_results(batch: Seq<NotificationView>) -> Seq<NotificationResult> {
    batch.map_values(|n: NotificationView| NotificationResult { recipient: n.recipient, success: deliverable(n) })
}

/// The notifications of a batch that are sent, in order, as recipient and message.
pub open spec fn sent(batch: Seq<NotificationView>) -> Seq<(Address, Seq<u8>)>
    decreases batch.len(),
{
    if batch.len() == 0 {
        Seq::empty()
    } else {
        let before = sent(batch.drop_last());
        if deliverable(batch.last()) { before.push((batch.last().recipient, batch.last().message)) } else { before }
    }
}

pub open spec fn notification_views(batch: Seq<Notification>) -> Seq<NotificationView> {
    batch.map_values(|n: Notification| n@)
}

pub open spec fn sent_views(events: Seq<NotificationSent>) -> Seq<(Address, Seq<u8>)> {
    events.map_values(|e: NotificationSent| (e.recipient, e.message@))
}

/// The notification contract: the notifications it has sent.
pub struct NotificationContract {
    events: Vec<NotificationSent>,
}

impl View for NotificationContract {
    type V = Seq<(Address, Seq<u8>)>;

    closed spec fn view(&self) -> Seq<(Address, Seq<u8>)> {
        sent_views(self.events@)
    }
}

impl NotificationContract {
    pub fn new() -> (c: NotificationContract)
        ensures
            c@ == Seq::<(Address, Seq<u8>)>::empty(),
    {
        let c = NotificationContract { events: Vec::new() };
        assert(c@ =~= Seq::<(Address, Seq<u8>)>::empty());
        c
    }

    /// The notifications sent so far, oldest first.
    pub fn events(&self) -> (r: &Vec<NotificationSent>)
        ensures
            sent_views(r@) == self@,
    {
        &self.events
    }

    /// Sends each notification of a non-empty batch whose message is not
    /// empty and whose language is supported, and answers, in order, which
    /// were sent.
    pub fn send_batch_notifications(&mut self, notifications: Vec<Notification>) -> (r: Result<Vec<NotificationResult>, NotificationError>)
        ensures
            notifications@.len() == 0 ==> r == Err::<Vec<NotificationResult>, NotificationError>(NotificationError::EmptyBatch)
                && final(self)@ == old(self)@,
            notifications@.len() > 0 ==> (r matches Ok(results) && results@ == batch_results(notification_views(notifications@))
                && final(self)@ == old(self)@ + sent(notification_views(notifications@))),
    {
        if notifications.len() == 0 {
            return Err(NotificationError::EmptyBatch);
        }
        let ghost start = self@;
        let ghost all = notification_views(notifications@);
        let mut results: Vec<NotificationResult> = Vec::new();
        let n = notifications.len();
        let mut i: usize = 0;
        while i < n
            invariant
                n == notifications@.len(),
                all == notification_views(notifications@),
                i <= n,
                results@ == batch_results(all.take(i as int)),
                self@ == start + sent(all.take(i as int)),
            decreases n - i,
        {
            let note = &notifications[i];
            proof {
                assert(all.take(i + 1).drop_last() =~= all.take(i as int));
                assert(all.take(i + 1).last() == note@);
            }
            let success = note.message.len() != 0 && is_supported_language(&note.language);
            if success {
                let ghost before = self.events@;
                self.events.push(NotificationSent { recipient: note.recipient, message: copy_bytes(&note.message) });
                assert(sent_views(self.events@) =~= sent_views(before).push((note.recipient, note.message@)));
                assert(self@ =~= start + sent(all.take(i + 1)));
            }
            results.push(NotificationResult { recipient: note.recipient, success });
            assert(results@ =~= batch_results(all.take(i + 1)));
            i = i + 1;
        }
        assert(all.take(n as int) =~= all);
        Ok(results)
    }
}

/// A notification that must go out: a non-empty message in English ("en",
/// bytes 0x65 0x6e), French ("fr"), Spanish ("es") or German ("de"), each
/// code given by its ASCII bytes.
pub open spec fn sendable(n: NotificationView) -> bool {
    &&& n.message.len() > 0
    &&& n.language == seq![0x65u8, 0x6eu8] || n.language == seq![0x66u8, 0x72u8]
        || n.language == seq![0x65u8, 0x73u8] || n.language == seq![0x64u8, 0x65u8]
}

proof fn lemma_sent_is_filter(batch: Seq<NotificationView>)
    ensures
        sent(batch) == batch.filter(|n: NotificationView| sendable(n)).map_values(
            |n: NotificationView| (n.recipient, n.message),
        ),
    decreases batch.len(),
{
    reveal(Seq::filter);
    if batch.len() > 0 {
        lemma_sent_is_filter(batch.drop_last());
        let f = |n: NotificationView| (n.recipient, n.message);
        let kept = batch.drop_last().filter(|n: NotificationView| sendable(n));
        assert(deliverable(batch.last()) == sendable(batch.last()));
        assert(kept.push(batch.last()).map_values(f) =~= kept.map_values(f).push(f(batch.last())));
    } else {
        assert(batch.filter(|n: NotificationView| sendable(n)).map_values(
            |n: NotificationView| (n.recipient, n.message),
        ) =~= Seq::<(Address, Seq<u8>)>::empty());
    }
}

/// A batch publishes, in order, exactly its notifications with a non-empty
/// message in a supported language, and reports for each notification, in
/// order, its recipient and whether it was one of those.
pub proof fn published_notifications_are_the_successful_ones(batch: Seq<NotificationView>)
    ensures
        sent(batch) == batch.filter(|n: NotificationView| sendable(n)).map_values(
            |n: NotificationView| (n.recipient, n.message),
        ),
        batch_results(batch).len() == batch.len(),
        forall|i: int| 0 <= i < batch.len() ==> {
            &&& (#[trigger] batch_results(batch)[i]).recipient == batch[i].recipient
            &&& batch_results(batch)[i].success <==> sendable(batch[i])
        },
{
    lemma_sent_is_filter(batch);
}

} // verus!
