//! The memo contract: a validated memo attached to a transaction id.

use vstd::prelude::*;
use crate::address::{copy_bytes, Address};
use crate::store::KeyMap;

verus! {

/// The memo-type length limit used when none is configured.
pub const MAX_MEMO_TYPE_LEN: u32 = 32;
/// The reference length limit used when none is configured.
pub const MAX_REFERENCE_LEN: u32 = 64;
/// The text length limit used when none is configured.
pub const MAX_TEXT_LEN: u32 = 256;
/// The most bytes a memo's type, reference and text may hold together.
pub const MAX_TOTAL_MEMO_BYTES: u32 = 320;

/// The errors the memo contract answers with.
#[derive(Clone, Copy, Debug, PartialEq, Eq, Structural)]
pub enum MemoError {
    NotInitialized,
    Unauthorized,
    InvalidMemoType,
    InvalidReference,
    InvalidText,
    MemoTooLarge,
    MalformedMetadata,
}

impl MemoError {
    /// The contract error code of the error.
    pub fn code(&self) -> (c: u32)
        ensures
            1 <= c <= 7,
            c == self.spec_code(),
    {
        match self {
            MemoError::NotInitialized => 1,
            MemoError::Unauthorized => 2,
            MemoError::InvalidMemoType => 3,
            MemoError::InvalidReference => 4,
            MemoError::InvalidText => 5,
            MemoError::MemoTooLarge => 6,
            MemoError::MalformedMetadata => 7,
        }
    }

    /// The contract error code of the error, as a number.
    pub open spec fn spec_code(&self) -> u32 {
        match self {
            MemoError::NotInitialized => 1,
            MemoError::Unauthorized => 2,
            MemoError::InvalidMemoType => 3,
            MemoError::InvalidReference => 4,
            MemoError::InvalidText => 5,
            MemoError::MemoTooLarge => 6,
            MemoError::MalformedMetadata => 7,
        }
    }
}

/// A memo: its type, a reference, a text and the time it was stored.
#[derive(Debug)]
pub struct Memo {
    pub memo_type: Vec<u8>,
    pub reference: Vec<u8>,
    pub text: Vec<u8>,
    pub created_at: u64,
}

pub struct MemoView {
    pub memo_type: Seq<u8>,
    pub reference: Seq<u8>,
    pub text: Seq<u8>,
    pub created_at: u64,
}

impl View for Memo {
    type V = MemoView;

    open spec fn view(&self) -> MemoView {
        MemoView {
            memo_type: self.memo_type@,
            reference: self.reference@,
            text: self.text@,
            created_at: self.created_at,
        }
    }
}

impl Memo {
    pub fn duplicate(&self) -> (r: Memo)
        ensures
            r@ == self@,
    {
        Memo {
            memo_type: copy_bytes(&self.memo_type),
            reference: copy_bytes(&self.reference),
            text: copy_bytes(&self.text),
            created_at: self.created_at,
        }
    }
}

/// An event published by the memo contract.
#[derive(Debug)]
pub enum MemoEvent {
    Initialized { admin: Address, max_memo_type_len: u32, max_reference_len: u32, max_text_len: u32 },
    Stored { transaction_id: Vec<u8>, memo_type: Vec<u8>, created_at: u64 },
}

pub enum MemoEventView {
    Initialized { admin: Address, max_memo_type_len: u32, max_reference_len: u32, max_text_len: u32 },
    Stored { transaction_id: Seq<u8>, memo_type: Seq<u8>, created_at: u64 },
}

impl View for MemoEvent {
    type V = MemoEventView;

    open spec fn view(&self) -> MemoEventView {
        match self {
            MemoEvent::Initialized { admin, max_memo_type_len, max_reference_len, max_text_len } =>
                MemoEventView::Initialized {
                    admin: *admin,
                    max_memo_type_len: *max_memo_type_len,
                    max_reference_len: *max_reference_len,
                    max_text_len: *max_text_len,
                },
            MemoEvent::Stored { transaction_id, memo_type, created_at } => MemoEventView::Stored {
                transaction_id: transaction_id@,
                memo_type: memo_type@,
                created_at: *created_at,
            },
        }
    }
}

impl MemoEvent {
    /// The names of the two topics the event is published under.
    pub open spec fn topic_names(&self) -> (Seq<char>, Seq<char>) {
        match self {
            MemoEvent::Initialized { .. } => ("memo"@, "init"@),
            MemoEvent::Stored { .. } => ("memo"@, "stored"@),
        }
    }

    /// The two topics the event is published under.
    pub fn topics(&self) -> (r: (&'static str, &'static str))
        ensures
            (r.0@, r.1@) == self.topic_names(),
    {
        match self {
            MemoEvent::Initialized { .. } => ("memo", "init"),
            MemoEvent::Stored { .. } => ("memo", "stored"),
        }
    }
}

/// The limits on a memo's type, reference and text lengths, in bytes.
pub type MemoLimits = (u32, u32, u32);

/// The limits in force: the configured ones, else the defaults.
pub open spec fn limits_in_force(limits: Option<MemoLimits>) -> MemoLimits {
    match limits {
        Some(l) => l,
        None => (MAX_MEMO_TYPE_LEN, MAX_REFERENCE_LEN, MAX_TEXT_LEN),
    }
}

/// The answer to a memo of the given lengths under `limits`.
pub open spec fn memo_check(limits: MemoLimits, type_len: int, reference_len: int, text_len: int) -> Result<(), MemoError> {
    if type_len == 0 {
        Err(MemoError::InvalidMemoType)
    } else if type_len > limits.0 {
        Err(MemoError::MemoTooLarge)
    } else if reference_len > limits.1 {
        Err(MemoError::InvalidReference)
    } else if text_len == 0 {
        Err(MemoError::InvalidText)
    } else if text_len > limits.2 {
        Err(MemoError::MemoTooLarge)
    } else if type_len + reference_len + text_len > MAX_TOTAL_MEMO_BYTES {
        Err(MemoError::MemoTooLarge)
    } else {
        Ok(())
    }
}

/// Checks a memo against the limits: a non-empty type and text, each part
/// within its limit, and at most `MAX_TOTAL_MEMO_BYTES` bytes in all.
pub fn validate_memo(limits: MemoLimits, memo_type: &Vec<u8>, reference: &Vec<u8>, text: &Vec<u8>) -> (r: Result<(), MemoError>)
    ensures
        r == memo_check(limits, memo_type@.len() as int, reference@.len() as int, text@.len() as int),
{
    let (max_type, max_ref, max_text) = limits;
    let type_len = memo_type.len();
    let ref_len = reference.len();
    let text_len = text.len();
    if type_len == 0 {
        return Err(MemoError::InvalidMemoType);
    }
    if type_len > max_type as usize {
        return Err(MemoError::MemoTooLarge);
    }
    if ref_len > max_ref as usize {
        return Err(MemoError::InvalidReference);
    }
    if text_len == 0 {
        return Err(MemoError::InvalidText);
    }
    if text_len > max_text as usize {
        return Err(MemoError::MemoTooLarge);
    }
    let total: u64 = type_len as u64 + ref_len as u64 + text_len as u64;
    if total > MAX_TOTAL_MEMO_BYTES as u64 {
        return Err(MemoError::MemoTooLarge);
    }
    Ok(())
}

/// What the memo contract holds, as mathematical values.
pub struct MemoContractView {
    pub admin: Option<Address>,
    pub limits: Option<MemoLimits>,
    pub memos: Map<Seq<u8>, MemoView>,
    pub timestamp: u64,
    pub events: Seq<MemoEventView>,
}

impl MemoContractView {
    /// The admin and the limits are set together, within the largest limits allowed.
    pub open spec fn consistent(&self) -> bool {
        &&& self.admin is Some <==> self.limits is Some
        &&& self.limits matches Some(l) ==> 0 < l.0 <= 64 && l.1 <= 128 && 0 < l.2 <= 1024
    }
}

/// The answer to a call that only the admin may make.
pub open spec fn admin_result(admin: Option<Address>, caller: Address) -> Result<(), MemoError> {
    match admin {
        None => Err(MemoError::NotInitialized),
        Some(a) => if a == caller { Ok(()) } else { Err(MemoError::Unauthorized) },
    }
}

/// The contract after `initialize`, or the error it answers.
pub open spec fn initialize_outcome(s: MemoContractView, admin: Address, limits: MemoLimits) -> Result<MemoContractView, MemoError> {
    if s.admin is Some || limits.0 == 0 || limits.2 == 0 {
        Err(MemoError::MalformedMetadata)
    } else if limits.0 > 64 || limits.1 > 128 || limits.2 > 1024 {
        Err(MemoError::MemoTooLarge)
    } else {
        Ok(MemoContractView {
            admin: Some(admin),
            limits: Some(limits),
            events: s.events.push(MemoEventView::Initialized {
                admin,
                max_memo_type_len: limits.0,
                max_reference_len: limits.1,
                max_text_len: limits.2,
            }),
            ..s
        })
    }
}

/// The contract after `set_memo`, or the error it answers.
pub open spec fn set_memo_outcome(
    s: MemoContractView,
    caller: Address,
    transaction_id: Seq<u8>,
    memo_type: Seq<u8>,
    reference: Seq<u8>,
    text: Seq<u8>,
) -> Result<MemoContractView, MemoError> {
    match admin_result(s.admin, caller) {
        Err(e) => Err(e),
        Ok(_) => match memo_check(limits_in_force(s.limits), memo_type.len() as int, reference.len() as int, text.len() as int) {
            Err(e) => Err(e),
            Ok(_) => Ok(MemoContractView {
                memos: s.memos.insert(transaction_id, MemoView { memo_type, reference, text, created_at: s.timestamp }),
                events: s.events.push(MemoEventView::Stored { transaction_id, memo_type, created_at: s.timestamp }),
                ..s
            }),
        },
    }
}

/// The memo contract: its storage, the ledger timestamp it sees and the
/// events it has published.
pub struct MemoContract {
    admin: Option<Address>,
    limits: Option<MemoLimits>,
    memos: KeyMap<Vec<u8>, Memo>,
    timestamp: u64,
    events: Vec<MemoEvent>,
}

impl View for MemoContract {
    type V = MemoContractView;

    closed spec fn view(&self) -> MemoContractView {
        MemoContractView {
            admin: self.admin,
            limits: self.limits,
            memos: self.memos.map().map_values(|m: Memo| m@),
            timestamp: self.timestamp,
            events: self.events@.map_values(|e: MemoEvent| e@),
        }
    }
}

impl MemoContract {
    pub closed spec fn wf(&self) -> bool {
        self.memos.wf() && self@.consistent()
    }

    /// A freshly deployed contract: nothing stored, at ledger time 0.
    pub fn new() -> (c: MemoContract)
        ensures
            c.wf(),
            c@ == (MemoContractView {
                admin: None,
                limits: None,
                memos: Map::empty(),
                timestamp: 0,
                events: Seq::empty(),
            }),
    {
        let c = MemoContract { admin: None, limits: None, memos: KeyMap::new(), timestamp: 0, events: Vec::new() };
        assert(c@.memos =~= Map::<Seq<u8>, MemoView>::empty());
        assert(c@.events =~= Seq::<MemoEventView>::empty());
        c
    }

    /// Sets the ledger timestamp the contract sees.
    pub fn set_ledger_timestamp(&mut self, timestamp: u64)
        requires
            old(self).wf(),
        ensures
            final(self).wf(),
            final(self)@ == (MemoContractView { timestamp, ..old(self)@ }),
    {
        self.timestamp = timestamp;
    }

    /// The events published so far, oldest first.
    pub fn events(&self) -> (r: &Vec<MemoEvent>)
        ensures
            r@.map_values(|e: MemoEvent| e@) == self@.events,
    {
        &self.events
    }

    /// Stores the admin and the memo limits; only once. The type and text
    /// limits must not be 0, and the limits may not exceed 64, 128 and 1024 bytes.
    pub fn initialize(
        &mut self,
        admin: Address,
        max_memo_type_len: u32,
        max_reference_len: u32,
        max_text_len: u32,
    ) -> (r: Result<(), MemoError>)
        requires
            old(self).wf(),
        ensures
            final(self).wf(),
            match initialize_outcome(old(self)@, admin, (max_memo_type_len, max_reference_len, max_text_len)) {
                Ok(v) => r is Ok && final(self)@ == v,
                Err(e) => r == Err::<(), MemoError>(e) && final(self)@ == old(self)@,
            },
    {
        check_initialize(self.admin.is_some(), (max_memo_type_len, max_reference_len, max_text_len))?;
        self.admin = Some(admin);
        self.limits = Some((max_memo_type_len, max_reference_len, max_text_len));
        let ev = MemoEvent::Initialized { admin, max_memo_type_len, max_reference_len, max_text_len };
        let ghost before = self.events@;
        self.events.push(ev);
        assert(self.events@.map_values(|e: MemoEvent| e@) =~= before.map_values(|e: MemoEvent| e@).push(ev@));
        Ok(())
    }

    fn require_admin(&self, caller: &Address) -> (r: Result<(), MemoError>)
        ensures
            r == admin_result(self@.admin, *caller),
    {
        authorize(self.admin, *caller)
    }

    /// Stores a memo for `transaction_id`, replacing an earlier one; admin only.
    pub fn set_memo(
        &mut self,
        caller: Address,
        transaction_id: Vec<u8>,
        memo_type: Vec<u8>,
        reference: Vec<u8>,
        text: Vec<u8>,
    ) -> (r: Result<(), MemoError>)
        requires
            old(self).wf(),
        ensures
            final(self).wf(),
            match set_memo_outcome(old(self)@, caller, transaction_id@, memo_type@, reference@, text@) {
                Ok(v) => r is Ok && final(self)@ == v,
                Err(e) => r == Err::<(), MemoError>(e) && final(self)@ == old(self)@,
            },
    {
        self.require_admin(&caller)?;
        let limits = effective_limits(self.limits);
        validate_memo(limits, &memo_type, &reference, &text)?;
        let created_at = self.timestamp;
        let ev = MemoEvent::Stored { transaction_id: copy_bytes(&transaction_id), memo_type: copy_bytes(&memo_type), created_at };
        let memo = Memo { memo_type, reference, text, created_at };
        let ghost old_map = self.memos.map();
        let ghost mv = memo@;
        let ghost key = transaction_id@;
        self.memos.insert(transaction_id, memo);
        assert(self.memos.map().map_values(|m: Memo| m@) =~= old_map.map_values(|m: Memo| m@).insert(key, mv));
        let ghost before = self.events@;
        self.events.push(ev);
        assert(self.events@.map_values(|e: MemoEvent| e@) =~= before.map_values(|e: MemoEvent| e@).push(ev@));
        Ok(())
    }

    /// The memo stored for `transaction_id`, if any.
    pub fn get_memo(&self, transaction_id: Vec<u8>) -> (r: Option<Memo>)
        requires
            self.wf(),
        ensures
            match r {
                Some(m) => self@.memos.contains_key(transaction_id@) && m@ == self@.memos[transaction_id@],
                None => !self@.memos.contains_key(transaction_id@),
            },
    {
        match self.memos.get(&transaction_id) {
            Some(m) => Some(m.duplicate()),
            None => None,
        }
    }

    /// The admin, once initialized.
    pub fn get_admin(&self) -> (r: Option<Address>)
        ensures
            r == self@.admin,
    {
        self.admin
    }

    /// The memo limits, once initialized.
    pub fn get_limits(&self) -> (r: Option<MemoLimits>)
        ensures
            r == self@.limits,
    {
        self.limits
    }
}

/// Every state the contract reaches has its admin and limits set together,
/// and its limits within the largest ones allowed.
pub proof fn reachable_states_are_consistent(c: &MemoContract)
    requires
        c.wf(),
    ensures
        c@.consistent(),
{
}

/// A memo that the contract accepts never holds more than
/// `MAX_TOTAL_MEMO_BYTES` bytes, and has a non-empty type and text.
pub proof fn accepted_memos_fit(limits: MemoLimits, type_len: nat, reference_len: nat, text_len: nat)
    requires
        memo_check(limits, type_len as int, reference_len as int, text_len as int) is Ok,
    ensures
        type_len > 0,
        text_len > 0,
        type_len + reference_len + text_len <= MAX_TOTAL_MEMO_BYTES,
{
}

/// Checks that `caller` is the admin of a contract whose admin is `admin`.
pub fn authorize(admin: Option<Address>, caller: Address) -> (r: Result<(), MemoError>)
    ensures
        r == admin_result(admin, caller),
{
    match admin {
        None => Err(MemoError::NotInitialized),
        Some(a) => if a != caller { Err(MemoError::Unauthorized) } else { Ok(()) },
    }
}

/// Checks an initialization: refused once initialized or with a type or text
/// limit of 0, and for limits above 64, 128 and 1024 bytes.
pub fn check_initialize(initialized: bool, limits: MemoLimits) -> (r: Result<(), MemoError>)
    ensures
        r == (if initialized || limits.0 == 0 || limits.2 == 0 {
            Err(MemoError::MalformedMetadata)
        } else if limits.0 > 64 || limits.1 > 128 || limits.2 > 1024 {
            Err(MemoError::MemoTooLarge)
        } else {
            Ok(())
        }),
{
    let (max_type, max_ref, max_text) = limits;
    if initialized || max_type == 0 || max_text == 0 {
        return Err(MemoError::MalformedMetadata);
    }
    if max_type > 64 || max_ref > 128 || max_text > 1024 {
        return Err(MemoError::MemoTooLarge);
    }
    Ok(())
}

/// The limits in force: the configured ones, else the defaults.
pub fn effective_limits(limits: Option<MemoLimits>) -> (r: MemoLimits)
    ensures
        r == limits_in_force(limits),
{
    match limits {
        Some(l) => l,
        None => (MAX_MEMO_TYPE_LEN, MAX_REFERENCE_LEN, MAX_TEXT_LEN),
    }
}

/// A memo the admin has stored is what `get_memo` gives back for its
/// transaction id, stamped with the ledger time; other memos are untouched.
pub proof fn stored_memo_is_read_back(
    s: MemoContractView,
    caller: Address,
    transaction_id: Seq<u8>,
    memo_type: Seq<u8>,
    reference: Seq<u8>,
    text: Seq<u8>,
    other: Seq<u8>,
)
    requires
        set_memo_outcome(s, caller, transaction_id, memo_type, reference, text) is Ok,
        other != transaction_id,
    ensures
        set_memo_outcome(s, caller, transaction_id, memo_type, reference, text) matches Ok(v) && {
            &&& v.memos.contains_key(transaction_id)
            &&& v.memos[transaction_id] == (MemoView { memo_type, reference, text, created_at: s.timestamp })
            &&& v.memos.contains_key(other) == s.memos.contains_key(other)
            &&& v.memos.contains_key(other) ==> v.memos[other] == s.memos[other]
        },
{
}

/// Under the limits `(max_type, max_ref, max_text)` the contract holds, the
/// admin's memo is stored exactly when its type is 1 to `max_type` bytes, its
/// reference at most `max_ref` bytes, its text 1 to `max_text` bytes and the
/// three together at most 320 bytes; a valid type with a reference over
/// `max_ref` bytes is refused as an invalid reference.
pub proof fn configured_limits_govern_memos(
    s: MemoContractView,
    caller: Address,
    max_type: u32,
    max_ref: u32,
    max_text: u32,
    transaction_id: Seq<u8>,
    memo_type: Seq<u8>,
    reference: Seq<u8>,
    text: Seq<u8>,
)
    requires
        s.admin == Some(caller),
        s.limits == Some((max_type, max_ref, max_text)),
    ensures
        set_memo_outcome(s, caller, transaction_id, memo_type, reference, text) is Ok <==> {
            &&& 0 < memo_type.len() <= max_type
            &&& reference.len() <= max_ref
            &&& 0 < text.len() <= max_text
            &&& memo_type.len() + reference.len() + text.len() <= 320
        },
        0 < memo_type.len() <= max_type && reference.len() > max_ref ==> set_memo_outcome(
            s,
            caller,
            transaction_id,
            memo_type,
            reference,
            text,
        ) == Err::<MemoContractView, MemoError>(MemoError::InvalidReference),
{
}

/// Initializing with the limits `(max_type, max_ref, max_text)` makes the
/// caller the admin and those limits the ones memos are checked against.
pub proof fn initialize_sets_the_limits(s: MemoContractView, admin: Address, max_type: u32, max_ref: u32, max_text: u32)
    requires
        initialize_outcome(s, admin, (max_type, max_ref, max_text)) is Ok,
    ensures
        initialize_outcome(s, admin, (max_type, max_ref, max_text)) matches Ok(v)
            && v.admin == Some(admin) && v.limits == Some((max_type, max_ref, max_text)),
{
}

} // verus!
