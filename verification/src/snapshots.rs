//! The snapshots contract: per-user budget snapshots, one per period.

use vstd::prelude::*;
use crate::address::{Address, StoreKey};
use crate::store::KeyMap;

verus! {

/// The errors the snapshots contract answers with.
#[derive(Clone, Copy, Debug, PartialEq, Eq, Structural)]
pub enum SnapshotError {
    NotInitialized,
    AlreadyInitialized,
    Unauthorized,
    InvalidPeriodDuration,
    InvalidAmount,
    InvalidTimestamp,
}

impl SnapshotError {
    /// The contract error code of the error.
    pub fn code(&self) -> (c: u32)
        ensures
            1 <= c <= 6,
            c == self.spec_code(),
    {
        match self {
            SnapshotError::NotInitialized => 1,
            SnapshotError::AlreadyInitialized => 2,
            SnapshotError::Unauthorized => 3,
            SnapshotError::InvalidPeriodDuration => 4,
            SnapshotError::InvalidAmount => 5,
            SnapshotError::InvalidTimestamp => 6,
        }
    }

    /// The contract error code of the error, as a number.
    pub open spec fn spec_code(&self) -> u32 {
        match self {
            SnapshotError::NotInitialized => 1,
            SnapshotError::AlreadyInitialized => 2,
            SnapshotError::Unauthorized => 3,
            SnapshotError::InvalidPeriodDuration => 4,
            SnapshotError::InvalidAmount => 5,
            SnapshotError::InvalidTimestamp => 6,
        }
    }
}

/// A user's budget amount recorded for the period starting at `period_start`.
#[derive(Clone, Copy, Debug, PartialEq, Eq, Structural)]
pub struct BudgetSnapshot {
    pub user: Address,
    pub amount: i128,
    pub period_start: u64,
    pub created_at: u64,
}

/// The key of a snapshot: the user and the start of the period.
#[derive(Clone, Copy, Debug, PartialEq, Eq, Structural)]
pub struct SnapshotKey {
    pub user: Address,
    pub period_start: u64,
}

impl View for SnapshotKey {
    type V = SnapshotKey;

    open spec fn view(&self) -> SnapshotKey {
        *self
    }
}

impl StoreKey for SnapshotKey {
    fn same_key(&self, other: &Self) -> (r: bool) {
        *self == *other
    }
}

/// An event published by the snapshots contract.
#[derive(Clone, Copy, Debug, PartialEq, Eq, Structural)]
pub enum SnapshotEvent {
    Initialized { admin: Address, period_duration: u64 },
    Created { user: Address, period_start: u64, amount: i128, created_at: u64 },
}

impl SnapshotEvent {
    /// The names of the two topics the event is published under.
    pub open spec fn topic_names(&self) -> (Seq<char>, Seq<char>) {
        match self {
            SnapshotEvent::Initialized { .. } => ("snapshot"@, "init"@),
            SnapshotEvent::Created { .. } => ("snapshot"@, "created"@),
        }
    }

    /// The two topics the event is published under.
    pub fn topics(&self) -> (r: (&'static str, &'static str))
        ensures
            (r.0@, r.1@) == self.topic_names(),
    {
        match self {
            SnapshotEvent::Initialized { .. } => ("snapshot", "init"),
            SnapshotEvent::Created { .. } => ("snapshot", "created"),
        }
    }
}

/// The start of the period of length `duration` that holds `timestamp`.
pub open spec fn period_start_of(timestamp: u64, duration: u64) -> u64 {
    (timestamp / duration * duration) as u64
}

/// What the snapshots contract holds, as mathematical values.
pub struct SnapshotsView {
    pub admin: Option<Address>,
    pub period_duration: Option<u64>,
    pub snapshots: Map<SnapshotKey, BudgetSnapshot>,
    pub timestamp: u64,
    pub events: Seq<SnapshotEvent>,
}

impl SnapshotsView {
    /// The admin and the period are set together; every snapshot is stored
    /// under its own user and period start.
    pub open spec fn consistent(&self) -> bool {
        &&& self.admin is Some <==> self.period_duration is Some
        &&& self.period_duration matches Some(d) ==> d > 0
        &&& forall|k: SnapshotKey| #[trigger] self.snapshots.contains_key(k) ==> {
            &&& self.snapshots[k].user == k.user
            &&& self.snapshots[k].period_start == k.period_start
            &&& self.snapshots[k].period_start <= self.snapshots[k].created_at
        }
    }
}

/// The answer to a call that only the admin may make.
pub open spec fn admin_result(admin: Option<Address>, caller: Address) -> Result<(), SnapshotError> {
    match admin {
        None => Err(SnapshotError::NotInitialized),
        Some(a) => if a == caller { Ok(()) } else { Err(SnapshotError::Unauthorized) },
    }
}

/// The contract after `initialize`, or the error it answers.
pub open spec fn initialize_outcome(s: SnapshotsView, admin: Address, period: u64) -> Result<SnapshotsView, SnapshotError> {
    if s.admin is Some {
        Err(SnapshotError::AlreadyInitialized)
    } else if period == 0 {
        Err(SnapshotError::InvalidPeriodDuration)
    } else {
        Ok(SnapshotsView {
            admin: Some(admin),
            period_duration: Some(period),
            events: s.events.push(SnapshotEvent::Initialized { admin, period_duration: period }),
            ..s
        })
    }
}

/// The contract after `create_snapshot`, or the error it answers.
pub open spec fn create_outcome(
    s: SnapshotsView,
    caller: Address,
    user: Address,
    amount: i128,
    period_start: u64,
) -> Result<SnapshotsView, SnapshotError> {
    match admin_result(s.admin, caller) {
        Err(e) => Err(e),
        Ok(_) => match s.period_duration {
            None => Err(SnapshotError::NotInitialized),
            Some(d) => if period_start % d != 0 || period_start > s.timestamp {
                Err(SnapshotError::InvalidTimestamp)
            } else {
                Ok(SnapshotsView {
                    snapshots: s.snapshots.insert(
                        SnapshotKey { user, period_start },
                        BudgetSnapshot { user, amount, period_start, created_at: s.timestamp },
                    ),
                    events: s.events.push(
                        SnapshotEvent::Created { user, period_start, amount, created_at: s.timestamp },
                    ),
                    ..s
                })
            },
        },
    }
}

/// The snapshots contract: its storage, the ledger timestamp it sees and the
/// events it has published.
pub struct SnapshotsContract {
    admin: Option<Address>,
    period_duration: Option<u64>,
    snapshots: KeyMap<SnapshotKey, BudgetSnapshot>,
    timestamp: u64,
    events: Vec<SnapshotEvent>,
}

impl View for SnapshotsContract {
    type V = SnapshotsView;

    closed spec fn view(&self) -> SnapshotsView {
        SnapshotsView {
            admin: self.admin,
            period_duration: self.period_duration,
            snapshots: self.snapshots.map(),
            timestamp: self.timestamp,
            events: self.events@,
        }
    }
}

impl SnapshotsContract {
    pub closed spec fn wf(&self) -> bool {
        self.snapshots.wf() && self@.consistent()
    }

    /// A freshly deployed contract: nothing stored, at ledger time 0.
    pub fn new() -> (c: SnapshotsContract)
        ensures
            c.wf(),
            c@ == (SnapshotsView {
                admin: None,
                period_duration: None,
                snapshots: Map::empty(),
                timestamp: 0,
                events: Seq::empty(),
            }),
    {
        SnapshotsContract {
            admin: None,
            period_duration: None,
            snapshots: KeyMap::new(),
            timestamp: 0,
            events: Vec::new(),
        }
    }

    /// Sets the ledger timestamp the contract sees.
    pub fn set_ledger_timestamp(&mut self, timestamp: u64)
        requires
            old(self).wf(),
        ensures
            final(self).wf(),
            final(self)@ == (SnapshotsView { timestamp, ..old(self)@ }),
    {
        self.timestamp = timestamp;
    }

    /// The events published so far, oldest first.
    pub fn events(&self) -> (r: &Vec<SnapshotEvent>)
        ensures
            r@ == self@.events,
    {
        &self.events
    }

    /// Stores the admin and the period length, which must not be 0; only once.
    pub fn initialize(&mut self, admin: Address, period_duration_seconds: u64) -> (r: Result<(), SnapshotError>)
        requires
            old(self).wf(),
        ensures
            final(self).wf(),
            match initialize_outcome(old(self)@, admin, period_duration_seconds) {
                Ok(v) => r is Ok && final(self)@ == v,
                Err(e) => r == Err::<(), SnapshotError>(e) && final(self)@ == old(self)@,
            },
    {
        check_initialize(self.admin.is_some(), period_duration_seconds)?;
        self.admin = Some(admin);
        self.period_duration = Some(period_duration_seconds);
        self.events.push(SnapshotEvent::Initialized { admin, period_duration: period_duration_seconds });
        Ok(())
    }

    fn require_admin(&self, caller: &Address) -> (r: Result<(), SnapshotError>)
        ensures
            r == admin_result(self@.admin, *caller),
    {
        authorize(self.admin, *caller)
    }

    /// Records `amount` for `user` in the period starting at `period_start`,
    /// replacing an earlier snapshot of that period; admin only. The period
    /// start must be a multiple of the period length and not in the future.
    pub fn create_snapshot(&mut self, caller: Address, user: Address, amount: i128, period_start: u64) -> (r: Result<(), SnapshotError>)
        requires
            old(self).wf(),
        ensures
            final(self).wf(),
            match create_outcome(old(self)@, caller, user, amount, period_start) {
                Ok(v) => r is Ok && final(self)@ == v,
                Err(e) => r == Err::<(), SnapshotError>(e) && final(self)@ == old(self)@,
            },
    {
        self.require_admin(&caller)?;
        let period = match self.period_duration {
            Some(d) => d,
            None => return Err(SnapshotError::NotInitialized),
        };
        let now = self.timestamp;
        check_period_start(period_start, period, now)?;
        let snapshot = BudgetSnapshot { user, amount, period_start, created_at: now };
        self.snapshots.insert(SnapshotKey { user, period_start }, snapshot);
        self.events.push(SnapshotEvent::Created { user, period_start, amount, created_at: now });
        Ok(())
    }

    /// The snapshot of `user` for the period that holds `timestamp`, if any.
    pub fn get_snapshot(&self, user: Address, timestamp: u64) -> (r: Option<BudgetSnapshot>)
        requires
            self.wf(),
        ensures
            r == (match self@.period_duration {
                None => None,
                Some(d) => if d == 0 {
                    None
                } else {
                    let k = SnapshotKey { user, period_start: period_start_of(timestamp, d) };
                    if self@.snapshots.contains_key(k) { Some(self@.snapshots[k]) } else { None }
                },
            }),
    {
        let period = match self.period_duration {
            Some(d) => d,
            None => return None,
        };
        if period == 0 {
            return None;
        }
        let period_start = period_start_for(timestamp, period);
        self.get_snapshot_at_period(user, period_start)
    }

    /// The snapshot of `user` for the period starting at `period_start`, if any.
    pub fn get_snapshot_at_period(&self, user: Address, period_start: u64) -> (r: Option<BudgetSnapshot>)
        requires
            self.wf(),
        ensures
            r == (if self@.snapshots.contains_key(SnapshotKey { user, period_start }) {
                Some(self@.snapshots[SnapshotKey { user, period_start }])
            } else {
                None
            }),
    {
        match self.snapshots.get(&SnapshotKey { user, period_start }) {
            Some(s) => Some(*s),
            None => None,
        }
    }

    /// The admin, once initialized.
    pub fn get_admin(&self) -> (r: Option<Address>)
        ensures
            r == self@.admin,
    {
        self.admin
    }

    /// The period length, once initialized.
    pub fn get_period_duration(&self) -> (r: Option<u64>)
        ensures
            r == self@.period_duration,
    {
        self.period_duration
    }
}

/// Every state the contract reaches stores each snapshot under its own user
/// and period, and never dates a period after the snapshot was taken.
pub proof fn reachable_states_are_consistent(c: &SnapshotsContract)
    requires
        c.wf(),
    ensures
        c@.consistent(),
{
}

/// A snapshot stored for an aligned period start is what a lookup by any
/// timestamp within that period finds.
pub proof fn lookup_by_timestamp_finds_its_period(period_start: u64, duration: u64, timestamp: u64)
    requires
        duration > 0,
        period_start % duration == 0,
        period_start <= timestamp,
        timestamp < period_start + duration,
    ensures
        period_start_of(timestamp, duration) == period_start,
{
    let q = period_start / duration;
    assert(period_start == q * duration) by (nonlinear_arith)
        requires q == period_start / duration, period_start % duration == 0, duration > 0;
    assert(timestamp / duration == q) by (nonlinear_arith)
        requires period_start == q * duration, period_start <= timestamp, timestamp < period_start + duration,
            duration > 0, q >= 0;
}

/// Checks that `caller` is the admin of a contract whose admin is `admin`.
pub fn authorize(admin: Option<Address>, caller: Address) -> (r: Result<(), SnapshotError>)
    ensures
        r == admin_result(admin, caller),
{
    match admin {
        None => Err(SnapshotError::NotInitialized),
        Some(a) => if a != caller { Err(SnapshotError::Unauthorized) } else { Ok(()) },
    }
}

/// Checks an initialization: refused once initialized, and for a period of 0.
pub fn check_initialize(initialized: bool, period_duration_seconds: u64) -> (r: Result<(), SnapshotError>)
    ensures
        r == (if initialized {
            Err(SnapshotError::AlreadyInitialized)
        } else if period_duration_seconds == 0 {
            Err(SnapshotError::InvalidPeriodDuration)
        } else {
            Ok(())
        }),
{
    if initialized {
        return Err(SnapshotError::AlreadyInitialized);
    }
    if period_duration_seconds == 0 {
        return Err(SnapshotError::InvalidPeriodDuration);
    }
    Ok(())
}

/// Checks a snapshot's period start: a multiple of the period length, and
/// not after the ledger time `now`.
pub fn check_period_start(period_start: u64, period_duration: u64, now: u64) -> (r: Result<(), SnapshotError>)
    requires
        period_duration > 0,
    ensures
        r == (if period_start % period_duration != 0 || period_start > now {
            Err(SnapshotError::InvalidTimestamp)
        } else {
            Ok(())
        }),
{
    if period_start % period_duration != 0 {
        return Err(SnapshotError::InvalidTimestamp);
    }
    if period_start > now {
        return Err(SnapshotError::InvalidTimestamp);
    }
    Ok(())
}

/// The start of the period of length `period_duration` that holds `timestamp`.
pub fn period_start_for(timestamp: u64, period_duration: u64) -> (r: u64)
    requires
        period_duration > 0,
    ensures
        r == period_start_of(timestamp, period_duration),
        r <= timestamp,
{
    let q = timestamp / period_duration;
    assert(q * period_duration <= timestamp) by (nonlinear_arith)
        requires q == timestamp / period_duration, period_duration > 0;
    q * period_duration
}

/// A snapshot the admin has created is what a lookup of its user and period
/// gives back, stamped with the ledger time; other snapshots are untouched.
pub proof fn created_snapshot_is_read_back(
    s: SnapshotsView,
    caller: Address,
    user: Address,
    amount: i128,
    period_start: u64,
    other: SnapshotKey,
)
    requires
        create_outcome(s, caller, user, amount, period_start) is Ok,
        other != (SnapshotKey { user, period_start }),
    ensures
        create_outcome(s, caller, user, amount, period_start) matches Ok(v) && {
            &&& v.snapshots.contains_key(SnapshotKey { user, period_start })
            &&& v.snapshots[SnapshotKey { user, period_start }] == (BudgetSnapshot {
                user,
                amount,
                period_start,
                created_at: s.timestamp,
            })
            &&& v.snapshots.contains_key(other) == s.snapshots.contains_key(other)
            &&& v.snapshots.contains_key(other) ==> v.snapshots[other] == s.snapshots[other]
        },
{
}

/// Once initialized with a period of `period` seconds, at any later ledger
/// time `now` the admin's snapshot is recorded exactly when its period start
/// is a multiple of `period` and not after `now`; any other start is refused
/// as an invalid timestamp.
pub proof fn snapshots_follow_the_configured_period(
    s: SnapshotsView,
    admin: Address,
    period: u64,
    now: u64,
    user: Address,
    amount: i128,
    period_start: u64,
)
    requires
        initialize_outcome(s, admin, period) is Ok,
    ensures
        initialize_outcome(s, admin, period) matches Ok(v) && {
            let later = SnapshotsView { timestamp: now, ..v };
            &&& create_outcome(later, admin, user, amount, period_start) is Ok
                <==> period_start % period == 0 && period_start <= now
            &&& create_outcome(later, admin, user, amount, period_start) is Err
                ==> create_outcome(later, admin, user, amount, period_start)
                    == Err::<SnapshotsView, SnapshotError>(SnapshotError::InvalidTimestamp)
        },
{
}

/// In any state whose period is `period` seconds, the admin's snapshot is
/// recorded exactly when its period start is a multiple of `period` and not
/// after the ledger time; any other start is refused as an invalid timestamp.
pub proof fn create_snapshot_checks_the_configured_period(
    s: SnapshotsView,
    caller: Address,
    period: u64,
    user: Address,
    amount: i128,
    period_start: u64,
)
    requires
        s.admin == Some(caller),
        s.period_duration == Some(period),
        period > 0,
    ensures
        create_outcome(s, caller, user, amount, period_start) is Ok
            <==> period_start % period == 0 && period_start <= s.timestamp,
        create_outcome(s, caller, user, amount, period_start) is Err
            ==> create_outcome(s, caller, user, amount, period_start)
                == Err::<SnapshotsView, SnapshotError>(SnapshotError::InvalidTimestamp),
{
}

} // verus!
