//! The fees contract: a percentage fee with optional bounds, per-user
//! accounting, admin refunds and distribution of the collected fees.

use vstd::prelude::*;
use crate::address::Address;
use crate::store::KeyMap;

verus! {

/// A recipient of distributed fees and its share in basis points.
#[derive(Clone, Copy, Debug, PartialEq, Eq, Structural)]
pub struct FeeRecipient {
    pub address: Address,
    pub share_bps: u32,
}

/// The errors the fees contract answers with.
#[derive(Clone, Copy, Debug, PartialEq, Eq, Structural)]
pub enum FeeError {
    NotInitialized,
    AlreadyInitialized,
    Unauthorized,
    InvalidPercentage,
    InvalidAmount,
    Overflow,
    InvalidRefundAmount,
    InsufficientFeeBalance,
    InvalidDistribution,
    DistributionSumsToWrong,
    NoDistributionConfigured,
    InvalidFeeBound,
    InvalidFeeBoundRange,
}

impl FeeError {
    /// The contract error code of the error.
    pub fn code(&self) -> (c: u32)
        ensures
            1 <= c <= 13,
            c == self.spec_code(),
    {
        match self {
            FeeError::NotInitialized => 1,
            FeeError::AlreadyInitialized => 2,
            FeeError::Unauthorized => 3,
            FeeError::InvalidPercentage => 4,
            FeeError::InvalidAmount => 5,
            FeeError::Overflow => 6,
            FeeError::InvalidRefundAmount => 7,
            FeeError::InsufficientFeeBalance => 8,
            FeeError::InvalidDistribution => 9,
            FeeError::DistributionSumsToWrong => 10,
            FeeError::NoDistributionConfigured => 11,
            FeeError::InvalidFeeBound => 12,
            FeeError::InvalidFeeBoundRange => 13,
        }
    }

    pub open spec fn spec_code(&self) -> u32 {
        match self {
            FeeError::NotInitialized => 1,
            FeeError::AlreadyInitialized => 2,
            FeeError::Unauthorized => 3,
            FeeError::InvalidPercentage => 4,
            FeeError::InvalidAmount => 5,
            FeeError::Overflow => 6,
            FeeError::InvalidRefundAmount => 7,
            FeeError::InsufficientFeeBalance => 8,
            FeeError::InvalidDistribution => 9,
            FeeError::DistributionSumsToWrong => 10,
            FeeError::NoDistributionConfigured => 11,
            FeeError::InvalidFeeBound => 12,
            FeeError::InvalidFeeBoundRange => 13,
        }
    }
}

// ---------------------------------------------------------------------------
// The fee rules on plain values
// ---------------------------------------------------------------------------

pub open spec fn fits_i128(x: int) -> bool {
    i128::MIN <= x <= i128::MAX
}

/// The fee raised to `min` and then capped at `max`, in that order.
pub open spec fn bounded_fee(raw: int, min: int, max: int) -> int {
    let raised = if raw < min { min } else { raw };
    if raised > max { max } else { raised }
}

/// What `calculate_fee` answers for an amount, a percentage and the bounds.
pub open spec fn fee_result(amount: i128, percentage_bps: u32, min_fee: i128, max_fee: i128) -> Result<i128, FeeError> {
    if amount <= 0 {
        Err(FeeError::InvalidAmount)
    } else if amount * percentage_bps > i128::MAX {
        Err(FeeError::Overflow)
    } else {
        Ok(bounded_fee(amount * percentage_bps / 10_000, min_fee as int, max_fee as int) as i128)
    }
}

/// The fee for `amount` at `percentage_bps`, kept within `[min_fee, max_fee]`.
pub fn fee_for_amount(amount: i128, percentage_bps: u32, min_fee: i128, max_fee: i128) -> (r: Result<i128, FeeError>)
    ensures
        r == fee_result(amount, percentage_bps, min_fee, max_fee),
        r matches Ok(fee) ==> 0 <= min_fee <= max_fee ==> min_fee <= fee <= max_fee,
{
    if amount <= 0 {
        return Err(FeeError::InvalidAmount);
    }
    let product = match amount.checked_mul(percentage_bps as i128) {
        Some(p) => p,
        None => return Err(FeeError::Overflow),
    };
    let mut fee = match product.checked_div(10_000) {
        Some(f) => f,
        None => return Err(FeeError::Overflow),
    };
    assert(fee == amount * percentage_bps / 10_000);
    if fee < min_fee {
        fee = min_fee;
    }
    if fee > max_fee {
        fee = max_fee;
    }
    Ok(fee)
}

/// The outcome of a deduction: what the payer keeps, the fee, and the new
/// collected total and payer balance.
#[derive(Clone, Copy, Debug, PartialEq, Eq, Structural)]
pub struct Deduction {
    pub net: i128,
    pub fee: i128,
    pub total_collected: i128,
    pub user_fees: i128,
}

pub open spec fn deduction_result(
    amount: i128,
    percentage_bps: u32,
    min_fee: i128,
    max_fee: i128,
    total_collected: i128,
    user_fees: i128,
) -> Result<Deduction, FeeError> {
    match fee_result(amount, percentage_bps, min_fee, max_fee) {
        Err(e) => Err(e),
        Ok(fee) => if !fits_i128(amount - fee) || !fits_i128(total_collected + fee) || !fits_i128(user_fees + fee) {
            Err(FeeError::Overflow)
        } else {
            Ok(Deduction {
                net: (amount - fee) as i128,
                fee,
                total_collected: (total_collected + fee) as i128,
                user_fees: (user_fees + fee) as i128,
            })
        },
    }
}

/// Deducts the fee from `amount` and adds it to the collected total and to
/// the payer's balance.
pub fn deduction(
    amount: i128,
    percentage_bps: u32,
    min_fee: i128,
    max_fee: i128,
    total_collected: i128,
    user_fees: i128,
) -> (r: Result<Deduction, FeeError>)
    ensures
        r == deduction_result(amount, percentage_bps, min_fee, max_fee, total_collected, user_fees),
        r matches Ok(d) ==> d.net + d.fee == amount,
{
    let fee = fee_for_amount(amount, percentage_bps, min_fee, max_fee)?;
    let net = match amount.checked_sub(fee) {
        Some(n) => n,
        None => return Err(FeeError::Overflow),
    };
    let total = match total_collected.checked_add(fee) {
        Some(t) => t,
        None => return Err(FeeError::Overflow),
    };
    let user = match user_fees.checked_add(fee) {
        Some(u) => u,
        None => return Err(FeeError::Overflow),
    };
    Ok(Deduction { net, fee, total_collected: total, user_fees: user })
}

/// The collected total and the user's balance after a refund.
pub open spec fn refund_result(refund_amount: i128, total_collected: i128, user_fees: i128) -> Result<(i128, i128), FeeError> {
    if refund_amount <= 0 {
        Err(FeeError::InvalidRefundAmount)
    } else if user_fees < refund_amount {
        Err(FeeError::InsufficientFeeBalance)
    } else if !fits_i128(total_collected - refund_amount) {
        Err(FeeError::Overflow)
    } else {
        Ok(((total_collected - refund_amount) as i128, (user_fees - refund_amount) as i128))
    }
}

/// Takes a refund off the collected total and off the user's balance.
pub fn refund_amounts(refund_amount: i128, total_collected: i128, user_fees: i128) -> (r: Result<(i128, i128), FeeError>)
    ensures
        r == refund_result(refund_amount, total_collected, user_fees),
        r matches Ok((_, user)) ==> user >= 0,
{
    if refund_amount <= 0 {
        return Err(FeeError::InvalidRefundAmount);
    }
    if user_fees < refund_amount {
        return Err(FeeError::InsufficientFeeBalance);
    }
    let total = match total_collected.checked_sub(refund_amount) {
        Some(t) => t,
        None => return Err(FeeError::Overflow),
    };
    let user = match user_fees.checked_sub(refund_amount) {
        Some(u) => u,
        None => return Err(FeeError::Overflow),
    };
    Ok((total, user))
}

/// The shares scanned in order: the first share above 100% or the first
/// running sum beyond `u32::MAX` is an error, else the sum of all shares.
pub open spec fn share_scan(shares: Seq<FeeRecipient>) -> Result<int, FeeError>
    decreases shares.len(),
{
    if shares.len() == 0 {
        Ok(0)
    } else {
        match share_scan(shares.drop_last()) {
            Err(e) => Err(e),
            Ok(sum) => if shares.last().share_bps > 10_000 {
                Err(FeeError::InvalidDistribution)
            } else if sum + shares.last().share_bps > u32::MAX {
                Err(FeeError::Overflow)
            } else {
                Ok(sum + shares.last().share_bps)
            },
        }
    }
}

/// The sum of the shares, in basis points.
pub open spec fn share_sum(shares: Seq<FeeRecipient>) -> int
    decreases shares.len(),
{
    if shares.len() == 0 {
        0
    } else {
        share_sum(shares.drop_last()) + shares.last().share_bps
    }
}

/// A distribution that `set_distribution` accepts.
pub open spec fn valid_distribution(shares: Seq<FeeRecipient>) -> bool {
    &&& shares.len() > 0
    &&& forall|i: int| 0 <= i < shares.len() ==> (#[trigger] shares[i]).share_bps <= 10_000
    &&& share_sum(shares) == 10_000
}

pub open spec fn distribution_result(shares: Seq<FeeRecipient>) -> Result<(), FeeError> {
    if shares.len() == 0 {
        Err(FeeError::InvalidDistribution)
    } else {
        match share_scan(shares) {
            Err(e) => Err(e),
            Ok(sum) => if sum != 10_000 { Err(FeeError::DistributionSumsToWrong) } else { Ok(()) },
        }
    }
}

proof fn lemma_share_scan(shares: Seq<FeeRecipient>)
    ensures
        share_scan(shares) matches Ok(sum) ==> sum == share_sum(shares) && forall|i: int|
            0 <= i < shares.len() ==> (#[trigger] shares[i]).share_bps <= 10_000,
        (forall|i: int| 0 <= i < shares.len() ==> (#[trigger] shares[i]).share_bps <= 10_000)
            && share_sum(shares) <= u32::MAX ==> share_scan(shares) == Ok::<int, FeeError>(share_sum(shares)),
        share_sum(shares) >= 0,
        valid_distribution(shares) ==> share_scan(shares) == Ok::<int, FeeError>(10_000),
    decreases shares.len(),
{
    if shares.len() > 0 {
        let prefix = shares.drop_last();
        lemma_share_scan(prefix);
        assert forall|i: int| 0 <= i < prefix.len() implies prefix[i] == shares[i] by {}
        if forall|i: int| 0 <= i < shares.len() ==> (#[trigger] shares[i]).share_bps <= 10_000 {
            assert forall|i: int| 0 <= i < prefix.len() implies (#[trigger] prefix[i]).share_bps <= 10_000 by {
                assert(prefix[i] == shares[i]);
            }
        }
        if share_scan(shares) is Ok {
            assert forall|i: int| 0 <= i < shares.len() implies (#[trigger] shares[i]).share_bps <= 10_000 by {
                if i < prefix.len() {
                    assert(prefix[i] == shares[i]);
                }
            }
        }
    }
}

/// Checks a fee distribution: at least one recipient, no share above 100%,
/// and the shares summing to exactly 100%.
pub fn check_distribution(recipients: &Vec<FeeRecipient>) -> (r: Result<(), FeeError>)
    ensures
        r == distribution_result(recipients@),
        r is Ok <==> valid_distribution(recipients@),
{
    proof { lemma_share_scan(recipients@); }
    if recipients.len() == 0 {
        return Err(FeeError::InvalidDistribution);
    }
    let n = recipients.len();
    let mut total_bps: u32 = 0;
    let mut i: usize = 0;
    while i < n
        invariant
            n == recipients@.len(),
            i <= n,
            share_scan(recipients@.take(i as int)) == Ok::<int, FeeError>(total_bps as int),
        decreases n - i,
    {
        let share = recipients[i].share_bps;
        proof {
            assert(recipients@.take(i + 1).drop_last() =~= recipients@.take(i as int));
            assert(recipients@.take(i + 1).last() == recipients@[i as int]);
        }
        if share > 10_000 {
            proof { lemma_scan_error_persists(recipients@, i as int + 1); }
            return Err(FeeError::InvalidDistribution);
        }
        total_bps = match total_bps.checked_add(share) {
            Some(t) => t,
            None => {
                proof {
                    assert(total_bps + share > u32::MAX);
                    assert(share_scan(recipients@.take(i + 1)) == Err::<int, FeeError>(FeeError::Overflow));
                    lemma_scan_error_persists(recipients@, i as int + 1);
                    lemma_share_scan(recipients@);
                }
                return Err(FeeError::Overflow);
            },
        };
        i = i + 1;
    }
    assert(recipients@.take(n as int) =~= recipients@);
    if total_bps != 10_000 {
        return Err(FeeError::DistributionSumsToWrong);
    }
    Ok(())
}

/// An error found in a prefix of the shares is the answer for all of them.
proof fn lemma_scan_error_persists(shares: Seq<FeeRecipient>, k: int)
    requires
        0 <= k <= shares.len(),
        share_scan(shares.take(k)) is Err,
    ensures
        share_scan(shares) == share_scan(shares.take(k)),
    decreases shares.len() - k,
{
    if k < shares.len() {
        assert(shares.take(k + 1).drop_last() =~= shares.take(k));
        lemma_scan_error_persists(shares, k + 1);
    } else {
        assert(shares.take(k) =~= shares);
    }
}

/// Checks fee bounds: both non-negative and the maximum not below the minimum.
pub open spec fn fee_bounds_result(min_fee: i128, max_fee: i128) -> Result<(), FeeError> {
    if min_fee < 0 || max_fee < 0 {
        Err(FeeError::InvalidFeeBound)
    } else if max_fee < min_fee {
        Err(FeeError::InvalidFeeBoundRange)
    } else {
        Ok(())
    }
}

pub fn check_fee_bounds(min_fee: i128, max_fee: i128) -> (r: Result<(), FeeError>)
    ensures
        r == fee_bounds_result(min_fee, max_fee),
{
    if min_fee < 0 || max_fee < 0 {
        return Err(FeeError::InvalidFeeBound);
    }
    if max_fee < min_fee {
        return Err(FeeError::InvalidFeeBoundRange);
    }
    Ok(())
}

/// A recipient's part of `total`: `total * share_bps / 10_000`, rounded down.
pub open spec fn share_of(total: int, share_bps: int) -> int {
    total * share_bps / 10_000
}

pub fn recipient_share(total: i128, share_bps: u32) -> (r: Result<i128, FeeError>)
    requires
        total > 0,
    ensures
        match r {
            Ok(s) => total * share_bps <= i128::MAX && s == share_of(total as int, share_bps as int),
            Err(e) => total * share_bps > i128::MAX && e == FeeError::Overflow,
        },
{
    let product = match total.checked_mul(share_bps as i128) {
        Some(p) => p,
        None => return Err(FeeError::Overflow),
    };
    match product.checked_div(10_000) {
        Some(s) => Ok(s),
        None => Err(FeeError::Overflow),
    }
}

/// Checks that `caller` is the admin of a contract whose admin is `admin`.
pub fn authorize(admin: Option<Address>, caller: Address) -> (r: Result<(), FeeError>)
    ensures
        r == admin_result(admin, caller),
{
    match admin {
        None => Err(FeeError::NotInitialized),
        Some(a) => if caller != a { Err(FeeError::Unauthorized) } else { Ok(()) },
    }
}

/// Checks an initialization: refused once the contract is initialized, and
/// for a percentage above 10_000 bps.
pub fn check_initialize(initialized: bool, percentage_bps: u32) -> (r: Result<(), FeeError>)
    ensures
        r == (if initialized {
            Err(FeeError::AlreadyInitialized)
        } else if percentage_bps > 10_000 {
            Err(FeeError::InvalidPercentage)
        } else {
            Ok(())
        }),
{
    if initialized {
        return Err(FeeError::AlreadyInitialized);
    }
    check_percentage(percentage_bps)
}

/// Checks a fee percentage: at most 10_000 bps.
pub fn check_percentage(percentage_bps: u32) -> (r: Result<(), FeeError>)
    ensures
        r == (if percentage_bps > 10_000 { Err(FeeError::InvalidPercentage) } else { Ok(()) }),
{
    if percentage_bps > 10_000 {
        return Err(FeeError::InvalidPercentage);
    }
    Ok(())
}

/// Credits each recipient, in order, with its share of `total` on top of
/// `balances`, and answers the new balances and the sum handed out.
#[verifier::loop_isolation(false)]
pub fn distribute(total: i128, recipients: &Vec<FeeRecipient>, balances: KeyMap<Address, i128>) -> (r: Result<(KeyMap<Address, i128>, i128), FeeError>)
    requires
        total > 0,
        balances.wf(),
    ensures
        match distribution_outcome(balances.map(), recipients@, total as int) {
            None => r is Err && r == Err::<(KeyMap<Address, i128>, i128), FeeError>(FeeError::Overflow),
            Some((book, handed)) => r matches Ok((b, h)) && b.wf() && b.map() == book && h == handed,
        },
{
    let mut book = balances;
    let ghost start = book.map();
    let mut handed: i128 = 0;
    let n = recipients.len();
    let mut i: usize = 0;
    while i < n
        invariant
            n == recipients@.len(),
            i <= n,
            total > 0,
            book.wf(),
            distribution_outcome(start, recipients@.take(i as int), total as int) == Some((book.map(), handed as int)),
        decreases n - i,
    {
        let recipient = recipients[i];
        proof {
            assert(recipients@.take(i + 1).drop_last() =~= recipients@.take(i as int));
            assert(recipients@.take(i + 1).last() == recipient);
        }
        let share = match recipient_share(total, recipient.share_bps) {
            Ok(s) => s,
            Err(e) => {
                proof { lemma_outcome_failure_persists(start, recipients@, total as int, i as int + 1); }
                return Err(e);
            },
        };
        let held = match book.get(&recipient.address) {
            Some(v) => *v,
            None => 0,
        };
        let credited = match held.checked_add(share) {
            Some(c) => c,
            None => {
                proof { lemma_outcome_failure_persists(start, recipients@, total as int, i as int + 1); }
                return Err(FeeError::Overflow);
            },
        };
        handed = match handed.checked_add(share) {
            Some(h) => h,
            None => {
                proof { lemma_outcome_failure_persists(start, recipients@, total as int, i as int + 1); }
                return Err(FeeError::Overflow);
            },
        };
        book.insert(recipient.address, credited);
        i = i + 1;
    }
    assert(recipients@.take(n as int) =~= recipients@);
    Ok((book, handed))
}

/// Settles the collected total under a distribution: refused when no
/// distribution is configured, nothing (`None`) when there is nothing to
/// hand out, else the recipients' new balances and the sum handed out.
pub fn settle_distribution(total: i128, recipients: &Vec<FeeRecipient>, balances: KeyMap<Address, i128>) -> (r: Result<Option<(KeyMap<Address, i128>, i128)>, FeeError>)
    requires
        balances.wf(),
    ensures
        recipients@.len() == 0 ==> r == Err::<Option<(KeyMap<Address, i128>, i128)>, FeeError>(FeeError::NoDistributionConfigured),
        recipients@.len() > 0 && total <= 0 ==> r == Ok::<Option<(KeyMap<Address, i128>, i128)>, FeeError>(None),
        recipients@.len() > 0 && total > 0 ==> match distribution_outcome(balances.map(), recipients@, total as int) {
            None => r == Err::<Option<(KeyMap<Address, i128>, i128)>, FeeError>(FeeError::Overflow),
            Some((book, handed)) => r matches Ok(Some((b, h))) && b.wf() && b.map() == book && h == handed,
        },
{
    if recipients.len() == 0 {
        return Err(FeeError::NoDistributionConfigured);
    }
    if total <= 0 {
        return Ok(None);
    }
    let (book, handed) = distribute(total, recipients, balances)?;
    Ok(Some((book, handed)))
}

// ---------------------------------------------------------------------------
// Events
// ---------------------------------------------------------------------------

/// An event published by the fees contract.
#[derive(Debug)]
pub enum FeeEvent {
    FeeDeducted { payer: Address, amount: i128, fee: i128, timestamp: u64 },
    ConfigUpdated { admin: Address, percentage_bps: u32, timestamp: u64 },
    FeeRefunded { user: Address, refund_amount: i128, reason: String, timestamp: u64 },
    DistributionConfigured { admin: Address, recipient_count: u32, timestamp: u64 },
    FeesDistributed { total_distributed: i128, recipient_count: u32, timestamp: u64 },
    FeeBoundsConfigured { admin: Address, min_fee: i128, max_fee: i128, timestamp: u64 },
}

impl FeeEvent {
    /// The names of the two topics the event is published under.
    pub open spec fn topic_names(&self) -> (Seq<char>, Seq<char>) {
        match self {
            FeeEvent::FeeDeducted { .. } => ("fee"@, "deducted"@),
            FeeEvent::ConfigUpdated { .. } => ("fee"@, "config_updated"@),
            FeeEvent::FeeRefunded { .. } => ("fee"@, "refunded"@),
            FeeEvent::DistributionConfigured { .. } => ("fee"@, "dist_cfg"@),
            FeeEvent::FeesDistributed { .. } => ("fee"@, "distributed"@),
            FeeEvent::FeeBoundsConfigured { .. } => ("fee"@, "bounds_cfg"@),
        }
    }

    /// The two topics the event is published under.
    pub fn topics(&self) -> (r: (&'static str, &'static str))
        ensures
            (r.0@, r.1@) == self.topic_names(),
    {
        match self {
            FeeEvent::FeeDeducted { .. } => ("fee", "deducted"),
            FeeEvent::ConfigUpdated { .. } => ("fee", "config_updated"),
            FeeEvent::FeeRefunded { .. } => ("fee", "refunded"),
            FeeEvent::DistributionConfigured { .. } => ("fee", "dist_cfg"),
            FeeEvent::FeesDistributed { .. } => ("fee", "distributed"),
            FeeEvent::FeeBoundsConfigured { .. } => ("fee", "bounds_cfg"),
        }
    }
}

/// The log of the events the fees contract has published, oldest first.
pub struct FeeEvents {
    log: Vec<FeeEvent>,
}

impl View for FeeEvents {
    type V = Seq<FeeEvent>;

    closed spec fn view(&self) -> Seq<FeeEvent> {
        self.log@
    }
}

impl FeeEvents {
    pub fn new() -> (r: FeeEvents)
        ensures
            r@ == Seq::<FeeEvent>::empty(),
    {
        FeeEvents { log: Vec::new() }
    }

    /// All events, oldest first.
    pub fn all(&self) -> (r: &Vec<FeeEvent>)
        ensures
            r@ == self@,
    {
        &self.log
    }

    pub fn fee_deducted(&mut self, payer: Address, amount: i128, fee: i128, timestamp: u64)
        ensures
            final(self)@ == old(self)@.push(FeeEvent::FeeDeducted { payer, amount, fee, timestamp }),
    {
        self.log.push(FeeEvent::FeeDeducted { payer, amount, fee, timestamp });
    }

    pub fn config_updated(&mut self, admin: Address, percentage_bps: u32, timestamp: u64)
        ensures
            final(self)@ == old(self)@.push(FeeEvent::ConfigUpdated { admin, percentage_bps, timestamp }),
    {
        self.log.push(FeeEvent::ConfigUpdated { admin, percentage_bps, timestamp });
    }

    pub fn fee_refunded(&mut self, user: Address, refund_amount: i128, reason: &str, timestamp: u64)
        ensures
            refund_logged(old(self)@, final(self)@, user, refund_amount, reason@, timestamp),
    {
        let text = reason.to_owned();
        self.log.push(FeeEvent::FeeRefunded { user, refund_amount, reason: text, timestamp });
        assert(self.log@.drop_last() =~= old(self).log@);
    }

    pub fn distribution_configured(&mut self, admin: Address, recipient_count: u32, timestamp: u64)
        ensures
            final(self)@ == old(self)@.push(FeeEvent::DistributionConfigured { admin, recipient_count, timestamp }),
    {
        self.log.push(FeeEvent::DistributionConfigured { admin, recipient_count, timestamp });
    }

    pub fn fees_distributed(&mut self, total_distributed: i128, recipient_count: u32, timestamp: u64)
        ensures
            final(self)@ == old(self)@.push(FeeEvent::FeesDistributed { total_distributed, recipient_count, timestamp }),
    {
        self.log.push(FeeEvent::FeesDistributed { total_distributed, recipient_count, timestamp });
    }

    pub fn fee_bounds_configured(&mut self, admin: Address, min_fee: i128, max_fee: i128, timestamp: u64)
        ensures
            final(self)@ == old(self)@.push(FeeEvent::FeeBoundsConfigured { admin, min_fee, max_fee, timestamp }),
    {
        self.log.push(FeeEvent::FeeBoundsConfigured { admin, min_fee, max_fee, timestamp });
    }
}

/// `after` is `before` with one more event: a refund to `user` of
/// `refund_amount` for the reason `reason`, at `timestamp`.
pub open spec fn refund_logged(
    before: Seq<FeeEvent>,
    after: Seq<FeeEvent>,
    user: Address,
    refund_amount: i128,
    reason: Seq<char>,
    timestamp: u64,
) -> bool {
    &&& after.len() == before.len() + 1
    &&& after.drop_last() == before
    &&& after.last() matches FeeEvent::FeeRefunded { user: u, refund_amount: a, reason: text, timestamp: t }
        && u == user && a == refund_amount && text@ == reason && t == timestamp
}

// ---------------------------------------------------------------------------
// The contract
// ---------------------------------------------------------------------------

/// What the fees contract holds, as mathematical values.
pub struct FeesView {
    pub admin: Option<Address>,
    pub percentage_bps: u32,
    pub total_collected: i128,
    pub user_fees: Map<Address, i128>,
    pub distribution: Seq<FeeRecipient>,
    pub recipient_fees: Map<Address, i128>,
    pub min_fee: i128,
    pub max_fee: i128,
    pub timestamp: u64,
    pub events: Seq<FeeEvent>,
}

/// The amount kept for an address, 0 where none is kept.
pub open spec fn balance(book: Map<Address, i128>, a: Address) -> i128 {
    if book.contains_key(a) { book[a] } else { 0 }
}

/// The answer to a call that only the admin may make.
pub open spec fn admin_result(admin: Option<Address>, caller: Address) -> Result<(), FeeError> {
    match admin {
        None => Err(FeeError::NotInitialized),
        Some(a) => if a == caller { Ok(()) } else { Err(FeeError::Unauthorized) },
    }
}

/// The recipient balances after crediting each recipient, in order, with its
/// share of `total`, and the sum handed out; `None` where a step overflows.
pub open spec fn distribution_outcome(
    book: Map<Address, i128>,
    recipients: Seq<FeeRecipient>,
    total: int,
) -> Option<(Map<Address, i128>, int)>
    decreases recipients.len(),
{
    if recipients.len() == 0 {
        Some((book, 0))
    } else {
        match distribution_outcome(book, recipients.drop_last(), total) {
            None => None,
            Some((b, handed)) => {
                let r = recipients.last();
                let credited = balance(b, r.address) + share_of(total, r.share_bps as int);
                if total * r.share_bps > i128::MAX || !fits_i128(credited)
                    || !fits_i128(handed + share_of(total, r.share_bps as int)) {
                    None
                } else {
                    Some((b.insert(r.address, credited as i128), handed + share_of(total, r.share_bps as int)))
                }
            },
        }
    }
}

/// The fees contract: its storage, the ledger timestamp it sees and the
/// events it has published.
pub struct FeesContract {
    admin: Option<Address>,
    percentage_bps: u32,
    total_collected: i128,
    user_fees: KeyMap<Address, i128>,
    distribution: Vec<FeeRecipient>,
    recipient_fees: KeyMap<Address, i128>,
    min_fee: i128,
    max_fee: i128,
    timestamp: u64,
    events: FeeEvents,
}

impl View for FeesContract {
    type V = FeesView;

    closed spec fn view(&self) -> FeesView {
        FeesView {
            admin: self.admin,
            percentage_bps: self.percentage_bps,
            total_collected: self.total_collected,
            user_fees: self.user_fees.map(),
            distribution: self.distribution@,
            recipient_fees: self.recipient_fees.map(),
            min_fee: self.min_fee,
            max_fee: self.max_fee,
            timestamp: self.timestamp,
            events: self.events@,
        }
    }
}

impl FeesView {
    /// What every reachable state of the contract satisfies.
    pub open spec fn consistent(&self) -> bool {
        &&& self.percentage_bps <= 10_000
        &&& 0 <= self.min_fee <= self.max_fee
        &&& self.distribution.len() <= u32::MAX
        &&& self.distribution.len() == 0 || valid_distribution(self.distribution)
        &&& forall|a: Address| #[trigger] self.user_fees.contains_key(a) ==> self.user_fees[a] >= 0
        &&& forall|a: Address| #[trigger] self.recipient_fees.contains_key(a) ==> self.recipient_fees[a] >= 0
    }
}

impl FeesContract {
    /// The contract is well formed.
    pub closed spec fn wf(&self) -> bool {
        &&& self.user_fees.wf()
        &&& self.recipient_fees.wf()
        &&& self@.consistent()
    }

    /// A freshly deployed contract: nothing stored, at ledger time 0.
    pub fn new() -> (c: FeesContract)
        ensures
            c.wf(),
            c@ == (FeesView {
                admin: None,
                percentage_bps: 0,
                total_collected: 0,
                user_fees: Map::empty(),
                distribution: Seq::empty(),
                recipient_fees: Map::empty(),
                min_fee: 0,
                max_fee: i128::MAX,
                timestamp: 0,
                events: Seq::empty(),
            }),
    {
        FeesContract {
            admin: None,
            percentage_bps: 0,
            total_collected: 0,
            user_fees: KeyMap::new(),
            distribution: Vec::new(),
            recipient_fees: KeyMap::new(),
            min_fee: 0,
            max_fee: i128::MAX,
            timestamp: 0,
            events: FeeEvents::new(),
        }
    }

    /// Sets the ledger timestamp the contract sees.
    pub fn set_ledger_timestamp(&mut self, timestamp: u64)
        requires
            old(self).wf(),
        ensures
            final(self).wf(),
            final(self)@ == (FeesView { timestamp, ..old(self)@ }),
    {
        self.timestamp = timestamp;
    }

    /// The events published so far, oldest first.
    pub fn events(&self) -> (r: &Vec<FeeEvent>)
        ensures
            r@ == self@.events,
    {
        self.events.all()
    }

    fn require_initialized(&self) -> (r: Result<Address, FeeError>)
        ensures
            match self@.admin {
                Some(a) => r == Ok::<Address, FeeError>(a),
                None => r == Err::<Address, FeeError>(FeeError::NotInitialized),
            },
    {
        match self.admin {
            Some(a) => Ok(a),
            None => Err(FeeError::NotInitialized),
        }
    }

    fn require_admin(&self, caller: &Address) -> (r: Result<(), FeeError>)
        ensures
            r == admin_result(self@.admin, *caller),
    {
        authorize(self.admin, *caller)
    }

    fn book_balance(book: &KeyMap<Address, i128>, a: &Address) -> (r: i128)
        requires
            book.wf(),
        ensures
            r == balance(book.map(), *a),
    {
        match book.get(a) {
            Some(v) => *v,
            None => 0,
        }
    }

    /// Sets the admin and the fee percentage (0–10_000 bps); only once.
    pub fn initialize(&mut self, admin: Address, percentage_bps: u32) -> (r: Result<(), FeeError>)
        requires
            old(self).wf(),
        ensures
            final(self).wf(),
            r == (if old(self)@.admin is Some {
                Err(FeeError::AlreadyInitialized)
            } else if percentage_bps > 10_000 {
                Err(FeeError::InvalidPercentage)
            } else {
                Ok(())
            }),
            r is Ok ==> final(self)@ == (FeesView {
                admin: Some(admin),
                percentage_bps,
                total_collected: 0,
                ..old(self)@
            }),
            r is Err ==> final(self)@ == old(self)@,
    {
        check_initialize(self.admin.is_some(), percentage_bps)?;
        self.admin = Some(admin);
        self.percentage_bps = percentage_bps;
        self.total_collected = 0;
        Ok(())
    }

    /// Changes the fee percentage; admin only.
    pub fn set_percentage(&mut self, caller: Address, percentage_bps: u32) -> (r: Result<(), FeeError>)
        requires
            old(self).wf(),
        ensures
            final(self).wf(),
            r == (match admin_result(old(self)@.admin, caller) {
                Err(e) => Err(e),
                Ok(_) => if percentage_bps > 10_000 { Err(FeeError::InvalidPercentage) } else { Ok(()) },
            }),
            r is Ok ==> final(self)@ == (FeesView {
                percentage_bps,
                events: old(self)@.events.push(
                    FeeEvent::ConfigUpdated { admin: caller, percentage_bps, timestamp: old(self)@.timestamp },
                ),
                ..old(self)@
            }),
            r is Err ==> final(self)@ == old(self)@,
    {
        self.require_admin(&caller)?;
        check_percentage(percentage_bps)?;
        self.percentage_bps = percentage_bps;
        let t = self.timestamp;
        self.events.config_updated(caller, percentage_bps, t);
        Ok(())
    }

    /// The fee percentage in basis points; 0 before initialization.
    pub fn get_percentage(&self) -> (r: u32)
        ensures
            r == self@.percentage_bps,
    {
        self.percentage_bps
    }

    /// The fee for `amount`: `amount * percentage / 10_000`, raised to the
    /// minimum fee and capped at the maximum fee.
    pub fn calculate_fee(&self, amount: i128) -> (r: Result<i128, FeeError>)
        requires
            self.wf(),
        ensures
            r == fee_result(amount, self@.percentage_bps, self@.min_fee, self@.max_fee),
            r matches Ok(fee) ==> self@.min_fee <= fee <= self@.max_fee,
    {
        fee_for_amount(amount, self.percentage_bps, self.min_fee, self.max_fee)
    }

    /// Charges the fee on `amount` to `payer`: answers `(net, fee)` with
    /// `net + fee == amount`, and adds the fee to the collected total and to
    /// the payer's accrued fees.
    pub fn deduct_fee(&mut self, payer: Address, amount: i128) -> (r: Result<(i128, i128), FeeError>)
        requires
            old(self).wf(),
        ensures
            final(self).wf(),
            old(self)@.admin is None ==> r == Err::<(i128, i128), FeeError>(FeeError::NotInitialized),
            old(self)@.admin is Some ==> match deduction_result(
                amount,
                old(self)@.percentage_bps,
                old(self)@.min_fee,
                old(self)@.max_fee,
                old(self)@.total_collected,
                balance(old(self)@.user_fees, payer),
            ) {
                Err(e) => r == Err::<(i128, i128), FeeError>(e),
                Ok(d) => r == Ok::<(i128, i128), FeeError>((d.net, d.fee)) && final(self)@ == (FeesView {
                    total_collected: d.total_collected,
                    user_fees: old(self)@.user_fees.insert(payer, d.user_fees),
                    events: old(self)@.events.push(
                        FeeEvent::FeeDeducted { payer, amount, fee: d.fee, timestamp: old(self)@.timestamp },
                    ),
                    ..old(self)@
                }),
            },
            r matches Ok((net, fee)) ==> net + fee == amount,
            r is Err ==> final(self)@ == old(self)@,
    {
        self.require_initialized()?;
        let user = Self::book_balance(&self.user_fees, &payer);
        let d = deduction(amount, self.percentage_bps, self.min_fee, self.max_fee, self.total_collected, user)?;
        self.total_collected = d.total_collected;
        self.user_fees.insert(payer, d.user_fees);
        let t = self.timestamp;
        self.events.fee_deducted(payer, amount, d.fee, t);
        Ok((d.net, d.fee))
    }

    /// The fees collected and not yet distributed.
    pub fn get_total_collected(&self) -> (r: i128)
        ensures
            r == self@.total_collected,
    {
        self.total_collected
    }

    /// The fees `user` has paid, less refunds; 0 for a user who paid none.
    pub fn get_user_fees_accrued(&self, user: Address) -> (r: i128)
        requires
            self.wf(),
        ensures
            r == balance(self@.user_fees, user),
    {
        Self::book_balance(&self.user_fees, &user)
    }

    /// Refunds part of the fees `user` has paid; admin only. The refund must
    /// be positive and at most the user's accrued fees.
    pub fn refund_fee(&mut self, caller: Address, user: Address, refund_amount: i128, reason: &str) -> (r: Result<i128, FeeError>)
        requires
            old(self).wf(),
        ensures
            final(self).wf(),
            match admin_result(old(self)@.admin, caller) {
                Err(e) => r == Err::<i128, FeeError>(e),
                Ok(_) => match refund_result(refund_amount, old(self)@.total_collected, balance(old(self)@.user_fees, user)) {
                    Err(e) => r == Err::<i128, FeeError>(e),
                    Ok((total, user_left)) => {
                        &&& r == Ok::<i128, FeeError>(refund_amount)
                        &&& final(self)@ == (FeesView {
                            total_collected: total,
                            user_fees: old(self)@.user_fees.insert(user, user_left),
                            events: final(self)@.events,
                            ..old(self)@
                        })
                        &&& refund_logged(old(self)@.events, final(self)@.events, user, refund_amount, reason@, old(self)@.timestamp)
                    },
                },
            },
            r is Err ==> final(self)@ == old(self)@,
    {
        self.require_admin(&caller)?;
        let user_fees = Self::book_balance(&self.user_fees, &user);
        let (total, user_left) = refund_amounts(refund_amount, self.total_collected, user_fees)?;
        self.total_collected = total;
        self.user_fees.insert(user, user_left);
        let t = self.timestamp;
        self.events.fee_refunded(user, refund_amount, reason, t);
        Ok(refund_amount)
    }

    /// Replaces the fee distribution; admin only. It must name at least one
    /// recipient, no share may exceed 10_000 bps, and the shares must sum to
    /// exactly 10_000 bps.
    pub fn set_distribution(&mut self, caller: Address, recipients: Vec<FeeRecipient>) -> (r: Result<(), FeeError>)
        requires
            old(self).wf(),
            recipients@.len() <= u32::MAX,
        ensures
            final(self).wf(),
            r == (match admin_result(old(self)@.admin, caller) {
                Err(e) => Err(e),
                Ok(_) => distribution_result(recipients@),
            }),
            r is Ok ==> final(self)@ == (FeesView {
                distribution: recipients@,
                events: old(self)@.events.push(FeeEvent::DistributionConfigured {
                    admin: caller,
                    recipient_count: recipients@.len() as u32,
                    timestamp: old(self)@.timestamp,
                }),
                ..old(self)@
            }),
            r is Err ==> final(self)@ == old(self)@,
    {
        self.require_admin(&caller)?;
        check_distribution(&recipients)?;
        let count = recipients.len() as u32;
        self.distribution = recipients;
        let t = self.timestamp;
        self.events.distribution_configured(caller, count, t);
        Ok(())
    }

    /// The configured distribution; empty when none is configured.
    pub fn get_distribution(&self) -> (r: Vec<FeeRecipient>)
        ensures
            r@ == self@.distribution,
    {
        let mut r: Vec<FeeRecipient> = Vec::new();
        let n = self.distribution.len();
        let mut i: usize = 0;
        while i < n
            invariant
                n == self.distribution@.len(),
                i <= n,
                r@ == self.distribution@.subrange(0, i as int),
            decreases n - i,
        {
            r.push(self.distribution[i]);
            i = i + 1;
            assert(r@ =~= self.distribution@.subrange(0, i as int));
        }
        assert(r@ =~= self.distribution@);
        r
    }

    /// Hands the collected fees out to the configured recipients, each its
    /// share rounded down, and resets the collected total; admin only.
    /// Answers the amount handed out, 0 (with nothing changed) when there is
    /// nothing to hand out.
    pub fn distribute_fees(&mut self, caller: Address) -> (r: Result<i128, FeeError>)
        requires
            old(self).wf(),
        ensures
            final(self).wf(),
            admin_result(old(self)@.admin, caller) matches Err(e) ==> r == Err::<i128, FeeError>(e),
            admin_result(old(self)@.admin, caller) is Ok && old(self)@.distribution.len() == 0
                ==> r == Err::<i128, FeeError>(FeeError::NoDistributionConfigured),
            admin_result(old(self)@.admin, caller) is Ok && old(self)@.distribution.len() > 0
                && old(self)@.total_collected <= 0 ==> r == Ok::<i128, FeeError>(0) && final(self)@ == old(self)@,
            admin_result(old(self)@.admin, caller) is Ok && old(self)@.distribution.len() > 0
                && old(self)@.total_collected > 0 ==> match distribution_outcome(
                    old(self)@.recipient_fees,
                    old(self)@.distribution,
                    old(self)@.total_collected as int,
                ) {
                    None => r == Err::<i128, FeeError>(FeeError::Overflow),
                    Some((book, handed)) => r == Ok::<i128, FeeError>(handed as i128) && final(self)@ == (FeesView {
                        total_collected: 0,
                        recipient_fees: book,
                        events: old(self)@.events.push(FeeEvent::FeesDistributed {
                            total_distributed: handed as i128,
                            recipient_count: old(self)@.distribution.len() as u32,
                            timestamp: old(self)@.timestamp,
                        }),
                        ..old(self)@
                    }),
                },
            r is Err ==> final(self)@ == old(self)@,
    {
        self.require_admin(&caller)?;
        let total = self.total_collected;
        let (book, handed) = match settle_distribution(total, &self.distribution, self.recipient_fees.duplicate())? {
            None => return Ok(0),
            Some(settled) => settled,
        };
        proof {
            lemma_outcome_nonnegative(self.recipient_fees.map(), self.distribution@, total as int);
        }
        self.recipient_fees = book;
        self.total_collected = 0;
        let count = self.distribution.len() as u32;
        let t = self.timestamp;
        self.events.fees_distributed(handed, count, t);
        Ok(handed)
    }

    /// The fees handed out to `recipient` so far.
    pub fn get_recipient_fees_accumulated(&self, recipient: Address) -> (r: i128)
        requires
            self.wf(),
        ensures
            r == balance(self@.recipient_fees, recipient),
    {
        Self::book_balance(&self.recipient_fees, &recipient)
    }

    /// Sets the minimum and maximum fee; admin only. Both must be
    /// non-negative and the maximum must not be below the minimum.
    pub fn set_fee_bounds(&mut self, caller: Address, min_fee: i128, max_fee: i128) -> (r: Result<(), FeeError>)
        requires
            old(self).wf(),
        ensures
            final(self).wf(),
            r == (match admin_result(old(self)@.admin, caller) {
                Err(e) => Err(e),
                Ok(_) => fee_bounds_result(min_fee, max_fee),
            }),
            r is Ok ==> final(self)@ == (FeesView {
                min_fee,
                max_fee,
                events: old(self)@.events.push(
                    FeeEvent::FeeBoundsConfigured { admin: caller, min_fee, max_fee, timestamp: old(self)@.timestamp },
                ),
                ..old(self)@
            }),
            r is Err ==> final(self)@ == old(self)@,
    {
        self.require_admin(&caller)?;
        check_fee_bounds(min_fee, max_fee)?;
        self.min_fee = min_fee;
        self.max_fee = max_fee;
        let t = self.timestamp;
        self.events.fee_bounds_configured(caller, min_fee, max_fee, t);
        Ok(())
    }

    /// The minimum fee; 0 when none is configured.
    pub fn get_min_fee(&self) -> (r: i128)
        ensures
            r == self@.min_fee,
    {
        self.min_fee
    }

    /// The maximum fee; `i128::MAX` when none is configured.
    pub fn get_max_fee(&self) -> (r: i128)
        ensures
            r == self@.max_fee,
    {
        self.max_fee
    }
}

/// A step that overflows makes the whole distribution overflow.
proof fn lemma_outcome_failure_persists(book: Map<Address, i128>, recipients: Seq<FeeRecipient>, total: int, k: int)
    requires
        0 <= k <= recipients.len(),
        distribution_outcome(book, recipients.take(k), total) is None,
    ensures
        distribution_outcome(book, recipients, total) is None,
    decreases recipients.len() - k,
{
    if k < recipients.len() {
        assert(recipients.take(k + 1).drop_last() =~= recipients.take(k));
        lemma_outcome_failure_persists(book, recipients, total, k + 1);
    } else {
        assert(recipients.take(k) =~= recipients);
    }
}

/// Crediting non-negative shares keeps non-negative balances non-negative.
proof fn lemma_outcome_nonnegative(book: Map<Address, i128>, recipients: Seq<FeeRecipient>, total: int)
    requires
        total > 0,
        forall|a: Address| #[trigger] book.contains_key(a) ==> book[a] >= 0,
    ensures
        distribution_outcome(book, recipients, total) matches Some((b, handed)) ==> handed >= 0 && forall|a: Address|
            #[trigger] b.contains_key(a) ==> b[a] >= 0,
    decreases recipients.len(),
{
    if recipients.len() > 0 {
        lemma_outcome_nonnegative(book, recipients.drop_last(), total);
        let r = recipients.last();
        assert(total * r.share_bps >= 0) by (nonlinear_arith)
            requires total > 0;
    }
}

// ---------------------------------------------------------------------------
// Laws
// ---------------------------------------------------------------------------

/// Every state the contract reaches is consistent: the percentage is at most
/// 100%, the fee bounds are ordered and non-negative, a configured
/// distribution is valid, and no accrued or distributed balance is negative.
pub proof fn reachable_states_are_consistent(c: &FeesContract)
    requires
        c.wf(),
    ensures
        c@.consistent(),
{
}

/// Refunding the fee that a deduction charged gives back the collected total
/// and the payer's accrued fees from before the deduction.
pub proof fn refund_undoes_deduction(
    amount: i128,
    percentage_bps: u32,
    min_fee: i128,
    max_fee: i128,
    total_collected: i128,
    user_fees: i128,
)
    requires
        deduction_result(amount, percentage_bps, min_fee, max_fee, total_collected, user_fees) matches Ok(d)
            && d.fee > 0,
        user_fees >= 0,
    ensures
        deduction_result(amount, percentage_bps, min_fee, max_fee, total_collected, user_fees) matches Ok(d)
            && refund_result(d.fee, d.total_collected, d.user_fees) == Ok::<(i128, i128), FeeError>(
            (total_collected, user_fees),
        ),
{
}

proof fn lemma_handed_bounds(book: Map<Address, i128>, recipients: Seq<FeeRecipient>, total: int)
    requires
        total > 0,
    ensures
        distribution_outcome(book, recipients, total) matches Some((b, handed)) ==> {
            &&& 10_000 * handed <= total * share_sum(recipients)
            &&& total * share_sum(recipients) <= 10_000 * handed + 9_999 * recipients.len()
        },
    decreases recipients.len(),
{
    if recipients.len() > 0 {
        let prefix = recipients.drop_last();
        lemma_handed_bounds(book, prefix, total);
        let bps = recipients.last().share_bps as int;
        let s = share_sum(prefix);
        let q = share_of(total, bps);
        assert(0 <= total * bps) by (nonlinear_arith)
            requires total > 0, bps >= 0;
        assert(10_000 * q <= total * bps <= 10_000 * q + 9_999) by (nonlinear_arith)
            requires q == total * bps / 10_000, total * bps >= 0;
        assert(total * (s + bps) == total * s + total * bps) by (nonlinear_arith);
    }
}

/// Handing out the collected fees under a valid distribution never hands out
/// more than was collected, and loses less than one unit per recipient to
/// rounding down.
pub proof fn distribution_hands_out_the_total(book: Map<Address, i128>, recipients: Seq<FeeRecipient>, total: i128)
    requires
        valid_distribution(recipients),
        total > 0,
        distribution_outcome(book, recipients, total as int) is Some,
    ensures
        distribution_outcome(book, recipients, total as int) matches Some((_, handed))
            && handed <= total < handed + recipients.len(),
{
    lemma_handed_bounds(book, recipients, total as int);
}

} // verus!
