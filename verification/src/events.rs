//! The staking contract: stakes of one token that earn a yearly reward rate.

use vstd::prelude::*;
use crate::address::Address;
use crate::store::KeyMap;

pub mod fee_events;

verus! {

/// The seconds of a 365-day year.
pub const SECONDS_PER_YEAR: i128 = 31_536_000;

/// The configuration of the staking contract.
#[derive(Clone, Copy, Debug, PartialEq, Eq, Structural)]
pub struct Config {
    /// Address allowed to call admin-only functions
    pub admin: Address,
    /// The token this contract accepts for staking
    pub token: Address,
    /// Annual reward rate in basis points (e.g. 1200 = 12 %)
    pub reward_rate: u32,
    /// Minimum tokens a user must stake in a single call
    pub min_stake: i128,
}

/// Why the staking contract rejects a call.
#[derive(Clone, Copy, Debug, PartialEq, Eq, Structural)]
pub enum StakingError {
    /// The contract is already initialised.
    AlreadyInitialized,
    /// The reward rate must be greater than zero.
    InvalidRewardRate,
    /// The minimum stake must be greater than zero.
    InvalidMinStake,
    /// The contract is not initialised.
    NotInitialized,
    /// The amount is below the minimum stake.
    BelowMinimumStake,
    /// The unstake amount must be greater than zero.
    InvalidAmount,
    /// The staked balance is smaller than the amount.
    InsufficientStake,
    /// A balance or the reward does not fit in an `i128`.
    Overflow,
}

/// A token transfer the contract makes: `amount` of `token` from `from` to `to`.
#[derive(Clone, Copy, Debug, PartialEq, Eq, Structural)]
pub struct TokenTransfer {
    pub token: Address,
    pub from: Address,
    pub to: Address,
    pub amount: i128,
}

/// An event published by the staking contract.
#[derive(Clone, Copy, Debug, PartialEq, Eq, Structural)]
pub enum StakingEvent {
    Initialize { admin: Address, reward_rate: u32, min_stake: i128, timestamp: u64 },
    Stake { staker: Address, amount: i128, total: i128, timestamp: u64 },
    Unstake { staker: Address, amount: i128, reward: i128, remaining: i128, timestamp: u64 },
}

impl StakingEvent {
    /// The name of the topic the event is published under.
    pub open spec fn topic_name(&self) -> Seq<char> {
        match self {
            StakingEvent::Initialize { .. } => "initialize"@,
            StakingEvent::Stake { .. } => "stake"@,
            StakingEvent::Unstake { .. } => "unstake"@,
        }
    }

    /// The topic the event is published under.
    pub fn topic(&self) -> (r: &'static str)
        ensures
            r@ == self.topic_name(),
    {
        match self {
            StakingEvent::Initialize { .. } => "initialize",
            StakingEvent::Stake { .. } => "stake",
            StakingEvent::Unstake { .. } => "unstake",
        }
    }
}

/// The seconds elapsed from `since` to `now`; 0 when `since` is later.
pub open spec fn elapsed(now: u64, since: u64) -> int {
    if now >= since { now - since } else { 0 }
}

/// The reward on `amount` at `rate` bps a year for `seconds`, rounded toward zero.
pub open spec fn reward_for(amount: int, rate: int, seconds: int) -> int {
    let product = amount * rate * seconds;
    if product >= 0 {
        product / (10_000 * SECONDS_PER_YEAR)
    } else {
        -((-product) / (10_000 * SECONDS_PER_YEAR))
    }
}

/// The reward on `amount`, or `Overflow` when the product does not fit.
pub open spec fn reward_result(amount: i128, rate: u32, seconds: int) -> Result<i128, StakingError> {
    if !(i128::MIN <= amount * rate <= i128::MAX) || !(i128::MIN <= amount * rate * seconds <= i128::MAX) {
        Err(StakingError::Overflow)
    } else {
        Ok(reward_for(amount as int, rate as int, seconds) as i128)
    }
}

/// The reward on `amount` staked for `seconds` at `rate` bps a year:
/// `amount * rate * seconds / (10_000 * SECONDS_PER_YEAR)`.
pub fn reward(amount: i128, rate: u32, seconds: u64) -> (r: Result<i128, StakingError>)
    ensures
        r == reward_result(amount, rate, seconds as int),
{
    let by_rate = match amount.checked_mul(rate as i128) {
        Some(p) => p,
        None => return Err(StakingError::Overflow),
    };
    let product = match by_rate.checked_mul(seconds as i128) {
        Some(p) => p,
        None => return Err(StakingError::Overflow),
    };
    Ok(product / (10_000 * SECONDS_PER_YEAR))
}

/// What the staking contract holds, as mathematical values.
pub struct StakingView {
    pub address: Address,
    pub config: Option<Config>,
    pub stakes: Map<Address, i128>,
    pub stake_times: Map<Address, u64>,
    pub timestamp: u64,
    pub events: Seq<StakingEvent>,
}

/// The amount staked by an address; 0 where none is.
pub open spec fn staked(stakes: Map<Address, i128>, a: Address) -> i128 {
    if stakes.contains_key(a) { stakes[a] } else { 0 }
}

/// The contract after `initialize`, or the error it answers.
pub open spec fn initialize_outcome(s: StakingView, admin: Address, token: Address, reward_rate: u32, min_stake: i128) -> Result<StakingView, StakingError> {
    if s.config is Some {
        Err(StakingError::AlreadyInitialized)
    } else if reward_rate == 0 {
        Err(StakingError::InvalidRewardRate)
    } else if min_stake <= 0 {
        Err(StakingError::InvalidMinStake)
    } else {
        Ok(StakingView {
            config: Some(Config { admin, token, reward_rate, min_stake }),
            events: s.events.push(StakingEvent::Initialize { admin, reward_rate, min_stake, timestamp: s.timestamp }),
            ..s
        })
    }
}

/// The contract after `stake` and the transfer it makes, or the error it answers.
pub open spec fn stake_outcome(s: StakingView, staker: Address, amount: i128) -> Result<(StakingView, TokenTransfer), StakingError> {
    match s.config {
        None => Err(StakingError::NotInitialized),
        Some(config) => if amount < config.min_stake {
            Err(StakingError::BelowMinimumStake)
        } else if !(i128::MIN <= staked(s.stakes, staker) + amount <= i128::MAX) {
            Err(StakingError::Overflow)
        } else {
            let total = (staked(s.stakes, staker) + amount) as i128;
            Ok((
                StakingView {
                    stakes: s.stakes.insert(staker, total),
                    stake_times: s.stake_times.insert(staker, s.timestamp),
                    events: s.events.push(StakingEvent::Stake { staker, amount, total, timestamp: s.timestamp }),
                    ..s
                },
                TokenTransfer { token: config.token, from: staker, to: s.address, amount },
            ))
        },
    }
}

/// The time the reward on a stake is counted from: when it was last staked,
/// else now.
pub open spec fn reward_start(s: StakingView, staker: Address) -> u64 {
    if s.stake_times.contains_key(staker) { s.stake_times[staker] } else { s.timestamp }
}

/// The contract after `unstake` and the transfer it makes, or the error it answers.
pub open spec fn unstake_outcome(s: StakingView, staker: Address, amount: i128) -> Result<(StakingView, TokenTransfer), StakingError> {
    match s.config {
        None => Err(StakingError::NotInitialized),
        Some(config) => if amount <= 0 {
            Err(StakingError::InvalidAmount)
        } else if staked(s.stakes, staker) < amount {
            Err(StakingError::InsufficientStake)
        } else {
            match reward_result(amount, config.reward_rate, elapsed(s.timestamp, reward_start(s, staker))) {
                Err(e) => Err(e),
                Ok(reward) => if !(i128::MIN <= amount + reward <= i128::MAX) {
                    Err(StakingError::Overflow)
                } else {
                    let remaining = (staked(s.stakes, staker) - amount) as i128;
                    Ok((
                        StakingView {
                            stakes: s.stakes.insert(staker, remaining),
                            stake_times: if remaining > 0 {
                                s.stake_times.insert(staker, s.timestamp)
                            } else {
                                s.stake_times.remove(staker)
                            },
                            events: s.events.push(StakingEvent::Unstake {
                                staker,
                                amount,
                                reward,
                                remaining,
                                timestamp: s.timestamp,
                            }),
                            ..s
                        },
                        TokenTransfer { token: config.token, from: s.address, to: staker, amount: (amount + reward) as i128 },
                    ))
                },
            }
        },
    }
}

/// The staking contract: its address, its storage, the ledger timestamp it
/// sees and the events it has published.
pub struct StakingContract {
    address: Address,
    config: Option<Config>,
    stakes: KeyMap<Address, i128>,
    stake_times: KeyMap<Address, u64>,
    timestamp: u64,
    events: Vec<StakingEvent>,
}

impl View for StakingContract {
    type V = StakingView;

    closed spec fn view(&self) -> StakingView {
        StakingView {
            address: self.address,
            config: self.config,
            stakes: self.stakes.map(),
            stake_times: self.stake_times.map(),
            timestamp: self.timestamp,
            events: self.events@,
        }
    }
}

impl StakingView {
    /// No staked balance is negative, and a configuration has a positive
    /// rate and minimum stake.
    pub open spec fn consistent(&self) -> bool {
        &&& forall|a: Address| #[trigger] self.stakes.contains_key(a) ==> self.stakes[a] >= 0
        &&& self.config matches Some(c) ==> c.reward_rate > 0 && c.min_stake > 0
    }
}

impl StakingContract {
    pub closed spec fn wf(&self) -> bool {
        self.stakes.wf() && self.stake_times.wf() && self@.consistent()
    }

    /// A freshly deployed contract at `address`: nothing stored, at ledger time 0.
    pub fn new(address: Address) -> (c: StakingContract)
        ensures
            c.wf(),
            c@ == (StakingView {
                address,
                config: None,
                stakes: Map::empty(),
                stake_times: Map::empty(),
                timestamp: 0,
                events: Seq::empty(),
            }),
    {
        StakingContract {
            address,
            config: None,
            stakes: KeyMap::new(),
            stake_times: KeyMap::new(),
            timestamp: 0,
            events: Vec::new(),
        }
    }

    /// Sets the ledger timestamp the contract sees.
    pub fn set_ledger_timestamp(&mut self, timestamp: u64)
        requires
            old(self).wf(),
        ensures
            final(self).wf(),
            final(self)@ == (StakingView { timestamp, ..old(self)@ }),
    {
        self.timestamp = timestamp;
    }

    /// The events published so far, oldest first.
    pub fn events(&self) -> (r: &Vec<StakingEvent>)
        ensures
            r@ == self@.events,
    {
        &self.events
    }

    /// Sets the configuration; only once. The reward rate and the minimum
    /// stake must be greater than zero.
    pub fn initialize(&mut self, admin: Address, token: Address, reward_rate: u32, min_stake: i128) -> (r: Result<(), StakingError>)
        requires
            old(self).wf(),
        ensures
            final(self).wf(),
            match initialize_outcome(old(self)@, admin, token, reward_rate, min_stake) {
                Ok(v) => r is Ok && final(self)@ == v,
                Err(e) => r == Err::<(), StakingError>(e) && final(self)@ == old(self)@,
            },
    {
        check_initialize(self.config.is_some(), reward_rate, min_stake)?;
        self.config = Some(Config { admin, token, reward_rate, min_stake });
        let t = self.timestamp;
        self.events.push(StakingEvent::Initialize { admin, reward_rate, min_stake, timestamp: t });
        Ok(())
    }

    fn balance(book: &KeyMap<Address, i128>, a: &Address) -> (r: i128)
        requires
            book.wf(),
        ensures
            r == staked(book.map(), *a),
    {
        match book.get(a) {
            Some(v) => *v,
            None => 0,
        }
    }

    /// Stakes `amount`, at least the minimum stake: adds it to the staker's
    /// balance, restarts the staker's reward clock, and answers the transfer
    /// of the tokens from the staker to the contract.
    pub fn stake(&mut self, staker: Address, amount: i128) -> (r: Result<TokenTransfer, StakingError>)
        requires
            old(self).wf(),
        ensures
            final(self).wf(),
            match stake_outcome(old(self)@, staker, amount) {
                Ok((v, transfer)) => r == Ok::<TokenTransfer, StakingError>(transfer) && final(self)@ == v,
                Err(e) => r == Err::<TokenTransfer, StakingError>(e) && final(self)@ == old(self)@,
            },
    {
        let config = match self.get_config() {
            Ok(c) => c,
            Err(e) => return Err(e),
        };
        let prev = Self::balance(&self.stakes, &staker);
        let total = stake_total(&config, prev, amount)?;
        self.stakes.insert(staker, total);
        let now = self.timestamp;
        self.stake_times.insert(staker, now);
        self.events.push(StakingEvent::Stake { staker, amount, total, timestamp: now });
        Ok(TokenTransfer { token: config.token, from: staker, to: self.address, amount })
    }

    /// Unstakes `amount`, at most the staked balance: takes it off the
    /// balance, restarts (or, with nothing left, clears) the reward clock,
    /// and answers the transfer of the amount and its reward to the staker.
    pub fn unstake(&mut self, staker: Address, amount: i128) -> (r: Result<TokenTransfer, StakingError>)
        requires
            old(self).wf(),
        ensures
            final(self).wf(),
            match unstake_outcome(old(self)@, staker, amount) {
                Ok((v, transfer)) => r == Ok::<TokenTransfer, StakingError>(transfer) && final(self)@ == v,
                Err(e) => r == Err::<TokenTransfer, StakingError>(e) && final(self)@ == old(self)@,
            },
    {
        let config = match self.get_config() {
            Ok(c) => c,
            Err(e) => return Err(e),
        };
        let current = Self::balance(&self.stakes, &staker);
        let now = self.timestamp;
        let since = match self.stake_times.get(&staker) {
            Some(t) => *t,
            None => now,
        };
        let (reward, remaining, payout) = unstake_amounts(&config, current, since, now, amount)?;
        self.stakes.insert(staker, remaining);
        if remaining > 0 {
            self.stake_times.insert(staker, now);
        } else {
            self.stake_times.remove(&staker);
        }
        self.events.push(StakingEvent::Unstake { staker, amount, reward, remaining, timestamp: now });
        Ok(TokenTransfer { token: config.token, from: self.address, to: staker, amount: payout })
    }

    /// The balance staked by `staker`.
    pub fn get_stake(&self, staker: Address) -> (r: i128)
        requires
            self.wf(),
        ensures
            r == staked(self@.stakes, staker),
    {
        Self::balance(&self.stakes, &staker)
    }

    /// The configuration, once initialised.
    pub fn get_config(&self) -> (r: Result<Config, StakingError>)
        ensures
            match self@.config {
                Some(c) => r == Ok::<Config, StakingError>(c),
                None => r == Err::<Config, StakingError>(StakingError::NotInitialized),
            },
    {
        match self.config {
            Some(c) => Ok(c),
            None => Err(StakingError::NotInitialized),
        }
    }
}

/// Every state the contract reaches has no negative staked balance.
pub proof fn reachable_states_are_consistent(c: &StakingContract)
    requires
        c.wf(),
    ensures
        c@.consistent(),
{
}

/// Staking and then unstaking the same amount in the same ledger second
/// pays exactly that amount back, with no reward, and restores the balance.
pub proof fn unstake_in_same_second_returns_the_stake(s: StakingView, staker: Address, amount: i128)
    requires
        s.consistent(),
        stake_outcome(s, staker, amount) is Ok,
        s.config matches Some(c) && amount * c.reward_rate <= i128::MAX,
    ensures
        stake_outcome(s, staker, amount) matches Ok((after, _)) && unstake_outcome(after, staker, amount) matches Ok((
            back,
            transfer,
        )) && transfer.amount == amount && transfer.to == staker && staked(back.stakes, staker) == staked(s.stakes, staker),
{
    let (after, _) = stake_outcome(s, staker, amount)->Ok_0;
    let config = s.config->Some_0;
    assert(amount > 0);
    assert(reward_start(after, staker) == after.timestamp);
    assert(amount * config.reward_rate >= 0) by (nonlinear_arith)
        requires amount > 0;
    assert(amount * config.reward_rate * 0 == 0) by (nonlinear_arith);
    assert(reward_for(amount as int, config.reward_rate as int, 0) == 0);
}

/// The reward grows with every elapsed second, not only per whole year: on a
/// non-negative amount it is `amount * rate * seconds / (10_000 * 31_536_000)`,
/// rounded down, whenever that product fits in an `i128`.
pub proof fn reward_is_time_weighted(amount: i128, rate: u32, seconds: u64)
    requires
        amount >= 0,
        amount * rate <= i128::MAX,
        amount * rate * seconds <= i128::MAX,
    ensures
        reward_result(amount, rate, seconds as int) == Ok::<i128, StakingError>(
            ((amount * rate * seconds) / 315_360_000_000int) as i128,
        ),
        0 <= (amount * rate * seconds) / 315_360_000_000int <= amount * rate * seconds,
{
    assert(amount * rate >= 0) by (nonlinear_arith)
        requires amount >= 0, rate >= 0;
    assert(amount * rate * seconds >= 0) by (nonlinear_arith)
        requires amount * rate >= 0, seconds >= 0;
    let p = amount * rate * seconds;
    assert(p / 315_360_000_000int <= p) by (nonlinear_arith)
        requires p >= 0;
}

/// Staking `amount` at one ledger time and unstaking it `seconds` later pays
/// the amount back with `amount * rate * seconds / (10_000 * 31_536_000)`
/// on top, rounded down, whenever the arithmetic fits in an `i128`.
pub proof fn unstake_pays_the_time_weighted_reward(s: StakingView, staker: Address, amount: i128, seconds: u64)
    requires
        s.consistent(),
        stake_outcome(s, staker, amount) is Ok,
        s.timestamp + seconds <= u64::MAX,
        s.config matches Some(c) && {
            &&& amount * c.reward_rate <= i128::MAX
            &&& amount * c.reward_rate * seconds <= i128::MAX
            &&& amount + (amount * c.reward_rate * seconds) / 315_360_000_000int <= i128::MAX
        },
    ensures
        stake_outcome(s, staker, amount) matches Ok((after, _)) && {
            let later = StakingView { timestamp: (s.timestamp + seconds) as u64, ..after };
            let c = s.config->Some_0;
            unstake_outcome(later, staker, amount) matches Ok((back, transfer))
                && transfer.amount == amount + (amount * c.reward_rate * seconds) / 315_360_000_000int
                && transfer.to == staker
                && transfer.token == c.token
                && staked(back.stakes, staker) == staked(s.stakes, staker)
        },
{
    let (after, _) = stake_outcome(s, staker, amount)->Ok_0;
    let c = s.config->Some_0;
    let later = StakingView { timestamp: (s.timestamp + seconds) as u64, ..after };
    assert(amount > 0);
    assert(reward_start(later, staker) == s.timestamp);
    assert(elapsed(later.timestamp, s.timestamp) == seconds);
    reward_is_time_weighted(amount, c.reward_rate, seconds);
}

/// Checks an initialization: refused once initialised, and for a reward
/// rate or minimum stake that is not above zero.
pub fn check_initialize(initialized: bool, reward_rate: u32, min_stake: i128) -> (r: Result<(), StakingError>)
    ensures
        r == (if initialized {
            Err(StakingError::AlreadyInitialized)
        } else if reward_rate == 0 {
            Err(StakingError::InvalidRewardRate)
        } else if min_stake <= 0 {
            Err(StakingError::InvalidMinStake)
        } else {
            Ok(())
        }),
{
    if initialized {
        return Err(StakingError::AlreadyInitialized);
    }
    if reward_rate == 0 {
        return Err(StakingError::InvalidRewardRate);
    }
    if min_stake <= 0 {
        return Err(StakingError::InvalidMinStake);
    }
    Ok(())
}

/// The balance after staking `amount` on top of `staked`; the amount must be
/// at least the minimum stake.
pub fn stake_total(config: &Config, staked: i128, amount: i128) -> (r: Result<i128, StakingError>)
    ensures
        r == (if amount < config.min_stake {
            Err(StakingError::BelowMinimumStake)
        } else if !(i128::MIN <= staked + amount <= i128::MAX) {
            Err(StakingError::Overflow)
        } else {
            Ok((staked + amount) as i128)
        }),
{
    if amount < config.min_stake {
        return Err(StakingError::BelowMinimumStake);
    }
    match staked.checked_add(amount) {
        Some(t) => Ok(t),
        None => Err(StakingError::Overflow),
    }
}

/// The reward, the balance left and the payout of unstaking `amount` of
/// `staked`, staked since `since`, at ledger time `now`.
pub fn unstake_amounts(config: &Config, staked: i128, since: u64, now: u64, amount: i128) -> (r: Result<(i128, i128, i128), StakingError>)
    ensures
        r == (if amount <= 0 {
            Err(StakingError::InvalidAmount)
        } else if staked < amount {
            Err(StakingError::InsufficientStake)
        } else {
            match reward_result(amount, config.reward_rate, elapsed(now, since)) {
                Err(e) => Err(e),
                Ok(reward) => if !(i128::MIN <= amount + reward <= i128::MAX) {
                    Err(StakingError::Overflow)
                } else {
                    Ok((reward, (staked - amount) as i128, (amount + reward) as i128))
                },
            }
        }),
{
    if amount <= 0 {
        return Err(StakingError::InvalidAmount);
    }
    if staked < amount {
        return Err(StakingError::InsufficientStake);
    }
    let seconds = if now >= since { now - since } else { 0 };
    let reward = reward(amount, config.reward_rate, seconds)?;
    let payout = match amount.checked_add(reward) {
        Some(p) => p,
        None => return Err(StakingError::Overflow),
    };
    Ok((reward, staked - amount, payout))
}

} // verus!
