//! The dependency contract: transactions that may wait on an earlier one
//! and complete only once it has completed.

use vstd::prelude::*;
use crate::address::Address;

verus! {

/// A transaction, the transaction it depends on, if any, and whether it has completed.
#[derive(Clone, Copy, Debug, PartialEq, Eq, Structural)]
pub struct Transaction {
    pub id: u64,
    pub creator: Address,
    pub dependency: Option<u64>,
    pub completed: bool,
}

/// Published when a transaction waits on a dependency that has not completed.
#[derive(Clone, Copy, Debug, PartialEq, Eq, Structural)]
pub struct DependencyBlocked {
    pub tx_id: u64,
    pub missing_dependency: u64,
}

/// Published when a transaction completes.
#[derive(Clone, Copy, Debug, PartialEq, Eq, Structural)]
pub struct DependencyResolved {
    pub tx_id: u64,
}

/// Why the dependency contract rejects a call.
#[derive(Clone, Copy, Debug, PartialEq, Eq, Structural)]
pub enum DependencyError {
    /// No transaction has the id.
    TransactionNotFound,
    /// The transaction depends on an id that no transaction has.
    DependencyNotFound,
    /// The dependency has not completed yet.
    DependencyNotCompleted(DependencyBlocked),
}

/// What the dependency contract holds, as mathematical values: transaction
/// `k` at position `k - 1`.
pub struct DependencyView {
    pub transactions: Seq<Transaction>,
    pub events: Seq<DependencyResolved>,
}

/// The transaction with id `id`, if there is one.
pub open spec fn lookup(transactions: Seq<Transaction>, id: u64) -> Option<Transaction> {
    if 1 <= id <= transactions.len() { Some(transactions[id - 1]) } else { None }
}

impl DependencyView {
    /// Ids are consecutive from 1, and a completed transaction's dependency
    /// exists and has completed.
    pub open spec fn consistent(&self) -> bool {
        &&& self.transactions.len() <= u64::MAX
        &&& forall|i: int| 0 <= i < self.transactions.len() ==> (#[trigger] self.transactions[i]).id == i + 1
        &&& forall|i: int| 0 <= i < self.transactions.len() && (#[trigger] self.transactions[i]).completed
            ==> match self.transactions[i].dependency {
                None => true,
                Some(d) => lookup(self.transactions, d) matches Some(t) && t.completed,
            }
    }
}

/// The contract after `execute_transaction`, or the error it answers.
pub open spec fn execute_outcome(s: DependencyView, tx_id: u64) -> Result<DependencyView, DependencyError> {
    match lookup(s.transactions, tx_id) {
        None => Err(DependencyError::TransactionNotFound),
        Some(tx) => if tx.completed {
            Ok(s)
        } else {
            match tx.dependency {
                Some(d) => match lookup(s.transactions, d) {
                    None => Err(DependencyError::DependencyNotFound),
                    Some(dep) => if !dep.completed {
                        Err(DependencyError::DependencyNotCompleted(DependencyBlocked { tx_id, missing_dependency: d }))
                    } else {
                        Ok(DependencyView {
                            transactions: s.transactions.update(tx_id - 1, Transaction { completed: true, ..tx }),
                            events: s.events.push(DependencyResolved { tx_id }),
                        })
                    },
                },
                None => Ok(DependencyView {
                    transactions: s.transactions.update(tx_id - 1, Transaction { completed: true, ..tx }),
                    events: s.events.push(DependencyResolved { tx_id }),
                }),
            }
        },
    }
}

/// The dependency contract: its storage and the events it has published.
pub struct DependencyContract {
    transactions: Vec<Transaction>,
    events: Vec<DependencyResolved>,
}

impl View for DependencyContract {
    type V = DependencyView;

    closed spec fn view(&self) -> DependencyView {
        DependencyView { transactions: self.transactions@, events: self.events@ }
    }
}

impl DependencyContract {
    pub closed spec fn wf(&self) -> bool {
        self@.consistent()
    }

    /// A freshly deployed contract: no transactions.
    pub fn new() -> (c: DependencyContract)
        ensures
            c.wf(),
            c@ == (DependencyView { transactions: Seq::empty(), events: Seq::empty() }),
    {
        DependencyContract { transactions: Vec::new(), events: Vec::new() }
    }

    /// The events published so far, oldest first.
    pub fn events(&self) -> (r: &Vec<DependencyResolved>)
        ensures
            r@ == self@.events,
    {
        &self.events
    }

    /// Records a new, not yet completed transaction that depends on
    /// `dependency`, if given; answers its id, one more than the last.
    pub fn create_transaction(&mut self, creator: Address, dependency: Option<u64>) -> (id: u64)
        requires
            old(self).wf(),
            old(self)@.transactions.len() < u64::MAX,
        ensures
            final(self).wf(),
            id == old(self)@.transactions.len() + 1,
            final(self)@ == (DependencyView {
                transactions: old(self)@.transactions.push(Transaction { id, creator, dependency, completed: false }),
                ..old(self)@
            }),
    {
        let id = self.transactions.len() as u64 + 1;
        self.transactions.push(Transaction { id, creator, dependency, completed: false });
        proof {
            let ts = self@.transactions;
            assert forall|i: int| 0 <= i < ts.len() && (#[trigger] ts[i]).completed implies match ts[i].dependency {
                None => true,
                Some(d) => lookup(ts, d) matches Some(t) && t.completed,
            } by {
                assert(ts[i] == old(self)@.transactions[i]);
                if let Some(d) = ts[i].dependency {
                    assert(lookup(old(self)@.transactions, d) is Some);
                    assert(ts[d - 1] == old(self)@.transactions[d - 1]);
                }
            }
        }
        id
    }

    /// Completes transaction `tx_id` once its dependency, if any, has
    /// completed; a completed transaction is left as it is.
    pub fn execute_transaction(&mut self, tx_id: u64) -> (r: Result<(), DependencyError>)
        requires
            old(self).wf(),
        ensures
            final(self).wf(),
            match execute_outcome(old(self)@, tx_id) {
                Ok(v) => r is Ok && final(self)@ == v,
                Err(e) => r == Err::<(), DependencyError>(e) && final(self)@ == old(self)@,
            },
    {
        if tx_id == 0 || tx_id > self.transactions.len() as u64 {
            return Err(DependencyError::TransactionNotFound);
        }
        let idx = (tx_id - 1) as usize;
        let tx = self.transactions[idx];
        if tx.completed {
            return Ok(());
        }
        if let Some(dep_id) = tx.dependency {
            let dep = if dep_id == 0 || dep_id > self.transactions.len() as u64 {
                None
            } else {
                Some(self.transactions[(dep_id - 1) as usize])
            };
            check_dependency(tx_id, &tx, dep)?;
        }
        let ghost before = self@.transactions;
        self.transactions.set(idx, Transaction { completed: true, ..tx });
        proof {
            let ts = self@.transactions;
            assert forall|i: int| 0 <= i < ts.len() && (#[trigger] ts[i]).completed implies match ts[i].dependency {
                None => true,
                Some(d) => lookup(ts, d) matches Some(t) && t.completed,
            } by {
                if i != idx {
                    assert(ts[i] == before[i]);
                    if let Some(d) = ts[i].dependency {
                        assert(lookup(before, d) is Some);
                    }
                }
            }
        }
        self.events.push(DependencyResolved { tx_id });
        Ok(())
    }

    /// Whether transaction `tx_id` has completed.
    pub fn is_completed(&self, tx_id: u64) -> (r: Result<bool, DependencyError>)
        ensures
            match lookup(self@.transactions, tx_id) {
                Some(t) => r == Ok::<bool, DependencyError>(t.completed),
                None => r == Err::<bool, DependencyError>(DependencyError::TransactionNotFound),
            },
    {
        if tx_id == 0 || tx_id > self.transactions.len() as u64 {
            return Err(DependencyError::TransactionNotFound);
        }
        Ok(self.transactions[(tx_id - 1) as usize].completed)
    }
}

/// In every state the contract reaches, a completed transaction's
/// dependency exists and has completed.
pub proof fn completed_transactions_have_completed_dependencies(c: &DependencyContract)
    requires
        c.wf(),
    ensures
        c@.consistent(),
{
}

/// Decides whether transaction `tx_id`, that is `tx`, may complete, given the
/// transaction found under the id it depends on, if any.
pub fn check_dependency(tx_id: u64, tx: &Transaction, dependency: Option<Transaction>) -> (r: Result<(), DependencyError>)
    ensures
        r == (match tx.dependency {
            None => Ok(()),
            Some(d) => match dependency {
                None => Err(DependencyError::DependencyNotFound),
                Some(dep) => if !dep.completed {
                    Err(DependencyError::DependencyNotCompleted(DependencyBlocked { tx_id, missing_dependency: d }))
                } else {
                    Ok(())
                },
            },
        }),
{
    match tx.dependency {
        None => Ok(()),
        Some(d) => match dependency {
            None => Err(DependencyError::DependencyNotFound),
            Some(dep) => if !dep.completed {
                Err(DependencyError::DependencyNotCompleted(DependencyBlocked { tx_id, missing_dependency: d }))
            } else {
                Ok(())
            },
        },
    }
}

} // verus!
