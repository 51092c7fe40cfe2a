use stellarspend::address::{Address, AddressKind};
use stellarspend::dependencies::{DependencyBlocked, DependencyContract, DependencyError, DependencyResolved};

fn addr(n: u64) -> Address {
    Address::new(AddressKind::Account, n, 0, 0, 0)
}

#[test]
fn test_simple_dependency_flow() {
    let mut client = DependencyContract::new();

    let user = addr(1);

    // Create base transaction
    let tx1 = client.create_transaction(user, None);

    // Create dependent transaction
    let tx2 = client.create_transaction(user, Some(tx1));

    // Attempt execution of dependent first (refused)
    let result = client.execute_transaction(tx2);

    assert!(result.is_err());

    // Complete base transaction
    client.execute_transaction(tx1).unwrap();
    assert!(client.is_completed(tx1).unwrap());

    // Now execute dependent
    client.execute_transaction(tx2).unwrap();
    assert!(client.is_completed(tx2).unwrap());
}

#[test]
fn test_no_dependency_execution() {
    let mut client = DependencyContract::new();

    let user = addr(1);

    let tx = client.create_transaction(user, None);

    client.execute_transaction(tx).unwrap();

    assert!(client.is_completed(tx).unwrap());
}

#[test]
fn blocked_execution_names_the_missing_dependency() {
    let mut c = DependencyContract::new();
    let a = c.create_transaction(addr(1), None);
    let b = c.create_transaction(addr(1), Some(a));
    assert_eq!((a, b), (1, 2));
    assert_eq!(
        c.execute_transaction(b),
        Err(DependencyError::DependencyNotCompleted(DependencyBlocked { tx_id: 2, missing_dependency: 1 }))
    );
    assert_eq!(c.is_completed(b), Ok(false));
    assert_eq!(c.events().len(), 0);
}

#[test]
fn unknown_transactions_and_dependencies() {
    let mut c = DependencyContract::new();
    assert_eq!(c.execute_transaction(1), Err(DependencyError::TransactionNotFound));
    assert_eq!(c.is_completed(0), Err(DependencyError::TransactionNotFound));
    let t = c.create_transaction(addr(1), Some(42));
    assert_eq!(c.execute_transaction(t), Err(DependencyError::DependencyNotFound));
}

#[test]
fn executing_twice_publishes_once() {
    let mut c = DependencyContract::new();
    let t = c.create_transaction(addr(1), None);
    c.execute_transaction(t).unwrap();
    c.execute_transaction(t).unwrap();
    assert_eq!(c.events().len(), 1);
    assert_eq!(c.events()[0], DependencyResolved { tx_id: t });
}
