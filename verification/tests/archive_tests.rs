use stellarspend::address::{Address, AddressKind};
use stellarspend::archive::{ArchiveContract, ArchiveError};
use stellarspend::history::{TransactionRecord, TransactionStatus, TransactionType, U256};

fn addr(n: u64) -> Address {
    Address::new(AddressKind::Account, n, 0, 0, 0)
}

fn setup_archive_contract() -> (Address, ArchiveContract) {
    let mut c = ArchiveContract::new();
    let admin = addr(1);
    c.initialize(admin, 86400).unwrap(); // 1 day threshold
    (admin, c)
}

fn record(i: u32, timestamp: u64) -> TransactionRecord {
    TransactionRecord {
        id: U256::from_u32(i),
        from: addr(2),
        to: addr(3),
        amount: 100,
        timestamp,
        description: b"Test".to_vec(),
        transaction_type: TransactionType::Payment,
        block_number: 1,
        status: TransactionStatus::Completed,
    }
}

#[test]
fn test_archive_initialization() {
    let (admin, mut client) = setup_archive_contract();

    client.set_threshold(admin, 10000).unwrap();
}

#[test]
fn test_archive_records_success() {
    let (admin, mut client) = setup_archive_contract();

    // Threshold 1 so the cutoff is 0 (the ledger timestamp is 0): 0 saturating_sub 1 = 0
    client.set_threshold(admin, 1).unwrap();

    let mut records = Vec::new();
    for i in 1..=5 {
        records.push(record(i, 0));
    }

    let batch_id = client.archive_records(admin, records).unwrap();
    assert_eq!(batch_id, 1);

    let batch = client.get_archive_batch(batch_id).expect("batch should exist");
    assert_eq!(batch.batch_id, 1);
    assert_eq!(batch.records.len(), 5);

    // Check events
    let archived_events = client.events().iter().filter(|e| e.topics().1 == "batched").count();
    assert_eq!(archived_events, 1);
}

#[test]
fn test_archive_records_too_new() {
    let (admin, mut client) = setup_archive_contract();

    client.set_threshold(admin, 100).unwrap();

    // The ledger timestamp is 0, so the cutoff is 0; a record at 100 is too new.
    let records = vec![record(1, 100)];

    let r = client.archive_records(admin, records);
    assert_eq!(r, Err(ArchiveError::NoRecordsToArchive));
}

#[test]
fn archive_keeps_only_old_enough_records() {
    let (admin, mut c) = setup_archive_contract();
    c.set_ledger_timestamp(100_000);
    // cutoff = 100_000 - 86_400 = 13_600
    let records = vec![record(1, 13_600), record(2, 13_601), record(3, 50), record(4, 99_999)];
    let id = c.archive_records(admin, records).unwrap();
    let batch = c.get_archive_batch(id).unwrap();
    assert_eq!(batch.records.len(), 2);
    assert_eq!(batch.start_time, 50);
    assert_eq!(batch.end_time, 13_600);
    assert_eq!(batch.records[0].id, U256::from_u32(1));
    assert_eq!(batch.records[1].description, b"Test".to_vec());
}

#[test]
fn archive_batches_are_numbered_in_order() {
    let (admin, mut c) = setup_archive_contract();
    c.set_ledger_timestamp(200_000);
    assert_eq!(c.archive_records(admin, vec![record(1, 0)]).unwrap(), 1);
    assert_eq!(c.archive_records(admin, vec![record(2, 1)]).unwrap(), 2);
    assert!(c.get_archive_batch(0).is_none());
    assert!(c.get_archive_batch(3).is_none());
    assert_eq!(c.get_archive_batch(2).unwrap().start_time, 1);
}

#[test]
fn archive_refusals() {
    let mut fresh = ArchiveContract::new();
    assert_eq!(fresh.set_threshold(addr(1), 5), Err(ArchiveError::NotInitialized));
    let (admin, mut c) = setup_archive_contract();
    assert_eq!(c.initialize(admin, 5), Err(ArchiveError::AlreadyInitialized));
    assert_eq!(c.set_threshold(addr(9), 5), Err(ArchiveError::Unauthorized));
    assert_eq!(c.set_threshold(admin, 0), Err(ArchiveError::InvalidThreshold));
    assert_eq!(c.archive_records(admin, vec![]), Err(ArchiveError::NoRecordsToArchive));
    assert_eq!(ArchiveError::InvalidThreshold.code(), 5);
}
