use stellarspend::address::{Address, AddressKind};
use stellarspend::memo::{validate_memo, MemoContract, MemoError};

fn addr(n: u64) -> Address {
    Address::new(AddressKind::Account, n, 0, 0, 0)
}

fn setup_env() -> MemoContract {
    let mut c = MemoContract::new();
    c.set_ledger_timestamp(1_700_000_000);
    c
}

fn deploy() -> (MemoContract, Address) {
    (setup_env(), addr(1))
}

fn tx_id(s: &str) -> Vec<u8> {
    s.as_bytes().to_vec()
}

fn text(s: &str) -> Vec<u8> {
    s.as_bytes().to_vec()
}

#[test]
fn memo_tests_test_initialize() {
    let (mut client, admin) = deploy();
    client.initialize(admin, 32_u32, 64_u32, 256_u32).unwrap();
    assert_eq!(client.get_admin(), Some(admin));
    let limits = client.get_limits().unwrap();
    assert_eq!(limits.0, 32);
    assert_eq!(limits.1, 64);
    assert_eq!(limits.2, 256);
}

#[test]
fn memo_tests_test_double_initialize_fails() {
    let (mut client, admin) = deploy();
    client.initialize(admin, 32_u32, 64_u32, 256_u32).unwrap();
    let r = client.initialize(admin, 16_u32, 32_u32, 128_u32);
    assert_eq!(r, Err(MemoError::MalformedMetadata));
    assert_eq!(r.unwrap_err().code(), 7);
}

#[test]
fn test_initialize_zero_memo_type_len_fails() {
    let (mut client, admin) = deploy();
    let r = client.initialize(admin, 0_u32, 64_u32, 256_u32);
    assert_eq!(r.unwrap_err().code(), 7);
}

#[test]
fn test_initialize_excessive_limits_fail() {
    let (mut client, admin) = deploy();
    let r = client.initialize(admin, 100_u32, 64_u32, 256_u32);
    assert_eq!(r, Err(MemoError::MemoTooLarge));
    assert_eq!(r.unwrap_err().code(), 6);
}

#[test]
fn test_set_and_get_memo() {
    let (mut client, admin) = deploy();
    client.initialize(admin, 32_u32, 64_u32, 256_u32).unwrap();
    let id = tx_id("tx-1");
    let memo_type = text("payment");
    let reference = text("ref-123");
    let body = text("Payment for services");
    client.set_memo(admin, id.clone(), memo_type.clone(), reference.clone(), body.clone()).unwrap();
    let memo = client.get_memo(id).unwrap();
    assert_eq!(memo.memo_type, memo_type);
    assert_eq!(memo.reference, reference);
    assert_eq!(memo.text, body);
    assert_eq!(memo.created_at, 1_700_000_000);
}

#[test]
fn test_set_memo_empty_type_fails() {
    let (mut client, admin) = deploy();
    client.initialize(admin, 32_u32, 64_u32, 256_u32).unwrap();
    let r = client.set_memo(admin, tx_id("tx-2"), text(""), text(""), text("Some text"));
    assert_eq!(r, Err(MemoError::InvalidMemoType));
    assert_eq!(r.unwrap_err().code(), 3);
}

#[test]
fn test_set_memo_empty_text_fails() {
    let (mut client, admin) = deploy();
    client.initialize(admin, 32_u32, 64_u32, 256_u32).unwrap();
    let r = client.set_memo(admin, tx_id("tx-3"), text("note"), text(""), text(""));
    assert_eq!(r, Err(MemoError::InvalidText));
    assert_eq!(r.unwrap_err().code(), 5);
}

#[test]
fn test_set_memo_unauthorized() {
    let (mut client, admin) = deploy();
    client.initialize(admin, 32_u32, 64_u32, 256_u32).unwrap();
    let other = addr(2);
    let r = client.set_memo(other, tx_id("tx-4"), text("payment"), text(""), text("Text"));
    assert_eq!(r, Err(MemoError::Unauthorized));
    assert_eq!(r.unwrap_err().code(), 2);
}

#[test]
fn test_get_memo_none_for_unknown_tx() {
    let (mut client, admin) = deploy();
    client.initialize(admin, 32_u32, 64_u32, 256_u32).unwrap();
    assert!(client.get_memo(tx_id("nonexistent")).is_none());
}

#[test]
fn test_memo_respects_configured_limits() {
    let (mut client, admin) = deploy();
    client.initialize(admin, 8_u32, 4_u32, 16_u32).unwrap();
    let id = tx_id("tx-5");
    client.set_memo(admin, id.clone(), text("refund"), text("r1"), text("Refund issued")).unwrap();
    let memo = client.get_memo(id).unwrap();
    assert_eq!(memo.text, text("Refund issued"));
}

#[test]
fn test_memo_text_over_limit_fails() {
    let (mut client, admin) = deploy();
    client.initialize(admin, 32_u32, 64_u32, 10_u32).unwrap();
    let r = client.set_memo(admin, tx_id("tx-6"), text("x"), text(""), text("way too long text"));
    assert_eq!(r, Err(MemoError::MemoTooLarge));
}

#[test]
fn memo_limits_each_part_and_the_total() {
    let l = (64, 128, 1024);
    let long = |n: usize| vec![b'a'; n];
    assert_eq!(validate_memo(l, &long(64), &long(128), &long(128)), Ok(()));
    assert_eq!(validate_memo(l, &long(64), &long(128), &long(129)), Err(MemoError::MemoTooLarge));
    assert_eq!(validate_memo(l, &long(65), &long(0), &long(1)), Err(MemoError::MemoTooLarge));
    assert_eq!(validate_memo(l, &long(1), &long(129), &long(1)), Err(MemoError::InvalidReference));
    assert_eq!(validate_memo((32, 64, 256), &long(1), &long(64), &long(255)), Ok(()));
    assert_eq!(validate_memo((32, 64, 256), &long(1), &long(64), &long(256)), Err(MemoError::MemoTooLarge));
}

#[test]
fn memo_before_initialization_is_refused() {
    let mut c = setup_env();
    let r = c.set_memo(addr(1), tx_id("t"), text("a"), text(""), text("b"));
    assert_eq!(r, Err(MemoError::NotInitialized));
    assert!(c.get_limits().is_none());
}

#[test]
fn memo_store_replaces_and_publishes() {
    let (mut c, admin) = deploy();
    c.initialize(admin, 32, 64, 256).unwrap();
    c.set_memo(admin, tx_id("t"), text("a"), text(""), text("first")).unwrap();
    c.set_memo(admin, tx_id("t"), text("a"), text(""), text("second")).unwrap();
    assert_eq!(c.get_memo(tx_id("t")).unwrap().text, text("second"));
    assert_eq!(c.events().len(), 3);
    assert_eq!(c.events()[2].topics(), ("memo", "stored"));
}
