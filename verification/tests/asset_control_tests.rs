use stellarspend::address::{Address, AddressKind};
use stellarspend::asset_control::{AssetControlContract, AssetControlError, AssetEvent};

fn addr(n: u64) -> Address {
    Address::new(AddressKind::Contract, n, 0, 0, 0)
}

fn setup_test_contract() -> (Address, AssetControlContract) {
    let mut c = AssetControlContract::new();
    let admin = Address::new(AddressKind::Account, 1, 0, 0, 0);
    c.initialize(admin).unwrap();
    (admin, c)
}

#[test]
fn asset_control_tests_test_initialize() {
    let (_admin, client) = setup_test_contract();
    assert_eq!(client.is_blacklisted(addr(7)), false);
}

#[test]
fn test_add_to_blacklist() {
    let (admin, mut client) = setup_test_contract();

    let asset = addr(2);
    client.add_to_blacklist(admin, asset).unwrap();

    assert_eq!(client.is_blacklisted(asset), true);

    // Check event
    let events = client.events();
    assert_eq!(events.len(), 2); // init and add
    assert_eq!(events[1].topics(), ("asset", "blacklist"));
}

#[test]
fn test_add_already_blacklisted() {
    let (admin, mut client) = setup_test_contract();

    let asset = addr(2);
    client.add_to_blacklist(admin, asset).unwrap();

    let result = client.add_to_blacklist(admin, asset);
    assert_eq!(result, Err(AssetControlError::AlreadyBlacklisted));
}

#[test]
fn test_remove_from_blacklist() {
    let (admin, mut client) = setup_test_contract();

    let asset = addr(2);
    client.add_to_blacklist(admin, asset).unwrap();
    assert_eq!(client.is_blacklisted(asset), true);

    client.remove_from_blacklist(admin, asset).unwrap();
    assert_eq!(client.is_blacklisted(asset), false);

    // Check event
    let events = client.events();
    assert_eq!(events.len(), 3); // init, add, remove
    assert_eq!(events[2].topics(), ("asset", "unblacklist"));
}

#[test]
fn test_remove_not_blacklisted() {
    let (admin, mut client) = setup_test_contract();

    let asset = addr(2);
    let result = client.remove_from_blacklist(admin, asset);
    assert_eq!(result, Err(AssetControlError::NotBlacklisted));
}

#[test]
fn test_check_asset_not_blacklisted() {
    let (_admin, mut client) = setup_test_contract();

    let asset = addr(2);
    assert_eq!(client.check_asset(asset), Ok(())); // passes
}

#[test]
fn test_check_asset_blacklisted() {
    let (admin, mut client) = setup_test_contract();

    let asset = addr(2);
    client.add_to_blacklist(admin, asset).unwrap();

    let result = client.check_asset(asset);
    assert_eq!(result, Err(AssetControlError::Unauthorized));

    // Check event
    let events = client.events();
    assert_eq!(events.last().unwrap().topics(), ("asset", "blocked"));
    assert_eq!(*events.last().unwrap(), AssetEvent::Blocked { asset });
}

#[test]
fn test_unauthorized_add() {
    let (_admin, mut client) = setup_test_contract();

    let unauthorized = addr(9);
    let asset = addr(2);

    let result = client.add_to_blacklist(unauthorized, asset);
    assert_eq!(result, Err(AssetControlError::Unauthorized));
    assert!(!client.is_blacklisted(asset));
}

#[test]
fn asset_control_refusals() {
    let mut fresh = AssetControlContract::new();
    assert_eq!(fresh.add_to_blacklist(addr(1), addr(2)), Err(AssetControlError::NotInitialized));
    let (admin, mut c) = setup_test_contract();
    assert_eq!(c.initialize(admin), Err(AssetControlError::AlreadyInitialized));
    assert_eq!(c.remove_from_blacklist(addr(9), addr(2)), Err(AssetControlError::Unauthorized));
    assert_eq!(AssetControlError::AlreadyInitialized.code(), 5);
}

#[test]
fn blacklisting_one_asset_leaves_others() {
    let (admin, mut c) = setup_test_contract();
    c.add_to_blacklist(admin, addr(2)).unwrap();
    c.add_to_blacklist(admin, addr(3)).unwrap();
    c.remove_from_blacklist(admin, addr(2)).unwrap();
    assert!(!c.is_blacklisted(addr(2)));
    assert!(c.is_blacklisted(addr(3)));
}

#[test]
fn listed_assets_stay_blacklisted_through_other_changes() {
    let (admin, mut client) = setup_test_contract();
    client.add_to_blacklist(admin, addr(2)).unwrap();
    client.add_to_blacklist(admin, addr(3)).unwrap();
    client.remove_from_blacklist(admin, addr(2)).unwrap();
    assert!(!client.is_blacklisted(addr(2)));
    assert!(client.is_blacklisted(addr(3)));
    assert_eq!(client.check_asset(addr(3)), Err(AssetControlError::Unauthorized));
    assert_eq!(client.check_asset(addr(2)), Ok(()));
}
