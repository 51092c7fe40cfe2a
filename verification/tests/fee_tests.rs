use stellarspend::address::{Address, AddressKind};
use stellarspend::fees::{
    check_distribution, check_fee_bounds, deduction, fee_for_amount, recipient_share, refund_amounts, FeeError,
    FeeEvent, FeeRecipient, FeesContract,
};

fn addr(n: u64) -> Address {
    Address::new(AddressKind::Account, n, 0, 0, 0)
}

fn setup_fee_contract() -> (Address, FeesContract) {
    let mut contract = FeesContract::new();
    let admin = addr(1);
    // initialize with 500 bps (5%)
    contract.initialize(admin, 500u32).unwrap();
    (admin, contract)
}

fn has_event(c: &FeesContract, second: &str) -> bool {
    c.events().iter().any(|e| e.topics().0 == "fee" && e.topics().1 == second)
}

fn recipient(address: Address, share_bps: u32) -> FeeRecipient {
    FeeRecipient { address, share_bps }
}

#[test]
fn test_initialization_and_get() {
    let (_admin, client) = setup_fee_contract();
    assert_eq!(client.get_percentage(), 500u32);
    assert_eq!(client.get_total_collected(), 0i128);
}

#[test]
fn test_set_percentage_unauthorized() {
    let (_admin, mut client) = setup_fee_contract();
    let other = addr(2);
    // fails because other is not admin
    let result = client.set_percentage(other, 100u32);
    assert!(result.is_err());
}

#[test]
fn test_calculate_and_deduct_fee() {
    let (_admin, mut client) = setup_fee_contract();
    let payer = addr(2);
    let amount: i128 = 1_000;
    // fee = 1_000 * 500 / 10_000 = 50
    let fee = client.calculate_fee(amount).unwrap();
    assert_eq!(fee, 50);

    let (net, charged) = client.deduct_fee(payer, amount).unwrap();
    assert_eq!(charged, 50);
    assert_eq!(net, 950);

    // total collected should update
    assert_eq!(client.get_total_collected(), 50);

    // event emitted
    assert!(has_event(&client, "deducted"));
}

#[test]
fn test_total_collected_accumulates() {
    let (_admin, mut client) = setup_fee_contract();
    let payer = addr(2);
    client.deduct_fee(payer, 200).unwrap();
    client.deduct_fee(payer, 800).unwrap();
    // 200*5% =10, 800*5%=40 => total 50
    assert_eq!(client.get_total_collected(), 50);
}

#[test]
fn test_invalid_amount_errors() {
    let (_admin, client) = setup_fee_contract();
    let err = client.calculate_fee(0);
    assert!(err.is_err());
}

#[test]
fn test_update_configuration_emits_event() {
    let (admin, mut client) = setup_fee_contract();
    client.set_percentage(admin, 250u32).unwrap(); // 2.5%
    assert!(has_event(&client, "config_updated"));
    assert_eq!(client.get_percentage(), 250u32);
}

#[test]
fn test_user_fees_accrued_initialization() {
    let (_admin, client) = setup_fee_contract();
    let user = addr(2);
    // User with no fees should return 0
    assert_eq!(client.get_user_fees_accrued(user), 0);
}

#[test]
fn test_user_fees_accrued_single_transaction() {
    let (_admin, mut client) = setup_fee_contract();
    let user = addr(2);
    let amount: i128 = 1_000;

    // fee = 1_000 * 500 / 10_000 = 50
    let (_net, fee) = client.deduct_fee(user, amount).unwrap();
    assert_eq!(fee, 50);

    // User's accumulated fees should be 50
    assert_eq!(client.get_user_fees_accrued(user), 50);
}

#[test]
fn test_user_fees_accrued_multiple_transactions() {
    let (_admin, mut client) = setup_fee_contract();
    let user = addr(2);

    // First transaction: 1_000, fee = 50
    let (_net1, fee1) = client.deduct_fee(user, 1_000).unwrap();
    assert_eq!(fee1, 50);
    assert_eq!(client.get_user_fees_accrued(user), 50);

    // Second transaction: 800, fee = 40
    let (_net2, fee2) = client.deduct_fee(user, 800).unwrap();
    assert_eq!(fee2, 40);
    assert_eq!(client.get_user_fees_accrued(user), 90);

    // Third transaction: 2_000, fee = 100
    let (_net3, fee3) = client.deduct_fee(user, 2_000).unwrap();
    assert_eq!(fee3, 100);
    assert_eq!(client.get_user_fees_accrued(user), 190);
}

#[test]
fn test_user_fees_accrued_multiple_users() {
    let (_admin, mut client) = setup_fee_contract();
    let user1 = addr(2);
    let user2 = addr(3);
    let user3 = addr(4);

    // User1 transactions
    client.deduct_fee(user1, 1_000).unwrap(); // fee = 50
    client.deduct_fee(user1, 2_000).unwrap(); // fee = 100

    // User2 transactions
    client.deduct_fee(user2, 500).unwrap(); // fee = 25

    // User3 transactions
    client.deduct_fee(user3, 10_000).unwrap(); // fee = 500
    client.deduct_fee(user3, 200).unwrap(); // fee = 10

    // Verify each user's totals independently
    assert_eq!(client.get_user_fees_accrued(user1), 150);
    assert_eq!(client.get_user_fees_accrued(user2), 25);
    assert_eq!(client.get_user_fees_accrued(user3), 510);

    // Total global fees should be 150 + 25 + 510 = 685
    assert_eq!(client.get_total_collected(), 685);
}

#[test]
fn test_user_fees_accrued_fee_percentage_change() {
    let (admin, mut client) = setup_fee_contract();
    let user = addr(2);

    // Initial fee percentage: 500 bps (5%)
    client.deduct_fee(user, 1_000).unwrap(); // fee = 50
    assert_eq!(client.get_user_fees_accrued(user), 50);

    // Change fee percentage to 1000 bps (10%)
    client.set_percentage(admin, 1_000u32).unwrap();

    // New transaction with higher fee
    client.deduct_fee(user, 1_000).unwrap(); // fee = 100

    // User's accumulated fees should now be 50 + 100 = 150
    assert_eq!(client.get_user_fees_accrued(user), 150);
    assert_eq!(client.get_total_collected(), 150);
}

#[test]
fn test_user_fees_accrued_large_amounts() {
    let (_admin, mut client) = setup_fee_contract();
    let user = addr(2);
    let large_amount: i128 = 100_000_000_000i128;

    // fee = 100_000_000_000 * 500 / 10_000 = 5_000_000_000
    let (_net, fee) = client.deduct_fee(user, large_amount).unwrap();
    assert_eq!(fee, 5_000_000_000);
    assert_eq!(client.get_user_fees_accrued(user), 5_000_000_000);
}

#[test]
fn test_refund_fee_successful() {
    let (admin, mut client) = setup_fee_contract();
    let user = addr(2);

    // User pays 1_000, fee = 50
    client.deduct_fee(user, 1_000).unwrap();
    assert_eq!(client.get_user_fees_accrued(user), 50);
    assert_eq!(client.get_total_collected(), 50);

    // Admin refunds 30 out of 50
    let refunded = client.refund_fee(admin, user, 30, "transaction_failed").unwrap();
    assert_eq!(refunded, 30);

    // User fee should be reduced to 20
    assert_eq!(client.get_user_fees_accrued(user), 20);
    assert_eq!(client.get_total_collected(), 20);
}

#[test]
fn test_refund_fee_full_refund() {
    let (admin, mut client) = setup_fee_contract();
    let user = addr(2);

    // User pays 1_000, fee = 50
    client.deduct_fee(user, 1_000).unwrap();
    assert_eq!(client.get_user_fees_accrued(user), 50);
    assert_eq!(client.get_total_collected(), 50);

    // Admin refunds entire fee
    let refunded = client.refund_fee(admin, user, 50, "transaction_reversed").unwrap();
    assert_eq!(refunded, 50);

    // User fee should be 0
    assert_eq!(client.get_user_fees_accrued(user), 0);
    assert_eq!(client.get_total_collected(), 0);
}

#[test]
fn test_refund_fee_invalid_amount_zero() {
    let (admin, mut client) = setup_fee_contract();
    let user = addr(2);

    // User pays 1_000, fee = 50
    client.deduct_fee(user, 1_000).unwrap();

    // Refused: zero refund amount
    let result = client.refund_fee(admin, user, 0, "invalid");
    assert!(result.is_err());
}

#[test]
fn test_refund_fee_invalid_amount_negative() {
    let (admin, mut client) = setup_fee_contract();
    let user = addr(2);

    // User pays 1_000, fee = 50
    client.deduct_fee(user, 1_000).unwrap();

    // Refused: negative refund amount
    let result = client.refund_fee(admin, user, -10, "invalid");
    assert!(result.is_err());
}

#[test]
fn test_refund_fee_insufficient_balance() {
    let (admin, mut client) = setup_fee_contract();
    let user = addr(2);

    // User pays 1_000, fee = 50
    client.deduct_fee(user, 1_000).unwrap();
    assert_eq!(client.get_user_fees_accrued(user), 50);

    // Refused: more than accumulated
    let result = client.refund_fee(admin, user, 100, "exceeds_balance");
    assert!(result.is_err());
}

#[test]
fn test_refund_fee_insufficient_balance_no_prior_fees() {
    let (admin, mut client) = setup_fee_contract();
    let user = addr(2);

    // User has no accumulated fees (0)
    assert_eq!(client.get_user_fees_accrued(user), 0);

    // Refused: any amount
    let result = client.refund_fee(admin, user, 10, "no_fees");
    assert!(result.is_err());
}

#[test]
fn test_refund_fee_unauthorized() {
    let (_admin, mut client) = setup_fee_contract();
    let user = addr(2);
    let attacker = addr(3);

    // User pays 1_000, fee = 50
    client.deduct_fee(user, 1_000).unwrap();

    // Refused: attacker is not admin
    let result = client.refund_fee(attacker, user, 20, "unauthorized");
    assert!(result.is_err());
}

#[test]
fn test_refund_fee_multiple_users() {
    let (admin, mut client) = setup_fee_contract();
    let user1 = addr(2);
    let user2 = addr(3);

    // User1 and User2 both pay fees
    client.deduct_fee(user1, 1_000).unwrap(); // fee = 50
    client.deduct_fee(user2, 2_000).unwrap(); // fee = 100

    assert_eq!(client.get_user_fees_accrued(user1), 50);
    assert_eq!(client.get_user_fees_accrued(user2), 100);
    assert_eq!(client.get_total_collected(), 150);

    // Admin refunds user1 partially
    client.refund_fee(admin, user1, 30, "partial_refund").unwrap();

    assert_eq!(client.get_user_fees_accrued(user1), 20);
    assert_eq!(client.get_user_fees_accrued(user2), 100);
    assert_eq!(client.get_total_collected(), 120);
}

#[test]
fn test_refund_fee_multiple_refunds_same_user() {
    let (admin, mut client) = setup_fee_contract();
    let user = addr(2);

    // User pays 1_000, fee = 50
    client.deduct_fee(user, 1_000).unwrap();
    assert_eq!(client.get_user_fees_accrued(user), 50);
    assert_eq!(client.get_total_collected(), 50);

    // First refund: 20
    client.refund_fee(admin, user, 20, "partial_refund_1").unwrap();
    assert_eq!(client.get_user_fees_accrued(user), 30);
    assert_eq!(client.get_total_collected(), 30);

    // Second refund: 15
    client.refund_fee(admin, user, 15, "partial_refund_2").unwrap();
    assert_eq!(client.get_user_fees_accrued(user), 15);
    assert_eq!(client.get_total_collected(), 15);

    // Final refund: remaining 15
    client.refund_fee(admin, user, 15, "final_refund").unwrap();
    assert_eq!(client.get_user_fees_accrued(user), 0);
    assert_eq!(client.get_total_collected(), 0);
}

#[test]
fn test_refund_fee_emits_event() {
    let (admin, mut client) = setup_fee_contract();
    let user = addr(2);

    // User pays 1_000, fee = 50
    client.deduct_fee(user, 1_000).unwrap();

    // Admin refunds 30
    client.refund_fee(admin, user, 30, "transaction_failed").unwrap();

    // Check event was emitted
    assert!(has_event(&client, "refunded"));
}

#[test]
fn test_refund_fee_with_subsequent_transactions() {
    let (admin, mut client) = setup_fee_contract();
    let user = addr(2);

    // User pays 1_000, fee = 50
    client.deduct_fee(user, 1_000).unwrap();
    assert_eq!(client.get_user_fees_accrued(user), 50);

    // Admin refunds 30
    client.refund_fee(admin, user, 30, "partial_refund").unwrap();
    assert_eq!(client.get_user_fees_accrued(user), 20);

    // User makes another transaction, fee = 50
    client.deduct_fee(user, 1_000).unwrap();
    assert_eq!(client.get_user_fees_accrued(user), 70);
    assert_eq!(client.get_total_collected(), 70);
}

#[test]
fn test_refund_fee_alternate_refund_reasons() {
    let (admin, mut client) = setup_fee_contract();
    let user = addr(2);

    // User pays 1_000, fee = 50
    client.deduct_fee(user, 1_000).unwrap();

    // Refund with different reasons for audit trail
    client.refund_fee(admin, user, 10, "failed_transaction").unwrap();
    client.refund_fee(admin, user, 15, "customer_complaint").unwrap();
    client.refund_fee(admin, user, 25, "system_error").unwrap();

    assert_eq!(client.get_user_fees_accrued(user), 0);
    assert_eq!(client.get_total_collected(), 0);
}

#[test]
fn test_get_distribution_empty_default() {
    let (_admin, client) = setup_fee_contract();
    let dist = client.get_distribution();
    assert_eq!(dist.len(), 0);
}

#[test]
fn test_set_distribution_single_recipient() {
    let (admin, mut client) = setup_fee_contract();
    let r = addr(10);

    let recipients = vec![recipient(r, 10_000)]; // 100%

    client.set_distribution(admin, recipients).unwrap();

    let dist = client.get_distribution();
    assert_eq!(dist.len(), 1);
    assert_eq!(dist[0].share_bps, 10_000);
}

#[test]
fn test_set_distribution_multiple_recipients() {
    let (admin, mut client) = setup_fee_contract();
    let recipients = vec![
        recipient(addr(10), 5_000), // 50%
        recipient(addr(11), 3_000), // 30%
        recipient(addr(12), 2_000), // 20%
    ];

    client.set_distribution(admin, recipients).unwrap();

    let dist = client.get_distribution();
    assert_eq!(dist.len(), 3);
}

#[test]
fn test_set_distribution_invalid_empty() {
    let (admin, mut client) = setup_fee_contract();
    let recipients = Vec::new();

    // Refused: empty distribution
    let result = client.set_distribution(admin, recipients);
    assert!(result.is_err());
}

#[test]
fn test_set_distribution_invalid_sum_less_than_100() {
    let (admin, mut client) = setup_fee_contract();
    let recipients = vec![
        recipient(addr(10), 5_000), // 50%
        recipient(addr(11), 3_000), // 30% => total 80%
    ];

    // Refused: total < 100%
    let result = client.set_distribution(admin, recipients);
    assert!(result.is_err());
}

#[test]
fn test_set_distribution_invalid_sum_more_than_100() {
    let (admin, mut client) = setup_fee_contract();
    let recipients = vec![
        recipient(addr(10), 6_000), // 60%
        recipient(addr(11), 5_000), // 50% => total 110%
    ];

    // Refused: total > 100%
    let result = client.set_distribution(admin, recipients);
    assert!(result.is_err());
}

#[test]
fn test_set_distribution_invalid_share_exceeds_100() {
    let (admin, mut client) = setup_fee_contract();
    let recipients = vec![recipient(addr(10), 15_000)]; // > 10_000 invalid

    // Refused: individual share > 100%
    let result = client.set_distribution(admin, recipients);
    assert!(result.is_err());
}

#[test]
fn test_set_distribution_unauthorized() {
    let (_admin, mut client) = setup_fee_contract();
    let attacker = addr(3);
    let recipients = vec![recipient(addr(10), 10_000)];

    // Refused: attacker is not admin
    let result = client.set_distribution(attacker, recipients);
    assert!(result.is_err());
}

#[test]
fn test_set_distribution_emits_event() {
    let (admin, mut client) = setup_fee_contract();
    let recipients = vec![recipient(addr(10), 10_000)];

    client.set_distribution(admin, recipients).unwrap();

    assert!(has_event(&client, "dist_cfg"));
}

#[test]
fn test_distribute_fees_no_distribution_configured() {
    let (admin, mut client) = setup_fee_contract();
    let user = addr(2);

    // Pay fees without setting distribution
    client.deduct_fee(user, 1_000).unwrap(); // fee = 50

    // Refused: distribution not configured
    let result = client.distribute_fees(admin);
    assert!(result.is_err());
}

#[test]
fn test_distribute_fees_zero_collected() {
    let (admin, mut client) = setup_fee_contract();
    let recipients = vec![recipient(addr(10), 10_000)];

    client.set_distribution(admin, recipients).unwrap();

    // No fees collected, distribution should return 0
    let distributed = client.distribute_fees(admin).unwrap();
    assert_eq!(distributed, 0);
}

#[test]
fn test_distribute_fees_single_recipient() {
    let (admin, mut client) = setup_fee_contract();
    let user = addr(2);
    let r = addr(10);

    // Set distribution
    client.set_distribution(admin, vec![recipient(r, 10_000)]).unwrap(); // 100%

    // Collect fees
    client.deduct_fee(user, 2_000).unwrap(); // fee = 100
    assert_eq!(client.get_total_collected(), 100);

    // Distribute
    let distributed = client.distribute_fees(admin).unwrap();
    assert_eq!(distributed, 100);

    // Verify recipient received all fees
    assert_eq!(client.get_recipient_fees_accumulated(r), 100);

    // Verify total fees cleared
    assert_eq!(client.get_total_collected(), 0);
}

#[test]
fn test_distribute_fees_multiple_recipients_equal_split() {
    let (admin, mut client) = setup_fee_contract();
    let user = addr(2);
    let r1 = addr(10);
    let r2 = addr(11);

    // Set distribution: 50% each
    client.set_distribution(admin, vec![recipient(r1, 5_000), recipient(r2, 5_000)]).unwrap();

    // Collect fees: 1_000 * 5% = 50
    client.deduct_fee(user, 1_000).unwrap();
    assert_eq!(client.get_total_collected(), 50);

    // Distribute
    let distributed = client.distribute_fees(admin).unwrap();
    assert_eq!(distributed, 50);

    // Verify split: 50 * 50% = 25 each
    assert_eq!(client.get_recipient_fees_accumulated(r1), 25);
    assert_eq!(client.get_recipient_fees_accumulated(r2), 25);
}

#[test]
fn test_distribute_fees_multiple_recipients_unequal_split() {
    let (admin, mut client) = setup_fee_contract();
    let user = addr(2);
    let r1 = addr(10);
    let r2 = addr(11);
    let r3 = addr(12);

    // Set distribution: 50%, 30%, 20%
    client
        .set_distribution(admin, vec![recipient(r1, 5_000), recipient(r2, 3_000), recipient(r3, 2_000)])
        .unwrap();

    // Collect fees: 1_000 * 5% = 50
    client.deduct_fee(user, 1_000).unwrap();

    // Distribute
    let distributed = client.distribute_fees(admin).unwrap();
    assert_eq!(distributed, 50);

    // recipient1: 50 * 50% = 25
    // recipient2: 50 * 30% = 15
    // recipient3: 50 * 20% = 10
    assert_eq!(client.get_recipient_fees_accumulated(r1), 25);
    assert_eq!(client.get_recipient_fees_accumulated(r2), 15);
    assert_eq!(client.get_recipient_fees_accumulated(r3), 10);
}

#[test]
fn test_distribute_fees_multiple_distributions_accumulates() {
    let (admin, mut client) = setup_fee_contract();
    let user = addr(2);
    let r = addr(10);

    // Set distribution: 100% to recipient
    client.set_distribution(admin, vec![recipient(r, 10_000)]).unwrap();

    // First fee collection and distribution
    client.deduct_fee(user, 1_000).unwrap(); // fee = 50
    client.distribute_fees(admin).unwrap();
    assert_eq!(client.get_recipient_fees_accumulated(r), 50);

    // Second fee collection and distribution
    client.deduct_fee(user, 1_000).unwrap(); // fee = 50
    client.distribute_fees(admin).unwrap();
    assert_eq!(client.get_recipient_fees_accumulated(r), 100);

    // Third fee collection and distribution
    client.deduct_fee(user, 2_000).unwrap(); // fee = 100
    client.distribute_fees(admin).unwrap();
    assert_eq!(client.get_recipient_fees_accumulated(r), 200);
}

#[test]
fn test_distribute_fees_unauthorized() {
    let (admin, mut client) = setup_fee_contract();
    let attacker = addr(3);

    client.set_distribution(admin, vec![recipient(addr(10), 10_000)]).unwrap();

    // Refused: attacker is not admin
    let result = client.distribute_fees(attacker);
    assert!(result.is_err());
}

#[test]
fn test_distribute_fees_emits_event() {
    let (admin, mut client) = setup_fee_contract();
    let user = addr(2);

    client.set_distribution(admin, vec![recipient(addr(10), 10_000)]).unwrap();

    client.deduct_fee(user, 1_000).unwrap();
    client.distribute_fees(admin).unwrap();

    assert!(has_event(&client, "distributed"));
}

#[test]
fn test_get_recipient_fees_accumulated_zero_default() {
    let (_admin, client) = setup_fee_contract();
    // Recipient with no distributions should return 0
    assert_eq!(client.get_recipient_fees_accumulated(addr(10)), 0);
}

#[test]
fn test_distribution_with_refunds_before_distribution() {
    let (admin, mut client) = setup_fee_contract();
    let user = addr(2);
    let r = addr(10);

    // Set distribution
    client.set_distribution(admin, vec![recipient(r, 10_000)]).unwrap();

    // Collect fees: fee = 50
    client.deduct_fee(user, 1_000).unwrap();
    assert_eq!(client.get_total_collected(), 50);

    // Refund partial fee: 20
    client.refund_fee(admin, user, 20, "partial_cancel").unwrap();
    assert_eq!(client.get_total_collected(), 30);

    // Distribute remaining
    let distributed = client.distribute_fees(admin).unwrap();
    assert_eq!(distributed, 30);
    assert_eq!(client.get_recipient_fees_accumulated(r), 30);
}

#[test]
fn test_distribution_update_configuration() {
    let (admin, mut client) = setup_fee_contract();
    let r1 = addr(10);
    let r2 = addr(11);

    // Initial distribution
    client.set_distribution(admin, vec![recipient(r1, 10_000)]).unwrap();

    let dist = client.get_distribution();
    assert_eq!(dist.len(), 1);

    // Update distribution to split
    client.set_distribution(admin, vec![recipient(r1, 6_000), recipient(r2, 4_000)]).unwrap();

    let dist = client.get_distribution();
    assert_eq!(dist.len(), 2);
}

#[test]
fn test_get_min_fee_default() {
    let (_admin, client) = setup_fee_contract();
    // Default min fee is 0
    assert_eq!(client.get_min_fee(), 0);
}

#[test]
fn test_get_max_fee_default() {
    let (_admin, client) = setup_fee_contract();
    // Default max fee is i128::MAX
    assert_eq!(client.get_max_fee(), i128::MAX);
}

#[test]
fn test_set_fee_bounds_valid() {
    let (admin, mut client) = setup_fee_contract();

    client.set_fee_bounds(admin, 100, 1_000).unwrap();

    assert_eq!(client.get_min_fee(), 100);
    assert_eq!(client.get_max_fee(), 1_000);
}

#[test]
fn test_set_fee_bounds_min_zero() {
    let (admin, mut client) = setup_fee_contract();

    client.set_fee_bounds(admin, 0, 1_000).unwrap();

    assert_eq!(client.get_min_fee(), 0);
    assert_eq!(client.get_max_fee(), 1_000);
}

#[test]
fn test_set_fee_bounds_equal() {
    let (admin, mut client) = setup_fee_contract();

    // Min and max can be equal
    client.set_fee_bounds(admin, 500, 500).unwrap();

    assert_eq!(client.get_min_fee(), 500);
    assert_eq!(client.get_max_fee(), 500);
}

#[test]
fn test_set_fee_bounds_invalid_negative_min() {
    let (admin, mut client) = setup_fee_contract();

    // Refused: negative min_fee
    let result = client.set_fee_bounds(admin, -100, 1_000);
    assert!(result.is_err());
}

#[test]
fn test_set_fee_bounds_invalid_negative_max() {
    let (admin, mut client) = setup_fee_contract();

    // Refused: negative max_fee
    let result = client.set_fee_bounds(admin, 100, -1_000);
    assert!(result.is_err());
}

#[test]
fn test_set_fee_bounds_invalid_range() {
    let (admin, mut client) = setup_fee_contract();

    // Refused: max < min
    let result = client.set_fee_bounds(admin, 1_000, 100);
    assert!(result.is_err());
}

#[test]
fn test_set_fee_bounds_unauthorized() {
    let (_admin, mut client) = setup_fee_contract();
    let attacker = addr(3);

    // Refused: attacker is not admin
    let result = client.set_fee_bounds(attacker, 100, 1_000);
    assert!(result.is_err());
}

#[test]
fn test_set_fee_bounds_emits_event() {
    let (admin, mut client) = setup_fee_contract();

    client.set_fee_bounds(admin, 100, 1_000).unwrap();

    assert!(has_event(&client, "bounds_cfg"));
}

#[test]
fn test_calculate_fee_with_min_bound() {
    let (admin, mut client) = setup_fee_contract();

    // Set min fee to 100
    client.set_fee_bounds(admin, 100, i128::MAX).unwrap();

    // 10 * 5% = 0.5, rounds to 0, raised to the minimum of 100
    let fee = client.calculate_fee(10).unwrap();
    assert_eq!(fee, 100);
}

#[test]
fn test_calculate_fee_with_max_bound() {
    let (admin, mut client) = setup_fee_contract();

    // Set max fee to 100
    client.set_fee_bounds(admin, 0, 100).unwrap();

    // 10_000 * 5% = 500, capped at 100
    let fee = client.calculate_fee(10_000).unwrap();
    assert_eq!(fee, 100);
}

#[test]
fn test_calculate_fee_between_bounds() {
    let (admin, mut client) = setup_fee_contract();

    // Set bounds: min=50, max=150
    client.set_fee_bounds(admin, 50, 150).unwrap();

    // 2000 * 5% = 100, within 50..150
    let fee = client.calculate_fee(2_000).unwrap();
    assert_eq!(fee, 100);
}

#[test]
fn test_calculate_fee_min_and_max_equal() {
    let (admin, mut client) = setup_fee_contract();

    // Fixed fee of 75
    client.set_fee_bounds(admin, 75, 75).unwrap();

    // Any transaction should have fee = 75
    assert_eq!(client.calculate_fee(100).unwrap(), 75);
    assert_eq!(client.calculate_fee(10_000).unwrap(), 75);
    assert_eq!(client.calculate_fee(1_000).unwrap(), 75);
}

#[test]
fn test_deduct_fee_respects_min_bound() {
    let (admin, mut client) = setup_fee_contract();
    let user = addr(2);

    // Set min fee to 200
    client.set_fee_bounds(admin, 200, i128::MAX).unwrap();

    // 50 * 5% = 2.5, rounds to 2, raised to the minimum of 200
    let (_net, fee) = client.deduct_fee(user, 50).unwrap();
    assert_eq!(fee, 200);
    assert_eq!(client.get_user_fees_accrued(user), 200);
    assert_eq!(client.get_total_collected(), 200);
}

#[test]
fn test_deduct_fee_respects_max_bound() {
    let (admin, mut client) = setup_fee_contract();
    let user = addr(2);

    // Set max fee to 75
    client.set_fee_bounds(admin, 0, 75).unwrap();

    // 2000 * 5% = 100, capped at 75
    let (net, fee) = client.deduct_fee(user, 2_000).unwrap();
    assert_eq!(fee, 75);
    assert_eq!(net, 1_925);
    assert_eq!(client.get_user_fees_accrued(user), 75);
    assert_eq!(client.get_total_collected(), 75);
}

#[test]
fn test_multiple_transactions_with_bounds() {
    let (admin, mut client) = setup_fee_contract();
    let user1 = addr(2);
    let user2 = addr(3);

    // Set bounds: min=50, max=150
    client.set_fee_bounds(admin, 50, 150).unwrap();

    // Small transaction (would be 5): should be 50 (min)
    client.deduct_fee(user1, 100).unwrap();
    assert_eq!(client.get_user_fees_accrued(user1), 50);

    // Medium transaction (would be 100): should be 100
    client.deduct_fee(user2, 2_000).unwrap();
    assert_eq!(client.get_user_fees_accrued(user2), 100);

    // Large transaction (would be 500): should be 150 (max)
    client.deduct_fee(user1, 10_000).unwrap();
    assert_eq!(client.get_user_fees_accrued(user1), 200); // 50 + 150

    assert_eq!(client.get_total_collected(), 300); // 50 + 100 + 150
}

#[test]
fn test_update_fee_bounds() {
    let (admin, mut client) = setup_fee_contract();
    let user = addr(2);

    // Initial bounds: min=100, max=200
    client.set_fee_bounds(admin, 100, 200).unwrap();
    client.deduct_fee(user, 2_000).unwrap(); // 2000*5%=100, within bounds
    assert_eq!(client.get_user_fees_accrued(user), 100);

    // Update bounds: min=500, max=1000
    client.set_fee_bounds(admin, 500, 1_000).unwrap();
    client.deduct_fee(user, 2_000).unwrap(); // 2000*5%=100, but min=500
    assert_eq!(client.get_user_fees_accrued(user), 600); // 100 + 500
}

#[test]
fn test_fee_bounds_with_distribution() {
    let (admin, mut client) = setup_fee_contract();
    let user = addr(2);
    let r1 = addr(10);
    let r2 = addr(11);

    // Set fee bounds
    client.set_fee_bounds(admin, 100, 200).unwrap();

    // Set distribution
    client.set_distribution(admin, vec![recipient(r1, 6_000), recipient(r2, 4_000)]).unwrap();

    // Collect fees with bounds applied
    client.deduct_fee(user, 10_000).unwrap(); // 10_000*5%=500, capped at 200
    assert_eq!(client.get_total_collected(), 200);

    // Distribute
    client.distribute_fees(admin).unwrap();
    assert_eq!(client.get_recipient_fees_accumulated(r1), 120); // 200 * 60%
    assert_eq!(client.get_recipient_fees_accumulated(r2), 80); // 200 * 40%
}

#[test]
fn test_fee_bounds_with_refunds() {
    let (admin, mut client) = setup_fee_contract();
    let user = addr(2);

    // Set min fee to 100
    client.set_fee_bounds(admin, 100, i128::MAX).unwrap();

    // Small transaction gets bumped to min: 100
    client.deduct_fee(user, 50).unwrap();
    assert_eq!(client.get_user_fees_accrued(user), 100);
    assert_eq!(client.get_total_collected(), 100);

    // Refund partially
    client.refund_fee(admin, user, 30, "partial").unwrap();
    assert_eq!(client.get_user_fees_accrued(user), 70);
    assert_eq!(client.get_total_collected(), 70);
}

#[test]
fn test_large_transactions_exceed_percentage_fee() {
    let (admin, mut client) = setup_fee_contract();
    let user = addr(2);

    // Fee percentage: 5%, max fee capped at 1000
    client.set_fee_bounds(admin, 0, 1_000).unwrap();

    // 100_000 * 5% = 5_000, capped at 1_000
    let (net, fee) = client.deduct_fee(user, 100_000).unwrap();
    assert_eq!(fee, 1_000);
    assert_eq!(net, 99_000);
}

#[test]
fn test_very_small_transactions_with_min_fee() {
    let (admin, mut client) = setup_fee_contract();
    let user = addr(2);

    // Min fee: 50
    client.set_fee_bounds(admin, 50, i128::MAX).unwrap();

    // 1 * 5% = 0, boosted to 50
    let (net, fee) = client.deduct_fee(user, 1).unwrap();
    assert_eq!(fee, 50);
    assert_eq!(net, 1 - 50); // Negative is allowed for transaction logic
}

// ---------------------------------------------------------------------------
// Further cases: errors, laws on concrete values, and the plain-value rules.
// ---------------------------------------------------------------------------

#[test]
fn fee_errors_name_each_refusal() {
    let mut fresh = FeesContract::new();
    assert_eq!(fresh.deduct_fee(addr(2), 100), Err(FeeError::NotInitialized));
    assert_eq!(fresh.set_percentage(addr(1), 10), Err(FeeError::NotInitialized));
    assert_eq!(fresh.initialize(addr(1), 10_001), Err(FeeError::InvalidPercentage));
    let (admin, mut c) = setup_fee_contract();
    assert_eq!(c.initialize(admin, 100), Err(FeeError::AlreadyInitialized));
    assert_eq!(c.set_percentage(addr(9), 100), Err(FeeError::Unauthorized));
    assert_eq!(c.set_percentage(admin, 10_001), Err(FeeError::InvalidPercentage));
    assert_eq!(c.calculate_fee(-5), Err(FeeError::InvalidAmount));
    assert_eq!(c.calculate_fee(i128::MAX), Err(FeeError::Overflow));
    assert_eq!(c.refund_fee(admin, addr(2), 0, "r"), Err(FeeError::InvalidRefundAmount));
    assert_eq!(c.refund_fee(admin, addr(2), 5, "r"), Err(FeeError::InsufficientFeeBalance));
    assert_eq!(c.set_distribution(admin, vec![]), Err(FeeError::InvalidDistribution));
    assert_eq!(
        c.set_distribution(admin, vec![recipient(addr(10), 4_000)]),
        Err(FeeError::DistributionSumsToWrong)
    );
    assert_eq!(c.distribute_fees(admin), Err(FeeError::NoDistributionConfigured));
    assert_eq!(c.set_fee_bounds(admin, -1, 5), Err(FeeError::InvalidFeeBound));
    assert_eq!(c.set_fee_bounds(admin, 6, 5), Err(FeeError::InvalidFeeBoundRange));
    assert_eq!(FeeError::InvalidFeeBoundRange.code(), 13);
    assert_eq!(FeeError::NotInitialized.code(), 1);
}

#[test]
fn refused_calls_change_nothing() {
    let (admin, mut c) = setup_fee_contract();
    c.deduct_fee(addr(2), 1_000).unwrap();
    let before = c.events().len();
    assert!(c.refund_fee(admin, addr(2), 60, "too much").is_err());
    assert!(c.set_fee_bounds(admin, 9, 1).is_err());
    assert_eq!(c.get_user_fees_accrued(addr(2)), 50);
    assert_eq!(c.get_total_collected(), 50);
    assert_eq!(c.get_min_fee(), 0);
    assert_eq!(c.events().len(), before);
}

#[test]
fn refund_of_the_fee_restores_the_totals() {
    let (admin, mut c) = setup_fee_contract();
    let user = addr(2);
    c.deduct_fee(user, 300).unwrap();
    let (_, fee) = c.deduct_fee(user, 1_234).unwrap();
    c.refund_fee(admin, user, fee, "undo").unwrap();
    assert_eq!(c.get_user_fees_accrued(user), 15);
    assert_eq!(c.get_total_collected(), 15);
}

#[test]
fn distribution_rounds_down_and_hands_out_at_most_the_total() {
    let (admin, mut c) = setup_fee_contract();
    let (r1, r2, r3) = (addr(10), addr(11), addr(12));
    c.set_distribution(admin, vec![recipient(r1, 3_333), recipient(r2, 3_333), recipient(r3, 3_334)]).unwrap();
    c.deduct_fee(addr(2), 200).unwrap(); // fee = 10
    let handed = c.distribute_fees(admin).unwrap();
    // 10 * 3333 / 10000 = 3, 3, and 10 * 3334 / 10000 = 3
    assert_eq!(handed, 9);
    assert!(handed <= 10 && 10 < handed + 3);
    assert_eq!(c.get_recipient_fees_accumulated(r3), 3);
    assert_eq!(c.get_total_collected(), 0);
}

#[test]
fn a_recipient_named_twice_is_credited_twice() {
    let (admin, mut c) = setup_fee_contract();
    let r = addr(10);
    c.set_distribution(admin, vec![recipient(r, 5_000), recipient(r, 5_000)]).unwrap();
    c.deduct_fee(addr(2), 2_000).unwrap(); // fee = 100
    assert_eq!(c.distribute_fees(admin).unwrap(), 100);
    assert_eq!(c.get_recipient_fees_accumulated(r), 100);
}

#[test]
fn distribution_overflow_is_refused() {
    let (admin, mut c) = setup_fee_contract();
    c.set_fee_bounds(admin, i128::MAX / 2, i128::MAX / 2).unwrap();
    c.set_distribution(admin, vec![recipient(addr(10), 10_000)]).unwrap();
    c.deduct_fee(addr(2), 1).unwrap();
    assert_eq!(c.distribute_fees(admin), Err(FeeError::Overflow));
    assert_eq!(c.get_total_collected(), i128::MAX / 2);
}

#[test]
fn plain_fee_rules() {
    assert_eq!(fee_for_amount(1_000, 500, 0, i128::MAX), Ok(50));
    assert_eq!(fee_for_amount(1_000, 500, 60, 40), Ok(40));
    let d = deduction(1_000, 500, 0, i128::MAX, 7, 3).unwrap();
    assert_eq!((d.net, d.fee, d.total_collected, d.user_fees), (950, 50, 57, 53));
    assert_eq!(refund_amounts(20, 57, 53), Ok((37, 33)));
    assert_eq!(recipient_share(99, 2_500), Ok(24));
    assert_eq!(check_fee_bounds(0, 0), Ok(()));
    assert_eq!(check_distribution(&vec![recipient(addr(1), 10_001)]), Err(FeeError::InvalidDistribution));
}

#[test]
fn events_carry_the_ledger_time() {
    let (admin, mut c) = setup_fee_contract();
    c.set_ledger_timestamp(1_700_000_000);
    c.refund_fee(admin, addr(2), 1, "x").unwrap_err();
    c.deduct_fee(addr(2), 1_000).unwrap();
    c.refund_fee(admin, addr(2), 10, "goodwill").unwrap();
    match &c.events()[1] {
        FeeEvent::FeeRefunded { user, refund_amount, reason, timestamp } => {
            assert_eq!(*user, addr(2));
            assert_eq!(*refund_amount, 10);
            assert_eq!(reason, "goodwill");
            assert_eq!(*timestamp, 1_700_000_000);
        }
        _ => panic!("expected a refund event"),
    }
}
