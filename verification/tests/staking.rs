use subaccount_ledger::host::Env;
use subaccount_ledger::{Contract, LedgerError};

const BYTE_COST: u128 = 10_000_000_000_000_000_000;

fn make_env(current: &str, signer: &str, predecessor: &str, attached: u128) -> Env {
    Env {
        current_account_id: current.to_string(),
        signer_account_id: signer.to_string(),
        predecessor_account_id: predecessor.to_string(),
        attached_deposit: attached,
        storage_byte_cost: BYTE_COST,
    }
}

#[test]
fn test_storage_deposit() {
    let mut contract = Contract::new("bob".to_string(), "charlie".to_string(), 1, 100);
    let min = contract.get_metadata().user_storage_usage as u128 * BYTE_COST;

    let env = make_env("alice", "bob", "bob", min);
    contract.storage_deposit(&env, None, Some(true)).unwrap();

    let env = make_env("alice", "bob", "bob", 1);
    contract.storage_deposit(&env, None, None).unwrap();

    let storage_balance = contract.storage_balance_of("bob".to_string()).unwrap();
    assert_eq!(storage_balance.total, min + 1);
    assert_eq!(storage_balance.available, 1);
}

#[test]
fn test_storage_deposit_insufficient_deposit() {
    let mut contract = Contract::new("bob".to_string(), "charlie".to_string(), 1, 100);

    let env = make_env("alice", "bob", "bob", BYTE_COST);
    let r = contract.storage_deposit(&env, None, Some(true));
    assert!(matches!(r, Err(LedgerError::InsufficientDeposit)));
}

#[test]
fn test_storage_deposit_registered_refunds_whole_deposit() {
    let mut contract = Contract::new("bob".to_string(), "charlie".to_string(), 1, 100);
    let min = contract.get_metadata().user_storage_usage as u128 * BYTE_COST;

    let env = make_env("alice", "bob", "bob", min);
    contract.storage_deposit(&env, None, Some(true)).unwrap();

    // Registering again with `registration_only` refunds everything.
    let env = make_env("alice", "bob", "bob", 7);
    let (sb, payout) = contract.storage_deposit(&env, None, Some(true)).unwrap();
    assert_eq!(sb.total, min);
    assert_eq!(sb.available, 0);
    let payout = payout.unwrap();
    assert_eq!(payout.receiver_id, "bob".to_string());
    assert_eq!(payout.amount, 7);
}

#[test]
fn test_storage_deposit_registration_only_refunds_excess() {
    let mut contract = Contract::new("bob".to_string(), "charlie".to_string(), 1, 100);
    let min = contract.get_metadata().user_storage_usage as u128 * BYTE_COST;

    let env = make_env("alice", "bob", "bob", min + 5);
    let (sb, payout) = contract.storage_deposit(&env, None, Some(true)).unwrap();
    assert_eq!(sb.total, min);
    assert_eq!(sb.available, 0);
    let payout = payout.unwrap();
    assert_eq!(payout.receiver_id, "bob".to_string());
    assert_eq!(payout.amount, 5);
}

#[test]
fn test_storage_deposit_for_other_account() {
    let mut contract = Contract::new("bob".to_string(), "charlie".to_string(), 1, 100);
    let min = contract.get_metadata().user_storage_usage as u128 * BYTE_COST;

    let env = make_env("alice", "bob", "bob", min);
    contract
        .storage_deposit(&env, Some("danny".to_string()), None)
        .unwrap();

    let sb = contract.storage_balance_of("danny".to_string()).unwrap();
    assert_eq!(sb.total, min);
    assert_eq!(sb.available, 0);
    assert!(contract.get_accounts("danny".to_string()).unwrap().is_empty());
}

#[test]
fn test_storage_withdraw() {
    let mut contract = Contract::new("bob".to_string(), "charlie".to_string(), 1, 100);
    let min = contract.get_metadata().user_storage_usage as u128 * BYTE_COST;

    let env = make_env("alice", "bob", "bob", min);
    contract.storage_deposit(&env, None, Some(true)).unwrap();

    let env = make_env("alice", "bob", "bob", 2);
    contract.storage_deposit(&env, None, None).unwrap();

    let env = make_env("alice", "bob", "bob", 1);
    contract.storage_withdraw(&env, Some(1)).unwrap();
    contract.storage_withdraw(&env, None).unwrap();

    let sb = contract.storage_balance_of("bob".to_string()).unwrap();
    assert_eq!(sb.total, min);
    assert_eq!(sb.available, 0);
}

#[test]
fn test_storage_withdraw_not_enough_available_token() {
    let mut contract = Contract::new("bob".to_string(), "charlie".to_string(), 1, 100);
    let min = contract.get_metadata().user_storage_usage as u128 * BYTE_COST;

    let env = make_env("alice", "bob", "bob", min);
    contract.storage_deposit(&env, None, Some(true)).unwrap();

    let env = make_env("alice", "bob", "bob", 1);
    contract.storage_deposit(&env, None, None).unwrap();

    let r = contract.storage_withdraw(&env, Some(2));
    assert!(matches!(r, Err(LedgerError::InsufficientFunds)));
}

#[test]
fn test_storage_withdraw_requires_payment() {
    let mut contract = Contract::new("bob".to_string(), "charlie".to_string(), 1, 100);

    let env = make_env("alice", "bob", "bob", 0);
    let r = contract.storage_withdraw(&env, None);
    assert!(matches!(r, Err(LedgerError::PaymentRequired)));
}

#[test]
fn test_storage_withdraw_unregistered() {
    let mut contract = Contract::new("bob".to_string(), "charlie".to_string(), 1, 100);

    let env = make_env("alice", "bob", "bob", 1);
    let r = contract.storage_withdraw(&env, None);
    assert!(matches!(r, Err(LedgerError::Unregistered)));
}

#[test]
fn test_storage_unregister() {
    let mut contract = Contract::new("bob".to_string(), "charlie".to_string(), 1, 100);
    let tmp_account_id: String = "a".repeat(64);
    let min = contract.get_metadata().user_storage_usage as u128 * BYTE_COST;

    let env = make_env("alice", &tmp_account_id, &tmp_account_id, min);
    contract
        .storage_deposit(&env, None, None)
        .unwrap();

    let storage_balance = contract.storage_balance_of(tmp_account_id.clone()).unwrap();
    let initial_storage_usage = contract.storage_usage();

    let env = make_env("alice", &tmp_account_id, &tmp_account_id, 1);
    let (done, payout) = contract.storage_unregister(&env, None).unwrap();
    assert!(done);

    assert!(contract.user_accounts.get(&tmp_account_id).is_none());
    assert!(contract.storage_balance_of(tmp_account_id.clone()).is_none());
    assert_eq!(
        storage_balance.total,
        (initial_storage_usage - contract.storage_usage()) as u128 * BYTE_COST
    );
    let payout = payout.unwrap();
    assert_eq!(payout.receiver_id, tmp_account_id);
    assert_eq!(payout.amount, storage_balance.total);
}

#[test]
fn test_storage_unregister_user_with_accounts() {
    let mut contract = Contract::new("bob".to_string(), "charlie".to_string(), 1, 100);
    let tmp_account_id: String = "a".repeat(64);
    let account_name: String = "b".repeat(256);
    let user_cost = contract.get_metadata().user_storage_usage as u128 * BYTE_COST;
    let account_cost = contract.get_metadata().account_storage_usage as u128 * BYTE_COST;

    let env = make_env("alice", &tmp_account_id, &tmp_account_id, user_cost + account_cost);
    contract.storage_deposit(&env, None, None).unwrap();
    contract
        .internal_create_account(&env, tmp_account_id.clone(), account_name.clone())
        .unwrap();

    let storage_balance = contract.storage_balance_of(tmp_account_id.clone()).unwrap();
    let initial_storage_usage = contract.storage_usage();

    let env = make_env("alice", &tmp_account_id, &tmp_account_id, 1);
    let (done, _payout) = contract.storage_unregister(&env, Some(true)).unwrap();
    assert!(done);

    assert!(contract.accounts.get(&account_name).is_none());
    assert!(contract.user_accounts.get(&tmp_account_id).is_none());
    assert!(contract.storage_balance_of(tmp_account_id.clone()).is_none());
    assert_eq!(
        storage_balance.total,
        (initial_storage_usage - contract.storage_usage()) as u128 * BYTE_COST
    );
}

#[test]
fn test_storage_unregister_with_accounts_without_force() {
    let mut contract = Contract::new("bob".to_string(), "charlie".to_string(), 1, 100);
    let user_cost = contract.get_metadata().user_storage_usage as u128 * BYTE_COST;
    let account_cost = contract.get_metadata().account_storage_usage as u128 * BYTE_COST;

    let env = make_env("alice", "bob", "bob", user_cost + account_cost);
    contract.storage_deposit(&env, None, None).unwrap();
    contract
        .internal_create_account(&env, "bob".to_string(), "account".to_string())
        .unwrap();

    let env = make_env("alice", "bob", "bob", 1);
    let r = contract.storage_unregister(&env, None);
    assert!(matches!(r, Err(LedgerError::HasActiveAccounts)));
}

#[test]
fn test_storage_unregister_unknown_user() {
    let mut contract = Contract::new("bob".to_string(), "charlie".to_string(), 1, 100);

    let env = make_env("alice", "bob", "bob", 1);
    let (done, payout) = contract.storage_unregister(&env, None).unwrap();
    assert!(!done);
    assert!(payout.is_none());
}

#[test]
fn test_storage_balance_bounds() {
    let contract = Contract::new("bob".to_string(), "charlie".to_string(), 1, 100);

    let env = make_env("alice", "bob", "bob", 0);
    let storage_balance_bounds = contract.storage_balance_bounds(&env);
    assert_eq!(
        storage_balance_bounds.min,
        contract.get_metadata().user_storage_usage as u128 * BYTE_COST
    );
    assert!(storage_balance_bounds.max.is_none());
}
