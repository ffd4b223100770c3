use subaccount_ledger::host::Env;
use subaccount_ledger::{Contract, ContractMetadata, LedgerError};

const BYTE_COST: u128 = 10_000_000_000_000_000_000;

fn make_env(current: &str, signer: &str, predecessor: &str, attached: u128) -> Env {
    Env {
        current_account_id: current.to_string(),
        signer_account_id: signer.to_string(),
        predecessor_account_id: predecessor.to_string(),
        attached_deposit: attached,
        storage_byte_cost: BYTE_COST,
    }
}

fn register_user(contract: &mut Contract, account_id: &str) {
    let min = contract.get_metadata().user_storage_usage as u128 * BYTE_COST;
    let env = make_env("alice", account_id, account_id, min);
    contract
        .storage_deposit(&env, Some(account_id.to_string()), Some(true))
        .unwrap();
}

fn create_account(contract: &mut Contract, account_id: &str, account_name: &str) {
    let cost = contract.get_metadata().account_storage_usage as u128 * BYTE_COST;
    let env = make_env("alice", account_id, account_id, cost);
    contract
        .create_account(&env, account_name.to_string())
        .unwrap();
}

fn encode_len_prefixed(out: &mut Vec<u8>, bytes: &[u8]) {
    out.extend_from_slice(&(bytes.len() as u32).to_le_bytes());
    out.extend_from_slice(bytes);
}

fn deposit_msg_for(account_name: &str) -> String {
    let mut payload: Vec<u8> = Vec::new();
    encode_len_prefixed(&mut payload, account_name.as_bytes());
    let mut msg: Vec<u8> = Vec::new();
    encode_len_prefixed(&mut msg, "deposit".as_bytes());
    encode_len_prefixed(&mut msg, &payload);
    bs58::encode(msg).into_string()
}

fn deposit(contract: &mut Contract, account_name: &str, amount: u128) {
    let env = make_env("alice", "charlie", "charlie", 0);
    contract
        .ft_on_transfer(
            &env,
            "charlie".to_string(),
            amount,
            deposit_msg_for(account_name),
        )
        .unwrap();
}

#[test]
fn test_new() {
    Contract::new("bob".to_string(), "charlie".to_string(), 1, 100);
}

#[test]
fn test_create_account() {
    let mut contract = Contract::new("bob".to_string(), "charlie".to_string(), 1, 100);

    register_user(&mut contract, "bob");
    create_account(&mut contract, "bob", "account");

    let account = contract.accounts.get(&"account".to_string()).unwrap();
    assert_eq!(account.owner_id, "bob".to_string());
    assert_eq!(account.balance, 0);
    assert_eq!(contract.get_balance("account".to_string()).unwrap(), 0);
    assert_eq!(
        contract.get_accounts("bob".to_string()).unwrap(),
        vec!["account"]
    );
    let user_storage_usage = contract.get_metadata().user_storage_usage;
    let account_storage_usage = contract.get_metadata().account_storage_usage;
    assert_eq!(
        contract.get_metadata(),
        ContractMetadata {
            owner_id: "bob".to_string(),
            token_id: "charlie".to_string(),
            transfer_fee_numerator: 1,
            transfer_fee_denominator: 100,
            user_storage_usage,
            account_storage_usage,
        }
    );
}

#[test]
fn test_create_duplicate_account() {
    let mut contract = Contract::new("bob".to_string(), "charlie".to_string(), 1, 100);

    register_user(&mut contract, "bob");
    create_account(&mut contract, "bob", "account");

    let cost = contract.get_metadata().account_storage_usage as u128 * BYTE_COST;
    let env = make_env("alice", "bob", "bob", cost);
    let r = contract.create_account(&env, "account".to_string());
    assert!(matches!(r, Err(LedgerError::NameCollision)));
}

#[test]
fn test_create_account_insufficient_deposit() {
    let mut contract = Contract::new("bob".to_string(), "charlie".to_string(), 1, 100);

    register_user(&mut contract, "bob");
    let env = make_env("alice", "bob", "bob", 0);
    let r = contract.create_account(&env, "account".to_string());
    assert!(matches!(r, Err(LedgerError::InsufficientDeposit)));
}

#[test]
fn test_get_balance_non_existent_account() {
    let contract = Contract::new("bob".to_string(), "charlie".to_string(), 1, 100);
    assert_eq!(contract.get_balance("account".to_string()), None);
}

#[test]
fn test_withdraw() {
    let mut contract = Contract::new("bob".to_string(), "charlie".to_string(), 1, 100);

    register_user(&mut contract, "bob");
    create_account(&mut contract, "bob", "account");
    deposit(&mut contract, "account", 1);

    let env = make_env("alice", "bob", "bob", 1);
    let payout = contract.withdraw(&env, "account".to_string(), 1).unwrap();
    assert_eq!(contract.get_balance("account".to_string()).unwrap(), 0);
    let payout = payout.unwrap();
    assert_eq!(payout.receiver_id, "bob".to_string());
    assert_eq!(payout.amount, 1);
}

#[test]
fn test_withdraw_unauthorized_access() {
    let mut contract = Contract::new("bob".to_string(), "charlie".to_string(), 1, 100);

    register_user(&mut contract, "bob");
    register_user(&mut contract, "danny");
    create_account(&mut contract, "bob", "account");
    deposit(&mut contract, "account", 1);

    let env = make_env("alice", "danny", "danny", 1);
    let r = contract.withdraw(&env, "account".to_string(), 1);
    assert!(matches!(r, Err(LedgerError::Unauthorized)));
}

#[test]
fn test_withdraw_not_enough_token() {
    let mut contract = Contract::new("bob".to_string(), "charlie".to_string(), 1, 100);

    register_user(&mut contract, "bob");
    create_account(&mut contract, "bob", "account");
    deposit(&mut contract, "account", 1);

    let env = make_env("alice", "bob", "bob", 1);
    let r = contract.withdraw(&env, "account".to_string(), 2);
    assert!(matches!(r, Err(LedgerError::InsufficientFunds)));
}

#[test]
fn test_withdraw_to_contract_itself_skips_payout() {
    let mut contract = Contract::new("bob".to_string(), "charlie".to_string(), 1, 100);

    register_user(&mut contract, "alice");
    create_account(&mut contract, "alice", "account");
    deposit(&mut contract, "account", 5);

    // The contract operator context: current and signer coincide, so the
    // external call is skipped while the debit still happens.
    let env = make_env("alice", "alice", "alice", 1);
    let payout = contract.withdraw(&env, "account".to_string(), 3).unwrap();
    assert!(payout.is_none());
    assert_eq!(contract.get_balance("account".to_string()).unwrap(), 2);
}

#[test]
fn test_withdraw_requires_payment() {
    let mut contract = Contract::new("bob".to_string(), "charlie".to_string(), 1, 100);

    register_user(&mut contract, "bob");
    create_account(&mut contract, "bob", "account");

    let env = make_env("alice", "bob", "bob", 0);
    let r = contract.withdraw(&env, "account".to_string(), 0);
    assert!(matches!(r, Err(LedgerError::PaymentRequired)));
}

#[test]
fn test_transfer_same_owner() {
    let mut contract = Contract::new("bob".to_string(), "charlie".to_string(), 1, 100);

    register_user(&mut contract, "bob");
    create_account(&mut contract, "bob", "account_1");
    create_account(&mut contract, "bob", "account_2");
    deposit(&mut contract, "account_1", 1);
    deposit(&mut contract, "account_2", 1);

    let env = make_env("alice", "bob", "bob", 0);
    contract
        .transfer(&env, "account_1".to_string(), "account_2".to_string(), 1)
        .unwrap();
    assert_eq!(contract.get_balance("account_1".to_string()).unwrap(), 0);
    assert_eq!(contract.get_balance("account_2".to_string()).unwrap(), 2);
    assert_eq!(contract.total_transfer_fee, 0);
}

#[test]
fn test_transfer_different_owner() {
    let mut contract = Contract::new("bob".to_string(), "charlie".to_string(), 1, 100);

    register_user(&mut contract, "bob");
    register_user(&mut contract, "danny");
    create_account(&mut contract, "bob", "account_1");
    create_account(&mut contract, "danny", "account_2");
    deposit(&mut contract, "account_1", 100);
    deposit(&mut contract, "account_2", 100);

    let env = make_env("alice", "bob", "bob", 0);
    contract
        .transfer(&env, "account_1".to_string(), "account_2".to_string(), 100)
        .unwrap();
    assert_eq!(contract.get_balance("account_1".to_string()).unwrap(), 0);
    assert_eq!(contract.get_balance("account_2".to_string()).unwrap(), 199);
    assert_eq!(contract.total_transfer_fee, 1);
}

#[test]
fn test_transfer_non_existent_sender_account() {
    let mut contract = Contract::new("bob".to_string(), "charlie".to_string(), 1, 100);

    register_user(&mut contract, "bob");

    let env = make_env("alice", "bob", "bob", 0);
    let r = contract.transfer(&env, "account_1".to_string(), "account_2".to_string(), 1);
    assert!(matches!(r, Err(LedgerError::SenderNotFound)));
}

#[test]
fn test_transfer_non_existent_receiver_account() {
    let mut contract = Contract::new("bob".to_string(), "charlie".to_string(), 1, 100);

    register_user(&mut contract, "bob");
    create_account(&mut contract, "bob", "account_1");

    let env = make_env("alice", "bob", "bob", 0);
    let r = contract.transfer(&env, "account_1".to_string(), "account_2".to_string(), 1);
    assert!(matches!(r, Err(LedgerError::ReceiverNotFound)));
}

#[test]
fn test_transfer_not_enough_token() {
    let mut contract = Contract::new("bob".to_string(), "charlie".to_string(), 1, 100);

    register_user(&mut contract, "bob");
    create_account(&mut contract, "bob", "account_1");
    create_account(&mut contract, "bob", "account_2");
    deposit(&mut contract, "account_1", 1);
    deposit(&mut contract, "account_2", 1);

    let env = make_env("alice", "bob", "bob", 0);
    let r = contract.transfer(&env, "account_1".to_string(), "account_2".to_string(), 2);
    assert!(matches!(r, Err(LedgerError::InsufficientFunds)));
}

#[test]
fn test_transfer_to_same_account_conserves_balance() {
    let mut contract = Contract::new("bob".to_string(), "charlie".to_string(), 1, 100);

    register_user(&mut contract, "bob");
    create_account(&mut contract, "bob", "account_1");
    deposit(&mut contract, "account_1", 5);

    let env = make_env("alice", "bob", "bob", 0);
    contract
        .transfer(&env, "account_1".to_string(), "account_1".to_string(), 3)
        .unwrap();
    assert_eq!(contract.get_balance("account_1".to_string()).unwrap(), 5);
    assert_eq!(contract.total_transfer_fee, 0);
}

#[test]
fn test_withdraw_transfer_fee() {
    let mut contract = Contract::new("bob".to_string(), "charlie".to_string(), 1, 100);

    register_user(&mut contract, "bob");
    register_user(&mut contract, "danny");
    create_account(&mut contract, "bob", "account_1");
    create_account(&mut contract, "danny", "account_2");
    deposit(&mut contract, "account_1", 100);
    deposit(&mut contract, "account_2", 100);

    let env = make_env("alice", "bob", "bob", 0);
    contract
        .transfer(&env, "account_1".to_string(), "account_2".to_string(), 100)
        .unwrap();

    let env = make_env("alice", "bob", "bob", 1);
    let payout = contract.withdraw_transfer_fee(&env, 1).unwrap();
    assert_eq!(contract.total_transfer_fee, 0);
    let payout = payout.unwrap();
    assert_eq!(payout.receiver_id, "bob".to_string());
    assert_eq!(payout.amount, 1);
}

#[test]
fn test_withdraw_transfer_fee_unauthorized_access() {
    let mut contract = Contract::new("bob".to_string(), "charlie".to_string(), 1, 100);

    let env = make_env("alice", "charlie", "charlie", 1);
    let r = contract.withdraw_transfer_fee(&env, 1);
    assert!(matches!(r, Err(LedgerError::Unauthorized)));
}

#[test]
fn test_withdraw_transfer_fee_not_enough_token() {
    let mut contract = Contract::new("bob".to_string(), "charlie".to_string(), 1, 100);

    let env = make_env("alice", "bob", "bob", 1);
    let r = contract.withdraw_transfer_fee(&env, 1);
    assert!(matches!(r, Err(LedgerError::InsufficientFunds)));
}

#[test]
fn test_withdraw_transfer_fee_to_contract_itself() {
    // The operator is the contract account itself: the fee is still
    // deducted, but the payout would be a self-transfer and is skipped.
    let mut contract = Contract::new("alice".to_string(), "charlie".to_string(), 1, 100);

    register_user(&mut contract, "bob");
    register_user(&mut contract, "danny");
    create_account(&mut contract, "bob", "account_1");
    create_account(&mut contract, "danny", "account_2");
    deposit(&mut contract, "account_1", 100);

    let env = make_env("alice", "bob", "bob", 0);
    contract
        .transfer(&env, "account_1".to_string(), "account_2".to_string(), 100)
        .unwrap();
    assert_eq!(contract.total_transfer_fee, 1);

    let env = make_env("alice", "alice", "alice", 1);
    let payout = contract.withdraw_transfer_fee(&env, 1).unwrap();
    assert!(payout.is_none());
    assert_eq!(contract.total_transfer_fee, 0);
}
