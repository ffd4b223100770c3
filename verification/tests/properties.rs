use subaccount_ledger::compute_transfer_fee;
use subaccount_ledger::host::Env;
use subaccount_ledger::{Contract, LedgerError};

const BYTE_COST: u128 = 10_000_000_000_000_000_000;

fn make_env(current: &str, signer: &str, predecessor: &str, attached: u128) -> Env {
    Env {
        current_account_id: current.to_string(),
        signer_account_id: signer.to_string(),
        predecessor_account_id: predecessor.to_string(),
        attached_deposit: attached,
        storage_byte_cost: BYTE_COST,
    }
}

fn register_user(contract: &mut Contract, account_id: &str) {
    let min = contract.get_metadata().user_storage_usage as u128 * BYTE_COST;
    let env = make_env("alice", account_id, account_id, min);
    contract
        .storage_deposit(&env, Some(account_id.to_string()), Some(true))
        .unwrap();
}

fn create_account(contract: &mut Contract, account_id: &str, account_name: &str) {
    let cost = contract.get_metadata().account_storage_usage as u128 * BYTE_COST;
    let env = make_env("alice", account_id, account_id, cost);
    contract
        .create_account(&env, account_name.to_string())
        .unwrap();
}

fn encode_len_prefixed(out: &mut Vec<u8>, bytes: &[u8]) {
    out.extend_from_slice(&(bytes.len() as u32).to_le_bytes());
    out.extend_from_slice(bytes);
}

fn deposit(contract: &mut Contract, account_name: &str, amount: u128) {
    let mut payload: Vec<u8> = Vec::new();
    encode_len_prefixed(&mut payload, account_name.as_bytes());
    let mut msg: Vec<u8> = Vec::new();
    encode_len_prefixed(&mut msg, "deposit".as_bytes());
    encode_len_prefixed(&mut msg, &payload);
    let env = make_env("alice", "charlie", "charlie", 0);
    contract
        .ft_on_transfer(
            &env,
            "charlie".to_string(),
            amount,
            bs58::encode(msg).into_string(),
        )
        .unwrap();
}

fn staking_invariant_holds(contract: &Contract, ids: &[&str]) -> bool {
    ids.iter().all(|id| {
        match contract.storage_balance_of(id.to_string()) {
            Some(sb) => sb.available <= sb.total,
            None => true,
        }
    })
}

#[test]
fn test_available_never_exceeds_total() {
    let mut contract = Contract::new("bob".to_string(), "charlie".to_string(), 1, 100);
    let ids = ["bob", "danny"];
    assert!(staking_invariant_holds(&contract, &ids));

    register_user(&mut contract, "bob");
    assert!(staking_invariant_holds(&contract, &ids));

    let env = make_env("alice", "bob", "bob", 50);
    contract.storage_deposit(&env, None, None).unwrap();
    assert!(staking_invariant_holds(&contract, &ids));

    create_account(&mut contract, "bob", "account");
    assert!(staking_invariant_holds(&contract, &ids));

    let env = make_env("alice", "bob", "bob", 1);
    contract.storage_withdraw(&env, Some(20)).unwrap();
    assert!(staking_invariant_holds(&contract, &ids));

    contract.storage_withdraw(&env, None).unwrap();
    assert!(staking_invariant_holds(&contract, &ids));
}

#[test]
fn test_account_name_length_boundary() {
    let mut contract = Contract::new("bob".to_string(), "charlie".to_string(), 1, 100);
    register_user(&mut contract, "bob");

    let cost = contract.get_metadata().account_storage_usage as u128 * BYTE_COST;
    let env = make_env("alice", "bob", "bob", cost);

    let exact: String = "a".repeat(256);
    contract.create_account(&env, exact.clone()).unwrap();
    assert_eq!(contract.get_balance(exact).unwrap(), 0);

    let too_long: String = "a".repeat(257);
    let r = contract.create_account(&env, too_long);
    assert!(matches!(r, Err(LedgerError::NameTooLong)));
}

#[test]
fn test_withdraw_whole_balance_boundary() {
    let mut contract = Contract::new("bob".to_string(), "charlie".to_string(), 1, 100);
    register_user(&mut contract, "bob");
    create_account(&mut contract, "bob", "account");
    deposit(&mut contract, "account", 42);

    let env = make_env("alice", "bob", "bob", 1);
    contract.withdraw(&env, "account".to_string(), 42).unwrap();
    assert_eq!(contract.get_balance("account".to_string()).unwrap(), 0);

    deposit(&mut contract, "account", 42);
    let r = contract.withdraw(&env, "account".to_string(), 43);
    assert!(matches!(r, Err(LedgerError::InsufficientFunds)));
    assert_eq!(contract.get_balance("account".to_string()).unwrap(), 42);
}

#[test]
fn test_transfer_whole_balance_boundary() {
    let mut contract = Contract::new("bob".to_string(), "charlie".to_string(), 1, 100);
    register_user(&mut contract, "bob");
    create_account(&mut contract, "bob", "account_1");
    create_account(&mut contract, "bob", "account_2");
    deposit(&mut contract, "account_1", 42);

    let env = make_env("alice", "bob", "bob", 0);
    let r = contract.transfer(&env, "account_1".to_string(), "account_2".to_string(), 43);
    assert!(matches!(r, Err(LedgerError::InsufficientFunds)));

    contract
        .transfer(&env, "account_1".to_string(), "account_2".to_string(), 42)
        .unwrap();
    assert_eq!(contract.get_balance("account_1".to_string()).unwrap(), 0);
    assert_eq!(contract.get_balance("account_2".to_string()).unwrap(), 42);
}

#[test]
fn test_register_create_deposit_transfer_fee_scenario() {
    let mut contract = Contract::new("bob".to_string(), "charlie".to_string(), 1, 100);

    register_user(&mut contract, "bob");
    create_account(&mut contract, "bob", "acc1");
    register_user(&mut contract, "danny");
    create_account(&mut contract, "danny", "acc2");

    deposit(&mut contract, "acc1", 100);

    let env = make_env("alice", "bob", "bob", 0);
    contract
        .transfer(&env, "acc1".to_string(), "acc2".to_string(), 100)
        .unwrap();

    assert_eq!(contract.get_balance("acc1".to_string()).unwrap(), 0);
    assert_eq!(contract.get_balance("acc2".to_string()).unwrap(), 99);
    assert_eq!(contract.total_transfer_fee, 1);
}

#[test]
fn test_forced_unregister_scenario() {
    let mut contract = Contract::new("bob".to_string(), "charlie".to_string(), 1, 100);

    register_user(&mut contract, "bob");
    create_account(&mut contract, "bob", "acc1");
    create_account(&mut contract, "bob", "acc2");

    let total_before = contract
        .storage_balance_of("bob".to_string())
        .unwrap()
        .total;

    let env = make_env("alice", "bob", "bob", 1);
    let (done, payout) = contract.storage_unregister(&env, Some(true)).unwrap();
    assert!(done);

    assert!(contract.accounts.get(&"acc1".to_string()).is_none());
    assert!(contract.accounts.get(&"acc2".to_string()).is_none());
    assert!(contract.get_accounts("bob".to_string()).is_none());
    assert!(contract.storage_balance_of("bob".to_string()).is_none());
    assert_eq!(payout.unwrap().amount, total_before);
}

#[test]
fn test_transfer_fee_exact_values() {
    assert_eq!(compute_transfer_fee(100, 1, 100), 1);
    assert_eq!(compute_transfer_fee(99, 1, 100), 0);
    assert_eq!(compute_transfer_fee(250, 3, 100), 7);
    assert_eq!(compute_transfer_fee(7, 2, 3), 4);
}

#[test]
fn test_transfer_fee_degrades_to_zero() {
    // Division by zero and multiplication overflow both yield a zero fee
    // instead of failing the transfer.
    assert_eq!(compute_transfer_fee(100, 1, 0), 0);
    assert_eq!(compute_transfer_fee(u128::MAX, 2, 1), 0);
}

#[test]
fn test_cross_owner_transfer_with_saturated_fee() {
    let mut contract = Contract::new("bob".to_string(), "charlie".to_string(), 2, 1);

    register_user(&mut contract, "bob");
    register_user(&mut contract, "danny");
    create_account(&mut contract, "bob", "acc1");
    create_account(&mut contract, "danny", "acc2");

    let huge: u128 = u128::MAX / 2 + 1;
    contract.internal_deposit("acc1".to_string(), huge).unwrap();

    // amount * numerator overflows, so the fee degrades to zero and the
    // receiver is credited in full.
    let env = make_env("alice", "bob", "bob", 0);
    contract
        .transfer(&env, "acc1".to_string(), "acc2".to_string(), huge)
        .unwrap();
    assert_eq!(contract.get_balance("acc1".to_string()).unwrap(), 0);
    assert_eq!(contract.get_balance("acc2".to_string()).unwrap(), huge);
    assert_eq!(contract.total_transfer_fee, 0);
}

#[test]
fn test_get_accounts_keeps_creation_order() {
    let mut contract = Contract::new("bob".to_string(), "charlie".to_string(), 1, 100);

    register_user(&mut contract, "bob");
    create_account(&mut contract, "bob", "first");
    create_account(&mut contract, "bob", "second");
    create_account(&mut contract, "bob", "third");

    assert_eq!(
        contract.get_accounts("bob".to_string()).unwrap(),
        vec!["first", "second", "third"]
    );
}

#[test]
fn test_create_account_unregistered() {
    let mut contract = Contract::new("bob".to_string(), "charlie".to_string(), 1, 100);

    let env = make_env("alice", "bob", "bob", 0);
    let r = contract.create_account(&env, "account".to_string());
    assert!(matches!(r, Err(LedgerError::Unregistered)));
}

#[test]
fn test_measured_price_table_is_stable() {
    let a = Contract::new("bob".to_string(), "charlie".to_string(), 1, 100);
    let b = Contract::new("danny".to_string(), "eugene".to_string(), 3, 7);
    assert_eq!(
        a.get_metadata().user_storage_usage,
        b.get_metadata().user_storage_usage
    );
    assert_eq!(
        a.get_metadata().account_storage_usage,
        b.get_metadata().account_storage_usage
    );
    assert!(a.get_metadata().user_storage_usage > 0);
    assert!(a.get_metadata().account_storage_usage > 0);
}
