//! The ledger's standing laws, stated over the operation contracts and
//! proved once and for all: staking balances stay bounded, transfers
//! conserve value, and a created or credited account reads back exactly
//! what the operation promised.
use crate::host::Env;
use crate::receiver::internal_deposit_post;
use crate::storage::storage_unregister_post;
use crate::{create_account_post, transfer_fee, transfer_post, Contract, LedgerError};
use vstd::prelude::*;

verus! {

/// For every identity with a staking balance in a well-formed ledger, the
/// available part never exceeds the total. Every operation keeps the ledger
/// well-formed, so this holds after every operation.
pub proof fn lemma_staking_available_within_total(c: Contract, id: Seq<char>)
    requires
        c.wf(),
        c.has_stake(id),
    ensures
        c.stake_available(id) <= c.stake_total(id),
{
}

/// A successful transfer between two distinct accounts of the same owner
/// moves exactly `amount`: the receiver gains what the sender loses, and
/// the accumulated fee is unchanged.
pub proof fn lemma_transfer_same_owner_conserves(
    pre: Contract,
    post: Contract,
    env: Env,
    sender: String,
    receiver: String,
    amount: u128,
)
    requires
        pre.wf(),
        sender@ != receiver@,
        pre.account_owner(receiver@) == env.signer_account_id@,
        transfer_post(pre, post, env, sender, receiver, amount, Result::<(), LedgerError>::Ok(())),
    ensures
        post.account_balance(sender@) as int == pre.account_balance(sender@) - amount,
        post.account_balance(receiver@) as int == pre.account_balance(receiver@) + amount,
        post.total_transfer_fee == pre.total_transfer_fee,
{
}

/// A successful transfer between accounts of different owners debits the
/// sender by exactly `amount`, credits the receiver with exactly
/// `amount - fee`, and grows the accumulated fee by exactly `fee`, where
/// `fee = floor(amount * numerator / denominator)` with saturating-to-zero
/// semantics.
pub proof fn lemma_transfer_cross_owner_fee(
    pre: Contract,
    post: Contract,
    env: Env,
    sender: String,
    receiver: String,
    amount: u128,
)
    requires
        pre.wf(),
        sender@ != receiver@,
        pre.account_owner(receiver@) != env.signer_account_id@,
        transfer_post(pre, post, env, sender, receiver, amount, Result::<(), LedgerError>::Ok(())),
    ensures
        post.account_balance(sender@) as int == pre.account_balance(sender@) - amount,
        post.account_balance(receiver@) as int == pre.account_balance(receiver@) + amount
            - transfer_fee(
            amount,
            pre.metadata.transfer_fee_numerator,
            pre.metadata.transfer_fee_denominator,
        ),
        post.total_transfer_fee as int == pre.total_transfer_fee + transfer_fee(
            amount,
            pre.metadata.transfer_fee_numerator,
            pre.metadata.transfer_fee_denominator,
        ),
{
}

/// Every successful transfer between two distinct accounts conserves value:
/// what the sender loses is exactly what the receiver gains plus what the
/// fee accumulator gains.
pub proof fn lemma_transfer_conserves_value(
    pre: Contract,
    post: Contract,
    env: Env,
    sender: String,
    receiver: String,
    amount: u128,
)
    requires
        pre.wf(),
        sender@ != receiver@,
        transfer_post(pre, post, env, sender, receiver, amount, Result::<(), LedgerError>::Ok(())),
    ensures
        post.account_balance(sender@) + post.account_balance(receiver@)
            + post.total_transfer_fee == pre.account_balance(sender@) + pre.account_balance(
            receiver@,
        ) + pre.total_transfer_fee,
{
}

/// Immediately after `create_account` succeeds, `balance_of` reports the
/// new account with a zero balance.
pub proof fn lemma_create_account_then_balance_of(
    pre: Contract,
    post: Contract,
    env: Env,
    name: String,
)
    requires
        pre.wf(),
        create_account_post(pre, post, env, name, Result::<(), LedgerError>::Ok(())),
    ensures
        post.balance_of_view(name@) == Some(0u128),
{
}

/// After a deposit notification credits `amount`, `balance_of` reports the
/// old balance grown by exactly `amount`.
pub proof fn lemma_deposit_then_balance_of(
    pre: Contract,
    post: Contract,
    name: String,
    amount: u128,
)
    requires
        pre.wf(),
        internal_deposit_post(pre, post, name, amount, Result::<(), LedgerError>::Ok(())),
    ensures
        post.balance_of_view(name@) == Some((pre.account_balance(name@) + amount) as u128),
{
}

/// A successful unregistration that reports work done refunds exactly the
/// staking total held before it, and leaves neither the owner record, the
/// staking balance, nor any owned account behind.
pub proof fn lemma_unregister_refunds_total(
    pre: Contract,
    post: Contract,
    env: Env,
    force: Option<bool>,
    payout: Option<crate::host::Payout>,
)
    requires
        pre.wf(),
        storage_unregister_post(
            pre,
            post,
            env,
            force,
            Result::<(bool, Option<crate::host::Payout>), LedgerError>::Ok((true, payout)),
        ),
    ensures
        payout matches Some(po) && po.amount == pre.stake_total(env.predecessor_account_id@)
            && po.receiver_id@ == env.predecessor_account_id@,
        !post.is_registered(env.predecessor_account_id@),
        !post.has_stake(env.predecessor_account_id@),
        forall|name: Seq<char>|
            pre.has_account(name) && pre.account_owner(name) == env.predecessor_account_id@
                ==> !(#[trigger] post.has_account(name)),
{
}

} // verus!
