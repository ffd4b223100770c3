//! Storage staking: the byte-cost model of the persisted entries, the
//! measured usage counter, and the staking-balance operations that reserve
//! and refund the rent each ledger entry consumes.
use crate::host::{Env, Payout};
use crate::{Account, Contract, LedgerError};
use vstd::pervasive::unreached;
use vstd::prelude::*;
use vstd::utf8::encode_utf8;

verus! {

/// Rent pledged by one identity: `total` is the cumulative deposit, of which
/// `available` is not yet locked for existing entries.
#[derive(Clone, Copy, PartialEq, Eq, Structural, Debug)]
pub struct StorageBalance {
    pub total: u128,
    pub available: u128,
}

/// Deposit bounds for registering: at least `min` must be attached; there is
/// no upper bound.
#[derive(Clone, Copy, PartialEq, Eq, Structural, Debug)]
pub struct StorageBalanceBounds {
    pub min: u128,
    pub max: Option<u128>,
}

/// Per-entry key overhead in the persisted layout: a one-byte namespace
/// prefix plus a four-byte key length.
pub const KEY_OVERHEAD: u64 = 5;

/// Header of one serialized string: its four-byte length.
pub const STRING_OVERHEAD: u64 = 4;

/// Serialized size of one balance.
pub const BALANCE_BYTES: u64 = 16;

/// Serialized size of one staking balance (total and available).
pub const STAKE_BYTES: u64 = 32;

/// Longest account name accepted by the ledger.
pub const ACCOUNT_NAME_MAX_LENGTH: usize = 256;

/// Longest identity the host hands in.
pub const MAX_IDENTITY_LENGTH: u64 = 64;

/// Serialized byte length of a string: the length of its UTF-8 encoding, as
/// `str::len` reads it.
pub open spec fn str_bytes(s: Seq<char>) -> int {
    (encode_utf8(s).len() as usize) as int
}

/// Persisted size of one ledger entry: key, owner string, balance.
pub open spec fn account_entry_cost(name: Seq<char>, owner: Seq<char>) -> int {
    KEY_OVERHEAD + str_bytes(name) + STRING_OVERHEAD + str_bytes(owner) + BALANCE_BYTES
}

/// Growth of an owner's account list when one name is appended.
pub open spec fn name_slot_cost(name: Seq<char>) -> int {
    STRING_OVERHEAD + str_bytes(name)
}

/// Persisted size of a list of account names.
pub open spec fn names_cost(names: Seq<String>) -> int
    decreases names.len(),
{
    if names.len() == 0 {
        0
    } else {
        names_cost(names.drop_last()) + name_slot_cost(names.last()@)
    }
}

/// Persisted size of one owner-index entry: key, list header, names.
pub open spec fn user_entry_cost(id: Seq<char>, names: Seq<String>) -> int {
    KEY_OVERHEAD + str_bytes(id) + STRING_OVERHEAD + names_cost(names)
}

/// Persisted size of one staking-balance entry.
pub open spec fn stake_entry_cost(id: Seq<char>) -> int {
    KEY_OVERHEAD + str_bytes(id) + STAKE_BYTES
}

/// Total persisted size of the ledger namespace.
pub open spec fn accounts_cost(entries: Seq<(String, Account)>) -> int
    decreases entries.len(),
{
    if entries.len() == 0 {
        0
    } else {
        accounts_cost(entries.drop_last()) + account_entry_cost(
            entries.last().0@,
            entries.last().1.owner_id@,
        )
    }
}

/// Total persisted size of the owner-index namespace.
pub open spec fn users_cost(entries: Seq<(String, Vec<String>)>) -> int
    decreases entries.len(),
{
    if entries.len() == 0 {
        0
    } else {
        users_cost(entries.drop_last()) + user_entry_cost(
            entries.last().0@,
            entries.last().1@,
        )
    }
}

/// Total persisted size of the staking-balance namespace.
pub open spec fn stakes_cost(entries: Seq<(String, StorageBalance)>) -> int
    decreases entries.len(),
{
    if entries.len() == 0 {
        0
    } else {
        stakes_cost(entries.drop_last()) + stake_entry_cost(entries.last().0@)
    }
}

/// What the storage-usage counter reads on a given state: the persisted size
/// of the three namespaces.
pub open spec fn spec_storage_usage(c: Contract) -> int {
    accounts_cost(c.accounts.entries@) + users_cost(c.user_accounts.entries@) + stakes_cost(
        c.storage_balances.entries@,
    )
}

/// The measured per-user registration cost: a maximal-length identity's empty
/// owner-index entry plus its staking-balance entry.
pub open spec fn user_register_cost() -> int {
    KEY_OVERHEAD + MAX_IDENTITY_LENGTH + STRING_OVERHEAD + KEY_OVERHEAD + MAX_IDENTITY_LENGTH
        + STAKE_BYTES
}

/// The measured per-account creation cost: a maximal-length name's ledger
/// entry under a maximal-length owner, plus the growth of the owner's list.
pub open spec fn account_create_cost() -> int {
    KEY_OVERHEAD + ACCOUNT_NAME_MAX_LENGTH + STRING_OVERHEAD + MAX_IDENTITY_LENGTH + BALANCE_BYTES
        + STRING_OVERHEAD + ACCOUNT_NAME_MAX_LENGTH
}

proof fn lemma_names_cost_nonneg(names: Seq<String>)
    ensures
        names_cost(names) >= 0,
    decreases names.len(),
{
    if names.len() > 0 {
        lemma_names_cost_nonneg(names.drop_last());
    }
}

proof fn lemma_accounts_cost_nonneg(entries: Seq<(String, Account)>)
    ensures
        accounts_cost(entries) >= 0,
    decreases entries.len(),
{
    if entries.len() > 0 {
        lemma_accounts_cost_nonneg(entries.drop_last());
    }
}

proof fn lemma_users_cost_nonneg(entries: Seq<(String, Vec<String>)>)
    ensures
        users_cost(entries) >= 0,
    decreases entries.len(),
{
    if entries.len() > 0 {
        lemma_users_cost_nonneg(entries.drop_last());
        lemma_names_cost_nonneg(entries.last().1@);
    }
}

proof fn lemma_stakes_cost_nonneg(entries: Seq<(String, StorageBalance)>)
    ensures
        stakes_cost(entries) >= 0,
    decreases entries.len(),
{
    if entries.len() > 0 {
        lemma_stakes_cost_nonneg(entries.drop_last());
    }
}

proof fn lemma_names_cost_take_step(names: Seq<String>, i: int)
    requires
        0 <= i < names.len(),
    ensures
        names_cost(names.take(i + 1)) == names_cost(names.take(i)) + name_slot_cost(names[i]@),
{
    assert(names.take(i + 1).drop_last() =~= names.take(i));
    assert(names.take(i + 1).last() == names[i]);
}

proof fn lemma_names_cost_take_bound(names: Seq<String>, i: int)
    requires
        0 <= i <= names.len(),
    ensures
        names_cost(names.take(i)) <= names_cost(names),
    decreases names.len() - i,
{
    if i == names.len() {
        assert(names.take(i) =~= names);
    } else {
        lemma_names_cost_take_step(names, i);
        lemma_names_cost_take_bound(names, i + 1);
    }
}

proof fn lemma_accounts_cost_take_step(entries: Seq<(String, Account)>, i: int)
    requires
        0 <= i < entries.len(),
    ensures
        accounts_cost(entries.take(i + 1)) == accounts_cost(entries.take(i)) + account_entry_cost(
            entries[i].0@,
            entries[i].1.owner_id@,
        ),
{
    assert(entries.take(i + 1).drop_last() =~= entries.take(i));
    assert(entries.take(i + 1).last() == entries[i]);
}

proof fn lemma_accounts_cost_take_bound(entries: Seq<(String, Account)>, i: int)
    requires
        0 <= i <= entries.len(),
    ensures
        accounts_cost(entries.take(i)) <= accounts_cost(entries),
    decreases entries.len() - i,
{
    if i == entries.len() {
        assert(entries.take(i) =~= entries);
    } else {
        lemma_accounts_cost_take_step(entries, i);
        lemma_accounts_cost_take_bound(entries, i + 1);
    }
}

proof fn lemma_users_cost_take_step(entries: Seq<(String, Vec<String>)>, i: int)
    requires
        0 <= i < entries.len(),
    ensures
        users_cost(entries.take(i + 1)) == users_cost(entries.take(i)) + user_entry_cost(
            entries[i].0@,
            entries[i].1@,
        ),
{
    assert(entries.take(i + 1).drop_last() =~= entries.take(i));
    assert(entries.take(i + 1).last() == entries[i]);
}

proof fn lemma_users_cost_take_bound(entries: Seq<(String, Vec<String>)>, i: int)
    requires
        0 <= i <= entries.len(),
    ensures
        users_cost(entries.take(i)) <= users_cost(entries),
    decreases entries.len() - i,
{
    if i == entries.len() {
        assert(entries.take(i) =~= entries);
    } else {
        lemma_users_cost_take_step(entries, i);
        lemma_names_cost_nonneg(entries[i].1@);
        lemma_users_cost_take_bound(entries, i + 1);
    }
}

proof fn lemma_stakes_cost_take_step(entries: Seq<(String, StorageBalance)>, i: int)
    requires
        0 <= i < entries.len(),
    ensures
        stakes_cost(entries.take(i + 1)) == stakes_cost(entries.take(i)) + stake_entry_cost(
            entries[i].0@,
        ),
{
    assert(entries.take(i + 1).drop_last() =~= entries.take(i));
    assert(entries.take(i + 1).last() == entries[i]);
}

proof fn lemma_stakes_cost_take_bound(entries: Seq<(String, StorageBalance)>, i: int)
    requires
        0 <= i <= entries.len(),
    ensures
        stakes_cost(entries.take(i)) <= stakes_cost(entries),
    decreases entries.len() - i,
{
    if i == entries.len() {
        assert(entries.take(i) =~= entries);
    } else {
        lemma_stakes_cost_take_step(entries, i);
        lemma_stakes_cost_take_bound(entries, i + 1);
    }
}

/// The three namespace sizes are each non-negative.
pub proof fn lemma_costs_nonneg(c: Contract)
    ensures
        accounts_cost(c.accounts.entries@) >= 0,
        users_cost(c.user_accounts.entries@) >= 0,
        stakes_cost(c.storage_balances.entries@) >= 0,
{
    lemma_accounts_cost_nonneg(c.accounts.entries@);
    lemma_users_cost_nonneg(c.user_accounts.entries@);
    lemma_stakes_cost_nonneg(c.storage_balances.entries@);
}

/// Persisted size of one owner's list of names.
fn names_bytes(names: &Vec<String>) -> (r: u64)
    requires
        names_cost(names@) <= u64::MAX,
    ensures
        r as int == names_cost(names@),
{
    let n = names.len();
    let mut total: u64 = 0;
    let mut i: usize = 0;
    while i < n
        invariant
            0 <= i <= n,
            n == names@.len(),
            names_cost(names@) <= u64::MAX,
            total as int == names_cost(names@.take(i as int)),
        decreases n - i,
    {
        proof {
            lemma_names_cost_take_step(names@, i as int);
            lemma_names_cost_take_bound(names@, i as int + 1);
            lemma_names_cost_nonneg(names@.take(i as int));
        }
        let name_len = names[i].as_str().len();
        total = total + STRING_OVERHEAD + (name_len as u64);
        i = i + 1;
    }
    proof {
        assert(names@.take(n as int) =~= names@);
    }
    total
}

/// The identity a storage operation acts on: the named one, or the direct
/// caller when none is named.
pub open spec fn deposit_target(account_id: Option<String>, env: Env) -> Seq<char> {
    match account_id {
        Some(a) => a@,
        None => env.predecessor_account_id@,
    }
}

/// The minimum deposit that registration requires: the measured registration
/// byte count at the current byte price.
pub open spec fn storage_min_deposit(c: Contract, env: Env) -> int {
    (c.metadata.user_storage_usage as int) * (env.storage_byte_cost as int)
}

/// A refund payout: present exactly when the amount to return is positive.
pub open spec fn refund_payout(p: Option<Payout>, to: Seq<char>, amount: int) -> bool {
    if amount > 0 {
        p matches Some(po) && po.receiver_id@ == to && po.amount as int == amount
    } else {
        p is None
    }
}

/// Every staking balance except `id`'s reads as before.
pub open spec fn stakes_unchanged_except(pre: Contract, post: Contract, id: Seq<char>) -> bool {
    forall|id2: Seq<char>|
        id2 != id ==> #[trigger] post.storage_balances.get_view(id2)
            == pre.storage_balances.get_view(id2)
}

/// Every owner-index entry except `id`'s reads as before.
pub open spec fn users_unchanged_except(pre: Contract, post: Contract, id: Seq<char>) -> bool {
    forall|id2: Seq<char>|
        id2 != id ==> #[trigger] post.user_accounts.get_view(id2) == pre.user_accounts.get_view(
            id2,
        )
}

/// What `storage_deposit` does, case by case: a no-op refund for an already
/// registered identity when `registration_only`; a deposit into both `total`
/// and `available` otherwise; registration with the excess refunded or kept,
/// gated on the minimum deposit, for a new identity.
pub open spec fn storage_deposit_post(
    pre: Contract,
    post: Contract,
    env: Env,
    account_id: Option<String>,
    registration_only: Option<bool>,
    r: Result<(StorageBalance, Option<Payout>), LedgerError>,
) -> bool {
    let aid = deposit_target(account_id, env);
    let reg = registration_only == Some(true);
    let min = storage_min_deposit(pre, env);
    let attached = env.attached_deposit;
    if pre.is_registered(aid) {
        if reg {
            &&& post == pre
            &&& r matches Ok((sb, p)) && sb.total == pre.stake_total(aid) && sb.available
                == pre.stake_available(aid) && refund_payout(
                p,
                env.predecessor_account_id@,
                attached as int,
            )
        } else {
            if pre.stake_total(aid) + attached > u128::MAX {
                &&& post == pre
                &&& r == Result::<(StorageBalance, Option<Payout>), LedgerError>::Err(
                    LedgerError::Overflow,
                )
            } else {
                &&& post.user_accounts == pre.user_accounts
                &&& post.stake_total(aid) as int == pre.stake_total(aid) + attached
                &&& post.stake_available(aid) as int == pre.stake_available(aid) + attached
                &&& post.has_stake(aid)
                &&& stakes_unchanged_except(pre, post, aid)
                &&& r matches Ok((sb, p)) && sb.total == post.stake_total(aid) && sb.available
                    == post.stake_available(aid) && p is None
            }
        }
    } else {
        if attached < min {
            &&& post == pre
            &&& r == Result::<(StorageBalance, Option<Payout>), LedgerError>::Err(
                LedgerError::InsufficientDeposit,
            )
        } else {
            &&& post.is_registered(aid)
            &&& post.owned_list(aid).len() == 0
            &&& post.has_stake(aid)
            &&& users_unchanged_except(pre, post, aid)
            &&& stakes_unchanged_except(pre, post, aid)
            &&& if reg {
                &&& post.stake_total(aid) as int == min
                &&& post.stake_available(aid) == 0
                &&& r matches Ok((sb, p)) && sb.total as int == min && sb.available == 0
                    && refund_payout(p, env.predecessor_account_id@, attached - min)
            } else {
                &&& post.stake_total(aid) == attached
                &&& post.stake_available(aid) as int == attached - min
                &&& r matches Ok((sb, p)) && sb.total == attached && sb.available as int
                    == attached - min && p is None
            }
        }
    }
}

impl Contract {
    /// Deposit bounds for registration: the measured registration byte count
    /// at the current byte price, with no upper bound.
    pub fn storage_balance_bounds(&self, env: &Env) -> (r: StorageBalanceBounds)
        requires
            storage_min_deposit(*self, *env) <= u128::MAX as int,
        ensures
            r.min as int == storage_min_deposit(*self, *env),
            r.max is None,
    {
        let required: u128 = (self.metadata.user_storage_usage as u128) * env.storage_byte_cost;
        StorageBalanceBounds { min: required, max: None }
    }

    /// The identity's staking balance, or an explicit absence.
    pub fn storage_balance_of(&self, account_id: String) -> (r: Option<StorageBalance>)
        ensures
            r == self.storage_balances.get_view(account_id@),
    {
        match self.storage_balances.get(&account_id) {
            Some(sb) => Some(*sb),
            None => None,
        }
    }

    /// Registers an identity or tops up its staking balance, per
    /// [`storage_deposit_post`]. Returns the resulting staking balance and
    /// any refund owed to the direct caller.
    pub fn storage_deposit(
        &mut self,
        env: &Env,
        account_id: Option<String>,
        registration_only: Option<bool>,
    ) -> (r: Result<(StorageBalance, Option<Payout>), LedgerError>)
        requires
            old(self).wf(),
            storage_min_deposit(*old(self), *env) <= u128::MAX as int,
        ensures
            final(self).wf(),
            final(self).metadata == old(self).metadata,
            final(self).total_transfer_fee == old(self).total_transfer_fee,
            final(self).accounts == old(self).accounts,
            storage_deposit_post(*old(self), *final(self), *env, account_id, registration_only, r),
    {
        let amount = env.attached_deposit;
        let account_id_val: String = match account_id {
            Some(a) => a,
            None => env.predecessor_account_id.clone(),
        };
        let ghost aid = account_id_val@;
        let registration_only_val: bool = match registration_only {
            Some(b) => b,
            None => false,
        };
        if self.user_accounts.contains_key(&account_id_val) {
            if registration_only_val {
                // Already registered: the whole deposit is refunded.
                let sb = match self.storage_balances.get(&account_id_val) {
                    Some(s) => *s,
                    None => unreached(),
                };
                let payout = if amount > 0 {
                    Some(Payout { receiver_id: env.predecessor_account_id.clone(), amount })
                } else {
                    None
                };
                Ok((sb, payout))
            } else {
                // Already registered: the deposit tops up both totals.
                let sb = match self.storage_balances.get(&account_id_val) {
                    Some(s) => *s,
                    None => unreached(),
                };
                let new_total = match sb.total.checked_add(amount) {
                    Some(t) => t,
                    None => {
                        return Err(LedgerError::Overflow);
                    },
                };
                let new_available = match sb.available.checked_add(amount) {
                    Some(a) => a,
                    None => unreached(),
                };
                let new_sb = StorageBalance { total: new_total, available: new_available };
                self.storage_balances.insert(account_id_val, new_sb);
                proof {
                    lemma_wf_after_stake_update(*old(self), *self, aid);
                }
                Ok((new_sb, None))
            }
        } else {
            // Not yet registered: the deposit must cover the registration
            // entry's storage.
            let min_balance = self.storage_balance_bounds(env).min;
            if amount < min_balance {
                return Err(LedgerError::InsufficientDeposit);
            }
            self.user_accounts.insert(account_id_val.clone(), Vec::new());
            let sb = if registration_only_val {
                StorageBalance { total: min_balance, available: 0 }
            } else {
                StorageBalance { total: amount, available: amount - min_balance }
            };
            let payout = if registration_only_val && amount - min_balance > 0 {
                Some(
                    Payout {
                        receiver_id: env.predecessor_account_id.clone(),
                        amount: amount - min_balance,
                    },
                )
            } else {
                None
            };
            self.storage_balances.insert(account_id_val, sb);
            proof {
                lemma_wf_after_register(*old(self), *self, aid);
            }
            Ok((sb, payout))
        }
    }
}

/// After rewriting only `id`'s staking balance (still available-bounded),
/// a well-formed state stays well-formed.
proof fn lemma_wf_after_stake_update(pre: Contract, post: Contract, id: Seq<char>)
    requires
        pre.wf(),
        post.accounts == pre.accounts,
        post.user_accounts == pre.user_accounts,
        post.storage_balances.wf(),
        post.has_stake(id),
        post.stake_available(id) <= post.stake_total(id),
        stakes_unchanged_except(pre, post, id),
        pre.has_stake(id),
    ensures
        post.wf(),
{
    assert forall|id2: Seq<char>|
        #![trigger post.user_accounts.get_view(id2)]
        #![trigger post.storage_balances.get_view(id2)]
        post.user_accounts.get_view(id2) is Some <==> post.storage_balances.get_view(
            id2,
        ) is Some by {
        if id2 != id {
            assert(post.storage_balances.get_view(id2) == pre.storage_balances.get_view(id2));
        }
    }
    assert forall|id2: Seq<char>|
        #[trigger] post.storage_balances.get_view(id2) is Some implies post.stake_available(id2)
        <= post.stake_total(id2) by {
        if id2 != id {
            assert(post.storage_balances.get_view(id2) == pre.storage_balances.get_view(id2));
        } else {
            assert(post.stake_available(id) <= post.stake_total(id));
        }
    }
    assert forall|id2: Seq<char>, i: int|
        0 <= i < post.owned_list(id2).len() implies post.has_account(
        (#[trigger] post.owned_list(id2)[i])@,
    ) && post.account_owner(post.owned_list(id2)[i]@) == id2 by {
        assert(post.owned_list(id2) == pre.owned_list(id2));
        assert(pre.owned_list(id2)[i] == post.owned_list(id2)[i]);
    }
    assert forall|id2: Seq<char>, i: int, j: int|
        0 <= i < j < post.owned_list(id2).len() implies (#[trigger] post.owned_list(id2)[i])@ != (
    #[trigger] post.owned_list(id2)[j])@ by {
        assert(post.owned_list(id2) == pre.owned_list(id2));
        assert(pre.owned_list(id2)[i] == post.owned_list(id2)[i]);
        assert(pre.owned_list(id2)[j] == post.owned_list(id2)[j]);
    }
    assert forall|name: Seq<char>| #[trigger] post.has_account(name) implies post.is_registered(
        post.account_owner(name),
    ) && exists|i: int|
        0 <= i < post.owned_list(post.account_owner(name)).len() && (#[trigger] post.owned_list(
            post.account_owner(name),
        )[i])@ == name by {
        assert(pre.has_account(name));
        let owner = pre.account_owner(name);
        assert(post.account_owner(name) == owner);
        assert(post.owned_list(owner) == pre.owned_list(owner));
        let i = choose|i: int|
            0 <= i < pre.owned_list(owner).len() && (#[trigger] pre.owned_list(owner)[i])@ == name;
        assert(0 <= i < post.owned_list(owner).len() && (post.owned_list(owner)[i])@ == name);
    }
}

/// After adding a fresh registration (empty owned list and a bounded staking
/// balance) for an identity that had neither, a well-formed state stays
/// well-formed.
proof fn lemma_wf_after_register(pre: Contract, post: Contract, id: Seq<char>)
    requires
        pre.wf(),
        !pre.is_registered(id),
        post.accounts == pre.accounts,
        post.user_accounts.wf(),
        post.storage_balances.wf(),
        post.is_registered(id),
        post.owned_list(id).len() == 0,
        post.has_stake(id),
        post.stake_available(id) <= post.stake_total(id),
        users_unchanged_except(pre, post, id),
        stakes_unchanged_except(pre, post, id),
    ensures
        post.wf(),
{
    assert forall|id2: Seq<char>|
        #![trigger post.user_accounts.get_view(id2)]
        #![trigger post.storage_balances.get_view(id2)]
        post.user_accounts.get_view(id2) is Some <==> post.storage_balances.get_view(
            id2,
        ) is Some by {
        if id2 != id {
            assert(post.user_accounts.get_view(id2) == pre.user_accounts.get_view(id2));
            assert(post.storage_balances.get_view(id2) == pre.storage_balances.get_view(id2));
        }
    }
    assert forall|id2: Seq<char>|
        #[trigger] post.storage_balances.get_view(id2) is Some implies post.stake_available(id2)
        <= post.stake_total(id2) by {
        if id2 != id {
            assert(post.storage_balances.get_view(id2) == pre.storage_balances.get_view(id2));
        }
    }
    assert forall|id2: Seq<char>, i: int|
        0 <= i < post.owned_list(id2).len() implies post.has_account(
        (#[trigger] post.owned_list(id2)[i])@,
    ) && post.account_owner(post.owned_list(id2)[i]@) == id2 by {
        if id2 != id {
            assert(post.user_accounts.get_view(id2) == pre.user_accounts.get_view(id2));
            assert(pre.owned_list(id2)[i] == post.owned_list(id2)[i]);
        }
    }
    assert forall|id2: Seq<char>, i: int, j: int|
        0 <= i < j < post.owned_list(id2).len() implies (#[trigger] post.owned_list(id2)[i])@ != (
    #[trigger] post.owned_list(id2)[j])@ by {
        if id2 != id {
            assert(post.user_accounts.get_view(id2) == pre.user_accounts.get_view(id2));
            assert(pre.owned_list(id2)[i] == post.owned_list(id2)[i]);
            assert(pre.owned_list(id2)[j] == post.owned_list(id2)[j]);
        }
    }
    assert forall|name: Seq<char>| #[trigger] post.has_account(name) implies post.is_registered(
        post.account_owner(name),
    ) && exists|i: int|
        0 <= i < post.owned_list(post.account_owner(name)).len() && (#[trigger] post.owned_list(
            post.account_owner(name),
        )[i])@ == name by {
        assert(pre.has_account(name));
        let owner = pre.account_owner(name);
        assert(post.account_owner(name) == owner);
        assert(pre.is_registered(owner));
        assert(owner != id);
        assert(post.user_accounts.get_view(owner) == pre.user_accounts.get_view(owner));
        assert(post.owned_list(owner) == pre.owned_list(owner));
        let i = choose|i: int|
            0 <= i < pre.owned_list(owner).len() && (#[trigger] pre.owned_list(owner)[i])@ == name;
        assert(0 <= i < post.owned_list(owner).len() && (post.owned_list(owner)[i])@ == name);
    }
}

/// What `storage_withdraw` does: requires the exact one-unit payment and a
/// registered caller, then refunds the requested amount (or the whole
/// available balance) out of both `total` and `available`. Rent already
/// locked for existing entries stays locked.
pub open spec fn storage_withdraw_post(
    pre: Contract,
    post: Contract,
    env: Env,
    amount: Option<u128>,
    r: Result<(StorageBalance, Option<Payout>), LedgerError>,
) -> bool {
    let id = env.predecessor_account_id@;
    if env.attached_deposit != 1 {
        &&& post == pre
        &&& r == Result::<(StorageBalance, Option<Payout>), LedgerError>::Err(
            LedgerError::PaymentRequired,
        )
    } else if !pre.has_stake(id) {
        &&& post == pre
        &&& r == Result::<(StorageBalance, Option<Payout>), LedgerError>::Err(
            LedgerError::Unregistered,
        )
    } else {
        let total = pre.stake_total(id);
        let avail = pre.stake_available(id);
        let asked = match amount {
            Some(a) => a,
            None => avail,
        };
        if asked > avail {
            &&& post == pre
            &&& r == Result::<(StorageBalance, Option<Payout>), LedgerError>::Err(
                LedgerError::InsufficientFunds,
            )
        } else {
            &&& post.has_stake(id)
            &&& post.stake_total(id) as int == total - asked
            &&& post.stake_available(id) as int == avail - asked
            &&& post.user_accounts == pre.user_accounts
            &&& stakes_unchanged_except(pre, post, id)
            &&& r matches Ok((sb, p)) && sb.total as int == total - asked && sb.available as int
                == avail - asked && refund_payout(p, id, asked as int)
        }
    }
}

/// What `storage_unregister` does: `false` for a caller that never
/// registered; a rejection while accounts remain and `force` is not given;
/// otherwise every owned account, the owner record and the staking balance
/// are deleted and the whole `total` is refunded.
pub open spec fn storage_unregister_post(
    pre: Contract,
    post: Contract,
    env: Env,
    force: Option<bool>,
    r: Result<(bool, Option<Payout>), LedgerError>,
) -> bool {
    let id = env.predecessor_account_id@;
    let forced = force == Some(true);
    if env.attached_deposit != 1 {
        &&& post == pre
        &&& r == Result::<(bool, Option<Payout>), LedgerError>::Err(LedgerError::PaymentRequired)
    } else if !pre.is_registered(id) {
        &&& post == pre
        &&& r == Result::<(bool, Option<Payout>), LedgerError>::Ok((false, None))
    } else if pre.owned_list(id).len() > 0 && !forced {
        &&& post == pre
        &&& r == Result::<(bool, Option<Payout>), LedgerError>::Err(LedgerError::HasActiveAccounts)
    } else {
        &&& !post.is_registered(id)
        &&& !post.has_stake(id)
        &&& users_unchanged_except(pre, post, id)
        &&& stakes_unchanged_except(pre, post, id)
        &&& forall|name: Seq<char>|
            #[trigger] post.accounts.get_view(name) == (if pre.has_account(name)
                && pre.account_owner(name) == id {
                None::<Account>
            } else {
                pre.accounts.get_view(name)
            })
        &&& r matches Ok((done, p)) && done == true && (p matches Some(po) && po.receiver_id@
            == id && po.amount == pre.stake_total(id))
    }
}

/// The rent one account entry locks, at the current byte price.
pub open spec fn create_entry_cost(c: Contract, env: Env) -> int {
    (c.metadata.account_storage_usage as int) * (env.storage_byte_cost as int)
}

/// What `internal_create_account` does: gated on registration and on enough
/// available stake, it locks the account entry's rent, inserts the empty
/// account, and appends the name to the owner's list.
pub open spec fn internal_create_account_post(
    pre: Contract,
    post: Contract,
    env: Env,
    account_id: String,
    account_name: String,
    r: Result<(), LedgerError>,
) -> bool {
    let aid = account_id@;
    let name = account_name@;
    let cost = create_entry_cost(pre, env);
    if !pre.is_registered(aid) {
        &&& post == pre
        &&& r == Result::<(), LedgerError>::Err(LedgerError::Unregistered)
    } else if (pre.stake_available(aid) as int) < cost {
        &&& post == pre
        &&& r == Result::<(), LedgerError>::Err(LedgerError::InsufficientDeposit)
    } else {
        &&& post.has_account(name)
        &&& post.account_owner(name) == aid
        &&& post.account_balance(name) == 0
        &&& forall|n2: Seq<char>|
            n2 != name ==> #[trigger] post.accounts.get_view(n2) == pre.accounts.get_view(n2)
        &&& post.owned_list(aid) == pre.owned_list(aid).push(account_name)
        &&& users_unchanged_except(pre, post, aid)
        &&& post.has_stake(aid)
        &&& post.stake_total(aid) == pre.stake_total(aid)
        &&& post.stake_available(aid) as int == pre.stake_available(aid) - cost
        &&& stakes_unchanged_except(pre, post, aid)
        &&& r == Result::<(), LedgerError>::Ok(())
    }
}

impl Contract {
    /// Refunds staking deposit that is not locked for existing entries, per
    /// [`storage_withdraw_post`].
    pub fn storage_withdraw(&mut self, env: &Env, amount: Option<u128>) -> (r: Result<
        (StorageBalance, Option<Payout>),
        LedgerError,
    >)
        requires
            old(self).wf(),
        ensures
            final(self).wf(),
            final(self).metadata == old(self).metadata,
            final(self).total_transfer_fee == old(self).total_transfer_fee,
            final(self).accounts == old(self).accounts,
            storage_withdraw_post(*old(self), *final(self), *env, amount, r),
    {
        if env.attached_deposit != 1 {
            return Err(LedgerError::PaymentRequired);
        }
        let ghost id = env.predecessor_account_id@;
        let sb = match self.storage_balances.get(&env.predecessor_account_id) {
            Some(s) => *s,
            None => {
                return Err(LedgerError::Unregistered);
            },
        };
        let asked: u128 = match amount {
            Some(a) => a,
            None => sb.available,
        };
        if asked > sb.available {
            return Err(LedgerError::InsufficientFunds);
        }
        let new_sb = StorageBalance { total: sb.total - asked, available: sb.available - asked };
        self.storage_balances.insert(env.predecessor_account_id.clone(), new_sb);
        proof {
            lemma_wf_after_stake_update(*old(self), *self, id);
        }
        let payout = if asked > 0 {
            Some(Payout { receiver_id: env.predecessor_account_id.clone(), amount: asked })
        } else {
            None
        };
        Ok((new_sb, payout))
    }

    /// Deletes a registration and every account it owns, refunding the whole
    /// staking total, per [`storage_unregister_post`].
    pub fn storage_unregister(&mut self, env: &Env, force: Option<bool>) -> (r: Result<
        (bool, Option<Payout>),
        LedgerError,
    >)
        requires
            old(self).wf(),
        ensures
            final(self).wf(),
            final(self).metadata == old(self).metadata,
            final(self).total_transfer_fee == old(self).total_transfer_fee,
            storage_unregister_post(*old(self), *final(self), *env, force, r),
    {
        if env.attached_deposit != 1 {
            return Err(LedgerError::PaymentRequired);
        }
        let forced: bool = match force {
            Some(b) => b,
            None => false,
        };
        let ghost id = env.predecessor_account_id@;
        let has_accounts: bool = match self.user_accounts.get(&env.predecessor_account_id) {
            Some(l) => l.len() > 0,
            None => {
                return Ok((false, None));
            },
        };
        if has_accounts && !forced {
            return Err(LedgerError::HasActiveAccounts);
        }
        let names = match self.user_accounts.remove(&env.predecessor_account_id) {
            Some(l) => l,
            None => unreached(),
        };
        let sb = match self.storage_balances.remove(&env.predecessor_account_id) {
            Some(s) => s,
            None => unreached(),
        };
        proof {
            assert(names@ == old(self).owned_list(id));
        }
        let ghost mid = *self;
        let n = names.len();
        let mut i: usize = 0;
        while i < n
            invariant
                0 <= i <= n,
                n == names@.len(),
                self.accounts.wf(),
                self.metadata == mid.metadata,
                self.total_transfer_fee == mid.total_transfer_fee,
                self.user_accounts == mid.user_accounts,
                self.storage_balances == mid.storage_balances,
                forall|name: Seq<char>|
                    #[trigger] self.accounts.get_view(name) == (if exists|j: int|
                        0 <= j < i && (#[trigger] names@[j])@ == name {
                        None::<Account>
                    } else {
                        mid.accounts.get_view(name)
                    }),
            decreases n - i,
        {
            self.accounts.remove(&names[i]);
            proof {
                assert forall|name: Seq<char>|
                    #[trigger] self.accounts.get_view(name) == (if exists|j: int|
                        0 <= j < i + 1 && (#[trigger] names@[j])@ == name {
                        None::<Account>
                    } else {
                        mid.accounts.get_view(name)
                    }) by {
                    if name == names@[i as int]@ {
                        assert(exists|j: int| 0 <= j < i + 1 && (#[trigger] names@[j])@ == name);
                    }
                }
            }
            i = i + 1;
        }
        proof {
            lemma_wf_after_unregister(*old(self), *self, id, names@);
        }
        Ok((true, Some(Payout { receiver_id: env.predecessor_account_id.clone(), amount: sb.total })))
    }

    /// Creates an empty account for a registered identity, locking the
    /// account entry's rent out of the available stake, per
    /// [`internal_create_account_post`]. The caller guarantees the name is
    /// not taken.
    pub fn internal_create_account(&mut self, env: &Env, account_id: String, account_name: String)
        -> (r: Result<(), LedgerError>)
        requires
            old(self).wf(),
            !old(self).has_account(account_name@),
            create_entry_cost(*old(self), *env) <= u128::MAX as int,
        ensures
            final(self).wf(),
            final(self).metadata == old(self).metadata,
            final(self).total_transfer_fee == old(self).total_transfer_fee,
            internal_create_account_post(*old(self), *final(self), *env, account_id, account_name, r),
    {
        let sb = match self.storage_balances.get(&account_id) {
            Some(s) => *s,
            None => {
                return Err(LedgerError::Unregistered);
            },
        };
        let amount = (self.metadata.account_storage_usage as u128) * env.storage_byte_cost;
        if sb.available < amount {
            return Err(LedgerError::InsufficientDeposit);
        }
        let ghost aid = account_id@;
        let ghost name = account_name@;

        let new_sb = StorageBalance { total: sb.total, available: sb.available - amount };
        self.storage_balances.insert(account_id.clone(), new_sb);
        self.accounts.insert(
            account_name.clone(),
            Account { owner_id: account_id.clone(), balance: 0 },
        );
        let mut list = match self.user_accounts.get(&account_id) {
            Some(l) => crate::clone_names(l),
            None => unreached(),
        };
        list.push(account_name);
        self.user_accounts.insert(account_id, list);
        proof {
            assert(self.owned_list(aid) =~= old(self).owned_list(aid).push(
                self.owned_list(aid).last(),
            ));
            lemma_wf_after_create(*old(self), *self, aid, name);
        }
        Ok(())
    }
}

/// After deleting an identity's registration, staking balance, and every
/// account it owned, a well-formed state stays well-formed.
proof fn lemma_wf_after_unregister(pre: Contract, post: Contract, id: Seq<char>, names: Seq<String>)
    requires
        pre.wf(),
        pre.is_registered(id),
        names == pre.owned_list(id),
        post.accounts.wf(),
        post.user_accounts.wf(),
        post.storage_balances.wf(),
        !post.is_registered(id),
        !post.has_stake(id),
        users_unchanged_except(pre, post, id),
        stakes_unchanged_except(pre, post, id),
        forall|name: Seq<char>|
            #[trigger] post.accounts.get_view(name) == (if exists|j: int|
                0 <= j < names.len() && (#[trigger] names[j])@ == name {
                None::<Account>
            } else {
                pre.accounts.get_view(name)
            }),
    ensures
        post.wf(),
        forall|name: Seq<char>|
            #[trigger] post.accounts.get_view(name) == (if pre.has_account(name)
                && pre.account_owner(name) == id {
                None::<Account>
            } else {
                pre.accounts.get_view(name)
            }),
{
    assert forall|name: Seq<char>|
        #[trigger] post.accounts.get_view(name) == (if pre.has_account(name)
            && pre.account_owner(name) == id {
            None::<Account>
        } else {
            pre.accounts.get_view(name)
        }) by {
        if pre.has_account(name) && pre.account_owner(name) == id {
            let j = choose|j: int|
                0 <= j < pre.owned_list(id).len() && (#[trigger] pre.owned_list(id)[j])@ == name;
            assert(0 <= j < names.len() && names[j]@ == name);
        } else {
            if exists|j: int| 0 <= j < names.len() && (#[trigger] names[j])@ == name {
                let j = choose|j: int| 0 <= j < names.len() && (#[trigger] names[j])@ == name;
                assert(pre.has_account(names[j]@) && pre.account_owner(names[j]@) == id);
                assert(false);
            }
        }
    }
    assert forall|id2: Seq<char>|
        #![trigger post.user_accounts.get_view(id2)]
        #![trigger post.storage_balances.get_view(id2)]
        post.user_accounts.get_view(id2) is Some <==> post.storage_balances.get_view(
            id2,
        ) is Some by {
        if id2 != id {
            assert(post.user_accounts.get_view(id2) == pre.user_accounts.get_view(id2));
            assert(post.storage_balances.get_view(id2) == pre.storage_balances.get_view(id2));
        }
    }
    assert forall|id2: Seq<char>|
        #[trigger] post.storage_balances.get_view(id2) is Some implies post.stake_available(id2)
        <= post.stake_total(id2) by {
        if id2 != id {
            assert(post.storage_balances.get_view(id2) == pre.storage_balances.get_view(id2));
        }
    }
    assert forall|id2: Seq<char>, i: int|
        0 <= i < post.owned_list(id2).len() implies post.has_account(
        (#[trigger] post.owned_list(id2)[i])@,
    ) && post.account_owner(post.owned_list(id2)[i]@) == id2 by {
        if id2 != id {
            assert(post.user_accounts.get_view(id2) == pre.user_accounts.get_view(id2));
            assert(post.owned_list(id2) == pre.owned_list(id2));
            assert(pre.owned_list(id2)[i] == post.owned_list(id2)[i]);
            let nm = pre.owned_list(id2)[i]@;
            assert(pre.has_account(nm) && pre.account_owner(nm) == id2);
            assert(post.accounts.get_view(nm) == pre.accounts.get_view(nm));
        } else {
            assert(post.owned_list(id2).len() == 0);
        }
    }
    assert forall|id2: Seq<char>, i: int, j: int|
        0 <= i < j < post.owned_list(id2).len() implies (#[trigger] post.owned_list(id2)[i])@ != (
    #[trigger] post.owned_list(id2)[j])@ by {
        if id2 != id {
            assert(post.user_accounts.get_view(id2) == pre.user_accounts.get_view(id2));
            assert(pre.owned_list(id2)[i] == post.owned_list(id2)[i]);
            assert(pre.owned_list(id2)[j] == post.owned_list(id2)[j]);
        } else {
            assert(post.owned_list(id2).len() == 0);
        }
    }
    assert forall|name: Seq<char>| #[trigger] post.has_account(name) implies post.is_registered(
        post.account_owner(name),
    ) && exists|i: int|
        0 <= i < post.owned_list(post.account_owner(name)).len() && (#[trigger] post.owned_list(
            post.account_owner(name),
        )[i])@ == name by {
        assert(post.accounts.get_view(name) == pre.accounts.get_view(name));
        assert(pre.has_account(name));
        let owner = pre.account_owner(name);
        assert(post.account_owner(name) == owner);
        assert(owner != id);
        assert(post.user_accounts.get_view(owner) == pre.user_accounts.get_view(owner));
        assert(post.owned_list(owner) == pre.owned_list(owner));
        let i = choose|i: int|
            0 <= i < pre.owned_list(owner).len() && (#[trigger] pre.owned_list(owner)[i])@ == name;
        assert(0 <= i < post.owned_list(owner).len() && (post.owned_list(owner)[i])@ == name);
    }
}

/// After inserting a fresh account under a registered owner and appending
/// its name to that owner's list, a well-formed state stays well-formed.
proof fn lemma_wf_after_create(pre: Contract, post: Contract, aid: Seq<char>, name: Seq<char>)
    requires
        pre.wf(),
        pre.is_registered(aid),
        !pre.has_account(name),
        post.accounts.wf(),
        post.user_accounts.wf(),
        post.storage_balances.wf(),
        post.has_account(name),
        post.account_owner(name) == aid,
        forall|n2: Seq<char>|
            n2 != name ==> #[trigger] post.accounts.get_view(n2) == pre.accounts.get_view(n2),
        post.is_registered(aid),
        post.owned_list(aid).len() == pre.owned_list(aid).len() + 1,
        forall|k: int|
            0 <= k < pre.owned_list(aid).len() ==> #[trigger] post.owned_list(aid)[k]
                == pre.owned_list(aid)[k],
        post.owned_list(aid).last()@ == name,
        users_unchanged_except(pre, post, aid),
        post.has_stake(aid),
        post.stake_available(aid) <= post.stake_total(aid),
        stakes_unchanged_except(pre, post, aid),
    ensures
        post.wf(),
{
    assert forall|id2: Seq<char>|
        #![trigger post.user_accounts.get_view(id2)]
        #![trigger post.storage_balances.get_view(id2)]
        post.user_accounts.get_view(id2) is Some <==> post.storage_balances.get_view(
            id2,
        ) is Some by {
        if id2 != aid {
            assert(post.user_accounts.get_view(id2) == pre.user_accounts.get_view(id2));
            assert(post.storage_balances.get_view(id2) == pre.storage_balances.get_view(id2));
        }
    }
    assert forall|id2: Seq<char>|
        #[trigger] post.storage_balances.get_view(id2) is Some implies post.stake_available(id2)
        <= post.stake_total(id2) by {
        if id2 != aid {
            assert(post.storage_balances.get_view(id2) == pre.storage_balances.get_view(id2));
        }
    }
    // Every listed name is an account the lister owns.
    assert forall|id2: Seq<char>, i: int|
        0 <= i < post.owned_list(id2).len() implies post.has_account(
        (#[trigger] post.owned_list(id2)[i])@,
    ) && post.account_owner(post.owned_list(id2)[i]@) == id2 by {
        if id2 == aid {
            if i < pre.owned_list(aid).len() {
                assert(post.owned_list(aid)[i] == pre.owned_list(aid)[i]);
                let nm = pre.owned_list(aid)[i]@;
                assert(pre.has_account(nm) && pre.account_owner(nm) == aid);
                assert(nm != name);
                assert(post.accounts.get_view(nm) == pre.accounts.get_view(nm));
            } else {
                assert(post.owned_list(aid)[i] == post.owned_list(aid).last());
            }
        } else {
            assert(post.user_accounts.get_view(id2) == pre.user_accounts.get_view(id2));
            assert(post.owned_list(id2) == pre.owned_list(id2));
            assert(pre.owned_list(id2)[i] == post.owned_list(id2)[i]);
            let nm = pre.owned_list(id2)[i]@;
            assert(pre.has_account(nm) && pre.account_owner(nm) == id2);
            assert(nm != name);
            assert(post.accounts.get_view(nm) == pre.accounts.get_view(nm));
        }
    }
    // No duplicate names in any list.
    assert forall|id2: Seq<char>, i: int, j: int|
        0 <= i < j < post.owned_list(id2).len() implies (#[trigger] post.owned_list(id2)[i])@ != (
    #[trigger] post.owned_list(id2)[j])@ by {
        if id2 == aid {
            if j < pre.owned_list(aid).len() {
                assert(post.owned_list(aid)[i] == pre.owned_list(aid)[i]);
                assert(post.owned_list(aid)[j] == pre.owned_list(aid)[j]);
            } else {
                assert(post.owned_list(aid)[j] == post.owned_list(aid).last());
                assert(post.owned_list(aid)[i] == pre.owned_list(aid)[i]);
                let nm = pre.owned_list(aid)[i]@;
                assert(pre.has_account(nm));
                assert(nm != name);
            }
        } else {
            assert(post.user_accounts.get_view(id2) == pre.user_accounts.get_view(id2));
            assert(pre.owned_list(id2)[i] == post.owned_list(id2)[i]);
            assert(pre.owned_list(id2)[j] == post.owned_list(id2)[j]);
        }
    }
    // Every account is listed by its owner.
    assert forall|n2: Seq<char>| #[trigger] post.has_account(n2) implies post.is_registered(
        post.account_owner(n2),
    ) && exists|i: int|
        0 <= i < post.owned_list(post.account_owner(n2)).len() && (#[trigger] post.owned_list(
            post.account_owner(n2),
        )[i])@ == n2 by {
        if n2 == name {
            let i = post.owned_list(aid).len() - 1;
            assert(0 <= i < post.owned_list(aid).len() && (post.owned_list(aid)[i])@ == n2);
        } else {
            assert(post.accounts.get_view(n2) == pre.accounts.get_view(n2));
            assert(pre.has_account(n2));
            let owner = pre.account_owner(n2);
            assert(post.account_owner(n2) == owner);
            assert(pre.is_registered(owner));
            let i = choose|i: int|
                0 <= i < pre.owned_list(owner).len() && (#[trigger] pre.owned_list(owner)[i])@
                    == n2;
            if owner == aid {
                assert(post.owned_list(aid)[i] == pre.owned_list(aid)[i]);
                assert(0 <= i < post.owned_list(owner).len() && (post.owned_list(owner)[i])@
                    == n2);
            } else {
                assert(post.user_accounts.get_view(owner) == pre.user_accounts.get_view(owner));
                assert(post.owned_list(owner) == pre.owned_list(owner));
                assert(0 <= i < post.owned_list(owner).len() && (post.owned_list(owner)[i])@
                    == n2);
            }
        }
    }
}

impl Contract {
    /// What the host's storage-usage counter reads: the persisted size of
    /// every entry the contract currently holds.
    pub fn storage_usage(&self) -> (r: u64)
        requires
            spec_storage_usage(*self) <= u64::MAX,
        ensures
            r as int == spec_storage_usage(*self),
    {
        proof {
            lemma_costs_nonneg(*self);
        }
        let mut total: u64 = 0;

        let accounts = &self.accounts.entries;
        let n_accounts = accounts.len();
        let mut i: usize = 0;
        while i < n_accounts
            invariant
                0 <= i <= n_accounts,
                n_accounts == accounts@.len(),
                accounts == self.accounts.entries,
                spec_storage_usage(*self) <= u64::MAX,
                users_cost(self.user_accounts.entries@) >= 0,
                stakes_cost(self.storage_balances.entries@) >= 0,
                total as int == accounts_cost(accounts@.take(i as int)),
            decreases n_accounts - i,
        {
            proof {
                lemma_accounts_cost_take_step(accounts@, i as int);
                lemma_accounts_cost_take_bound(accounts@, i as int + 1);
                lemma_accounts_cost_take_bound(accounts@, i as int);
            }
            let name_len = accounts[i].0.as_str().len();
            let owner_len = accounts[i].1.owner_id.as_str().len();
            total = total + KEY_OVERHEAD + (name_len as u64) + STRING_OVERHEAD + (owner_len
                as u64) + BALANCE_BYTES;
            i = i + 1;
        }
        proof {
            assert(accounts@.take(n_accounts as int) =~= accounts@);
        }

        let users = &self.user_accounts.entries;
        let n_users = users.len();
        let mut j: usize = 0;
        while j < n_users
            invariant
                0 <= j <= n_users,
                n_users == users@.len(),
                users == self.user_accounts.entries,
                spec_storage_usage(*self) <= u64::MAX,
                total as int == accounts_cost(self.accounts.entries@) + users_cost(
                    users@.take(j as int),
                ),
                accounts_cost(self.accounts.entries@) >= 0,
                stakes_cost(self.storage_balances.entries@) >= 0,
            decreases n_users - j,
        {
            proof {
                lemma_users_cost_take_step(users@, j as int);
                lemma_users_cost_take_bound(users@, j as int + 1);
                lemma_users_cost_nonneg(users@.take(j as int));
                lemma_names_cost_nonneg(users@[j as int].1@);
            }
            let id_len = users[j].0.as_str().len();
            let list_bytes = names_bytes(&users[j].1);
            total = total + KEY_OVERHEAD + (id_len as u64) + STRING_OVERHEAD + list_bytes;
            j = j + 1;
        }
        proof {
            assert(users@.take(n_users as int) =~= users@);
        }

        let stakes = &self.storage_balances.entries;
        let n_stakes = stakes.len();
        let mut k: usize = 0;
        while k < n_stakes
            invariant
                0 <= k <= n_stakes,
                n_stakes == stakes@.len(),
                stakes == self.storage_balances.entries,
                spec_storage_usage(*self) <= u64::MAX,
                total as int == accounts_cost(self.accounts.entries@) + users_cost(
                    self.user_accounts.entries@,
                ) + stakes_cost(stakes@.take(k as int)),
            decreases n_stakes - k,
        {
            proof {
                lemma_stakes_cost_take_step(stakes@, k as int);
                lemma_stakes_cost_take_bound(stakes@, k as int + 1);
                lemma_stakes_cost_take_bound(stakes@, k as int);
            }
            let id_len = stakes[k].0.as_str().len();
            total = total + KEY_OVERHEAD + (id_len as u64) + STAKE_BYTES;
            k = k + 1;
        }
        proof {
            assert(stakes@.take(n_stakes as int) =~= stakes@);
        }
        total
    }
}

} // verus!
