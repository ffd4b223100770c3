//! A verified sub-account ledger: named balances carved out under owning
//! identities, funded by a storage-staking deposit, with a fee skimmed on
//! transfers that cross ownership boundaries.
//!
//! The host execution environment (caller identities, attached deposit,
//! storage byte price) is handed in as plain values; outbound transfers are
//! handed back as [`host::Payout`] values for the host to perform.
pub mod host;
pub mod kvmap;
pub mod laws;
pub mod msg;
pub mod receiver;
pub mod storage;

use crate::host::{Env, Payout};
use crate::kvmap::KvTable;
use crate::storage::{StorageBalance, ACCOUNT_NAME_MAX_LENGTH};
use vstd::pervasive::unreached;
use vstd::prelude::*;
use vstd::string::StringExecFns;

verus! {

/// Why a call was rejected. Every operation aborts with one of these before
/// any state is mutated; a returned error leaves the ledger unchanged.
#[derive(Clone, Copy, Debug, PartialEq, Eq)]
pub enum LedgerError {
    /// The acting identity has not registered.
    Unregistered,
    /// The account name exceeds the accepted length.
    NameTooLong,
    /// An account with this name already exists.
    NameCollision,
    /// The attached deposit does not cover the required storage cost.
    InsufficientDeposit,
    /// The caller does not own the named account, or is not the operator.
    Unauthorized,
    /// No account with this name exists.
    AccountNotFound,
    /// The sending account of a transfer does not exist.
    SenderNotFound,
    /// The receiving account of a transfer does not exist.
    ReceiverNotFound,
    /// A checked subtraction of funds would underflow.
    InsufficientFunds,
    /// A checked addition of funds would overflow.
    Overflow,
    /// The identity still owns accounts and `force` was not given.
    HasActiveAccounts,
    /// The call must attach exactly one unit of native currency.
    PaymentRequired,
    /// A deposit notification came from an identity other than the
    /// configured external value-holding service.
    UnsupportedSource,
    /// The notification's action is not one this ledger supports.
    UnsupportedAction,
    /// The notification's message failed to decode.
    InvalidMessage,
    /// The deposit payload failed to decode.
    InvalidPayload,
}

/// One named balance, owned by exactly one identity.
#[derive(Debug, PartialEq, Eq)]
pub struct Account {
    pub owner_id: String,
    pub balance: u128,
}

/// Configuration fixed at construction: the operator, the external token
/// service, the fee ratio, and the measured storage price table.
#[derive(Clone, Debug, PartialEq, Eq)]
pub struct ContractMetadata {
    pub owner_id: String,
    pub token_id: String,
    pub transfer_fee_numerator: u128,
    pub transfer_fee_denominator: u128,
    pub user_storage_usage: u64,
    pub account_storage_usage: u64,
}

/// The root aggregate: ledger, owner index, staking pool, fee accumulator,
/// and configuration.
pub struct Contract {
    pub metadata: ContractMetadata,
    pub total_transfer_fee: u128,
    pub accounts: KvTable<Account>,
    pub user_accounts: KvTable<Vec<String>>,
    pub storage_balances: KvTable<StorageBalance>,
}

/// Fee skimmed on a cross-owner transfer: `floor(amount * numerator /
/// denominator)`, degrading to zero when the intermediate product overflows
/// or the denominator is zero, rather than failing the transfer.
pub open spec fn transfer_fee(amount: u128, numerator: u128, denominator: u128) -> u128 {
    if denominator == 0 || amount * numerator > u128::MAX {
        0
    } else {
        ((amount * numerator) / (denominator as int)) as u128
    }
}

/// Computes the cross-owner transfer fee with saturating-to-zero semantics on
/// the overflow and division-by-zero edge cases.
pub fn compute_transfer_fee(amount: u128, numerator: u128, denominator: u128) -> (fee: u128)
    ensures
        fee == transfer_fee(amount, numerator, denominator),
{
    match amount.checked_mul(numerator) {
        Some(product) => match product.checked_div(denominator) {
            Some(fee) => fee,
            None => 0,
        },
        None => 0,
    }
}

impl Contract {
    /// Whether the identity has registered (has an owner-index entry).
    pub open spec fn is_registered(self, id: Seq<char>) -> bool {
        self.user_accounts.get_view(id) is Some
    }

    /// The names the identity owns, as stored.
    pub open spec fn owned_list(self, id: Seq<char>) -> Seq<String> {
        match self.user_accounts.get_view(id) {
            Some(l) => l@,
            None => Seq::empty(),
        }
    }

    /// Whether an account with this name exists.
    pub open spec fn has_account(self, name: Seq<char>) -> bool {
        self.accounts.get_view(name) is Some
    }

    /// The owning identity of the named account.
    pub open spec fn account_owner(self, name: Seq<char>) -> Seq<char> {
        match self.accounts.get_view(name) {
            Some(a) => a.owner_id@,
            None => Seq::empty(),
        }
    }

    /// The balance of the named account.
    pub open spec fn account_balance(self, name: Seq<char>) -> u128 {
        match self.accounts.get_view(name) {
            Some(a) => a.balance,
            None => 0,
        }
    }

    /// Whether the identity has a staking balance.
    pub open spec fn has_stake(self, id: Seq<char>) -> bool {
        self.storage_balances.get_view(id) is Some
    }

    /// The identity's cumulative staking deposit.
    pub open spec fn stake_total(self, id: Seq<char>) -> u128 {
        match self.storage_balances.get_view(id) {
            Some(sb) => sb.total,
            None => 0,
        }
    }

    /// The identity's unreserved staking deposit.
    pub open spec fn stake_available(self, id: Seq<char>) -> u128 {
        match self.storage_balances.get_view(id) {
            Some(sb) => sb.available,
            None => 0,
        }
    }

    /// What `get_balance` reports: the balance, or an explicit absence.
    pub open spec fn balance_of_view(self, name: Seq<char>) -> Option<u128> {
        if self.has_account(name) {
            Some(self.account_balance(name))
        } else {
            None
        }
    }

    /// Well-formedness, established by the constructor and preserved by every
    /// operation: keys are unique in each namespace; an identity is
    /// registered exactly when it has a staking balance; no staking balance
    /// has more available than total; the owner index lists exactly the
    /// accounts each identity owns, without duplicates.
    pub open spec fn wf(self) -> bool {
        &&& self.accounts.wf()
        &&& self.user_accounts.wf()
        &&& self.storage_balances.wf()
        &&& forall|id: Seq<char>|
            #![trigger self.user_accounts.get_view(id)]
            #![trigger self.storage_balances.get_view(id)]
            self.user_accounts.get_view(id) is Some <==> self.storage_balances.get_view(
                id,
            ) is Some
        &&& forall|id: Seq<char>|
            #[trigger] self.storage_balances.get_view(id) matches Some(sb) ==> sb.available
                <= sb.total
        &&& forall|id: Seq<char>, i: int|
            0 <= i < self.owned_list(id).len() ==> self.has_account(
                (#[trigger] self.owned_list(id)[i])@,
            ) && self.account_owner(self.owned_list(id)[i]@) == id
        &&& forall|id: Seq<char>, i: int, j: int|
            0 <= i < j < self.owned_list(id).len() ==> (#[trigger] self.owned_list(id)[i])@ != (
            #[trigger] self.owned_list(id)[j])@
        &&& forall|name: Seq<char>|
            #[trigger] self.has_account(name) ==> self.is_registered(self.account_owner(name))
                && exists|i: int|
                0 <= i < self.owned_list(self.account_owner(name)).len() && (
                #[trigger] self.owned_list(self.account_owner(name))[i])@ == name
    }

    /// Returns the contract's configuration.
    pub fn get_metadata(&self) -> (r: ContractMetadata)
        ensures
            r == self.metadata,
    {
        ContractMetadata {
            owner_id: self.metadata.owner_id.clone(),
            token_id: self.metadata.token_id.clone(),
            transfer_fee_numerator: self.metadata.transfer_fee_numerator,
            transfer_fee_denominator: self.metadata.transfer_fee_denominator,
            user_storage_usage: self.metadata.user_storage_usage,
            account_storage_usage: self.metadata.account_storage_usage,
        }
    }

    /// Returns the names the identity owns, or `None` if it never registered.
    pub fn get_accounts(&self, account_id: String) -> (r: Option<Vec<String>>)
        ensures
            match r {
                Some(l) => self.is_registered(account_id@) && l@ == self.owned_list(account_id@),
                None => !self.is_registered(account_id@),
            },
    {
        match self.user_accounts.get(&account_id) {
            Some(l) => Some(clone_names(l)),
            None => None,
        }
    }

    /// Returns the named account's balance, distinguishing a missing account
    /// from a zero balance.
    pub fn get_balance(&self, account_name: String) -> (r: Option<u128>)
        ensures
            r == self.balance_of_view(account_name@),
    {
        match self.accounts.get(&account_name) {
            Some(a) => Some(a.balance),
            None => None,
        }
    }
}

impl Contract {
    /// Initializes the contract: empty ledger, zero accumulated fee, the fee
    /// ratio as given, and the storage price table measured by a trial
    /// write/remove cycle. Run exactly once, before any call is accepted;
    /// the host-side guard against double initialization stays with the host.
    pub fn new(
        owner_id: String,
        token_id: String,
        transfer_fee_numerator: u128,
        transfer_fee_denominator: u128,
    ) -> (r: Contract)
        ensures
            r.wf(),
            r.metadata.owner_id == owner_id,
            r.metadata.token_id == token_id,
            r.metadata.transfer_fee_numerator == transfer_fee_numerator,
            r.metadata.transfer_fee_denominator == transfer_fee_denominator,
            r.metadata.user_storage_usage as int == storage::user_register_cost(),
            r.metadata.account_storage_usage as int == storage::account_create_cost(),
            r.total_transfer_fee == 0,
            forall|name: Seq<char>| !(#[trigger] r.has_account(name)),
            forall|id: Seq<char>| !(#[trigger] r.is_registered(id)),
            forall|id: Seq<char>| !(#[trigger] r.has_stake(id)),
    {
        let mut this = Contract {
            metadata: ContractMetadata {
                owner_id,
                token_id,
                transfer_fee_numerator,
                transfer_fee_denominator,
                user_storage_usage: 0,
                account_storage_usage: 0,
            },
            total_transfer_fee: 0,
            accounts: KvTable::new(),
            user_accounts: KvTable::new(),
            storage_balances: KvTable::new(),
        };
        this.measure_account_storage_usage();
        this
    }

    /// The storage bootstrap: measures what one registration and one account
    /// entry cost by writing synthetic maximal-length entries, diffing the
    /// usage counter, and removing them again. The measured byte counts
    /// become the standing price table.
    fn measure_account_storage_usage(&mut self)
        requires
            old(self).accounts.entries@.len() == 0,
            old(self).user_accounts.entries@.len() == 0,
            old(self).storage_balances.entries@.len() == 0,
        ensures
            final(self).metadata.user_storage_usage as int == storage::user_register_cost(),
            final(self).metadata.account_storage_usage as int == storage::account_create_cost(),
            final(self).metadata.owner_id == old(self).metadata.owner_id,
            final(self).metadata.token_id == old(self).metadata.token_id,
            final(self).metadata.transfer_fee_numerator == old(
                self,
            ).metadata.transfer_fee_numerator,
            final(self).metadata.transfer_fee_denominator == old(
                self,
            ).metadata.transfer_fee_denominator,
            final(self).total_transfer_fee == old(self).total_transfer_fee,
            final(self).accounts.entries@ == old(self).accounts.entries@,
            final(self).user_accounts.entries@ == old(self).user_accounts.entries@,
            final(self).storage_balances.entries@ == old(self).storage_balances.entries@,
    {
        let initial_storage_usage = self.storage_usage();
        let tmp_account_id = ascii_run(64);
        let tmp_account_name = ascii_run(ACCOUNT_NAME_MAX_LENGTH);

        // Measure the cost of registering a user: an empty owner-index entry
        // plus a staking-balance entry.
        self.user_accounts.insert(tmp_account_id.clone(), Vec::new());
        self.storage_balances.insert(
            tmp_account_id.clone(),
            StorageBalance { total: 0, available: 0 },
        );
        proof {
            assert(kvmap::KvTable::<Vec<String>>::seq_get(
                old(self).user_accounts.entries@,
                tmp_account_id@,
            ) is None);
            assert(kvmap::KvTable::<StorageBalance>::seq_get(
                old(self).storage_balances.entries@,
                tmp_account_id@,
            ) is None);
            let ue = self.user_accounts.entries@;
            assert(ue.len() == 1);
            assert(ue.drop_last() =~= Seq::<(String, Vec<String>)>::empty());
            assert(storage::names_cost(ue.last().1@) == 0);
            assert(storage::users_cost(ue.drop_last()) == 0);
            assert(storage::users_cost(ue) == storage::user_entry_cost(
                ue.last().0@,
                ue.last().1@,
            ));
            let se = self.storage_balances.entries@;
            assert(se.len() == 1);
            assert(se.drop_last() =~= Seq::<(String, StorageBalance)>::empty());
            assert(storage::stakes_cost(se.drop_last()) == 0);
            assert(storage::stakes_cost(se) == storage::stake_entry_cost(se.last().0@));
        }
        let after_user = self.storage_usage();
        self.metadata.user_storage_usage = after_user - initial_storage_usage;

        // Measure the cost of creating an account: its ledger entry plus the
        // growth of the owner's list.
        let initial_storage_usage = self.storage_usage();
        let mut tmp_list: Vec<String> = Vec::new();
        tmp_list.push(tmp_account_name.clone());
        self.accounts.insert(
            tmp_account_name.clone(),
            Account { owner_id: tmp_account_id.clone(), balance: 0 },
        );
        self.user_accounts.insert(tmp_account_id.clone(), tmp_list);
        proof {
            let ae = self.accounts.entries@;
            assert(ae.drop_last() =~= Seq::<(String, Account)>::empty());
            assert(storage::accounts_cost(ae.drop_last()) == 0);
            assert(storage::accounts_cost(ae) == storage::account_entry_cost(
                ae.last().0@,
                ae.last().1.owner_id@,
            ));
            let ue = self.user_accounts.entries@;
            assert(ue.len() == 1);
            assert(ue.drop_last() =~= Seq::<(String, Vec<String>)>::empty());
            assert(storage::users_cost(ue.drop_last()) == 0);
            assert(ue.last().1@.drop_last() =~= Seq::<String>::empty());
            assert(storage::names_cost(ue.last().1@.drop_last()) == 0);
            assert(storage::names_cost(ue.last().1@) == storage::name_slot_cost(
                ue.last().1@.last()@,
            ));
            assert(storage::users_cost(ue) == storage::user_entry_cost(
                ue.last().0@,
                ue.last().1@,
            ));
        }
        let after_account = self.storage_usage();
        self.metadata.account_storage_usage = after_account - initial_storage_usage;

        // Remove the synthetic entries so they do not pollute the ledger.
        self.accounts.remove(&tmp_account_name);
        self.user_accounts.remove(&tmp_account_id);
        self.storage_balances.remove(&tmp_account_id);
        proof {
            assert(self.accounts.entries@ =~= old(self).accounts.entries@);
            assert(self.user_accounts.entries@ =~= old(self).user_accounts.entries@);
            assert(self.storage_balances.entries@ =~= old(self).storage_balances.entries@);
        }
    }
}

/// Builds a string of `len` ASCII characters, so its serialized byte length
/// equals `len`.
fn ascii_run(len: usize) -> (r: String)
    ensures
        storage::str_bytes(r@) == len as int,
{
    let mut s = String::new();
    let mut i: usize = 0;
    while i < len
        invariant
            0 <= i <= len,
            s@.len() == i,
            vstd::utf8::is_ascii_chars(s@),
        decreases len - i,
    {
        let ghost prev = s@;
        s.append("a");
        proof {
            reveal_strlit("a");
            assert(s@ =~= prev + "a"@);
            vstd::utf8::is_ascii_chars_concat(s@, prev, "a"@);
        }
        i = i + 1;
    }
    proof {
        vstd::utf8::is_ascii_chars_encode_utf8(s@);
    }
    s
}

/// What `create_account` does: gated on registration, name length, name
/// uniqueness and arithmetic, it deposits the attached amount into the
/// signer's staking balance and creates the empty account, atomically.
pub open spec fn create_account_post(
    pre: Contract,
    post: Contract,
    env: Env,
    account_name: String,
    r: Result<(), LedgerError>,
) -> bool {
    let signer = env.signer_account_id@;
    let name = account_name@;
    let attached = env.attached_deposit;
    let cost = storage::create_entry_cost(pre, env);
    if !pre.is_registered(signer) {
        &&& post == pre
        &&& r == Result::<(), LedgerError>::Err(LedgerError::Unregistered)
    } else if storage::str_bytes(name) > ACCOUNT_NAME_MAX_LENGTH {
        &&& post == pre
        &&& r == Result::<(), LedgerError>::Err(LedgerError::NameTooLong)
    } else if pre.has_account(name) {
        &&& post == pre
        &&& r == Result::<(), LedgerError>::Err(LedgerError::NameCollision)
    } else if pre.stake_total(signer) + attached > u128::MAX {
        &&& post == pre
        &&& r == Result::<(), LedgerError>::Err(LedgerError::Overflow)
    } else if pre.stake_available(signer) + attached < cost {
        &&& post == pre
        &&& r == Result::<(), LedgerError>::Err(LedgerError::InsufficientDeposit)
    } else {
        &&& post.has_account(name)
        &&& post.account_owner(name) == signer
        &&& post.account_balance(name) == 0
        &&& forall|n2: Seq<char>|
            n2 != name ==> #[trigger] post.accounts.get_view(n2) == pre.accounts.get_view(n2)
        &&& post.owned_list(signer) == pre.owned_list(signer).push(account_name)
        &&& storage::users_unchanged_except(pre, post, signer)
        &&& post.has_stake(signer)
        &&& post.stake_total(signer) as int == pre.stake_total(signer) + attached
        &&& post.stake_available(signer) as int == pre.stake_available(signer) + attached - cost
        &&& storage::stakes_unchanged_except(pre, post, signer)
        &&& r == Result::<(), LedgerError>::Ok(())
    }
}

/// What `withdraw` does: gated on the one-unit payment, registration,
/// existence, ownership and funds, it debits the account and asks the host
/// to pay the signer through the token service - unless the contract is
/// paying itself, which is skipped.
pub open spec fn withdraw_post(
    pre: Contract,
    post: Contract,
    env: Env,
    account_name: String,
    amount: u128,
    r: Result<Option<Payout>, LedgerError>,
) -> bool {
    let signer = env.signer_account_id@;
    let name = account_name@;
    if env.attached_deposit != 1 {
        &&& post == pre
        &&& r == Result::<Option<Payout>, LedgerError>::Err(LedgerError::PaymentRequired)
    } else if !pre.is_registered(signer) {
        &&& post == pre
        &&& r == Result::<Option<Payout>, LedgerError>::Err(LedgerError::Unregistered)
    } else if !pre.has_account(name) {
        &&& post == pre
        &&& r == Result::<Option<Payout>, LedgerError>::Err(LedgerError::AccountNotFound)
    } else if pre.account_owner(name) != signer {
        &&& post == pre
        &&& r == Result::<Option<Payout>, LedgerError>::Err(LedgerError::Unauthorized)
    } else if amount > pre.account_balance(name) {
        &&& post == pre
        &&& r == Result::<Option<Payout>, LedgerError>::Err(LedgerError::InsufficientFunds)
    } else {
        &&& post.has_account(name)
        &&& post.account_owner(name) == signer
        &&& post.account_balance(name) as int == pre.account_balance(name) - amount
        &&& forall|n2: Seq<char>|
            n2 != name ==> #[trigger] post.accounts.get_view(n2) == pre.accounts.get_view(n2)
        &&& post.user_accounts == pre.user_accounts
        &&& post.storage_balances == pre.storage_balances
        &&& if env.current_account_id@ != signer {
            r matches Ok(p) && (p matches Some(po) && po.receiver_id@ == signer && po.amount
                == amount)
        } else {
            r == Result::<Option<Payout>, LedgerError>::Ok(None)
        }
    }
}

/// What `transfer` does. Both accounts must exist and the signer must own
/// the sender. A transfer between two distinct accounts debits the sender by
/// `amount` and credits the receiver with `amount` less the fee, which is
/// zero unless ownership changes hands; the fee accrues to the operator's
/// accumulator. A transfer from an account to itself moves nothing and
/// conserves every balance.
pub open spec fn transfer_post(
    pre: Contract,
    post: Contract,
    env: Env,
    sender_account_name: String,
    receiver_account_name: String,
    amount: u128,
    r: Result<(), LedgerError>,
) -> bool {
    let signer = env.signer_account_id@;
    let s = sender_account_name@;
    let t = receiver_account_name@;
    if !pre.is_registered(signer) {
        &&& post == pre
        &&& r == Result::<(), LedgerError>::Err(LedgerError::Unregistered)
    } else if !pre.has_account(s) {
        &&& post == pre
        &&& r == Result::<(), LedgerError>::Err(LedgerError::SenderNotFound)
    } else if pre.account_owner(s) != signer {
        &&& post == pre
        &&& r == Result::<(), LedgerError>::Err(LedgerError::Unauthorized)
    } else if !pre.has_account(t) {
        &&& post == pre
        &&& r == Result::<(), LedgerError>::Err(LedgerError::ReceiverNotFound)
    } else if amount > pre.account_balance(s) {
        &&& post == pre
        &&& r == Result::<(), LedgerError>::Err(LedgerError::InsufficientFunds)
    } else if s == t {
        &&& post == pre
        &&& r == Result::<(), LedgerError>::Ok(())
    } else if pre.account_balance(t) + amount > u128::MAX {
        &&& post == pre
        &&& r == Result::<(), LedgerError>::Err(LedgerError::Overflow)
    } else {
        let fee: int = if pre.account_owner(t) == signer {
            0
        } else {
            transfer_fee(
                amount,
                pre.metadata.transfer_fee_numerator,
                pre.metadata.transfer_fee_denominator,
            ) as int
        };
        if pre.account_balance(t) + amount < fee {
            &&& post == pre
            &&& r == Result::<(), LedgerError>::Err(LedgerError::InsufficientFunds)
        } else if pre.total_transfer_fee + fee > u128::MAX {
            &&& post == pre
            &&& r == Result::<(), LedgerError>::Err(LedgerError::Overflow)
        } else {
            &&& post.has_account(s) && post.has_account(t)
            &&& post.account_owner(s) == pre.account_owner(s)
            &&& post.account_owner(t) == pre.account_owner(t)
            &&& post.account_balance(s) as int == pre.account_balance(s) - amount
            &&& post.account_balance(t) as int == pre.account_balance(t) + amount - fee
            &&& post.total_transfer_fee as int == pre.total_transfer_fee + fee
            &&& forall|n2: Seq<char>|
                n2 != s && n2 != t ==> #[trigger] post.accounts.get_view(n2)
                    == pre.accounts.get_view(n2)
            &&& post.user_accounts == pre.user_accounts
            &&& post.storage_balances == pre.storage_balances
            &&& r == Result::<(), LedgerError>::Ok(())
        }
    }
}

/// What `withdraw_transfer_fee` does: only the operator may drain the fee
/// accumulator, and the host is asked to pay the operator through the token
/// service - unless the operator is the contract's own identity, in which
/// case the fee is still deducted and the self-payout is skipped, as in
/// `withdraw`.
pub open spec fn withdraw_transfer_fee_post(
    pre: Contract,
    post: Contract,
    env: Env,
    amount: u128,
    r: Result<Option<Payout>, LedgerError>,
) -> bool {
    if env.attached_deposit != 1 {
        &&& post == pre
        &&& r == Result::<Option<Payout>, LedgerError>::Err(LedgerError::PaymentRequired)
    } else if env.signer_account_id@ != pre.metadata.owner_id@ {
        &&& post == pre
        &&& r == Result::<Option<Payout>, LedgerError>::Err(LedgerError::Unauthorized)
    } else if amount > pre.total_transfer_fee {
        &&& post == pre
        &&& r == Result::<Option<Payout>, LedgerError>::Err(LedgerError::InsufficientFunds)
    } else {
        &&& post.total_transfer_fee as int == pre.total_transfer_fee - amount
        &&& post.accounts == pre.accounts
        &&& post.user_accounts == pre.user_accounts
        &&& post.storage_balances == pre.storage_balances
        &&& if env.current_account_id@ != env.signer_account_id@ {
            r matches Ok(p) && (p matches Some(po) && po.receiver_id@ == pre.metadata.owner_id@
                && po.amount == amount)
        } else {
            r == Result::<Option<Payout>, LedgerError>::Ok(None)
        }
    }
}

impl Contract {
    /// Rewrites the balance of an existing account, keeping its owner.
    pub(crate) fn set_account_balance(&mut self, name: &String, new_balance: u128)
        requires
            old(self).accounts.wf(),
            old(self).has_account(name@),
        ensures
            final(self).accounts.wf(),
            final(self).has_account(name@),
            final(self).account_owner(name@) == old(self).account_owner(name@),
            final(self).account_balance(name@) == new_balance,
            forall|n2: Seq<char>|
                n2 != name@ ==> #[trigger] final(self).accounts.get_view(n2) == old(
                    self,
                ).accounts.get_view(n2),
            final(self).metadata == old(self).metadata,
            final(self).total_transfer_fee == old(self).total_transfer_fee,
            final(self).user_accounts == old(self).user_accounts,
            final(self).storage_balances == old(self).storage_balances,
    {
        let acc = match self.accounts.remove(name) {
            Some(a) => a,
            None => unreached(),
        };
        self.accounts.insert(
            name.clone(),
            Account { owner_id: acc.owner_id, balance: new_balance },
        );
    }

    /// Creates a new account named by the signer, per
    /// [`create_account_post`]. The attached deposit is added to the
    /// signer's staking balance before the account entry's rent is locked;
    /// nothing is persisted when any step would fail.
    pub fn create_account(&mut self, env: &Env, account_name: String) -> (r: Result<
        (),
        LedgerError,
    >)
        requires
            old(self).wf(),
            storage::storage_min_deposit(*old(self), *env) <= u128::MAX as int,
            storage::create_entry_cost(*old(self), *env) <= u128::MAX as int,
        ensures
            final(self).wf(),
            final(self).metadata == old(self).metadata,
            final(self).total_transfer_fee == old(self).total_transfer_fee,
            create_account_post(*old(self), *final(self), *env, account_name, r),
    {
        if !self.user_accounts.contains_key(&env.signer_account_id) {
            return Err(LedgerError::Unregistered);
        }
        if account_name.as_str().len() > ACCOUNT_NAME_MAX_LENGTH {
            return Err(LedgerError::NameTooLong);
        }
        if self.accounts.contains_key(&account_name) {
            return Err(LedgerError::NameCollision);
        }
        // Check the arithmetic up front: a failed creation must leave no
        // partial deposit behind.
        let sb = match self.storage_balances.get(&env.signer_account_id) {
            Some(s) => *s,
            None => unreached(),
        };
        let attached = env.attached_deposit;
        match sb.total.checked_add(attached) {
            Some(_) => (),
            None => {
                return Err(LedgerError::Overflow);
            },
        };
        let avail_after = match sb.available.checked_add(attached) {
            Some(a) => a,
            None => unreached(),
        };
        let cost = (self.metadata.account_storage_usage as u128) * env.storage_byte_cost;
        if avail_after < cost {
            return Err(LedgerError::InsufficientDeposit);
        }
        match self.storage_deposit(env, Some(env.signer_account_id.clone()), None) {
            Ok(_) => (),
            Err(_) => unreached(),
        };
        match self.internal_create_account(env, env.signer_account_id.clone(), account_name) {
            Ok(()) => Ok(()),
            Err(_) => unreached(),
        }
    }

    /// Debits the named account and asks the host to pay the signer through
    /// the external token service, per [`withdraw_post`].
    pub fn withdraw(&mut self, env: &Env, account_name: String, amount: u128) -> (r: Result<
        Option<Payout>,
        LedgerError,
    >)
        requires
            old(self).wf(),
        ensures
            final(self).wf(),
            final(self).metadata == old(self).metadata,
            final(self).total_transfer_fee == old(self).total_transfer_fee,
            withdraw_post(*old(self), *final(self), *env, account_name, amount, r),
    {
        if env.attached_deposit != 1 {
            return Err(LedgerError::PaymentRequired);
        }
        if !self.user_accounts.contains_key(&env.signer_account_id) {
            return Err(LedgerError::Unregistered);
        }
        let (balance, authorized) = match self.accounts.get(&account_name) {
            None => {
                return Err(LedgerError::AccountNotFound);
            },
            Some(a) => (a.balance, a.owner_id == env.signer_account_id),
        };
        if !authorized {
            return Err(LedgerError::Unauthorized);
        }
        let new_balance = match balance.checked_sub(amount) {
            Some(b) => b,
            None => {
                return Err(LedgerError::InsufficientFunds);
            },
        };
        self.set_account_balance(&account_name, new_balance);
        proof {
            lemma_wf_accounts_same_shape(*old(self), *self);
        }
        if env.current_account_id != env.signer_account_id {
            Ok(Some(Payout { receiver_id: env.signer_account_id.clone(), amount }))
        } else {
            Ok(None)
        }
    }

    /// Moves `amount` between two named accounts, per [`transfer_post`]:
    /// the sender is debited in full, the receiver is credited less the
    /// cross-owner fee, and the fee accrues to the operator. All balance
    /// mutations commit together or not at all.
    pub fn transfer(
        &mut self,
        env: &Env,
        sender_account_name: String,
        receiver_account_name: String,
        amount: u128,
    ) -> (r: Result<(), LedgerError>)
        requires
            old(self).wf(),
        ensures
            final(self).wf(),
            final(self).metadata == old(self).metadata,
            transfer_post(
                *old(self),
                *final(self),
                *env,
                sender_account_name,
                receiver_account_name,
                amount,
                r,
            ),
    {
        if !self.user_accounts.contains_key(&env.signer_account_id) {
            return Err(LedgerError::Unregistered);
        }
        let (sender_balance, authorized) = match self.accounts.get(&sender_account_name) {
            None => {
                return Err(LedgerError::SenderNotFound);
            },
            Some(a) => (a.balance, a.owner_id == env.signer_account_id),
        };
        if !authorized {
            return Err(LedgerError::Unauthorized);
        }
        let (receiver_balance, receiver_same_owner) = match self.accounts.get(
            &receiver_account_name,
        ) {
            None => {
                return Err(LedgerError::ReceiverNotFound);
            },
            Some(a) => (a.balance, a.owner_id == env.signer_account_id),
        };
        if amount > sender_balance {
            return Err(LedgerError::InsufficientFunds);
        }
        if sender_account_name == receiver_account_name {
            // Moving value from an account to itself changes nothing.
            return Ok(());
        }
        let new_sender_balance = sender_balance - amount;
        let credited = match receiver_balance.checked_add(amount) {
            Some(b) => b,
            None => {
                return Err(LedgerError::Overflow);
            },
        };
        let fee = if receiver_same_owner {
            0
        } else {
            compute_transfer_fee(
                amount,
                self.metadata.transfer_fee_numerator,
                self.metadata.transfer_fee_denominator,
            )
        };
        let new_receiver_balance = match credited.checked_sub(fee) {
            Some(b) => b,
            None => {
                return Err(LedgerError::InsufficientFunds);
            },
        };
        let new_total_fee = match self.total_transfer_fee.checked_add(fee) {
            Some(f) => f,
            None => {
                return Err(LedgerError::Overflow);
            },
        };
        self.set_account_balance(&sender_account_name, new_sender_balance);
        self.set_account_balance(&receiver_account_name, new_receiver_balance);
        self.total_transfer_fee = new_total_fee;
        proof {
            lemma_wf_accounts_same_shape(*old(self), *self);
        }
        Ok(())
    }

    /// Pays accumulated transfer fees out to the operator, per
    /// [`withdraw_transfer_fee_post`].
    pub fn withdraw_transfer_fee(&mut self, env: &Env, amount: u128) -> (r: Result<
        Option<Payout>,
        LedgerError,
    >)
        requires
            old(self).wf(),
        ensures
            final(self).wf(),
            final(self).metadata == old(self).metadata,
            withdraw_transfer_fee_post(*old(self), *final(self), *env, amount, r),
    {
        if env.attached_deposit != 1 {
            return Err(LedgerError::PaymentRequired);
        }
        if !(env.signer_account_id == self.metadata.owner_id) {
            return Err(LedgerError::Unauthorized);
        }
        let new_total = match self.total_transfer_fee.checked_sub(amount) {
            Some(f) => f,
            None => {
                return Err(LedgerError::InsufficientFunds);
            },
        };
        self.total_transfer_fee = new_total;
        proof {
            lemma_wf_accounts_same_shape(*old(self), *self);
        }
        if env.current_account_id != env.signer_account_id {
            Ok(Some(Payout { receiver_id: self.metadata.owner_id.clone(), amount }))
        } else {
            // The operator is the contract itself: a self-payout would move
            // nothing, so the external call is skipped while the deduction
            // stands.
            Ok(None)
        }
    }
}

/// When the set of accounts and each account's owner are unchanged, and the
/// owner index and staking pool are untouched, well-formedness carries over
/// whatever happened to the balances.
pub(crate) proof fn lemma_wf_accounts_same_shape(pre: Contract, post: Contract)
    requires
        pre.wf(),
        post.accounts.wf(),
        post.user_accounts == pre.user_accounts,
        post.storage_balances == pre.storage_balances,
        forall|n: Seq<char>| #[trigger] post.has_account(n) == pre.has_account(n),
        forall|n: Seq<char>|
            pre.has_account(n) ==> #[trigger] post.account_owner(n) == pre.account_owner(n),
    ensures
        post.wf(),
{
    assert forall|id2: Seq<char>, i: int|
        0 <= i < post.owned_list(id2).len() implies post.has_account(
        (#[trigger] post.owned_list(id2)[i])@,
    ) && post.account_owner(post.owned_list(id2)[i]@) == id2 by {
        assert(post.owned_list(id2) == pre.owned_list(id2));
        assert(pre.owned_list(id2)[i] == post.owned_list(id2)[i]);
        let nm = pre.owned_list(id2)[i]@;
        assert(pre.has_account(nm) && pre.account_owner(nm) == id2);
    }
    assert forall|id2: Seq<char>, i: int, j: int|
        0 <= i < j < post.owned_list(id2).len() implies (#[trigger] post.owned_list(id2)[i])@ != (
    #[trigger] post.owned_list(id2)[j])@ by {
        assert(post.owned_list(id2) == pre.owned_list(id2));
        assert(pre.owned_list(id2)[i] == post.owned_list(id2)[i]);
        assert(pre.owned_list(id2)[j] == post.owned_list(id2)[j]);
    }
    assert forall|name: Seq<char>| #[trigger] post.has_account(name) implies post.is_registered(
        post.account_owner(name),
    ) && exists|i: int|
        0 <= i < post.owned_list(post.account_owner(name)).len() && (#[trigger] post.owned_list(
            post.account_owner(name),
        )[i])@ == name by {
        assert(pre.has_account(name));
        let owner = pre.account_owner(name);
        assert(post.account_owner(name) == owner);
        assert(post.owned_list(owner) == pre.owned_list(owner));
        let i = choose|i: int|
            0 <= i < pre.owned_list(owner).len() && (#[trigger] pre.owned_list(owner)[i])@ == name;
        assert(0 <= i < post.owned_list(owner).len() && (post.owned_list(owner)[i])@ == name);
    }
}

/// Copies a list of names; the copy reads back the same sequence.
pub(crate) fn clone_names(names: &Vec<String>) -> (r: Vec<String>)
    ensures
        r@ == names@,
{
    let n = names.len();
    let mut r: Vec<String> = Vec::new();
    let mut i: usize = 0;
    while i < n
        invariant
            0 <= i <= n,
            n == names@.len(),
            r@.len() == i,
            forall|j: int| 0 <= j < i ==> r@[j] == names@[j],
        decreases n - i,
    {
        r.push(names[i].clone());
        i = i + 1;
    }
    proof {
        assert(r@ =~= names@);
    }
    r
}

} // verus!
