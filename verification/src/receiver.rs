//! The inbound half of the external value-holding service: a deposit
//! notification carries an encoded message naming the account to credit.
//! The source is authenticated, the message decoded and parsed, and the
//! named account credited; any failure rejects the whole notification with
//! no effect.
use crate::host::Env;
use crate::msg;
use crate::{Contract, LedgerError};
use vstd::prelude::*;
use vstd::string::StringExecFns;
use vstd::utf8::encode_utf8;

verus! {

/// What `bs58::decode` returns on a given string: a pure function of the
/// characters alone, or nothing when the string is not valid base-58.
pub uninterp spec fn bs58_decode_of(s: Seq<char>) -> Option<Seq<u8>>;

/// Relies on `bs58::decode`: the decoded bytes depend on the input
/// characters alone.
#[verifier::external_body]
fn bs58_decode(msg_str: &String) -> (r: Option<Vec<u8>>)
    ensures
        (r is Some) == (bs58_decode_of(msg_str@) is Some),
        r matches Some(b) ==> Some(b@) == bs58_decode_of(msg_str@),
{
    match bs58::decode(msg_str.as_str()).into_vec() {
        Ok(v) => Some(v),
        Err(_) => None,
    }
}

/// What crediting a deposit does: the named account must exist and the
/// credit must not overflow; then exactly its balance grows by `amount`.
pub open spec fn internal_deposit_post(
    pre: Contract,
    post: Contract,
    account_name: String,
    amount: u128,
    r: Result<(), LedgerError>,
) -> bool {
    let name = account_name@;
    if !pre.has_account(name) {
        &&& post == pre
        &&& r == Result::<(), LedgerError>::Err(LedgerError::AccountNotFound)
    } else if pre.account_balance(name) + amount > u128::MAX {
        &&& post == pre
        &&& r == Result::<(), LedgerError>::Err(LedgerError::Overflow)
    } else {
        &&& post.has_account(name)
        &&& post.account_owner(name) == pre.account_owner(name)
        &&& post.account_balance(name) as int == pre.account_balance(name) + amount
        &&& forall|n2: Seq<char>|
            n2 != name ==> #[trigger] post.accounts.get_view(n2) == pre.accounts.get_view(n2)
        &&& post.user_accounts == pre.user_accounts
        &&& post.storage_balances == pre.storage_balances
        &&& r == Result::<(), LedgerError>::Ok(())
    }
}

/// What handling a decoded notification message does: the message must
/// parse, the action must be `deposit`, the payload must parse, and then
/// the named account is credited per [`internal_deposit_post`].
pub open spec fn apply_transfer_message_post(
    pre: Contract,
    post: Contract,
    bytes: Seq<u8>,
    amount: u128,
    r: Result<u128, LedgerError>,
) -> bool {
    match msg::spec_parse_transfer_message(bytes) {
        None => {
            &&& post == pre
            &&& r == Result::<u128, LedgerError>::Err(LedgerError::InvalidMessage)
        },
        Some((action, payload)) => {
            if action != "deposit"@ {
                &&& post == pre
                &&& r == Result::<u128, LedgerError>::Err(LedgerError::UnsupportedAction)
            } else {
                match msg::spec_parse_deposit_payload(encode_utf8(payload)) {
                    None => {
                        &&& post == pre
                        &&& r == Result::<u128, LedgerError>::Err(LedgerError::InvalidPayload)
                    },
                    Some(name) => {
                        if !pre.has_account(name) {
                            &&& post == pre
                            &&& r == Result::<u128, LedgerError>::Err(LedgerError::AccountNotFound)
                        } else if pre.account_balance(name) + amount > u128::MAX {
                            &&& post == pre
                            &&& r == Result::<u128, LedgerError>::Err(LedgerError::Overflow)
                        } else {
                            &&& post.has_account(name)
                            &&& post.account_owner(name) == pre.account_owner(name)
                            &&& post.account_balance(name) as int == pre.account_balance(name)
                                + amount
                            &&& forall|n2: Seq<char>|
                                n2 != name ==> #[trigger] post.accounts.get_view(n2)
                                    == pre.accounts.get_view(n2)
                            &&& post.user_accounts == pre.user_accounts
                            &&& post.storage_balances == pre.storage_balances
                            &&& r == Result::<u128, LedgerError>::Ok(0)
                        }
                    },
                }
            }
        },
    }
}

/// What a deposit notification does end to end: only the configured token
/// service may call, the message must decode from base-58, and the rest
/// follows [`apply_transfer_message_post`]. An `Ok(0)` tells the service
/// that nothing is to be refunded.
pub open spec fn ft_on_transfer_post(
    pre: Contract,
    post: Contract,
    env: Env,
    msg_str: String,
    amount: u128,
    r: Result<u128, LedgerError>,
) -> bool {
    if env.predecessor_account_id@ != pre.metadata.token_id@ {
        &&& post == pre
        &&& r == Result::<u128, LedgerError>::Err(LedgerError::UnsupportedSource)
    } else {
        match bs58_decode_of(msg_str@) {
            None => {
                &&& post == pre
                &&& r == Result::<u128, LedgerError>::Err(LedgerError::InvalidMessage)
            },
            Some(bytes) => apply_transfer_message_post(pre, post, bytes, amount, r),
        }
    }
}

impl Contract {
    /// Credits a confirmed deposit to the named account, per
    /// [`internal_deposit_post`].
    pub fn internal_deposit(&mut self, account_name: String, amount: u128) -> (r: Result<
        (),
        LedgerError,
    >)
        requires
            old(self).wf(),
        ensures
            final(self).wf(),
            final(self).metadata == old(self).metadata,
            final(self).total_transfer_fee == old(self).total_transfer_fee,
            internal_deposit_post(*old(self), *final(self), account_name, amount, r),
    {
        let balance = match self.accounts.get(&account_name) {
            None => {
                return Err(LedgerError::AccountNotFound);
            },
            Some(a) => a.balance,
        };
        let new_balance = match balance.checked_add(amount) {
            Some(b) => b,
            None => {
                return Err(LedgerError::Overflow);
            },
        };
        self.set_account_balance(&account_name, new_balance);
        proof {
            crate::lemma_wf_accounts_same_shape(*old(self), *self);
        }
        Ok(())
    }

    /// Handles a decoded notification message: parses it, requires the
    /// `deposit` action, and credits the named account, per
    /// [`apply_transfer_message_post`].
    pub fn apply_transfer_message(&mut self, bytes: &Vec<u8>, amount: u128) -> (r: Result<
        u128,
        LedgerError,
    >)
        requires
            old(self).wf(),
        ensures
            final(self).wf(),
            final(self).metadata == old(self).metadata,
            final(self).total_transfer_fee == old(self).total_transfer_fee,
            apply_transfer_message_post(*old(self), *final(self), bytes@, amount, r),
    {
        let message = match msg::parse_transfer_message(bytes) {
            Some(m) => m,
            None => {
                return Err(LedgerError::InvalidMessage);
            },
        };
        let deposit_action = String::from_str("deposit");
        if !(message.action == deposit_action) {
            return Err(LedgerError::UnsupportedAction);
        }
        let payload_bytes = vstd::slice::slice_to_vec(message.payload.as_str().as_bytes());
        let payload = match msg::parse_deposit_payload(&payload_bytes) {
            Some(p) => p,
            None => {
                return Err(LedgerError::InvalidPayload);
            },
        };
        match self.internal_deposit(payload.account_name, amount) {
            Ok(()) => Ok(0),
            Err(e) => Err(e),
        }
    }

    /// The deposit notification the external value-holding service calls,
    /// per [`ft_on_transfer_post`]: authenticates the source, decodes the
    /// base-58 message, and credits the named account.
    #[allow(unused_variables)]
    pub fn ft_on_transfer(
        &mut self,
        env: &Env,
        sender_id: String,
        amount: u128,
        msg_str: String,
    ) -> (r: Result<u128, LedgerError>)
        requires
            old(self).wf(),
        ensures
            final(self).wf(),
            final(self).metadata == old(self).metadata,
            final(self).total_transfer_fee == old(self).total_transfer_fee,
            ft_on_transfer_post(*old(self), *final(self), *env, msg_str, amount, r),
    {
        if !(env.predecessor_account_id == self.metadata.token_id) {
            return Err(LedgerError::UnsupportedSource);
        }
        let decoded = match bs58_decode(&msg_str) {
            Some(b) => b,
            None => {
                return Err(LedgerError::InvalidMessage);
            },
        };
        self.apply_transfer_message(&decoded, amount)
    }
}

} // verus!
