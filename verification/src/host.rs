//! Values exchanged with the host execution environment. The host reads the
//! call context and hands it in as an `Env`; the ledger hands back `Payout`
//! values naming the outbound transfers the host should perform.
use vstd::prelude::*;

verus! {

/// The call context as the host reports it: who signed the transaction, who
/// called directly, the contract's own identity, the currency attached to the
/// call, and the current price of one byte of persistent storage.
pub struct Env {
    pub current_account_id: String,
    pub signer_account_id: String,
    pub predecessor_account_id: String,
    pub attached_deposit: u128,
    pub storage_byte_cost: u128,
}

/// An outbound transfer the host is asked to perform after the call: either a
/// token payment through the external value-holding service or a refund of
/// native currency, depending on which operation produced it.
pub struct Payout {
    pub receiver_id: String,
    pub amount: u128,
}

} // verus!
