use vstd::prelude::*;

use crate::constants::{AccountId, Balance, PublicKey};

verus! {

/// What the ledger tells the contract about the call that it is running.
#[derive(Debug, PartialEq, Eq)]
pub struct Context {
    /// The account that holds this contract.
    pub current_account_id: AccountId,
    /// The account that made the call.
    pub predecessor_account_id: AccountId,
    /// The key that signed the transaction.
    pub signer_account_pk: PublicKey,
    /// The native tokens that came with the call.
    pub attached_deposit: Balance,
}

/// The mathematical value of a `Context`.
pub struct ContextView {
    pub current_account_id: Seq<char>,
    pub predecessor_account_id: Seq<char>,
    pub signer_account_pk: Seq<u8>,
    pub attached_deposit: Balance,
}

impl View for Context {
    type V = ContextView;

    open spec fn view(&self) -> ContextView {
        ContextView {
            current_account_id: self.current_account_id@,
            predecessor_account_id: self.predecessor_account_id@,
            signer_account_pk: self.signer_account_pk@,
            attached_deposit: self.attached_deposit,
        }
    }
}

} // verus!
