use vstd::prelude::*;

use crate::constants::{AccountId, Balance, Gas, PublicKey};

verus! {

/// `near_sdk::PromiseError`: why a promise gave no result. The contract only
/// passes it on and never looks inside.
#[verifier::external_type_specification]
#[verifier::external_body]
pub struct ExPromiseError(near_sdk::PromiseError);

/// A call of a method on another contract, or on this one, with its arguments.
#[derive(Debug, PartialEq, Eq)]
pub enum Call {
    /// `create_account` on the top-level account.
    CreateAccount { new_account_id: AccountId, new_public_key: PublicKey },
    /// `storage_deposit` on a fungible token: registers the receiver.
    StorageDeposit { account_id: AccountId },
    /// `ft_transfer` on a fungible token.
    FtTransfer { receiver_id: AccountId, amount: Balance },
    /// `nft_transfer` on a non-fungible token.
    NftTransfer { receiver_id: AccountId, token_id: String },
    /// Back to this contract, once the account has or has not been created.
    ResolveAccountCreate { account_id: AccountId },
    /// Back to this contract, once native tokens have or have not arrived.
    ResolveNearClaim {
        account_created: bool,
        drop_deleted: bool,
        funder: AccountId,
        amount: Balance,
    },
    /// Back to this contract, once fungible tokens have or have not arrived.
    ResolveFtClaim {
        account_created: bool,
        drop_deleted: bool,
        funder: AccountId,
        amount: Balance,
        ft_contract: AccountId,
    },
    /// Back to this contract, once the token has or has not arrived.
    ResolveNftClaim {
        account_created: bool,
        drop_deleted: bool,
        funder: AccountId,
        token_id: String,
        nft_contract: AccountId,
    },
}

/// The mathematical value of a `Call`.
pub enum CallView {
    CreateAccount { new_account_id: Seq<char>, new_public_key: Seq<u8> },
    StorageDeposit { account_id: Seq<char> },
    FtTransfer { receiver_id: Seq<char>, amount: Balance },
    NftTransfer { receiver_id: Seq<char>, token_id: Seq<char> },
    ResolveAccountCreate { account_id: Seq<char> },
    ResolveNearClaim {
        account_created: bool,
        drop_deleted: bool,
        funder: Seq<char>,
        amount: Balance,
    },
    ResolveFtClaim {
        account_created: bool,
        drop_deleted: bool,
        funder: Seq<char>,
        amount: Balance,
        ft_contract: Seq<char>,
    },
    ResolveNftClaim {
        account_created: bool,
        drop_deleted: bool,
        funder: Seq<char>,
        token_id: Seq<char>,
        nft_contract: Seq<char>,
    },
}

impl View for Call {
    type V = CallView;

    open spec fn view(&self) -> CallView {
        match *self {
            Call::CreateAccount { new_account_id, new_public_key } => CallView::CreateAccount {
                new_account_id: new_account_id@,
                new_public_key: new_public_key@,
            },
            Call::StorageDeposit { account_id } => CallView::StorageDeposit {
                account_id: account_id@,
            },
            Call::FtTransfer { receiver_id, amount } => CallView::FtTransfer {
                receiver_id: receiver_id@,
                amount,
            },
            Call::NftTransfer { receiver_id, token_id } => CallView::NftTransfer {
                receiver_id: receiver_id@,
                token_id: token_id@,
            },
            Call::ResolveAccountCreate { account_id } => CallView::ResolveAccountCreate {
                account_id: account_id@,
            },
            Call::ResolveNearClaim { account_created, drop_deleted, funder, amount } => {
                CallView::ResolveNearClaim {
                    account_created,
                    drop_deleted,
                    funder: funder@,
                    amount,
                }
            },
            Call::ResolveFtClaim { account_created, drop_deleted, funder, amount, ft_contract } => {
                CallView::ResolveFtClaim {
                    account_created,
                    drop_deleted,
                    funder: funder@,
                    amount,
                    ft_contract: ft_contract@,
                }
            },
            Call::ResolveNftClaim {
                account_created,
                drop_deleted,
                funder,
                token_id,
                nft_contract,
            } => CallView::ResolveNftClaim {
                account_created,
                drop_deleted,
                funder: funder@,
                token_id: token_id@,
                nft_contract: nft_contract@,
            },
        }
    }
}

/// One step of a promise: what the receiving account is asked to do.
#[derive(Debug, PartialEq, Eq)]
pub enum Action {
    /// Hand native tokens to the receiver.
    Transfer { amount: Balance },
    /// Let the key call the two claim methods of the receiver, which is this
    /// contract, and burn gas up to the allowance.
    AddAccessKey { public_key: PublicKey, allowance: Balance },
    /// Call a method of the receiver. Of the gas that is left over, the call
    /// gets a share by its weight.
    FunctionCall { call: Call, deposit: Balance, gas: Gas, gas_weight: u64 },
}

/// The mathematical value of an `Action`.
pub enum ActionView {
    Transfer { amount: Balance },
    AddAccessKey { public_key: Seq<u8>, allowance: Balance },
    FunctionCall { call: CallView, deposit: Balance, gas: Gas, gas_weight: u64 },
}

impl View for Action {
    type V = ActionView;

    open spec fn view(&self) -> ActionView {
        match *self {
            Action::Transfer { amount } => ActionView::Transfer { amount },
            Action::AddAccessKey { public_key, allowance } => ActionView::AddAccessKey {
                public_key: public_key@,
                allowance,
            },
            Action::FunctionCall { call, deposit, gas, gas_weight } => ActionView::FunctionCall {
                call: call@,
                deposit,
                gas,
                gas_weight,
            },
        }
    }
}

/// What the contract asks the ledger to do on one account: the actions run in
/// order, and all of them or none.
#[derive(Debug, PartialEq, Eq)]
pub struct Promise {
    pub receiver_id: AccountId,
    pub actions: Vec<Action>,
}

/// The mathematical value of a `Promise`.
pub struct PromiseView {
    pub receiver_id: Seq<char>,
    pub actions: Seq<ActionView>,
}

impl View for Promise {
    type V = PromiseView;

    open spec fn view(&self) -> PromiseView {
        PromiseView {
            receiver_id: self.receiver_id@,
            actions: Seq::new(self.actions@.len(), |i: int| self.actions@[i]@),
        }
    }
}

/// A promise and the callback that runs once it has ended, well or not.
#[derive(Debug, PartialEq, Eq)]
pub struct Chain {
    pub first: Promise,
    pub callback: Promise,
}

/// The mathematical value of a `Chain`.
pub struct ChainView {
    pub first: PromiseView,
    pub callback: PromiseView,
}

impl View for Chain {
    type V = ChainView;

    open spec fn view(&self) -> ChainView {
        ChainView { first: self.first@, callback: self.callback@ }
    }
}

/// The promise with one action.
pub open spec fn single(receiver_id: Seq<char>, action: ActionView) -> PromiseView {
    PromiseView { receiver_id, actions: seq![action] }
}

/// The promise that hands `amount` native tokens to `receiver_id`.
pub open spec fn transfer_to(receiver_id: Seq<char>, amount: Balance) -> PromiseView {
    single(receiver_id, ActionView::Transfer { amount })
}

impl Promise {
    /// A promise on `receiver_id` with one action.
    pub fn new(receiver_id: AccountId, action: Action) -> (r: Promise)
        ensures
            r@ == single(receiver_id@, action@),
    {
        let mut actions: Vec<Action> = Vec::new();
        actions.push(action);
        let r = Promise { receiver_id, actions };
        assert(r@.actions =~= seq![action@]);
        r
    }

    /// A promise that hands `amount` native tokens to `receiver_id`.
    pub fn transfer(receiver_id: AccountId, amount: Balance) -> (r: Promise)
        ensures
            r@ == transfer_to(receiver_id@, amount),
    {
        Promise::new(receiver_id, Action::Transfer { amount })
    }

    /// The same promise with one more action at its end.
    pub fn and(self, action: Action) -> (r: Promise)
        ensures
            r@ == (PromiseView {
                receiver_id: self@.receiver_id,
                actions: self@.actions.push(action@),
            }),
    {
        let mut p = self;
        p.actions.push(action);
        assert(p@.actions =~= self@.actions.push(action@));
        p
    }

    /// The promise followed by `callback`.
    pub fn followed_by(self, callback: Promise) -> (r: Chain)
        ensures
            r@ == (ChainView { first: self@, callback: callback@ }),
    {
        Chain { first: self, callback }
    }
}

} // verus!
