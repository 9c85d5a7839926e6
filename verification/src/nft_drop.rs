use near_contract_standards::non_fungible_token::TokenId;
use near_sdk::PromiseError;
use vstd::prelude::*;

use crate::balance::saturating_add;
use crate::constants::{
    AccountId, Balance, ACCESS_KEY_ALLOWANCE, ACCESS_KEY_STORAGE, ACC_STORAGE, CREATE_ACCOUNT_FEE,
    ENUM_STORAGE, ID_STORAGE, MIN_GAS_FOR_NFT_TRANSFER, NFT_CLAIM_CALLBACK_GAS,
    NFT_TOKEN_ID_STORAGE, ONE_YOCTO, PK_STORAGE,
};
use crate::context::{Context, ContextView};
use crate::drop_types::{created, refund, refund_of, Drop, DropView, Dropper, Getters};
use crate::error::DropError;
use crate::parse::parse_drop_id;
use crate::state::lemma_approve_nft_wf;
use crate::Contract;
use crate::promise::{single, transfer_to, Action, ActionView, Call, CallView, Promise, PromiseView};

verus! {

/// A drop of one non-fungible token.
#[derive(Debug, PartialEq, Eq)]
pub struct NFTDrop {
    /// The account that created the drop and paid for it.
    pub funder: AccountId,
    /// The token that the claim hands out; empty until the token contract
    /// has approved this contract for it.
    pub token_id: TokenId,
    /// The contract of the non-fungible token.
    pub nft_contract: AccountId,
}

/// The mathematical value of an `NFTDrop`.
pub struct NFTDropView {
    pub funder: Seq<char>,
    pub token_id: Seq<char>,
    pub nft_contract: Seq<char>,
}

impl View for NFTDrop {
    type V = NFTDropView;

    open spec fn view(&self) -> NFTDropView {
        NFTDropView {
            funder: self.funder@,
            token_id: self.token_id@,
            nft_contract: self.nft_contract@,
        }
    }
}

impl Clone for NFTDrop {
    fn clone(&self) -> (r: Self)
        ensures
            r == *self,
    {
        NFTDrop {
            funder: self.funder.clone(),
            token_id: self.token_id.clone(),
            nft_contract: self.nft_contract.clone(),
        }
    }
}

impl NFTDropView {
    /// The call on the token contract that hands the token to `account_id`.
    /// There is none while the drop names no token.
    pub open spec fn claiming(self, account_id: Seq<char>) -> Result<PromiseView, DropError> {
        if self.token_id.len() == 0 {
            Err(DropError::NoTokensToDrop)
        } else {
            Ok(
                single(
                    self.nft_contract,
                    ActionView::FunctionCall {
                        call: CallView::NftTransfer {
                            receiver_id: account_id,
                            token_id: self.token_id,
                        },
                        deposit: ONE_YOCTO,
                        gas: MIN_GAS_FOR_NFT_TRANSFER,
                        gas_weight: 0,
                    },
                ),
            )
        }
    }

    /// The callback on `current_account_id` that settles the claim.
    pub open spec fn resolving(
        self,
        current_account_id: Seq<char>,
        account_created: bool,
        drop_deleted: bool,
    ) -> PromiseView {
        single(
            current_account_id,
            ActionView::FunctionCall {
                call: CallView::ResolveNftClaim {
                    account_created,
                    drop_deleted,
                    funder: self.funder,
                    token_id: self.token_id,
                    nft_contract: self.nft_contract,
                },
                deposit: 0,
                gas: NFT_CLAIM_CALLBACK_GAS,
                gas_weight: 0,
            },
        )
    }
}

impl Dropper for NFTDrop {
    open spec fn claiming(&self, account_id: Seq<char>) -> Result<PromiseView, DropError> {
        self@.claiming(account_id)
    }

    open spec fn resolving(
        &self,
        current_account_id: Seq<char>,
        account_created: bool,
        drop_deleted: bool,
    ) -> PromiseView {
        self@.resolving(current_account_id, account_created, drop_deleted)
    }

    fn promise_for_claiming(&self, account_id: AccountId) -> (r: Result<Promise, DropError>) {
        if self.token_id.as_str().is_empty() {
            return Err(DropError::NoTokensToDrop);
        }
        Ok(
            Promise::new(
                self.nft_contract.clone(),
                Action::FunctionCall {
                    call: Call::NftTransfer {
                        receiver_id: account_id,
                        token_id: self.token_id.clone(),
                    },
                    deposit: ONE_YOCTO,
                    gas: MIN_GAS_FOR_NFT_TRANSFER,
                    gas_weight: 0,
                },
            ),
        )
    }

    fn promise_to_resolve_claim(
        &self,
        current_account_id: AccountId,
        account_created: bool,
        drop_deleted: bool,
    ) -> (r: Promise) {
        Promise::new(
            current_account_id,
            Action::FunctionCall {
                call: Call::ResolveNftClaim {
                    account_created,
                    drop_deleted,
                    funder: self.funder.clone(),
                    token_id: self.token_id.clone(),
                    nft_contract: self.nft_contract.clone(),
                },
                deposit: 0,
                gas: NFT_CLAIM_CALLBACK_GAS,
                gas_weight: 0,
            },
        )
    }
}

impl Getters for NFTDrop {
    open spec fn amount_per_drop(&self) -> Option<Balance> {
        None
    }

    open spec fn counter(&self) -> Option<u32> {
        None
    }

    fn get_amount_per_drop(&self) -> (r: Result<Balance, &'static str>)
        ensures
            r matches Err(why) && why@ == "There is no amount_per_drop field for NFT drop structure"@,
    {
        Err("There is no amount_per_drop field for NFT drop structure")
    }

    fn get_counter(&self) -> (r: Result<u32, &'static str>)
        ensures
            r matches Err(why) && why@ == "There is no counter field for NFT drop structure"@,
    {
        Err("There is no counter field for NFT drop structure")
    }
}

/// What the key of a drop of a non-fungible token costs: the fee for
/// creating an account, the allowance of the access key and the storage of
/// the key.
pub open spec fn deposit_per_key() -> int {
    CREATE_ACCOUNT_FEE + ACCESS_KEY_ALLOWANCE + ACCESS_KEY_STORAGE
}

/// What storing a drop of a non-fungible token, with its one key, costs.
pub open spec fn storage_drop() -> int {
    ID_STORAGE + ENUM_STORAGE + ACC_STORAGE * 2 + NFT_TOKEN_ID_STORAGE + 8 + (PK_STORAGE
        + ID_STORAGE)
}

/// The deposit that creating a drop of a non-fungible token asks for.
pub open spec fn required_deposit() -> int {
    storage_drop() + deposit_per_key()
}

/// What the key of a drop of a non-fungible token costs.
pub fn required_deposit_per_key() -> (r: Balance)
    ensures
        r == deposit_per_key(),
{
    saturating_add(saturating_add(CREATE_ACCOUNT_FEE, ACCESS_KEY_ALLOWANCE), ACCESS_KEY_STORAGE)
}

/// What storing a drop of a non-fungible token, with its one key, costs.
pub fn required_storage_drop() -> (r: Balance)
    ensures
        r == storage_drop(),
{
    ID_STORAGE + ENUM_STORAGE + ACC_STORAGE * 2 + NFT_TOKEN_ID_STORAGE + 8 + (PK_STORAGE
        + ID_STORAGE)
}

/// What `create` gives for a call with context `ctx`.
pub open spec fn creation(ctx: ContextView, nft_contract: Seq<char>) -> Result<
    (DropView, Option<PromiseView>),
    DropError,
> {
    let required = required_deposit() as Balance;
    if ctx.attached_deposit < required {
        Err(DropError::InsufficientDeposit { required })
    } else {
        Ok(
            (
                DropView::NFT(
                    NFTDropView {
                        funder: ctx.predecessor_account_id,
                        token_id: Seq::empty(),
                        nft_contract,
                    },
                ),
                refund_of(ctx, required),
            ),
        )
    }
}

/// Makes a drop of a non-fungible token for the caller, who has attached
/// the deposit for it: the drop, which names no token yet, and the transfer
/// that hands back what was attached beyond the deposit. The deposit must do.
pub fn create(ctx: &Context, nft_contract: AccountId) -> (r: Result<
    (Drop, Option<Promise>),
    DropError,
>)
    ensures
        created(r) == creation(ctx@, nft_contract@),
{
    let required_deposit = saturating_add(required_storage_drop(), required_deposit_per_key());
    if ctx.attached_deposit < required_deposit {
        return Err(DropError::InsufficientDeposit { required: required_deposit });
    }
    let refund = refund(ctx, required_deposit);
    let funder = ctx.predecessor_account_id.clone();
    Ok((Drop::NFT(NFTDrop { funder, token_id: String::new(), nft_contract }), refund))
}

/// What goes back to the funder once the claim of a non-fungible token has
/// ended: the storage of the key; the fee for creating an account, where
/// none was created; and the storage of the drop, where the drop is gone.
/// Whether the token arrived makes no difference: a token that did not
/// arrive has not left the contract.
pub open spec fn claim_refund(account_created: bool, drop_deleted: bool) -> int {
    ACCESS_KEY_STORAGE + (if account_created {
        0
    } else {
        CREATE_ACCOUNT_FEE as int
    }) + (if drop_deleted {
        storage_drop()
    } else {
        0
    })
}

impl Contract {
    /// Takes note that the contract may hand out a token. The message names
    /// the drop; the caller must be the token contract of the drop. Gives
    /// the amount that the contract does not keep, which is nothing.
    pub fn nft_on_approve(
        &mut self,
        ctx: &Context,
        token_id: TokenId,
        owner_id: AccountId,
        approval_id: u32,
        msg: String,
    ) -> (r: Result<Balance, DropError>)
        requires
            old(self).wf(),
        ensures
            final(self).wf(),
            match r {
                Ok(unused) => unused == 0 && old(self)@.approve_nft(ctx@, token_id@, msg@) == Ok::<
                    crate::state::State,
                    DropError,
                >(final(self)@),
                Err(e) => old(self)@.approve_nft(ctx@, token_id@, msg@) == Err::<
                    crate::state::State,
                    DropError,
                >(e) && *final(self) == *old(self),
            },
    {
        broadcast use vstd::std_specs::hash::group_hash_axioms;

        let drop_id = match parse_drop_id(msg.as_str()) {
            Some(drop_id) => drop_id,
            None => {
                return Err(DropError::InvalidMessage);
            },
        };
        let drop: Drop = match self.drop_by_id.get(&drop_id) {
            Some(drop) => drop.clone(),
            None => {
                return Err(DropError::NoDropInformation);
            },
        };
        match drop {
            Drop::NFT(nft_drop) => {
                if !(nft_drop.nft_contract == ctx.predecessor_account_id) {
                    return Err(DropError::WrongContract);
                }
                let approved = NFTDrop {
                    funder: nft_drop.funder,
                    token_id,
                    nft_contract: nft_drop.nft_contract,
                };
                self.drop_by_id.insert(drop_id, Drop::NFT(approved));
                proof {
                    assert(self@.drops =~= old(self)@.drops.insert(
                        drop_id,
                        DropView::NFT(NFTDropView { token_id: token_id@, ..nft_drop@ }),
                    ));
                    lemma_approve_nft_wf(old(self)@, ctx@, token_id@, msg@);
                }
                Ok(0)
            },
            _ => Err(DropError::NotNftDrop),
        }
    }

    /// Settles the claim of a non-fungible token: gives the transfer that
    /// hands back to the funder what the claim has not used.
    pub fn resolve_nft_claim(
        account_created: bool,
        drop_deleted: bool,
        funder: AccountId,
        token_id: String,
        nft_contract: AccountId,
        result: Result<(), PromiseError>,
    ) -> (r: Promise)
        ensures
            r@ == transfer_to(funder@, claim_refund(account_created, drop_deleted) as Balance),
    {
        let mut to_refund = ACCESS_KEY_STORAGE;
        if !account_created {
            to_refund = saturating_add(to_refund, CREATE_ACCOUNT_FEE);
        }
        if drop_deleted {
            to_refund = saturating_add(to_refund, required_storage_drop());
        }
        Promise::transfer(funder, to_refund)
    }
}

} // verus!
