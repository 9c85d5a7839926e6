use near_sdk::PromiseError;
use vstd::prelude::*;

use crate::balance::{saturating_add, saturating_mul};
use crate::constants::{
    AccountId, Balance, ACCESS_KEY_ALLOWANCE, ACCESS_KEY_STORAGE, ACC_STORAGE, CREATE_ACCOUNT_FEE,
    ENUM_STORAGE, FT_CLAIM_CALLBACK_GAS, FT_REGISTER, ID_STORAGE, MIN_GAS_FOR_FT_STORAGE_DEPOSIT,
    MIN_GAS_FOR_FT_TRANSFER, ONE_YOCTO, PK_STORAGE, TOKEN_AMOUNT_STORAGE,
};
use crate::context::{Context, ContextView};
use crate::drop_types::{created, refund, refund_of, Drop, DropView, Dropper, Getters, Setters};
use crate::error::DropError;
use crate::parse::parse_drop_id;
use crate::state::lemma_fund_ft_wf;
use crate::Contract;
use crate::promise::{single, transfer_to, Action, ActionView, Call, CallView, Promise, PromiseView};
use crate::promise_views;

verus! {

/// A drop of fungible tokens.
#[derive(Debug, PartialEq, Eq)]
pub struct FTDrop {
    /// The account that created the drop and paid for it.
    pub funder: AccountId,
    /// The fungible tokens that one claim hands out.
    pub amount: Balance,
    /// The contract of the fungible token.
    pub ft_contract: AccountId,
    /// How many more times the drop can be claimed.
    pub counter: u32,
    /// Whether the tokens for all its claims have arrived.
    pub funded: bool,
}

/// The mathematical value of an `FTDrop`.
pub struct FTDropView {
    pub funder: Seq<char>,
    pub amount: Balance,
    pub ft_contract: Seq<char>,
    pub counter: u32,
    pub funded: bool,
}

impl View for FTDrop {
    type V = FTDropView;

    open spec fn view(&self) -> FTDropView {
        FTDropView {
            funder: self.funder@,
            amount: self.amount,
            ft_contract: self.ft_contract@,
            counter: self.counter,
            funded: self.funded,
        }
    }
}

impl Clone for FTDrop {
    fn clone(&self) -> (r: Self)
        ensures
            r == *self,
    {
        FTDrop {
            funder: self.funder.clone(),
            amount: self.amount,
            ft_contract: self.ft_contract.clone(),
            counter: self.counter,
            funded: self.funded,
        }
    }
}

/// The call that moves `amount` fungible tokens to `receiver_id`.
pub open spec fn ft_transfer_of(receiver_id: Seq<char>, amount: Balance) -> ActionView {
    ActionView::FunctionCall {
        call: CallView::FtTransfer { receiver_id, amount },
        deposit: ONE_YOCTO,
        gas: MIN_GAS_FOR_FT_TRANSFER,
        gas_weight: 0,
    }
}

/// The call that moves `amount` fungible tokens to `receiver_id`.
pub fn ft_transfer(receiver_id: AccountId, amount: Balance) -> (r: Action)
    ensures
        r@ == ft_transfer_of(receiver_id@, amount),
{
    Action::FunctionCall {
        call: Call::FtTransfer { receiver_id, amount },
        deposit: ONE_YOCTO,
        gas: MIN_GAS_FOR_FT_TRANSFER,
        gas_weight: 0,
    }
}

impl FTDropView {
    /// The two calls on the token contract that hand one claim to
    /// `account_id`: register it, then move the tokens. There are none while
    /// the drop holds no amount or is not funded.
    pub open spec fn claiming(self, account_id: Seq<char>) -> Result<PromiseView, DropError> {
        if self.amount == 0 {
            Err(DropError::NoTokensToDrop)
        } else if !self.funded {
            Err(DropError::NotFunded)
        } else {
            Ok(
                PromiseView {
                    receiver_id: self.ft_contract,
                    actions: seq![
                        ActionView::FunctionCall {
                            call: CallView::StorageDeposit { account_id },
                            deposit: FT_REGISTER,
                            gas: MIN_GAS_FOR_FT_STORAGE_DEPOSIT,
                            gas_weight: 0,
                        },
                        ft_transfer_of(account_id, self.amount),
                    ],
                },
            )
        }
    }

    /// The callback on `current_account_id` that settles one claim.
    pub open spec fn resolving(
        self,
        current_account_id: Seq<char>,
        account_created: bool,
        drop_deleted: bool,
    ) -> PromiseView {
        single(
            current_account_id,
            ActionView::FunctionCall {
                call: CallView::ResolveFtClaim {
                    account_created,
                    drop_deleted,
                    funder: self.funder,
                    amount: self.amount,
                    ft_contract: self.ft_contract,
                },
                deposit: 0,
                gas: FT_CLAIM_CALLBACK_GAS,
                gas_weight: 0,
            },
        )
    }
}

impl Dropper for FTDrop {
    open spec fn claiming(&self, account_id: Seq<char>) -> Result<PromiseView, DropError> {
        self@.claiming(account_id)
    }

    open spec fn resolving(
        &self,
        current_account_id: Seq<char>,
        account_created: bool,
        drop_deleted: bool,
    ) -> PromiseView {
        self@.resolving(current_account_id, account_created, drop_deleted)
    }

    fn promise_for_claiming(&self, account_id: AccountId) -> (r: Result<Promise, DropError>) {
        if self.amount == 0 {
            return Err(DropError::NoTokensToDrop);
        }
        if !self.funded {
            return Err(DropError::NotFunded);
        }
        let register = Action::FunctionCall {
            call: Call::StorageDeposit { account_id: account_id.clone() },
            deposit: FT_REGISTER,
            gas: MIN_GAS_FOR_FT_STORAGE_DEPOSIT,
            gas_weight: 0,
        };
        let promise = Promise::new(self.ft_contract.clone(), register).and(
            ft_transfer(account_id, self.amount),
        );
        assert(promise@.actions =~= self@.claiming(account_id@)->Ok_0.actions);
        Ok(promise)
    }

    fn promise_to_resolve_claim(
        &self,
        current_account_id: AccountId,
        account_created: bool,
        drop_deleted: bool,
    ) -> (r: Promise) {
        Promise::new(
            current_account_id,
            Action::FunctionCall {
                call: Call::ResolveFtClaim {
                    account_created,
                    drop_deleted,
                    funder: self.funder.clone(),
                    amount: self.amount,
                    ft_contract: self.ft_contract.clone(),
                },
                deposit: 0,
                gas: FT_CLAIM_CALLBACK_GAS,
                gas_weight: 0,
            },
        )
    }
}

impl Getters for FTDrop {
    open spec fn amount_per_drop(&self) -> Option<Balance> {
        Some(self.amount)
    }

    open spec fn counter(&self) -> Option<u32> {
        Some(self.counter)
    }

    fn get_amount_per_drop(&self) -> (r: Result<Balance, &'static str>) {
        Ok(self.amount)
    }

    fn get_counter(&self) -> (r: Result<u32, &'static str>) {
        Ok(self.counter)
    }
}

impl Setters for FTDrop {
    fn set_counter(&mut self, value: u32) -> (r: Result<(), &'static str>)
        ensures
            final(self)@ == (FTDropView { counter: value, ..old(self)@ }),
    {
        self.counter = value;
        Ok(())
    }
}

/// What one key of a drop of fungible tokens costs: the fee for creating an
/// account, the allowance of the access key and the storage of the key.
pub open spec fn deposit_per_key() -> int {
    CREATE_ACCOUNT_FEE + ACCESS_KEY_ALLOWANCE + ACCESS_KEY_STORAGE
}

/// What storing a drop of fungible tokens with `num_access_keys` keys costs.
pub open spec fn storage_drop(num_access_keys: u32) -> int {
    ID_STORAGE + ENUM_STORAGE + ACC_STORAGE * 2 + TOKEN_AMOUNT_STORAGE + 8 + num_access_keys * (
    PK_STORAGE + ID_STORAGE)
}

/// The deposit that creating a drop of fungible tokens asks for: the storage
/// of the drop and, for each key, what the key costs.
pub open spec fn required_deposit(num_of_keys: u32) -> int {
    storage_drop(num_of_keys) + num_of_keys * deposit_per_key()
}

/// What one key of a drop of fungible tokens costs.
pub fn required_deposit_per_key() -> (r: Balance)
    ensures
        r == deposit_per_key(),
{
    saturating_add(saturating_add(CREATE_ACCOUNT_FEE, ACCESS_KEY_ALLOWANCE), ACCESS_KEY_STORAGE)
}

/// What storing a drop of fungible tokens with `num_access_keys` keys costs.
pub fn required_storage_drop(num_access_keys: u32) -> (r: Balance)
    ensures
        r == storage_drop(num_access_keys),
{
    let per_binding: u128 = PK_STORAGE + ID_STORAGE;
    assert(num_access_keys * per_binding <= 0xffff_ffff * 36) by (nonlinear_arith)
        requires
            per_binding == 36,
            num_access_keys <= 0xffff_ffff,
    ;
    ID_STORAGE + ENUM_STORAGE + ACC_STORAGE * 2 + TOKEN_AMOUNT_STORAGE + 8 + num_access_keys as u128
        * per_binding
}

/// The deposit that `create` asks for.
pub fn deposit_for(num_of_keys: u32) -> (r: Balance)
    ensures
        r == required_deposit(num_of_keys),
{
    let for_keys = saturating_mul(required_deposit_per_key(), num_of_keys as u128);
    assert(deposit_per_key() * num_of_keys == num_of_keys * deposit_per_key()
        && deposit_per_key() * num_of_keys <= deposit_per_key() * 0x1_0000_0000) by (nonlinear_arith)
        requires
            0 <= num_of_keys < 0x1_0000_0000,
    ;
    saturating_add(required_storage_drop(num_of_keys), for_keys)
}

/// What `create` gives for a call with context `ctx`.
pub open spec fn creation(
    ctx: ContextView,
    ft_contract: Seq<char>,
    amount_per_drop: Balance,
    num_of_keys: u32,
) -> Result<(DropView, Option<PromiseView>), DropError> {
    let required = required_deposit(num_of_keys) as Balance;
    if ctx.attached_deposit < required {
        Err(DropError::InsufficientDeposit { required })
    } else if amount_per_drop < 1 {
        Err(DropError::ZeroAmount)
    } else {
        Ok(
            (
                DropView::FT(
                    FTDropView {
                        funder: ctx.predecessor_account_id,
                        amount: amount_per_drop,
                        ft_contract,
                        counter: num_of_keys,
                        funded: false,
                    },
                ),
                refund_of(ctx, required),
            ),
        )
    }
}

/// Makes a drop of fungible tokens for the caller, who has attached the
/// deposit for it: the drop, which is not funded yet, and the transfer that
/// hands back what was attached beyond the deposit. The deposit must do and
/// the amount must not be zero.
pub fn create(
    ctx: &Context,
    ft_contract: AccountId,
    amount_per_drop: Balance,
    num_of_keys: u32,
) -> (r: Result<(Drop, Option<Promise>), DropError>)
    ensures
        created(r) == creation(ctx@, ft_contract@, amount_per_drop, num_of_keys),
{
    let required_deposit = deposit_for(num_of_keys);
    if ctx.attached_deposit < required_deposit {
        return Err(DropError::InsufficientDeposit { required: required_deposit });
    }
    if amount_per_drop < 1 {
        return Err(DropError::ZeroAmount);
    }
    let refund = refund(ctx, required_deposit);
    let funder = ctx.predecessor_account_id.clone();
    Ok(
        (
            Drop::FT(
                FTDrop {
                    funder,
                    amount: amount_per_drop,
                    ft_contract,
                    counter: num_of_keys,
                    funded: false,
                },
            ),
            refund,
        ),
    )
}

/// What goes back to the funder in native tokens once a claim of fungible
/// tokens has ended: the storage of the key; the fee for creating an
/// account, where none was created; and the storage of the drop, where the
/// drop is gone.
pub open spec fn claim_refund(account_created: bool, drop_deleted: bool) -> int {
    ACCESS_KEY_STORAGE + (if account_created {
        0
    } else {
        CREATE_ACCOUNT_FEE as int
    }) + (if drop_deleted {
        storage_drop(0)
    } else {
        0
    })
}

/// The promises that settle a claim of fungible tokens: where the tokens
/// did not arrive, the call that moves them from the contract to the
/// funder; and the transfer of the refund.
pub open spec fn resolution(
    account_created: bool,
    drop_deleted: bool,
    funder: Seq<char>,
    amount: Balance,
    ft_contract: Seq<char>,
    transferred: bool,
) -> Seq<PromiseView> {
    let refund = transfer_to(funder, claim_refund(account_created, drop_deleted) as Balance);
    if transferred {
        seq![refund]
    } else {
        seq![single(ft_contract, ft_transfer_of(funder, amount)), refund]
    }
}

impl Contract {
    /// Takes note that the tokens for a drop have arrived. The message
    /// names the drop; the caller must be the token contract of the drop, and
    /// the amount what all its claims hand out. Gives the amount that the
    /// contract does not keep, which is nothing.
    pub fn ft_on_transfer(
        &mut self,
        ctx: &Context,
        sender_id: AccountId,
        amount: Balance,
        msg: String,
    ) -> (r: Result<Balance, DropError>)
        requires
            old(self).wf(),
        ensures
            final(self).wf(),
            match r {
                Ok(unused) => unused == 0 && old(self)@.fund_ft(ctx@, amount, msg@) == Ok::<
                    crate::state::State,
                    DropError,
                >(final(self)@),
                Err(e) => old(self)@.fund_ft(ctx@, amount, msg@) == Err::<
                    crate::state::State,
                    DropError,
                >(e) && *final(self) == *old(self),
            },
    {
        broadcast use vstd::std_specs::hash::group_hash_axioms;

        let drop_id = match parse_drop_id(msg.as_str()) {
            Some(drop_id) => drop_id,
            None => {
                return Err(DropError::InvalidMessage);
            },
        };
        let drop: Drop = match self.drop_by_id.get(&drop_id) {
            Some(drop) => drop.clone(),
            None => {
                return Err(DropError::NoDropInformation);
            },
        };
        let counter = match drop.get_counter() {
            Ok(counter) => counter,
            Err(_) => {
                return Err(DropError::NotFtDrop);
            },
        };
        let amount_per_drop = match drop.get_amount_per_drop() {
            Ok(amount_per_drop) => amount_per_drop,
            Err(_) => {
                return Err(DropError::NotFtDrop);
            },
        };
        let required_amount = saturating_mul(amount_per_drop, counter as u128);
        if amount != required_amount {
            return Err(DropError::WrongAmount { expected: required_amount });
        }
        match drop {
            Drop::FT(ft_drop) => {
                if !(ft_drop.ft_contract == ctx.predecessor_account_id) {
                    return Err(DropError::WrongContract);
                }
                let funded = FTDrop {
                    funder: ft_drop.funder,
                    amount: ft_drop.amount,
                    ft_contract: ft_drop.ft_contract,
                    counter: ft_drop.counter,
                    funded: true,
                };
                self.drop_by_id.insert(drop_id, Drop::FT(funded));
                proof {
                    assert(self@.drops =~= old(self)@.drops.insert(
                        drop_id,
                        DropView::FT(FTDropView { funded: true, ..ft_drop@ }),
                    ));
                    lemma_fund_ft_wf(old(self)@, ctx@, amount, msg@);
                }
                Ok(0)
            },
            _ => Err(DropError::NotFtDrop),
        }
    }

    /// Settles a claim of fungible tokens: gives the promises that hand back
    /// to the funder the tokens that did not arrive, and what the claim has
    /// not used.
    pub fn resolve_ft_claim(
        account_created: bool,
        drop_deleted: bool,
        funder: AccountId,
        amount: Balance,
        ft_contract: AccountId,
        result: Result<(), PromiseError>,
    ) -> (r: Vec<Promise>)
        ensures
            promise_views(r@) == resolution(
                account_created,
                drop_deleted,
                funder@,
                amount,
                ft_contract@,
                result is Ok,
            ),
    {
        let mut to_refund = ACCESS_KEY_STORAGE;
        if !account_created {
            to_refund = saturating_add(to_refund, CREATE_ACCOUNT_FEE);
        }
        if drop_deleted {
            to_refund = saturating_add(to_refund, required_storage_drop(0));
        }
        let mut promises: Vec<Promise> = Vec::new();
        if result.is_err() {
            promises.push(Promise::new(ft_contract, ft_transfer(funder.clone(), amount)));
        }
        promises.push(Promise::transfer(funder, to_refund));
        assert(promise_views(promises@) =~= resolution(
            account_created,
            drop_deleted,
            funder@,
            amount,
            ft_contract@,
            result is Ok,
        ));
        promises
    }
}

} // verus!
