use near_sdk::PromiseError;
use vstd::prelude::*;

use crate::balance::{capped, lemma_capped_product, saturating_add, saturating_mul};
use crate::constants::{
    AccountId, Balance, ACCESS_KEY_ALLOWANCE, ACCESS_KEY_STORAGE, ACC_STORAGE, CLAIM_CALLBACK_GAS,
    CREATE_ACCOUNT_FEE, ENUM_STORAGE, ID_STORAGE, PK_STORAGE, TOKEN_AMOUNT_STORAGE,
};
use crate::context::{Context, ContextView};
use crate::drop_types::{created, refund, refund_of, Drop, DropView, Dropper, Getters, Setters};
use crate::error::DropError;
use crate::Contract;
use crate::promise::{single, transfer_to, Action, ActionView, Call, CallView, Promise, PromiseView};

verus! {

/// A drop of native tokens.
#[derive(Debug, PartialEq, Eq)]
pub struct NearDrop {
    /// The account that created the drop and paid for it.
    pub funder: AccountId,
    /// The native tokens that one claim hands out.
    pub amount: Balance,
    /// How many more times the drop can be claimed.
    pub counter: u32,
}

/// The mathematical value of a `NearDrop`.
pub struct NearDropView {
    pub funder: Seq<char>,
    pub amount: Balance,
    pub counter: u32,
}

impl View for NearDrop {
    type V = NearDropView;

    open spec fn view(&self) -> NearDropView {
        NearDropView { funder: self.funder@, amount: self.amount, counter: self.counter }
    }
}

impl Clone for NearDrop {
    fn clone(&self) -> (r: Self)
        ensures
            r == *self,
    {
        NearDrop { funder: self.funder.clone(), amount: self.amount, counter: self.counter }
    }
}

impl NearDropView {
    /// The transfer of one claim to `account_id`.
    pub open spec fn claiming(self, account_id: Seq<char>) -> PromiseView {
        transfer_to(account_id, self.amount)
    }

    /// The callback on `current_account_id` that settles one claim.
    pub open spec fn resolving(
        self,
        current_account_id: Seq<char>,
        account_created: bool,
        drop_deleted: bool,
    ) -> PromiseView {
        single(
            current_account_id,
            ActionView::FunctionCall {
                call: CallView::ResolveNearClaim {
                    account_created,
                    drop_deleted,
                    funder: self.funder,
                    amount: self.amount,
                },
                deposit: 0,
                gas: CLAIM_CALLBACK_GAS,
                gas_weight: 0,
            },
        )
    }
}

impl Dropper for NearDrop {
    open spec fn claiming(&self, account_id: Seq<char>) -> Result<PromiseView, DropError> {
        Ok(self@.claiming(account_id))
    }

    open spec fn resolving(
        &self,
        current_account_id: Seq<char>,
        account_created: bool,
        drop_deleted: bool,
    ) -> PromiseView {
        self@.resolving(current_account_id, account_created, drop_deleted)
    }

    fn promise_for_claiming(&self, account_id: AccountId) -> (r: Result<Promise, DropError>) {
        Ok(Promise::transfer(account_id, self.amount))
    }

    fn promise_to_resolve_claim(
        &self,
        current_account_id: AccountId,
        account_created: bool,
        drop_deleted: bool,
    ) -> (r: Promise) {
        Promise::new(
            current_account_id,
            Action::FunctionCall {
                call: Call::ResolveNearClaim {
                    account_created,
                    drop_deleted,
                    funder: self.funder.clone(),
                    amount: self.amount,
                },
                deposit: 0,
                gas: CLAIM_CALLBACK_GAS,
                gas_weight: 0,
            },
        )
    }
}

impl Getters for NearDrop {
    open spec fn amount_per_drop(&self) -> Option<Balance> {
        Some(self.amount)
    }

    open spec fn counter(&self) -> Option<u32> {
        Some(self.counter)
    }

    fn get_amount_per_drop(&self) -> (r: Result<Balance, &'static str>) {
        Ok(self.amount)
    }

    fn get_counter(&self) -> (r: Result<u32, &'static str>) {
        Ok(self.counter)
    }
}

impl Setters for NearDrop {
    fn set_counter(&mut self, value: u32) -> (r: Result<(), &'static str>)
        ensures
            final(self)@ == (NearDropView { counter: value, ..old(self)@ }),
    {
        self.counter = value;
        Ok(())
    }
}

/// What one key of a drop of native tokens costs, before the cap: the amount
/// that it hands out, the fee for creating an account, the allowance of the
/// access key and the storage of the key.
pub open spec fn deposit_per_key(drop_amount: Balance) -> int {
    drop_amount + CREATE_ACCOUNT_FEE + ACCESS_KEY_ALLOWANCE + ACCESS_KEY_STORAGE
}

/// What storing a drop of native tokens with `num_access_keys` keys costs.
pub open spec fn storage_drop(num_access_keys: u32) -> int {
    ID_STORAGE + ENUM_STORAGE + ACC_STORAGE + TOKEN_AMOUNT_STORAGE + 8 + num_access_keys * (
    PK_STORAGE + ID_STORAGE)
}

/// The deposit that creating a drop of native tokens asks for: the storage of
/// the drop and, for each key, what the key costs; never more than the largest
/// balance.
pub open spec fn required_deposit(amount_per_drop: Balance, num_of_keys: u32) -> int {
    capped(storage_drop(num_of_keys) + num_of_keys * deposit_per_key(amount_per_drop))
}

/// What one key of a drop of native tokens costs, held at the largest
/// balance.
pub fn required_deposit_per_key(drop_amount: Balance) -> (r: Balance)
    ensures
        r == capped(deposit_per_key(drop_amount)),
{
    let with_fee = saturating_add(drop_amount, CREATE_ACCOUNT_FEE);
    let with_allowance = saturating_add(with_fee, ACCESS_KEY_ALLOWANCE);
    saturating_add(with_allowance, ACCESS_KEY_STORAGE)
}

/// What storing a drop of native tokens with `num_access_keys` keys costs.
pub fn required_storage_drop(num_access_keys: u32) -> (r: Balance)
    ensures
        r == storage_drop(num_access_keys),
{
    let per_binding: u128 = PK_STORAGE + ID_STORAGE;
    assert(num_access_keys * per_binding <= 0xffff_ffff * 36) by (nonlinear_arith)
        requires
            per_binding == 36,
            num_access_keys <= 0xffff_ffff,
    ;
    ID_STORAGE + ENUM_STORAGE + ACC_STORAGE + TOKEN_AMOUNT_STORAGE + 8 + num_access_keys as u128
        * per_binding
}

/// What `create` gives for a call with context `ctx`.
pub open spec fn creation(ctx: ContextView, amount_per_drop: Balance, num_of_keys: u32) -> Result<
    (DropView, Option<PromiseView>),
    DropError,
> {
    let required = required_deposit(amount_per_drop, num_of_keys) as Balance;
    if ctx.attached_deposit < required {
        Err(DropError::InsufficientDeposit { required })
    } else if amount_per_drop < 1 {
        Err(DropError::ZeroAmount)
    } else {
        Ok(
            (
                DropView::NEAR(
                    NearDropView {
                        funder: ctx.predecessor_account_id,
                        amount: amount_per_drop,
                        counter: num_of_keys,
                    },
                ),
                refund_of(ctx, required),
            ),
        )
    }
}

/// The deposit that `create` asks for.
pub fn deposit_for(amount_per_drop: Balance, num_of_keys: u32) -> (r: Balance)
    ensures
        r == required_deposit(amount_per_drop, num_of_keys),
{
    let per_key = required_deposit_per_key(amount_per_drop);
    let for_keys = saturating_mul(per_key, num_of_keys as u128);
    proof {
        lemma_capped_product(deposit_per_key(amount_per_drop), num_of_keys as int);
        assert(0 <= deposit_per_key(amount_per_drop) * num_of_keys) by (nonlinear_arith)
            requires
                0 <= deposit_per_key(amount_per_drop),
                0 <= num_of_keys,
        ;
        assert(deposit_per_key(amount_per_drop) * num_of_keys == num_of_keys * deposit_per_key(
            amount_per_drop,
        )) by (nonlinear_arith);
    }
    saturating_add(required_storage_drop(num_of_keys), for_keys)
}

/// Makes a drop of native tokens for the caller, who has attached the
/// deposit for it: the drop, and the transfer that hands back what was
/// attached beyond the deposit. The deposit must do and the amount must not
/// be zero.
pub fn create(ctx: &Context, amount_per_drop: Balance, num_of_keys: u32) -> (r: Result<
    (Drop, Option<Promise>),
    DropError,
>)
    ensures
        created(r) == creation(ctx@, amount_per_drop, num_of_keys),
{
    let required_deposit = deposit_for(amount_per_drop, num_of_keys);
    if ctx.attached_deposit < required_deposit {
        return Err(DropError::InsufficientDeposit { required: required_deposit });
    }
    if amount_per_drop < 1 {
        return Err(DropError::ZeroAmount);
    }
    let refund = refund(ctx, required_deposit);
    let funder = ctx.predecessor_account_id.clone();
    Ok((Drop::NEAR(NearDrop { funder, amount: amount_per_drop, counter: num_of_keys }), refund))
}

/// What goes back to the funder once a claim of native tokens has ended:
/// the storage of the key; the fee for creating an account, where none was
/// created; the storage of the drop, where the drop is gone; and the amount
/// of the claim, where it did not arrive. Never more than the largest balance.
pub open spec fn claim_refund(
    account_created: bool,
    drop_deleted: bool,
    amount: Balance,
    transferred: bool,
) -> int {
    capped(
        ACCESS_KEY_STORAGE + (if account_created {
            0
        } else {
            CREATE_ACCOUNT_FEE as int
        }) + (if drop_deleted {
            storage_drop(0)
        } else {
            0
        }) + (if transferred {
            0
        } else {
            amount as int
        }),
    )
}

impl Contract {
    /// Settles a claim of native tokens: gives the transfer that hands back
    /// to the funder what the claim has not used.
    pub fn resolve_near_claim(
        account_created: bool,
        drop_deleted: bool,
        funder: AccountId,
        amount: Balance,
        result: Result<(), PromiseError>,
    ) -> (r: Promise)
        ensures
            r@ == transfer_to(
                funder@,
                claim_refund(account_created, drop_deleted, amount, result is Ok) as Balance,
            ),
    {
        let mut to_refund = ACCESS_KEY_STORAGE;
        if !account_created {
            to_refund = saturating_add(to_refund, CREATE_ACCOUNT_FEE);
        }
        if drop_deleted {
            to_refund = saturating_add(to_refund, required_storage_drop(0));
        }
        if result.is_err() {
            to_refund = saturating_add(to_refund, amount);
        }
        Promise::transfer(funder, to_refund)
    }
}

} // verus!
