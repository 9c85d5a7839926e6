use vstd::prelude::*;

use crate::balance::saturating_sub;
use crate::constants::{AccountId, Balance};
use crate::context::{Context, ContextView};
use crate::error::DropError;
use crate::ft_drop::{FTDrop, FTDropView};
use crate::near_drop::{NearDrop, NearDropView};
use crate::nft_drop::{NFTDrop, NFTDropView};
use crate::promise::{transfer_to, Promise, PromiseView};

verus! {

/// The value of a promise that may have been refused.
pub open spec fn promised(r: Result<Promise, DropError>) -> Result<PromiseView, DropError> {
    match r {
        Ok(p) => Ok(p@),
        Err(e) => Err(e),
    }
}

/// How a drop hands out one claim, and how the claim is settled afterwards.
pub trait Dropper: Sized {
    /// The promise that hands one claim to `account_id`, or why there is none.
    spec fn claiming(&self, account_id: Seq<char>) -> Result<PromiseView, DropError>;

    /// The callback on `current_account_id` that settles one claim.
    spec fn resolving(
        &self,
        current_account_id: Seq<char>,
        account_created: bool,
        drop_deleted: bool,
    ) -> PromiseView;

    /// The promise that hands one claim to `account_id`.
    fn promise_for_claiming(&self, account_id: AccountId) -> (r: Result<Promise, DropError>)
        ensures
            promised(r) == self.claiming(account_id@),
    ;

    /// The callback that settles one claim, once its transfer has ended.
    fn promise_to_resolve_claim(
        &self,
        current_account_id: AccountId,
        account_created: bool,
        drop_deleted: bool,
    ) -> (r: Promise)
        ensures
            r@ == self.resolving(current_account_id@, account_created, drop_deleted),
    ;
}

/// What can be read of a drop, where its kind has it.
pub trait Getters: Sized {
    /// The amount that one claim hands out, where the drop has one.
    spec fn amount_per_drop(&self) -> Option<Balance>;

    /// How many claims are left, where the drop counts them.
    spec fn counter(&self) -> Option<u32>;

    /// The amount that one claim hands out, or that the drop has none.
    fn get_amount_per_drop(&self) -> (r: Result<Balance, &'static str>)
        ensures
            r is Ok <==> self.amount_per_drop() is Some,
            r matches Ok(amount) ==> self.amount_per_drop() == Some(amount),
    ;

    /// How many claims are left, or that the drop does not count them.
    fn get_counter(&self) -> (r: Result<u32, &'static str>)
        ensures
            r is Ok <==> self.counter() is Some,
            r matches Ok(counter) ==> self.counter() == Some(counter),
    ;
}

/// What can be changed on a drop, where its kind has it.
pub trait Setters: Getters {
    /// Sets how many claims are left, where the drop counts them, and
    /// leaves the drop as it is where it does not.
    fn set_counter(&mut self, value: u32) -> (r: Result<(), &'static str>)
        ensures
            r is Ok <==> old(self).counter() is Some,
            r is Ok ==> final(self).counter() == Some(value),
            r is Ok ==> final(self).amount_per_drop() == old(self).amount_per_drop(),
            r is Err ==> *final(self) == *old(self),
    ;
}

/// A drop: what it hands out, who paid for it, and how often it can still
/// be claimed.
#[derive(Debug, PartialEq, Eq)]
pub enum Drop {
    NEAR(NearDrop),
    FT(FTDrop),
    NFT(NFTDrop),
}

/// The mathematical value of a `Drop`.
pub enum DropView {
    NEAR(NearDropView),
    FT(FTDropView),
    NFT(NFTDropView),
}

impl View for Drop {
    type V = DropView;

    open spec fn view(&self) -> DropView {
        match *self {
            Drop::NEAR(near_drop) => DropView::NEAR(near_drop@),
            Drop::FT(ft_drop) => DropView::FT(ft_drop@),
            Drop::NFT(nft_drop) => DropView::NFT(nft_drop@),
        }
    }
}

impl Clone for Drop {
    fn clone(&self) -> (r: Self)
        ensures
            r == *self,
    {
        match self {
            Drop::NEAR(near_drop) => Drop::NEAR(near_drop.clone()),
            Drop::FT(ft_drop) => Drop::FT(ft_drop.clone()),
            Drop::NFT(nft_drop) => Drop::NFT(nft_drop.clone()),
        }
    }
}

impl DropView {
    /// The account that paid for the drop, and that gets back what is left.
    pub open spec fn funder(self) -> Seq<char> {
        match self {
            DropView::NEAR(near_drop) => near_drop.funder,
            DropView::FT(ft_drop) => ft_drop.funder,
            DropView::NFT(nft_drop) => nft_drop.funder,
        }
    }

    /// How many more times the drop can be claimed: what its counter says,
    /// and once for a non-fungible token.
    pub open spec fn remaining_claims(self) -> nat {
        match self {
            DropView::NEAR(near_drop) => near_drop.counter as nat,
            DropView::FT(ft_drop) => ft_drop.counter as nat,
            DropView::NFT(_) => 1,
        }
    }

    /// The same drop with `value` claims left. A non-fungible token has no
    /// counter and stays as it is.
    pub open spec fn with_counter(self, value: u32) -> DropView {
        match self {
            DropView::NEAR(near_drop) => DropView::NEAR(
                NearDropView { counter: value, ..near_drop },
            ),
            DropView::FT(ft_drop) => DropView::FT(FTDropView { counter: value, ..ft_drop }),
            DropView::NFT(nft_drop) => DropView::NFT(nft_drop),
        }
    }

    /// The promise that hands one claim to `account_id`, or why there is none.
    pub open spec fn claiming(self, account_id: Seq<char>) -> Result<PromiseView, DropError> {
        match self {
            DropView::NEAR(near_drop) => Ok(near_drop.claiming(account_id)),
            DropView::FT(ft_drop) => ft_drop.claiming(account_id),
            DropView::NFT(nft_drop) => nft_drop.claiming(account_id),
        }
    }

    /// The callback on `current_account_id` that settles one claim.
    pub open spec fn resolving(
        self,
        current_account_id: Seq<char>,
        account_created: bool,
        drop_deleted: bool,
    ) -> PromiseView {
        match self {
            DropView::NEAR(near_drop) => near_drop.resolving(
                current_account_id,
                account_created,
                drop_deleted,
            ),
            DropView::FT(ft_drop) => ft_drop.resolving(
                current_account_id,
                account_created,
                drop_deleted,
            ),
            DropView::NFT(nft_drop) => nft_drop.resolving(
                current_account_id,
                account_created,
                drop_deleted,
            ),
        }
    }
}

impl Dropper for Drop {
    open spec fn claiming(&self, account_id: Seq<char>) -> Result<PromiseView, DropError> {
        self@.claiming(account_id)
    }

    open spec fn resolving(
        &self,
        current_account_id: Seq<char>,
        account_created: bool,
        drop_deleted: bool,
    ) -> PromiseView {
        self@.resolving(current_account_id, account_created, drop_deleted)
    }

    fn promise_for_claiming(&self, account_id: AccountId) -> (r: Result<Promise, DropError>) {
        match self {
            Drop::NEAR(near_drop) => near_drop.promise_for_claiming(account_id),
            Drop::FT(ft_drop) => ft_drop.promise_for_claiming(account_id),
            Drop::NFT(nft_drop) => nft_drop.promise_for_claiming(account_id),
        }
    }

    fn promise_to_resolve_claim(
        &self,
        current_account_id: AccountId,
        account_created: bool,
        drop_deleted: bool,
    ) -> (r: Promise) {
        match self {
            Drop::NEAR(near_drop) => near_drop.promise_to_resolve_claim(
                current_account_id,
                account_created,
                drop_deleted,
            ),
            Drop::FT(ft_drop) => ft_drop.promise_to_resolve_claim(
                current_account_id,
                account_created,
                drop_deleted,
            ),
            Drop::NFT(nft_drop) => nft_drop.promise_to_resolve_claim(
                current_account_id,
                account_created,
                drop_deleted,
            ),
        }
    }
}

impl Getters for Drop {
    open spec fn amount_per_drop(&self) -> Option<Balance> {
        match *self {
            Drop::NEAR(near_drop) => Some(near_drop.amount),
            Drop::FT(ft_drop) => Some(ft_drop.amount),
            Drop::NFT(_) => None,
        }
    }

    open spec fn counter(&self) -> Option<u32> {
        match *self {
            Drop::NEAR(near_drop) => Some(near_drop.counter),
            Drop::FT(ft_drop) => Some(ft_drop.counter),
            Drop::NFT(_) => None,
        }
    }

    fn get_amount_per_drop(&self) -> (r: Result<Balance, &'static str>)
        ensures
            r matches Err(why) ==> why@
                == "There is no amount_per_drop field for NFT drop structure"@,
    {
        match self {
            Drop::NEAR(near_drop) => near_drop.get_amount_per_drop(),
            Drop::FT(ft_drop) => ft_drop.get_amount_per_drop(),
            _ => Err("There is no amount_per_drop field for NFT drop structure"),
        }
    }

    fn get_counter(&self) -> (r: Result<u32, &'static str>)
        ensures
            r matches Err(why) ==> why@
                == "There is no amount_per_drop field for NFT drop structure"@,
    {
        match self {
            Drop::NEAR(near_drop) => near_drop.get_counter(),
            Drop::FT(ft_drop) => ft_drop.get_counter(),
            _ => Err("There is no amount_per_drop field for NFT drop structure"),
        }
    }
}

impl Setters for Drop {
    fn set_counter(&mut self, value: u32) -> (r: Result<(), &'static str>)
        ensures
            r is Ok ==> final(self)@ == old(self)@.with_counter(value),
            r matches Err(why) ==> why@ == "There is no counter field for NFT drop structure"@,
    {
        match self {
            Drop::NEAR(near_drop) => near_drop.set_counter(value),
            Drop::FT(ft_drop) => ft_drop.set_counter(value),
            _ => Err("There is no counter field for NFT drop structure"),
        }
    }
}

/// The transfer that hands back to the caller what it attached beyond
/// `required`, where it attached more.
pub open spec fn refund_of(ctx: ContextView, required: Balance) -> Option<PromiseView> {
    if ctx.attached_deposit > required {
        Some(transfer_to(ctx.predecessor_account_id, (ctx.attached_deposit - required) as Balance))
    } else {
        None
    }
}

/// The value of what a `create` function gives.
pub open spec fn created(r: Result<(Drop, Option<Promise>), DropError>) -> Result<
    (DropView, Option<PromiseView>),
    DropError,
> {
    match r {
        Ok((drop, Some(refund))) => Ok((drop@, Some(refund@))),
        Ok((drop, None)) => Ok((drop@, None)),
        Err(e) => Err(e),
    }
}

/// The transfer that hands back to the caller what it attached beyond
/// `required`, where it attached more.
pub fn refund(ctx: &Context, required: Balance) -> (r: Option<Promise>)
    ensures
        match r {
            Some(p) => refund_of(ctx@, required) == Some(p@),
            None => refund_of(ctx@, required) is None,
        },
{
    let extra_deposit = saturating_sub(ctx.attached_deposit, required);
    if extra_deposit > 0 {
        Some(Promise::transfer(ctx.predecessor_account_id.clone(), extra_deposit))
    } else {
        None
    }
}

} // verus!
