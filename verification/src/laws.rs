use vstd::prelude::*;

use crate::balance::capped;
use crate::bindings::bound_keys;
use crate::constants::{
    Balance, DropId, ACCESS_KEY_ALLOWANCE, ACCESS_KEY_STORAGE, CREATE_ACCOUNT_FEE,
};
use crate::context::ContextView;
use crate::drop_types::DropView;
use crate::error::DropError;
use crate::near_drop::{claim_refund, deposit_per_key, required_deposit, storage_drop};
use crate::promise::transfer_to;
use crate::state::{access_keys, lemma_claim_wf, State};

verus! {

/// One claim: the call that it comes with, the account that it is for, and
/// whether that account was created for it.
pub struct ClaimCall {
    pub ctx: ContextView,
    pub account_id: Seq<char>,
    pub account_created: bool,
}

/// The state after the claims, one after the other, where each of them is
/// accepted.
pub open spec fn after_claims(s: State, calls: Seq<ClaimCall>) -> Option<State>
    decreases calls.len(),
{
    if calls.len() == 0 {
        Some(s)
    } else {
        match s.claim(calls[0].ctx, calls[0].account_id, calls[0].account_created) {
            Ok((next, _)) => after_claims(next, calls.skip(1)),
            Err(_) => None,
        }
    }
}

/// How many of the claims are made with a key of the drop `drop_id`.
pub open spec fn claims_from(s: State, calls: Seq<ClaimCall>, drop_id: DropId) -> nat
    decreases calls.len(),
{
    if calls.len() == 0 {
        0
    } else {
        match s.claim(calls[0].ctx, calls[0].account_id, calls[0].account_created) {
            Ok((next, _)) => claims_from(next, calls.skip(1), drop_id) + (if s.keys[calls[0]
                .ctx
                .signer_account_pk] == drop_id {
                1nat
            } else {
                0nat
            }),
            Err(_) => 0,
        }
    }
}

/// A key claims at most once. Once a claim with a key has been accepted, be
/// it into an account that exists or into one that was created for it, the
/// key is bound to nothing: the next claim with it is turned down as not
/// found, whatever account it is for, and so is the request to create an
/// account with it.
pub proof fn claimed_key_is_gone(s: State, first: ClaimCall, second: ClaimCall)
    requires
        s.claim(first.ctx, first.account_id, first.account_created) is Ok,
        second.ctx.signer_account_pk == first.ctx.signer_account_pk,
    ensures
        ({
            let after = s.claim(first.ctx, first.account_id, first.account_created)->Ok_0.0;
            &&& !after.keys.contains_key(first.ctx.signer_account_pk)
            &&& after.claim(second.ctx, second.account_id, second.account_created) == Err::<
                (State, crate::promise::ChainView),
                DropError,
            >(DropError::NoDropForKey)
            &&& after.account_created(second.ctx, second.account_id, true) == Err::<
                (State, crate::promise::ChainView),
                DropError,
            >(DropError::NoDropForKey)
            &&& after.create_account(second.ctx, second.account_id) == Err::<
                crate::promise::ChainView,
                DropError,
            >(DropError::NoDropForKey)
        }),
{
}

/// A key that is bound to nothing stays so under every call but the
/// creation of a drop with that key: under a claim with any key, under the
/// arrival of fungible tokens, under the approval of a token and under the
/// deletion of a drop.
pub proof fn unbound_key_stays_unbound(s: State, key: Seq<u8>, ctx: ContextView)
    requires
        !s.keys.contains_key(key),
    ensures
        forall|account_id: Seq<char>, account_created: bool|
            (#[trigger] s.claim(ctx, account_id, account_created)) matches Ok((after, _))
                ==> !after.keys.contains_key(key),
        forall|amount: Balance, msg: Seq<char>|
            (#[trigger] s.fund_ft(ctx, amount, msg)) matches Ok(after) ==> !after.keys.contains_key(
                key,
            ),
        forall|token_id: Seq<char>, msg: Seq<char>|
            (#[trigger] s.approve_nft(ctx, token_id, msg)) matches Ok(after)
                ==> !after.keys.contains_key(key),
        forall|drop_id: DropId|
            (#[trigger] s.delete(ctx, drop_id)) matches Ok(after) ==> !after.keys.contains_key(key),
{
}

/// A claim takes one claim from the drop of its key and leaves every other
/// drop as it is: the drop goes on with one claim less, or is gone where
/// the claim was its last.
pub proof fn claim_takes_one(s: State, call: ClaimCall)
    requires
        s.wf(),
        s.claim(call.ctx, call.account_id, call.account_created) is Ok,
    ensures
        ({
            let after = s.claim(call.ctx, call.account_id, call.account_created)->Ok_0.0;
            let drop_id = s.keys[call.ctx.signer_account_pk];
            let left = s.drops[drop_id].remaining_claims();
            &&& s.drops.contains_key(drop_id)
            &&& left >= 1
            &&& left > 1 ==> after.drops.contains_key(drop_id)
                && after.drops[drop_id].remaining_claims() == left - 1
            &&& left == 1 ==> !after.drops.contains_key(drop_id)
            &&& forall|other: DropId|
                other != drop_id ==> after.drops.contains_key(other) == s.drops.contains_key(other)
                    && after.drops[other] == s.drops[other]
        }),
{
}

/// No claim can be made from a drop that is not there.
proof fn lemma_no_claims_from_absent(s: State, calls: Seq<ClaimCall>, drop_id: DropId)
    requires
        s.wf(),
        !s.drops.contains_key(drop_id),
    ensures
        claims_from(s, calls, drop_id) == 0,
        after_claims(s, calls) matches Some(after) ==> !after.drops.contains_key(drop_id),
    decreases calls.len(),
{
    if calls.len() > 0 {
        let call = calls[0];
        if s.claim(call.ctx, call.account_id, call.account_created) is Ok {
            let next = s.claim(call.ctx, call.account_id, call.account_created)->Ok_0.0;
            lemma_claim_wf(s, call.ctx, call.account_id, call.account_created);
            claim_takes_one(s, call);
            lemma_no_claims_from_absent(next, calls.skip(1), drop_id);
        }
    }
}

/// The counter of a drop is conserved. A drop with `n` claims left, which
/// is what a drop created with `n` keys has, has `n - c` claims left after
/// `c` accepted claims with its keys, whatever claims on other drops come in
/// between, and is gone once `c` is `n`. There are never more than `n`.
pub proof fn counter_conservation(s: State, drop_id: DropId, calls: Seq<ClaimCall>)
    requires
        s.wf(),
        s.drops.contains_key(drop_id),
        after_claims(s, calls) is Some,
    ensures
        ({
            let after = after_claims(s, calls)->0;
            let n = s.drops[drop_id].remaining_claims();
            let c = claims_from(s, calls, drop_id);
            &&& after.wf()
            &&& c <= n
            &&& c < n ==> after.drops.contains_key(drop_id)
                && after.drops[drop_id].remaining_claims() == n - c
            &&& c == n ==> !after.drops.contains_key(drop_id)
        }),
    decreases calls.len(),
{
    if calls.len() > 0 {
        let call = calls[0];
        let next = s.claim(call.ctx, call.account_id, call.account_created)->Ok_0.0;
        lemma_claim_wf(s, call.ctx, call.account_id, call.account_created);
        claim_takes_one(s, call);
        if next.drops.contains_key(drop_id) {
            counter_conservation(next, drop_id, calls.skip(1));
        } else {
            lemma_no_claims_from_absent(next, calls.skip(1), drop_id);
            lemma_after_claims_wf(next, calls.skip(1));
        }
    }
}

/// Claims keep the contract well formed.
proof fn lemma_after_claims_wf(s: State, calls: Seq<ClaimCall>)
    requires
        s.wf(),
        after_claims(s, calls) is Some,
    ensures
        after_claims(s, calls)->0.wf(),
    decreases calls.len(),
{
    if calls.len() > 0 {
        let call = calls[0];
        lemma_claim_wf(s, call.ctx, call.account_id, call.account_created);
        lemma_after_claims_wf(
            s.claim(call.ctx, call.account_id, call.account_created)->Ok_0.0,
            calls.skip(1),
        );
    }
}

/// Claims with different keys do not stand in each other's way. Where a
/// claim and then another one with a different key are accepted, they are
/// accepted in the other order too, and leave the contract in the same
/// state, be the keys of one drop or of two.
pub proof fn claims_with_different_keys_commute(s: State, a: ClaimCall, b: ClaimCall)
    requires
        s.wf(),
        a.ctx.signer_account_pk != b.ctx.signer_account_pk,
        after_claims(s, seq![a, b]) is Some,
    ensures
        after_claims(s, seq![b, a]) == after_claims(s, seq![a, b]),
{
    let ab = seq![a, b];
    let ba = seq![b, a];
    assert(ab.skip(1) =~= seq![b] && ab.skip(1).skip(1) =~= Seq::<ClaimCall>::empty());
    assert(ba.skip(1) =~= seq![a] && ba.skip(1).skip(1) =~= Seq::<ClaimCall>::empty());
    reveal_with_fuel(after_claims, 3);
    let s1 = s.claim(a.ctx, a.account_id, a.account_created)->Ok_0.0;
    lemma_claim_wf(s, a.ctx, a.account_id, a.account_created);
    claim_takes_one(s, a);
    claim_takes_one(s1, b);
    let s2 = s1.claim(b.ctx, b.account_id, b.account_created)->Ok_0.0;
    assert(s.claim(b.ctx, b.account_id, b.account_created) is Ok);
    let t1 = s.claim(b.ctx, b.account_id, b.account_created)->Ok_0.0;
    lemma_claim_wf(s, b.ctx, b.account_id, b.account_created);
    claim_takes_one(s, b);
    assert(t1.claim(a.ctx, a.account_id, a.account_created) is Ok);
    let t2 = t1.claim(a.ctx, a.account_id, a.account_created)->Ok_0.0;
    assert(s2.keys =~= t2.keys);
    assert(s2.drops =~= t2.drops);
}

/// A drop that has just been created, of native or of fungible tokens, has
/// as many claims left as it was given keys, and each of the keys is bound
/// to it.
pub proof fn created_drop_counts_its_keys(
    s: State,
    ctx: ContextView,
    public_keys: Seq<Seq<u8>>,
    ft_contract: Seq<char>,
    amount_per_drop: Balance,
)
    ensures
        s.create_near_drop(ctx, public_keys, amount_per_drop) matches Ok((after, drop_id, _))
            ==> counts_its_keys(after, drop_id, public_keys),
        s.create_ft_drop(ctx, public_keys, ft_contract, amount_per_drop) matches Ok(
            (after, drop_id, _),
        ) ==> counts_its_keys(after, drop_id, public_keys),
{
    assert forall|i: int| 0 <= i < public_keys.len() implies public_keys.contains(
        #[trigger] public_keys[i],
    ) by {}
}

/// Whether the drop is held with as many claims left as there are keys, and
/// with each of the keys bound to it.
pub open spec fn counts_its_keys(after: State, drop_id: DropId, public_keys: Seq<Seq<u8>>) -> bool {
    &&& after.drops.contains_key(drop_id)
    &&& after.drops[drop_id].remaining_claims() == public_keys.len()
    &&& forall|i: int|
        0 <= i < public_keys.len() ==> after.keys.contains_key(#[trigger] public_keys[i])
            && after.keys[public_keys[i]] == drop_id
}

/// The deposit for a drop of native tokens is exact. With `n` keys and the
/// amount `a` for each claim, the call asks for `n * a` and the reserve for
/// storage, fees and allowances, which is the storage of the drop and for
/// each key the fee for an account, the allowance and the storage of the key.
/// A call that attaches less is turned down; one that attaches as much is
/// accepted, and hands back in the same call what it attached beyond that,
/// before anything else.
pub proof fn deposit_exactness(
    s: State,
    ctx: ContextView,
    public_keys: Seq<Seq<u8>>,
    amount_per_drop: Balance,
)
    requires
        s.keys_refused(public_keys) is None,
        amount_per_drop >= 1,
        s.next_drop_id < u32::MAX,
        public_keys.len() * amount_per_drop + storage_drop(public_keys.len() as u32)
            + public_keys.len() * (CREATE_ACCOUNT_FEE + ACCESS_KEY_ALLOWANCE + ACCESS_KEY_STORAGE)
            <= u128::MAX,
    ensures
        ({
            let n = public_keys.len();
            let required = n * amount_per_drop + storage_drop(n as u32) + n * (CREATE_ACCOUNT_FEE
                + ACCESS_KEY_ALLOWANCE + ACCESS_KEY_STORAGE);
            let outcome = s.create_near_drop(ctx, public_keys, amount_per_drop);
            &&& required == required_deposit(amount_per_drop, n as u32)
            &&& ctx.attached_deposit < required ==> outcome == Err::<
                (State, DropId, Seq<crate::promise::PromiseView>),
                DropError,
            >(DropError::InsufficientDeposit { required: required as Balance })
            &&& ctx.attached_deposit >= required ==> outcome is Ok
            &&& ctx.attached_deposit > required ==> outcome->Ok_0.2 == seq![
                transfer_to(
                    ctx.predecessor_account_id,
                    (ctx.attached_deposit - required) as Balance,
                ),
            ] + access_keys(ctx.current_account_id, public_keys)
            &&& ctx.attached_deposit == required ==> outcome->Ok_0.2 == access_keys(
                ctx.current_account_id,
                public_keys,
            )
        }),
{
    let n = public_keys.len() as int;
    assert(n * deposit_per_key(amount_per_drop) == n * amount_per_drop + n * (CREATE_ACCOUNT_FEE
        + ACCESS_KEY_ALLOWANCE + ACCESS_KEY_STORAGE)) by (nonlinear_arith)
        requires
            deposit_per_key(amount_per_drop) == amount_per_drop + (CREATE_ACCOUNT_FEE
                + ACCESS_KEY_ALLOWANCE + ACCESS_KEY_STORAGE),
    ;
}

/// The compensation for a claim of native tokens is correct. Where the
/// transfer to the claimer fails, the funder gets back the amount of the
/// claim and the reserve that the claim has not used; where it succeeds,
/// the reserve alone, whatever the amount. The reserve is the storage of the
/// key, the fee for an account where none was created, and the storage of
/// the drop where the drop is gone.
pub proof fn compensation_correctness(account_created: bool, drop_deleted: bool, amount: Balance)
    requires
        claim_refund(account_created, drop_deleted, 0, true) + amount <= u128::MAX,
    ensures
        claim_refund(account_created, drop_deleted, amount, true) == ACCESS_KEY_STORAGE + (
        if account_created {
            0
        } else {
            CREATE_ACCOUNT_FEE as int
        }) + (if drop_deleted {
            storage_drop(0)
        } else {
            0
        }),
        claim_refund(account_created, drop_deleted, amount, false) == claim_refund(
            account_created,
            drop_deleted,
            amount,
            true,
        ) + amount,
{
}

/// A drop of tokens is claimed only once it holds them. While the fungible
/// tokens of a drop have not arrived, or the drop names no token, a claim
/// with one of its keys is turned down and uses up nothing.
pub proof fn unfunded_drop_is_not_claimed(s: State, call: ClaimCall)
    requires
        s.keys.contains_key(call.ctx.signer_account_pk),
        s.drops.contains_key(s.keys[call.ctx.signer_account_pk]),
        match s.drops[s.keys[call.ctx.signer_account_pk]] {
            DropView::FT(ft_drop) => !ft_drop.funded,
            DropView::NFT(nft_drop) => nft_drop.token_id.len() == 0,
            DropView::NEAR(_) => false,
        },
    ensures
        s.claim(call.ctx, call.account_id, call.account_created) is Err,
{
}

/// Only the token contract of a drop confirms its funding. The arrival of
/// fungible tokens is accepted only from the contract that the drop names,
/// and funds that drop alone; the approval of a token likewise.
pub proof fn funding_comes_from_the_token_contract(s: State, ctx: ContextView, msg: Seq<char>)
    ensures
        forall|amount: Balance| (#[trigger] s.fund_ft(ctx, amount, msg)) matches Ok(after) ==> {
            let drop_id = crate::parse::parsed_drop_id(msg)->0;
            &&& s.drops[drop_id] matches DropView::FT(ft_drop)
            &&& ft_drop.ft_contract == ctx.predecessor_account_id
            &&& amount == capped(ft_drop.amount * ft_drop.counter)
            &&& after.drops[drop_id] == DropView::FT(
                crate::ft_drop::FTDropView { funded: true, ..ft_drop },
            )
        },
        forall|token_id: Seq<char>| (#[trigger] s.approve_nft(ctx, token_id, msg)) matches Ok(after)
            ==> {
            let drop_id = crate::parse::parsed_drop_id(msg)->0;
            &&& s.drops[drop_id] matches DropView::NFT(nft_drop)
            &&& nft_drop.nft_contract == ctx.predecessor_account_id
            &&& after.drops[drop_id] == DropView::NFT(
                crate::nft_drop::NFTDropView { token_id, ..nft_drop },
            )
        },
{
}

/// A deleted drop is gone with all its keys: no key of the drop is bound
/// any more, every claim with one of them is turned down as not found, and
/// the keys of the other drops are bound as before.
pub proof fn deleted_drop_leaves_no_key(
    s: State,
    ctx: ContextView,
    drop_id: DropId,
    call: ClaimCall,
)
    requires
        s.delete(ctx, drop_id) is Ok,
    ensures
        ({
            let after = s.delete(ctx, drop_id)->Ok_0;
            let key = call.ctx.signer_account_pk;
            &&& !after.drops.contains_key(drop_id)
            &&& bound_keys(after.keys, drop_id) == Set::<Seq<u8>>::empty()
            &&& s.keys.contains_key(key) && s.keys[key] == drop_id ==> after.claim(
                call.ctx,
                call.account_id,
                call.account_created,
            ) == Err::<(State, crate::promise::ChainView), DropError>(DropError::NoDropForKey)
            &&& s.keys.contains_key(key) && s.keys[key] != drop_id ==> after.keys.contains_key(key)
                && after.keys[key] == s.keys[key]
        }),
{
    let after = s.delete(ctx, drop_id)->Ok_0;
    assert(bound_keys(after.keys, drop_id) =~= Set::<Seq<u8>>::empty());
}

} // verus!
