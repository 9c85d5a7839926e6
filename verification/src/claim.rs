use near_sdk::PromiseError;
use vstd::prelude::*;

use crate::bindings::copy_key;
use crate::constants::{AccountId, CREATE_ACCOUNT_FEE, CREATE_CALLBACK_GAS, GAS_FOR_CREATE_ACCOUNT};
use crate::context::Context;
use crate::drop_types::{Drop, Dropper, Getters, Setters};
use crate::error::DropError;
use crate::promise::{Action, Call, Chain, ChainView, Promise};
use crate::state::{lemma_claim_wf, Claimed, State};
use crate::Contract;

verus! {

broadcast use vstd::std_specs::hash::group_hash_axioms;

/// The value of what a claim gives, with the state in which it leaves the
/// contract.
pub open spec fn claimed_in(r: Result<Chain, DropError>, after: State) -> Claimed {
    match r {
        Ok(chain) => Ok((after, chain@)),
        Err(e) => Err(e),
    }
}

/// The value of a transfer with its callback that may have been refused.
pub open spec fn chained(r: Result<Chain, DropError>) -> Result<ChainView, DropError> {
    match r {
        Ok(chain) => Ok(chain@),
        Err(e) => Err(e),
    }
}

impl Contract {
    /// Claims for `account_id`, with the key that signed the call.
    pub fn claim_for(&mut self, ctx: &Context, account_id: AccountId) -> (r: Result<
        Chain,
        DropError,
    >)
        requires
            old(self).wf(),
        ensures
            final(self).wf(),
            claimed_in(r, final(self)@) == old(self)@.claim(ctx@, account_id@, false),
            r is Err ==> *final(self) == *old(self),
    {
        self.internal_claim(ctx, account_id, false)
    }

    /// Asks the top-level account to create `account_id`, with the key that
    /// signed the call as its key; the claim goes on in the callback.
    pub fn create_account_and_claim(&self, ctx: &Context, account_id: AccountId) -> (r: Result<
        Chain,
        DropError,
    >)
        requires
            self.wf(),
        ensures
            chained(r) == self@.create_account(ctx@, account_id@),
    {
        if self.drop_id_by_key.get(&ctx.signer_account_pk).is_none() {
            return Err(DropError::NoDropForKey);
        }
        let create = Promise::new(
            self.top_level_account.clone(),
            Action::FunctionCall {
                call: Call::CreateAccount {
                    new_account_id: account_id.clone(),
                    new_public_key: copy_key(&ctx.signer_account_pk),
                },
                deposit: CREATE_ACCOUNT_FEE,
                gas: GAS_FOR_CREATE_ACCOUNT,
                gas_weight: 0,
            },
        );
        let resolve = Promise::new(
            ctx.current_account_id.clone(),
            Action::FunctionCall {
                call: Call::ResolveAccountCreate { account_id },
                deposit: 0,
                gas: CREATE_CALLBACK_GAS,
                gas_weight: 1,
            },
        );
        Ok(create.followed_by(resolve))
    }

    /// Goes on with the claim once the account has been created, and
    /// refuses it where it has not.
    pub fn resolve_account_create(
        &mut self,
        ctx: &Context,
        account_id: AccountId,
        created: Result<bool, PromiseError>,
    ) -> (r: Result<Chain, DropError>)
        requires
            old(self).wf(),
        ensures
            final(self).wf(),
            claimed_in(r, final(self)@) == old(self)@.account_created(
                ctx@,
                account_id@,
                created == Ok::<bool, PromiseError>(true),
            ),
            r is Err ==> *final(self) == *old(self),
    {
        match created {
            Ok(true) => self.internal_claim(ctx, account_id, true),
            _ => Err(DropError::AccountCreationFailed),
        }
    }

    /// Uses up the key that signed the call, takes one claim from its drop,
    /// and gives the transfer of the claim with the callback that settles it.
    fn internal_claim(&mut self, ctx: &Context, account_id: AccountId, account_created: bool) -> (r:
        Result<Chain, DropError>)
        requires
            old(self).wf(),
        ensures
            final(self).wf(),
            claimed_in(r, final(self)@) == old(self)@.claim(ctx@, account_id@, account_created),
            r is Err ==> *final(self) == *old(self),
    {
        let drop_id = match self.drop_id_by_key.get(&ctx.signer_account_pk) {
            Some(drop_id) => drop_id,
            None => {
                return Err(DropError::NoDropForKey);
            },
        };
        let drop: Drop = match self.drop_by_id.get(&drop_id) {
            Some(drop) => drop.clone(),
            None => {
                return Err(DropError::NoDropInformation);
            },
        };
        let transfer = match drop.promise_for_claiming(account_id) {
            Ok(transfer) => transfer,
            Err(e) => {
                return Err(e);
            },
        };
        self.drop_id_by_key.remove(&ctx.signer_account_pk);
        let counter = match drop.get_counter() {
            Ok(counter) => counter,
            Err(_) => 1,
        };
        assert(counter == drop@.remaining_claims());
        let updated_counter = counter - 1;
        let mut drop_deleted = true;
        if updated_counter > 0 {
            let mut updated_drop = drop.clone();
            let _ = updated_drop.set_counter(updated_counter);
            self.drop_by_id.insert(drop_id, updated_drop);
            drop_deleted = false;
            assert(self@.drops =~= old(self)@.drops.insert(
                drop_id,
                drop@.with_counter(updated_counter),
            ));
        } else {
            self.drop_by_id.remove(&drop_id);
            assert(self@.drops =~= old(self)@.drops.remove(drop_id));
        }
        proof {
            lemma_claim_wf(old(self)@, ctx@, account_id@, account_created);
        }
        let resolve = drop.promise_to_resolve_claim(
            ctx.current_account_id.clone(),
            account_created,
            drop_deleted,
        );
        Ok(transfer.followed_by(resolve))
    }
}

} // verus!
