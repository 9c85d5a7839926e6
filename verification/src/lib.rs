//! Drops on the NEAR ledger, verified.
//!
//! A funder deposits native tokens, fungible tokens or one non-fungible
//! token, and binds them to claim keys. Whoever holds a key claims its share
//! once, into an account of their choice. What a claim does not use goes back
//! to the funder.
//!
//! The library decides; it does not act. Each entry point takes what the
//! ledger says of the call as a [`context::Context`], changes the
//! [`Contract`], and gives back the [`promise::Promise`]s that the caller is
//! to hand to the ledger. What each entry point does is stated over
//! [`state::State`], the mathematical value of the contract, and proved.
//! The module [`laws`] holds what follows for every contract: a key claims at
//! most once, the counter of a drop is conserved, deposits and refunds are
//! exact, and tokens are handed out only once they are there.
//!
//! Amounts are computed with `near_sdk::NearToken`; see [`balance`] for
//! what is taken on trust of it.

pub mod balance;
pub mod bindings;
pub mod claim;
pub mod constants;
pub mod context;
pub mod drop_types;
pub mod error;
pub mod ft_drop;
pub mod laws;
pub mod near_drop;
pub mod nft_drop;
pub mod parse;
pub mod promise;
pub mod restore;
pub mod state;

use std::collections::HashMap;

use vstd::prelude::*;

use crate::bindings::{bind_all, copy_key, lemma_bind_one_more, same_key, KeyRegistry};
use crate::constants::{AccountId, Balance, DropId, PublicKey, ACCESS_KEY_ALLOWANCE};
use crate::context::Context;
use crate::drop_types::Drop;
use crate::error::DropError;
use crate::promise::{single, Action, ActionView, Promise, PromiseView};
use crate::state::{
    access_keys, lemma_create_ft_drop_wf, lemma_create_near_drop_wf, lemma_create_nft_drop_wf,
    lemma_delete_wf, Created, State,
};

verus! {

broadcast use vstd::std_specs::hash::group_hash_axioms;

/// The contract: the drops, the claim keys, and the account that creates
/// accounts for those who claim into a new one.
#[derive(Debug)]
pub struct Contract {
    pub top_level_account: AccountId,
    pub next_drop_id: DropId,
    pub drop_by_id: HashMap<DropId, Drop>,
    pub drop_id_by_key: KeyRegistry,
}

impl View for Contract {
    type V = State;

    open spec fn view(&self) -> State {
        State {
            top_level_account: self.top_level_account@,
            next_drop_id: self.next_drop_id,
            drops: self.drop_by_id@.map_values(|drop: Drop| drop@),
            keys: self.drop_id_by_key@,
        }
    }
}

/// The values of the keys.
pub open spec fn key_views(public_keys: Seq<PublicKey>) -> Seq<Seq<u8>> {
    Seq::new(public_keys.len(), |i: int| public_keys[i]@)
}

/// The values of the promises.
pub open spec fn promise_views(promises: Seq<Promise>) -> Seq<PromiseView> {
    Seq::new(promises.len(), |i: int| promises[i]@)
}

/// The value of what a call that creates a drop gives, with the state in
/// which it leaves the contract.
pub open spec fn created_in(r: Result<(DropId, Vec<Promise>), DropError>, after: State) -> Created {
    match r {
        Ok((drop_id, promises)) => Ok((after, drop_id, promise_views(promises@))),
        Err(e) => Err(e),
    }
}

impl Contract {
    /// What holds of the contract between any two calls.
    pub open spec fn wf(&self) -> bool {
        self.drop_id_by_key.wf() && self@.wf()
    }

    /// A contract that holds no drop, for which `top_level_account` creates
    /// the accounts.
    pub fn new(top_level_account: AccountId) -> (r: Self)
        ensures
            r.wf(),
            r@ == State::init(top_level_account@),
    {
        let r = Contract {
            top_level_account,
            next_drop_id: 0,
            drop_id_by_key: KeyRegistry::new(),
            drop_by_id: HashMap::new(),
        };
        assert(r@.drops =~= Map::empty());
        r
    }

    /// Why the keys cannot get a drop, if they cannot.
    fn keys_refused(&self, public_keys: &Vec<PublicKey>) -> (r: Option<DropError>)
        requires
            self.drop_id_by_key.wf(),
        ensures
            r == self@.keys_refused(key_views(public_keys@)),
    {
        let ghost keys = key_views(public_keys@);
        let mut i: usize = 0;
        while i < public_keys.len()
            invariant
                i <= public_keys.len(),
                self.drop_id_by_key.wf(),
                keys == key_views(public_keys@),
                forall|a: int| 0 <= a < i ==> !self@.keys.contains_key(#[trigger] keys[a]),
                forall|a: int, b: int| 0 <= a < b < i ==> keys[a] != keys[b],
            decreases public_keys.len() - i,
        {
            if self.drop_id_by_key.contains_key(&public_keys[i]) {
                assert(self@.keys.contains_key(keys[i as int]));
                return Some(DropError::KeyAlreadyUsed);
            }
            let mut j: usize = 0;
            while j < i
                invariant
                    j <= i < public_keys.len(),
                    keys == key_views(public_keys@),
                    forall|a: int| 0 <= a < j ==> keys[a] != keys[i as int],
                decreases i - j,
            {
                if same_key(&public_keys[j], &public_keys[i]) {
                    assert(keys[j as int] == keys[i as int]);
                    return Some(DropError::KeyAlreadyUsed);
                }
                j += 1;
            }
            i += 1;
        }
        assert(self@.unused(keys));
        if public_keys.len() == 0 {
            Some(DropError::NoKeys)
        } else if public_keys.len() > u32::MAX as usize {
            Some(DropError::TooManyKeys)
        } else {
            None
        }
    }

    /// The promises of a call that creates a drop: the refund, where there
    /// is one, and then the access keys.
    fn promises_of(refund: Option<Promise>, granted: Vec<Promise>) -> (r: Vec<Promise>)
        ensures
            promise_views(r@) == match refund {
                Some(transfer) => seq![transfer@] + promise_views(granted@),
                None => promise_views(granted@),
            },
    {
        match refund {
            Some(transfer) => {
                let mut promises: Vec<Promise> = Vec::new();
                promises.push(transfer);
                let mut granted = granted;
                let ghost rest = granted@;
                promises.append(&mut granted);
                assert(promise_views(promises@) =~= seq![transfer@] + promise_views(rest));
                promises
            },
            None => granted,
        }
    }

    /// Holds the drop and its keys, where the drop was made and an
    /// identifier is left for it.
    fn save(
        &mut self,
        ctx: &Context,
        public_keys: &Vec<PublicKey>,
        made: Result<(Drop, Option<Promise>), DropError>,
    ) -> (r: Result<(DropId, Vec<Promise>), DropError>)
        requires
            old(self).drop_id_by_key.wf(),
        ensures
            final(self).drop_id_by_key.wf(),
            created_in(r, final(self)@) == old(self)@.create(
                ctx@,
                key_views(public_keys@),
                crate::drop_types::created(made),
            ),
            r is Err ==> *final(self) == *old(self),
    {
        match made {
            Err(e) => Err(e),
            Ok((drop, refund)) => {
                if self.next_drop_id == u32::MAX {
                    return Err(DropError::DropIdsExhausted);
                }
                let drop_id = self.save_drop(drop);
                let granted = self.save_drop_id_by_keys(ctx, public_keys, drop_id);
                Ok((drop_id, Self::promises_of(refund, granted)))
            },
        }
    }

    /// Creates a drop of native tokens for the caller, with a claim for each
    /// of the keys. Gives its identifier and the promises of the call: the
    /// refund, and an access key for each of the keys.
    pub fn create_near_drop(
        &mut self,
        ctx: &Context,
        public_keys: Vec<PublicKey>,
        amount_per_drop: Balance,
    ) -> (r: Result<(DropId, Vec<Promise>), DropError>)
        requires
            old(self).wf(),
        ensures
            final(self).wf(),
            created_in(r, final(self)@) == old(self)@.create_near_drop(
                ctx@,
                key_views(public_keys@),
                amount_per_drop,
            ),
            r is Err ==> *final(self) == *old(self),
    {
        if let Some(e) = self.keys_refused(&public_keys) {
            return Err(e);
        }
        let num_of_keys = public_keys.len() as u32;
        let made = crate::near_drop::create(ctx, amount_per_drop, num_of_keys);
        let r = self.save(ctx, &public_keys, made);
        proof {
            if r is Ok {
                lemma_create_near_drop_wf(
                    old(self)@,
                    ctx@,
                    key_views(public_keys@),
                    amount_per_drop,
                );
            }
        }
        r
    }

    /// Creates a drop of fungible tokens for the caller, with a claim for each
    /// of the keys. Gives its identifier and the promises of the call: the
    /// refund, and an access key for each of the keys.
    pub fn create_ft_drop(
        &mut self,
        ctx: &Context,
        public_keys: Vec<PublicKey>,
        ft_contract: AccountId,
        amount_per_drop: Balance,
    ) -> (r: Result<(DropId, Vec<Promise>), DropError>)
        requires
            old(self).wf(),
        ensures
            final(self).wf(),
            created_in(r, final(self)@) == old(self)@.create_ft_drop(
                ctx@,
                key_views(public_keys@),
                ft_contract@,
                amount_per_drop,
            ),
            r is Err ==> *final(self) == *old(self),
    {
        if let Some(e) = self.keys_refused(&public_keys) {
            return Err(e);
        }
        let num_of_keys = public_keys.len() as u32;
        let made = crate::ft_drop::create(ctx, ft_contract, amount_per_drop, num_of_keys);
        let r = self.save(ctx, &public_keys, made);
        proof {
            if r is Ok {
                lemma_create_ft_drop_wf(
                    old(self)@,
                    ctx@,
                    key_views(public_keys@),
                    ft_contract@,
                    amount_per_drop,
                );
            }
        }
        r
    }

    /// Creates a drop of a non-fungible token for the caller, with the key
    /// that claims it. Gives its identifier and the promises of the call:
    /// the refund, and an access key for the key.
    pub fn create_nft_drop(
        &mut self,
        ctx: &Context,
        public_key: PublicKey,
        nft_contract: AccountId,
    ) -> (r: Result<(DropId, Vec<Promise>), DropError>)
        requires
            old(self).wf(),
        ensures
            final(self).wf(),
            created_in(r, final(self)@) == old(self)@.create_nft_drop(
                ctx@,
                public_key@,
                nft_contract@,
            ),
            r is Err ==> *final(self) == *old(self),
    {
        if self.drop_id_by_key.contains_key(&public_key) {
            return Err(DropError::KeyAlreadyUsed);
        }
        let made = crate::nft_drop::create(ctx, nft_contract);
        let mut public_keys: Vec<PublicKey> = Vec::new();
        public_keys.push(public_key);
        assert(key_views(public_keys@) =~= seq![public_key@]);
        let r = self.save(ctx, &public_keys, made);
        proof {
            if r is Ok {
                lemma_create_nft_drop_wf(old(self)@, ctx@, public_key@, nft_contract@);
            }
        }
        r
    }

    /// The drop with that identifier.
    pub fn get_drop_by_id(&self, drop_id: DropId) -> (r: Result<Drop, DropError>)
        ensures
            match r {
                Ok(drop) => self@.drops.contains_key(drop_id) && drop@ == self@.drops[drop_id],
                Err(e) => !self@.drops.contains_key(drop_id) && e == DropError::NoDropInformation,
            },
    {
        match self.drop_by_id.get(&drop_id) {
            Some(drop) => Ok(drop.clone()),
            None => Err(DropError::NoDropInformation),
        }
    }

    /// Deletes the drop with all its keys, for the account that funded it.
    pub fn delete_drop_by_id(&mut self, ctx: &Context, drop_id: DropId) -> (r: Result<
        (),
        DropError,
    >)
        requires
            old(self).wf(),
        ensures
            final(self).wf(),
            match r {
                Ok(_) => old(self)@.delete(ctx@, drop_id) == Ok::<State, DropError>(final(self)@),
                Err(e) => old(self)@.delete(ctx@, drop_id) == Err::<State, DropError>(e)
                    && *final(self) == *old(self),
            },
    {
        let is_funder = match self.drop_by_id.get(&drop_id) {
            Some(Drop::NEAR(near_drop)) => near_drop.funder == ctx.predecessor_account_id,
            Some(Drop::FT(ft_drop)) => ft_drop.funder == ctx.predecessor_account_id,
            Some(Drop::NFT(nft_drop)) => nft_drop.funder == ctx.predecessor_account_id,
            None => {
                return Err(DropError::NoDropInformation);
            },
        };
        if !is_funder {
            return Err(DropError::NotFunder);
        }
        self.drop_by_id.remove(&drop_id);
        self.drop_id_by_key.remove_drop(drop_id);
        proof {
            assert(self@.drops =~= old(self)@.drops.remove(drop_id));
            lemma_delete_wf(old(self)@, ctx@, drop_id);
        }
        Ok(())
    }

    /// The drop that the key claims from.
    pub fn get_drop_id_by_key(&self, public_key: &PublicKey) -> (r: Result<DropId, DropError>)
        requires
            self.wf(),
        ensures
            match r {
                Ok(drop_id) => self@.keys.contains_key(public_key@) && drop_id
                    == self@.keys[public_key@],
                Err(e) => !self@.keys.contains_key(public_key@) && e == DropError::NoDropForKey,
            },
    {
        match self.drop_id_by_key.get(public_key) {
            Some(drop_id) => Ok(drop_id),
            None => Err(DropError::NoDropForKey),
        }
    }

    /// Binds the key to the drop, and gives the promise that lets the key
    /// call the claim methods.
    fn save_drop_id_by_key(&mut self, ctx: &Context, public_key: &PublicKey, drop_id: DropId) -> (r:
        Promise)
        requires
            old(self).drop_id_by_key.wf(),
        ensures
            final(self).drop_id_by_key.wf(),
            final(self)@ == (State {
                keys: old(self)@.keys.insert(public_key@, drop_id),
                ..old(self)@
            }),
            r@ == single(
                ctx@.current_account_id,
                ActionView::AddAccessKey {
                    public_key: public_key@,
                    allowance: ACCESS_KEY_ALLOWANCE,
                },
            ),
    {
        self.drop_id_by_key.insert(copy_key(public_key), drop_id);
        Promise::new(
            ctx.current_account_id.clone(),
            Action::AddAccessKey {
                public_key: copy_key(public_key),
                allowance: ACCESS_KEY_ALLOWANCE,
            },
        )
    }

    /// Binds each of the keys to the drop.
    fn save_drop_id_by_keys(
        &mut self,
        ctx: &Context,
        public_keys: &Vec<PublicKey>,
        drop_id: DropId,
    ) -> (r: Vec<Promise>)
        requires
            old(self).drop_id_by_key.wf(),
        ensures
            final(self).drop_id_by_key.wf(),
            final(self)@ == (State {
                keys: bind_all(old(self)@.keys, key_views(public_keys@), drop_id),
                ..old(self)@
            }),
            promise_views(r@) == access_keys(ctx@.current_account_id, key_views(public_keys@)),
    {
        let ghost keys = key_views(public_keys@);
        let mut promises: Vec<Promise> = Vec::new();
        let mut i: usize = 0;
        assert(self@.keys =~= bind_all(old(self)@.keys, keys.take(0), drop_id));
        while i < public_keys.len()
            invariant
                i <= public_keys.len(),
                keys == key_views(public_keys@),
                self.drop_id_by_key.wf(),
                self@ == (State {
                    keys: bind_all(old(self)@.keys, keys.take(i as int), drop_id),
                    ..old(self)@
                }),
                promises.len() == i,
                forall|a: int|
                    0 <= a < i ==> (#[trigger] promises[a])@ == access_keys(
                        ctx@.current_account_id,
                        keys,
                    )[a],
            decreases public_keys.len() - i,
        {
            let promise = self.save_drop_id_by_key(ctx, &public_keys[i], drop_id);
            promises.push(promise);
            proof {
                lemma_bind_one_more(old(self)@.keys, keys, i as int, drop_id);
            }
            i += 1;
        }
        assert(keys.take(public_keys.len() as int) =~= keys);
        assert(promise_views(promises@) =~= access_keys(ctx@.current_account_id, keys));
        promises
    }

    /// Holds the drop under the next identifier, and gives that identifier.
    fn save_drop(&mut self, drop: Drop) -> (drop_id: DropId)
        requires
            old(self).next_drop_id < u32::MAX,
        ensures
            drop_id == old(self).next_drop_id,
            final(self).drop_id_by_key == old(self).drop_id_by_key,
            final(self)@ == (State {
                next_drop_id: (drop_id + 1) as DropId,
                drops: old(self)@.drops.insert(drop_id, drop@),
                ..old(self)@
            }),
    {
        let drop_id = self.next_drop_id;
        self.drop_by_id.insert(drop_id, drop);
        self.next_drop_id += 1;
        assert(self@.drops =~= old(self)@.drops.insert(drop_id, drop@));
        drop_id
    }
}

} // verus!
