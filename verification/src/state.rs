use vstd::prelude::*;

use crate::balance::capped;
use crate::bindings::{
    bind_all, bound_keys, lemma_bound_all, lemma_bound_finite, lemma_bound_remove,
    lemma_bound_without, without_drop,
};
use crate::constants::{
    Balance, DropId, ACCESS_KEY_ALLOWANCE, CREATE_ACCOUNT_FEE, CREATE_CALLBACK_GAS,
    GAS_FOR_CREATE_ACCOUNT,
};
use crate::context::ContextView;
use crate::drop_types::DropView;
use crate::error::DropError;
use crate::ft_drop::FTDropView;
use crate::nft_drop::NFTDropView;
use crate::parse::parsed_drop_id;
use crate::promise::{single, ActionView, CallView, ChainView, PromiseView};

verus! {

/// The mathematical value of the contract: the drops by their identifier,
/// the claim keys with the drop of each, and the identifier that the next
/// drop gets.
pub struct State {
    pub top_level_account: Seq<char>,
    pub next_drop_id: DropId,
    pub drops: Map<DropId, DropView>,
    pub keys: Map<Seq<u8>, DropId>,
}

/// What a call that creates a drop gives: the new state, the identifier of
/// the drop and the promises that the call makes.
pub type Created = Result<(State, DropId, Seq<PromiseView>), DropError>;

/// What a claim gives: the new state, and the transfer with its callback.
pub type Claimed = Result<(State, ChainView), DropError>;

impl DropView {
    /// A drop that is held has a claim left, and where it hands out an
    /// amount, the amount is not zero.
    pub open spec fn sound(self) -> bool {
        match self {
            DropView::NEAR(near_drop) => near_drop.amount >= 1 && near_drop.counter >= 1,
            DropView::FT(ft_drop) => ft_drop.amount >= 1 && ft_drop.counter >= 1,
            DropView::NFT(_) => true,
        }
    }
}

/// The promises that give each of the keys access to the claim methods of
/// the contract.
pub open spec fn access_keys(current_account_id: Seq<char>, public_keys: Seq<Seq<u8>>) -> Seq<
    PromiseView,
> {
    Seq::new(
        public_keys.len(),
        |i: int|
            single(
                current_account_id,
                ActionView::AddAccessKey {
                    public_key: public_keys[i],
                    allowance: ACCESS_KEY_ALLOWANCE,
                },
            ),
    )
}

/// The promises of a call that creates a drop: the refund, where there is
/// one, and then the access keys.
pub open spec fn creation_promises(
    ctx: ContextView,
    refund: Option<PromiseView>,
    public_keys: Seq<Seq<u8>>,
) -> Seq<PromiseView> {
    let granted = access_keys(ctx.current_account_id, public_keys);
    match refund {
        Some(transfer) => seq![transfer] + granted,
        None => granted,
    }
}

impl State {
    /// What holds of the contract between any two calls: every drop has an
    /// identifier that was handed out, is sound, and has as many keys as
    /// claims left; every key belongs to a drop.
    pub open spec fn wf(self) -> bool {
        &&& self.drops.dom().finite()
        &&& self.keys.dom().finite()
        &&& forall|id: DropId| #[trigger]
            self.drops.contains_key(id) ==> {
                &&& id < self.next_drop_id
                &&& self.drops[id].sound()
                &&& bound_keys(self.keys, id).len() == self.drops[id].remaining_claims()
            }
        &&& forall|k: Seq<u8>| #[trigger]
            self.keys.contains_key(k) ==> self.drops.contains_key(self.keys[k])
    }

    /// The state of a contract that holds nothing yet.
    pub open spec fn init(top_level_account: Seq<char>) -> State {
        State { top_level_account, next_drop_id: 0, drops: Map::empty(), keys: Map::empty() }
    }

    /// Whether each of the keys is new to the contract and given once.
    pub open spec fn unused(self, public_keys: Seq<Seq<u8>>) -> bool {
        &&& public_keys.no_duplicates()
        &&& forall|i: int|
            0 <= i < public_keys.len() ==> !self.keys.contains_key(#[trigger] public_keys[i])
    }

    /// The state with one more drop, bound to the keys.
    pub open spec fn with_drop(self, drop: DropView, public_keys: Seq<Seq<u8>>) -> State {
        State {
            next_drop_id: (self.next_drop_id + 1) as DropId,
            drops: self.drops.insert(self.next_drop_id, drop),
            keys: bind_all(self.keys, public_keys, self.next_drop_id),
            ..self
        }
    }

    /// What holding a new drop gives, where `made` is what the kind of the
    /// drop makes of the attached deposit: where a drop was made and an
    /// identifier is left, the state with the drop under that identifier,
    /// the identifier, and the promises of the call.
    pub open spec fn create(
        self,
        ctx: ContextView,
        public_keys: Seq<Seq<u8>>,
        made: Result<(DropView, Option<PromiseView>), DropError>,
    ) -> Created {
        match made {
            Err(e) => Err(e),
            Ok((drop, refund)) => if self.next_drop_id == u32::MAX {
                Err(DropError::DropIdsExhausted)
            } else {
                Ok(
                    (
                        self.with_drop(drop, public_keys),
                        self.next_drop_id,
                        creation_promises(ctx, refund, public_keys),
                    ),
                )
            },
        }
    }

    /// Why the keys cannot get a drop, if they cannot: one of them is bound
    /// already or given twice, there is none, or there are more than a drop
    /// can count.
    pub open spec fn keys_refused(self, public_keys: Seq<Seq<u8>>) -> Option<DropError> {
        if !self.unused(public_keys) {
            Some(DropError::KeyAlreadyUsed)
        } else if public_keys.len() == 0 {
            Some(DropError::NoKeys)
        } else if public_keys.len() > u32::MAX {
            Some(DropError::TooManyKeys)
        } else {
            None
        }
    }

    /// What `create_near_drop` gives.
    pub open spec fn create_near_drop(
        self,
        ctx: ContextView,
        public_keys: Seq<Seq<u8>>,
        amount_per_drop: Balance,
    ) -> Created {
        match self.keys_refused(public_keys) {
            Some(e) => Err(e),
            None => self.create(
                ctx,
                public_keys,
                crate::near_drop::creation(ctx, amount_per_drop, public_keys.len() as u32),
            ),
        }
    }

    /// What `create_ft_drop` gives.
    pub open spec fn create_ft_drop(
        self,
        ctx: ContextView,
        public_keys: Seq<Seq<u8>>,
        ft_contract: Seq<char>,
        amount_per_drop: Balance,
    ) -> Created {
        match self.keys_refused(public_keys) {
            Some(e) => Err(e),
            None => self.create(
                ctx,
                public_keys,
                crate::ft_drop::creation(
                    ctx,
                    ft_contract,
                    amount_per_drop,
                    public_keys.len() as u32,
                ),
            ),
        }
    }

    /// What `create_nft_drop` gives.
    pub open spec fn create_nft_drop(
        self,
        ctx: ContextView,
        public_key: Seq<u8>,
        nft_contract: Seq<char>,
    ) -> Created {
        if self.keys.contains_key(public_key) {
            Err(DropError::KeyAlreadyUsed)
        } else {
            self.create(ctx, seq![public_key], crate::nft_drop::creation(ctx, nft_contract))
        }
    }

    /// What a claim with the key that signed the call gives. The key must be
    /// bound to a drop that can hand out a claim. The key is then gone, and
    /// the drop has one claim less, or is gone with its last claim. The
    /// transfer and the callback are those of the drop as it was.
    pub open spec fn claim(
        self,
        ctx: ContextView,
        account_id: Seq<char>,
        account_created: bool,
    ) -> Claimed {
        let key = ctx.signer_account_pk;
        if !self.keys.contains_key(key) {
            Err(DropError::NoDropForKey)
        } else if !self.drops.contains_key(self.keys[key]) {
            Err(DropError::NoDropInformation)
        } else {
            let drop_id = self.keys[key];
            let drop = self.drops[drop_id];
            match drop.claiming(account_id) {
                Err(e) => Err(e),
                Ok(transfer) => {
                    let drop_deleted = drop.remaining_claims() <= 1;
                    Ok(
                        (
                            State {
                                keys: self.keys.remove(key),
                                drops: if drop_deleted {
                                    self.drops.remove(drop_id)
                                } else {
                                    self.drops.insert(
                                        drop_id,
                                        drop.with_counter((drop.remaining_claims() - 1) as u32),
                                    )
                                },
                                ..self
                            },
                            ChainView {
                                first: transfer,
                                callback: drop.resolving(
                                    ctx.current_account_id,
                                    account_created,
                                    drop_deleted,
                                ),
                            },
                        ),
                    )
                },
            }
        }
    }

    /// What `create_account_and_claim` gives: for a key that is bound, the
    /// call that creates the account, and the callback that goes on with
    /// the claim.
    pub open spec fn create_account(self, ctx: ContextView, account_id: Seq<char>) -> Result<
        ChainView,
        DropError,
    > {
        if !self.keys.contains_key(ctx.signer_account_pk) {
            Err(DropError::NoDropForKey)
        } else {
            Ok(
                ChainView {
                    first: single(
                        self.top_level_account,
                        ActionView::FunctionCall {
                            call: CallView::CreateAccount {
                                new_account_id: account_id,
                                new_public_key: ctx.signer_account_pk,
                            },
                            deposit: CREATE_ACCOUNT_FEE,
                            gas: GAS_FOR_CREATE_ACCOUNT,
                            gas_weight: 0,
                        },
                    ),
                    callback: single(
                        ctx.current_account_id,
                        ActionView::FunctionCall {
                            call: CallView::ResolveAccountCreate { account_id },
                            deposit: 0,
                            gas: CREATE_CALLBACK_GAS,
                            gas_weight: 1,
                        },
                    ),
                },
            )
        }
    }

    /// What `resolve_account_create` gives: the claim into the new account,
    /// where the account was created, and nothing else.
    pub open spec fn account_created(
        self,
        ctx: ContextView,
        account_id: Seq<char>,
        created: bool,
    ) -> Claimed {
        if created {
            self.claim(ctx, account_id, true)
        } else {
            Err(DropError::AccountCreationFailed)
        }
    }

    /// What `ft_on_transfer` gives: the drop that the message names, paid
    /// for by the token contract that it names with the tokens for all its
    /// claims, is funded.
    pub open spec fn fund_ft(self, ctx: ContextView, amount: Balance, msg: Seq<char>) -> Result<
        State,
        DropError,
    > {
        match parsed_drop_id(msg) {
            None => Err(DropError::InvalidMessage),
            Some(drop_id) => if !self.drops.contains_key(drop_id) {
                Err(DropError::NoDropInformation)
            } else {
                match self.drops[drop_id] {
                    DropView::NFT(_) => Err(DropError::NotFtDrop),
                    DropView::NEAR(near_drop) => {
                        let expected = capped(near_drop.amount * near_drop.counter) as Balance;
                        if amount != expected {
                            Err(DropError::WrongAmount { expected })
                        } else {
                            Err(DropError::NotFtDrop)
                        }
                    },
                    DropView::FT(ft_drop) => {
                        let expected = capped(ft_drop.amount * ft_drop.counter) as Balance;
                        if amount != expected {
                            Err(DropError::WrongAmount { expected })
                        } else if ft_drop.ft_contract != ctx.predecessor_account_id {
                            Err(DropError::WrongContract)
                        } else {
                            Ok(
                                State {
                                    drops: self.drops.insert(
                                        drop_id,
                                        DropView::FT(FTDropView { funded: true, ..ft_drop }),
                                    ),
                                    ..self
                                },
                            )
                        }
                    },
                }
            },
        }
    }

    /// What `nft_on_approve` gives: the drop that the message names, approved
    /// by the token contract that it names, hands out the token.
    pub open spec fn approve_nft(
        self,
        ctx: ContextView,
        token_id: Seq<char>,
        msg: Seq<char>,
    ) -> Result<State, DropError> {
        match parsed_drop_id(msg) {
            None => Err(DropError::InvalidMessage),
            Some(drop_id) => if !self.drops.contains_key(drop_id) {
                Err(DropError::NoDropInformation)
            } else {
                match self.drops[drop_id] {
                    DropView::NFT(nft_drop) => if nft_drop.nft_contract
                        != ctx.predecessor_account_id {
                        Err(DropError::WrongContract)
                    } else {
                        Ok(
                            State {
                                drops: self.drops.insert(
                                    drop_id,
                                    DropView::NFT(NFTDropView { token_id, ..nft_drop }),
                                ),
                                ..self
                            },
                        )
                    },
                    _ => Err(DropError::NotNftDrop),
                }
            },
        }
    }

    /// What `delete_drop_by_id` gives: for the account that funded the drop,
    /// the state without the drop and without its keys.
    pub open spec fn delete(self, ctx: ContextView, drop_id: DropId) -> Result<State, DropError> {
        if !self.drops.contains_key(drop_id) {
            Err(DropError::NoDropInformation)
        } else if self.drops[drop_id].funder() != ctx.predecessor_account_id {
            Err(DropError::NotFunder)
        } else {
            Ok(
                State {
                    drops: self.drops.remove(drop_id),
                    keys: without_drop(self.keys, drop_id),
                    ..self
                },
            )
        }
    }
}

/// A claim keeps the contract well formed.
pub proof fn lemma_claim_wf(
    s: State,
    ctx: ContextView,
    account_id: Seq<char>,
    account_created: bool,
)
    requires
        s.wf(),
        s.claim(ctx, account_id, account_created) is Ok,
    ensures
        s.claim(ctx, account_id, account_created)->Ok_0.0.wf(),
{
    broadcast use vstd::set::group_set_axioms;

    let after = s.claim(ctx, account_id, account_created)->Ok_0.0;
    let key = ctx.signer_account_pk;
    let drop_id = s.keys[key];
    let drop = s.drops[drop_id];
    assert(s.drops.contains_key(drop_id));
    lemma_bound_finite(s.keys, drop_id);
    lemma_bound_remove(s.keys, key, drop_id);
    assert forall|id: DropId| #[trigger] after.drops.contains_key(id) implies {
        &&& id < after.next_drop_id
        &&& after.drops[id].sound()
        &&& bound_keys(after.keys, id).len() == after.drops[id].remaining_claims()
    } by {
        assert(s.drops.contains_key(id));
        lemma_bound_remove(s.keys, key, id);
    }
    assert forall|k: Seq<u8>| #[trigger]
        after.keys.contains_key(k) implies after.drops.contains_key(after.keys[k]) by {
        assert(s.keys.contains_key(k));
        if s.keys[k] == drop_id && drop.remaining_claims() <= 1 {
            assert(bound_keys(after.keys, drop_id).contains(k));
            bound_keys(after.keys, drop_id).lemma_len0_is_empty();
        }
    }
}

/// A new drop keeps the contract well formed, where it is sound, its keys
/// are unused and it has as many claims as keys.
pub proof fn lemma_with_drop_wf(s: State, drop: DropView, public_keys: Seq<Seq<u8>>)
    requires
        s.wf(),
        s.unused(public_keys),
        s.next_drop_id < u32::MAX,
        drop.sound(),
        drop.remaining_claims() == public_keys.len(),
    ensures
        s.with_drop(drop, public_keys).wf(),
{
    broadcast use vstd::set::group_set_axioms;

    let after = s.with_drop(drop, public_keys);
    assert forall|k: Seq<u8>| #[trigger] s.keys.contains_key(k) implies s.keys[k]
        != s.next_drop_id by {
        assert(s.drops.contains_key(s.keys[k]));
    }
    lemma_bound_all(s.keys, public_keys, s.next_drop_id, s.next_drop_id);
    assert forall|id: DropId| #[trigger] after.drops.contains_key(id) implies {
        &&& id < after.next_drop_id
        &&& after.drops[id].sound()
        &&& bound_keys(after.keys, id).len() == after.drops[id].remaining_claims()
    } by {
        lemma_bound_all(s.keys, public_keys, s.next_drop_id, id);
        if id != s.next_drop_id {
            assert(s.drops.contains_key(id));
        }
    }
    assert forall|k: Seq<u8>| #[trigger]
        after.keys.contains_key(k) implies after.drops.contains_key(after.keys[k]) by {
        if !public_keys.contains(k) {
            assert(s.keys.contains_key(k));
        }
    }
}

/// Creating a drop of native tokens keeps the contract well formed.
pub proof fn lemma_create_near_drop_wf(
    s: State,
    ctx: ContextView,
    public_keys: Seq<Seq<u8>>,
    amount_per_drop: Balance,
)
    requires
        s.wf(),
        s.create_near_drop(ctx, public_keys, amount_per_drop) is Ok,
    ensures
        s.create_near_drop(ctx, public_keys, amount_per_drop)->Ok_0.0.wf(),
{
    let made = crate::near_drop::creation(ctx, amount_per_drop, public_keys.len() as u32);
    lemma_with_drop_wf(s, made->Ok_0.0, public_keys);
}

/// Creating a drop of fungible tokens keeps the contract well formed.
pub proof fn lemma_create_ft_drop_wf(
    s: State,
    ctx: ContextView,
    public_keys: Seq<Seq<u8>>,
    ft_contract: Seq<char>,
    amount_per_drop: Balance,
)
    requires
        s.wf(),
        s.create_ft_drop(ctx, public_keys, ft_contract, amount_per_drop) is Ok,
    ensures
        s.create_ft_drop(ctx, public_keys, ft_contract, amount_per_drop)->Ok_0.0.wf(),
{
    let made = crate::ft_drop::creation(
        ctx,
        ft_contract,
        amount_per_drop,
        public_keys.len() as u32,
    );
    lemma_with_drop_wf(s, made->Ok_0.0, public_keys);
}

/// Creating a drop of a non-fungible token keeps the contract well formed.
pub proof fn lemma_create_nft_drop_wf(
    s: State,
    ctx: ContextView,
    public_key: Seq<u8>,
    nft_contract: Seq<char>,
)
    requires
        s.wf(),
        s.create_nft_drop(ctx, public_key, nft_contract) is Ok,
    ensures
        s.create_nft_drop(ctx, public_key, nft_contract)->Ok_0.0.wf(),
{
    let made = crate::nft_drop::creation(ctx, nft_contract);
    lemma_with_drop_wf(s, made->Ok_0.0, seq![public_key]);
}

/// Funding a drop of fungible tokens keeps the contract well formed.
pub proof fn lemma_fund_ft_wf(s: State, ctx: ContextView, amount: Balance, msg: Seq<char>)
    requires
        s.wf(),
        s.fund_ft(ctx, amount, msg) is Ok,
    ensures
        s.fund_ft(ctx, amount, msg)->Ok_0.wf(),
{
    let after = s.fund_ft(ctx, amount, msg)->Ok_0;
    let drop_id = parsed_drop_id(msg)->0;
    assert(s.drops.contains_key(drop_id));
    assert(after.drops.dom() =~= s.drops.dom());
    assert forall|id: DropId| #[trigger] after.drops.contains_key(id) implies {
        &&& id < after.next_drop_id
        &&& after.drops[id].sound()
        &&& bound_keys(after.keys, id).len() == after.drops[id].remaining_claims()
    } by {
        assert(s.drops.contains_key(id));
    }
    assert forall|k: Seq<u8>| #[trigger]
        after.keys.contains_key(k) implies after.drops.contains_key(after.keys[k]) by {
        assert(s.keys.contains_key(k));
    }
}

/// Approving a drop of a non-fungible token keeps the contract well formed.
pub proof fn lemma_approve_nft_wf(s: State, ctx: ContextView, token_id: Seq<char>, msg: Seq<char>)
    requires
        s.wf(),
        s.approve_nft(ctx, token_id, msg) is Ok,
    ensures
        s.approve_nft(ctx, token_id, msg)->Ok_0.wf(),
{
    let after = s.approve_nft(ctx, token_id, msg)->Ok_0;
    let drop_id = parsed_drop_id(msg)->0;
    assert(s.drops.contains_key(drop_id));
    assert(after.drops.dom() =~= s.drops.dom());
    assert forall|id: DropId| #[trigger] after.drops.contains_key(id) implies {
        &&& id < after.next_drop_id
        &&& after.drops[id].sound()
        &&& bound_keys(after.keys, id).len() == after.drops[id].remaining_claims()
    } by {
        assert(s.drops.contains_key(id));
    }
    assert forall|k: Seq<u8>| #[trigger]
        after.keys.contains_key(k) implies after.drops.contains_key(after.keys[k]) by {
        assert(s.keys.contains_key(k));
    }
}

/// Deleting a drop keeps the contract well formed.
pub proof fn lemma_delete_wf(s: State, ctx: ContextView, drop_id: DropId)
    requires
        s.wf(),
        s.delete(ctx, drop_id) is Ok,
    ensures
        s.delete(ctx, drop_id)->Ok_0.wf(),
{
    broadcast use vstd::set::group_set_axioms;

    let after = s.delete(ctx, drop_id)->Ok_0;
    lemma_bound_without(s.keys, drop_id, drop_id);
    assert forall|id: DropId| #[trigger] after.drops.contains_key(id) implies {
        &&& id < after.next_drop_id
        &&& after.drops[id].sound()
        &&& bound_keys(after.keys, id).len() == after.drops[id].remaining_claims()
    } by {
        assert(s.drops.contains_key(id));
        lemma_bound_without(s.keys, drop_id, id);
    }
    assert forall|k: Seq<u8>| #[trigger]
        after.keys.contains_key(k) implies after.drops.contains_key(after.keys[k]) by {
        assert(s.keys.contains_key(k));
    }
}

} // verus!
