use std::collections::HashMap;

use vstd::prelude::*;

use crate::bindings::{
    bound_keys, distinct_keys, key_map, lemma_key_map_dom, lemma_key_map_finite,
    lemma_key_map_value, KeyBinding, KeyRegistry,
};
use crate::constants::{AccountId, DropId};
use crate::drop_types::{Drop, DropView};
use crate::state::State;
use crate::Contract;

verus! {

broadcast use vstd::std_specs::hash::group_hash_axioms;

/// No two entries have the same identifier.
pub open spec fn distinct_ids(drops: Seq<(DropId, Drop)>) -> bool {
    forall|i: int, j: int|
        #![trigger drops[i], drops[j]]
        0 <= i < j < drops.len() ==> drops[i].0 != drops[j].0
}

/// The map that the entries make: each identifier with its drop, and where
/// an identifier stands twice, with the drop of its last entry.
pub open spec fn drop_map(drops: Seq<(DropId, Drop)>) -> Map<DropId, DropView>
    decreases drops.len(),
{
    if drops.len() == 0 {
        Map::empty()
    } else {
        drop_map(drops.drop_last()).insert(drops.last().0, drops.last().1@)
    }
}

/// The state that the stored parts of a contract make.
pub open spec fn restored(
    top_level_account: Seq<char>,
    next_drop_id: DropId,
    drops: Seq<(DropId, Drop)>,
    bindings: Seq<KeyBinding>,
) -> State {
    State { top_level_account, next_drop_id, drops: drop_map(drops), keys: key_map(bindings) }
}

/// Whether the stored parts make a contract: no drop and no key stands
/// twice in them, and the state that they make is well formed.
pub open spec fn restorable(
    top_level_account: Seq<char>,
    next_drop_id: DropId,
    drops: Seq<(DropId, Drop)>,
    bindings: Seq<KeyBinding>,
) -> bool {
    &&& distinct_ids(drops)
    &&& distinct_keys(bindings)
    &&& restored(top_level_account, next_drop_id, drops, bindings).wf()
}

/// The entries make a map of finitely many drops.
proof fn lemma_drop_map_finite(drops: Seq<(DropId, Drop)>)
    ensures
        drop_map(drops).dom().finite(),
    decreases drops.len(),
{
    if drops.len() > 0 {
        lemma_drop_map_finite(drops.drop_last());
    }
}

/// The map holds the identifiers of the entries and nothing else.
proof fn lemma_drop_map_dom(drops: Seq<(DropId, Drop)>, id: DropId)
    ensures
        drop_map(drops).contains_key(id) <==> exists|i: int|
            0 <= i < drops.len() && (#[trigger] drops[i]).0 == id,
    decreases drops.len(),
{
    if drops.len() > 0 {
        lemma_drop_map_dom(drops.drop_last(), id);
        if drop_map(drops).contains_key(id) {
            if drops.last().0 == id {
                assert(drops[drops.len() - 1].0 == id);
            } else {
                let i = choose|i: int|
                    0 <= i < drops.drop_last().len() && (#[trigger] drops.drop_last()[i]).0 == id;
                assert(drops[i].0 == id);
            }
        }
        if exists|i: int| 0 <= i < drops.len() && (#[trigger] drops[i]).0 == id {
            let i = choose|i: int| 0 <= i < drops.len() && (#[trigger] drops[i]).0 == id;
            if i < drops.len() - 1 {
                assert(drops.drop_last()[i].0 == id);
            }
        }
    }
}

/// Where no identifier stands twice, the map gives each entry's identifier
/// its drop.
proof fn lemma_drop_map_value(drops: Seq<(DropId, Drop)>, i: int)
    requires
        distinct_ids(drops),
        0 <= i < drops.len(),
    ensures
        drop_map(drops).contains_key(drops[i].0),
        drop_map(drops)[drops[i].0] == drops[i].1@,
    decreases drops.len(),
{
    if i < drops.len() - 1 {
        assert(distinct_ids(drops.drop_last())) by {
            assert forall|a: int, b: int|
                #![trigger drops.drop_last()[a], drops.drop_last()[b]]
                0 <= a < b < drops.drop_last().len() implies drops.drop_last()[a].0
                != drops.drop_last()[b].0 by {
                assert(drops[a].0 != drops[b].0);
            }
        }
        lemma_drop_map_value(drops.drop_last(), i);
        assert(drops.drop_last()[i] == drops[i]);
        assert(drops[i].0 != drops[drops.len() - 1].0);
    }
}

/// Whether the drop has a claim left and hands out something.
fn is_sound(drop: &Drop) -> (r: bool)
    ensures
        r == drop@.sound(),
{
    match drop {
        Drop::NEAR(near_drop) => near_drop.amount >= 1 && near_drop.counter >= 1,
        Drop::FT(ft_drop) => ft_drop.amount >= 1 && ft_drop.counter >= 1,
        Drop::NFT(_) => true,
    }
}

/// How many more times the drop can be claimed.
fn remaining_claims(drop: &Drop) -> (r: u32)
    ensures
        r == drop@.remaining_claims(),
{
    match drop {
        Drop::NEAR(near_drop) => near_drop.counter,
        Drop::FT(ft_drop) => ft_drop.counter,
        Drop::NFT(_) => 1,
    }
}

impl Contract {
    /// The contract that the stored parts make, where they make one.
    pub fn restore(
        top_level_account: AccountId,
        next_drop_id: DropId,
        drops: Vec<(DropId, Drop)>,
        bindings: Vec<KeyBinding>,
    ) -> (r: Option<Contract>)
        ensures
            match r {
                Some(contract) => restorable(top_level_account@, next_drop_id, drops@, bindings@)
                    && contract.wf() && contract@ == restored(
                    top_level_account@,
                    next_drop_id,
                    drops@,
                    bindings@,
                ),
                None => !restorable(top_level_account@, next_drop_id, drops@, bindings@),
            },
    {
        let ghost state = restored(top_level_account@, next_drop_id, drops@, bindings@);
        let mut drop_by_id: HashMap<DropId, Drop> = HashMap::new();
        let mut i: usize = 0;
        assert(drop_by_id@.map_values(|drop: Drop| drop@) =~= drop_map(drops@.take(0)));
        while i < drops.len()
            invariant
                i <= drops.len(),
                distinct_ids(drops@.take(i as int)),
                drop_by_id@.map_values(|drop: Drop| drop@) == drop_map(drops@.take(i as int)),
            decreases drops.len() - i,
        {
            let ghost fewer = drops@.take(i as int);
            let ghost more = drops@.take(i + 1);
            proof {
                assert(more.drop_last() =~= fewer);
                lemma_drop_map_dom(fewer, drops[i as int].0);
            }
            if drop_by_id.contains_key(&drops[i].0) {
                proof {
                    let j = choose|j: int|
                        0 <= j < fewer.len() && (#[trigger] fewer[j]).0 == drops[i as int].0;
                    assert(drops@[j].0 == drops@[i as int].0);
                }
                return None;
            }
            drop_by_id.insert(drops[i].0, drops[i].1.clone());
            proof {
                assert(drop_by_id@.map_values(|drop: Drop| drop@) =~= drop_map(more));
                assert forall|a: int, b: int|
                    #![trigger more[a], more[b]]
                    0 <= a < b < more.len() implies more[a].0 != more[b].0 by {
                    if b < i {
                        assert(fewer[a].0 != fewer[b].0);
                    } else {
                        assert(fewer[a].0 != drops[i as int].0);
                    }
                }
            }
            i += 1;
        }
        assert(drops@.take(drops.len() as int) =~= drops@);
        let mut i: usize = 0;
        while i < bindings.len()
            invariant
                i <= bindings.len(),
                drop_by_id@.map_values(|drop: Drop| drop@) == drop_map(drops@),
                forall|a: int|
                    0 <= a < i ==> drop_map(drops@).contains_key((#[trigger] bindings[a]).drop_id),
            decreases bindings.len() - i,
        {
            if !drop_by_id.contains_key(&bindings[i].drop_id) {
                proof {
                    if distinct_keys(bindings@) {
                        lemma_key_map_value(bindings@, i as int);
                    }
                }
                return None;
            }
            i += 1;
        }
        let ghost bound = bindings@;
        let drop_id_by_key = match KeyRegistry::from_bindings(bindings) {
            Some(registry) => registry,
            None => {
                return None;
            },
        };
        let mut i: usize = 0;
        while i < drops.len()
            invariant
                i <= drops.len(),
                distinct_ids(drops@),
                drop_id_by_key.wf(),
                drop_id_by_key@ == key_map(bound),
                bound == bindings@,
                forall|a: int|
                    0 <= a < i ==> {
                        &&& (#[trigger] drops[a]).0 < next_drop_id
                        &&& drops[a].1@.sound()
                        &&& bound_keys(key_map(bound), drops[a].0).len()
                            == drops[a].1@.remaining_claims()
                    },
            decreases drops.len() - i,
        {
            let held = drop_id_by_key.count(drops[i].0);
            if !(drops[i].0 < next_drop_id && is_sound(&drops[i].1) && held == remaining_claims(
                &drops[i].1,
            ) as usize) {
                proof {
                    lemma_drop_map_value(drops@, i as int);
                }
                return None;
            }
            i += 1;
        }
        let contract = Contract { top_level_account, next_drop_id, drop_by_id, drop_id_by_key };
        proof {
            assert(contract@ == state);
            lemma_drop_map_finite(drops@);
            lemma_key_map_finite(bound);
            assert forall|id: DropId| #[trigger] state.drops.contains_key(id) implies {
                &&& id < state.next_drop_id
                &&& state.drops[id].sound()
                &&& bound_keys(state.keys, id).len() == state.drops[id].remaining_claims()
            } by {
                lemma_drop_map_dom(drops@, id);
                let a = choose|a: int| 0 <= a < drops.len() && (#[trigger] drops[a]).0 == id;
                lemma_drop_map_value(drops@, a);
            }
            assert forall|k: Seq<u8>| #[trigger]
                state.keys.contains_key(k) implies state.drops.contains_key(state.keys[k]) by {
                lemma_key_map_dom(bound, k);
                let a = choose|a: int|
                    0 <= a < bound.len() && (#[trigger] bound[a]).public_key@ == k;
                lemma_key_map_value(bound, a);
            }
        }
        Some(contract)
    }
}

} // verus!
