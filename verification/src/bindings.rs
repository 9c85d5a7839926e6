use vstd::prelude::*;
use vstd::set_lib::lemma_len_subset;

use crate::constants::{DropId, PublicKey};

verus! {

/// One claim key and the drop that it claims from.
#[derive(Debug, PartialEq, Eq)]
pub struct KeyBinding {
    pub public_key: PublicKey,
    pub drop_id: DropId,
}

/// The claim keys that can still be used, each with its drop. No key is
/// held twice.
#[derive(Debug)]
pub struct KeyRegistry {
    bindings: Vec<KeyBinding>,
}

/// No two entries have the same key.
pub open spec fn distinct_keys(s: Seq<KeyBinding>) -> bool {
    forall|i: int, j: int|
        #![trigger s[i], s[j]]
        0 <= i < j < s.len() ==> s[i].public_key@ != s[j].public_key@
}

/// The map that the entries make: each key with its drop, and where a key
/// is held twice, with the drop of its last entry.
pub open spec fn key_map(s: Seq<KeyBinding>) -> Map<Seq<u8>, DropId>
    decreases s.len(),
{
    if s.len() == 0 {
        Map::empty()
    } else {
        key_map(s.drop_last()).insert(s.last().public_key@, s.last().drop_id)
    }
}

/// The keys that `keys` binds to the drop `drop_id`.
pub open spec fn bound_keys(keys: Map<Seq<u8>, DropId>, drop_id: DropId) -> Set<Seq<u8>> {
    Set::new(|k: Seq<u8>| keys.contains_key(k) && keys[k] == drop_id)
}

/// `keys` without the keys of the drop `drop_id`.
pub open spec fn without_drop(keys: Map<Seq<u8>, DropId>, drop_id: DropId) -> Map<
    Seq<u8>,
    DropId,
> {
    Map::new(|k: Seq<u8>| keys.contains_key(k) && keys[k] != drop_id, |k: Seq<u8>| keys[k])
}

/// `keys` and, bound to the drop `drop_id`, each of `public_keys`.
pub open spec fn bind_all(
    keys: Map<Seq<u8>, DropId>,
    public_keys: Seq<Seq<u8>>,
    drop_id: DropId,
) -> Map<Seq<u8>, DropId> {
    Map::new(
        |k: Seq<u8>| keys.contains_key(k) || public_keys.contains(k),
        |k: Seq<u8>|
            if public_keys.contains(k) {
                drop_id
            } else {
                keys[k]
            },
    )
}

/// A drop has finitely many keys where there are finitely many keys at all.
pub proof fn lemma_bound_finite(keys: Map<Seq<u8>, DropId>, drop_id: DropId)
    requires
        keys.dom().finite(),
    ensures
        bound_keys(keys, drop_id).finite(),
        bound_keys(keys, drop_id).len() <= keys.dom().len(),
{
    lemma_len_subset(bound_keys(keys, drop_id), keys.dom());
}

/// Letting go of a key takes one key from its drop and none from another.
pub proof fn lemma_bound_remove(keys: Map<Seq<u8>, DropId>, key: Seq<u8>, drop_id: DropId)
    requires
        keys.dom().finite(),
        keys.contains_key(key),
    ensures
        bound_keys(keys.remove(key), drop_id) == if keys[key] == drop_id {
            bound_keys(keys, drop_id).remove(key)
        } else {
            bound_keys(keys, drop_id)
        },
        bound_keys(keys.remove(key), drop_id).len() == if keys[key] == drop_id {
            bound_keys(keys, drop_id).len() - 1
        } else {
            bound_keys(keys, drop_id).len() as int
        },
{
    broadcast use vstd::set::group_set_axioms;

    lemma_bound_finite(keys, drop_id);
    if keys[key] == drop_id {
        assert(bound_keys(keys.remove(key), drop_id) =~= bound_keys(keys, drop_id).remove(key));
        assert(bound_keys(keys, drop_id).contains(key));
    } else {
        assert(bound_keys(keys.remove(key), drop_id) =~= bound_keys(keys, drop_id));
    }
}

/// Binding keys that are new, each given once, to a drop that has none gives
/// that drop these keys and leaves each other drop its own.
pub proof fn lemma_bound_all(
    keys: Map<Seq<u8>, DropId>,
    public_keys: Seq<Seq<u8>>,
    new_id: DropId,
    drop_id: DropId,
)
    requires
        keys.dom().finite(),
        public_keys.no_duplicates(),
        forall|i: int| 0 <= i < public_keys.len() ==> !keys.contains_key(#[trigger] public_keys[i]),
        forall|k: Seq<u8>| #[trigger] keys.contains_key(k) ==> keys[k] != new_id,
    ensures
        bind_all(keys, public_keys, new_id).dom().finite(),
        bound_keys(bind_all(keys, public_keys, new_id), drop_id).len() == if drop_id
            == new_id {
            public_keys.len()
        } else {
            bound_keys(keys, drop_id).len()
        },
{
    broadcast use vstd::set::group_set_axioms;
    broadcast use vstd::seq_lib::seq_to_set_is_finite;

    let bound = bind_all(keys, public_keys, new_id);
    assert(bound.dom() =~= keys.dom().union(public_keys.to_set()));
    if drop_id == new_id {
        assert(bound_keys(bound, drop_id) =~= public_keys.to_set());
        public_keys.unique_seq_to_set();
    } else {
        assert(bound_keys(bound, drop_id) =~= bound_keys(keys, drop_id));
    }
}

/// Binding one key more binds it after the others.
pub proof fn lemma_bind_one_more(
    keys: Map<Seq<u8>, DropId>,
    public_keys: Seq<Seq<u8>>,
    i: int,
    drop_id: DropId,
)
    requires
        0 <= i < public_keys.len(),
    ensures
        bind_all(keys, public_keys.take(i + 1), drop_id) == bind_all(
            keys,
            public_keys.take(i),
            drop_id,
        ).insert(public_keys[i], drop_id),
{
    let fewer = public_keys.take(i);
    let more = public_keys.take(i + 1);
    assert forall|k: Seq<u8>| more.contains(k) <==> (fewer.contains(k) || k == public_keys[i]) by {
        if fewer.contains(k) {
            let a = choose|a: int| 0 <= a < fewer.len() && fewer[a] == k;
            assert(more[a] == k);
        }
        if k == public_keys[i] {
            assert(more[i] == k);
        }
        if more.contains(k) {
            let a = choose|a: int| 0 <= a < more.len() && more[a] == k;
            if a < i {
                assert(fewer[a] == k);
            }
        }
    }
    assert(bind_all(keys, more, drop_id) =~= bind_all(keys, fewer, drop_id).insert(
        public_keys[i],
        drop_id,
    ));
}

/// Without the keys of a drop, that drop has no key and each other drop has
/// its own.
pub proof fn lemma_bound_without(keys: Map<Seq<u8>, DropId>, gone: DropId, drop_id: DropId)
    requires
        keys.dom().finite(),
    ensures
        without_drop(keys, gone).dom().finite(),
        drop_id != gone ==> bound_keys(without_drop(keys, gone), drop_id) == bound_keys(
            keys,
            drop_id,
        ),
{
    lemma_len_subset(without_drop(keys, gone).dom(), keys.dom());
    if drop_id != gone {
        assert(bound_keys(without_drop(keys, gone), drop_id) =~= bound_keys(keys, drop_id));
    }
}

/// Binding a key that is new gives its drop one key more and no other drop
/// any.
pub proof fn lemma_bound_insert(
    keys: Map<Seq<u8>, DropId>,
    key: Seq<u8>,
    to: DropId,
    drop_id: DropId,
)
    requires
        keys.dom().finite(),
        !keys.contains_key(key),
    ensures
        bound_keys(keys.insert(key, to), drop_id).len() == bound_keys(keys, drop_id).len() + (if to
            == drop_id {
            1int
        } else {
            0int
        }),
{
    broadcast use vstd::set::group_set_axioms;

    lemma_bound_finite(keys, drop_id);
    if to == drop_id {
        assert(bound_keys(keys.insert(key, to), drop_id) =~= bound_keys(keys, drop_id).insert(key));
    } else {
        assert(bound_keys(keys.insert(key, to), drop_id) =~= bound_keys(keys, drop_id));
    }
}

/// Lists that bind the same keys to the same drops, entry by entry, make
/// the same map.
pub proof fn lemma_key_map_same(a: Seq<KeyBinding>, b: Seq<KeyBinding>)
    requires
        a.len() == b.len(),
        forall|i: int| 0 <= i < a.len() ==> same_binding(#[trigger] a[i], b[i]),
    ensures
        key_map(a) == key_map(b),
        distinct_keys(a) == distinct_keys(b),
    decreases a.len(),
{
    if a.len() > 0 {
        assert forall|i: int| 0 <= i < a.drop_last().len() implies same_binding(
            #[trigger] a.drop_last()[i],
            b.drop_last()[i],
        ) by {
            assert(same_binding(a[i], b[i]));
        }
        lemma_key_map_same(a.drop_last(), b.drop_last());
        assert(same_binding(a[a.len() - 1], b[a.len() - 1]));
    }
    if distinct_keys(a) {
        assert forall|i: int, j: int|
            #![trigger b[i], b[j]]
            0 <= i < j < b.len() implies b[i].public_key@ != b[j].public_key@ by {
            assert(same_binding(a[i], b[i]) && same_binding(a[j], b[j]));
            assert(a[i].public_key@ != a[j].public_key@);
        }
    }
    if distinct_keys(b) {
        assert forall|i: int, j: int|
            #![trigger a[i], a[j]]
            0 <= i < j < a.len() implies a[i].public_key@ != a[j].public_key@ by {
            assert(same_binding(a[i], b[i]) && same_binding(a[j], b[j]));
            assert(b[i].public_key@ != b[j].public_key@);
        }
    }
}

/// The entries make a map of finitely many keys.
pub proof fn lemma_key_map_finite(s: Seq<KeyBinding>)
    ensures
        key_map(s).dom().finite(),
    decreases s.len(),
{
    if s.len() > 0 {
        lemma_key_map_finite(s.drop_last());
    }
}

/// The map holds the keys of the entries and nothing else.
pub proof fn lemma_key_map_dom(s: Seq<KeyBinding>, k: Seq<u8>)
    ensures
        key_map(s).contains_key(k) <==> exists|i: int|
            0 <= i < s.len() && (#[trigger] s[i]).public_key@ == k,
    decreases s.len(),
{
    if s.len() > 0 {
        lemma_key_map_dom(s.drop_last(), k);
        if key_map(s).contains_key(k) {
            if s.last().public_key@ == k {
                assert(s[s.len() - 1].public_key@ == k);
            } else {
                let i = choose|i: int|
                    0 <= i < s.drop_last().len() && (#[trigger] s.drop_last()[i]).public_key@ == k;
                assert(s[i].public_key@ == k);
            }
        }
        if exists|i: int| 0 <= i < s.len() && (#[trigger] s[i]).public_key@ == k {
            let i = choose|i: int| 0 <= i < s.len() && (#[trigger] s[i]).public_key@ == k;
            if i < s.len() - 1 {
                assert(s.drop_last()[i].public_key@ == k);
            }
        }
    }
}

/// Where no key is held twice, the map gives each entry's key its drop.
pub proof fn lemma_key_map_value(s: Seq<KeyBinding>, i: int)
    requires
        distinct_keys(s),
        0 <= i < s.len(),
    ensures
        key_map(s).contains_key(s[i].public_key@),
        key_map(s)[s[i].public_key@] == s[i].drop_id,
    decreases s.len(),
{
    if i < s.len() - 1 {
        assert(distinct_keys(s.drop_last())) by {
            assert forall|a: int, b: int|
                #![trigger s.drop_last()[a], s.drop_last()[b]]
                0 <= a < b < s.drop_last().len() implies s.drop_last()[a].public_key@
                != s.drop_last()[b].public_key@ by {
                assert(s[a].public_key@ != s[b].public_key@);
            }
        }
        lemma_key_map_value(s.drop_last(), i);
        assert(s.drop_last()[i] == s[i]);
        assert(s[i].public_key@ != s[s.len() - 1].public_key@);
    }
}

/// Whether the two keys are the same.
pub fn same_key(a: &PublicKey, b: &PublicKey) -> (r: bool)
    ensures
        r == (a@ == b@),
{
    if a.len() != b.len() {
        return false;
    }
    let mut i: usize = 0;
    while i < a.len()
        invariant
            a.len() == b.len(),
            i <= a.len(),
            forall|j: int| 0 <= j < i ==> a[j] == b[j],
        decreases a.len() - i,
    {
        if a[i] != b[i] {
            return false;
        }
        i += 1;
    }
    assert(a@ =~= b@);
    true
}

/// A copy of the key.
pub fn copy_key(key: &PublicKey) -> (r: PublicKey)
    ensures
        r@ == key@,
{
    let mut r: Vec<u8> = Vec::new();
    let mut i: usize = 0;
    while i < key.len()
        invariant
            i <= key.len(),
            r@ == key@.take(i as int),
        decreases key.len() - i,
    {
        r.push(key[i]);
        assert(key@.take(i + 1) =~= key@.take(i as int).push(key[i as int]));
        i += 1;
    }
    assert(key@.take(key.len() as int) =~= key@);
    r
}

impl View for KeyRegistry {
    type V = Map<Seq<u8>, DropId>;

    closed spec fn view(&self) -> Map<Seq<u8>, DropId> {
        key_map(self.bindings@)
    }
}

impl KeyRegistry {
    /// No key is held twice.
    pub closed spec fn wf(&self) -> bool {
        distinct_keys(self.bindings@)
    }

    /// A registry that holds no key.
    pub fn new() -> (r: Self)
        ensures
            r.wf(),
            r@ == Map::<Seq<u8>, DropId>::empty(),
    {
        KeyRegistry { bindings: Vec::new() }
    }

    /// Where the key stands among the entries.
    fn position(&self, key: &PublicKey) -> (r: Option<usize>)
        requires
            self.wf(),
        ensures
            match r {
                Some(i) => i < self.bindings.len() && self.bindings[i as int].public_key@ == key@
                    && self@.contains_key(key@) && self@[key@] == self.bindings[i as int].drop_id,
                None => !self@.contains_key(key@),
            },
    {
        proof {
            lemma_key_map_dom(self.bindings@, key@);
        }
        let mut i: usize = 0;
        while i < self.bindings.len()
            invariant
                i <= self.bindings.len(),
                distinct_keys(self.bindings@),
                forall|j: int| 0 <= j < i ==> (#[trigger] self.bindings[j]).public_key@ != key@,
            decreases self.bindings.len() - i,
        {
            if same_key(&self.bindings[i].public_key, key) {
                proof {
                    lemma_key_map_value(self.bindings@, i as int);
                }
                return Some(i);
            }
            i += 1;
        }
        None
    }

    /// The drop that the key claims from, where the key is held.
    pub fn get(&self, key: &PublicKey) -> (r: Option<DropId>)
        requires
            self.wf(),
        ensures
            r == (if self@.contains_key(key@) {
                Some(self@[key@])
            } else {
                None::<DropId>
            }),
    {
        match self.position(key) {
            Some(i) => Some(self.bindings[i].drop_id),
            None => None,
        }
    }

    /// Whether the key is held.
    pub fn contains_key(&self, key: &PublicKey) -> (r: bool)
        requires
            self.wf(),
        ensures
            r == self@.contains_key(key@),
    {
        self.position(key).is_some()
    }

    /// Binds the key to the drop, and gives the drop that it was bound to.
    pub fn insert(&mut self, key: PublicKey, drop_id: DropId) -> (r: Option<DropId>)
        requires
            old(self).wf(),
        ensures
            final(self).wf(),
            final(self)@ == old(self)@.insert(key@, drop_id),
            r == (if old(self)@.contains_key(key@) {
                Some(old(self)@[key@])
            } else {
                None::<DropId>
            }),
    {
        match self.position(&key) {
            Some(i) => {
                let previous = self.bindings[i].drop_id;
                let ghost before = self.bindings@;
                self.bindings.set(i, KeyBinding { public_key: key, drop_id });
                proof {
                    let after = self.bindings@;
                    assert(distinct_keys(after)) by {
                        assert forall|a: int, b: int|
                            #![trigger after[a], after[b]]
                            0 <= a < b < after.len() implies after[a].public_key@
                            != after[b].public_key@ by {
                            assert(before[a].public_key@ != before[b].public_key@);
                        }
                    }
                    lemma_same_map(after, before, key@, drop_id);
                }
                Some(previous)
            },
            None => {
                let ghost before = self.bindings@;
                self.bindings.push(KeyBinding { public_key: key, drop_id });
                proof {
                    let after = self.bindings@;
                    assert(after.drop_last() =~= before);
                    assert(distinct_keys(after)) by {
                        assert forall|a: int, b: int|
                            #![trigger after[a], after[b]]
                            0 <= a < b < after.len() implies after[a].public_key@
                            != after[b].public_key@ by {
                            if b < before.len() {
                                assert(before[a].public_key@ != before[b].public_key@);
                            } else {
                                lemma_key_map_dom(before, key@);
                                assert(before[a].public_key@ != key@);
                            }
                        }
                    }
                }
                None
            },
        }
    }

    /// Lets go of the key, and gives the drop that it was bound to.
    pub fn remove(&mut self, key: &PublicKey) -> (r: Option<DropId>)
        requires
            old(self).wf(),
        ensures
            final(self).wf(),
            final(self)@ == old(self)@.remove(key@),
            r == (if old(self)@.contains_key(key@) {
                Some(old(self)@[key@])
            } else {
                None::<DropId>
            }),
    {
        match self.position(key) {
            Some(i) => {
                let ghost before = self.bindings@;
                let binding = self.bindings.remove(i);
                proof {
                    let after = self.bindings@;
                    assert(distinct_keys(after)) by {
                        assert forall|a: int, b: int|
                            #![trigger after[a], after[b]]
                            0 <= a < b < after.len() implies after[a].public_key@
                            != after[b].public_key@ by {
                            let a0 = if a < i { a } else { a + 1 };
                            let b0 = if b < i { b } else { b + 1 };
                            assert(before[a0].public_key@ != before[b0].public_key@);
                        }
                    }
                    lemma_removed_map(before, i as int);
                }
                Some(binding.drop_id)
            },
            None => {
                assert(self@.remove(key@) =~= self@);
                None
            },
        }
    }
    /// The registry of the entries, where no key is held twice in them.
    pub fn from_bindings(bindings: Vec<KeyBinding>) -> (r: Option<Self>)
        ensures
            match r {
                Some(registry) => distinct_keys(bindings@) && registry.wf() && registry@ == key_map(
                    bindings@,
                ),
                None => !distinct_keys(bindings@),
            },
    {
        let mut i: usize = 0;
        while i < bindings.len()
            invariant
                i <= bindings.len(),
                forall|a: int, b: int|
                    #![trigger bindings[a], bindings[b]]
                    0 <= a < b < i ==> bindings[a].public_key@ != bindings[b].public_key@,
            decreases bindings.len() - i,
        {
            let mut j: usize = 0;
            while j < i
                invariant
                    j <= i < bindings.len(),
                    forall|a: int|
                        0 <= a < j ==> (#[trigger] bindings[a]).public_key@
                            != bindings[i as int].public_key@,
                decreases i - j,
            {
                if same_key(&bindings[j].public_key, &bindings[i].public_key) {
                    return None;
                }
                j += 1;
            }
            i += 1;
        }
        Some(KeyRegistry { bindings })
    }

    /// The entries of the registry: each key that is held, once, with its
    /// drop.
    pub fn bindings(&self) -> (r: Vec<KeyBinding>)
        requires
            self.wf(),
        ensures
            distinct_keys(r@),
            key_map(r@) == self@,
    {
        let mut r: Vec<KeyBinding> = Vec::new();
        let mut i: usize = 0;
        while i < self.bindings.len()
            invariant
                i <= self.bindings.len(),
                r.len() == i,
                forall|a: int| 0 <= a < i ==> same_binding(#[trigger] r[a], self.bindings[a]),
            decreases self.bindings.len() - i,
        {
            let public_key = copy_key(&self.bindings[i].public_key);
            r.push(KeyBinding { public_key, drop_id: self.bindings[i].drop_id });
            i += 1;
        }
        proof {
            lemma_key_map_same(r@, self.bindings@);
        }
        r
    }

    /// How many keys the drop has.
    pub fn count(&self, drop_id: DropId) -> (r: usize)
        requires
            self.wf(),
        ensures
            r == bound_keys(self@, drop_id).len(),
    {
        let ghost all = self.bindings@;
        let mut r: usize = 0;
        let mut i: usize = 0;
        assert(bound_keys(key_map(all.take(0)), drop_id) =~= Set::<Seq<u8>>::empty());
        while i < self.bindings.len()
            invariant
                i <= self.bindings.len(),
                all == self.bindings@,
                distinct_keys(all),
                r <= i,
                r == bound_keys(key_map(all.take(i as int)), drop_id).len(),
            decreases self.bindings.len() - i,
        {
            proof {
                let fewer = all.take(i as int);
                let more = all.take(i + 1);
                assert(more.drop_last() =~= fewer);
                assert(more.last() == all[i as int]);
                lemma_key_map_finite(fewer);
                lemma_key_map_dom(fewer, all[i as int].public_key@);
                if key_map(fewer).contains_key(all[i as int].public_key@) {
                    let j = choose|j: int|
                        0 <= j < fewer.len() && (#[trigger] fewer[j]).public_key@
                            == all[i as int].public_key@;
                    assert(all[j].public_key@ != all[i as int].public_key@);
                }
                lemma_bound_insert(
                    key_map(fewer),
                    all[i as int].public_key@,
                    all[i as int].drop_id,
                    drop_id,
                );
            }
            if self.bindings[i].drop_id == drop_id {
                r += 1;
            }
            i += 1;
        }
        assert(all.take(all.len() as int) =~= all);
        r
    }

    /// Lets go of every key of the drop.
    pub fn remove_drop(&mut self, drop_id: DropId)
        requires
            old(self).wf(),
        ensures
            final(self).wf(),
            final(self)@ == without_drop(old(self)@, drop_id),
    {
        let ghost all = self.bindings@;
        let ghost mut from: Seq<int> = Seq::empty();
        let mut kept: Vec<KeyBinding> = Vec::new();
        let mut i: usize = 0;
        while i < self.bindings.len()
            invariant
                i <= self.bindings.len(),
                self.bindings@ == all,
                kept_from(all, kept@, from, i as int, drop_id),
            decreases self.bindings.len() - i,
        {
            if self.bindings[i].drop_id != drop_id {
                let public_key = copy_key(&self.bindings[i].public_key);
                kept.push(KeyBinding { public_key, drop_id: self.bindings[i].drop_id });
                proof {
                    let before = from;
                    from = from.push(i as int);
                    assert forall|t: int|
                        0 <= t < i + 1 && (#[trigger] all[t]).drop_id != drop_id implies from.contains(
                        t,
                    ) by {
                        if t < i {
                            let j = choose|j: int| 0 <= j < before.len() && before[j] == t;
                            assert(from[j] == t);
                        } else {
                            assert(from[before.len() as int] == t);
                        }
                    }
                }
            }
            i += 1;
        }
        self.bindings = kept;
        proof {
            lemma_kept_map(all, self.bindings@, from, drop_id);
        }
    }
}

/// Whether the two entries bind the same key to the same drop.
pub open spec fn same_binding(a: KeyBinding, b: KeyBinding) -> bool {
    a.public_key@ == b.public_key@ && a.drop_id == b.drop_id
}

/// `kept` holds, in their order, the entries among the first `n` of `all`
/// that belong to another drop than `drop_id`; `from` says where each stood.
spec fn kept_from(
    all: Seq<KeyBinding>,
    kept: Seq<KeyBinding>,
    from: Seq<int>,
    n: int,
    drop_id: DropId,
) -> bool {
    &&& from.len() == kept.len()
    &&& forall|j: int|
        0 <= j < from.len() ==> 0 <= #[trigger] from[j] < n && n <= all.len() && same_binding(
            all[from[j]],
            kept[j],
        ) && all[from[j]].drop_id != drop_id
    &&& forall|a: int, b: int| 0 <= a < b < from.len() ==> #[trigger] from[a] < #[trigger] from[b]
    &&& forall|t: int|
        0 <= t < n && (#[trigger] all[t]).drop_id != drop_id ==> from.contains(t)
}

/// The entries that are kept, being those of another drop than `drop_id`,
/// make the map without the keys of that drop.
proof fn lemma_kept_map(
    all: Seq<KeyBinding>,
    kept: Seq<KeyBinding>,
    from: Seq<int>,
    drop_id: DropId,
)
    requires
        distinct_keys(all),
        kept_from(all, kept, from, all.len() as int, drop_id),
    ensures
        distinct_keys(kept),
        key_map(kept) == without_drop(key_map(all), drop_id),
{
    assert forall|a: int, b: int|
        #![trigger kept[a], kept[b]]
        0 <= a < b < kept.len() implies kept[a].public_key@ != kept[b].public_key@ by {
        assert(from[a] < from[b]);
        assert(all[from[a]].public_key@ != all[from[b]].public_key@);
    }
    let expected = without_drop(key_map(all), drop_id);
    assert forall|k: Seq<u8>| key_map(kept).contains_key(k) <==> expected.contains_key(k) by {
        lemma_key_map_dom(kept, k);
        lemma_key_map_dom(all, k);
        if key_map(kept).contains_key(k) {
            let j = choose|j: int| 0 <= j < kept.len() && (#[trigger] kept[j]).public_key@ == k;
            lemma_key_map_value(all, from[j]);
        }
        if expected.contains_key(k) {
            let i = choose|i: int| 0 <= i < all.len() && (#[trigger] all[i]).public_key@ == k;
            lemma_key_map_value(all, i);
            let j = choose|j: int| 0 <= j < from.len() && from[j] == i;
            assert(kept[j].public_key@ == k);
        }
    }
    assert forall|k: Seq<u8>| key_map(kept).contains_key(k) implies key_map(kept)[k]
        == expected[k] by {
        lemma_key_map_dom(kept, k);
        let j = choose|j: int| 0 <= j < kept.len() && (#[trigger] kept[j]).public_key@ == k;
        lemma_key_map_value(all, from[j]);
        lemma_key_map_value(kept, j);
    }
    assert(key_map(kept) =~= expected);
}

/// Two lists without a key twice make the same map where they hold the
/// same entries but for one, which has the same key in both.
proof fn lemma_same_map(
    after: Seq<KeyBinding>,
    before: Seq<KeyBinding>,
    key: Seq<u8>,
    drop_id: DropId,
)
    requires
        distinct_keys(after),
        distinct_keys(before),
        after.len() == before.len(),
        exists|i: int|
            0 <= i < before.len() && (#[trigger] before[i]).public_key@ == key && after[i].public_key@
                == key && after[i].drop_id == drop_id && forall|j: int|
                0 <= j < before.len() && j != i ==> #[trigger] after[j] == before[j],
    ensures
        key_map(after) == key_map(before).insert(key, drop_id),
{
    let i = choose|i: int|
        0 <= i < before.len() && (#[trigger] before[i]).public_key@ == key && after[i].public_key@
            == key && after[i].drop_id == drop_id && forall|j: int|
            0 <= j < before.len() && j != i ==> #[trigger] after[j] == before[j];
    let expected = key_map(before).insert(key, drop_id);
    assert forall|k: Seq<u8>| key_map(after).contains_key(k) <==> expected.contains_key(k) by {
        lemma_key_map_dom(after, k);
        lemma_key_map_dom(before, k);
        if key_map(after).contains_key(k) {
            let j = choose|j: int| 0 <= j < after.len() && (#[trigger] after[j]).public_key@ == k;
            if j != i {
                assert(before[j].public_key@ == k);
            }
        }
        if key_map(before).contains_key(k) {
            let j = choose|j: int| 0 <= j < before.len() && (#[trigger] before[j]).public_key@ == k;
            assert(after[j].public_key@ == k);
        }
        if k == key {
            assert(after[i].public_key@ == k);
        }
    }
    assert forall|k: Seq<u8>| key_map(after).contains_key(k) implies key_map(after)[k]
        == expected[k] by {
        lemma_key_map_dom(after, k);
        let j = choose|j: int| 0 <= j < after.len() && (#[trigger] after[j]).public_key@ == k;
        lemma_key_map_value(after, j);
        if j != i {
            assert(after[j] == before[j]);
            lemma_key_map_value(before, j);
            assert(before[j].public_key@ != before[i].public_key@);
        }
    }
    assert(key_map(after) =~= expected);
}

/// Taking an entry out of a list without a key twice takes its key out
/// of the map.
proof fn lemma_removed_map(before: Seq<KeyBinding>, i: int)
    requires
        distinct_keys(before),
        distinct_keys(before.remove(i)),
        0 <= i < before.len(),
    ensures
        key_map(before.remove(i)) == key_map(before).remove(before[i].public_key@),
{
    let after = before.remove(i);
    let key = before[i].public_key@;
    let expected = key_map(before).remove(key);
    assert forall|k: Seq<u8>| key_map(after).contains_key(k) <==> expected.contains_key(k) by {
        lemma_key_map_dom(after, k);
        lemma_key_map_dom(before, k);
        if key_map(after).contains_key(k) {
            let j = choose|j: int| 0 <= j < after.len() && (#[trigger] after[j]).public_key@ == k;
            let j0 = if j < i { j } else { j + 1 };
            assert(before[j0].public_key@ == k);
            assert(before[j0].public_key@ != before[i].public_key@);
        }
        if expected.contains_key(k) {
            let j = choose|j: int| 0 <= j < before.len() && (#[trigger] before[j]).public_key@ == k;
            let j1 = if j < i { j } else { j - 1 };
            assert(after[j1].public_key@ == k);
        }
    }
    assert forall|k: Seq<u8>| key_map(after).contains_key(k) implies key_map(after)[k]
        == expected[k] by {
        lemma_key_map_dom(after, k);
        let j = choose|j: int| 0 <= j < after.len() && (#[trigger] after[j]).public_key@ == k;
        let j0 = if j < i { j } else { j + 1 };
        lemma_key_map_value(after, j);
        lemma_key_map_value(before, j0);
    }
    assert(key_map(after) =~= expected);
}

} // verus!
