use vstd::prelude::*;

use std::collections::{HashMap, HashSet};

use vstd::std_specs::hash::{obeys_key_model, spec_hash_keys_iter, spec_hash_map_iter};
use vstd::std_specs::iter::IteratorSpec;

use crate::ordered::entry_events;
use crate::value::{Value, Visitable, events_of, pair_events, traces};
use crate::visitor::Event;

verus! {

/// A key type whose `Hash` and `Eq` agree with its `==`, as hash sets and
/// maps need.
pub trait HashKey: Visitable + std::hash::Hash + Eq + Sized {
    proof fn lemma_key_model()
        ensures
            obeys_key_model::<Self>(),
    ;
}

impl HashKey for bool {
    proof fn lemma_key_model() {
        broadcast use vstd::std_specs::hash::group_hash_axioms;
    }
}

impl HashKey for u8 {
    proof fn lemma_key_model() {
        broadcast use vstd::std_specs::hash::group_hash_axioms;
    }
}

impl HashKey for u16 {
    proof fn lemma_key_model() {
        broadcast use vstd::std_specs::hash::group_hash_axioms;
    }
}

impl HashKey for u32 {
    proof fn lemma_key_model() {
        broadcast use vstd::std_specs::hash::group_hash_axioms;
    }
}

impl HashKey for u64 {
    proof fn lemma_key_model() {
        broadcast use vstd::std_specs::hash::group_hash_axioms;
    }
}

impl HashKey for usize {
    proof fn lemma_key_model() {
        broadcast use vstd::std_specs::hash::group_hash_axioms;
    }
}

impl HashKey for i8 {
    proof fn lemma_key_model() {
        broadcast use vstd::std_specs::hash::group_hash_axioms;
    }
}

impl HashKey for i16 {
    proof fn lemma_key_model() {
        broadcast use vstd::std_specs::hash::group_hash_axioms;
    }
}

impl HashKey for i32 {
    proof fn lemma_key_model() {
        broadcast use vstd::std_specs::hash::group_hash_axioms;
    }
}

impl HashKey for i64 {
    proof fn lemma_key_model() {
        broadcast use vstd::std_specs::hash::group_hash_axioms;
    }
}

impl HashKey for isize {
    proof fn lemma_key_model() {
        broadcast use vstd::std_specs::hash::group_hash_axioms;
    }
}

/// Describes a hash set as a tuple of its elements, each exactly once, in
/// the set's own order. That order depends on the process's hasher, so the
/// contract fixes only which elements come, not where.
pub fn hash_set_value<T: HashKey>(s: &HashSet<T>) -> (r: Value)
    ensures
        exists|q: Seq<T>|
            q.no_duplicates() && q.to_set() == s@ && r@ == seq![Event::OpenTuple] + events_of(q)
                + seq![Event::CloseTuple],
{
    broadcast use vstd::std_specs::hash::group_hash_axioms;
    broadcast use vstd::std_specs::hash::axiom_spec_hash_keys_iter;

    proof {
        T::lemma_key_model();
    }
    let ghost all = spec_hash_keys_iter(s).remaining().unref();
    let mut out: Vec<Value> = Vec::new();
    for x in it: s.iter()
        invariant
            all == spec_hash_keys_iter(s).remaining().unref(),
            it.seq().unref() == all,
            traces(out@) == events_of(all.take(it.index())),
    {
        let v = x.to_value();
        proof {
            assert(all[it.index()] == *x);
            assert(out@.push(v).drop_last() =~= out@);
            assert(all.take(it.index() + 1).drop_last() =~= all.take(it.index()));
        }
        out.push(v);
    }
    proof {
        assert(all.take(all.len() as int) =~= all);
        let rem = spec_hash_keys_iter(s).remaining();
        assert(all.no_duplicates()) by {
            assert forall|i: int, j: int| 0 <= i < all.len() && 0 <= j < all.len() && i != j implies all[i]
                != all[j] by {
                assert(rem[i] != rem[j]);
            }
        }
    }
    Value::Tuple(out)
}

/// Describes a hash map as a map of its entries, one key-value call for each
/// key, in the map's own order. That order depends on the process's hasher,
/// so the contract fixes only which entries come, not where.
pub fn hash_map_value<K: HashKey, V: Visitable>(m: &HashMap<K, V>) -> (r: Value)
    ensures
        exists|keys: Seq<K>|
            keys.no_duplicates() && keys.to_set() == m@.dom() && r@ == seq![Event::OpenMap]
                + entry_events(keys, m@) + seq![Event::CloseMap],
{
    broadcast use vstd::std_specs::hash::group_hash_axioms;
    broadcast use vstd::std_specs::hash::axiom_spec_hash_map_iter;

    proof {
        K::lemma_key_model();
    }
    let ghost rem = spec_hash_map_iter(m).remaining();
    let ghost all = rem.map_values(|kv: (&K, &V)| *kv.0);
    let mut out: Vec<(Value, Value)> = Vec::new();
    for kv in it: m.iter()
        invariant
            rem == spec_hash_map_iter(m).remaining(),
            all == rem.map_values(|kv: (&K, &V)| *kv.0),
            it.seq() == rem,
            forall|i: int| 0 <= i < rem.len() ==> m@[*(#[trigger] rem[i]).0] == *rem[i].1,
            pair_events(out@) == entry_events(all.take(it.index()), m@),
    {
        let (k, v) = kv;
        let kv_value = (k.to_value(), v.to_value());
        proof {
            assert(all[it.index()] == *k);
            assert(out@.push(kv_value).drop_last() =~= out@);
            assert(all.take(it.index() + 1).drop_last() =~= all.take(it.index()));
        }
        out.push(kv_value);
    }
    proof {
        assert(all.take(all.len() as int) =~= all);
        assert(all.no_duplicates()) by {
            assert forall|i: int, j: int| 0 <= i < all.len() && 0 <= j < all.len() && i != j implies all[i]
                != all[j] by {
                assert(rem[i] != rem[j]);
                if all[i] == all[j] {
                    assert(*rem[i].1 == m@[all[i]]);
                    assert(*rem[j].1 == m@[all[j]]);
                }
            }
        }
        assert forall|k: K| all.to_set().contains(k) <==> m@.dom().contains(k) by {
            if all.to_set().contains(k) {
                let i = choose|i: int| 0 <= i < all.len() && all[i] == k;
                assert(m@.contains_key(*rem[i].0));
            }
            if m@.dom().contains(k) {
                assert(rem.contains((&k, &m@[k])));
                let i = choose|i: int| 0 <= i < rem.len() && rem[i] == (&k, &m@[k]);
                assert(all[i] == k);
            }
        }
        assert(all.to_set() =~= m@.dom());
    }
    Value::Pairs(out)
}

} // verus!
