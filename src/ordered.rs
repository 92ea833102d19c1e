use vstd::prelude::*;

use std::collections::{BTreeMap, BTreeSet};

use vstd::laws_cmp::{obeys_cmp, obeys_cmp_ord, obeys_partial_cmp_spec_properties};
use vstd::std_specs::btree::{axiom_increasing_seq_meaning, increasing_seq};
use vstd::std_specs::cmp::{OrdSpec, PartialOrdSpec};
use vstd::std_specs::iter::IteratorSpec;

use crate::value::{Value, Visitable, events_of, pair_events, traces};
use crate::visitor::Event;

verus! {

proof fn lemma_less_strict<K: Ord>(x: K, y: K, z: K)
    requires
        obeys_cmp::<K>(),
    ensures
        !(x.cmp_spec(&x) is Less),
        !(x.cmp_spec(&y) is Less && y.cmp_spec(&x) is Less),
        x.cmp_spec(&y) is Less && y.cmp_spec(&z) is Less ==> x.cmp_spec(&z) is Less,
{
    reveal(obeys_cmp_ord);
    reveal(obeys_partial_cmp_spec_properties);
    assert(x.partial_cmp_spec(&y) == Some(x.cmp_spec(&y)));
    assert(y.partial_cmp_spec(&x) == Some(y.cmp_spec(&x)));
    assert(x.partial_cmp_spec(&x) == Some(x.cmp_spec(&x)));
    assert(y.partial_cmp_spec(&z) == Some(y.cmp_spec(&z)));
    assert(x.partial_cmp_spec(&z) == Some(x.cmp_spec(&z)));
}

/// Two increasing sequences with the same elements are the same sequence.
pub proof fn lemma_increasing_unique<K: Ord>(a: Seq<K>, b: Seq<K>)
    requires
        obeys_cmp::<K>(),
        increasing_seq(a),
        increasing_seq(b),
        a.to_set() == b.to_set(),
    ensures
        a == b,
    decreases a.len(),
{
    broadcast use axiom_increasing_seq_meaning;

    if a.len() == 0 || b.len() == 0 {
        if a.len() > 0 {
            assert(a.to_set().contains(a[0]));
        }
        if b.len() > 0 {
            assert(b.to_set().contains(b[0]));
        }
        assert(a =~= b);
    } else {
        assert(a.to_set().contains(a[0]));
        assert(b.to_set().contains(b[0]));
        let j = choose|j: int| 0 <= j < b.len() && b[j] == a[0];
        let i = choose|i: int| 0 <= i < a.len() && a[i] == b[0];
        lemma_less_strict(a[0], b[0], a[0]);
        if j > 0 {
            assert(b[0].cmp_spec(&b[j]) is Less);
            if i > 0 {
                assert(a[0].cmp_spec(&a[i]) is Less);
            }
        }
        assert(a[0] == b[0]);
        let a2 = a.drop_first();
        let b2 = b.drop_first();
        assert(increasing_seq(a2)) by {
            assert forall|p: int, q: int|
                #![trigger a2[p], a2[q]]
                0 <= p < q < a2.len() implies a2[p].cmp_spec(&a2[q]) is Less by {
                assert(a2[p] == a[p + 1] && a2[q] == a[q + 1]);
            }
        }
        assert(increasing_seq(b2)) by {
            assert forall|p: int, q: int|
                #![trigger b2[p], b2[q]]
                0 <= p < q < b2.len() implies b2[p].cmp_spec(&b2[q]) is Less by {
                assert(b2[p] == b[p + 1] && b2[q] == b[q + 1]);
            }
        }
        assert forall|x: K| a2.to_set().contains(x) <==> b2.to_set().contains(x) by {
            if a2.to_set().contains(x) {
                let p = choose|p: int| 0 <= p < a2.len() && a2[p] == x;
                assert(a[p + 1] == x);
                assert(a.to_set().contains(x));
                let q = choose|q: int| 0 <= q < b.len() && b[q] == x;
                lemma_less_strict(a[0], x, a[0]);
                assert(a[0].cmp_spec(&a[p + 1]) is Less);
                assert(q != 0);
                assert(b2[q - 1] == x);
            }
            if b2.to_set().contains(x) {
                let p = choose|p: int| 0 <= p < b2.len() && b2[p] == x;
                assert(b[p + 1] == x);
                assert(b.to_set().contains(x));
                let q = choose|q: int| 0 <= q < a.len() && a[q] == x;
                lemma_less_strict(b[0], x, b[0]);
                assert(b[0].cmp_spec(&b[p + 1]) is Less);
                assert(q != 0);
                assert(a2[q - 1] == x);
            }
        }
        assert(a2.to_set() =~= b2.to_set());
        lemma_increasing_unique(a2, b2);
        assert(a.len() == b.len());
        assert forall|k: int| 0 <= k < a.len() implies a[k] == b[k] by {
            if k > 0 {
                assert(a[k] == a2[k - 1]);
                assert(b[k] == b2[k - 1]);
            }
        }
        assert(a =~= b);
    }
}

/// The elements of `s` in ascending order.
pub open spec fn ascending<K: Ord>(s: Set<K>) -> Seq<K> {
    choose|q: Seq<K>| increasing_seq(q) && q.to_set() == s
}

/// What an ordered set's iterator hands out is its elements in ascending
/// order.
pub proof fn lemma_iter_ascending<K: Ord>(r: Seq<&K>, s: Set<K>)
    requires
        obeys_cmp::<K>(),
        increasing_seq(r),
        r.unref().to_set() == s,
    ensures
        r.unref() == ascending(s),
        increasing_seq(ascending(s)),
        ascending(s).to_set() == s,
{
    broadcast use axiom_increasing_seq_meaning;
    broadcast use vstd::laws_cmp::lemma_ref_obeys_cmp_spec;

    let u = r.unref();
    assert(obeys_cmp::<&K>());
    axiom_increasing_seq_meaning::<&K>(r);
    assert(increasing_seq(u)) by {
        assert forall|p: int, q: int|
            #![trigger u[p], u[q]]
            0 <= p < q < u.len() implies u[p].cmp_spec(&u[q]) is Less by {
            assert(<&K as OrdSpec>::cmp_spec(&r[p], &r[q]) is Less);
        }
    }
    let q = ascending(s);
    assert(increasing_seq(q) && q.to_set() == s);
    lemma_increasing_unique(u, q);
}

/// A key type whose `Ord` is a lawful total order, as ordered sets need.
pub trait OrderedKey: Visitable + Ord + Sized {
    proof fn lemma_total_order()
        ensures
            obeys_cmp::<Self>(),
    ;
}

impl OrderedKey for u64 {
    proof fn lemma_total_order() {
        broadcast use vstd::laws_cmp::group_laws_cmp;
    }
}

impl OrderedKey for u8 {
    proof fn lemma_total_order() {
        broadcast use vstd::laws_cmp::group_laws_cmp;
    }
}

impl OrderedKey for u16 {
    proof fn lemma_total_order() {
        broadcast use vstd::laws_cmp::group_laws_cmp;
    }
}

impl OrderedKey for u32 {
    proof fn lemma_total_order() {
        broadcast use vstd::laws_cmp::group_laws_cmp;
    }
}

impl OrderedKey for usize {
    proof fn lemma_total_order() {
        broadcast use vstd::laws_cmp::group_laws_cmp;
    }
}

impl OrderedKey for i8 {
    proof fn lemma_total_order() {
        broadcast use vstd::laws_cmp::group_laws_cmp;
    }
}

impl OrderedKey for i16 {
    proof fn lemma_total_order() {
        broadcast use vstd::laws_cmp::group_laws_cmp;
    }
}

impl OrderedKey for i32 {
    proof fn lemma_total_order() {
        broadcast use vstd::laws_cmp::group_laws_cmp;
    }
}

impl OrderedKey for i64 {
    proof fn lemma_total_order() {
        broadcast use vstd::laws_cmp::group_laws_cmp;
    }
}

impl OrderedKey for isize {
    proof fn lemma_total_order() {
        broadcast use vstd::laws_cmp::group_laws_cmp;
    }
}

/// An ordered set is visited as a tuple of its elements, in ascending order.
impl<T: OrderedKey> Visitable for BTreeSet<T> {
    open spec fn events(&self) -> Seq<Event> {
        seq![Event::OpenTuple] + events_of(ascending(self@)) + seq![Event::CloseTuple]
    }

    fn to_value(&self) -> (r: Value) {
        broadcast use vstd::std_specs::btree::group_btree_axioms;
        proof {
            T::lemma_total_order();
            lemma_iter_ascending(vstd::std_specs::btree::spec_btree_keys_iter(self).remaining(), self@);
        }
        let ghost all = ascending(self@);
        let mut out: Vec<Value> = Vec::new();
        for x in it: self.iter()
            invariant
                all == ascending(self@),
                it.seq().unref() == all,
                traces(out@) == events_of(all.take(it.index())),
        {
            let v = x.to_value();
            proof {
                assert(all[it.index()] == *x);
                assert(out@.push(v).drop_last() =~= out@);
                assert(all.take(it.index() + 1).drop_last() =~= all.take(it.index()));
            }
            out.push(v);
        }
        proof {
            assert(all.take(all.len() as int) =~= all);
        }
        Value::Tuple(out)
    }
}

/// One key-value call for each of `keys`, in order, with the value that `m`
/// maps it to.
pub open spec fn entry_events<K: Visitable, V: Visitable>(keys: Seq<K>, m: Map<K, V>) -> Seq<Event>
    decreases keys.len(),
{
    if keys.len() == 0 {
        seq![]
    } else {
        let k = keys.last();
        entry_events(keys.drop_last(), m).push(Event::Kv(k.events(), m[k].events()))
    }
}

/// What an ordered map's iterator hands out is its entries in ascending key
/// order.
proof fn lemma_map_iter_ascending<K: Ord, V>(r: Seq<(&K, &V)>, m: Map<K, V>)
    requires
        obeys_cmp::<K>(),
        increasing_seq(r.map_values(|kv: (&K, &V)| *kv.0)),
        forall|i: int| 0 <= i < r.len() ==> m.contains_key(*(#[trigger] r[i]).0) && m[*r[i].0] == *r[i].1,
        forall|k: K| #[trigger] m.contains_key(k) ==> r.contains((&k, &m[k])),
    ensures
        r.map_values(|kv: (&K, &V)| *kv.0) == ascending(m.dom()),
{
    let keys = r.map_values(|kv: (&K, &V)| *kv.0);
    assert forall|k: K| keys.to_set().contains(k) <==> m.dom().contains(k) by {
        if keys.to_set().contains(k) {
            let i = choose|i: int| 0 <= i < keys.len() && keys[i] == k;
            assert(r[i].0 == k);
        }
        if m.dom().contains(k) {
            assert(r.contains((&k, &m[k])));
            let i = choose|i: int| 0 <= i < r.len() && r[i] == (&k, &m[k]);
            assert(keys[i] == k);
        }
    }
    assert(keys.to_set() =~= m.dom());
    let q = ascending(m.dom());
    assert(increasing_seq(q) && q.to_set() == m.dom());
    lemma_increasing_unique(keys, q);
}

/// An ordered map is visited as a map of its entries, in ascending key order.
impl<K: OrderedKey, V: Visitable> Visitable for BTreeMap<K, V> {
    open spec fn events(&self) -> Seq<Event> {
        seq![Event::OpenMap] + entry_events(ascending(self@.dom()), self@) + seq![Event::CloseMap]
    }

    fn to_value(&self) -> (r: Value) {
        broadcast use vstd::std_specs::btree::group_btree_axioms;
        proof {
            K::lemma_total_order();
        }
        let entries = self.iter();
        proof {
            lemma_map_iter_ascending(entries.remaining(), self@);
        }
        let ghost all = ascending(self@.dom());
        let mut out: Vec<(Value, Value)> = Vec::new();
        for kv in it: entries
            invariant
                all == ascending(self@.dom()),
                it.seq().map_values(|kv: (&K, &V)| *kv.0) == all,
                forall|i: int| 0 <= i < it.seq().len() ==> self@[*(#[trigger] it.seq()[i]).0] == *it.seq()[i].1,
                pair_events(out@) == entry_events(all.take(it.index()), self@),
        {
            let (k, v) = kv;
            let kv_value = (k.to_value(), v.to_value());
            proof {
                assert(all[it.index()] == *k);
                assert(out@.push(kv_value).drop_last() =~= out@);
                assert(all.take(it.index() + 1).drop_last() =~= all.take(it.index()));
            }
            out.push(kv_value);
        }
        proof {
            assert(all.take(all.len() as int) =~= all);
        }
        Value::Pairs(out)
    }
}

} // verus!
