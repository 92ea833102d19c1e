use vstd::prelude::*;

use std::collections::{BTreeMap, BTreeSet};

use vstd::std_specs::btree::{increasing_seq, spec_btree_keys_iter, spec_keys_iter};
use vstd::std_specs::cmp::OrdSpec;
use vstd::std_specs::iter::IteratorSpec;

use crate::ordered::{OrderedKey, ascending, entry_events, lemma_iter_ascending};
use crate::value::{Value, Visitable, events_of, pair_events};
use crate::visitor::{Event, Step, VisitResult, added, map_events, walk_from};

verus! {

/// A walk over a single call makes exactly that call and nothing else: the
/// visitor's log grows by one step, whose result is the walk's result.
pub proof fn lemma_single_call(ev: Event, before: Seq<Step>, after: Seq<Step>, r: VisitResult)
    requires
        walk_from(before, after, seq![ev], r),
        !(ev is NamedType),
    ensures
        after == before.push((ev, r is Ok)),
{
    let g = added(before, after);
    assert(g.len() == 1);
    assert(after =~= before + g);
    assert(g[0].1 == r is Ok);
}

/// Every primitive scalar is described by one call of the matching scalar
/// method, with its value widened to 64 bits (a byte stays a byte), and by no
/// bracket call.
pub proof fn lemma_scalar_events(
    a: u8,
    b: u16,
    c: u32,
    d: u64,
    e: usize,
    f: i8,
    g: i16,
    h: i32,
    i: i64,
    j: isize,
    k: bool,
    s: &str,
)
    ensures
        a.events() == seq![Event::Byte(a)],
        b.events() == seq![Event::Uint(b as u64)],
        c.events() == seq![Event::Uint(c as u64)],
        d.events() == seq![Event::Uint(d)],
        e.events() == seq![Event::Uint(e as u64)],
        f.events() == seq![Event::Int(f as i64)],
        g.events() == seq![Event::Int(g as i64)],
        h.events() == seq![Event::Int(h as i64)],
        i.events() == seq![Event::Int(i)],
        j.events() == seq![Event::Int(j as i64)],
        k.events() == seq![Event::Bool(k)],
        s.events() == seq![Event::Str(s@)],
{
}

/// A sequence of three items is visited as `open_list`, the visit of each
/// item in order, then `close_list`.
pub proof fn lemma_list_in_order<T: Visitable>(a: T, b: T, c: T)
    ensures
        seq![Event::OpenList] + events_of(seq![a, b, c]) + seq![Event::CloseList] == seq![
            Event::OpenList,
        ] + a.events() + b.events() + c.events() + seq![Event::CloseList],
{
    let s = seq![a, b, c];
    assert(s.drop_last() =~= seq![a, b]);
    assert(seq![a, b].drop_last() =~= seq![a]);
    assert(seq![a].drop_last() =~= Seq::<T>::empty());
    assert(events_of(Seq::<T>::empty()) =~= Seq::<Event>::empty());
    assert(events_of(seq![a]) == events_of(Seq::<T>::empty()) + a.events());
    assert(events_of(seq![a]) =~= a.events());
    assert(events_of(seq![a, b]) == events_of(seq![a]) + b.events());
    assert(events_of(s) == events_of(seq![a, b]) + c.events());
    assert(events_of(s) =~= a.events() + b.events() + c.events());
}

/// Two visits of one value that both succeed make the same calls, in the
/// same order.
pub proof fn lemma_visit_twice<T: Visitable>(
    v: &T,
    before1: Seq<Step>,
    after1: Seq<Step>,
    r1: VisitResult,
    before2: Seq<Step>,
    after2: Seq<Step>,
    r2: VisitResult,
)
    requires
        walk_from(before1, after1, v.events(), r1),
        walk_from(before2, after2, v.events(), r2),
        r1 is Ok,
        r2 is Ok,
    ensures
        added(before1, after1).map_values(|s: Step| s.0) == added(before2, after2).map_values(
            |s: Step| s.0,
        ),
{
    let g1 = added(before1, after1);
    let g2 = added(before2, after2);
    assert(g1.map_values(|s: Step| s.0) =~= v.events());
    assert(g2.map_values(|s: Step| s.0) =~= v.events());
}

proof fn lemma_pair_events_index(pairs: Seq<(Value, Value)>)
    ensures
        pair_events(pairs).len() == pairs.len(),
        forall|i: int|
            0 <= i < pairs.len() ==> #[trigger] pair_events(pairs)[i] == Event::Kv(
                pairs[i].0@,
                pairs[i].1@,
            ),
    decreases pairs.len(),
{
    if pairs.len() > 0 {
        lemma_pair_events_index(pairs.drop_last());
    }
}

/// Fail-fast on maps: when the key-value call of entry `j` fails, the walk
/// returns an error at once; no later entry is visited and `close_map` is
/// never called.
pub proof fn lemma_map_fails_fast(
    pairs: Seq<(Value, Value)>,
    before: Seq<Step>,
    after: Seq<Step>,
    r: VisitResult,
    j: int,
)
    requires
        walk_from(before, after, map_events(pairs), r),
        0 <= j < pairs.len(),
        added(before, after).len() > j + 1,
        !added(before, after)[j + 1].1,
    ensures
        r is Err,
        added(before, after).len() == j + 2,
        forall|i: int|
            0 <= i < added(before, after).len() ==> (#[trigger] added(before, after)[i]).0
                != Event::CloseMap,
{
    let g = added(before, after);
    let e = map_events(pairs);
    lemma_pair_events_index(pairs);
    assert(e[j + 1] == pair_events(pairs)[j]);
    assert(g[j + 1].0 == e[j + 1]);
    assert forall|i: int| 0 <= i < g.len() implies (#[trigger] g[i]).0 != Event::CloseMap by {
        assert(g[i].0 == e[i]);
        if i > 0 {
            assert(e[i] == pair_events(pairs)[i - 1]);
        }
    }
}

/// An ordered set is visited as a tuple of its elements in strictly
/// ascending order, each element once.
pub proof fn lemma_set_ascending<T: OrderedKey>(t: &BTreeSet<T>)
    ensures
        t.events() == seq![Event::OpenTuple] + events_of(ascending(t@)) + seq![Event::CloseTuple],
        ascending(t@).to_set() == t@,
        forall|i: int, j: int|
            #![trigger ascending(t@)[i], ascending(t@)[j]]
            0 <= i < j < ascending(t@).len() ==> ascending(t@)[i].cmp_spec(&ascending(t@)[j]) is Less,
{
    broadcast use vstd::std_specs::btree::group_btree_axioms;
    broadcast use vstd::std_specs::btree::axiom_increasing_seq_meaning;

    T::lemma_total_order();
    lemma_iter_ascending(spec_btree_keys_iter(t).remaining(), t@);
    assert(increasing_seq(ascending(t@)));
}

/// An ordered map is visited as a map whose key-value calls come in strictly
/// ascending key order, one for each key, with the value the map holds for it.
pub proof fn lemma_map_ascending<K: OrderedKey, V: Visitable>(m: &BTreeMap<K, V>)
    ensures
        m.events() == seq![Event::OpenMap] + entry_events(ascending(m@.dom()), m@) + seq![
            Event::CloseMap,
        ],
        ascending(m@.dom()).to_set() == m@.dom(),
        forall|i: int, j: int|
            #![trigger ascending(m@.dom())[i], ascending(m@.dom())[j]]
            0 <= i < j < ascending(m@.dom()).len() ==> ascending(m@.dom())[i].cmp_spec(
                &ascending(m@.dom())[j],
            ) is Less,
{
    broadcast use vstd::std_specs::btree::group_btree_axioms;
    broadcast use vstd::std_specs::btree::axiom_increasing_seq_meaning;

    K::lemma_total_order();
    vstd::std_specs::btree::axiom_spec_keys_iter(m);
    lemma_iter_ascending(spec_keys_iter(m).remaining(), m@.dom());
    assert(increasing_seq(ascending(m@.dom())));
}

} // verus!
