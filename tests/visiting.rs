use std::collections::{BTreeMap, BTreeSet, HashMap, HashSet, VecDeque};

use value_visit::hashed::{hash_map_value, hash_set_value};
use value_visit::recorder::{Call, Recorder};
use value_visit::value::Visitable;
use value_visit::visitor::VisitExt;
use value_visit::{Error, Value};

fn record<T: Visitable + ?Sized>(v: &T) -> (Result<(), Error>, Vec<Call>) {
    let mut rec = Recorder::new();
    let r = v.visit(&mut rec);
    (r, rec.calls)
}

fn record_value(v: &Value, fail_at: Option<usize>) -> (Result<(), Error>, Vec<Call>) {
    let mut rec = match fail_at {
        Some(n) => Recorder::failing_at(n),
        None => Recorder::new(),
    };
    let r = v.visit(&mut rec);
    (r, rec.calls)
}

fn s(x: &str) -> String {
    x.to_string()
}

#[test]
fn byte_is_visited_as_byte() {
    assert_eq!(record(&7u8), (Ok(()), vec![Call::Byte(7)]));
}

#[test]
fn unsigned_integers_widen_to_uint() {
    assert_eq!(record(&65535u16), (Ok(()), vec![Call::Uint(65535)]));
    assert_eq!(record(&4000000000u32), (Ok(()), vec![Call::Uint(4000000000)]));
    assert_eq!(record(&u64::MAX), (Ok(()), vec![Call::Uint(u64::MAX)]));
    assert_eq!(record(&12usize), (Ok(()), vec![Call::Uint(12)]));
}

#[test]
fn signed_integers_widen_to_int() {
    assert_eq!(record(&-5i8), (Ok(()), vec![Call::Int(-5)]));
    assert_eq!(record(&-300i16), (Ok(()), vec![Call::Int(-300)]));
    assert_eq!(record(&-70000i32), (Ok(()), vec![Call::Int(-70000)]));
    assert_eq!(record(&i64::MIN), (Ok(()), vec![Call::Int(i64::MIN)]));
    assert_eq!(record(&-1isize), (Ok(()), vec![Call::Int(-1)]));
}

#[test]
fn bool_and_str_are_single_calls() {
    assert_eq!(record(&true), (Ok(()), vec![Call::Bool(true)]));
    assert_eq!(record(&"hi"), (Ok(()), vec![Call::Str(s("hi"))]));
}

#[test]
fn scalar_failure_is_returned() {
    let mut rec = Recorder::failing_at(0);
    assert_eq!(5u64.visit(&mut rec), Err(Error {}));
    assert_eq!(rec.calls, vec![Call::Uint(5)]);
}

#[test]
fn list_keeps_order() {
    let (r, calls) = record(&vec![1u64, 2, 3]);
    assert_eq!(r, Ok(()));
    assert_eq!(
        calls,
        vec![Call::OpenList, Call::Uint(1), Call::Uint(2), Call::Uint(3), Call::CloseList]
    );
}

#[test]
fn empty_list_is_only_brackets() {
    let empty: Vec<u64> = Vec::new();
    assert_eq!(record(&empty), (Ok(()), vec![Call::OpenList, Call::CloseList]));
}

#[test]
fn nested_lists_nest_brackets() {
    let (r, calls) = record(&vec![vec![1u8], vec![]]);
    assert_eq!(r, Ok(()));
    assert_eq!(
        calls,
        vec![
            Call::OpenList,
            Call::OpenList,
            Call::Byte(1),
            Call::CloseList,
            Call::OpenList,
            Call::CloseList,
            Call::CloseList,
        ]
    );
}

#[test]
fn deque_is_visited_front_to_back() {
    let mut d: VecDeque<i32> = VecDeque::new();
    d.push_back(2);
    d.push_front(1);
    d.push_back(3);
    let (r, calls) = record(&d);
    assert_eq!(r, Ok(()));
    assert_eq!(
        calls,
        vec![Call::OpenList, Call::Int(1), Call::Int(2), Call::Int(3), Call::CloseList]
    );
}

#[test]
fn reference_forwards_to_referent() {
    let x = 9u32;
    assert_eq!(record(&&x), record(&x));
}

#[test]
fn visiting_twice_gives_same_calls() {
    let v = vec![vec![1u16, 2], vec![3]];
    let first = record(&v);
    let second = record(&v);
    assert_eq!(first.0, Ok(()));
    assert_eq!(first, second);
}

fn three_pairs() -> Value {
    Value::Pairs(vec![
        (Value::Str(s("a")), Value::Uint(1)),
        (Value::Str(s("b")), Value::Uint(2)),
        (Value::Str(s("c")), Value::Uint(3)),
    ])
}

#[test]
fn map_visits_pairs_in_order() {
    let (r, calls) = record_value(&three_pairs(), None);
    assert_eq!(r, Ok(()));
    assert_eq!(
        calls,
        vec![
            Call::OpenMap,
            Call::Kv(Value::Str(s("a")), Value::Uint(1)),
            Call::Kv(Value::Str(s("b")), Value::Uint(2)),
            Call::Kv(Value::Str(s("c")), Value::Uint(3)),
            Call::CloseMap,
        ]
    );
}

#[test]
fn map_fails_fast_on_second_entry() {
    let (r, calls) = record_value(&three_pairs(), Some(2));
    assert_eq!(r, Err(Error {}));
    assert_eq!(
        calls,
        vec![
            Call::OpenMap,
            Call::Kv(Value::Str(s("a")), Value::Uint(1)),
            Call::Kv(Value::Str(s("b")), Value::Uint(2)),
        ]
    );
}

#[test]
fn map_helper_fails_fast_on_second_entry() {
    let pairs = vec![
        (Value::Uint(1), Value::Bool(true)),
        (Value::Uint(2), Value::Bool(false)),
        (Value::Uint(3), Value::Bool(true)),
    ];
    let mut rec = Recorder::failing_at(2);
    assert_eq!(rec.visit_map(&pairs), Err(Error {}));
    assert_eq!(rec.calls.len(), 3);
    assert!(!rec.calls.contains(&Call::CloseMap));
}

#[test]
fn failed_open_stops_at_once() {
    let v = Value::List(vec![Value::Uint(1)]);
    assert_eq!(record_value(&v, Some(0)), (Err(Error {}), vec![Call::OpenList]));
}

#[test]
fn failed_close_is_returned() {
    let v = Value::Tuple(vec![Value::Uint(1)]);
    assert_eq!(
        record_value(&v, Some(2)),
        (Err(Error {}), vec![Call::OpenTuple, Call::Uint(1), Call::CloseTuple])
    );
}

#[test]
fn error_inside_nested_list_stops_enclosing_list() {
    let v = Value::List(vec![Value::List(vec![Value::Uint(1), Value::Uint(2)]), Value::Uint(3)]);
    assert_eq!(
        record_value(&v, Some(2)),
        (Err(Error {}), vec![Call::OpenList, Call::OpenList, Call::Uint(1)])
    );
}

#[test]
fn struct_helper_names_then_visits_fields() {
    let fields = vec![(s("x"), Value::Uint(1)), (s("y"), Value::Str(s("a")))];
    let mut rec = Recorder::new();
    assert_eq!(rec.visit_struct("Point", &fields), Ok(()));
    assert_eq!(
        rec.calls,
        vec![
            Call::NamedType(s("Point")),
            Call::OpenStruct,
            Call::Kv(Value::Str(s("x")), Value::Uint(1)),
            Call::Kv(Value::Str(s("y")), Value::Str(s("a"))),
            Call::CloseStruct,
        ]
    );
}

#[test]
fn struct_ignores_failed_name() {
    let v = Value::Struct(s("Unit"), vec![]);
    assert_eq!(
        record_value(&v, Some(0)),
        (Ok(()), vec![Call::NamedType(s("Unit")), Call::OpenStruct, Call::CloseStruct])
    );
}

#[test]
fn tuple_struct_helper_uses_tuple_brackets() {
    let mut rec = Recorder::new();
    let fields = vec![Value::Int(-1), Value::Bool(false)];
    assert_eq!(rec.visit_tuple_struct("Pair", &fields), Ok(()));
    assert_eq!(
        rec.calls,
        vec![
            Call::NamedType(s("Pair")),
            Call::OpenTuple,
            Call::Int(-1),
            Call::Bool(false),
            Call::CloseTuple,
        ]
    );
}

#[test]
fn list_and_tuple_helpers_bracket_items() {
    let items = vec![Value::Byte(1), Value::Float(0)];
    let mut rec = Recorder::new();
    assert_eq!(rec.visit_list(&items), Ok(()));
    assert_eq!(rec.visit_tuple(&items), Ok(()));
    assert_eq!(
        rec.calls,
        vec![
            Call::OpenList,
            Call::Byte(1),
            Call::Float(0),
            Call::CloseList,
            Call::OpenTuple,
            Call::Byte(1),
            Call::Float(0),
            Call::CloseTuple,
        ]
    );
}

#[test]
fn float_is_carried_by_its_bits() {
    let v = Value::Float(1.5f64.to_bits());
    assert_eq!(record_value(&v, None), (Ok(()), vec![Call::Float(0x3FF8000000000000)]));
}

#[test]
fn display_renders_text() {
    let v = Value::display(&42);
    assert_eq!(v, Value::Fmt(s("42")));
    assert_eq!(record_value(&v, None), (Ok(()), vec![Call::Fmt(s("42"))]));
}

#[test]
fn debug_renders_text() {
    let v = Value::debug("a");
    assert_eq!(v, Value::Fmt(s("\"a\"")));
    assert_eq!(record_value(&v, None), (Ok(()), vec![Call::Fmt(s("\"a\""))]));
}

#[test]
fn borrowed_and_owned_describe_the_value() {
    let v = vec![1i64, -2];
    let expected = Value::List(vec![Value::Int(1), Value::Int(-2)]);
    assert_eq!(Value::borrowed(&v), expected);
    assert_eq!(Value::owned(&v), expected);
    assert_eq!(Value::borrowed(&"k"), Value::Str(s("k")));
}

#[test]
fn with_visit_uses_the_description() {
    let v = Value::with_visit((3u64, 4u64), |p: &(u64, u64)| {
        Value::Tuple(vec![Value::Uint(p.0), Value::Uint(p.1)])
    });
    assert_eq!(
        record_value(&v, None),
        (Ok(()), vec![Call::OpenTuple, Call::Uint(3), Call::Uint(4), Call::CloseTuple])
    );
}

#[test]
fn copy_is_equal() {
    let v = Value::Struct(
        s("S"),
        vec![(s("f"), Value::Pairs(vec![(Value::Uint(1), Value::TupleStruct(s("T"), vec![]))]))],
    );
    assert_eq!(v.copy(), v);
}

#[test]
fn ordered_set_is_tuple_in_ascending_order() {
    let mut set: BTreeSet<u64> = BTreeSet::new();
    set.insert(3);
    set.insert(1);
    set.insert(2);
    let (r, calls) = record(&set);
    assert_eq!(r, Ok(()));
    assert_eq!(
        calls,
        vec![Call::OpenTuple, Call::Uint(1), Call::Uint(2), Call::Uint(3), Call::CloseTuple]
    );
}

#[test]
fn ordered_map_visits_keys_in_ascending_order() {
    let mut m: BTreeMap<i32, &str> = BTreeMap::new();
    m.insert(30, "c");
    m.insert(-10, "a");
    m.insert(20, "b");
    let (r, calls) = record(&m);
    assert_eq!(r, Ok(()));
    assert_eq!(
        calls,
        vec![
            Call::OpenMap,
            Call::Kv(Value::Int(-10), Value::Str(s("a"))),
            Call::Kv(Value::Int(20), Value::Str(s("b"))),
            Call::Kv(Value::Int(30), Value::Str(s("c"))),
            Call::CloseMap,
        ]
    );
}

#[test]
fn ordered_map_fails_fast() {
    let mut m: BTreeMap<u8, bool> = BTreeMap::new();
    m.insert(2, true);
    m.insert(1, false);
    m.insert(3, true);
    let mut rec = Recorder::failing_at(2);
    assert_eq!(m.visit(&mut rec), Err(Error {}));
    assert_eq!(
        rec.calls,
        vec![
            Call::OpenMap,
            Call::Kv(Value::Byte(1), Value::Bool(false)),
            Call::Kv(Value::Byte(2), Value::Bool(true)),
        ]
    );
}

#[test]
fn empty_ordered_collections_are_only_brackets() {
    let set: BTreeSet<i64> = BTreeSet::new();
    let m: BTreeMap<usize, u16> = BTreeMap::new();
    assert_eq!(record(&set), (Ok(()), vec![Call::OpenTuple, Call::CloseTuple]));
    assert_eq!(record(&m), (Ok(()), vec![Call::OpenMap, Call::CloseMap]));
}

#[test]
fn slice_is_visited_as_list() {
    let v = [5i8, -5];
    let (r, calls) = record(&v[..]);
    assert_eq!(r, Ok(()));
    assert_eq!(calls, vec![Call::OpenList, Call::Int(5), Call::Int(-5), Call::CloseList]);
}

fn uint_of(v: &Value) -> u64 {
    match v {
        Value::Uint(x) => *x,
        _ => panic!("not an unsigned integer: {:?}", v),
    }
}

#[test]
fn hash_set_is_tuple_of_its_elements() {
    let mut set: HashSet<u64> = HashSet::new();
    set.insert(1);
    set.insert(2);
    set.insert(3);
    let v = hash_set_value(&set);
    let items = match &v {
        Value::Tuple(items) => items,
        _ => panic!("not a tuple: {:?}", v),
    };
    let mut seen: Vec<u64> = items.iter().map(uint_of).collect();
    seen.sort();
    assert_eq!(seen, vec![1, 2, 3]);
    let (r, calls) = record_value(&v, None);
    assert_eq!(r, Ok(()));
    assert_eq!(calls.len(), 5);
    assert_eq!(calls[0], Call::OpenTuple);
    assert_eq!(calls[4], Call::CloseTuple);
}

#[test]
fn hash_map_keeps_each_entry_once() {
    let mut m: HashMap<u64, bool> = HashMap::new();
    m.insert(10, true);
    m.insert(20, false);
    let v = hash_map_value(&m);
    let pairs = match &v {
        Value::Pairs(pairs) => pairs,
        _ => panic!("not a map: {:?}", v),
    };
    let mut seen: Vec<(u64, bool)> = pairs
        .iter()
        .map(|(k, x)| (uint_of(k), matches!(x, Value::Bool(true))))
        .collect();
    seen.sort();
    assert_eq!(seen, vec![(10, true), (20, false)]);
    let (r, calls) = record_value(&v, None);
    assert_eq!(r, Ok(()));
    assert_eq!(calls.first(), Some(&Call::OpenMap));
    assert_eq!(calls.last(), Some(&Call::CloseMap));
}

#[test]
fn empty_hash_set_is_only_brackets() {
    let set: HashSet<i32> = HashSet::new();
    assert_eq!(hash_set_value(&set), Value::Tuple(vec![]));
}
