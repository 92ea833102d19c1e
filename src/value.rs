use vstd::prelude::*;

use crate::visitor::{
    Event, Visit, VisitResult, lemma_call, lemma_named, lemma_chain, lemma_start,
    lemma_prefix_frame, added, completed, walk_from, list_events, tuple_events, map_events,
    struct_events, tuple_struct_events,
};

verus! {

/// A describable value, held as a tagged union of the kinds the protocol
/// knows: the carrier that is handed to a visitor.
///
/// `Fmt` holds text rendered from a value's `Display` or `Debug` form; `Float`
/// holds the IEEE-754 binary64 encoding of a floating-point value.
#[derive(Debug, PartialEq)]
pub enum Value {
    Uint(u64),
    Int(i64),
    Float(u64),
    Str(String),
    Byte(u8),
    Bool(bool),
    Fmt(String),
    List(Vec<Value>),
    Tuple(Vec<Value>),
    Pairs(Vec<(Value, Value)>),
    Struct(String, Vec<(String, Value)>),
    TupleStruct(String, Vec<Value>),
}

/// The calls that visiting `v` makes, in order, when no call fails.
pub open spec fn trace(v: Value) -> Seq<Event>
    decreases v, 1int,
{
    match v {
        Value::Uint(x) => seq![Event::Uint(x)],
        Value::Int(x) => seq![Event::Int(x)],
        Value::Float(x) => seq![Event::Float(x)],
        Value::Str(s) => seq![Event::Str(s@)],
        Value::Byte(x) => seq![Event::Byte(x)],
        Value::Bool(x) => seq![Event::Bool(x)],
        Value::Fmt(s) => seq![Event::Fmt(s@)],
        Value::List(items) => seq![Event::OpenList] + traces(items@) + seq![Event::CloseList],
        Value::Tuple(items) => seq![Event::OpenTuple] + traces(items@) + seq![Event::CloseTuple],
        Value::Pairs(pairs) => seq![Event::OpenMap] + pair_events(pairs@) + seq![Event::CloseMap],
        Value::Struct(name, fields) => seq![Event::NamedType(name@), Event::OpenStruct]
            + field_events(fields@) + seq![Event::CloseStruct],
        Value::TupleStruct(name, items) => seq![Event::NamedType(name@), Event::OpenTuple]
            + traces(items@) + seq![Event::CloseTuple],
    }
}

/// A type that knows how to describe itself to a visitor.
///
/// `events` is the trace of calls that a visit of the value makes when no
/// call fails; `to_value` captures that description as a carrier, and `visit`
/// walks it against a visitor, stopping at the first error.
pub trait Visitable {
    spec fn events(&self) -> Seq<Event>;

    /// Describes this value as a carrier with the same trace.
    fn to_value(&self) -> (r: Value)
        ensures
            r@ == self.events(),
    ;

    /// Visits this value with `visitor`.
    fn visit<V: Visit>(&self, visitor: &mut V) -> (r: VisitResult)
        ensures
            walk_from(old(visitor).log(), final(visitor).log(), self.events(), r),
    {
        let v = self.to_value();
        v.visit(visitor)
    }
}

/// Relies on `format!` with `{:?}`: the text of `value`'s `Debug` form, which
/// its own impl decides.
#[verifier::external_body]
fn render_debug<T: std::fmt::Debug + ?Sized>(value: &T) -> String {
    format!("{:?}", value)
}

/// The traces of `items`, one after the other.
pub open spec fn traces(items: Seq<Value>) -> Seq<Event>
    decreases items, 0int,
{
    if items.len() == 0 {
        seq![]
    } else {
        traces(items.drop_last()) + trace(items.last())
    }
}

/// One key-value call for each pair, in order.
pub open spec fn pair_events(pairs: Seq<(Value, Value)>) -> Seq<Event>
    decreases pairs, 0int,
{
    if pairs.len() == 0 {
        seq![]
    } else {
        let p = pairs.last();
        pair_events(pairs.drop_last()).push(Event::Kv(trace(p.0), trace(p.1)))
    }
}

/// One key-value call for each field, in order; a field's name is visited as
/// a string.
pub open spec fn field_events(fields: Seq<(String, Value)>) -> Seq<Event>
    decreases fields, 0int,
{
    if fields.len() == 0 {
        seq![]
    } else {
        let f = fields.last();
        field_events(fields.drop_last()).push(Event::Kv(seq![Event::Str(f.0@)], trace(f.1)))
    }
}

impl View for Value {
    type V = Seq<Event>;

    open spec fn view(&self) -> Seq<Event> {
        trace(*self)
    }
}

/// The calls that walk a list (or, with `tuple`, a tuple) of `items`.
pub open spec fn seq_events(tuple: bool, items: Seq<Value>) -> Seq<Event> {
    if tuple {
        tuple_events(items)
    } else {
        list_events(items)
    }
}

proof fn lemma_traces_prefix(items: Seq<Value>, j: int)
    requires
        0 <= j <= items.len(),
    ensures
        traces(items.take(j)).is_prefix_of(traces(items)),
    decreases items.len(),
{
    if j == items.len() {
        assert(items.take(j) =~= items);
    } else {
        assert(items.drop_last().take(j) =~= items.take(j));
        lemma_traces_prefix(items.drop_last(), j);
    }
}

proof fn lemma_traces_take(items: Seq<Value>, i: int)
    requires
        0 <= i < items.len(),
    ensures
        traces(items.take(i + 1)) == traces(items.take(i)) + items[i]@,
{
    assert(items.take(i + 1).drop_last() =~= items.take(i));
}

proof fn lemma_pair_events_take(pairs: Seq<(Value, Value)>, i: int)
    requires
        0 <= i <= pairs.len(),
    ensures
        pair_events(pairs.take(i)).len() == i,
        pair_events(pairs.take(i)).is_prefix_of(pair_events(pairs)),
        i < pairs.len() ==> pair_events(pairs.take(i + 1)) == pair_events(pairs.take(i)).push(
            Event::Kv(pairs[i].0@, pairs[i].1@),
        ),
    decreases pairs.len(),
{
    if i < pairs.len() {
        assert(pairs.take(i + 1).drop_last() =~= pairs.take(i));
    }
    if i == pairs.len() {
        assert(pairs.take(i) =~= pairs);
        if i > 0 {
            lemma_pair_events_take(pairs.drop_last(), i - 1);
            assert(pairs.drop_last().take(i - 1) =~= pairs.drop_last());
        }
    } else {
        assert(pairs.drop_last().take(i) =~= pairs.take(i));
        lemma_pair_events_take(pairs.drop_last(), i);
    }
}

proof fn lemma_field_events_take(fields: Seq<(String, Value)>, i: int)
    requires
        0 <= i <= fields.len(),
    ensures
        field_events(fields.take(i)).len() == i,
        field_events(fields.take(i)).is_prefix_of(field_events(fields)),
        i < fields.len() ==> field_events(fields.take(i + 1)) == field_events(fields.take(i)).push(
            Event::Kv(seq![Event::Str(fields[i].0@)], fields[i].1@),
        ),
    decreases fields.len(),
{
    if i < fields.len() {
        assert(fields.take(i + 1).drop_last() =~= fields.take(i));
    }
    if i == fields.len() {
        assert(fields.take(i) =~= fields);
        if i > 0 {
            lemma_field_events_take(fields.drop_last(), i - 1);
            assert(fields.drop_last().take(i - 1) =~= fields.drop_last());
        }
    } else {
        assert(fields.drop_last().take(i) =~= fields.take(i));
        lemma_field_events_take(fields.drop_last(), i);
    }
}

/// Visits each of `items` in turn, stopping at the first error.
fn walk_items<V: Visit>(items: &[Value], visitor: &mut V) -> (r: VisitResult)
    ensures
        walk_from(old(visitor).log(), final(visitor).log(), traces(items@), r),
    decreases items@, 0int,
{
    let ghost start = visitor.log();
    proof {
        lemma_start(start);
    }
    let mut i: usize = 0;
    while i < items.len()
        invariant
            i <= items.len(),
            start == old(visitor).log(),
            start.is_prefix_of(visitor.log()),
            completed(traces(items@.take(i as int)), added(start, visitor.log())),
        decreases items.len() - i,
    {
        let ghost mid = visitor.log();
        proof {
            assert(decreases_to!(items@ => items@[i as int]));
            lemma_traces_take(items@, i as int);
            lemma_traces_prefix(items@, i + 1);
        }
        let r = items[i].visit(visitor);
        proof {
            lemma_chain(start, mid, visitor.log(), traces(items@.take(i as int)), items@[i as int]@, r, traces(items@));
        }
        if r.is_err() {
            return r;
        }
        i += 1;
    }
    proof {
        assert(items@.take(i as int) =~= items@);
    }
    Ok(())
}

/// Brackets `items` with the list calls (or, with `tuple`, the tuple calls).
pub(crate) fn walk_seq<V: Visit>(tuple: bool, items: &[Value], visitor: &mut V) -> (r: VisitResult)
    ensures
        walk_from(old(visitor).log(), final(visitor).log(), seq_events(tuple, items@), r),
    decreases items@, 1int,
{
    let ghost start = visitor.log();
    let ghost full = seq_events(tuple, items@);
    let ghost open = if tuple { Event::OpenTuple } else { Event::OpenList };
    let ghost close = if tuple { Event::CloseTuple } else { Event::CloseList };
    proof {
        lemma_start(start);
        assert(full =~= seq![open] + traces(items@) + seq![close]);
        assert(seq![] + seq![open] =~= seq![open]);
    }
    let r = if tuple { visitor.open_tuple() } else { visitor.open_list() };
    proof {
        lemma_call(start, visitor.log(), open, r);
        lemma_chain(start, start, visitor.log(), seq![], seq![open], r, full);
    }
    if r.is_err() {
        return r;
    }
    let ghost mid = visitor.log();
    let r = walk_items(items, visitor);
    proof {
        lemma_chain(start, mid, visitor.log(), seq![open], traces(items@), r, full);
    }
    if r.is_err() {
        return r;
    }
    let ghost mid = visitor.log();
    let r = if tuple { visitor.close_tuple() } else { visitor.close_list() };
    proof {
        lemma_call(mid, visitor.log(), close, r);
        lemma_chain(start, mid, visitor.log(), seq![open] + traces(items@), seq![close], r, full);
    }
    r
}

/// Brackets the key-value calls of `pairs` with the map calls.
pub(crate) fn walk_pairs<V: Visit>(pairs: &[(Value, Value)], visitor: &mut V) -> (r: VisitResult)
    ensures
        walk_from(old(visitor).log(), final(visitor).log(), map_events(pairs@), r),
{
    let ghost start = visitor.log();
    let ghost full = map_events(pairs@);
    let ghost open = seq![Event::OpenMap];
    proof {
        lemma_start(start);
        lemma_pair_events_take(pairs@, 0);
        assert(seq![] + open =~= open);
        assert(open.is_prefix_of(full));
    }
    let r = visitor.open_map();
    proof {
        lemma_call(start, visitor.log(), Event::OpenMap, r);
        lemma_chain(start, start, visitor.log(), seq![], open, r, full);
        assert(open + pair_events(pairs@.take(0)) =~= open);
    }
    if r.is_err() {
        return r;
    }
    let mut i: usize = 0;
    while i < pairs.len()
        invariant
            i <= pairs.len(),
            start == old(visitor).log(),
            full == map_events(pairs@),
            open == seq![Event::OpenMap],
            start.is_prefix_of(visitor.log()),
            completed(open + pair_events(pairs@.take(i as int)), added(start, visitor.log())),
        decreases pairs.len() - i,
    {
        let ghost mid = visitor.log();
        let ghost pre = open + pair_events(pairs@.take(i as int));
        let ghost ev = Event::Kv(pairs@[i as int].0@, pairs@[i as int].1@);
        proof {
            lemma_pair_events_take(pairs@, i as int);
            lemma_pair_events_take(pairs@, i + 1);
            assert(pre + seq![ev] =~= open + pair_events(pairs@.take(i + 1)));
            lemma_prefix_frame(open, pair_events(pairs@.take(i + 1)), pair_events(pairs@), seq![Event::CloseMap]);
        }
        let r = visitor.visit_kv(&pairs[i].0, &pairs[i].1);
        proof {
            lemma_call(mid, visitor.log(), ev, r);
            lemma_chain(start, mid, visitor.log(), pre, seq![ev], r, full);
        }
        if r.is_err() {
            return r;
        }
        i += 1;
    }
    let ghost mid = visitor.log();
    proof {
        assert(pairs@.take(i as int) =~= pairs@);
        assert(open + pair_events(pairs@) + seq![Event::CloseMap] =~= full);
    }
    let r = visitor.close_map();
    proof {
        lemma_call(mid, visitor.log(), Event::CloseMap, r);
        lemma_chain(start, mid, visitor.log(), open + pair_events(pairs@), seq![Event::CloseMap], r, full);
    }
    r
}

/// Announces `name`, ignoring the result, then brackets the key-value calls
/// of `fields` with the struct calls.
pub(crate) fn walk_struct<V: Visit>(name: &str, fields: &[(String, Value)], visitor: &mut V) -> (r: VisitResult)
    ensures
        walk_from(old(visitor).log(), final(visitor).log(), struct_events(name@, fields@), r),
{
    let ghost start = visitor.log();
    let ghost full = struct_events(name@, fields@);
    let ghost named = seq![Event::NamedType(name@)];
    let ghost open = seq![Event::NamedType(name@), Event::OpenStruct];
    proof {
        lemma_start(start);
        lemma_field_events_take(fields@, 0);
        assert(seq![] + named =~= named);
        assert(named + seq![Event::OpenStruct] =~= open);
        assert(open.is_prefix_of(full));
    }
    let _ = visitor.named_type(name);
    let ghost mid = visitor.log();
    proof {
        lemma_named(start, mid, Event::NamedType(name@), mid.last().1);
        lemma_chain(start, start, mid, seq![], named, Ok(()), full);
    }
    let r = visitor.open_struct();
    proof {
        lemma_call(mid, visitor.log(), Event::OpenStruct, r);
        lemma_chain(start, mid, visitor.log(), named, seq![Event::OpenStruct], r, full);
        assert(open + field_events(fields@.take(0)) =~= open);
    }
    if r.is_err() {
        return r;
    }
    let mut i: usize = 0;
    while i < fields.len()
        invariant
            i <= fields.len(),
            start == old(visitor).log(),
            full == struct_events(name@, fields@),
            open == seq![Event::NamedType(name@), Event::OpenStruct],
            start.is_prefix_of(visitor.log()),
            completed(open + field_events(fields@.take(i as int)), added(start, visitor.log())),
        decreases fields.len() - i,
    {
        let ghost mid = visitor.log();
        let ghost pre = open + field_events(fields@.take(i as int));
        let key = Value::Str(fields[i].0.clone());
        let ghost ev = Event::Kv(key@, fields@[i as int].1@);
        proof {
            lemma_field_events_take(fields@, i as int);
            lemma_field_events_take(fields@, i + 1);
            assert(pre + seq![ev] =~= open + field_events(fields@.take(i + 1)));
            lemma_prefix_frame(open, field_events(fields@.take(i + 1)), field_events(fields@), seq![Event::CloseStruct]);
        }
        let r = visitor.visit_kv(&key, &fields[i].1);
        proof {
            lemma_call(mid, visitor.log(), ev, r);
            lemma_chain(start, mid, visitor.log(), pre, seq![ev], r, full);
        }
        if r.is_err() {
            return r;
        }
        i += 1;
    }
    let ghost mid = visitor.log();
    proof {
        assert(fields@.take(i as int) =~= fields@);
        assert(open + field_events(fields@) + seq![Event::CloseStruct] =~= full);
    }
    let r = visitor.close_struct();
    proof {
        lemma_call(mid, visitor.log(), Event::CloseStruct, r);
        lemma_chain(start, mid, visitor.log(), open + field_events(fields@), seq![Event::CloseStruct], r, full);
    }
    r
}

/// Announces `name`, ignoring the result, then brackets `items` with the
/// tuple calls.
pub(crate) fn walk_tuple_struct<V: Visit>(name: &str, items: &[Value], visitor: &mut V) -> (r: VisitResult)
    ensures
        walk_from(old(visitor).log(), final(visitor).log(), tuple_struct_events(name@, items@), r),
    decreases items@, 2int,
{
    let ghost start = visitor.log();
    let ghost named = seq![Event::NamedType(name@)];
    proof {
        lemma_start(start);
        assert(seq![] + named =~= named);
    }
    let _ = visitor.named_type(name);
    let ghost mid = visitor.log();
    proof {
        lemma_named(start, mid, Event::NamedType(name@), mid.last().1);
        lemma_chain(start, start, mid, seq![], named, Ok(()), tuple_struct_events(name@, items@));
    }
    let r = walk_seq(true, items, visitor);
    proof {
        lemma_chain(start, mid, visitor.log(), named, tuple_events(items@), r, tuple_struct_events(name@, items@));
    }
    r
}

/// The traces of describable `items`, one after the other.
pub open spec fn events_of<T: Visitable>(items: Seq<T>) -> Seq<Event>
    decreases items.len(),
{
    if items.len() == 0 {
        seq![]
    } else {
        events_of(items.drop_last()) + items.last().events()
    }
}

/// Describes each of `items`, in order.
pub fn values_of<T: Visitable>(items: &[T]) -> (r: Vec<Value>)
    ensures
        traces(r@) == events_of(items@),
{
    let mut out: Vec<Value> = Vec::new();
    let mut i: usize = 0;
    while i < items.len()
        invariant
            i <= items.len(),
            traces(out@) == events_of(items@.take(i as int)),
        decreases items.len() - i,
    {
        let v = items[i].to_value();
        proof {
            assert(out@.push(v).drop_last() =~= out@);
            assert(items@.take(i + 1).drop_last() =~= items@.take(i as int));
        }
        out.push(v);
        i += 1;
    }
    proof {
        assert(items@.take(i as int) =~= items@);
    }
    out
}

fn copy_items(items: &[Value]) -> (r: Vec<Value>)
    ensures
        traces(r@) == traces(items@),
    decreases items@, 0int,
{
    let mut out: Vec<Value> = Vec::new();
    let mut i: usize = 0;
    while i < items.len()
        invariant
            i <= items.len(),
            traces(out@) == traces(items@.take(i as int)),
        decreases items.len() - i,
    {
        proof {
            assert(decreases_to!(items@ => items@[i as int]));
        }
        let v = items[i].copy();
        proof {
            assert(out@.push(v).drop_last() =~= out@);
            assert(items@.take(i + 1).drop_last() =~= items@.take(i as int));
        }
        out.push(v);
        i += 1;
    }
    proof {
        assert(items@.take(i as int) =~= items@);
    }
    out
}

fn copy_pairs(pairs: &[(Value, Value)]) -> (r: Vec<(Value, Value)>)
    ensures
        pair_events(r@) == pair_events(pairs@),
    decreases pairs@, 0int,
{
    let mut out: Vec<(Value, Value)> = Vec::new();
    let mut i: usize = 0;
    while i < pairs.len()
        invariant
            i <= pairs.len(),
            pair_events(out@) == pair_events(pairs@.take(i as int)),
        decreases pairs.len() - i,
    {
        proof {
            assert(decreases_to!(pairs@ => pairs@[i as int]));
            assert(decreases_to!(pairs@[i as int] => pairs@[i as int].0));
            assert(decreases_to!(pairs@[i as int] => pairs@[i as int].1));
        }
        let k = pairs[i].0.copy();
        let v = pairs[i].1.copy();
        proof {
            assert(out@.push((k, v)).drop_last() =~= out@);
            assert(pairs@.take(i + 1).drop_last() =~= pairs@.take(i as int));
        }
        out.push((k, v));
        i += 1;
    }
    proof {
        assert(pairs@.take(i as int) =~= pairs@);
    }
    out
}

fn copy_fields(fields: &[(String, Value)]) -> (r: Vec<(String, Value)>)
    ensures
        field_events(r@) == field_events(fields@),
    decreases fields@, 0int,
{
    let mut out: Vec<(String, Value)> = Vec::new();
    let mut i: usize = 0;
    while i < fields.len()
        invariant
            i <= fields.len(),
            field_events(out@) == field_events(fields@.take(i as int)),
        decreases fields.len() - i,
    {
        proof {
            assert(decreases_to!(fields@ => fields@[i as int]));
            assert(decreases_to!(fields@[i as int] => fields@[i as int].1));
        }
        let name = fields[i].0.clone();
        let v = fields[i].1.copy();
        proof {
            assert(out@.push((name, v)).drop_last() =~= out@);
            assert(fields@.take(i + 1).drop_last() =~= fields@.take(i as int));
        }
        out.push((name, v));
        i += 1;
    }
    proof {
        assert(fields@.take(i as int) =~= fields@);
    }
    out
}

impl Value {
    /// A copy of this value, with the same trace.
    pub fn copy(&self) -> (r: Value)
        ensures
            r@ == self@,
        decreases self, 1int,
    {
        match self {
            Value::Uint(x) => Value::Uint(*x),
            Value::Int(x) => Value::Int(*x),
            Value::Float(x) => Value::Float(*x),
            Value::Str(s) => Value::Str(s.clone()),
            Value::Byte(x) => Value::Byte(*x),
            Value::Bool(x) => Value::Bool(*x),
            Value::Fmt(s) => Value::Fmt(s.clone()),
            Value::List(items) => Value::List(copy_items(items.as_slice())),
            Value::Tuple(items) => Value::Tuple(copy_items(items.as_slice())),
            Value::Pairs(pairs) => Value::Pairs(copy_pairs(pairs.as_slice())),
            Value::Struct(name, fields) => Value::Struct(name.clone(), copy_fields(fields.as_slice())),
            Value::TupleStruct(name, items) => Value::TupleStruct(
                name.clone(),
                copy_items(items.as_slice()),
            ),
        }
    }

    /// A carrier for text rendered from `value` by its `Display` form.
    pub fn display<T: std::fmt::Display + ?Sized>(value: &T) -> (r: Value)
        ensures
            r matches Value::Fmt(s) && vstd::string::to_string_from_display_ensures::<T>(value, s),
    {
        Value::Fmt(value.to_string())
    }

    /// A carrier for text rendered from `value` by its `Debug` form.
    pub fn debug<T: std::fmt::Debug + ?Sized>(value: &T) -> (r: Value)
        ensures
            r is Fmt,
    {
        Value::Fmt(render_debug(value))
    }

    /// A carrier that describes `value`: visiting it makes the calls that
    /// visiting `value` makes.
    pub fn borrowed<T: Visitable + ?Sized>(value: &T) -> (r: Value)
        ensures
            r@ == value.events(),
    {
        value.to_value()
    }

    /// A carrier that holds its own description of `value`, so that it can
    /// outlive `value`; it is visited as `value` is.
    pub fn owned<T: Visitable + ?Sized>(value: &T) -> (r: Value)
        ensures
            r@ == value.events(),
    {
        value.to_value()
    }

    /// A carrier for `value` described by `describe`, for values whose shape
    /// is computed rather than declared.
    pub fn with_visit<T, F: Fn(&T) -> Value>(value: T, describe: F) -> (r: Value)
        requires
            describe.requires((&value,)),
        ensures
            describe.ensures((&value,), r),
    {
        describe(&value)
    }

    pub open spec fn is_scalar(&self) -> bool {
        match self {
            Value::Uint(_) | Value::Int(_) | Value::Float(_) | Value::Str(_) | Value::Byte(_)
            | Value::Bool(_) => true,
            _ => false,
        }
    }

    /// Visits this value with `visitor`: the calls of its trace, in order,
    /// up to and including the first that fails, whose error is returned.
    pub fn visit<V: Visit>(&self, visitor: &mut V) -> (r: VisitResult)
        ensures
            walk_from(old(visitor).log(), final(visitor).log(), self@, r),
        decreases self, 3int,
    {
        let ghost start = visitor.log();
        match self {
            Value::Uint(x) => {
                let r = visitor.visit_uint(*x);
                proof {
                    lemma_call(start, visitor.log(), Event::Uint(*x), r);
                }
                r
            },
            Value::Int(x) => {
                let r = visitor.visit_int(*x);
                proof { lemma_call(start, visitor.log(), Event::Int(*x), r); }
                r
            },
            Value::Float(x) => {
                let r = visitor.visit_float(*x);
                proof { lemma_call(start, visitor.log(), Event::Float(*x), r); }
                r
            },
            Value::Str(s) => {
                let r = visitor.visit_str(s.as_str());
                proof { lemma_call(start, visitor.log(), Event::Str(s@), r); }
                r
            },
            Value::Byte(x) => {
                let r = visitor.visit_byte(*x);
                proof { lemma_call(start, visitor.log(), Event::Byte(*x), r); }
                r
            },
            Value::Bool(x) => {
                let r = visitor.visit_bool(*x);
                proof { lemma_call(start, visitor.log(), Event::Bool(*x), r); }
                r
            },
            Value::Fmt(s) => {
                let r = visitor.visit_fmt(s.as_str());
                proof { lemma_call(start, visitor.log(), Event::Fmt(s@), r); }
                r
            },
            Value::List(items) => {
                let r = walk_seq(false, items.as_slice(), visitor);
                proof { assert(self@ =~= seq_events(false, items@)); }
                r
            },
            Value::Tuple(items) => {
                let r = walk_seq(true, items.as_slice(), visitor);
                proof { assert(self@ =~= seq_events(true, items@)); }
                r
            },
            Value::Pairs(pairs) => {
                let r = walk_pairs(pairs.as_slice(), visitor);
                proof { assert(self@ =~= map_events(pairs@)); }
                r
            },
            Value::Struct(name, fields) => {
                let r = walk_struct(name.as_str(), fields.as_slice(), visitor);
                proof { assert(self@ =~= struct_events(name@, fields@)); }
                r
            },
            Value::TupleStruct(name, items) => {
                let r = walk_tuple_struct(name.as_str(), items.as_slice(), visitor);
                proof { assert(self@ =~= tuple_struct_events(name@, items@)); }
                r
            },
        }
    }
}

} // verus!
