use vstd::prelude::*;

use crate::value::{
    Value, traces, pair_events, field_events, walk_pairs, walk_seq, walk_struct, walk_tuple_struct,
};

verus! {

/// The single, opaque failure signal of the protocol.
///
/// Errors are raised only by visitors; the carriers, the adapters and the
/// helpers of `Visit` never make one up, they only pass one on.
#[derive(Debug, Clone, Copy, PartialEq, Eq, Structural)]
pub struct Error {}

pub type VisitResult = Result<(), Error>;

/// One call received by a visitor, as the contracts speak of it.
///
/// A key-value call carries the traces of its key and of its value; a
/// floating-point value is carried by its IEEE-754 binary64 encoding.
pub enum Event {
    Uint(u64),
    Int(i64),
    Float(u64),
    Str(Seq<char>),
    Byte(u8),
    Bool(bool),
    Fmt(Seq<char>),
    Kv(Seq<Event>, Seq<Event>),
    NamedType(Seq<char>),
    OpenMap,
    CloseMap,
    OpenList,
    CloseList,
    OpenStruct,
    CloseStruct,
    OpenTuple,
    CloseTuple,
}

/// A call together with whether the visitor answered it with `Ok`.
pub type Step = (Event, bool);

/// A failed call ends the walk, except a failed `named_type`, whose result the
/// helpers ignore.
pub open spec fn halts(step: Step) -> bool {
    !step.1 && !(step.0 is NamedType)
}

/// Every expected call was made, in order, and none of them ended the walk.
pub open spec fn completed(expected: Seq<Event>, got: Seq<Step>) -> bool {
    &&& got.len() == expected.len()
    &&& forall|i: int| 0 <= i < got.len() ==> (#[trigger] got[i]).0 == expected[i] && !halts(got[i])
}

/// The calls made are a non-empty prefix of the expected ones, and the last of
/// them, and only the last, ended the walk.
pub open spec fn aborted(expected: Seq<Event>, got: Seq<Step>) -> bool {
    &&& 0 < got.len() <= expected.len()
    &&& forall|i: int| 0 <= i < got.len() ==> (#[trigger] got[i]).0 == expected[i]
    &&& forall|i: int| 0 <= i < got.len() - 1 ==> !halts(#[trigger] got[i])
    &&& halts(got.last())
}

/// Fail-fast: a walk that expects the calls `expected` and received the steps
/// `got` returns `Ok` exactly when it made them all without a failure, and an
/// error exactly when it stopped at the first failure.
pub open spec fn walked(expected: Seq<Event>, got: Seq<Step>, r: VisitResult) -> bool {
    match r {
        Ok(_) => completed(expected, got),
        Err(_) => aborted(expected, got),
    }
}

/// The steps a visitor received between two points of its log.
pub open spec fn added(before: Seq<Step>, after: Seq<Step>) -> Seq<Step> {
    after.subrange(before.len() as int, after.len() as int)
}

/// The log `after` extends `before` by a fail-fast walk over `expected`.
pub open spec fn walk_from(
    before: Seq<Step>,
    after: Seq<Step>,
    expected: Seq<Event>,
    r: VisitResult,
) -> bool {
    &&& before.is_prefix_of(after)
    &&& walked(expected, added(before, after), r)
}

pub open spec fn map_events(pairs: Seq<(Value, Value)>) -> Seq<Event> {
    seq![Event::OpenMap] + pair_events(pairs) + seq![Event::CloseMap]
}

pub open spec fn list_events(items: Seq<Value>) -> Seq<Event> {
    seq![Event::OpenList] + traces(items) + seq![Event::CloseList]
}

pub open spec fn tuple_events(items: Seq<Value>) -> Seq<Event> {
    seq![Event::OpenTuple] + traces(items) + seq![Event::CloseTuple]
}

pub open spec fn struct_events(name: Seq<char>, fields: Seq<(String, Value)>) -> Seq<Event> {
    seq![Event::NamedType(name), Event::OpenStruct] + field_events(fields)
        + seq![Event::CloseStruct]
}

pub open spec fn tuple_struct_events(name: Seq<char>, items: Seq<Value>) -> Seq<Event> {
    seq![Event::NamedType(name)] + tuple_events(items)
}

pub proof fn lemma_completed_concat(e1: Seq<Event>, g1: Seq<Step>, e2: Seq<Event>, g2: Seq<Step>)
    requires
        completed(e1, g1),
    ensures
        completed(e2, g2) ==> completed(e1 + e2, g1 + g2),
        aborted(e2, g2) ==> aborted(e1 + e2, g1 + g2),
{
    let e = e1 + e2;
    let g = g1 + g2;
    if completed(e2, g2) {
        assert forall|i: int| 0 <= i < g.len() implies (#[trigger] g[i]).0 == e[i] && !halts(g[i]) by {
            if i >= g1.len() {
                assert(g[i] == g2[i - g1.len()]);
            }
        }
    }
    if aborted(e2, g2) {
        assert(g.last() == g2.last());
        assert forall|i: int| 0 <= i < g.len() implies (#[trigger] g[i]).0 == e[i] by {
            if i >= g1.len() {
                assert(g[i] == g2[i - g1.len()]);
            }
        }
        assert forall|i: int| 0 <= i < g.len() - 1 implies !halts(#[trigger] g[i]) by {
            if i >= g1.len() {
                assert(g[i] == g2[i - g1.len()]);
            }
        }
    }
}

pub proof fn lemma_aborted_prefix(e: Seq<Event>, full: Seq<Event>, g: Seq<Step>)
    requires
        aborted(e, g),
        e.is_prefix_of(full),
    ensures
        aborted(full, g),
{
    assert forall|i: int| 0 <= i < g.len() implies (#[trigger] g[i]).0 == full[i] by {
        assert(e[i] == full.subrange(0, e.len() as int)[i]);
    }
}

/// A log extended by a walk, seen from an earlier point of the log.
pub proof fn lemma_added_trans(before: Seq<Step>, mid: Seq<Step>, after: Seq<Step>)
    requires
        before.is_prefix_of(mid),
        mid.is_prefix_of(after),
    ensures
        before.is_prefix_of(after),
        added(before, after) =~= added(before, mid) + added(mid, after),
{
    assert(after.subrange(0, before.len() as int) =~= mid.subrange(0, before.len() as int));
}

/// One call to a visitor, other than `named_type`, is a walk of one step whose
/// result is the call's result.
pub proof fn lemma_call(mid: Seq<Step>, after: Seq<Step>, ev: Event, r: VisitResult)
    requires
        after == mid.push((ev, r is Ok)),
        !(ev is NamedType),
    ensures
        walk_from(mid, after, seq![ev], r),
{
    assert(added(mid, after) =~= seq![(ev, r is Ok)]);
}

/// A `named_type` call whose result is ignored is a walk of one step that
/// always goes on.
pub proof fn lemma_named(mid: Seq<Step>, after: Seq<Step>, ev: Event, ok: bool)
    requires
        after == mid.push((ev, ok)),
        ev is NamedType,
    ensures
        walk_from(mid, after, seq![ev], Ok(())),
{
    assert(added(mid, after) =~= seq![(ev, ok)]);
}

/// A walk from `start` that has completed the calls `pre` goes on with a walk
/// over `e2`: it has then completed `pre + e2`, or it has aborted any walk
/// that begins with `pre + e2`.
pub proof fn lemma_chain(
    start: Seq<Step>,
    mid: Seq<Step>,
    after: Seq<Step>,
    pre: Seq<Event>,
    e2: Seq<Event>,
    r: VisitResult,
    full: Seq<Event>,
)
    requires
        start.is_prefix_of(mid),
        completed(pre, added(start, mid)),
        walk_from(mid, after, e2, r),
        (pre + e2).is_prefix_of(full),
    ensures
        start.is_prefix_of(after),
        r is Ok ==> completed(pre + e2, added(start, after)),
        r is Err ==> walk_from(start, after, full, r),
{
    lemma_added_trans(start, mid, after);
    lemma_completed_concat(pre, added(start, mid), e2, added(mid, after));
    if r is Err {
        lemma_aborted_prefix(pre + e2, full, added(start, after));
    }
}

/// A prefix stays a prefix between the same surroundings.
pub proof fn lemma_prefix_frame(x: Seq<Event>, a: Seq<Event>, b: Seq<Event>, y: Seq<Event>)
    requires
        a.is_prefix_of(b),
    ensures
        (x + a).is_prefix_of(x + b + y),
{
    assert((x + a) =~= (x + b + y).subrange(0, (x + a).len() as int));
}

/// Nothing has been walked yet.
pub proof fn lemma_start(start: Seq<Step>)
    ensures
        start.is_prefix_of(start),
        completed(seq![], added(start, start)),
{
    assert(added(start, start) =~= seq![]);
}

/// The streaming visitor: the consumer side of the protocol.
///
/// `log` is the record of the calls a visitor has received, each with whether
/// it answered `Ok`. Every method adds exactly its own call to it; what else a
/// visitor does with a call is its own business. The scalar methods default to
/// `visit_any`, so a visitor that overrides only `visit_any` receives every
/// scalar.
pub trait Visit: Sized {
    spec fn log(&self) -> Seq<Step>;

    /// Visit an unsigned integer value.
    fn visit_uint(&mut self, value: u64) -> (r: VisitResult)
        ensures
            final(self).log() == old(self).log().push((Event::Uint(value), r is Ok)),
    {
        self.visit_any(&Value::Uint(value))
    }

    /// Visit a signed integer value.
    fn visit_int(&mut self, value: i64) -> (r: VisitResult)
        ensures
            final(self).log() == old(self).log().push((Event::Int(value), r is Ok)),
    {
        self.visit_any(&Value::Int(value))
    }

    /// Visit a floating-point value, given by its IEEE-754 binary64 encoding.
    fn visit_float(&mut self, bits: u64) -> (r: VisitResult)
        ensures
            final(self).log() == old(self).log().push((Event::Float(bits), r is Ok)),
    {
        self.visit_any(&Value::Float(bits))
    }

    /// Visit a string value.
    fn visit_str(&mut self, value: &str) -> (r: VisitResult)
        ensures
            final(self).log() == old(self).log().push((Event::Str(value@), r is Ok)),
    {
        let s = value.to_string();
        proof {
            vstd::string::to_string_from_display_ensures_for_str(value, s);
        }
        self.visit_any(&Value::Str(s))
    }

    /// Visit an unsigned 8-bit value.
    fn visit_byte(&mut self, value: u8) -> (r: VisitResult)
        ensures
            final(self).log() == old(self).log().push((Event::Byte(value), r is Ok)),
    {
        self.visit_any(&Value::Byte(value))
    }

    /// Visit a boolean value.
    fn visit_bool(&mut self, value: bool) -> (r: VisitResult)
        ensures
            final(self).log() == old(self).log().push((Event::Bool(value), r is Ok)),
    {
        self.visit_any(&Value::Bool(value))
    }

    /// Visit a scalar value of any kind.
    fn visit_any(&mut self, value: &Value) -> (r: VisitResult)
        requires
            value.is_scalar(),
        ensures
            final(self).log() == old(self).log().push((value@[0], r is Ok)),
    ;

    /// Visit a key-value association.
    fn visit_kv(&mut self, k: &Value, v: &Value) -> (r: VisitResult)
        ensures
            final(self).log() == old(self).log().push((Event::Kv(k@, v@), r is Ok)),
    ;

    /// Visit text that was rendered before the visit.
    fn visit_fmt(&mut self, text: &str) -> (r: VisitResult)
        ensures
            final(self).log() == old(self).log().push((Event::Fmt(text@), r is Ok)),
    ;

    /// Announces that the next visited value is a struct, a tuple struct or an
    /// enum variant with the name `name`.
    fn named_type(&mut self, name: &str) -> (r: VisitResult)
        ensures
            final(self).log() == old(self).log().push((Event::NamedType(name@), r is Ok)),
    ;

    /// Begin a map: the calls up to `close_map` are key-value calls.
    fn open_map(&mut self) -> (r: VisitResult)
        ensures
            final(self).log() == old(self).log().push((Event::OpenMap, r is Ok)),
    ;

    /// Finish a map.
    fn close_map(&mut self) -> (r: VisitResult)
        ensures
            final(self).log() == old(self).log().push((Event::CloseMap, r is Ok)),
    ;

    /// Begin an ordered list: the visits up to `close_list` are its elements.
    fn open_list(&mut self) -> (r: VisitResult)
        ensures
            final(self).log() == old(self).log().push((Event::OpenList, r is Ok)),
    ;

    /// Finish a list.
    fn close_list(&mut self) -> (r: VisitResult)
        ensures
            final(self).log() == old(self).log().push((Event::CloseList, r is Ok)),
    ;

    /// Begin a struct: the calls up to `close_struct` are key-value calls,
    /// one for each field.
    fn open_struct(&mut self) -> (r: VisitResult)
        ensures
            final(self).log() == old(self).log().push((Event::OpenStruct, r is Ok)),
    ;

    /// Finish a struct.
    fn close_struct(&mut self) -> (r: VisitResult)
        ensures
            final(self).log() == old(self).log().push((Event::CloseStruct, r is Ok)),
    ;

    /// Begin a tuple: the visits up to `close_tuple` are its elements.
    fn open_tuple(&mut self) -> (r: VisitResult)
        ensures
            final(self).log() == old(self).log().push((Event::OpenTuple, r is Ok)),
    ;

    /// Finish a tuple.
    fn close_tuple(&mut self) -> (r: VisitResult)
        ensures
            final(self).log() == old(self).log().push((Event::CloseTuple, r is Ok)),
    ;
}

/// The sanctioned way to walk composite values: each helper makes the
/// opening call, the children's calls and the closing call, in that order,
/// and stops at the first error without a closing call. The helpers are
/// provided for every visitor and cannot be replaced.
pub trait VisitExt: Visit {
    /// Visits a map: `open_map`, one `visit_kv` for each pair in order, then
    /// `close_map`. The first error ends the walk and is returned, and no
    /// closing call follows it.
    fn visit_map(&mut self, pairs: &[(Value, Value)]) -> (r: VisitResult)
        ensures
            walk_from(old(self).log(), final(self).log(), map_events(pairs@), r),
    ;

    /// Visits an ordered list: `open_list`, each item by its own visit in
    /// order, then `close_list`, stopping at the first error.
    fn visit_list(&mut self, items: &[Value]) -> (r: VisitResult)
        ensures
            walk_from(old(self).log(), final(self).log(), list_events(items@), r),
    ;

    /// Visits a struct: `named_type(name)`, whose result is ignored, then
    /// `open_struct`, one `visit_kv` for each field with its name as a string
    /// key, then `close_struct`, stopping at the first error.
    fn visit_struct(&mut self, name: &str, fields: &[(String, Value)]) -> (r: VisitResult)
        ensures
            walk_from(old(self).log(), final(self).log(), struct_events(name@, fields@), r),
    ;

    /// Visits a tuple: `open_tuple`, each item by its own visit in order, then
    /// `close_tuple`, stopping at the first error.
    fn visit_tuple(&mut self, items: &[Value]) -> (r: VisitResult)
        ensures
            walk_from(old(self).log(), final(self).log(), tuple_events(items@), r),
    ;

    /// Visits a tuple struct: `named_type(name)`, whose result is ignored,
    /// then the tuple calls over `fields`, stopping at the first error.
    fn visit_tuple_struct(&mut self, name: &str, fields: &[Value]) -> (r: VisitResult)
        ensures
            walk_from(old(self).log(), final(self).log(), tuple_struct_events(name@, fields@), r),
    ;
}

impl<V: Visit> VisitExt for V {
    fn visit_map(&mut self, pairs: &[(Value, Value)]) -> (r: VisitResult) {
        walk_pairs(pairs, self)
    }

    fn visit_list(&mut self, items: &[Value]) -> (r: VisitResult) {
        walk_seq(false, items, self)
    }

    fn visit_struct(&mut self, name: &str, fields: &[(String, Value)]) -> (r: VisitResult) {
        walk_struct(name, fields, self)
    }

    fn visit_tuple(&mut self, items: &[Value]) -> (r: VisitResult) {
        walk_seq(true, items, self)
    }

    fn visit_tuple_struct(&mut self, name: &str, fields: &[Value]) -> (r: VisitResult) {
        walk_tuple_struct(name, fields, self)
    }
}

} // verus!
