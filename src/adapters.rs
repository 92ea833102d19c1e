use vstd::prelude::*;

use std::collections::VecDeque;

use crate::value::{Value, Visitable, events_of, values_of, traces};
use crate::visitor::Event;

verus! {

/// A byte is visited with `visit_byte`.
impl Visitable for u8 {
    open spec fn events(&self) -> Seq<Event> {
        seq![Event::Byte(*self)]
    }

    fn to_value(&self) -> (r: Value) {
        Value::Byte(*self)
    }
}

/// Wider unsigned integers are visited with `visit_uint`, widened to 64 bits.
impl Visitable for u16 {
    open spec fn events(&self) -> Seq<Event> {
        seq![Event::Uint(*self as u64)]
    }

    fn to_value(&self) -> (r: Value) {
        Value::Uint(*self as u64)
    }
}

impl Visitable for u32 {
    open spec fn events(&self) -> Seq<Event> {
        seq![Event::Uint(*self as u64)]
    }

    fn to_value(&self) -> (r: Value) {
        Value::Uint(*self as u64)
    }
}

impl Visitable for u64 {
    open spec fn events(&self) -> Seq<Event> {
        seq![Event::Uint(*self)]
    }

    fn to_value(&self) -> (r: Value) {
        Value::Uint(*self)
    }
}

impl Visitable for usize {
    open spec fn events(&self) -> Seq<Event> {
        seq![Event::Uint(*self as u64)]
    }

    fn to_value(&self) -> (r: Value) {
        Value::Uint(*self as u64)
    }
}

/// Signed integers are visited with `visit_int`, widened to 64 bits.
impl Visitable for i8 {
    open spec fn events(&self) -> Seq<Event> {
        seq![Event::Int(*self as i64)]
    }

    fn to_value(&self) -> (r: Value) {
        Value::Int(*self as i64)
    }
}

impl Visitable for i16 {
    open spec fn events(&self) -> Seq<Event> {
        seq![Event::Int(*self as i64)]
    }

    fn to_value(&self) -> (r: Value) {
        Value::Int(*self as i64)
    }
}

impl Visitable for i32 {
    open spec fn events(&self) -> Seq<Event> {
        seq![Event::Int(*self as i64)]
    }

    fn to_value(&self) -> (r: Value) {
        Value::Int(*self as i64)
    }
}

impl Visitable for i64 {
    open spec fn events(&self) -> Seq<Event> {
        seq![Event::Int(*self)]
    }

    fn to_value(&self) -> (r: Value) {
        Value::Int(*self)
    }
}

impl Visitable for isize {
    open spec fn events(&self) -> Seq<Event> {
        seq![Event::Int(*self as i64)]
    }

    fn to_value(&self) -> (r: Value) {
        Value::Int(*self as i64)
    }
}

impl Visitable for bool {
    open spec fn events(&self) -> Seq<Event> {
        seq![Event::Bool(*self)]
    }

    fn to_value(&self) -> (r: Value) {
        Value::Bool(*self)
    }
}

/// A string slice is visited with `visit_str`.
impl<'a> Visitable for &'a str {
    open spec fn events(&self) -> Seq<Event> {
        seq![Event::Str((*self)@)]
    }

    fn to_value(&self) -> (r: Value) {
        let s = (*self).to_string();
        proof {
            vstd::string::to_string_from_display_ensures_for_str(*self, s);
        }
        Value::Str(s)
    }
}

/// A slice is visited as a list of its elements, in order.
impl<T: Visitable> Visitable for [T] {
    open spec fn events(&self) -> Seq<Event> {
        seq![Event::OpenList] + events_of(self@) + seq![Event::CloseList]
    }

    fn to_value(&self) -> (r: Value) {
        Value::List(values_of(self))
    }
}

/// A vector is visited as a list of its elements, in order.
impl<T: Visitable> Visitable for Vec<T> {
    open spec fn events(&self) -> Seq<Event> {
        seq![Event::OpenList] + events_of(self@) + seq![Event::CloseList]
    }

    fn to_value(&self) -> (r: Value) {
        Value::List(values_of(self.as_slice()))
    }
}

/// A double-ended queue is visited as a list of its elements, front to back.
impl<T: Visitable> Visitable for VecDeque<T> {
    open spec fn events(&self) -> Seq<Event> {
        seq![Event::OpenList] + events_of(self@) + seq![Event::CloseList]
    }

    fn to_value(&self) -> (r: Value) {
        let mut out: Vec<Value> = Vec::new();
        let mut i: usize = 0;
        while i < self.len()
            invariant
                i <= self@.len(),
                traces(out@) == events_of(self@.take(i as int)),
            decreases self@.len() - i,
        {
            let v = self[i].to_value();
            proof {
                assert(out@.push(v).drop_last() =~= out@);
                assert(self@.take(i + 1).drop_last() =~= self@.take(i as int));
            }
            out.push(v);
            i += 1;
        }
        proof {
            assert(self@.take(i as int) =~= self@);
        }
        Value::List(out)
    }
}

/// A reference is visited as what it refers to.
impl<'a, T: Visitable> Visitable for &'a T {
    open spec fn events(&self) -> Seq<Event> {
        (**self).events()
    }

    fn to_value(&self) -> (r: Value) {
        (**self).to_value()
    }
}

} // verus!
