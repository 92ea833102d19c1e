use vstd::prelude::*;

use crate::value::Value;
use crate::visitor::{Error, Event, Step, Visit, VisitResult};

verus! {

/// A call as a `Recorder` keeps it.
#[derive(Debug, PartialEq)]
pub enum Call {
    Uint(u64),
    Int(i64),
    Float(u64),
    Str(String),
    Byte(u8),
    Bool(bool),
    Fmt(String),
    Kv(Value, Value),
    NamedType(String),
    OpenMap,
    CloseMap,
    OpenList,
    CloseList,
    OpenStruct,
    CloseStruct,
    OpenTuple,
    CloseTuple,
}

/// A visitor that keeps every call it receives, in order.
///
/// Of the scalar methods it implements only `visit_any`: the others reach it
/// through their defaults.
///
/// It answers `Ok` to every call but one: made with `failing_at(n)`, it
/// answers the call at index `n` (counting from zero) with an error.
pub struct Recorder {
    pub calls: Vec<Call>,
    pub fail_at: Option<usize>,
    pub steps: Ghost<Seq<Step>>,
}

impl Recorder {
    /// A recorder that answers every call with `Ok`.
    pub fn new() -> (r: Recorder)
        ensures
            r.calls@.len() == 0,
            r.log().len() == 0,
            r.fail_at is None,
    {
        Recorder { calls: Vec::new(), fail_at: None, steps: Ghost(Seq::empty()) }
    }

    /// A recorder that answers the call at index `n` with an error.
    pub fn failing_at(n: usize) -> (r: Recorder)
        ensures
            r.calls@.len() == 0,
            r.log().len() == 0,
            r.fail_at == Some(n),
    {
        Recorder { calls: Vec::new(), fail_at: Some(n), steps: Ghost(Seq::empty()) }
    }

    /// The answer to the next call, which is the call at index `calls.len()`.
    fn answer(&self) -> (r: VisitResult)
        ensures
            r is Err <==> self.fail_at == Some(self.calls@.len() as usize),
    {
        match self.fail_at {
            Some(n) => if n == self.calls.len() {
                Err(Error {})
            } else {
                Ok(())
            },
            None => Ok(()),
        }
    }

    fn record(&mut self, call: Call, Ghost(ev): Ghost<Event>) -> (r: VisitResult)
        ensures
            final(self).log() == old(self).log().push((ev, r is Ok)),
            final(self).calls@ == old(self).calls@.push(call),
            final(self).fail_at == old(self).fail_at,
            r is Err <==> old(self).fail_at == Some(old(self).calls@.len() as usize),
    {
        let r = self.answer();
        self.calls.push(call);
        self.steps = Ghost(self.steps@.push((ev, r is Ok)));
        r
    }
}

impl Visit for Recorder {
    open spec fn log(&self) -> Seq<Step> {
        self.steps@
    }

    fn visit_any(&mut self, value: &Value) -> (r: VisitResult) {
        match value {
            Value::Uint(x) => self.record(Call::Uint(*x), Ghost(Event::Uint(*x))),
            Value::Int(x) => self.record(Call::Int(*x), Ghost(Event::Int(*x))),
            Value::Float(x) => self.record(Call::Float(*x), Ghost(Event::Float(*x))),
            Value::Str(s) => self.record(Call::Str(s.clone()), Ghost(Event::Str(s@))),
            Value::Byte(x) => self.record(Call::Byte(*x), Ghost(Event::Byte(*x))),
            Value::Bool(x) => self.record(Call::Bool(*x), Ghost(Event::Bool(*x))),
            _ => Ok(()),
        }
    }

    fn visit_kv(&mut self, k: &Value, v: &Value) -> (r: VisitResult) {
        let kc = k.copy();
        let vc = v.copy();
        self.record(Call::Kv(kc, vc), Ghost(Event::Kv(k@, v@)))
    }

    fn visit_fmt(&mut self, text: &str) -> (r: VisitResult) {
        let s = text.to_string();
        proof {
            vstd::string::to_string_from_display_ensures_for_str(text, s);
        }
        self.record(Call::Fmt(s), Ghost(Event::Fmt(text@)))
    }

    fn named_type(&mut self, name: &str) -> (r: VisitResult) {
        let s = name.to_string();
        proof {
            vstd::string::to_string_from_display_ensures_for_str(name, s);
        }
        self.record(Call::NamedType(s), Ghost(Event::NamedType(name@)))
    }

    fn open_map(&mut self) -> (r: VisitResult) {
        self.record(Call::OpenMap, Ghost(Event::OpenMap))
    }

    fn close_map(&mut self) -> (r: VisitResult) {
        self.record(Call::CloseMap, Ghost(Event::CloseMap))
    }

    fn open_list(&mut self) -> (r: VisitResult) {
        self.record(Call::OpenList, Ghost(Event::OpenList))
    }

    fn close_list(&mut self) -> (r: VisitResult) {
        self.record(Call::CloseList, Ghost(Event::CloseList))
    }

    fn open_struct(&mut self) -> (r: VisitResult) {
        self.record(Call::OpenStruct, Ghost(Event::OpenStruct))
    }

    fn close_struct(&mut self) -> (r: VisitResult) {
        self.record(Call::CloseStruct, Ghost(Event::CloseStruct))
    }

    fn open_tuple(&mut self) -> (r: VisitResult) {
        self.record(Call::OpenTuple, Ghost(Event::OpenTuple))
    }

    fn close_tuple(&mut self) -> (r: VisitResult) {
        self.record(Call::CloseTuple, Ghost(Event::CloseTuple))
    }
}

} // verus!
