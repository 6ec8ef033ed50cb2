//! A recording backend.
//!
//! [`Recorder`] implements [`Formatter`] by storing every emission in a
//! vector, never failing; its abstract log is exactly the view of that
//! vector.  It is the reference backend: a caller can render into it and
//! inspect the precise event sequence the engine produced.

use vstd::prelude::*;
use crate::emit::{Config, Event};
use crate::formatter::Formatter;
use crate::render::lemma_prefix_concat;

verus! {

/// One recorded emission, mirroring [`Event`] with owned strings.
#[derive(Clone, Debug, PartialEq, Eq)]
pub enum RecEvent {
    Scalar(String),
    Typed(String, String),
    Nil,
    SetBegin,
    SetEnd,
    ArrayBegin,
    ArrayEnd,
    TupleBegin,
    TupleEnd,
    NamedTupleBegin,
    NamedTupleEnd,
    ObjectBegin(Option<String>),
    ObjectEnd,
    ObjectField(String, bool),
    TupleField(String),
    Comma,
    Ellipsis,
}

impl View for RecEvent {
    type V = Event;

    open spec fn view(&self) -> Event {
        match self {
            RecEvent::Scalar(s) => Event::Scalar(s@),
            RecEvent::Typed(t, s) => Event::Typed(t@, s@),
            RecEvent::Nil => Event::Nil,
            RecEvent::SetBegin => Event::SetBegin,
            RecEvent::SetEnd => Event::SetEnd,
            RecEvent::ArrayBegin => Event::ArrayBegin,
            RecEvent::ArrayEnd => Event::ArrayEnd,
            RecEvent::TupleBegin => Event::TupleBegin,
            RecEvent::TupleEnd => Event::TupleEnd,
            RecEvent::NamedTupleBegin => Event::NamedTupleBegin,
            RecEvent::NamedTupleEnd => Event::NamedTupleEnd,
            RecEvent::ObjectBegin(n) => Event::ObjectBegin(
                match n {
                    Some(t) => Some(t@),
                    None => None,
                },
            ),
            RecEvent::ObjectEnd => Event::ObjectEnd,
            RecEvent::ObjectField(n, lp) => Event::ObjectField(n@, *lp),
            RecEvent::TupleField(n) => Event::TupleField(n@),
            RecEvent::Comma => Event::Comma,
            RecEvent::Ellipsis => Event::Ellipsis,
        }
    }
}

/// A backend that records every emission and never fails.
pub struct Recorder {
    events: Vec<RecEvent>,
    max_items: Option<usize>,
    expand_strings: bool,
    implicit_properties: bool,
}

impl Recorder {
    /// An empty recorder with the given configuration.
    pub fn new(max_items: Option<usize>, expand_strings: bool, implicit_properties: bool) -> (r:
        Recorder)
        ensures
            r.emitted() == Seq::<Event>::empty(),
            r.config() == (Config { max_items, expand_strings, implicit_properties }),
    {
        let r = Recorder { events: Vec::new(), max_items, expand_strings, implicit_properties };
        proof {
            assert(r.emitted() =~= Seq::<Event>::empty());
        }
        r
    }

    /// The recorded emissions, in order.
    pub fn events(&self) -> (r: &Vec<RecEvent>)
        ensures
            r@.map_values(|e: RecEvent| e@) == self.emitted(),
    {
        &self.events
    }

    /// Append one record.
    fn rec(&mut self, e: RecEvent)
        ensures
            final(self).emitted() == old(self).emitted().push(e@),
            old(self).emitted().is_prefix_of(final(self).emitted()),
            final(self).config() == old(self).config(),
    {
        let ghost before = self.emitted();
        let ghost ev = e@;
        self.events.push(e);
        proof {
            assert(self.emitted() =~= before.push(ev));
            assert(before.push(ev) =~= before + seq![ev]);
            lemma_prefix_concat(before, seq![ev]);
        }
    }
}

impl Formatter for Recorder {
    type Error = ();

    closed spec fn emitted(&self) -> Seq<Event> {
        self.events@.map_values(|e: RecEvent| e@)
    }

    closed spec fn config(&self) -> Config {
        Config {
            max_items: self.max_items,
            expand_strings: self.expand_strings,
            implicit_properties: self.implicit_properties,
        }
    }

    fn max_items(&self) -> (r: Option<usize>) {
        self.max_items
    }

    fn expand_strings(&self) -> (r: bool) {
        self.expand_strings
    }

    fn implicit_properties(&self) -> (r: bool) {
        self.implicit_properties
    }

    fn const_scalar(&mut self, s: &str) -> (r: Result<(), ()>) {
        self.rec(RecEvent::Scalar(s.to_owned()));
        Ok(())
    }

    fn typed(&mut self, tag: &str, s: &str) -> (r: Result<(), ()>) {
        self.rec(RecEvent::Typed(tag.to_owned(), s.to_owned()));
        Ok(())
    }

    fn nil(&mut self) -> (r: Result<(), ()>) {
        self.rec(RecEvent::Nil);
        Ok(())
    }

    fn begin_set(&mut self) -> (r: Result<(), ()>) {
        self.rec(RecEvent::SetBegin);
        Ok(())
    }

    fn end_set(&mut self) -> (r: Result<(), ()>) {
        self.rec(RecEvent::SetEnd);
        Ok(())
    }

    fn begin_array(&mut self) -> (r: Result<(), ()>) {
        self.rec(RecEvent::ArrayBegin);
        Ok(())
    }

    fn end_array(&mut self) -> (r: Result<(), ()>) {
        self.rec(RecEvent::ArrayEnd);
        Ok(())
    }

    fn begin_tuple(&mut self) -> (r: Result<(), ()>) {
        self.rec(RecEvent::TupleBegin);
        Ok(())
    }

    fn end_tuple(&mut self) -> (r: Result<(), ()>) {
        self.rec(RecEvent::TupleEnd);
        Ok(())
    }

    fn begin_named_tuple(&mut self) -> (r: Result<(), ()>) {
        self.rec(RecEvent::NamedTupleBegin);
        Ok(())
    }

    fn end_named_tuple(&mut self) -> (r: Result<(), ()>) {
        self.rec(RecEvent::NamedTupleEnd);
        Ok(())
    }

    fn begin_object(&mut self, name: Option<&str>) -> (r: Result<(), ()>) {
        let owned: Option<String> = match name {
            Some(t) => Some(t.to_owned()),
            None => None,
        };
        self.rec(RecEvent::ObjectBegin(owned));
        Ok(())
    }

    fn end_object(&mut self) -> (r: Result<(), ()>) {
        self.rec(RecEvent::ObjectEnd);
        Ok(())
    }

    fn object_field(&mut self, name: &str, link_property: bool) -> (r: Result<(), ()>) {
        self.rec(RecEvent::ObjectField(name.to_owned(), link_property));
        Ok(())
    }

    fn tuple_field(&mut self, name: &str) -> (r: Result<(), ()>) {
        self.rec(RecEvent::TupleField(name.to_owned()));
        Ok(())
    }

    fn comma(&mut self) -> (r: Result<(), ()>) {
        self.rec(RecEvent::Comma);
        Ok(())
    }

    fn ellipsis(&mut self) -> (r: Result<(), ()>) {
        self.rec(RecEvent::Ellipsis);
        Ok(())
    }
}

} // verus!
