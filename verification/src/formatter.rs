//! The backend interface consumed by the rendering engine.
//!
//! The engine is polymorphic over any [`Formatter`]; a backend reports each
//! emission's success or failure, and on failure the engine aborts the
//! remaining walk (closing any open container) and propagates the error.

use vstd::prelude::*;
use vstd::seq_lib::*;
use crate::emit::{Config, Event, opt_text};

verus! {

/// The rendering engine's error: either a backend failure, passed through
/// opaquely, or a structural defect in the input value tree (a shape paired
/// with a value sequence of a different length).
pub enum FormatError<E> {
    /// A backend call failed; the walk was aborted at that point.
    Sink(E),
    /// A shape/value length mismatch was found in the input.
    Malformed,
}

/// A rendering backend.
///
/// Each method appends one [`Event`] to the backend's abstract log and may
/// fail with a backend-defined error.  Whatever the outcome, a call never
/// erases what was already logged and never changes the configuration; on
/// success the new log is exactly the old log plus the one event.
pub trait Formatter: Sized {
    /// The backend-defined error of every emission.
    type Error;

    /// The abstract log of emissions this backend has received.
    spec fn emitted(&self) -> Seq<Event>;

    /// The backend's rendering configuration.
    spec fn config(&self) -> Config;

    /// Optional cap on elements rendered per container instance.
    fn max_items(&self) -> (r: Option<usize>)
        ensures
            r == self.config().max_items,
    ;

    /// Whether control whitespace inside strings is emitted literally.
    fn expand_strings(&self) -> (r: bool)
        ensures
            r == self.config().expand_strings,
    ;

    /// Whether implicit object fields are rendered.
    fn implicit_properties(&self) -> (r: bool)
        ensures
            r == self.config().implicit_properties,
    ;

    /// Emit one scalar token.
    fn const_scalar(&mut self, s: &str) -> (r: Result<(), Self::Error>)
        ensures
            final(self).config() == old(self).config(),
            old(self).emitted().is_prefix_of(final(self).emitted()),
            r is Ok ==> final(self).emitted() == old(self).emitted().push(
                Event::Scalar(s@),
            ),
    ;

    /// Emit a scalar annotated with an explicit type tag.
    fn typed(&mut self, tag: &str, s: &str) -> (r: Result<(), Self::Error>)
        ensures
            final(self).config() == old(self).config(),
            old(self).emitted().is_prefix_of(final(self).emitted()),
            r is Ok ==> final(self).emitted() == old(self).emitted().push(
                Event::Typed(tag@, s@),
            ),
    ;

    /// Emit the "no value" marker.
    fn nil(&mut self) -> (r: Result<(), Self::Error>)
        ensures
            final(self).config() == old(self).config(),
            old(self).emitted().is_prefix_of(final(self).emitted()),
            r is Ok ==> final(self).emitted() == old(self).emitted().push(Event::Nil),
    ;

    /// Open a set body.
    fn begin_set(&mut self) -> (r: Result<(), Self::Error>)
        ensures
            final(self).config() == old(self).config(),
            old(self).emitted().is_prefix_of(final(self).emitted()),
            r is Ok ==> final(self).emitted() == old(self).emitted().push(Event::SetBegin),
    ;

    /// Close a set body.
    fn end_set(&mut self) -> (r: Result<(), Self::Error>)
        ensures
            final(self).config() == old(self).config(),
            old(self).emitted().is_prefix_of(final(self).emitted()),
            r is Ok ==> final(self).emitted() == old(self).emitted().push(Event::SetEnd),
    ;

    /// Open an array body.
    fn begin_array(&mut self) -> (r: Result<(), Self::Error>)
        ensures
            final(self).config() == old(self).config(),
            old(self).emitted().is_prefix_of(final(self).emitted()),
            r is Ok ==> final(self).emitted() == old(self).emitted().push(Event::ArrayBegin),
    ;

    /// Close an array body.
    fn end_array(&mut self) -> (r: Result<(), Self::Error>)
        ensures
            final(self).config() == old(self).config(),
            old(self).emitted().is_prefix_of(final(self).emitted()),
            r is Ok ==> final(self).emitted() == old(self).emitted().push(Event::ArrayEnd),
    ;

    /// Open a tuple body.
    fn begin_tuple(&mut self) -> (r: Result<(), Self::Error>)
        ensures
            final(self).config() == old(self).config(),
            old(self).emitted().is_prefix_of(final(self).emitted()),
            r is Ok ==> final(self).emitted() == old(self).emitted().push(Event::TupleBegin),
    ;

    /// Close a tuple body.
    fn end_tuple(&mut self) -> (r: Result<(), Self::Error>)
        ensures
            final(self).config() == old(self).config(),
            old(self).emitted().is_prefix_of(final(self).emitted()),
            r is Ok ==> final(self).emitted() == old(self).emitted().push(Event::TupleEnd),
    ;

    /// Open a named-tuple body.
    fn begin_named_tuple(&mut self) -> (r: Result<(), Self::Error>)
        ensures
            final(self).config() == old(self).config(),
            old(self).emitted().is_prefix_of(final(self).emitted()),
            r is Ok ==> final(self).emitted() == old(self).emitted().push(
                Event::NamedTupleBegin,
            ),
    ;

    /// Close a named-tuple body.
    fn end_named_tuple(&mut self) -> (r: Result<(), Self::Error>)
        ensures
            final(self).config() == old(self).config(),
            old(self).emitted().is_prefix_of(final(self).emitted()),
            r is Ok ==> final(self).emitted() == old(self).emitted().push(
                Event::NamedTupleEnd,
            ),
    ;

    /// Open an object body, with its optional resolved type name.
    fn begin_object(&mut self, name: Option<&str>) -> (r: Result<(), Self::Error>)
        ensures
            final(self).config() == old(self).config(),
            old(self).emitted().is_prefix_of(final(self).emitted()),
            r is Ok ==> final(self).emitted() == old(self).emitted().push(
                Event::ObjectBegin(opt_text(name)),
            ),
    ;

    /// Close an object body.
    fn end_object(&mut self) -> (r: Result<(), Self::Error>)
        ensures
            final(self).config() == old(self).config(),
            old(self).emitted().is_prefix_of(final(self).emitted()),
            r is Ok ==> final(self).emitted() == old(self).emitted().push(Event::ObjectEnd),
    ;

    /// Emit a field label inside an object body, with its link-property
    /// styling flag.
    fn object_field(&mut self, name: &str, link_property: bool) -> (r: Result<
        (),
        Self::Error,
    >)
        ensures
            final(self).config() == old(self).config(),
            old(self).emitted().is_prefix_of(final(self).emitted()),
            r is Ok ==> final(self).emitted() == old(self).emitted().push(
                Event::ObjectField(name@, link_property),
            ),
    ;

    /// Emit a field label inside a named-tuple body.
    fn tuple_field(&mut self, name: &str) -> (r: Result<(), Self::Error>)
        ensures
            final(self).config() == old(self).config(),
            old(self).emitted().is_prefix_of(final(self).emitted()),
            r is Ok ==> final(self).emitted() == old(self).emitted().push(
                Event::TupleField(name@),
            ),
    ;

    /// Signal an element boundary; called after every element, including
    /// the last.
    fn comma(&mut self) -> (r: Result<(), Self::Error>)
        ensures
            final(self).config() == old(self).config(),
            old(self).emitted().is_prefix_of(final(self).emitted()),
            r is Ok ==> final(self).emitted() == old(self).emitted().push(Event::Comma),
    ;

    /// Emit the truncation marker.
    fn ellipsis(&mut self) -> (r: Result<(), Self::Error>)
        ensures
            final(self).config() == old(self).config(),
            old(self).emitted().is_prefix_of(final(self).emitted()),
            r is Ok ==> final(self).emitted() == old(self).emitted().push(Event::Ellipsis),
    ;
}

} // verus!
