//! The abstract model of backend output.
//!
//! A backend is specified by the sequence of [`Event`]s it has received,
//! not by the glyphs it prints: which separator, delimiter or styling a
//! backend chooses for an event is its own policy.  The rendering engine's
//! contract pins down exactly which events a walk appends to the log.

use vstd::prelude::*;

verus! {

/// One abstract emission received by a backend.
///
/// Text is carried as a sequence of characters; container variants come in
/// `..Begin`/`..End` pairs, and the engine guarantees that every `..Begin`
/// it emits is answered by exactly one matching `..End`, on the success and
/// on the failure exit path alike.
pub enum Event {
    /// One scalar token; the backend decides quoting and coloring.
    Scalar(Seq<char>),
    /// A scalar annotated with an explicit type tag.
    Typed(Seq<char>, Seq<char>),
    /// The "no value" marker.
    Nil,
    SetBegin,
    SetEnd,
    ArrayBegin,
    ArrayEnd,
    TupleBegin,
    TupleEnd,
    NamedTupleBegin,
    NamedTupleEnd,
    /// Opens an object body, with its optional resolved type name.
    ObjectBegin(Option<Seq<char>>),
    ObjectEnd,
    /// A field label inside an object body; the flag says whether the field
    /// is a link property, which a backend may style distinctly and prefix
    /// with `@`.
    ObjectField(Seq<char>, bool),
    /// A field label inside a named-tuple body.
    TupleField(Seq<char>),
    /// An element boundary; emitted after every element, including the
    /// last, so the backend must defer the visible separator glyph.
    Comma,
    /// The truncation marker for a capped container.
    Ellipsis,
}

/// A backend's rendering configuration, fixed for the duration of a walk.
#[derive(Clone, Copy)]
pub struct Config {
    /// Optional cap on elements rendered per container instance.
    pub max_items: Option<usize>,
    /// Whether `\r`, `\n` and `\t` inside strings are emitted literally
    /// rather than escaped.
    pub expand_strings: bool,
    /// Whether implicit object fields are rendered.
    pub implicit_properties: bool,
}

/// The view of an optional borrowed string as an optional character
/// sequence.
pub open spec fn opt_text(o: Option<&str>) -> Option<Seq<char>> {
    match o {
        Some(t) => Some(t@),
        None => None,
    }
}

} // verus!
