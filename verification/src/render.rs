//! The recursive rendering engine.
//!
//! [`FormatExt::format`] walks a value tree once, dispatching on the
//! variant, and drives a caller-supplied [`Formatter`].  Its contract is
//! exact: a successful walk appends precisely [`value_events`] to the
//! backend's log, so the whole observable behaviour of the engine is a
//! function of the value and the backend configuration.  A backend failure
//! aborts the walk — after closing every container that was opened — and a
//! shape paired with a value sequence of a different length is reported as
//! [`FormatError::Malformed`], never silently truncated.

use vstd::prelude::*;
use vstd::seq_lib::*;
use crate::emit::{Config, Event, opt_text};
use crate::escape::{bytes_escaped, format_bytes, format_string, str_eq, string_escaped};
use crate::formatter::{FormatError, Formatter};
use crate::numbers::{bigint_canon, decimal_canon, format_bigint, format_decimal, i64_text, int_text};
use crate::value::{Field, Value, wf_list, wf_opt_list};

verus! {

/// The events of the first `n` elements of `items`, each followed by an
/// element boundary.
pub open spec fn list_events(items: Seq<Value>, n: int, cfg: Config) -> Seq<Event>
    decreases items, n,
{
    if n <= 0 || n > items.len() {
        Seq::empty()
    } else {
        list_events(items, n - 1, cfg) + value_events(items[n - 1], cfg) + seq![Event::Comma]
    }
}

/// The number of elements a capped container renders: the cap if one is
/// configured and smaller than the length, else the length.
pub open spec fn capped_len(len: int, cfg: Config) -> int {
    match cfg.max_items {
        Some(limit) => if limit < len {
            limit as int
        } else {
            len
        },
        None => len,
    }
}

/// The body events of a `Set` or `Array`: elements up to the cap, then one
/// truncation marker if any were cut.  Truncation applies per container
/// instance, never as a global budget.
pub open spec fn capped_items_events(items: Seq<Value>, cfg: Config) -> Seq<Event>
    decreases items, items.len() + 1,
{
    let body = list_events(items, capped_len(items.len() as int, cfg), cfg);
    if capped_len(items.len() as int, cfg) < items.len() {
        body + seq![Event::Ellipsis]
    } else {
        body
    }
}

/// The events of an optional value: the value's events, or the nil marker.
pub open spec fn opt_value_events(o: Option<Value>, cfg: Config) -> Seq<Event>
    decreases o,
{
    match o {
        Some(v) => value_events(v, cfg),
        None => seq![Event::Nil],
    }
}

/// Whether field `i` of `shape` is rendered in an object body.
pub open spec fn field_rendered(shape: Seq<Field>, i: int, implicit_ok: bool) -> bool {
    !shape[i].implicit || implicit_ok
}

/// How many of the first `n` fields of `shape` are rendered.
pub open spec fn rendered_count(shape: Seq<Field>, n: int, implicit_ok: bool) -> int
    decreases n,
{
    if n <= 0 {
        0
    } else {
        rendered_count(shape, n - 1, implicit_ok) + if field_rendered(shape, n - 1, implicit_ok) {
            1int
        } else {
            0int
        }
    }
}

/// The events of the first `n` object fields: for each rendered field, its
/// label with the link-property flag, its value, and a boundary.
pub open spec fn object_fields_events(
    shape: Seq<Field>,
    fields: Seq<Option<Value>>,
    n: int,
    implicit_ok: bool,
    cfg: Config,
) -> Seq<Event>
    decreases fields, n,
{
    if n <= 0 || n > fields.len() || n > shape.len() {
        Seq::empty()
    } else {
        let head = object_fields_events(shape, fields, n - 1, implicit_ok, cfg);
        if field_rendered(shape, n - 1, implicit_ok) {
            head + seq![Event::ObjectField(shape[n - 1].name@, shape[n - 1].link_property)]
                + opt_value_events(fields[n - 1], cfg) + seq![Event::Comma]
        } else {
            head
        }
    }
}

/// Whether `i` is the first field of `shape` named `name`.
pub open spec fn is_first_named(shape: Seq<Field>, name: Seq<char>, i: int) -> bool {
    &&& 0 <= i < shape.len()
    &&& shape[i].name@ == name
    &&& forall|j: int| 0 <= j < i ==> (#[trigger] shape[j]).name@ != name
}

/// Whether any field of `shape` is named `name`.
pub open spec fn has_named(shape: Seq<Field>, name: Seq<char>) -> bool {
    exists|i: int| is_first_named(shape, name, i)
}

/// The index of the first field of `shape` named `name`.
pub open spec fn first_named(shape: Seq<Field>, name: Seq<char>) -> int {
    choose|i: int| is_first_named(shape, name, i)
}

/// The first match is unique, and `first_named` returns it.
pub proof fn lemma_first_named(shape: Seq<Field>, name: Seq<char>, i: int)
    requires
        is_first_named(shape, name, i),
    ensures
        has_named(shape, name),
        first_named(shape, name) == i,
{
    assert(has_named(shape, name));
    let j = first_named(shape, name);
    assert(is_first_named(shape, name, j));
    if i < j {
        assert(shape[i].name@ != name);
    } else if j < i {
        assert(shape[j].name@ != name);
    }
}

/// The resolved type name of an object: the value paired with the first
/// field named `__tname__`, if that value is a string.
pub open spec fn object_type_name(shape: Seq<Field>, fields: Seq<Option<Value>>) -> Option<
    Seq<char>,
> {
    if has_named(shape, "__tname__"@) {
        match fields[first_named(shape, "__tname__"@)] {
            Some(Value::Str(s)) => Some(s@),
            _ => None,
        }
    } else {
        None
    }
}

/// The fallback events of an object body: when no field was rendered and a
/// field named `id` exists, that one field is rendered anyway, with a
/// plain label.
pub open spec fn object_fallback_events(
    shape: Seq<Field>,
    fields: Seq<Option<Value>>,
    implicit_ok: bool,
    cfg: Config,
) -> Seq<Event>
    decreases fields, fields.len() + 1,
{
    if rendered_count(shape, shape.len() as int, implicit_ok) == 0 && has_named(shape, "id"@)
        && 0 <= first_named(shape, "id"@) < fields.len() {
        let i = first_named(shape, "id"@);
        seq![Event::ObjectField(shape[i].name@, false)] + opt_value_events(fields[i], cfg)
            + seq![Event::Comma]
    } else {
        Seq::empty()
    }
}

/// The events of the first `n` named-tuple fields: label, value, boundary
/// for every field, with no truncation.
pub open spec fn named_tuple_events(
    shape: Seq<Field>,
    fields: Seq<Value>,
    n: int,
    cfg: Config,
) -> Seq<Event>
    decreases fields, n,
{
    if n <= 0 || n > fields.len() || n > shape.len() {
        Seq::empty()
    } else {
        named_tuple_events(shape, fields, n - 1, cfg) + seq![Event::TupleField(
            shape[n - 1].name@,
        )] + value_events(fields[n - 1], cfg) + seq![Event::Comma]
    }
}

/// The exact event sequence of one value under configuration `cfg`.
///
/// `Set` and `Array` truncate at the configured cap and mark the cut with
/// one ellipsis; `Tuple` and `NamedTuple` always render every element,
/// an intentional asymmetry that callers may rely on.
pub open spec fn value_events(v: Value, cfg: Config) -> Seq<Event>
    decreases v, 0int,
{
    match v {
        Value::Nothing => seq![Event::Scalar("Nothing"@)],
        Value::Uuid(u) => seq![Event::Scalar(u@)],
        Value::Str(s) => seq![Event::Scalar(string_escaped(s@, cfg.expand_strings))],
        Value::Bytes(b) => seq![Event::Scalar(bytes_escaped(b@))],
        Value::Int16(x) => seq![Event::Scalar(int_text(x as int))],
        Value::Int32(x) => seq![Event::Scalar(int_text(x as int))],
        Value::Int64(x) => seq![Event::Scalar(int_text(x as int))],
        Value::Float32(t) => seq![Event::Scalar(t@)],
        Value::Float64(t) => seq![Event::Scalar(t@)],
        Value::BigInt(t) => seq![Event::Scalar(bigint_canon(t@))],
        Value::Decimal(t) => seq![Event::Scalar(decimal_canon(t@))],
        Value::Bool(x) => seq![Event::Scalar(if x {
            "true"@
        } else {
            "false"@
        })],
        Value::Datetime(t) => seq![Event::Typed("datetime"@, t@)],
        Value::LocalDatetime(t) => seq![Event::Typed("cal::local_datetime"@, t@)],
        Value::LocalDate(t) => seq![Event::Typed("cal::local_date"@, t@)],
        Value::LocalTime(t) => seq![Event::Typed("cal::local_time"@, t@)],
        Value::Duration(t) => seq![Event::Typed("duration"@, t@)],
        Value::Json(t) => seq![Event::Scalar(t@)],
        Value::Enum(l) => seq![Event::Scalar(l@)],
        Value::SetOf(items) => seq![Event::SetBegin] + capped_items_events(items@, cfg)
            + seq![Event::SetEnd],
        Value::Array(items) => seq![Event::ArrayBegin] + capped_items_events(items@, cfg)
            + seq![Event::ArrayEnd],
        Value::Tuple(items) => seq![Event::TupleBegin] + list_events(
            items@,
            items@.len() as int,
            cfg,
        ) + seq![Event::TupleEnd],
        Value::NamedTuple { shape, fields } => seq![Event::NamedTupleBegin] + named_tuple_events(
            shape.elements@,
            fields@,
            fields@.len() as int,
            cfg,
        ) + seq![Event::NamedTupleEnd],
        Value::Object { shape, fields } => seq![Event::ObjectBegin(
            object_type_name(shape.elements@, fields@),
        )] + object_fields_events(
            shape.elements@,
            fields@,
            fields@.len() as int,
            cfg.implicit_properties,
            cfg,
        ) + object_fallback_events(shape.elements@, fields@, cfg.implicit_properties, cfg)
            + seq![Event::ObjectEnd],
    }
}

/// Prefixes compose transitively.
pub proof fn lemma_prefix_trans(a: Seq<Event>, b: Seq<Event>, c: Seq<Event>)
    requires
        a.is_prefix_of(b),
        b.is_prefix_of(c),
    ensures
        a.is_prefix_of(c),
{
    assert(a =~= c.subrange(0, a.len() as int));
}

/// A sequence is a prefix of itself extended by anything.
pub proof fn lemma_prefix_concat(a: Seq<Event>, b: Seq<Event>)
    ensures
        a.is_prefix_of(a + b),
{
    assert(a =~= (a + b).subrange(0, a.len() as int));
}

/// The index of the first field of `elements` whose name is `name`.
fn find_first_named(elements: &Vec<Field>, name: &str) -> (r: Option<usize>)
    ensures
        match r {
            Some(i) => is_first_named(elements@, name@, i as int),
            None => !has_named(elements@, name@),
        },
{
    let mut i: usize = 0;
    while i < elements.len()
        invariant
            i <= elements@.len(),
            forall|j: int| 0 <= j < i ==> (#[trigger] elements@[j]).name@ != name@,
        decreases elements@.len() - i,
    {
        if str_eq(elements[i].name.as_str(), name) {
            return Some(i);
        }
        i = i + 1;
    }
    proof {
        if has_named(elements@, name@) {
            let w = choose|k: int| is_first_named(elements@, name@, k);
            assert(elements@[w].name@ != name@);
        }
    }
    None
}

/// Rendering of a tree, polymorphic over the backend.
pub trait FormatExt {
    /// The exact event sequence a successful render appends to the
    /// backend's log.
    spec fn render_events(&self, cfg: Config) -> Seq<Event>;

    /// Structural well-formedness of the rendered tree.
    spec fn render_wf(&self) -> bool;

    /// Walk `self` once, driving `prn`.
    ///
    /// On success the backend's log has grown by exactly
    /// `self.render_events(..)`; the log only ever grows, the
    /// configuration never changes, and a `Malformed` error is returned
    /// only for a tree that is not well-formed (a backend failure is
    /// passed through as `Sink`).
    fn format<F: Formatter>(&self, prn: &mut F) -> (r: Result<(), FormatError<F::Error>>)
        ensures
            final(prn).config() == old(prn).config(),
            old(prn).emitted().is_prefix_of(final(prn).emitted()),
            r is Ok ==> final(prn).emitted() == old(prn).emitted() + self.render_events(
                old(prn).config(),
            ),
            r matches Err(FormatError::Malformed) ==> !self.render_wf(),
    ;
}

impl FormatExt for Option<Value> {
    open spec fn render_events(&self, cfg: Config) -> Seq<Event> {
        opt_value_events(*self, cfg)
    }

    open spec fn render_wf(&self) -> bool {
        match self {
            Some(v) => v.wf(),
            None => true,
        }
    }

    fn format<F: Formatter>(&self, prn: &mut F) -> (r: Result<(), FormatError<F::Error>>)
        decreases self,
    {
        let ghost e0 = prn.emitted();
        let ghost cfg = prn.config();
        match self {
            Some(v) => {
                let r = v.format(prn);
                proof {
                    assert(self.render_events(cfg) == v.render_events(cfg));
                }
                r
            },
            None => {
                match prn.nil() {
                    Ok(()) => {
                        proof {
                            assert(prn.emitted() =~= e0 + self.render_events(cfg));
                        }
                        Ok(())
                    },
                    Err(e) => Err(FormatError::Sink(e)),
                }
            },
        }
    }
}

/// Render the elements of a capped container: elements up to the backend's
/// cap, a boundary after each, and one truncation marker if any were cut.
fn format_capped_body<F: Formatter>(items: &Vec<Value>, prn: &mut F) -> (r: Result<
    (),
    FormatError<F::Error>,
>)
    ensures
        final(prn).config() == old(prn).config(),
        old(prn).emitted().is_prefix_of(final(prn).emitted()),
        r is Ok ==> final(prn).emitted() == old(prn).emitted() + capped_items_events(
            items@,
            old(prn).config(),
        ),
        r matches Err(FormatError::Malformed) ==> !wf_list(items@),
    decreases items@,
{
    let ghost e0 = prn.emitted();
    let ghost cfg = prn.config();
    let limit_opt = prn.max_items();
    let n = items.len();
    let count: usize = match limit_opt {
        Some(l) => if l < n {
            l
        } else {
            n
        },
        None => n,
    };
    assert(count as int == capped_len(items@.len() as int, cfg));
    let mut i: usize = 0;
    let mut failed: Option<FormatError<F::Error>> = None;
    while i < count && failed.is_none()
        invariant
            n == items@.len(),
            count <= n,
            count as int == capped_len(n as int, cfg),
            i <= count,
            prn.config() == cfg,
            failed is None ==> prn.emitted() == e0 + list_events(items@, i as int, cfg),
            failed is Some ==> e0.is_prefix_of(prn.emitted()),
            failed matches Some(FormatError::Malformed) ==> !wf_list(items@),
        decreases count - i,
    {
        match items[i].format(prn) {
            Ok(()) => {
                match prn.comma() {
                    Ok(()) => {},
                    Err(e) => {
                        failed = Some(FormatError::Sink(e));
                    },
                }
            },
            Err(e) => {
                proof {
                    if let FormatError::Malformed = e {
                        assert(!(items@[i as int].wf()));
                    }
                }
                failed = Some(e);
            },
        }
        i = i + 1;
        proof {
            if failed is None {
                assert(prn.emitted() =~= e0 + list_events(items@, i as int, cfg));
            } else {
                lemma_prefix_trans(e0, e0 + list_events(items@, i as int - 1, cfg), prn.emitted());
            }
        }
    }
    let ghost e_loop = prn.emitted();
    proof {
        if failed is None {
            lemma_prefix_concat(e0, list_events(items@, count as int, cfg));
        }
    }
    if failed.is_none() && count < n {
        match prn.ellipsis() {
            Ok(()) => {},
            Err(e) => {
                failed = Some(FormatError::Sink(e));
            },
        }
    }
    proof {
        if prn.emitted() == e_loop {
            assert(e_loop =~= prn.emitted().subrange(0, e_loop.len() as int));
        }
        lemma_prefix_trans(e0, e_loop, prn.emitted());
    }
    match failed {
        None => {
            proof {
                assert(prn.emitted() =~= e0 + capped_items_events(items@, cfg));
            }
            Ok(())
        },
        Some(e) => Err(e),
    }
}

/// Render every element of a tuple body, a boundary after each; the cap is
/// ignored by design.
fn format_all_body<F: Formatter>(items: &Vec<Value>, prn: &mut F) -> (r: Result<
    (),
    FormatError<F::Error>,
>)
    ensures
        final(prn).config() == old(prn).config(),
        old(prn).emitted().is_prefix_of(final(prn).emitted()),
        r is Ok ==> final(prn).emitted() == old(prn).emitted() + list_events(
            items@,
            items@.len() as int,
            old(prn).config(),
        ),
        r matches Err(FormatError::Malformed) ==> !wf_list(items@),
    decreases items@,
{
    let ghost e0 = prn.emitted();
    let ghost cfg = prn.config();
    let n = items.len();
    let mut i: usize = 0;
    let mut failed: Option<FormatError<F::Error>> = None;
    while i < n && failed.is_none()
        invariant
            n == items@.len(),
            i <= n,
            prn.config() == cfg,
            failed is None ==> prn.emitted() == e0 + list_events(items@, i as int, cfg),
            failed is Some ==> e0.is_prefix_of(prn.emitted()),
            failed matches Some(FormatError::Malformed) ==> !wf_list(items@),
        decreases n - i,
    {
        match items[i].format(prn) {
            Ok(()) => {
                match prn.comma() {
                    Ok(()) => {},
                    Err(e) => {
                        failed = Some(FormatError::Sink(e));
                    },
                }
            },
            Err(e) => {
                proof {
                    if let FormatError::Malformed = e {
                        assert(!(items@[i as int].wf()));
                    }
                }
                failed = Some(e);
            },
        }
        i = i + 1;
        proof {
            if failed is None {
                assert(prn.emitted() =~= e0 + list_events(items@, i as int, cfg));
            } else {
                lemma_prefix_trans(e0, e0 + list_events(items@, i as int - 1, cfg), prn.emitted());
            }
        }
    }
    match failed {
        None => Ok(()),
        Some(e) => Err(e),
    }
}

/// Render a named-tuple body: every field's label, value and boundary.
fn format_named_body<F: Formatter>(
    elements: &Vec<Field>,
    fields: &Vec<Value>,
    prn: &mut F,
) -> (r: Result<(), FormatError<F::Error>>)
    requires
        elements@.len() == fields@.len(),
    ensures
        final(prn).config() == old(prn).config(),
        old(prn).emitted().is_prefix_of(final(prn).emitted()),
        r is Ok ==> final(prn).emitted() == old(prn).emitted() + named_tuple_events(
            elements@,
            fields@,
            fields@.len() as int,
            old(prn).config(),
        ),
        r matches Err(FormatError::Malformed) ==> !wf_list(fields@),
    decreases fields@,
{
    let ghost e0 = prn.emitted();
    let ghost cfg = prn.config();
    let n = fields.len();
    let mut i: usize = 0;
    let mut failed: Option<FormatError<F::Error>> = None;
    while i < n && failed.is_none()
        invariant
            n == fields@.len(),
            elements@.len() == fields@.len(),
            i <= n,
            prn.config() == cfg,
            failed is None ==> prn.emitted() == e0 + named_tuple_events(
                elements@,
                fields@,
                i as int,
                cfg,
            ),
            failed is Some ==> e0.is_prefix_of(prn.emitted()),
            failed matches Some(FormatError::Malformed) ==> !wf_list(fields@),
        decreases n - i,
    {
        match prn.tuple_field(elements[i].name.as_str()) {
            Ok(()) => {
                match fields[i].format(prn) {
                    Ok(()) => {
                        match prn.comma() {
                            Ok(()) => {},
                            Err(e) => {
                                failed = Some(FormatError::Sink(e));
                            },
                        }
                    },
                    Err(e) => {
                        proof {
                            if let FormatError::Malformed = e {
                                assert(!(fields@[i as int].wf()));
                            }
                        }
                        failed = Some(e);
                    },
                }
            },
            Err(e) => {
                failed = Some(FormatError::Sink(e));
            },
        }
        i = i + 1;
        proof {
            if failed is None {
                assert(prn.emitted() =~= e0 + named_tuple_events(
                    elements@,
                    fields@,
                    i as int,
                    cfg,
                ));
            } else {
                lemma_prefix_trans(
                    e0,
                    e0 + named_tuple_events(elements@, fields@, i as int - 1, cfg),
                    prn.emitted(),
                );
            }
        }
    }
    match failed {
        None => Ok(()),
        Some(e) => Err(e),
    }
}

/// Render an object body: each rendered field's label (with its
/// link-property flag), value and boundary, skipping implicit fields
/// unless the backend asks for them; if nothing was rendered and an `id`
/// field exists, render that single field with a plain label.
fn format_object_body<F: Formatter>(
    elements: &Vec<Field>,
    fields: &Vec<Option<Value>>,
    prn: &mut F,
) -> (r: Result<(), FormatError<F::Error>>)
    requires
        elements@.len() == fields@.len(),
    ensures
        final(prn).config() == old(prn).config(),
        old(prn).emitted().is_prefix_of(final(prn).emitted()),
        r is Ok ==> final(prn).emitted() == old(prn).emitted() + object_fields_events(
            elements@,
            fields@,
            fields@.len() as int,
            old(prn).config().implicit_properties,
            old(prn).config(),
        ) + object_fallback_events(
            elements@,
            fields@,
            old(prn).config().implicit_properties,
            old(prn).config(),
        ),
        r matches Err(FormatError::Malformed) ==> !wf_opt_list(fields@),
    decreases fields@,
{
    let ghost e0 = prn.emitted();
    let ghost cfg = prn.config();
    let implicit_ok = prn.implicit_properties();
    let n = fields.len();
    let mut i: usize = 0;
    let mut rendered: usize = 0;
    let mut failed: Option<FormatError<F::Error>> = None;
    while i < n && failed.is_none()
        invariant
            n == fields@.len(),
            elements@.len() == fields@.len(),
            i <= n,
            rendered <= i,
            implicit_ok == cfg.implicit_properties,
            prn.config() == cfg,
            rendered as int == rendered_count(elements@, i as int, cfg.implicit_properties),
            failed is None ==> prn.emitted() == e0 + object_fields_events(
                elements@,
                fields@,
                i as int,
                cfg.implicit_properties,
                cfg,
            ),
            failed is Some ==> e0.is_prefix_of(prn.emitted()),
            failed matches Some(FormatError::Malformed) ==> !wf_opt_list(fields@),
        decreases n - i,
    {
        let fld = &elements[i];
        if !fld.implicit || implicit_ok {
            match prn.object_field(fld.name.as_str(), fld.link_property) {
                Ok(()) => {
                    match fields[i].format(prn) {
                        Ok(()) => {
                            match prn.comma() {
                                Ok(()) => {},
                                Err(e) => {
                                    failed = Some(FormatError::Sink(e));
                                },
                            }
                        },
                        Err(e) => {
                            proof {
                                if let FormatError::Malformed = e {
                                    assert(match fields@[i as int] {
                                        Some(v) => !v.wf(),
                                        None => false,
                                    });
                                }
                            }
                            failed = Some(e);
                        },
                    }
                },
                Err(e) => {
                    failed = Some(FormatError::Sink(e));
                },
            }
            rendered = rendered + 1;
        }
        i = i + 1;
        proof {
            if failed is None {
                assert(prn.emitted() =~= e0 + object_fields_events(
                    elements@,
                    fields@,
                    i as int,
                    cfg.implicit_properties,
                    cfg,
                ));
            } else {
                lemma_prefix_trans(
                    e0,
                    e0 + object_fields_events(
                        elements@,
                        fields@,
                        i as int - 1,
                        cfg.implicit_properties,
                        cfg,
                    ),
                    prn.emitted(),
                );
            }
        }
    }
    let ghost mid = e0 + object_fields_events(
        elements@,
        fields@,
        fields@.len() as int,
        cfg.implicit_properties,
        cfg,
    );
    if failed.is_none() && rendered == 0 {
        match find_first_named(elements, "id") {
            Some(idx) => {
                proof {
                    lemma_first_named(elements@, "id"@, idx as int);
                }
                match prn.object_field(elements[idx].name.as_str(), false) {
                    Ok(()) => {
                        match fields[idx].format(prn) {
                            Ok(()) => {
                                match prn.comma() {
                                    Ok(()) => {},
                                    Err(e) => {
                                        failed = Some(FormatError::Sink(e));
                                    },
                                }
                            },
                            Err(e) => {
                                proof {
                                    if let FormatError::Malformed = e {
                                        assert(match fields@[idx as int] {
                                            Some(v) => !v.wf(),
                                            None => false,
                                        });
                                    }
                                }
                                failed = Some(e);
                            },
                        }
                    },
                    Err(e) => {
                        failed = Some(FormatError::Sink(e));
                    },
                }
                proof {
                    if failed is Some {
                        lemma_prefix_trans(e0, mid, prn.emitted());
                    }
                }
            },
            None => {},
        }
    }
    match failed {
        None => {
            proof {
                assert(prn.emitted() =~= e0 + object_fields_events(
                    elements@,
                    fields@,
                    fields@.len() as int,
                    cfg.implicit_properties,
                    cfg,
                ) + object_fallback_events(elements@, fields@, cfg.implicit_properties, cfg));
            }
            Ok(())
        },
        Some(e) => Err(e),
    }
}

impl FormatExt for Value {
    open spec fn render_events(&self, cfg: Config) -> Seq<Event> {
        value_events(*self, cfg)
    }

    open spec fn render_wf(&self) -> bool {
        self.wf()
    }

    fn format<F: Formatter>(&self, prn: &mut F) -> (r: Result<(), FormatError<F::Error>>)
        decreases self,
    {
        let ghost e0 = prn.emitted();
        let ghost cfg = prn.config();
        match self {
            Value::Nothing => {
                match prn.const_scalar("Nothing") {
                    Ok(()) => {
                        proof {
                            assert(prn.emitted() =~= e0 + value_events(*self, cfg));
                        }
                        Ok(())
                    },
                    Err(e) => Err(FormatError::Sink(e)),
                }
            },
            Value::Uuid(u) => {
                match prn.const_scalar(u.as_str()) {
                    Ok(()) => {
                        proof {
                            assert(prn.emitted() =~= e0 + value_events(*self, cfg));
                        }
                        Ok(())
                    },
                    Err(e) => Err(FormatError::Sink(e)),
                }
            },
            Value::Str(s) => {
                let expanded = prn.expand_strings();
                let t = format_string(s.as_str(), expanded);
                match prn.const_scalar(t.as_str()) {
                    Ok(()) => {
                        proof {
                            assert(prn.emitted() =~= e0 + value_events(*self, cfg));
                        }
                        Ok(())
                    },
                    Err(e) => Err(FormatError::Sink(e)),
                }
            },
            Value::Bytes(b) => {
                let t = format_bytes(b.as_slice());
                match prn.const_scalar(t.as_str()) {
                    Ok(()) => {
                        proof {
                            assert(prn.emitted() =~= e0 + value_events(*self, cfg));
                        }
                        Ok(())
                    },
                    Err(e) => Err(FormatError::Sink(e)),
                }
            },
            Value::Int16(x) => {
                let t = i64_text(*x as i64);
                match prn.const_scalar(t.as_str()) {
                    Ok(()) => {
                        proof {
                            assert(prn.emitted() =~= e0 + value_events(*self, cfg));
                        }
                        Ok(())
                    },
                    Err(e) => Err(FormatError::Sink(e)),
                }
            },
            Value::Int32(x) => {
                let t = i64_text(*x as i64);
                match prn.const_scalar(t.as_str()) {
                    Ok(()) => {
                        proof {
                            assert(prn.emitted() =~= e0 + value_events(*self, cfg));
                        }
                        Ok(())
                    },
                    Err(e) => Err(FormatError::Sink(e)),
                }
            },
            Value::Int64(x) => {
                let t = i64_text(*x);
                match prn.const_scalar(t.as_str()) {
                    Ok(()) => {
                        proof {
                            assert(prn.emitted() =~= e0 + value_events(*self, cfg));
                        }
                        Ok(())
                    },
                    Err(e) => Err(FormatError::Sink(e)),
                }
            },
            Value::Float32(t) => {
                match prn.const_scalar(t.as_str()) {
                    Ok(()) => {
                        proof {
                            assert(prn.emitted() =~= e0 + value_events(*self, cfg));
                        }
                        Ok(())
                    },
                    Err(e) => Err(FormatError::Sink(e)),
                }
            },
            Value::Float64(t) => {
                match prn.const_scalar(t.as_str()) {
                    Ok(()) => {
                        proof {
                            assert(prn.emitted() =~= e0 + value_events(*self, cfg));
                        }
                        Ok(())
                    },
                    Err(e) => Err(FormatError::Sink(e)),
                }
            },
            Value::BigInt(t) => {
                let c = format_bigint(t.as_str());
                match prn.const_scalar(c.as_str()) {
                    Ok(()) => {
                        proof {
                            assert(prn.emitted() =~= e0 + value_events(*self, cfg));
                        }
                        Ok(())
                    },
                    Err(e) => Err(FormatError::Sink(e)),
                }
            },
            Value::Decimal(t) => {
                let c = format_decimal(t.as_str());
                match prn.const_scalar(c.as_str()) {
                    Ok(()) => {
                        proof {
                            assert(prn.emitted() =~= e0 + value_events(*self, cfg));
                        }
                        Ok(())
                    },
                    Err(e) => Err(FormatError::Sink(e)),
                }
            },
            Value::Bool(x) => {
                let t: &str = if *x {
                    "true"
                } else {
                    "false"
                };
                match prn.const_scalar(t) {
                    Ok(()) => {
                        proof {
                            assert(prn.emitted() =~= e0 + value_events(*self, cfg));
                        }
                        Ok(())
                    },
                    Err(e) => Err(FormatError::Sink(e)),
                }
            },
            Value::Datetime(t) => {
                match prn.typed("datetime", t.as_str()) {
                    Ok(()) => {
                        proof {
                            assert(prn.emitted() =~= e0 + value_events(*self, cfg));
                        }
                        Ok(())
                    },
                    Err(e) => Err(FormatError::Sink(e)),
                }
            },
            Value::LocalDatetime(t) => {
                match prn.typed("cal::local_datetime", t.as_str()) {
                    Ok(()) => {
                        proof {
                            assert(prn.emitted() =~= e0 + value_events(*self, cfg));
                        }
                        Ok(())
                    },
                    Err(e) => Err(FormatError::Sink(e)),
                }
            },
            Value::LocalDate(t) => {
                match prn.typed("cal::local_date", t.as_str()) {
                    Ok(()) => {
                        proof {
                            assert(prn.emitted() =~= e0 + value_events(*self, cfg));
                        }
                        Ok(())
                    },
                    Err(e) => Err(FormatError::Sink(e)),
                }
            },
            Value::LocalTime(t) => {
                match prn.typed("cal::local_time", t.as_str()) {
                    Ok(()) => {
                        proof {
                            assert(prn.emitted() =~= e0 + value_events(*self, cfg));
                        }
                        Ok(())
                    },
                    Err(e) => Err(FormatError::Sink(e)),
                }
            },
            Value::Duration(t) => {
                match prn.typed("duration", t.as_str()) {
                    Ok(()) => {
                        proof {
                            assert(prn.emitted() =~= e0 + value_events(*self, cfg));
                        }
                        Ok(())
                    },
                    Err(e) => Err(FormatError::Sink(e)),
                }
            },
            Value::Json(t) => {
                match prn.const_scalar(t.as_str()) {
                    Ok(()) => {
                        proof {
                            assert(prn.emitted() =~= e0 + value_events(*self, cfg));
                        }
                        Ok(())
                    },
                    Err(e) => Err(FormatError::Sink(e)),
                }
            },
            Value::Enum(l) => {
                match prn.const_scalar(l.as_str()) {
                    Ok(()) => {
                        proof {
                            assert(prn.emitted() =~= e0 + value_events(*self, cfg));
                        }
                        Ok(())
                    },
                    Err(e) => Err(FormatError::Sink(e)),
                }
            },
            Value::SetOf(items) => {
                match prn.begin_set() {
                    Ok(()) => {},
                    Err(e) => {
                        return Err(FormatError::Sink(e));
                    },
                }
                let ghost e1 = prn.emitted();
                let body_r = format_capped_body(items, prn);
                let ghost e2 = prn.emitted();
                let end_r = prn.end_set();
                proof {
                    lemma_prefix_trans(e0, e1, e2);
                    lemma_prefix_trans(e0, e2, prn.emitted());
                }
                match body_r {
                    Ok(()) => {
                        match end_r {
                            Ok(()) => {
                                proof {
                                    assert(prn.emitted() =~= e0 + value_events(*self, cfg));
                                }
                                Ok(())
                            },
                            Err(e) => Err(FormatError::Sink(e)),
                        }
                    },
                    Err(e) => Err(e),
                }
            },
            Value::Array(items) => {
                match prn.begin_array() {
                    Ok(()) => {},
                    Err(e) => {
                        return Err(FormatError::Sink(e));
                    },
                }
                let ghost e1 = prn.emitted();
                let body_r = format_capped_body(items, prn);
                let ghost e2 = prn.emitted();
                let end_r = prn.end_array();
                proof {
                    lemma_prefix_trans(e0, e1, e2);
                    lemma_prefix_trans(e0, e2, prn.emitted());
                }
                match body_r {
                    Ok(()) => {
                        match end_r {
                            Ok(()) => {
                                proof {
                                    assert(prn.emitted() =~= e0 + value_events(*self, cfg));
                                }
                                Ok(())
                            },
                            Err(e) => Err(FormatError::Sink(e)),
                        }
                    },
                    Err(e) => Err(e),
                }
            },
            Value::Tuple(items) => {
                match prn.begin_tuple() {
                    Ok(()) => {},
                    Err(e) => {
                        return Err(FormatError::Sink(e));
                    },
                }
                let ghost e1 = prn.emitted();
                let body_r = format_all_body(items, prn);
                let ghost e2 = prn.emitted();
                let end_r = prn.end_tuple();
                proof {
                    lemma_prefix_trans(e0, e1, e2);
                    lemma_prefix_trans(e0, e2, prn.emitted());
                }
                match body_r {
                    Ok(()) => {
                        match end_r {
                            Ok(()) => {
                                proof {
                                    assert(prn.emitted() =~= e0 + value_events(*self, cfg));
                                }
                                Ok(())
                            },
                            Err(e) => Err(FormatError::Sink(e)),
                        }
                    },
                    Err(e) => Err(e),
                }
            },
            Value::NamedTuple { shape, fields } => {
                if shape.elements.len() != fields.len() {
                    proof {
                        assert(!self.wf());
                        assert(e0.is_prefix_of(e0));
                    }
                    return Err(FormatError::Malformed);
                }
                match prn.begin_named_tuple() {
                    Ok(()) => {},
                    Err(e) => {
                        return Err(FormatError::Sink(e));
                    },
                }
                let ghost e1 = prn.emitted();
                let body_r = format_named_body(&shape.elements, fields, prn);
                let ghost e2 = prn.emitted();
                let end_r = prn.end_named_tuple();
                proof {
                    lemma_prefix_trans(e0, e1, e2);
                    lemma_prefix_trans(e0, e2, prn.emitted());
                }
                match body_r {
                    Ok(()) => {
                        match end_r {
                            Ok(()) => {
                                proof {
                                    assert(prn.emitted() =~= e0 + value_events(*self, cfg));
                                }
                                Ok(())
                            },
                            Err(e) => Err(FormatError::Sink(e)),
                        }
                    },
                    Err(e) => Err(e),
                }
            },
            Value::Object { shape, fields } => {
                if shape.elements.len() != fields.len() {
                    proof {
                        assert(!self.wf());
                        assert(e0.is_prefix_of(e0));
                    }
                    return Err(FormatError::Malformed);
                }
                let tname_idx = find_first_named(&shape.elements, "__tname__");
                let tname: Option<&str> = match tname_idx {
                    Some(ti) => {
                        match &fields[ti] {
                            Some(Value::Str(s)) => Some(s.as_str()),
                            _ => None,
                        }
                    },
                    None => None,
                };
                proof {
                    match tname_idx {
                        Some(ti) => {
                            lemma_first_named(shape.elements@, "__tname__"@, ti as int);
                        },
                        None => {},
                    }
                    assert(opt_text(tname) == object_type_name(shape.elements@, fields@));
                }
                match prn.begin_object(tname) {
                    Ok(()) => {},
                    Err(e) => {
                        return Err(FormatError::Sink(e));
                    },
                }
                let ghost e1 = prn.emitted();
                let body_r = format_object_body(&shape.elements, fields, prn);
                let ghost e2 = prn.emitted();
                let end_r = prn.end_object();
                proof {
                    lemma_prefix_trans(e0, e1, e2);
                    lemma_prefix_trans(e0, e2, prn.emitted());
                }
                match body_r {
                    Ok(()) => {
                        match end_r {
                            Ok(()) => {
                                proof {
                                    assert(prn.emitted() =~= e0 + value_events(*self, cfg));
                                }
                                Ok(())
                            },
                            Err(e) => Err(FormatError::Sink(e)),
                        }
                    },
                    Err(e) => Err(e),
                }
            },
        }
    }
}

} // verus!
