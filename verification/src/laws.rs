//! Laws of the rendering engine, stated and proved once for all inputs.

use vstd::prelude::*;
use crate::emit::{Config, Event};
use crate::escape::{
    esc_char, escape_body, hex_digit, is_hex_escaped, is_uni_escaped, string_escaped,
};
use crate::render::{
    capped_items_events, capped_len, first_named, has_named, list_events, named_tuple_events,
    object_fallback_events, object_fields_events, opt_value_events, rendered_count, value_events,
};
use crate::value::{Field, Value};

verus! {

/// An escaped string is always delimited by a matching pair of single
/// quotes.
pub proof fn lemma_escape_string_quoted(s: Seq<char>, expanded: bool)
    ensures
        string_escaped(s, expanded).len() >= 2,
        string_escaped(s, expanded)[0] == '\'',
        string_escaped(s, expanded).last() == '\'',
{
}

/// A `Set` or `Array` with more elements than the cap renders exactly the
/// capped number of elements followed by exactly one truncation marker;
/// with no cap, or a cap at least the length, every element renders and no
/// marker appears.
pub proof fn lemma_capped_truncation(items: Seq<Value>, cfg: Config)
    ensures
        (match cfg.max_items {
            Some(c) => (c as int) < items.len(),
            None => false,
        }) ==> capped_items_events(items, cfg) == list_events(
            items,
            capped_len(items.len() as int, cfg),
            cfg,
        ) + seq![Event::Ellipsis],
        (match cfg.max_items {
            Some(c) => items.len() <= c as int,
            None => true,
        }) ==> capped_items_events(items, cfg) == list_events(items, items.len() as int, cfg),
{
}

/// A `Tuple` renders all of its elements whatever the cap is, and a
/// `NamedTuple` renders all of its fields: the truncation cap applies only
/// to `Set` and `Array`, an intentional asymmetry.
pub proof fn lemma_tuple_ignores_cap(v: Value, cfg: Config)
    ensures
        (v matches Value::Tuple(items) ==> value_events(v, cfg) == seq![Event::TupleBegin]
            + list_events(items@, items@.len() as int, cfg) + seq![Event::TupleEnd]),
        (v matches Value::NamedTuple { shape, fields } ==> value_events(v, cfg)
            == seq![Event::NamedTupleBegin] + named_tuple_events(
            shape.elements@,
            fields@,
            fields@.len() as int,
            cfg,
        ) + seq![Event::NamedTupleEnd]),
{
}

/// With implicit fields suppressed, a shape whose every field is implicit
/// renders no field at all in the main pass.
pub proof fn lemma_all_implicit_renders_none(
    shape: Seq<Field>,
    fields: Seq<Option<Value>>,
    n: int,
    cfg: Config,
)
    requires
        !cfg.implicit_properties,
        n <= shape.len(),
        n <= fields.len(),
        forall|i: int| 0 <= i < shape.len() ==> (#[trigger] shape[i]).implicit,
    ensures
        rendered_count(shape, n, cfg.implicit_properties) == 0,
        object_fields_events(shape, fields, n, cfg.implicit_properties, cfg) == Seq::<
            Event,
        >::empty(),
    decreases n,
{
    if n > 0 {
        lemma_all_implicit_renders_none(shape, fields, n - 1, cfg);
    }
}

/// An object whose every field is implicit, rendered with implicit fields
/// suppressed, shows exactly one field — the one named `id` — when the
/// shape has one, and an empty body when it does not.
pub proof fn lemma_object_implicit_fallback(
    shape: Seq<Field>,
    fields: Seq<Option<Value>>,
    cfg: Config,
)
    requires
        !cfg.implicit_properties,
        shape.len() == fields.len(),
        forall|i: int| 0 <= i < shape.len() ==> (#[trigger] shape[i]).implicit,
    ensures
        object_fields_events(shape, fields, fields.len() as int, cfg.implicit_properties, cfg)
            == Seq::<Event>::empty(),
        has_named(shape, "id"@) ==> object_fallback_events(
            shape,
            fields,
            cfg.implicit_properties,
            cfg,
        ) == seq![Event::ObjectField(shape[first_named(shape, "id"@)].name@, false)]
            + opt_value_events(fields[first_named(shape, "id"@)], cfg) + seq![Event::Comma],
        !has_named(shape, "id"@) ==> object_fallback_events(
            shape,
            fields,
            cfg.implicit_properties,
            cfg,
        ) == Seq::<Event>::empty(),
{
    lemma_all_implicit_renders_none(shape, fields, shape.len() as int, cfg);
}

/// Rendering is deterministic: the same value under the same configuration
/// always appends the same event sequence, so two walks over equal logs
/// leave equal logs.
pub proof fn lemma_render_deterministic(
    pre1: Seq<Event>,
    pre2: Seq<Event>,
    v: Value,
    cfg: Config,
)
    requires
        pre1 == pre2,
    ensures
        pre1 + value_events(v, cfg) == pre2 + value_events(v, cfg),
{
}

/// The escaped body, built from the front; used to decode an escaped body
/// one escape unit at a time.
pub open spec fn escape_body_front(s: Seq<char>, expanded: bool) -> Seq<char>
    decreases s.len(),
{
    if s.len() == 0 {
        Seq::empty()
    } else {
        esc_char(s[0], expanded) + escape_body_front(s.drop_first(), expanded)
    }
}

proof fn lemma_body_front_snoc(s: Seq<char>, c: char, expanded: bool)
    ensures
        escape_body_front(s.push(c), expanded) == escape_body_front(s, expanded) + esc_char(
            c,
            expanded,
        ),
    decreases s.len(),
{
    if s.len() == 0 {
        assert(s.push(c)[0] == c);
        assert(s.push(c).drop_first() =~= Seq::<char>::empty());
        assert(escape_body_front(s.push(c), expanded) == esc_char(c, expanded)
            + escape_body_front(Seq::<char>::empty(), expanded));
        assert(escape_body_front(Seq::<char>::empty(), expanded) == Seq::<char>::empty());
        assert(escape_body_front(s, expanded) == Seq::<char>::empty());
        assert(escape_body_front(s.push(c), expanded) =~= escape_body_front(s, expanded)
            + esc_char(c, expanded));
    } else {
        assert(s.push(c).drop_first() =~= s.drop_first().push(c));
        lemma_body_front_snoc(s.drop_first(), c, expanded);
        assert(s.push(c)[0] == s[0]);
        assert(escape_body_front(s.push(c), expanded) == esc_char(s[0], expanded)
            + escape_body_front(s.drop_first().push(c), expanded));
        assert(escape_body_front(s.push(c), expanded) == esc_char(s[0], expanded) + (
        escape_body_front(s.drop_first(), expanded) + esc_char(c, expanded)));
        assert(escape_body_front(s.push(c), expanded) =~= escape_body_front(s, expanded)
            + esc_char(c, expanded));
    }
}

proof fn lemma_body_forms_agree(s: Seq<char>, expanded: bool)
    ensures
        escape_body(s, expanded) == escape_body_front(s, expanded),
    decreases s.len(),
{
    if s.len() > 0 {
        lemma_body_forms_agree(s.drop_last(), expanded);
        lemma_body_front_snoc(s.drop_last(), s.last(), expanded);
        assert(s.drop_last().push(s.last()) =~= s);
    }
}

/// The hexadecimal digit table is injective.
proof fn lemma_hex_digit_injective(a: u32, b: u32)
    requires
        hex_digit(a) == hex_digit(b),
    ensures
        a % 16 == b % 16,
{
}

/// Whether `c` escapes to itself.
pub open spec fn esc_plain(c: char, expanded: bool) -> bool {
    &&& !is_hex_escaped(c)
    &&& !is_uni_escaped(c)
    &&& c != '\''
    &&& c != '\\'
    &&& !(c == '\r' && !expanded)
    &&& !(c == '\n' && !expanded)
    &&& !(c == '\t' && !expanded)
}

/// The escape table decodes uniquely from the front: if two escapes start
/// the same character sequence, they escape the same character and leave
/// the same remainder.
proof fn lemma_esc_front_unique(c1: char, c2: char, r1: Seq<char>, r2: Seq<char>, e: bool)
    requires
        esc_char(c1, e) + r1 == esc_char(c2, e) + r2,
    ensures
        c1 == c2,
        r1 == r2,
{
    let a = esc_char(c1, e);
    let b = esc_char(c2, e);
    let w = a + r1;
    assert(w == b + r2);
    let u1 = c1 as u32;
    let u2 = c2 as u32;
    if esc_plain(c1, e) {
        assert(a =~= seq![c1]);
        assert(w[0] == c1);
        if !esc_plain(c2, e) {
            assert(b[0] == '\\');
            assert(c1 == '\\');
            assert(false);
        }
        assert(b =~= seq![c2]);
        assert(c1 == c2);
        assert(r1 =~= w.subrange(1, w.len() as int));
        assert(r2 =~= w.subrange(1, w.len() as int));
    } else {
        assert(a[0] == '\\');
        if esc_plain(c2, e) {
            assert(b =~= seq![c2]);
            assert(w[0] == c2);
            assert(c2 == '\\');
            assert(false);
        }
        assert(b[0] == '\\');
        assert(a.len() >= 2 && b.len() >= 2);
        assert(w[1] == a[1]);
        assert(w[1] == b[1]);
        if is_hex_escaped(c1) {
            assert(a[1] == 'x');
            assert(is_hex_escaped(c2));
            assert(a.len() == 4 && b.len() == 4);
            assert(a[2] == w[2] && b[2] == w[2]);
            assert(a[3] == w[3] && b[3] == w[3]);
            lemma_hex_digit_injective(u1 / 16, u2 / 16);
            lemma_hex_digit_injective(u1 % 16, u2 % 16);
            assert(u1 <= 0x7F && u2 <= 0x7F);
            assert(u1 / 16 == u2 / 16);
            assert(u1 % 16 == u2 % 16);
            assert(u1 == u2);
            assert(c1 == c2);
            assert(r1 =~= w.subrange(4, w.len() as int));
            assert(r2 =~= w.subrange(4, w.len() as int));
        } else if is_uni_escaped(c1) {
            assert(a[1] == 'u');
            assert(is_uni_escaped(c2));
            assert(a.len() == 6 && b.len() == 6);
            assert(a[4] == w[4] && b[4] == w[4]);
            assert(a[5] == w[5] && b[5] == w[5]);
            lemma_hex_digit_injective(u1 / 16, u2 / 16);
            lemma_hex_digit_injective(u1, u2);
            assert(0x80 <= u1 <= 0x9F && 0x80 <= u2 <= 0x9F);
            assert(u1 / 16 == u2 / 16);
            assert(u1 % 16 == u2 % 16);
            assert(u1 == u2);
            assert(c1 == c2);
            assert(r1 =~= w.subrange(6, w.len() as int));
            assert(r2 =~= w.subrange(6, w.len() as int));
        } else {
            assert(a.len() == 2);
            assert(!is_hex_escaped(c2) && !is_uni_escaped(c2));
            assert(b.len() == 2);
            assert(c1 == c2);
            assert(r1 =~= w.subrange(2, w.len() as int));
            assert(r2 =~= w.subrange(2, w.len() as int));
        }
    }
}

proof fn lemma_body_front_injective(s1: Seq<char>, s2: Seq<char>, e: bool)
    requires
        escape_body_front(s1, e) == escape_body_front(s2, e),
    ensures
        s1 == s2,
    decreases s1.len(),
{
    if s1.len() == 0 {
        if s2.len() > 0 {
            assert(esc_char(s2[0], e).len() >= 1);
            assert(escape_body_front(s2, e).len() >= 1);
            assert(false);
        }
        assert(s1 =~= s2);
    } else if s2.len() == 0 {
        assert(esc_char(s1[0], e).len() >= 1);
        assert(escape_body_front(s1, e).len() >= 1);
        assert(false);
    } else {
        lemma_esc_front_unique(
            s1[0],
            s2[0],
            escape_body_front(s1.drop_first(), e),
            escape_body_front(s2.drop_first(), e),
            e,
        );
        lemma_body_front_injective(s1.drop_first(), s2.drop_first(), e);
        assert(s1.len() == s2.len());
        assert forall|i: int| 0 <= i < s1.len() implies s1[i] == s2[i] by {
            if i > 0 {
                assert(s1.drop_first()[i - 1] == s2.drop_first()[i - 1]);
            }
        }
        assert(s1 =~= s2);
    }
}

/// String escaping is injective: under one configuration, two distinct
/// strings never escape to the same text, so the escaped form can always
/// be decoded back to the string it escapes.
pub proof fn lemma_escape_string_injective(s1: Seq<char>, s2: Seq<char>, expanded: bool)
    requires
        string_escaped(s1, expanded) == string_escaped(s2, expanded),
    ensures
        s1 == s2,
{
    let b1 = escape_body(s1, expanded);
    let b2 = escape_body(s2, expanded);
    let w1 = string_escaped(s1, expanded);
    assert(string_escaped(s1, expanded).len() == 2 + b1.len());
    assert(string_escaped(s2, expanded).len() == 2 + b2.len());
    assert(b1.len() == b2.len());
    assert forall|i: int| 0 <= i < b1.len() implies b1[i] == b2[i] by {
        assert(w1[i + 1] == b1[i]);
        assert(w1[i + 1] == b2[i]);
    }
    assert(b1 =~= b2);
    lemma_body_forms_agree(s1, expanded);
    lemma_body_forms_agree(s2, expanded);
    lemma_body_front_injective(s1, s2, expanded);
}

} // verus!
