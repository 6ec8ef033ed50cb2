use edgeprint::formatter::{FormatError, Formatter};
use edgeprint::recorder::{RecEvent, Recorder};
use edgeprint::render::FormatExt;
use edgeprint::value::{Field, Shape, Value};

fn render(v: &Value, max_items: Option<usize>, expand: bool, implicit: bool) -> Vec<RecEvent> {
    let mut rec = Recorder::new(max_items, expand, implicit);
    let r = v.format(&mut rec);
    assert!(r.is_ok());
    rec.events().clone()
}

fn field(name: &str, implicit: bool, link_property: bool) -> Field {
    Field { name: name.to_string(), implicit, link_property }
}

fn scalar(s: &str) -> RecEvent {
    RecEvent::Scalar(s.to_string())
}

#[test]
fn scalars_render_canonically() {
    assert_eq!(render(&Value::Nothing, None, false, false), vec![scalar("Nothing")]);
    assert_eq!(render(&Value::Int16(-7), None, false, false), vec![scalar("-7")]);
    assert_eq!(render(&Value::Int32(100000), None, false, false), vec![scalar("100000")]);
    assert_eq!(render(&Value::Int64(9000000000), None, false, false), vec![scalar("9000000000")]);
    assert_eq!(render(&Value::Bool(true), None, false, false), vec![scalar("true")]);
    assert_eq!(render(&Value::Bool(false), None, false, false), vec![scalar("false")]);
    assert_eq!(
        render(&Value::Uuid("f47ac10b-58cc-4372-a567-0e02b2c3d479".to_string()), None, false, false),
        vec![scalar("f47ac10b-58cc-4372-a567-0e02b2c3d479")]
    );
    assert_eq!(render(&Value::Enum("Red".to_string()), None, false, false), vec![scalar("Red")]);
    assert_eq!(render(&Value::Float64("1.5".to_string()), None, false, false), vec![scalar("1.5")]);
    assert_eq!(
        render(&Value::Json("\"[1, 2]\"".to_string()), None, false, false),
        vec![scalar("\"[1, 2]\"")]
    );
}

#[test]
fn strings_escape_by_configuration() {
    let v = Value::Str("a\nb".to_string());
    assert_eq!(render(&v, None, false, false), vec![scalar("'a\\nb'")]);
    assert_eq!(render(&v, None, true, false), vec![scalar("'a\nb'")]);
}

#[test]
fn bytes_render_escaped() {
    let v = Value::Bytes(vec![0x68, 0x69, 0x07]);
    assert_eq!(render(&v, None, false, false), vec![scalar("b'hi\\x07'")]);
}

#[test]
fn big_numbers_render_compressed() {
    assert_eq!(
        render(&Value::BigInt("1230000000".to_string()), None, false, false),
        vec![scalar("123e7n")]
    );
    assert_eq!(
        render(&Value::Decimal("0.0000001".to_string()), None, false, false),
        vec![scalar("0.1e-6")]
    );
}

#[test]
fn temporal_values_render_typed() {
    assert_eq!(
        render(&Value::Datetime("2020-01-01T00:00:00Z".to_string()), None, false, false),
        vec![RecEvent::Typed("datetime".to_string(), "2020-01-01T00:00:00Z".to_string())]
    );
    assert_eq!(
        render(&Value::LocalDate("2020-01-01".to_string()), None, false, false),
        vec![RecEvent::Typed("cal::local_date".to_string(), "2020-01-01".to_string())]
    );
    assert_eq!(
        render(&Value::Duration("45s".to_string()), None, false, false),
        vec![RecEvent::Typed("duration".to_string(), "45s".to_string())]
    );
}

#[test]
fn optional_value_renders_nil_marker() {
    let mut rec = Recorder::new(None, false, false);
    let v: Option<Value> = None;
    assert!(v.format(&mut rec).is_ok());
    assert_eq!(rec.events().clone(), vec![RecEvent::Nil]);

    let mut rec2 = Recorder::new(None, false, false);
    let w: Option<Value> = Some(Value::Int64(3));
    assert!(w.format(&mut rec2).is_ok());
    assert_eq!(rec2.events().clone(), vec![scalar("3")]);
}

fn ints(ns: &[i64]) -> Vec<Value> {
    ns.iter().map(|n| Value::Int64(*n)).collect()
}

#[test]
fn set_truncates_at_cap_with_one_ellipsis() {
    let v = Value::SetOf(ints(&[1, 2, 3, 4, 5]));
    let ev = render(&v, Some(3), false, false);
    assert_eq!(
        ev,
        vec![
            RecEvent::SetBegin,
            scalar("1"),
            RecEvent::Comma,
            scalar("2"),
            RecEvent::Comma,
            scalar("3"),
            RecEvent::Comma,
            RecEvent::Ellipsis,
            RecEvent::SetEnd,
        ]
    );
    let rendered = ev.iter().filter(|e| matches!(e, RecEvent::Scalar(_))).count();
    let dots = ev.iter().filter(|e| matches!(e, RecEvent::Ellipsis)).count();
    assert_eq!(rendered, 3);
    assert_eq!(dots, 1);
}

#[test]
fn set_with_cap_at_least_len_has_no_ellipsis() {
    let v = Value::SetOf(ints(&[1, 2, 3]));
    for cap in [Some(3), Some(10), None] {
        let ev = render(&v, cap, false, false);
        assert_eq!(ev.iter().filter(|e| matches!(e, RecEvent::Ellipsis)).count(), 0);
        assert_eq!(ev.iter().filter(|e| matches!(e, RecEvent::Scalar(_))).count(), 3);
    }
}

#[test]
fn array_truncates_like_set() {
    let v = Value::Array(ints(&[1, 2, 3, 4]));
    let ev = render(&v, Some(2), false, false);
    assert_eq!(
        ev,
        vec![
            RecEvent::ArrayBegin,
            scalar("1"),
            RecEvent::Comma,
            scalar("2"),
            RecEvent::Comma,
            RecEvent::Ellipsis,
            RecEvent::ArrayEnd,
        ]
    );
}

#[test]
fn tuple_ignores_cap() {
    let v = Value::Tuple(ints(&[1, 2, 3, 4, 5]));
    let ev = render(&v, Some(2), false, false);
    assert_eq!(ev.iter().filter(|e| matches!(e, RecEvent::Scalar(_))).count(), 5);
    assert_eq!(ev.iter().filter(|e| matches!(e, RecEvent::Ellipsis)).count(), 0);
}

#[test]
fn named_tuple_ignores_cap_and_labels_fields() {
    let v = Value::NamedTuple {
        shape: Shape { elements: vec![field("x", false, false), field("y", false, false)] },
        fields: ints(&[1, 2]),
    };
    let ev = render(&v, Some(1), false, false);
    assert_eq!(
        ev,
        vec![
            RecEvent::NamedTupleBegin,
            RecEvent::TupleField("x".to_string()),
            scalar("1"),
            RecEvent::Comma,
            RecEvent::TupleField("y".to_string()),
            scalar("2"),
            RecEvent::Comma,
            RecEvent::NamedTupleEnd,
        ]
    );
}

#[test]
fn object_renders_fields_with_link_flags() {
    let v = Value::Object {
        shape: Shape {
            elements: vec![field("name", false, false), field("@weight", false, true)],
        },
        fields: vec![Some(Value::Str("box".to_string())), Some(Value::Int64(7))],
    };
    let ev = render(&v, None, false, false);
    assert_eq!(
        ev,
        vec![
            RecEvent::ObjectBegin(None),
            RecEvent::ObjectField("name".to_string(), false),
            scalar("'box'"),
            RecEvent::Comma,
            RecEvent::ObjectField("@weight".to_string(), true),
            scalar("7"),
            RecEvent::Comma,
            RecEvent::ObjectEnd,
        ]
    );
}

#[test]
fn object_resolves_type_name_from_tname_field() {
    let v = Value::Object {
        shape: Shape {
            elements: vec![field("__tname__", true, false), field("n", false, false)],
        },
        fields: vec![Some(Value::Str("User".to_string())), Some(Value::Int64(1))],
    };
    let ev = render(&v, None, false, false);
    assert_eq!(ev[0], RecEvent::ObjectBegin(Some("User".to_string())));
}

#[test]
fn object_all_implicit_falls_back_to_id() {
    let v = Value::Object {
        shape: Shape {
            elements: vec![field("__tname__", true, false), field("id", true, false)],
        },
        fields: vec![
            Some(Value::Str("User".to_string())),
            Some(Value::Uuid("0001".to_string())),
        ],
    };
    let ev = render(&v, None, false, false);
    assert_eq!(
        ev,
        vec![
            RecEvent::ObjectBegin(Some("User".to_string())),
            RecEvent::ObjectField("id".to_string(), false),
            scalar("0001"),
            RecEvent::Comma,
            RecEvent::ObjectEnd,
        ]
    );
}

#[test]
fn object_all_implicit_without_id_renders_empty_body() {
    let v = Value::Object {
        shape: Shape { elements: vec![field("__tname__", true, false)] },
        fields: vec![Some(Value::Str("User".to_string()))],
    };
    let ev = render(&v, None, false, false);
    assert_eq!(
        ev,
        vec![RecEvent::ObjectBegin(Some("User".to_string())), RecEvent::ObjectEnd]
    );
}

#[test]
fn object_implicit_fields_render_when_requested() {
    let v = Value::Object {
        shape: Shape { elements: vec![field("id", true, false)] },
        fields: vec![Some(Value::Uuid("0001".to_string()))],
    };
    let ev = render(&v, None, false, true);
    assert_eq!(
        ev,
        vec![
            RecEvent::ObjectBegin(None),
            RecEvent::ObjectField("id".to_string(), false),
            scalar("0001"),
            RecEvent::Comma,
            RecEvent::ObjectEnd,
        ]
    );
}

#[test]
fn object_shape_value_mismatch_is_rejected() {
    let v = Value::Object {
        shape: Shape { elements: vec![field("a", false, false), field("b", false, false)] },
        fields: vec![Some(Value::Int64(1))],
    };
    let mut rec = Recorder::new(None, false, false);
    let r = v.format(&mut rec);
    assert!(matches!(r, Err(FormatError::Malformed)));
}

#[test]
fn named_tuple_shape_value_mismatch_is_rejected() {
    let v = Value::NamedTuple {
        shape: Shape { elements: vec![field("a", false, false)] },
        fields: ints(&[1, 2]),
    };
    let mut rec = Recorder::new(None, false, false);
    let r = v.format(&mut rec);
    assert!(matches!(r, Err(FormatError::Malformed)));
}

#[test]
fn nested_mismatch_is_rejected_not_truncated() {
    let bad = Value::Object {
        shape: Shape { elements: vec![field("a", false, false), field("b", false, false)] },
        fields: vec![Some(Value::Int64(1))],
    };
    let v = Value::Tuple(vec![Value::Int64(1), bad]);
    let mut rec = Recorder::new(None, false, false);
    assert!(matches!(v.format(&mut rec), Err(FormatError::Malformed)));
}

#[test]
fn truncation_is_per_container_not_global() {
    let inner1 = Value::SetOf(ints(&[1, 2, 3]));
    let inner2 = Value::SetOf(ints(&[4, 5, 6]));
    let v = Value::Tuple(vec![inner1, inner2]);
    let ev = render(&v, Some(2), false, false);
    assert_eq!(ev.iter().filter(|e| matches!(e, RecEvent::Ellipsis)).count(), 2);
    assert_eq!(ev.iter().filter(|e| matches!(e, RecEvent::Scalar(_))).count(), 4);
}

#[test]
fn rendering_is_deterministic() {
    let v = Value::Object {
        shape: Shape {
            elements: vec![field("__tname__", true, false), field("xs", false, false)],
        },
        fields: vec![
            Some(Value::Str("T".to_string())),
            Some(Value::SetOf(ints(&[1, 2, 3, 4]))),
        ],
    };
    let a = render(&v, Some(2), false, false);
    let b = render(&v, Some(2), false, false);
    assert_eq!(a, b);
}

#[test]
fn deep_nesting_renders_balanced() {
    let v = Value::Array(vec![Value::Tuple(vec![Value::SetOf(ints(&[1]))])]);
    let ev = render(&v, None, false, false);
    assert_eq!(
        ev,
        vec![
            RecEvent::ArrayBegin,
            RecEvent::TupleBegin,
            RecEvent::SetBegin,
            scalar("1"),
            RecEvent::Comma,
            RecEvent::SetEnd,
            RecEvent::Comma,
            RecEvent::TupleEnd,
            RecEvent::Comma,
            RecEvent::ArrayEnd,
        ]
    );
}

#[test]
fn object_field_without_value_renders_nil() {
    let v = Value::Object {
        shape: Shape { elements: vec![field("note", false, false)] },
        fields: vec![None],
    };
    let ev = render(&v, None, false, false);
    assert_eq!(
        ev,
        vec![
            RecEvent::ObjectBegin(None),
            RecEvent::ObjectField("note".to_string(), false),
            RecEvent::Nil,
            RecEvent::Comma,
            RecEvent::ObjectEnd,
        ]
    );
}
