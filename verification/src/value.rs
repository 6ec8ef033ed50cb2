//! The closed model of decoded query-result values.
//!
//! A [`Value`] tree is produced once by an external decoder, is immutable,
//! and is consumed by the rendering engine.  Scalars whose textual form is
//! computed outside this crate (machine floats, temporal values, opaque JSON)
//! carry that text as a plain `String`, which keeps the rendering logic a
//! pure function over plain values.

use vstd::prelude::*;

verus! {

/// One field descriptor of an object or named-tuple shape.
///
/// `implicit` marks a field synthesized by the data source rather than
/// explicitly requested; `link_property` marks a field that annotates a
/// relationship rather than naming a regular attribute.
pub struct Field {
    pub name: String,
    pub implicit: bool,
    pub link_property: bool,
}

/// An ordered sequence of field descriptors, paired positionally with a
/// same-length sequence of values by `Object` and `NamedTuple`.
pub struct Shape {
    pub elements: Vec<Field>,
}

/// A decoded result value: a closed tagged union.
///
/// The arbitrary-precision variants (`BigInt`, `Decimal`) carry the plain
/// base-10 text of the number; the canonicalization algorithms operate on
/// that text.  `Float32`/`Float64`, the temporal variants, and `Json` carry
/// the textual form chosen by the decoder, which the engine passes through
/// (annotated with a type tag for the temporal kinds).
#[allow(inconsistent_fields)]
pub enum Value {
    Nothing,
    Uuid(String),
    Str(String),
    Bytes(Vec<u8>),
    Int16(i16),
    Int32(i32),
    Int64(i64),
    Float32(String),
    Float64(String),
    BigInt(String),
    Decimal(String),
    Bool(bool),
    Datetime(String),
    LocalDatetime(String),
    LocalDate(String),
    LocalTime(String),
    Duration(String),
    Json(String),
    SetOf(Vec<Value>),
    Object { shape: Shape, fields: Vec<Option<Value>> },
    Tuple(Vec<Value>),
    NamedTuple { shape: Shape, fields: Vec<Value> },
    Array(Vec<Value>),
    Enum(String),
}

impl Value {
    /// Structural well-formedness: every `Object` and `NamedTuple` in the
    /// tree pairs its shape with a value sequence of the same length.
    pub open spec fn wf(self) -> bool
        decreases self,
    {
        match self {
            Value::SetOf(items) => wf_list(items@),
            Value::Tuple(items) => wf_list(items@),
            Value::Array(items) => wf_list(items@),
            Value::Object { shape, fields } => {
                &&& shape.elements@.len() == fields@.len()
                &&& wf_opt_list(fields@)
            },
            Value::NamedTuple { shape, fields } => {
                &&& shape.elements@.len() == fields@.len()
                &&& wf_list(fields@)
            },
            _ => true,
        }
    }
}

/// Well-formedness of every element of a value sequence.
pub open spec fn wf_list(items: Seq<Value>) -> bool
    decreases items,
{
    forall|i: int| 0 <= i < items.len() ==> (#[trigger] items[i]).wf()
}

/// Well-formedness of every present element of an optional-value sequence.
pub open spec fn wf_opt_list(items: Seq<Option<Value>>) -> bool
    decreases items,
{
    forall|i: int| 0 <= i < items.len() ==> match #[trigger] items[i] {
        Some(v) => v.wf(),
        None => true,
    }
}

} // verus!
