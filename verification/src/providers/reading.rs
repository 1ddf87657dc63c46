//! Reading JSON by the names of its fields.

use vstd::prelude::*;

use crate::json::{JsonView, NumberView};

verus! {

/// The names of the fields of an object.
pub open spec fn names(json: JsonView) -> Set<Seq<char>> {
    json->Object_0.dom()
}

/// The field of an object.
pub open spec fn field(json: JsonView, name: Seq<char>) -> JsonView {
    json->Object_0[name]
}

/// Whether an object has a field with a value, or none where there is no value.
pub open spec fn has_exactly(json: JsonView, name: Seq<char>, value: Option<JsonView>) -> bool {
    &&& names(json).contains(name) <==> value is Some
    &&& value is Some ==> field(json, name) == value->0
}

/// A whole number.
pub open spec fn whole(n: int) -> JsonView {
    JsonView::Number(NumberView::Integer(n as nat))
}

/// A text.
pub open spec fn string(text: Seq<char>) -> JsonView {
    JsonView::String(text)
}

} // verus!
