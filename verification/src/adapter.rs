//! The structured value adapter: presents a parsed document as a value that
//! the typed-field recording protocol can visit as a single field. The scalar
//! classification (unsigned if representable, else signed, else a float token,
//! else null) happens when the document is parsed; here the document exposes
//! its shape and exact element counts, unchanged, for the visiting side.

use vstd::prelude::*;

use crate::value::JsonValue;

verus! {

/// An adapter that exposes a structured document to the typed-field recording
/// protocol, without copying it.
pub struct SerdeJsonAdapter {
    pub value: JsonValue,
}

impl SerdeJsonAdapter {
    /// Wrap a structured document in the adapter.
    pub fn new(value: JsonValue) -> (r: Self)
        ensures
            r.value == value,
    {
        SerdeJsonAdapter { value }
    }

    /// The wrapped document, unchanged.
    pub fn as_value(&self) -> (r: &JsonValue)
        ensures
            *r == self.value,
    {
        &self.value
    }

    /// The exact element count of a list document; no count otherwise.
    pub fn list_size_hint(&self) -> (r: (usize, Option<usize>))
        ensures
            match self.value {
                JsonValue::Arr(_) => r.0 == self.value->Arr_0@.len() && r.1 == Some(r.0),
                _ => r.0 == 0 && r.1 is None,
            },
    {
        match &self.value {
            JsonValue::Arr(items) => {
                let n = items.len();
                (n, Some(n))
            },
            _ => (0, None),
        }
    }

    /// The exact entry count of a key-value document; no count otherwise.
    pub fn map_size_hint(&self) -> (r: (usize, Option<usize>))
        ensures
            match self.value {
                JsonValue::Obj(_) => r.0 == self.value->Obj_0@.len() && r.1 == Some(r.0),
                _ => r.0 == 0 && r.1 is None,
            },
    {
        match &self.value {
            JsonValue::Obj(entries) => {
                let n = entries.len();
                (n, Some(n))
            },
            _ => (0, None),
        }
    }
}

} // verus!
