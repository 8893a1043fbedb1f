//! The typed-field attribute recorder: one callback per value kind, each
//! translated into an insertion into the ordered document. A string beginning
//! with the reserved sentinel prefix carries an embedded JSON document: the
//! prefix is stripped and the remainder parsed, falling back to the raw string.

use vstd::prelude::*;

use crate::parse::{parse_json, serde_json_doc};
use crate::record::{bytes_eq, spec_insert, CustomLayerTracedData, RecordModel};
use crate::value::{is_number_token, json_number_token, JsonSpec, JsonValue};

verus! {

/// The reserved sentinel prefix, as bytes: `!custom_layer_tracing_json!`.
pub open spec fn sentinel_prefix() -> Seq<u8> {
    seq![
        33u8, 99u8, 117u8, 115u8, 116u8, 111u8, 109u8, 95u8, 108u8, 97u8, 121u8, 101u8, 114u8,
        95u8, 116u8, 114u8, 97u8, 99u8, 105u8, 110u8, 103u8, 95u8, 106u8, 115u8, 111u8, 110u8,
        33u8,
    ]
}

/// The sentinel prefix as a byte vector.
pub fn special_json_prefix() -> (r: Vec<u8>)
    ensures
        r@ == sentinel_prefix(),
{
    let mut out: Vec<u8> = Vec::new();
    out.push(33);
    out.push(99);
    out.push(117);
    out.push(115);
    out.push(116);
    out.push(111);
    out.push(109);
    out.push(95);
    out.push(108);
    out.push(97);
    out.push(121);
    out.push(101);
    out.push(114);
    out.push(95);
    out.push(116);
    out.push(114);
    out.push(97);
    out.push(99);
    out.push(105);
    out.push(110);
    out.push(103);
    out.push(95);
    out.push(106);
    out.push(115);
    out.push(111);
    out.push(110);
    out.push(33);
    proof {
        assert(out@ =~= sentinel_prefix());
    }
    out
}

/// Prefix a serialized JSON payload with the sentinel, for smuggling a
/// document through a plain string field.
pub fn sentinel_encode(payload: &[u8]) -> (r: Vec<u8>)
    ensures
        r@ == sentinel_prefix() + payload@,
{
    let mut out = special_json_prefix();
    let mut body = vstd::slice::slice_to_vec(payload);
    out.append(&mut body);
    proof {
        assert(out@ =~= sentinel_prefix() + payload@);
    }
    out
}

/// The value that recording a float token stores: the token where it is one
/// well-formed JSON number token, null otherwise.
pub open spec fn recorded_float(t: Seq<u8>) -> JsonSpec {
    if json_number_token(t) {
        JsonSpec::Float(t)
    } else {
        JsonSpec::Null
    }
}

/// The value that recording a string stores: a sentinel-prefixed string whose
/// remainder parses becomes the parsed document; anything else stays a string.
pub open spec fn recorded_string(s: Seq<u8>) -> JsonSpec {
    if s.len() >= sentinel_prefix().len() && s.subrange(0, sentinel_prefix().len() as int)
        == sentinel_prefix() {
        match serde_json_doc(s.subrange(sentinel_prefix().len() as int, s.len() as int)) {
            Some(v) => v,
            None => JsonSpec::Str(s),
        }
    } else {
        JsonSpec::Str(s)
    }
}

/// The structured value that a recorded string stands for.
fn decode_recorded_string(value: &[u8]) -> (r: JsonValue)
    ensures
        r@ == recorded_string(value@),
{
    let prefix = special_json_prefix();
    let plen = prefix.len();
    if value.len() >= plen {
        let head = vstd::slice::slice_subrange(value, 0, plen);
        if bytes_eq(head, prefix.as_slice()) {
            let rest = vstd::slice::slice_subrange(value, plen, value.len());
            match parse_json(rest) {
                Some(v) => {
                    return v;
                },
                None => {
                    return JsonValue::Str(vstd::slice::slice_to_vec(value));
                },
            }
        }
    }
    JsonValue::Str(vstd::slice::slice_to_vec(value))
}

/// Visits the typed attribute callbacks for one ordered document, storing each
/// named value in place.
pub struct JsonAttributeVisitor {
    pub data: CustomLayerTracedData,
}

impl JsonAttributeVisitor {
    /// Well-formed: the underlying document has unique keys.
    pub open spec fn wf(&self) -> bool {
        self.data.wf()
    }

    /// The model of the document being built.
    pub open spec fn model(&self) -> RecordModel {
        self.data@
    }

    /// A visitor that inserts into the given document.
    pub fn with_data(data: CustomLayerTracedData) -> (r: Self)
        ensures
            r.data == data,
    {
        JsonAttributeVisitor { data }
    }

    /// Hand the document back.
    pub fn into_data(self) -> (r: CustomLayerTracedData)
        ensures
            r == self.data,
    {
        self.data
    }

    /// The document built so far.
    pub fn data(&self) -> (r: &CustomLayerTracedData)
        ensures
            *r == self.data,
    {
        &self.data
    }

    /// Record the owning span's `target` and `name`, before any user attribute.
    pub fn record_metadata(&mut self, target: Vec<u8>, name: Vec<u8>)
        requires
            old(self).wf(),
        ensures
            final(self).wf(),
            final(self).model() == spec_insert(
                spec_insert(old(self).model(), target_key(), JsonSpec::Str(target@)),
                name_key(),
                JsonSpec::Str(name@),
            ),
    {
        let mut tk: Vec<u8> = Vec::new();
        tk.push(116);
        tk.push(97);
        tk.push(114);
        tk.push(103);
        tk.push(101);
        tk.push(116);
        proof {
            assert(tk@ =~= target_key());
        }
        self.data.insert(tk, JsonValue::Str(target));
        let mut nk: Vec<u8> = Vec::new();
        nk.push(110);
        nk.push(97);
        nk.push(109);
        nk.push(101);
        proof {
            assert(nk@ =~= name_key());
        }
        self.data.insert(nk, JsonValue::Str(name));
    }

    /// Record a boolean attribute.
    pub fn record_bool(&mut self, key: Vec<u8>, value: bool)
        requires
            old(self).wf(),
        ensures
            final(self).wf(),
            final(self).model() == spec_insert(old(self).model(), key@, JsonSpec::Bool(value)),
    {
        self.data.insert(key, JsonValue::Bool(value));
    }

    /// Record an unsigned integer attribute.
    pub fn record_u64(&mut self, key: Vec<u8>, value: u64)
        requires
            old(self).wf(),
        ensures
            final(self).wf(),
            final(self).model() == spec_insert(old(self).model(), key@, JsonSpec::UInt(value)),
    {
        self.data.insert(key, JsonValue::UInt(value));
    }

    /// Record a signed integer attribute.
    pub fn record_i64(&mut self, key: Vec<u8>, value: i64)
        requires
            old(self).wf(),
        ensures
            final(self).wf(),
            final(self).model() == spec_insert(old(self).model(), key@, JsonSpec::Int(value)),
    {
        self.data.insert(key, JsonValue::Int(value));
    }

    /// Record a floating-point attribute, given as its rendered number token.
    /// Anything that is not one well-formed JSON number token (a non-finite
    /// value renders as `null`, for one) degrades to null, so an event line
    /// always stays a single well-formed JSON document.
    pub fn record_float(&mut self, key: Vec<u8>, token: Vec<u8>)
        requires
            old(self).wf(),
        ensures
            final(self).wf(),
            final(self).model() == spec_insert(old(self).model(), key@, recorded_float(token@)),
    {
        if is_number_token(token.as_slice()) {
            self.data.insert(key, JsonValue::Float(token));
        } else {
            self.data.insert(key, JsonValue::Null);
        }
    }

    /// Record a string attribute; a sentinel-prefixed string is decoded to the
    /// embedded document where it parses, and kept verbatim otherwise.
    pub fn record_str(&mut self, key: Vec<u8>, value: &[u8])
        requires
            old(self).wf(),
        ensures
            final(self).wf(),
            final(self).model() == spec_insert(old(self).model(), key@, recorded_string(value@)),
    {
        let v = decode_recorded_string(value);
        self.data.insert(key, v);
    }

    /// Record an error attribute by its display text.
    pub fn record_error(&mut self, key: Vec<u8>, text: Vec<u8>)
        requires
            old(self).wf(),
        ensures
            final(self).wf(),
            final(self).model() == spec_insert(old(self).model(), key@, JsonSpec::Str(text@)),
    {
        self.data.insert(key, JsonValue::Str(text));
    }

    /// Record an opaque attribute by its debug text.
    pub fn record_debug(&mut self, key: Vec<u8>, text: Vec<u8>)
        requires
            old(self).wf(),
        ensures
            final(self).wf(),
            final(self).model() == spec_insert(old(self).model(), key@, JsonSpec::Str(text@)),
    {
        self.data.insert(key, JsonValue::Str(text));
    }

    /// Record a tree-shaped structured attribute as one field, unchanged.
    pub fn record_value(&mut self, key: Vec<u8>, value: JsonValue)
        requires
            old(self).wf(),
        ensures
            final(self).wf(),
            final(self).model() == spec_insert(old(self).model(), key@, value@),
    {
        self.data.insert(key, value);
    }
}

/// The `target` metadata key.
pub open spec fn target_key() -> Seq<u8> {
    seq![116u8, 97u8, 114u8, 103u8, 101u8, 116u8]
}

/// The `name` metadata key.
pub open spec fn name_key() -> Seq<u8> {
    seq![110u8, 97u8, 109u8, 101u8]
}

/// Sentinel round trip: recording the sentinel prefix followed by a payload
/// stores the payload's parsed document when it parses, and the whole raw
/// string (prefix included) when it does not.
pub proof fn lemma_sentinel_round_trip(payload: Seq<u8>)
    ensures
        recorded_string(sentinel_prefix() + payload) == match serde_json_doc(payload) {
            Some(v) => v,
            None => JsonSpec::Str(sentinel_prefix() + payload),
        },
{
    let s = sentinel_prefix() + payload;
    assert(s.len() >= sentinel_prefix().len());
    assert(s.subrange(0, sentinel_prefix().len() as int) =~= sentinel_prefix());
    assert(s.subrange(sentinel_prefix().len() as int, s.len() as int) =~= payload);
}

} // verus!
