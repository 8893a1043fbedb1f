//! The interception layer: builds a span's document when the span is created,
//! merges later attribute updates into it, and renders each event as one
//! newline-terminated JSON line with its fields in a fixed, most-important-
//! first order: `timestamp`, `level`, `target`, `fields`, then `span` and
//! `spans` where span context exists.

use vstd::prelude::*;

use crate::record::{CustomLayerTracedData, RecordModel};
use crate::scope::ScopeSerializer;
use crate::ser::{json_text, lemma_obj_inner_push, obj_inner, record_token, str_token};
use crate::value::JsonSpec;
use crate::visitor::{name_key, target_key, JsonAttributeVisitor};

verus! {

/// The severity of an event.
#[derive(Clone, Copy, PartialEq, Eq, Structural, Debug)]
pub enum Level {
    Trace,
    Debug,
    Info,
    Warn,
    Error,
}

/// The textual form of a level, as bytes.
pub open spec fn level_text(l: Level) -> Seq<u8> {
    match l {
        Level::Trace => seq![84u8, 82u8, 65u8, 67u8, 69u8],
        Level::Debug => seq![68u8, 69u8, 66u8, 85u8, 71u8],
        Level::Info => seq![73u8, 78u8, 70u8, 79u8],
        Level::Warn => seq![87u8, 65u8, 82u8, 78u8],
        Level::Error => seq![69u8, 82u8, 82u8, 79u8, 82u8],
    }
}

/// The textual form of a level.
pub fn format_level(level: &Level) -> (r: &'static str)
    ensures
        match *level {
            Level::Trace => r@ == "TRACE"@,
            Level::Debug => r@ == "DEBUG"@,
            Level::Info => r@ == "INFO"@,
            Level::Warn => r@ == "WARN"@,
            Level::Error => r@ == "ERROR"@,
        },
{
    match *level {
        Level::Trace => "TRACE",
        Level::Debug => "DEBUG",
        Level::Info => "INFO",
        Level::Warn => "WARN",
        Level::Error => "ERROR",
    }
}

/// The level's text as a byte vector.
pub fn level_token(level: Level) -> (r: Vec<u8>)
    ensures
        r@ == level_text(level),
{
    let mut out: Vec<u8> = Vec::new();
    match level {
        Level::Trace => {
            out.push(84);
            out.push(82);
            out.push(65);
            out.push(67);
            out.push(69);
        },
        Level::Debug => {
            out.push(68);
            out.push(69);
            out.push(66);
            out.push(85);
            out.push(71);
        },
        Level::Info => {
            out.push(73);
            out.push(78);
            out.push(70);
            out.push(79);
        },
        Level::Warn => {
            out.push(87);
            out.push(65);
            out.push(82);
            out.push(78);
        },
        Level::Error => {
            out.push(69);
            out.push(82);
            out.push(82);
            out.push(79);
            out.push(82);
        },
    }
    proof {
        assert(out@ =~= level_text(level));
    }
    out
}

/// What one byte of an RFC 3339 UTC timestamp with nanosecond precision must
/// be at each position of `YYYY-MM-DDTHH:MM:SS.NNNNNNNNNZ`.
pub open spec fn rfc3339_byte_ok(i: int, b: u8) -> bool {
    if i == 4 || i == 7 {
        b == 45
    } else if i == 10 {
        b == 84
    } else if i == 13 || i == 16 {
        b == 58
    } else if i == 19 {
        b == 46
    } else if i == 29 {
        b == 90
    } else {
        48 <= b <= 57
    }
}

/// Whether `s` has the shape of an RFC 3339 UTC timestamp with nanosecond
/// precision, `Z`-suffixed.
pub open spec fn rfc3339_utc_shape(s: Seq<u8>) -> bool {
    s.len() == 30 && forall|i: int| 0 <= i < 30 ==> rfc3339_byte_ok(i, s[i])
}

/// The epoch instant, `1970-01-01T00:00:00.000000000Z`.
pub open spec fn epoch_ts() -> Seq<u8> {
    seq![
        49u8, 57u8, 55u8, 48u8, 45u8, 48u8, 49u8, 45u8, 48u8, 49u8, 84u8, 48u8, 48u8, 58u8,
        48u8, 48u8, 58u8, 48u8, 48u8, 46u8, 48u8, 48u8, 48u8, 48u8, 48u8, 48u8, 48u8, 48u8,
        48u8, 90u8,
    ]
}

/// The epoch instant is RFC 3339 shaped.
proof fn lemma_epoch_shape()
    ensures
        rfc3339_utc_shape(epoch_ts()),
{
    assert forall|i: int| 0 <= i < 30 implies rfc3339_byte_ok(i, epoch_ts()[i]) by {
        assert(rfc3339_byte_ok(i, epoch_ts()[i])) by {
            assert(epoch_ts().len() == 30);
        }
    }
}

/// The epoch instant as a byte vector.
fn epoch_timestamp() -> (r: Vec<u8>)
    ensures
        r@ == epoch_ts(),
{
    let mut out: Vec<u8> = Vec::new();
    out.push(49);
    out.push(57);
    out.push(55);
    out.push(48);
    out.push(45);
    out.push(48);
    out.push(49);
    out.push(45);
    out.push(48);
    out.push(49);
    out.push(84);
    out.push(48);
    out.push(48);
    out.push(58);
    out.push(48);
    out.push(48);
    out.push(58);
    out.push(48);
    out.push(48);
    out.push(46);
    out.push(48);
    out.push(48);
    out.push(48);
    out.push(48);
    out.push(48);
    out.push(48);
    out.push(48);
    out.push(48);
    out.push(48);
    out.push(90);
    proof {
        assert(out@ =~= epoch_ts());
    }
    out
}

/// Whether `s` has the RFC 3339 UTC nanosecond shape.
fn validate_rfc3339(s: &[u8]) -> (r: bool)
    ensures
        r == rfc3339_utc_shape(s@),
{
    if s.len() != 30 {
        return false;
    }
    let mut i: usize = 0;
    while i < 30
        invariant
            s@.len() == 30,
            0 <= i <= 30,
            forall|j: int| 0 <= j < i ==> rfc3339_byte_ok(j, s@[j]),
        decreases 30 - i,
    {
        let b = s[i];
        let ok = if i == 4 || i == 7 {
            b == 45
        } else if i == 10 {
            b == 84
        } else if i == 13 || i == 16 {
            b == 58
        } else if i == 19 {
            b == 46
        } else if i == 29 {
            b == 90
        } else {
            48 <= b && b <= 57
        };
        if !ok {
            assert(!rfc3339_byte_ok(i as int, s@[i as int]));
            return false;
        }
        i += 1;
    }
    true
}

/// The `timestamp` key.
pub open spec fn timestamp_key() -> Seq<u8> {
    seq![116u8, 105u8, 109u8, 101u8, 115u8, 116u8, 97u8, 109u8, 112u8]
}

/// The `level` key.
pub open spec fn level_key() -> Seq<u8> {
    seq![108u8, 101u8, 118u8, 101u8, 108u8]
}

/// The `fields` key.
pub open spec fn fields_key() -> Seq<u8> {
    seq![102u8, 105u8, 101u8, 108u8, 100u8, 115u8]
}

/// The `span` key.
pub open spec fn span_key() -> Seq<u8> {
    seq![115u8, 112u8, 97u8, 110u8]
}

/// The `spans` key.
pub open spec fn spans_key() -> Seq<u8> {
    seq![115u8, 112u8, 97u8, 110u8, 115u8]
}

/// The model of an optional record.
pub open spec fn opt_record_model(span: Option<&CustomLayerTracedData>) -> Option<RecordModel> {
    match span {
        Some(d) => Some(d@),
        None => None,
    }
}

/// The assembled per-event document: `timestamp`, `level`, `target`, `fields`
/// always and in that order, then the nearest span's document under `span`
/// (when it has one), then the ancestor documents root first under `spans`
/// (when span context exists).
pub open spec fn event_doc(
    ts: Seq<u8>,
    level: Level,
    target: Seq<u8>,
    fields: RecordModel,
    span: Option<RecordModel>,
    scope_present: bool,
    spans: Seq<JsonSpec>,
) -> JsonSpec {
    JsonSpec::Obj(
        seq![
            (timestamp_key(), JsonSpec::Str(ts)),
            (level_key(), JsonSpec::Str(level_text(level))),
            (target_key(), JsonSpec::Str(target)),
            (fields_key(), JsonSpec::Obj(fields)),
        ] + (match span {
            Some(m) => seq![(span_key(), JsonSpec::Obj(m))],
            None => Seq::empty(),
        }) + (if scope_present {
            seq![(spans_key(), JsonSpec::Arr(spans))]
        } else {
            Seq::empty()
        }),
    )
}

/// Field precedence: whatever the attribute content, the assembled document
/// opens with `timestamp`, `level`, `target`, `fields`, in that order, and any
/// `span` or `spans` entry comes after them.
pub proof fn lemma_field_precedence(
    ts: Seq<u8>,
    level: Level,
    target: Seq<u8>,
    fields: RecordModel,
    span: Option<RecordModel>,
    scope_present: bool,
    spans: Seq<JsonSpec>,
)
    ensures
        ({
            let es = event_doc(ts, level, target, fields, span, scope_present, spans)->Obj_0;
            &&& es.len() >= 4
            &&& es[0].0 == timestamp_key()
            &&& es[1].0 == level_key()
            &&& es[2].0 == target_key()
            &&& es[3].0 == fields_key()
            &&& forall|j: int|
                4 <= j < es.len() ==> (es[j].0 == span_key() || es[j].0 == spans_key())
        }),
{
}

/// Ancestor order: with a span context whose nearest span carries a record,
/// the `span` entry stands right after the four fixed entries and holds that
/// record; the `spans` entry follows at once with the ancestor documents,
/// root first.
pub proof fn lemma_ancestor_order(
    ts: Seq<u8>,
    level: Level,
    target: Seq<u8>,
    fields: RecordModel,
    leaf: RecordModel,
    spans: Seq<JsonSpec>,
)
    ensures
        ({
            let es = event_doc(ts, level, target, fields, Some(leaf), true, spans)->Obj_0;
            &&& es.len() == 6
            &&& es[4] == (span_key(), JsonSpec::Obj(leaf))
            &&& es[5] == (spans_key(), JsonSpec::Arr(spans))
        }),
{
}

/// The interception layer. It keeps no state of its own: each span's document
/// lives with that span, and each event is rendered from the values handed in.
pub struct CustomJsonLayer;

impl Default for CustomJsonLayer {
    /// The layer.
    fn default() -> (r: Self)
        ensures
            r == CustomJsonLayer,
    {
        CustomJsonLayer
    }
}

impl CustomJsonLayer {
    /// On span creation: a fresh document holding the span's `target` and
    /// `name` before any user attribute, ready for the attribute recorder.
    pub fn on_new_span(&self, target: Vec<u8>, name: Vec<u8>) -> (r: JsonAttributeVisitor)
        ensures
            r.wf(),
            r.model() == crate::record::spec_insert(
                crate::record::spec_insert(
                    Seq::empty(),
                    target_key(),
                    JsonSpec::Str(target@),
                ),
                name_key(),
                JsonSpec::Str(name@),
            ),
    {
        let data = CustomLayerTracedData::default();
        let mut visitor = JsonAttributeVisitor::with_data(data);
        visitor.record_metadata(target, name);
        visitor
    }

    /// On attribute update: resume recording into a span's existing document;
    /// new values merge into it in place, they do not replace it.
    pub fn on_record(&self, data: CustomLayerTracedData) -> (r: JsonAttributeVisitor)
        ensures
            r.data == data,
    {
        JsonAttributeVisitor::with_data(data)
    }

    /// On event: assemble and render the event's document as one JSON line,
    /// newline terminated. Consumes the span scope, once.
    #[verifier::rlimit(80)]
    #[verifier::spinoff_prover]
    pub fn on_event(
        &self,
        timestamp: Vec<u8>,
        level: Level,
        target: Vec<u8>,
        fields: &CustomLayerTracedData,
        span: Option<&CustomLayerTracedData>,
        scope: &mut ScopeSerializer,
    ) -> (r: Vec<u8>)
        ensures
            final(scope).chain_model() == old(scope).chain_model(),
            final(scope).present == old(scope).present,
            old(scope).present ==> final(scope).consumed,
            !old(scope).present ==> final(scope).consumed == old(scope).consumed,
            r@ == json_text(
                event_doc(
                    timestamp@,
                    level,
                    target@,
                    fields@,
                    opt_record_model(span),
                    old(scope).present,
                    old(scope).docs(),
                ),
            ) + seq![10u8],
    {
        let ghost spans0 = scope.docs();
        let mut out: Vec<u8> = Vec::new();
        out.push(123);
        let ghost es0 = Seq::<(Seq<u8>, JsonSpec)>::empty();
        proof {
            assert(out@ =~= seq![123u8] + obj_inner(es0));
        }
        // timestamp
        let mut k = key_timestamp();
        let mut kt = str_token(k.as_slice());
        out.append(&mut kt);
        out.push(58);
        let mut vt = str_token(timestamp.as_slice());
        out.append(&mut vt);
        let ghost es1 = es0.push((timestamp_key(), JsonSpec::Str(timestamp@)));
        proof {
            lemma_obj_inner_push(es0, (timestamp_key(), JsonSpec::Str(timestamp@)));
            assert(out@ =~= seq![123u8] + obj_inner(es1));
        }
        // level
        out.push(44);
        let mut k = key_level();
        let mut kt = str_token(k.as_slice());
        out.append(&mut kt);
        out.push(58);
        let lv = level_token(level);
        let mut vt = str_token(lv.as_slice());
        out.append(&mut vt);
        let ghost es2 = es1.push((level_key(), JsonSpec::Str(level_text(level))));
        proof {
            lemma_obj_inner_push(es1, (level_key(), JsonSpec::Str(level_text(level))));
            assert(out@ =~= seq![123u8] + obj_inner(es2));
        }
        // target
        out.push(44);
        let mut k = key_target();
        let mut kt = str_token(k.as_slice());
        out.append(&mut kt);
        out.push(58);
        let mut vt = str_token(target.as_slice());
        out.append(&mut vt);
        let ghost es3 = es2.push((target_key(), JsonSpec::Str(target@)));
        proof {
            lemma_obj_inner_push(es2, (target_key(), JsonSpec::Str(target@)));
            assert(out@ =~= seq![123u8] + obj_inner(es3));
        }
        // fields
        out.push(44);
        let mut k = key_fields();
        let mut kt = str_token(k.as_slice());
        out.append(&mut kt);
        out.push(58);
        let mut vt = record_token(fields);
        out.append(&mut vt);
        let ghost es4 = es3.push((fields_key(), JsonSpec::Obj(fields@)));
        proof {
            lemma_obj_inner_push(es3, (fields_key(), JsonSpec::Obj(fields@)));
            assert(out@ =~= seq![123u8] + obj_inner(es4));
        }
        // span
        let ghost es5 = match opt_record_model(span) {
            Some(m) => es4.push((span_key(), JsonSpec::Obj(m))),
            None => es4,
        };
        match span {
            Some(d) => {
                out.push(44);
                let mut k = key_span();
                let mut kt = str_token(k.as_slice());
                out.append(&mut kt);
                out.push(58);
                let mut vt = record_token(d);
                out.append(&mut vt);
                proof {
                    lemma_obj_inner_push(es4, (span_key(), JsonSpec::Obj(d@)));
                    assert(out@ =~= seq![123u8] + obj_inner(es5));
                }
            },
            None => {},
        }
        // spans
        let ghost es6 = if scope.present {
            es5.push((spans_key(), JsonSpec::Arr(spans0)))
        } else {
            es5
        };
        if scope.present {
            out.push(44);
            let mut k = key_spans();
            let mut kt = str_token(k.as_slice());
            out.append(&mut kt);
            out.push(58);
            let mut vt = scope.serialize();
            out.append(&mut vt);
            proof {
                lemma_obj_inner_push(es5, (spans_key(), JsonSpec::Arr(spans0)));
                assert(out@ =~= seq![123u8] + obj_inner(es6));
            }
        }
        out.push(125);
        out.push(10);
        proof {
            let doc = event_doc(
                timestamp@,
                level,
                target@,
                fields@,
                opt_record_model(span),
                old(scope).present,
                spans0,
            );
            assert(es6 =~~= doc->Obj_0);
            assert(out@ =~= json_text(doc) + seq![10u8]);
        }
        out
    }

    /// On event, stamped with the capture time. Whatever the clock returned,
    /// the stamped text has the RFC 3339 UTC nanosecond shape: a reading whose
    /// rendering does not falls back to the epoch instant.
    pub fn on_event_now(
        &self,
        level: Level,
        target: Vec<u8>,
        fields: &CustomLayerTracedData,
        span: Option<&CustomLayerTracedData>,
        scope: &mut ScopeSerializer,
    ) -> (r: Vec<u8>)
        ensures
            final(scope).chain_model() == old(scope).chain_model(),
            final(scope).present == old(scope).present,
            old(scope).present ==> final(scope).consumed,
            !old(scope).present ==> final(scope).consumed == old(scope).consumed,
            exists|ts: Seq<u8>|
                rfc3339_utc_shape(ts) && r@ == json_text(
                    event_doc(
                        ts,
                        level,
                        target@,
                        fields@,
                        opt_record_model(span),
                        old(scope).present,
                        old(scope).docs(),
                    ),
                ) + seq![10u8],
    {
        let raw = utc_now_rfc3339();
        let timestamp = if validate_rfc3339(raw.as_slice()) {
            raw
        } else {
            let e = epoch_timestamp();
            proof {
                lemma_epoch_shape();
            }
            e
        };
        let ghost ts = timestamp@;
        proof {
            assert(rfc3339_utc_shape(ts));
        }
        let r = self.on_event(timestamp, level, target, fields, span, scope);
        proof {
            assert(rfc3339_utc_shape(ts) && r@ == json_text(
                event_doc(
                    ts,
                    level,
                    target@,
                    fields@,
                    opt_record_model(span),
                    old(scope).present,
                    old(scope).docs(),
                ),
            ) + seq![10u8]);
        }
        r
    }
}

/// Relies on std's `SystemTime::now`, chrono's fallible
/// `DateTime::from_timestamp` and its RFC 3339 rendering: the capture time in
/// UTC with nanosecond precision. No clock reading panics here: one before the
/// epoch or outside chrono's range degrades to the epoch instant. Nothing else
/// is promised of the clock.
#[verifier::external_body]
fn utc_now_rfc3339() -> (r: Vec<u8>)
{
    let now = std::time::SystemTime::now()
        .duration_since(std::time::UNIX_EPOCH)
        .ok()
        .and_then(|d| chrono::DateTime::from_timestamp(d.as_secs() as i64, d.subsec_nanos()))
        .unwrap_or(chrono::DateTime::UNIX_EPOCH);
    now.to_rfc3339_opts(chrono::SecondsFormat::Nanos, true).into_bytes()
}

/// The `timestamp` key as bytes.
fn key_timestamp() -> (r: Vec<u8>)
    ensures
        r@ == timestamp_key(),
{
    let mut out: Vec<u8> = Vec::new();
    out.push(116);
    out.push(105);
    out.push(109);
    out.push(101);
    out.push(115);
    out.push(116);
    out.push(97);
    out.push(109);
    out.push(112);
    proof {
        assert(out@ =~= timestamp_key());
    }
    out
}

/// The `level` key as bytes.
fn key_level() -> (r: Vec<u8>)
    ensures
        r@ == level_key(),
{
    let mut out: Vec<u8> = Vec::new();
    out.push(108);
    out.push(101);
    out.push(118);
    out.push(101);
    out.push(108);
    proof {
        assert(out@ =~= level_key());
    }
    out
}

/// The `target` key as bytes.
fn key_target() -> (r: Vec<u8>)
    ensures
        r@ == target_key(),
{
    let mut out: Vec<u8> = Vec::new();
    out.push(116);
    out.push(97);
    out.push(114);
    out.push(103);
    out.push(101);
    out.push(116);
    proof {
        assert(out@ =~= target_key());
    }
    out
}

/// The `fields` key as bytes.
fn key_fields() -> (r: Vec<u8>)
    ensures
        r@ == fields_key(),
{
    let mut out: Vec<u8> = Vec::new();
    out.push(102);
    out.push(105);
    out.push(101);
    out.push(108);
    out.push(100);
    out.push(115);
    proof {
        assert(out@ =~= fields_key());
    }
    out
}

/// The `span` key as bytes.
fn key_span() -> (r: Vec<u8>)
    ensures
        r@ == span_key(),
{
    let mut out: Vec<u8> = Vec::new();
    out.push(115);
    out.push(112);
    out.push(97);
    out.push(110);
    proof {
        assert(out@ =~= span_key());
    }
    out
}

/// The `spans` key as bytes.
fn key_spans() -> (r: Vec<u8>)
    ensures
        r@ == spans_key(),
{
    let mut out: Vec<u8> = Vec::new();
    out.push(115);
    out.push(112);
    out.push(97);
    out.push(110);
    out.push(115);
    proof {
        assert(out@ =~= spans_key());
    }
    out
}

} // verus!
