//! Rendering structured values as JSON text, byte by byte. The text layout
//! (escaping, integer digits, punctuation, entry order) is specified here and
//! the writers are proved against it; only the rendering of one float token is
//! delegated.

use vstd::prelude::*;

use crate::value::{JsonSpec, JsonValue};
use crate::record::CustomLayerTracedData;

verus! {

/// Hexadecimal digit (lower case) for a value below 16.
pub open spec fn hex_digit(n: u8) -> u8 {
    if n < 10 {
        (48 + n) as u8
    } else {
        (87 + n) as u8
    }
}

/// How one byte of a string is written inside quotes: quote and backslash are
/// escaped, control bytes take the `\u00XX` form, all else passes through.
pub open spec fn esc_byte(b: u8) -> Seq<u8> {
    if b == 34 {
        seq![92u8, 34u8]
    } else if b == 92 {
        seq![92u8, 92u8]
    } else if b < 32 {
        seq![92u8, 117u8, 48u8, 48u8, hex_digit(b / 16), hex_digit(b % 16)]
    } else {
        seq![b]
    }
}

/// The escaped form of a whole string body.
pub open spec fn escaped(s: Seq<u8>) -> Seq<u8>
    decreases s.len(),
{
    if s.len() == 0 {
        Seq::empty()
    } else {
        escaped(s.subrange(0, s.len() - 1)) + esc_byte(s[s.len() - 1])
    }
}

/// Decimal digits of a natural number, most significant first.
pub open spec fn dec_digits(n: nat) -> Seq<u8>
    decreases n,
{
    if n < 10 {
        seq![(48 + n) as u8]
    } else {
        dec_digits(n / 10) + seq![(48 + n % 10) as u8]
    }
}

/// The token for an unsigned integer.
pub open spec fn uint_text(n: u64) -> Seq<u8> {
    dec_digits(n as nat)
}

/// The token for a signed integer.
pub open spec fn int_text(i: i64) -> Seq<u8> {
    if i >= 0 {
        dec_digits(i as nat)
    } else {
        seq![45u8] + dec_digits((-(i as int)) as nat)
    }
}

/// A quoted, escaped string.
pub open spec fn str_text(s: Seq<u8>) -> Seq<u8> {
    seq![34u8] + escaped(s) + seq![34u8]
}

/// The JSON text of a structured value.
pub open spec fn json_text(v: JsonSpec) -> Seq<u8>
    decreases v,
{
    match v {
        JsonSpec::Null => seq![110u8, 117u8, 108u8, 108u8],
        JsonSpec::Bool(b) => if b {
            seq![116u8, 114u8, 117u8, 101u8]
        } else {
            seq![102u8, 97u8, 108u8, 115u8, 101u8]
        },
        JsonSpec::UInt(u) => uint_text(u),
        JsonSpec::Int(i) => int_text(i),
        JsonSpec::Float(_) => v->Float_0,
        JsonSpec::Str(_) => str_text(v->Str_0),
        JsonSpec::Arr(_) => seq![91u8] + arr_inner(v->Arr_0) + seq![93u8],
        JsonSpec::Obj(_) => seq![123u8] + obj_inner(v->Obj_0) + seq![125u8],
    }
}

/// The comma-separated element list of an array.
pub open spec fn arr_inner(items: Seq<JsonSpec>) -> Seq<u8>
    decreases items,
{
    if items.len() == 0 {
        Seq::empty()
    } else if items.len() == 1 {
        json_text(items[0])
    } else {
        arr_inner(items.subrange(0, items.len() - 1)) + seq![44u8] + json_text(
            items[items.len() - 1],
        )
    }
}

/// One `"key":value` entry of an object.
pub open spec fn entry_text(e: (Seq<u8>, JsonSpec)) -> Seq<u8>
    decreases e,
{
    str_text(e.0) + seq![58u8] + json_text(e.1)
}

/// The comma-separated entry list of an object.
pub open spec fn obj_inner(entries: Seq<(Seq<u8>, JsonSpec)>) -> Seq<u8>
    decreases entries,
{
    if entries.len() == 0 {
        Seq::empty()
    } else if entries.len() == 1 {
        entry_text(entries[0])
    } else {
        obj_inner(entries.subrange(0, entries.len() - 1)) + seq![44u8] + entry_text(
            entries[entries.len() - 1],
        )
    }
}

/// Extending an element list by one element extends its text by a comma (after
/// the first element) and the element's own text.
proof fn lemma_arr_inner_step(items: Seq<JsonSpec>, i: int)
    requires
        0 <= i < items.len(),
    ensures
        arr_inner(items.subrange(0, i + 1)) == if i == 0 {
            json_text(items[0])
        } else {
            arr_inner(items.subrange(0, i)) + seq![44u8] + json_text(items[i])
        },
{
    let pre = items.subrange(0, i + 1);
    assert(pre.len() == i + 1);
    assert(pre[i] == items[i]);
    if i == 0 {
        assert(arr_inner(pre) == json_text(pre[0]));
    } else {
        assert(pre.subrange(0, i) =~= items.subrange(0, i));
    }
}

/// The same step fact for object entry lists.
proof fn lemma_obj_inner_step(entries: Seq<(Seq<u8>, JsonSpec)>, i: int)
    requires
        0 <= i < entries.len(),
    ensures
        obj_inner(entries.subrange(0, i + 1)) == if i == 0 {
            entry_text(entries[0])
        } else {
            obj_inner(entries.subrange(0, i)) + seq![44u8] + entry_text(entries[i])
        },
{
    let pre = entries.subrange(0, i + 1);
    assert(pre.len() == i + 1);
    assert(pre[i] == entries[i]);
    if i == 0 {
        assert(obj_inner(pre) == entry_text(pre[0]));
    } else {
        assert(pre.subrange(0, i) =~= entries.subrange(0, i));
    }
}

/// Appending one entry to an entry list extends its text by a comma (after
/// the first entry) and the entry's own text.
pub(crate) proof fn lemma_obj_inner_push(s: Seq<(Seq<u8>, JsonSpec)>, e: (Seq<u8>, JsonSpec))
    ensures
        obj_inner(s.push(e)) == if s.len() == 0 {
            entry_text(e)
        } else {
            obj_inner(s) + seq![44u8] + entry_text(e)
        },
{
    let t = s.push(e);
    assert(t[t.len() - 1] == e);
    if s.len() == 0 {
        assert(obj_inner(t) == entry_text(t[0]));
    } else {
        assert(t.subrange(0, t.len() - 1) =~= s);
    }
}

/// The escaped text grows by the escape of one byte.
proof fn lemma_escaped_step(s: Seq<u8>, i: int)
    requires
        0 <= i < s.len(),
    ensures
        escaped(s.subrange(0, i + 1)) == escaped(s.subrange(0, i)) + esc_byte(s[i]),
{
    let pre = s.subrange(0, i + 1);
    assert(pre.len() == i + 1);
    assert(pre[i] == s[i]);
    assert(pre.subrange(0, i) =~= s.subrange(0, i));
}

/// The digits of an unsigned integer.
pub fn uint_token(n: u64) -> (r: Vec<u8>)
    ensures
        r@ == uint_text(n),
    decreases n,
{
    if n < 10 {
        let mut out: Vec<u8> = Vec::new();
        out.push((48 + n) as u8);
        proof {
            assert(out@ =~= seq![(48 + n as nat) as u8]);
        }
        out
    } else {
        let mut out = uint_token(n / 10);
        out.push((48 + (n % 10)) as u8);
        proof {
            assert(dec_digits(n as nat) == dec_digits((n as nat) / 10) + seq![
                (48 + (n as nat) % 10) as u8,
            ]);
            assert((n / 10) as nat == (n as nat) / 10);
            assert((n % 10) as nat == (n as nat) % 10);
            assert(out@ =~= uint_text(n));
        }
        out
    }
}

/// The token of a signed integer: a minus sign and the magnitude's digits when
/// negative.
pub fn int_token(i: i64) -> (r: Vec<u8>)
    ensures
        r@ == int_text(i),
{
    if i >= 0 {
        uint_token(i as u64)
    } else {
        let mag: u64 = (-(i as i128)) as u64;
        let mut out: Vec<u8> = Vec::new();
        out.push(45);
        let mut digits = uint_token(mag);
        out.append(&mut digits);
        proof {
            assert(mag as nat == (-(i as int)) as nat);
            assert(out@ =~= int_text(i));
        }
        out
    }
}

/// A copy of a byte slice.
fn copy_bytes(s: &[u8]) -> (r: Vec<u8>)
    ensures
        r@ == s@,
{
    let r = vstd::slice::slice_to_vec(s);
    r
}

/// The escaped body of a string.
fn escaped_bytes(s: &[u8]) -> (r: Vec<u8>)
    ensures
        r@ == escaped(s@),
{
    let n = s.len();
    let mut out: Vec<u8> = Vec::new();
    let mut i: usize = 0;
    proof {
        assert(s@.subrange(0, 0) =~= Seq::<u8>::empty());
    }
    while i < n
        invariant
            n == s@.len(),
            0 <= i <= n,
            out@ == escaped(s@.subrange(0, i as int)),
        decreases n - i,
    {
        let b = s[i];
        let ghost out0 = out@;
        if b == 34 {
            out.push(92);
            out.push(34);
            proof {
                assert(out@ =~= out0 + esc_byte(b));
            }
        } else if b == 92 {
            out.push(92);
            out.push(92);
            proof {
                assert(out@ =~= out0 + esc_byte(b));
            }
        } else if b < 32 {
            out.push(92);
            out.push(117);
            out.push(48);
            out.push(48);
            let hi = b / 16;
            let lo = b % 16;
            out.push(if hi < 10 { 48 + hi } else { 87 + hi });
            out.push(if lo < 10 { 48 + lo } else { 87 + lo });
            proof {
                assert(out@ =~= out0 + esc_byte(b));
            }
        } else {
            out.push(b);
            proof {
                assert(out@ =~= out0 + esc_byte(b));
            }
        }
        proof {
            lemma_escaped_step(s@, i as int);
        }
        i += 1;
    }
    proof {
        assert(s@.subrange(0, n as int) =~= s@);
    }
    out
}

/// A quoted, escaped string token.
pub(crate) fn str_token(s: &[u8]) -> (r: Vec<u8>)
    ensures
        r@ == str_text(s@),
{
    let mut out: Vec<u8> = Vec::new();
    out.push(34);
    let mut body = escaped_bytes(s);
    out.append(&mut body);
    out.push(34);
    proof {
        assert(out@ =~= str_text(s@));
    }
    out
}

/// The JSON text of a structured value.
pub fn write_json(v: &JsonValue) -> (r: Vec<u8>)
    ensures
        r@ == json_text(v@),
    decreases *v,
{
    match v {
        JsonValue::Null => {
            let mut out: Vec<u8> = Vec::new();
            out.push(110);
            out.push(117);
            out.push(108);
            out.push(108);
            proof {
                assert(out@ =~= json_text(v@));
            }
            out
        },
        JsonValue::Bool(b) => {
            let mut out: Vec<u8> = Vec::new();
            if *b {
                out.push(116);
                out.push(114);
                out.push(117);
                out.push(101);
            } else {
                out.push(102);
                out.push(97);
                out.push(108);
                out.push(115);
                out.push(101);
            }
            proof {
                assert(out@ =~= json_text(v@));
            }
            out
        },
        JsonValue::UInt(u) => uint_token(*u),
        JsonValue::Int(i) => int_token(*i),
        JsonValue::Float(t) => {
            let mut out: Vec<u8> = Vec::new();
            let mut body = copy_bytes(t.as_slice());
            out.append(&mut body);
            proof {
                assert(out@ =~= json_text(v@));
            }
            out
        },
        JsonValue::Str(s) => str_token(s.as_slice()),
        JsonValue::Arr(items) => {
            let ghost ms = v@->Arr_0;
            let mut out: Vec<u8> = Vec::new();
            out.push(91);
            let n = items.len();
            proof {
                assert(ms.len() == n);
                assert(out@ =~= seq![91u8] + arr_inner(ms.subrange(0, 0)));
            }
            let mut i: usize = 0;
            while i < n
                invariant
                    *v is Arr,
                    v->Arr_0 == *items,
                    ms == v@->Arr_0,
                    n == items@.len(),
                    n == ms.len(),
                    0 <= i <= n,
                    forall|j: int| 0 <= j < n ==> ms[j] == items@[j]@,
                    out@ == seq![91u8] + arr_inner(ms.subrange(0, i as int)),
                decreases n - i,
            {
                if i > 0 {
                    out.push(44);
                }
                proof {
                    assert(*v is Arr);
                    assert(v->Arr_0 == *items);
                    assert(decreases_to!(*v => v->Arr_0));
                    assert(decreases_to!(v->Arr_0 => v->Arr_0@));
                    assert(decreases_to!(v->Arr_0@ => v->Arr_0@[i as int]));
                    assert(v->Arr_0@[i as int] == items@[i as int]);
                }
                let mut child = write_json(&items[i]);
                out.append(&mut child);
                proof {
                    lemma_arr_inner_step(ms, i as int);
                    assert(out@ =~= seq![91u8] + arr_inner(ms.subrange(0, i + 1)));
                }
                i += 1;
            }
            out.push(93);
            proof {
                assert(ms.subrange(0, n as int) =~= ms);
                assert(out@ =~= json_text(v@));
            }
            out
        },
        JsonValue::Obj(entries) => {
            let ghost ms = v@->Obj_0;
            let mut out: Vec<u8> = Vec::new();
            out.push(123);
            let n = entries.len();
            proof {
                assert(ms.len() == n);
                assert(out@ =~= seq![123u8] + obj_inner(ms.subrange(0, 0)));
            }
            let mut i: usize = 0;
            while i < n
                invariant
                    *v is Obj,
                    v->Obj_0 == *entries,
                    ms == v@->Obj_0,
                    n == entries@.len(),
                    n == ms.len(),
                    0 <= i <= n,
                    forall|j: int| 0 <= j < n ==> ms[j] == (entries@[j].0@, entries@[j].1@),
                    out@ == seq![123u8] + obj_inner(ms.subrange(0, i as int)),
                decreases n - i,
            {
                if i > 0 {
                    out.push(44);
                }
                let mut key = str_token(entries[i].0.as_slice());
                out.append(&mut key);
                out.push(58);
                proof {
                    assert(*v is Obj);
                    assert(v->Obj_0 == *entries);
                    assert(decreases_to!(*v => v->Obj_0));
                    assert(decreases_to!(v->Obj_0 => v->Obj_0@));
                    assert(decreases_to!(v->Obj_0@ => v->Obj_0@[i as int]));
                    assert(decreases_to!(v->Obj_0@[i as int] => v->Obj_0@[i as int].1));
                    assert(v->Obj_0@[i as int].1 == entries@[i as int].1);
                }
                let mut child = write_json(&entries[i].1);
                out.append(&mut child);
                proof {
                    lemma_obj_inner_step(ms, i as int);
                    assert(entry_text(ms[i as int]) == str_text(entries@[i as int].0@) + seq![58u8]
                        + json_text(entries@[i as int].1@));
                    assert(out@ =~= seq![123u8] + obj_inner(ms.subrange(0, i + 1)));
                }
                i += 1;
            }
            out.push(125);
            proof {
                assert(ms.subrange(0, n as int) =~= ms);
                assert(out@ =~= json_text(v@));
            }
            out
        },
    }
}

/// The JSON text of one recorded document: an object of its entries in order.
pub fn record_token(d: &CustomLayerTracedData) -> (r: Vec<u8>)
    ensures
        r@ == json_text(JsonSpec::Obj(d@)),
{
    let entries = d.entries();
    let ghost ms = d@;
    let mut out: Vec<u8> = Vec::new();
    out.push(123);
    let n = entries.len();
    proof {
        assert(ms.len() == n);
        assert(out@ =~= seq![123u8] + obj_inner(ms.subrange(0, 0)));
    }
    let mut i: usize = 0;
    while i < n
        invariant
            n == entries@.len(),
            n == ms.len(),
            0 <= i <= n,
            forall|j: int| 0 <= j < n ==> ms[j] == (entries@[j].0@, entries@[j].1@),
            out@ == seq![123u8] + obj_inner(ms.subrange(0, i as int)),
        decreases n - i,
    {
        if i > 0 {
            out.push(44);
        }
        let mut key = str_token(entries[i].0.as_slice());
        out.append(&mut key);
        out.push(58);
        let mut child = write_json(&entries[i].1);
        out.append(&mut child);
        proof {
            lemma_obj_inner_step(ms, i as int);
            assert(out@ =~= seq![123u8] + obj_inner(ms.subrange(0, i + 1)));
        }
        i += 1;
    }
    out.push(125);
    proof {
        assert(ms.subrange(0, n as int) =~= ms);
        assert(out@ =~= seq![123u8] + obj_inner(ms) + seq![125u8]);
    }
    out
}

} // verus!
