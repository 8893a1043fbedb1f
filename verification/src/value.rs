//! The structured value union: the common currency between the typed-field
//! recording protocol and nested documents.

use vstd::prelude::*;

verus! {

/// Mathematical model of a structured value. A floating-point number is
/// carried as its rendered JSON number token, never interpreted
/// arithmetically.
pub enum JsonSpec {
    Null,
    Bool(bool),
    UInt(u64),
    Int(i64),
    Float(Seq<u8>),
    Str(Seq<u8>),
    Arr(Seq<JsonSpec>),
    Obj(Seq<(Seq<u8>, JsonSpec)>),
}

/// A tree-shaped structured value: scalar, ordered list, or ordered key-value
/// document. Strings are UTF-8 byte vectors; object entry order is significant.
#[derive(Debug, PartialEq, Eq)]
pub enum JsonValue {
    Null,
    Bool(bool),
    UInt(u64),
    Int(i64),
    Float(Vec<u8>),
    Str(Vec<u8>),
    Arr(Vec<JsonValue>),
    Obj(Vec<(Vec<u8>, JsonValue)>),
}

/// The index just past the run of decimal digits starting at `i`.
pub open spec fn digit_run_end(s: Seq<u8>, i: int) -> int
    decreases s.len() - i when 0 <= i <= s.len()
{
    if i < s.len() && 48 <= s[i] <= 57 {
        digit_run_end(s, i + 1)
    } else {
        i
    }
}

/// Whether `s` is one complete JSON number token: an optional minus sign, an
/// integer part (`0`, or a nonzero digit followed by digits), an optional
/// fraction, and an optional exponent, with nothing before or after.
pub open spec fn json_number_token(s: Seq<u8>) -> bool {
    let start: int = if s.len() > 0 && s[0] == 45 {
        1
    } else {
        0
    };
    let int_end: int = if start < s.len() && s[start] == 48 {
        start + 1
    } else if start < s.len() && 49 <= s[start] <= 57 {
        digit_run_end(s, start)
    } else {
        -1
    };
    if int_end < 0 {
        false
    } else {
        let frac_end: int = if int_end < s.len() && s[int_end] == 46 {
            if digit_run_end(s, int_end + 1) > int_end + 1 {
                digit_run_end(s, int_end + 1)
            } else {
                -1
            }
        } else {
            int_end
        };
        if frac_end < 0 {
            false
        } else {
            let exp_end: int = if frac_end < s.len() && (s[frac_end] == 101 || s[frac_end]
                == 69) {
                let ds: int = if frac_end + 1 < s.len() && (s[frac_end + 1] == 43 || s[frac_end
                    + 1] == 45) {
                    frac_end + 2
                } else {
                    frac_end + 1
                };
                if digit_run_end(s, ds) > ds {
                    digit_run_end(s, ds)
                } else {
                    -1
                }
            } else {
                frac_end
            };
            exp_end == s.len()
        }
    }
}

/// The index just past the run of digits starting at `i`.
fn digit_run(s: &[u8], i: usize) -> (r: usize)
    requires
        i <= s@.len(),
    ensures
        r == digit_run_end(s@, i as int),
        i <= r <= s@.len(),
{
    let n = s.len();
    let mut j = i;
    while j < n && 48 <= s[j] && s[j] <= 57
        invariant
            i <= j <= n,
            n == s@.len(),
            digit_run_end(s@, i as int) == digit_run_end(s@, j as int),
        decreases n - j,
    {
        j += 1;
    }
    j
}

/// Whether `s` is one complete JSON number token.
pub fn is_number_token(s: &[u8]) -> (r: bool)
    ensures
        r == json_number_token(s@),
{
    let n = s.len();
    let start: usize = if n > 0 && s[0] == 45 {
        1
    } else {
        0
    };
    if start >= n {
        return false;
    }
    let int_end: usize = if s[start] == 48 {
        start + 1
    } else if 49 <= s[start] && s[start] <= 57 {
        digit_run(s, start)
    } else {
        return false;
    };
    let frac_end: usize = if int_end < n && s[int_end] == 46 {
        let d = digit_run(s, int_end + 1);
        if d > int_end + 1 {
            d
        } else {
            return false;
        }
    } else {
        int_end
    };
    let exp_end: usize = if frac_end < n && (s[frac_end] == 101 || s[frac_end] == 69) {
        let ds: usize = if frac_end + 1 < n && (s[frac_end + 1] == 43 || s[frac_end + 1] == 45) {
            frac_end + 2
        } else {
            frac_end + 1
        };
        let d = digit_run(s, ds);
        if d > ds {
            d
        } else {
            return false;
        }
    } else {
        frac_end
    };
    exp_end == n
}

/// The model of an executable structured value.
pub open spec fn model_of(v: JsonValue) -> JsonSpec
    decreases v,
    via model_of_decreases
{
    match v {
        JsonValue::Null => JsonSpec::Null,
        JsonValue::Bool(b) => JsonSpec::Bool(b),
        JsonValue::UInt(u) => JsonSpec::UInt(u),
        JsonValue::Int(i) => JsonSpec::Int(i),
        JsonValue::Float(_) => JsonSpec::Float(v->Float_0@),
        JsonValue::Str(_) => JsonSpec::Str(v->Str_0@),
        JsonValue::Arr(_) => JsonSpec::Arr(
            Seq::new(
                v->Arr_0@.len(),
                |i: int|
                    if 0 <= i < v->Arr_0@.len() {
                        model_of(v->Arr_0@[i])
                    } else {
                        JsonSpec::Null
                    },
            ),
        ),
        JsonValue::Obj(_) => JsonSpec::Obj(
            Seq::new(
                v->Obj_0@.len(),
                |i: int|
                    if 0 <= i < v->Obj_0@.len() {
                        (v->Obj_0@[i].0@, model_of(v->Obj_0@[i].1))
                    } else {
                        (Seq::empty(), JsonSpec::Null)
                    },
            ),
        ),
    }
}

#[via_fn]
proof fn model_of_decreases(v: JsonValue) {
    match v {
        JsonValue::Arr(_) => {
            assert forall|i: int| 0 <= i < v->Arr_0@.len() implies decreases_to!(
                v => v->Arr_0@[i]) by {
                assert(decreases_to!(v => v->Arr_0));
                assert(decreases_to!(v->Arr_0 => v->Arr_0@));
                assert(decreases_to!(v->Arr_0@ => v->Arr_0@[i]));
            }
        }
        JsonValue::Obj(_) => {
            assert forall|i: int| 0 <= i < v->Obj_0@.len() implies decreases_to!(
                v => v->Obj_0@[i].1) by {
                assert(decreases_to!(v => v->Obj_0));
                assert(decreases_to!(v->Obj_0 => v->Obj_0@));
                assert(decreases_to!(v->Obj_0@ => v->Obj_0@[i]));
                assert(decreases_to!(v->Obj_0@[i] => v->Obj_0@[i].1));
            }
        }
        _ => {}
    }
}

/// A deep copy of a structured value, with the same model.
pub fn clone_value(v: &JsonValue) -> (r: JsonValue)
    ensures
        r@ == v@,
    decreases *v,
{
    match v {
        JsonValue::Null => JsonValue::Null,
        JsonValue::Bool(b) => JsonValue::Bool(*b),
        JsonValue::UInt(u) => JsonValue::UInt(*u),
        JsonValue::Int(i) => JsonValue::Int(*i),
        JsonValue::Float(t) => JsonValue::Float(vstd::slice::slice_to_vec(t.as_slice())),
        JsonValue::Str(s) => JsonValue::Str(vstd::slice::slice_to_vec(s.as_slice())),
        JsonValue::Arr(items) => {
            let n = items.len();
            let mut out: Vec<JsonValue> = Vec::new();
            let mut i: usize = 0;
            while i < n
                invariant
                    *v is Arr,
                    v->Arr_0 == *items,
                    n == items@.len(),
                    0 <= i <= n,
                    out@.len() == i,
                    forall|j: int| 0 <= j < i ==> out@[j]@ == items@[j]@,
                decreases n - i,
            {
                proof {
                    assert(decreases_to!(*v => v->Arr_0));
                    assert(decreases_to!(v->Arr_0 => v->Arr_0@));
                    assert(decreases_to!(v->Arr_0@ => v->Arr_0@[i as int]));
                    assert(v->Arr_0@[i as int] == items@[i as int]);
                }
                let c = clone_value(&items[i]);
                out.push(c);
                i += 1;
            }
            let r = JsonValue::Arr(out);
            proof {
                assert(r@->Arr_0 =~= v@->Arr_0);
            }
            r
        },
        JsonValue::Obj(entries) => {
            let n = entries.len();
            let mut out: Vec<(Vec<u8>, JsonValue)> = Vec::new();
            let mut i: usize = 0;
            while i < n
                invariant
                    *v is Obj,
                    v->Obj_0 == *entries,
                    n == entries@.len(),
                    0 <= i <= n,
                    out@.len() == i,
                    forall|j: int|
                        0 <= j < i ==> out@[j].0@ == entries@[j].0@ && out@[j].1@
                            == entries@[j].1@,
                decreases n - i,
            {
                proof {
                    assert(decreases_to!(*v => v->Obj_0));
                    assert(decreases_to!(v->Obj_0 => v->Obj_0@));
                    assert(decreases_to!(v->Obj_0@ => v->Obj_0@[i as int]));
                    assert(decreases_to!(v->Obj_0@[i as int] => v->Obj_0@[i as int].1));
                    assert(v->Obj_0@[i as int].1 == entries@[i as int].1);
                }
                let key = vstd::slice::slice_to_vec(entries[i].0.as_slice());
                let c = clone_value(&entries[i].1);
                out.push((key, c));
                i += 1;
            }
            let r = JsonValue::Obj(out);
            proof {
                assert(r@->Obj_0 =~= v@->Obj_0);
            }
            r
        },
    }
}

impl Clone for JsonValue {
    /// A deep copy with the same model.
    fn clone(&self) -> (r: Self)
        ensures
            r@ == self@,
    {
        clone_value(self)
    }
}

impl View for JsonValue {
    type V = JsonSpec;

    open spec fn view(&self) -> JsonSpec {
        model_of(*self)
    }
}

} // verus!
