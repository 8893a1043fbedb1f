//! The per-span ordered attribute document: an insertion-ordered mapping from
//! field name to structured value. Insertion order is significant and kept;
//! re-inserting an existing key overwrites the value in place.

use vstd::prelude::*;

use crate::value::{JsonSpec, JsonValue};

verus! {

/// The model of a document: the entry sequence, in insertion order.
pub type RecordModel = Seq<(Seq<u8>, JsonSpec)>;

/// Whether some entry of `s` has key `k`.
pub open spec fn has_key(s: RecordModel, k: Seq<u8>) -> bool {
    exists|i: int| 0 <= i < s.len() && s[i].0 == k
}

/// The index of the entry with key `k` (unique when keys are unique).
pub open spec fn key_index(s: RecordModel, k: Seq<u8>) -> int {
    choose|i: int| 0 <= i < s.len() && s[i].0 == k
}

/// The value stored under key `k`.
pub open spec fn value_of(s: RecordModel, k: Seq<u8>) -> JsonSpec {
    s[key_index(s, k)].1
}

/// The key sequence of `s`, in entry order.
pub open spec fn keys_of(s: RecordModel) -> Seq<Seq<u8>> {
    Seq::new(s.len(), |i: int| s[i].0)
}

/// No two entries share a key.
pub open spec fn unique_keys(s: RecordModel) -> bool {
    forall|i: int, j: int| 0 <= i < j < s.len() ==> s[i].0 != s[j].0
}

/// Insertion into an ordered document: an existing key keeps its position and
/// takes the new value; a new key is appended at the end.
pub open spec fn spec_insert(s: RecordModel, k: Seq<u8>, v: JsonSpec) -> RecordModel {
    if has_key(s, k) {
        s.update(key_index(s, k), (k, v))
    } else {
        s.push((k, v))
    }
}

/// Byte-vector equality.
pub(crate) fn bytes_eq(a: &[u8], b: &[u8]) -> (r: bool)
    ensures
        r == (a@ == b@),
{
    if a.len() != b.len() {
        assert(a@ != b@) by {
            assert(a@.len() != b@.len());
        }
        return false;
    }
    let n = a.len();
    let mut i: usize = 0;
    while i < n
        invariant
            n == a@.len() == b@.len(),
            0 <= i <= n,
            forall|j: int| 0 <= j < i ==> a@[j] == b@[j],
        decreases n - i,
    {
        if a[i] != b[i] {
            return false;
        }
        i += 1;
    }
    proof {
        assert(a@ =~= b@);
    }
    true
}

/// Data recorded for one span (or for one event's own fields): an ordered
/// document of named structured values.
pub struct CustomLayerTracedData {
    entries: Vec<(Vec<u8>, JsonValue)>,
}

impl View for CustomLayerTracedData {
    type V = RecordModel;

    closed spec fn view(&self) -> RecordModel {
        Seq::new(self.entries@.len(), |i: int| (self.entries@[i].0@, self.entries@[i].1@))
    }
}

impl Default for CustomLayerTracedData {
    /// An empty document.
    fn default() -> (r: Self)
        ensures
            r@ == Seq::<(Seq<u8>, JsonSpec)>::empty(),
            r.wf(),
    {
        let r = CustomLayerTracedData { entries: Vec::new() };
        proof {
            assert(r@ =~= Seq::<(Seq<u8>, JsonSpec)>::empty());
        }
        r
    }
}

impl Clone for CustomLayerTracedData {
    /// A deep copy with the same model.
    fn clone(&self) -> (r: Self)
        ensures
            r@ == self@,
    {
        let n = self.entries.len();
        let mut out: Vec<(Vec<u8>, JsonValue)> = Vec::new();
        let mut i: usize = 0;
        while i < n
            invariant
                n == self.entries@.len(),
                0 <= i <= n,
                out@.len() == i,
                forall|j: int|
                    0 <= j < i ==> out@[j].0@ == self.entries@[j].0@ && out@[j].1@
                        == self.entries@[j].1@,
            decreases n - i,
        {
            let key = vstd::slice::slice_to_vec(self.entries[i].0.as_slice());
            let v = crate::value::clone_value(&self.entries[i].1);
            out.push((key, v));
            i += 1;
        }
        let r = CustomLayerTracedData { entries: out };
        proof {
            assert(r@ =~~= self@);
        }
        r
    }
}

impl CustomLayerTracedData {
    /// Well-formed: keys are unique, so each lookup is unambiguous.
    pub open spec fn wf(&self) -> bool {
        unique_keys(self@)
    }

    /// The number of entries.
    pub fn len(&self) -> (r: usize)
        ensures
            r == self@.len(),
    {
        self.entries.len()
    }

    /// The entries, in insertion order.
    pub fn entries(&self) -> (r: &Vec<(Vec<u8>, JsonValue)>)
        ensures
            r@.len() == self@.len(),
            forall|i: int|
                0 <= i < r@.len() ==> self@[i] == (r@[i].0@, r@[i].1@),
    {
        &self.entries
    }

    /// The index of the entry holding `key`, if any.
    fn find_key(&self, key: &[u8]) -> (r: Option<usize>)
        requires
            self.wf(),
        ensures
            match r {
                Some(i) => has_key(self@, key@) && key_index(self@, key@) == i as int,
                None => !has_key(self@, key@),
            },
    {
        let n = self.entries.len();
        let mut i: usize = 0;
        while i < n
            invariant
                n == self.entries@.len(),
                0 <= i <= n,
                self.wf(),
                forall|j: int| 0 <= j < i ==> self@[j].0 != key@,
            decreases n - i,
        {
            if bytes_eq(self.entries[i].0.as_slice(), key) {
                assert(self@[i as int].0 == key@);
                proof {
                    lemma_key_index_unique(self@, key@, i as int);
                }
                return Some(i);
            }
            i += 1;
        }
        None
    }

    /// Insert `value` under `key`: an existing key keeps its position and takes
    /// the new value, which is returned; a new key is appended at the end.
    pub fn insert(&mut self, key: Vec<u8>, value: JsonValue) -> (r: Option<JsonValue>)
        requires
            old(self).wf(),
        ensures
            final(self).wf(),
            final(self)@ == spec_insert(old(self)@, key@, value@),
            match r {
                Some(prev) => has_key(old(self)@, key@) && prev@ == value_of(old(self)@, key@),
                None => !has_key(old(self)@, key@),
            },
    {
        let ghost s0 = self@;
        match self.find_key(key.as_slice()) {
            Some(i) => {
                let ghost gi = i as int;
                let prev = self.entries.remove(i);
                self.entries.insert(i, (key, value));
                proof {
                    assert(self@ =~~= s0.update(gi, (key@, value@)));
                    assert(spec_insert(s0, key@, value@) == s0.update(gi, (key@, value@)));
                    assert(value_of(s0, key@) == s0[gi].1);
                    assert(prev.1@ == s0[gi].1);
                    assert forall|a: int, b: int| 0 <= a < b < self@.len() implies self@[a].0
                        != self@[b].0 by {
                        assert(s0[a].0 != s0[b].0);
                    }
                }
                Some(prev.1)
            }
            None => {
                self.entries.push((key, value));
                proof {
                    assert(self@ =~~= s0.push((key@, value@)));
                    assert forall|a: int, b: int| 0 <= a < b < self@.len() implies self@[a].0
                        != self@[b].0 by {
                        if b < s0.len() {
                            assert(s0[a].0 != s0[b].0);
                        } else {
                            assert(self@[b].0 == key@);
                            assert(s0[a].0 != key@);
                        }
                    }
                }
                None
            }
        }
    }

    /// Look up the value stored under `key`.
    pub fn get(&self, key: &[u8]) -> (r: Option<&JsonValue>)
        requires
            self.wf(),
        ensures
            match r {
                Some(v) => has_key(self@, key@) && v@ == value_of(self@, key@),
                None => !has_key(self@, key@),
            },
    {
        let n = self.entries.len();
        let mut i: usize = 0;
        while i < n
            invariant
                n == self.entries@.len(),
                0 <= i <= n,
                self.wf(),
                forall|j: int| 0 <= j < i ==> self@[j].0 != key@,
        decreases n - i,
    {
            if bytes_eq(self.entries[i].0.as_slice(), key) {
                assert(self@[i as int].0 == key@);
                proof {
                    let ki = key_index(self@, key@);
                    assert(0 <= ki < self@.len() && self@[ki].0 == key@);
                    assert(ki == i as int) by {
                        if ki < i as int {
                            assert(self@[ki].0 != self@[i as int].0);
                        } else if ki > i as int {
                            assert(self@[i as int].0 != self@[ki].0);
                        }
                    }
                }
                return Some(&self.entries[i].1);
            }
            i += 1;
        }
        None
    }
}

/// Order preservation: for any document with unique keys, inserting a value
/// keeps the key sequence unchanged when the key already occurs (the most
/// recent value wins, in place), and appends the key at the end otherwise;
/// every other entry is untouched.
pub proof fn lemma_order_preservation(s: RecordModel, k: Seq<u8>, v: JsonSpec)
    requires
        unique_keys(s),
    ensures
        unique_keys(spec_insert(s, k, v)),
        has_key(s, k) ==> keys_of(spec_insert(s, k, v)) == keys_of(s),
        !has_key(s, k) ==> keys_of(spec_insert(s, k, v)) == keys_of(s).push(k),
        has_key(spec_insert(s, k, v), k),
        value_of(spec_insert(s, k, v), k) == v,
        forall|k2: Seq<u8>|
            k2 != k ==> (has_key(spec_insert(s, k, v), k2) == has_key(s, k2)),
        forall|k2: Seq<u8>|
            k2 != k && has_key(s, k2) ==> value_of(spec_insert(s, k, v), k2) == value_of(s, k2),
{
    let t = spec_insert(s, k, v);
    if has_key(s, k) {
        let ki = key_index(s, k);
        assert(0 <= ki < s.len() && s[ki].0 == k);
        assert(t == s.update(ki, (k, v)));
        assert(keys_of(t) =~= keys_of(s));
        assert(unique_keys(t)) by {
            assert forall|a: int, b: int| 0 <= a < b < t.len() implies t[a].0 != t[b].0 by {
                assert(t[a].0 == s[a].0 && t[b].0 == s[b].0);
            }
        }
        assert(t[ki].0 == k);
        lemma_key_index_unique(t, k, ki);
        assert(value_of(t, k) == v);
        assert forall|k2: Seq<u8>| k2 != k implies (has_key(t, k2) == has_key(s, k2)) by {
            assert forall|i: int| 0 <= i < s.len() implies t[i].0 == s[i].0 by {}
            if has_key(t, k2) {
                let i = choose|i: int| 0 <= i < t.len() && t[i].0 == k2;
                assert(s[i].0 == k2);
            }
            if has_key(s, k2) {
                let i = choose|i: int| 0 <= i < s.len() && s[i].0 == k2;
                assert(t[i].0 == k2);
            }
        }
        assert forall|k2: Seq<u8>| k2 != k && has_key(s, k2) implies value_of(t, k2) == value_of(
            s,
            k2,
        ) by {
            let i = key_index(s, k2);
            assert(0 <= i < s.len() && s[i].0 == k2);
            assert(i != ki);
            assert(t[i] == s[i]);
            lemma_key_index_unique(t, k2, i);
        }
    } else {
        assert(t == s.push((k, v)));
        assert(keys_of(t) =~= keys_of(s).push(k));
        assert(unique_keys(t)) by {
            assert forall|a: int, b: int| 0 <= a < b < t.len() implies t[a].0 != t[b].0 by {
                if b < s.len() {
                    assert(t[a].0 == s[a].0 && t[b].0 == s[b].0);
                } else {
                    assert(t[b].0 == k);
                    assert(t[a].0 == s[a].0);
                    assert(!(exists|i: int| 0 <= i < s.len() && s[i].0 == k));
                }
            }
        }
        assert(t[s.len() as int].0 == k);
        lemma_key_index_unique(t, k, s.len() as int);
        assert(value_of(t, k) == v);
        assert forall|k2: Seq<u8>| k2 != k implies (has_key(t, k2) == has_key(s, k2)) by {
            if has_key(t, k2) {
                let i = choose|i: int| 0 <= i < t.len() && t[i].0 == k2;
                assert(i < s.len());
                assert(s[i].0 == k2);
            }
            if has_key(s, k2) {
                let i = choose|i: int| 0 <= i < s.len() && s[i].0 == k2;
                assert(t[i].0 == k2);
            }
        }
        assert forall|k2: Seq<u8>| k2 != k && has_key(s, k2) implies value_of(t, k2) == value_of(
            s,
            k2,
        ) by {
            let i = key_index(s, k2);
            assert(0 <= i < s.len() && s[i].0 == k2);
            assert(t[i] == s[i]);
            lemma_key_index_unique(t, k2, i);
        }
    }
}

/// With unique keys, any index whose entry has key `k` is the key's index.
pub proof fn lemma_key_index_unique(s: RecordModel, k: Seq<u8>, i: int)
    requires
        unique_keys(s),
        0 <= i < s.len(),
        s[i].0 == k,
    ensures
        key_index(s, k) == i,
        has_key(s, k),
{
    assert(has_key(s, k));
    let ki = key_index(s, k);
    assert(0 <= ki < s.len() && s[ki].0 == k);
    if ki < i {
        assert(s[ki].0 != s[i].0);
    } else if ki > i {
        assert(s[i].0 != s[ki].0);
    }
}

} // verus!

