//! Serialization of an event's ancestor span chain, root first. The chain is
//! obtained once from the span registry and may be consumed exactly once: a
//! second attempt yields an empty sequence, never an error.

use vstd::prelude::*;

use crate::record::{CustomLayerTracedData, RecordModel};
use crate::ser::{arr_inner, json_text, record_token};
use crate::value::JsonSpec;

verus! {

/// The documents of the present records of a chain, in chain order; an absent
/// record contributes nothing.
pub open spec fn present_docs(chain: Seq<Option<RecordModel>>) -> Seq<JsonSpec>
    decreases chain.len(),
{
    if chain.len() == 0 {
        Seq::empty()
    } else {
        present_docs(chain.subrange(0, chain.len() - 1)) + (match chain[chain.len() - 1] {
            Some(m) => seq![JsonSpec::Obj(m)],
            None => Seq::empty(),
        })
    }
}

/// Appending one chain entry appends its document, if present.
proof fn lemma_present_docs_step(chain: Seq<Option<RecordModel>>, i: int)
    requires
        0 <= i < chain.len(),
    ensures
        present_docs(chain.subrange(0, i + 1)) == present_docs(chain.subrange(0, i)) + (match chain[
            i
        ] {
            Some(m) => seq![JsonSpec::Obj(m)],
            None => Seq::<JsonSpec>::empty(),
        }),
{
    let pre = chain.subrange(0, i + 1);
    assert(pre.len() == i + 1);
    assert(pre[i] == chain[i]);
    assert(pre.subrange(0, i) =~= chain.subrange(0, i));
}

/// Appending one element to a list extends its text by a comma (after the
/// first element) and the element's own text.
proof fn lemma_arr_inner_push(s: Seq<JsonSpec>, x: JsonSpec)
    ensures
        arr_inner(s.push(x)) == if s.len() == 0 {
            json_text(x)
        } else {
            arr_inner(s) + seq![44u8] + json_text(x)
        },
{
    let t = s.push(x);
    assert(t[t.len() - 1] == x);
    if s.len() == 0 {
        assert(arr_inner(t) == json_text(t[0]));
    } else {
        assert(t.subrange(0, t.len() - 1) =~= s);
    }
}

/// Ancestor order: when every span of the chain carries a record, the `spans`
/// sequence lists exactly those records' documents, in chain order (root
/// first, leaf last).
pub proof fn lemma_present_docs_order(chain: Seq<Option<RecordModel>>)
    requires
        forall|i: int| 0 <= i < chain.len() ==> chain[i] is Some,
    ensures
        present_docs(chain) == Seq::new(
            chain.len(),
            |i: int| JsonSpec::Obj(chain[i]->0),
        ),
    decreases chain.len(),
{
    if chain.len() == 0 {
        assert(present_docs(chain) =~= Seq::new(
            chain.len(),
            |i: int| JsonSpec::Obj(chain[i]->0),
        ));
    } else {
        let head = chain.subrange(0, chain.len() - 1);
        lemma_present_docs_order(head);
        assert(chain[chain.len() - 1] is Some);
        assert(present_docs(chain) =~= Seq::new(
            chain.len(),
            |i: int| JsonSpec::Obj(chain[i]->0),
        ));
    }
}

/// A one-shot producer of the `spans` sequence: holds the ancestor records
/// root first (absent where a span carries no record), and an explicit guard
/// that makes the single consumption visible.
pub struct ScopeSerializer {
    /// Ancestor records, root first, leaf last.
    pub chain: Vec<Option<CustomLayerTracedData>>,
    /// Whether the event carries any span context at all.
    pub present: bool,
    /// Whether the chain was already consumed.
    pub consumed: bool,
}

impl ScopeSerializer {
    /// The models of the chain's records.
    pub open spec fn chain_model(&self) -> Seq<Option<RecordModel>> {
        Seq::new(
            self.chain@.len(),
            |i: int|
                match self.chain@[i] {
                    Some(d) => Some(d@),
                    None => None,
                },
        )
    }

    /// The `spans` sequence this producer will yield next.
    pub open spec fn docs(&self) -> Seq<JsonSpec> {
        if self.consumed {
            Seq::empty()
        } else {
            present_docs(self.chain_model())
        }
    }

    /// A producer over a freshly obtained ancestor chain, root first.
    pub fn new(chain: Vec<Option<CustomLayerTracedData>>) -> (r: Self)
        ensures
            r.chain == chain,
            r.present,
            !r.consumed,
    {
        ScopeSerializer { chain, present: true, consumed: false }
    }

    /// The producer for an event outside of any span context.
    pub fn absent() -> (r: Self)
        ensures
            r.chain@.len() == 0,
            !r.present,
            !r.consumed,
    {
        ScopeSerializer { chain: Vec::new(), present: false, consumed: false }
    }

    /// Consume the chain once: the first call renders every present record,
    /// root first; any later call renders an empty sequence, never an error.
    pub fn serialize(&mut self) -> (r: Vec<u8>)
        ensures
            final(self).chain_model() == old(self).chain_model(),
            final(self).present == old(self).present,
            final(self).consumed,
            r@ == json_text(JsonSpec::Arr(old(self).docs())),
    {
        let ghost cm = self.chain_model();
        let ghost docs0 = self.docs();
        if self.consumed {
            let mut out: Vec<u8> = Vec::new();
            out.push(91);
            out.push(93);
            proof {
                assert(out@ =~= json_text(JsonSpec::Arr(docs0)));
            }
            return out;
        }
        let mut out: Vec<u8> = Vec::new();
        out.push(91);
        let n = self.chain.len();
        proof {
            assert(cm.subrange(0, 0) =~= Seq::<Option<RecordModel>>::empty());
            assert(out@ =~= seq![91u8] + arr_inner(present_docs(cm.subrange(0, 0))));
        }
        let mut i: usize = 0;
        let mut first = true;
        while i < n
            invariant
                n == self.chain@.len(),
                cm == self.chain_model(),
                0 <= i <= n,
                out@ == seq![91u8] + arr_inner(present_docs(cm.subrange(0, i as int))),
                first == (present_docs(cm.subrange(0, i as int)).len() == 0),
            decreases n - i,
        {
            match &self.chain[i] {
                Some(d) => {
                    let ghost pre = present_docs(cm.subrange(0, i as int));
                    if !first {
                        out.push(44);
                    }
                    first = false;
                    let mut body = record_token(d);
                    out.append(&mut body);
                    proof {
                        assert(cm[i as int] == Some(d@));
                        lemma_present_docs_step(cm, i as int);
                        assert(present_docs(cm.subrange(0, i + 1)) =~= pre.push(
                            JsonSpec::Obj(d@),
                        ));
                        lemma_arr_inner_push(pre, JsonSpec::Obj(d@));
                        assert(out@ =~= seq![91u8] + arr_inner(
                            present_docs(cm.subrange(0, i + 1)),
                        ));
                    }
                },
                None => {
                    proof {
                        assert(cm[i as int] is None);
                        lemma_present_docs_step(cm, i as int);
                        assert(present_docs(cm.subrange(0, i + 1)) =~= present_docs(
                            cm.subrange(0, i as int),
                        ));
                    }
                },
            }
            i += 1;
        }
        out.push(93);
        self.consumed = true;
        proof {
            assert(cm.subrange(0, n as int) =~= cm);
            assert(out@ =~= json_text(JsonSpec::Arr(docs0)));
        }
        out
    }
}

} // verus!
