//! The result encoder: turning backend results into JSON response bodies.

use vstd::prelude::*;

use crate::json::Json;
use crate::json::JVal;
use crate::json::jitems;
use crate::json::jfields;
use crate::json::jval_of;
use crate::json::jobj_strip;
use crate::json::obj_strip;
use crate::names::id_key;
use crate::names::id_key_vec;
use crate::names::msg_key;
use crate::names::msg_key_vec;
use crate::names::no_results_text;
use crate::names::no_results_text_vec;
use crate::names::inserted_id_key;
use crate::names::inserted_id_key_vec;
use crate::names::inserted_ids_key;
use crate::names::inserted_ids_key_vec;
use crate::names::docs_key;
use crate::names::docs_key_vec;
use crate::num::dec_of;
use crate::num::u64_to_dec;
use crate::print::text_of;
use crate::print::json_to_bytes;

verus! {

/// A result document as shown to the client: the internal id field removed,
/// unless the query projected fields explicitly.
pub open spec fn shown_doc(m: JVal, strip_id: bool) -> JVal {
    match m {
        JVal::Obj(fs) => if strip_id {
            JVal::Obj(jobj_strip(fs, id_key()))
        } else {
            m
        },
        _ => m,
    }
}

fn shown_exec(d: Json, strip_id: bool) -> (r: Json)
    ensures
        jval_of(r) == shown_doc(jval_of(d), strip_id),
{
    if strip_id {
        match d {
            Json::Obj(mut fields) => {
                let k = id_key_vec();
                obj_strip(&mut fields, &k);
                Json::Obj(fields)
            },
            other => other,
        }
    } else {
        d
    }
}

/// The sentinel body answering a FindOne that matched nothing.
pub open spec fn sentinel_body() -> Seq<u8> {
    text_of(JVal::Obj(seq![(msg_key(), JVal::Str(no_results_text()))]))
}

/// The body of a FindOne answer.
pub open spec fn find_one_body(r: Option<JVal>, strip_id: bool) -> Seq<u8> {
    match r {
        None => sentinel_body(),
        Some(m) => text_of(shown_doc(m, strip_id)),
    }
}

/// Encodes a FindOne result: the document, or the sentinel.
pub fn encode_find_one(r: Option<Json>, strip_id: bool) -> (out: Vec<u8>)
    ensures
        out@ == find_one_body(
            match r {
                Some(d) => Some(jval_of(d)),
                None => None,
            },
            strip_id,
        ),
{
    match r {
        Some(d) => json_to_bytes(&shown_exec(d, strip_id)),
        None => {
            let mut fields: Vec<(Vec<u8>, Json)> = Vec::new();
            fields.push((msg_key_vec(), Json::Str(no_results_text_vec())));
            let doc = Json::Obj(fields);
            proof {
                assert(jfields(doc->Obj_0@) =~= seq![(msg_key(), JVal::Str(no_results_text()))]);
            }
            json_to_bytes(&doc)
        },
    }
}

/// The documents of a stream answer: the first `cap` of them, each shown.
pub open spec fn shaped_docs(docs: Seq<JVal>, cap: nat, strip_id: bool) -> Seq<JVal> {
    let n = if docs.len() <= cap {
        docs.len()
    } else {
        cap
    };
    Seq::new(n, |i: int| shown_doc(docs[i], strip_id))
}

/// The body of a Find or Aggregate answer.
pub open spec fn docs_body(docs: Seq<JVal>, cap: nat, strip_id: bool) -> Seq<u8> {
    text_of(JVal::Arr(shaped_docs(docs, cap, strip_id)))
}

/// Encodes a drained document stream as a JSON array, keeping the backend's
/// order and cutting it off at `cap`.
#[verifier::loop_isolation(false)]
pub fn encode_docs(docs: Vec<Json>, cap: usize, strip_id: bool) -> (out: Vec<u8>)
    ensures
        out@ == docs_body(jitems(docs@), cap as nat, strip_id),
{
    let ghost orig = jitems(docs@);
    let mut docs = docs;
    docs.truncate(cap);
    let n = docs.len();
    let mut i: usize = 0;
    while i < n
        invariant
            n == docs@.len(),
            0 <= i <= n,
            n == if orig.len() <= cap as nat {
                orig.len()
            } else {
                cap as nat
            },
            forall|j: int| 0 <= j < i ==> jval_of(docs@[j]) == shown_doc(orig[j], strip_id),
            forall|j: int| i <= j < n ==> jval_of(docs@[j]) == orig[j],
        decreases n - i,
    {
        let mut taken = Json::Null;
        docs.set_and_swap(i, &mut taken);
        let shown = shown_exec(taken, strip_id);
        docs.set(i, shown);
        i += 1;
    }
    let arr = Json::Arr(docs);
    proof {
        assert(jitems(arr->Arr_0@) =~= shaped_docs(orig, cap as nat, strip_id));
    }
    json_to_bytes(&arr)
}

/// The body acknowledging a single insert.
pub open spec fn insert_ack_body(id: JVal) -> Seq<u8> {
    text_of(JVal::Obj(seq![(inserted_id_key(), id)]))
}

/// Encodes a single-insert acknowledgement, `{"insertedId":<id>}`.
pub fn encode_insert_ack(id: Json) -> (out: Vec<u8>)
    ensures
        out@ == insert_ack_body(jval_of(id)),
{
    let ghost idv = jval_of(id);
    let mut fields: Vec<(Vec<u8>, Json)> = Vec::new();
    fields.push((inserted_id_key_vec(), id));
    let doc = Json::Obj(fields);
    proof {
        assert(jfields(doc->Obj_0@) =~= seq![(inserted_id_key(), idv)]);
    }
    json_to_bytes(&doc)
}

/// The body acknowledging a batch insert.
pub open spec fn insert_many_ack_body(ids: Seq<JVal>) -> Seq<u8> {
    text_of(JVal::Obj(seq![(inserted_ids_key(), JVal::Arr(ids))]))
}

/// Encodes a batch-insert acknowledgement, `{"insertedIds":[...]}`.
pub fn encode_insert_many_ack(ids: Vec<Json>) -> (out: Vec<u8>)
    ensures
        out@ == insert_many_ack_body(jitems(ids@)),
{
    let ghost idsv = jitems(ids@);
    let mut fields: Vec<(Vec<u8>, Json)> = Vec::new();
    fields.push((inserted_ids_key_vec(), Json::Arr(ids)));
    let doc = Json::Obj(fields);
    proof {
        assert(jfields(doc->Obj_0@) =~= seq![(inserted_ids_key(), JVal::Arr(idsv))]);
    }
    json_to_bytes(&doc)
}

/// The body of a document-count answer.
pub open spec fn count_body(n: nat) -> Seq<u8> {
    text_of(JVal::Obj(seq![(docs_key(), JVal::Num(dec_of(n)))]))
}

/// Encodes a document count, `{"docs":<n>}`.
pub fn encode_count(n: u64) -> (out: Vec<u8>)
    ensures
        out@ == count_body(n as nat),
{
    let mut fields: Vec<(Vec<u8>, Json)> = Vec::new();
    fields.push((docs_key_vec(), Json::Num(u64_to_dec(n))));
    let doc = Json::Obj(fields);
    proof {
        assert(jfields(doc->Obj_0@) =~= seq![(docs_key(), JVal::Num(dec_of(n as nat)))]);
    }
    json_to_bytes(&doc)
}

/// The body listing names (databases, collections) as a JSON string array.
pub open spec fn name_list_body(names: Seq<Seq<u8>>) -> Seq<u8> {
    text_of(JVal::Arr(Seq::new(names.len(), |i: int| JVal::Str(names[i]))))
}

/// Encodes a list of names. Each name must already be in escaped source
/// form, as it would stand between quotes in a JSON text.
pub fn encode_name_list(names: Vec<Vec<u8>>) -> (out: Vec<u8>)
    ensures
        out@ == name_list_body(Seq::new(names@.len(), |i: int| names@[i]@)),
{
    let ghost orig = Seq::new(names@.len(), |i: int| names@[i]@);
    let mut items: Vec<Json> = Vec::new();
    let mut names = names;
    let n = names.len();
    let mut i: usize = 0;
    while i < n
        invariant
            n == names@.len() == orig.len(),
            0 <= i <= n,
            items@.len() == i,
            forall|j: int| 0 <= j < i ==> jval_of(items@[j]) == JVal::Str(orig[j]),
            forall|j: int| i <= j < n ==> names@[j]@ == orig[j],
        decreases n - i,
    {
        let mut taken: Vec<u8> = Vec::new();
        names.set_and_swap(i, &mut taken);
        items.push(Json::Str(taken));
        i += 1;
    }
    let arr = Json::Arr(items);
    proof {
        assert(jitems(arr->Arr_0@) =~= Seq::new(orig.len(), |i: int| JVal::Str(orig[i])));
    }
    json_to_bytes(&arr)
}

} // verus!
