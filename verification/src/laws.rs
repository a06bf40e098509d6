//! The gateway's stated laws, proved against the decoder, builder and
//! dispatcher specifications.

use vstd::prelude::*;

use crate::json::JVal;
use crate::json::jobj_get;
use crate::json::jobj_set;
use crate::json::lemma_jobj_get_set_same;
use crate::json::lemma_jobj_get_set_other;
use crate::names::time_key;
use crate::names::max_time_key;
use crate::names::limit_key;
use crate::names::limit_default;
use crate::names::insert_seg;
use crate::names::insert_many_seg;
use crate::names::find_seg;
use crate::names::find_one_seg;
use crate::names::collections_seg;
use crate::names::count_seg;
use crate::names::indexes_seg;
use crate::num::dec_of;
use crate::num::dec_val;
use crate::num::is_digits;
use crate::body::parsed_body;
use crate::shape::PrimaryKind;
use crate::shape::ShapeV;
use crate::shape::decode_spec;
use crate::shape::kind_matches;
use crate::builder::Action;
use crate::builder::action_kind;
use crate::builder::build_spec;
use crate::builder::stamp;
use crate::builder::with_max_time;
use crate::builder::find_default_options;
use crate::builder::is_write;
use crate::encode::shaped_docs;
use crate::encode::shown_doc;
use crate::encode::insert_ack_body;
use crate::names::id_key;
use crate::names::inserted_id_key;
use crate::json::jobj_strip;
use crate::json::lemma_jobj_strip_gone;
use crate::json::lemma_jobj_strip_other;
use crate::parse::sp_parse;
use crate::roundtrip::wf_jval;
use crate::roundtrip::wf_fields;
use crate::roundtrip::wf_str;
use crate::roundtrip::lemma_wf_str_plain;
use crate::roundtrip::lemma_parse_of_print;
use crate::roundtrip::lemma_parse_wf;
use crate::body::canon_json;
use crate::print::text_of;
use crate::dispatch::Config;
use crate::dispatch::HttpMethod;
use crate::dispatch::cap_of;
use crate::dispatch::plan_spec;
use crate::error::GatewayError;

verus! {

/// A bare filter object and the pair `[filter, null]` decode to the same
/// shape, and so build the same operation arguments, for any action whose
/// primary payload is an object — in particular Find and FindOne.
pub proof fn law_null_options_equivalent(f: JVal, a: Action, now_ms: u64)
    requires
        f is Obj,
        action_kind(a) == PrimaryKind::Object,
    ensures
        decode_spec(JVal::Arr(seq![f, JVal::Null]), action_kind(a)) == decode_spec(
            f,
            action_kind(a),
        ),
        decode_spec(f, action_kind(a)) == Ok::<ShapeV, GatewayError>(ShapeV::Bare(f)),
        build_spec(a, ShapeV::Bare(f), now_ms) == build_spec(a, ShapeV::Bare(f), now_ms),
{
    let items = seq![f, JVal::Null];
    assert(items.len() == 2);
    assert(items[0] == f);
    assert(items[1] == JVal::Null);
    assert(kind_matches(items[0], action_kind(a)));
}

/// A stamped document carries the shared timestamp under `_time`, and every
/// other field reads exactly as in the original document. Two inserts of
/// the same document therefore store two documents that differ at most in
/// their timestamps and agree with the original everywhere else.
pub proof fn law_insert_stamping(d: JVal, t1: u64, t2: u64)
    requires
        d is Obj,
    ensures
        jobj_get(stamp(d, t1)->Obj_0, time_key()) == Some(JVal::Num(dec_of(t1 as nat))),
        jobj_get(stamp(d, t2)->Obj_0, time_key()) == Some(JVal::Num(dec_of(t2 as nat))),
        forall|k: Seq<u8>|
            k != time_key() ==> #[trigger] jobj_get(stamp(d, t1)->Obj_0, k) == jobj_get(
                d->Obj_0,
                k,
            ),
        forall|k: Seq<u8>|
            k != time_key() ==> #[trigger] jobj_get(stamp(d, t2)->Obj_0, k) == jobj_get(
                d->Obj_0,
                k,
            ),
{
    let fs = d->Obj_0;
    lemma_jobj_get_set_same(fs, time_key(), JVal::Num(dec_of(t1 as nat)));
    lemma_jobj_get_set_same(fs, time_key(), JVal::Num(dec_of(t2 as nat)));
    assert forall|k: Seq<u8>| k != time_key() implies #[trigger] jobj_get(
        stamp(d, t1)->Obj_0,
        k,
    ) == jobj_get(fs, k) by {
        lemma_jobj_get_set_other(fs, time_key(), JVal::Num(dec_of(t1 as nat)), k);
    }
    assert forall|k: Seq<u8>| k != time_key() implies #[trigger] jobj_get(
        stamp(d, t2)->Obj_0,
        k,
    ) == jobj_get(fs, k) by {
        lemma_jobj_get_set_other(fs, time_key(), JVal::Num(dec_of(t2 as nat)), k);
    }
}

/// Decoding is pure: the tree a body parses to, and hence every decision
/// downstream of it, is a function of the body's bytes alone. The parser's
/// own contract pins its result to `parsed_body`, so two runs over equal
/// bytes return structurally equal trees.
pub proof fn law_decode_pure(b1: Seq<u8>, b2: Seq<u8>, k: PrimaryKind)
    requires
        b1 == b2,
    ensures
        parsed_body(b1) == parsed_body(b2),
        parsed_body(b1) matches Some(m) ==> decode_spec(m, k) == decode_spec(
            parsed_body(b2)->0,
            k,
        ),
{
}

/// The default Find options cap the result set at 100: a Find with no
/// caller options over any stream of documents answers with exactly
/// `min(stream length, 100)` documents, in the backend's newest-first
/// order. Over a 150-document collection that is exactly 100.
pub proof fn law_find_default_cap(docs: Seq<JVal>, strip_id: bool)
    ensures
        cap_of(with_max_time(find_default_options())) == 100,
        shaped_docs(docs, 100, strip_id).len() == if docs.len() <= 100 {
            docs.len()
        } else {
            100
        },
        forall|i: int|
            0 <= i < shaped_docs(docs, 100, strip_id).len() ==> #[trigger] shaped_docs(
                docs,
                100,
                strip_id,
            )[i] == shown_doc(docs[i], strip_id),
{
    let base = find_default_options();
    let fs = base->Obj_0;
    assert(limit_key() != max_time_key()) by {
        assert(limit_key().len() != max_time_key().len());
    }
    assert(crate::names::sort_key() != max_time_key()) by {
        assert(crate::names::sort_key().len() != max_time_key().len());
    }
    // maxTime is absent from the defaults, so it is appended
    assert(jobj_get(fs, max_time_key()) is None) by {
        assert(fs.len() == 2);
        assert(fs[0].0 == limit_key());
        assert(fs[1].0 == crate::names::sort_key());
        assert(crate::json::jobj_get_from(fs, max_time_key(), 2) is None);
        assert(crate::json::jobj_get_from(fs, max_time_key(), 1) is None);
        assert(crate::json::jobj_get_from(fs, max_time_key(), 0) is None);
    }
    let withmt = with_max_time(base);
    assert(withmt->Obj_0 == jobj_set(fs, max_time_key(), JVal::Num(crate::names::max_time_default())));
    lemma_jobj_get_set_other(fs, max_time_key(), JVal::Num(crate::names::max_time_default()), limit_key());
    assert(jobj_get(withmt->Obj_0, limit_key()) == Some(JVal::Num(limit_default())));
    assert(is_digits(limit_default())) by {
        assert(limit_default()[0] == 49);
        assert(limit_default()[1] == 48);
        assert(limit_default()[2] == 48);
    }
    assert(dec_val(limit_default()) == 100) by {
        let s = limit_default();
        assert(s.drop_last() =~= seq![49u8, 48u8]);
        assert(s.drop_last().drop_last() =~= seq![49u8]);
        assert(s.drop_last().drop_last().drop_last() =~= Seq::<u8>::empty());
        assert(dec_val(s.drop_last().drop_last().drop_last()) == 0);
        assert(dec_val(s.drop_last().drop_last()) == 1);
        assert(dec_val(s.drop_last()) == 10);
    }
}

/// With the read-only switch on, a write action is refused with the
/// read-only error whatever the body holds — the body is never decoded.
pub proof fn law_read_only_rejects_writes(
    cfg: Config,
    database: Seq<u8>,
    collection: Seq<u8>,
    action_seg: Seq<u8>,
    raw_body: Seq<u8>,
    now_ms: u64,
)
    requires
        cfg.read_only,
        action_seg == insert_seg() || action_seg == insert_many_seg(),
    ensures
        plan_spec(cfg, HttpMethod::Post, seq![database, collection, action_seg], raw_body, now_ms)
            == Err::<crate::dispatch::BackendOpV, GatewayError>(GatewayError::ReadOnly),
{
    let segs = seq![database, collection, action_seg];
    assert(segs.len() == 3);
    assert(segs[2] == action_seg);
    assert(action_seg != collections_seg()) by {
        assert(action_seg[0] != collections_seg()[0]);
    }
    assert(action_seg != count_seg()) by {
        assert(action_seg[0] != count_seg()[0]);
    }
    assert(action_seg != indexes_seg()) by {
        assert(action_seg[0] != indexes_seg()[0]);
    }
    assert(action_seg != find_seg()) by {
        assert(action_seg.len() != find_seg().len());
    }
    assert(action_seg != find_one_seg()) by {
        assert(action_seg[0] != find_one_seg()[0]);
    }
    if action_seg == insert_seg() {
        assert(crate::dispatch::action_of(segs[2]) == Some(Action::InsertOne));
        assert(is_write(Action::InsertOne));
    } else {
        assert(action_seg != insert_seg()) by {
            assert(action_seg.len() != insert_seg().len());
        }
        assert(crate::dispatch::action_of(segs[2]) == Some(Action::InsertMany));
        assert(is_write(Action::InsertMany));
    }
}


/// Encoding an insert acknowledgement and re-parsing it recovers the
/// inserted id, for any well-formed id value.
pub proof fn law_ack_round_trip(id: JVal)
    requires
        wf_jval(id),
    ensures
        sp_parse(insert_ack_body(id)) == Some(JVal::Obj(seq![(inserted_id_key(), id)])),
        ({
            let fields = seq![(inserted_id_key(), id)];
            jobj_get(fields, inserted_id_key()) == Some(id)
        }),
{
    let fields = seq![(inserted_id_key(), id)];
    let m = JVal::Obj(fields);
    assert(wf_str(inserted_id_key())) by {
        assert forall|j: int| 0 <= j < inserted_id_key().len() implies (#[trigger] inserted_id_key()[j])
            != 34 && inserted_id_key()[j] != 92 by {}
        lemma_wf_str_plain(inserted_id_key());
    }
    assert(wf_fields(fields, 1));
    assert(wf_fields(fields, 0));
    lemma_parse_of_print(m);
}

/// A stored document, read back and shown without explicit projection,
/// carries the injected timestamp, hides the backend id, and reads exactly
/// as the inserted document under every other key.
pub proof fn law_stored_document_shape(d: JVal, t: u64)
    requires
        d is Obj,
    ensures
        jobj_get(shown_doc(stamp(d, t), true)->Obj_0, id_key()) is None,
        jobj_get(shown_doc(stamp(d, t), true)->Obj_0, time_key()) == Some(
            JVal::Num(dec_of(t as nat)),
        ),
        forall|k: Seq<u8>|
            k != time_key() && k != id_key() ==> #[trigger] jobj_get(
                shown_doc(stamp(d, t), true)->Obj_0,
                k,
            ) == jobj_get(d->Obj_0, k),
{
    let fs = d->Obj_0;
    let stamped = jobj_set(fs, time_key(), JVal::Num(dec_of(t as nat)));
    assert(shown_doc(stamp(d, t), true)->Obj_0 == jobj_strip(stamped, id_key()));
    lemma_jobj_strip_gone(stamped, id_key());
    assert(time_key() != id_key()) by {
        assert(time_key().len() != id_key().len());
    }
    lemma_jobj_strip_other(stamped, id_key(), time_key());
    lemma_jobj_get_set_same(fs, time_key(), JVal::Num(dec_of(t as nat)));
    assert forall|k: Seq<u8>| k != time_key() && k != id_key() implies #[trigger] jobj_get(
        shown_doc(stamp(d, t), true)->Obj_0,
        k,
    ) == jobj_get(fs, k) by {
        lemma_jobj_strip_other(stamped, id_key(), k);
        lemma_jobj_get_set_other(fs, time_key(), JVal::Num(dec_of(t as nat)), k);
    }
}


/// Decoding never invents unprintable values: whatever a body parses to,
/// printed again, parses back to the very same tree.
pub proof fn law_reencode_round_trip(b: Seq<u8>)
    ensures
        parsed_body(b) matches Some(m) ==> sp_parse(text_of(m)) == Some(m),
{
    match canon_json(b) {
        None => {},
        Some(c) => {
            lemma_parse_wf(c);
            match sp_parse(c) {
                None => {},
                Some(m) => {
                    lemma_parse_of_print(m);
                },
            }
        },
    }
}

} // verus!
