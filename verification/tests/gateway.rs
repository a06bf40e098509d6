//! End-to-end behaviour of the dispatcher, builder, encoder and error
//! taxonomy, including the gateway's stated scenarios.

use json_bucket::json::Json;
use json_bucket::body::parse_json;
use json_bucket::dispatch::BackendOp;
use json_bucket::dispatch::Config;
use json_bucket::dispatch::HttpMethod;
use json_bucket::encode::encode_docs;
use json_bucket::encode::encode_find_one;
use json_bucket::encode::encode_insert_ack;
use json_bucket::encode::encode_insert_many_ack;
use json_bucket::encode::encode_count;
use json_bucket::encode::encode_name_list;
use json_bucket::error::GatewayError;
use json_bucket::dispatch::plan_request;

fn obj(fields: Vec<(&[u8], Json)>) -> Json {
    Json::Obj(fields.into_iter().map(|(k, v)| (k.to_vec(), v)).collect())
}

fn num(t: &[u8]) -> Json {
    Json::Num(t.to_vec())
}

fn s(t: &[u8]) -> Json {
    Json::Str(t.to_vec())
}

fn segs(parts: &[&[u8]]) -> Vec<Vec<u8>> {
    parts.iter().map(|p| p.to_vec()).collect()
}

fn rw() -> Config {
    Config { read_only: false }
}

#[test]
fn insert_builds_stamped_document() {
    // POST /mydb/notes/insert with [{"a":1},{"maxTime":5000}]
    let body = br#"[{"a":1},{"maxTime":5000}]"#.to_vec();
    let r = plan_request(&rw(), HttpMethod::Post, segs(&[b"mydb", b"notes", b"insert"]), &body, 777);
    match r {
        Ok(BackendOp::InsertOne { database, collection, document, options }) => {
            assert_eq!(database, b"mydb".to_vec());
            assert_eq!(collection, b"notes".to_vec());
            assert_eq!(document, obj(vec![(b"a", num(b"1")), (b"_time", num(b"777"))]));
            assert_eq!(options, Some(obj(vec![(b"maxTime", num(b"5000"))])));
        },
        other => panic!("unexpected plan: {:?}", other),
    }
}

#[test]
fn insert_overwrites_caller_time_field() {
    let body = br#"{"_time":"fake","a":1}"#.to_vec();
    let r = plan_request(&rw(), HttpMethod::Post, segs(&[b"db", b"c", b"insert"]), &body, 5);
    match r {
        Ok(BackendOp::InsertOne { document, .. }) => {
            // canonical key order puts _time first; its value is overwritten
            assert_eq!(document, obj(vec![(b"_time", num(b"5")), (b"a", num(b"1"))]));
        },
        other => panic!("unexpected plan: {:?}", other),
    }
}

#[test]
fn insert_many_shares_one_timestamp() {
    let body = br#"[{"a":1},{"b":2},{"c":3}]"#.to_vec();
    let r = plan_request(&rw(), HttpMethod::Post, segs(&[b"db", b"c", b"insert_many"]), &body, 9);
    match r {
        Ok(BackendOp::InsertMany { documents, options, .. }) => {
            assert_eq!(
                documents,
                Json::Arr(vec![
                    obj(vec![(b"a", num(b"1")), (b"_time", num(b"9"))]),
                    obj(vec![(b"b", num(b"2")), (b"_time", num(b"9"))]),
                    obj(vec![(b"c", num(b"3")), (b"_time", num(b"9"))]),
                ])
            );
            assert_eq!(options, None);
        },
        other => panic!("unexpected plan: {:?}", other),
    }
}

#[test]
fn aggregate_defaults_max_time() {
    // POST /mydb/notes/aggregate with [[{"$match":{"a":1}}],{}]
    let body = br#"[[{"$match":{"a":1}}],{}]"#.to_vec();
    let r = plan_request(
        &rw(),
        HttpMethod::Post,
        segs(&[b"mydb", b"notes", b"aggregate"]),
        &body,
        1,
    );
    match r {
        Ok(BackendOp::Aggregate { pipeline, options, .. }) => {
            assert_eq!(
                pipeline,
                Json::Arr(vec![obj(vec![(b"$match", obj(vec![(b"a", num(b"1"))]))])])
            );
            assert_eq!(options, obj(vec![(b"maxTime", num(b"60000"))]));
        },
        other => panic!("unexpected plan: {:?}", other),
    }
}

#[test]
fn aggregate_keeps_caller_max_time() {
    let body = br#"[[{"$limit":2}],{"maxTime":9}]"#.to_vec();
    let r = plan_request(&rw(), HttpMethod::Post, segs(&[b"d", b"c", b"aggregate"]), &body, 1);
    match r {
        Ok(BackendOp::Aggregate { options, .. }) => {
            assert_eq!(options, obj(vec![(b"maxTime", num(b"9"))]));
        },
        other => panic!("unexpected plan: {:?}", other),
    }
}

#[test]
fn find_defaults_to_newest_hundred() {
    let body = br#"{}"#.to_vec();
    let r = plan_request(&rw(), HttpMethod::Post, segs(&[b"db", b"c", b"find"]), &body, 1);
    match r {
        Ok(BackendOp::Find { filter, options, cap, strip_id, .. }) => {
            assert_eq!(filter, obj(vec![]));
            assert_eq!(
                options,
                obj(vec![
                    (b"limit", num(b"100")),
                    (b"sort", obj(vec![(b"_id", num(b"-1"))])),
                    (b"maxTime", num(b"60000")),
                ])
            );
            assert_eq!(cap, 100);
            assert!(strip_id);
        },
        other => panic!("unexpected plan: {:?}", other),
    }
}

#[test]
fn find_null_options_equals_bare_filter() {
    // [F, null] and F alone plan the same Find
    let bare = br#"{"a":1}"#.to_vec();
    let with_null = br#"[{"a":1},null]"#.to_vec();
    let r1 = plan_request(&rw(), HttpMethod::Post, segs(&[b"db", b"c", b"find"]), &bare, 1);
    let r2 = plan_request(&rw(), HttpMethod::Post, segs(&[b"db", b"c", b"find"]), &with_null, 1);
    assert_eq!(r1, r2);
}

#[test]
fn find_reads_caller_limit() {
    let body = br#"[{},{"limit":5}]"#.to_vec();
    let r = plan_request(&rw(), HttpMethod::Post, segs(&[b"db", b"c", b"find"]), &body, 1);
    match r {
        Ok(BackendOp::Find { options, cap, .. }) => {
            assert_eq!(
                options,
                obj(vec![(b"limit", num(b"5")), (b"maxTime", num(b"60000"))])
            );
            assert_eq!(cap, 5);
        },
        other => panic!("unexpected plan: {:?}", other),
    }
}

#[test]
fn find_one_with_projection_keeps_ids() {
    let body = br#"[{},{"projection":{"a":1}}]"#.to_vec();
    let r = plan_request(&rw(), HttpMethod::Post, segs(&[b"db", b"c", b"find_one"]), &body, 1);
    match r {
        Ok(BackendOp::FindOne { strip_id, options, .. }) => {
            assert!(!strip_id);
            assert_eq!(options, Some(obj(vec![(b"projection", obj(vec![(b"a", num(b"1"))]))])));
        },
        other => panic!("unexpected plan: {:?}", other),
    }
}

#[test]
fn read_only_rejects_writes_before_decode() {
    let cfg = Config { read_only: true };
    // even an unparseable body is rejected with the read-only error
    let body = b"this is not json at all".to_vec();
    let r = plan_request(&cfg, HttpMethod::Post, segs(&[b"mydb", b"notes", b"insert"]), &body, 1);
    assert_eq!(r, Err(GatewayError::ReadOnly));
    let r = plan_request(
        &cfg,
        HttpMethod::Post,
        segs(&[b"mydb", b"notes", b"insert_many"]),
        &body,
        1,
    );
    assert_eq!(r, Err(GatewayError::ReadOnly));
    // reads still pass routing and fail only on the body
    let r = plan_request(&cfg, HttpMethod::Post, segs(&[b"mydb", b"notes", b"find"]), &body, 1);
    assert_eq!(r, Err(GatewayError::Parse));
}

#[test]
fn routing_errors() {
    let body = br#"{}"#.to_vec();
    let r = plan_request(&rw(), HttpMethod::Get, segs(&[b"db", b"c", b"find"]), &body, 1);
    assert_eq!(r, Err(GatewayError::MethodNotAllowed));
    let r = plan_request(&rw(), HttpMethod::Post, segs(&[b"nowhere"]), &body, 1);
    assert_eq!(r, Err(GatewayError::NotFound));
    let r = plan_request(&rw(), HttpMethod::Post, segs(&[b"db", b"c", b"upsert"]), &body, 1);
    assert_eq!(r, Err(GatewayError::NotFound));
}

#[test]
fn metadata_routes() {
    let none = Vec::new();
    let r = plan_request(&rw(), HttpMethod::Get, segs(&[b"_cat", b"databases"]), &none, 1);
    assert_eq!(r, Ok(BackendOp::ListDatabases));
    let r = plan_request(&rw(), HttpMethod::Get, segs(&[b"db", b"_cat", b"collections"]), &none, 1);
    assert_eq!(r, Ok(BackendOp::ListCollections { database: b"db".to_vec() }));
    let r = plan_request(&rw(), HttpMethod::Get, segs(&[b"db", b"c", b"_count"]), &none, 1);
    assert_eq!(
        r,
        Ok(BackendOp::Count { database: b"db".to_vec(), collection: b"c".to_vec() })
    );
    let r = plan_request(&rw(), HttpMethod::Get, segs(&[b"db", b"c", b"_indexes"]), &none, 1);
    assert_eq!(
        r,
        Ok(BackendOp::ListIndexes { database: b"db".to_vec(), collection: b"c".to_vec() })
    );
    let r = plan_request(&rw(), HttpMethod::Post, segs(&[b"_cat", b"databases"]), &none, 1);
    assert_eq!(r, Err(GatewayError::MethodNotAllowed));
}

#[test]
fn decode_errors() {
    // not an accepted shape at all
    let body = br#"true"#.to_vec();
    let r = plan_request(&rw(), HttpMethod::Post, segs(&[b"db", b"c", b"find"]), &body, 1);
    assert_eq!(r, Err(GatewayError::UnsupportedShape));
    // an array of objects decodes, but find needs a single object
    let body = br#"[{"a":1},{"b":2},{"c":3}]"#.to_vec();
    let r = plan_request(&rw(), HttpMethod::Post, segs(&[b"db", b"c", b"find"]), &body, 1);
    assert_eq!(r, Err(GatewayError::Build));
    // malformed json
    let body = br#"{"a""#.to_vec();
    let r = plan_request(&rw(), HttpMethod::Post, segs(&[b"db", b"c", b"find"]), &body, 1);
    assert_eq!(r, Err(GatewayError::Parse));
}

#[test]
fn error_statuses_and_bodies() {
    assert_eq!(GatewayError::Parse.status(), 400);
    assert_eq!(GatewayError::UnsupportedShape.status(), 400);
    assert_eq!(GatewayError::Build.status(), 400);
    assert_eq!(GatewayError::NotFound.status(), 404);
    assert_eq!(GatewayError::MethodNotAllowed.status(), 405);
    assert_eq!(GatewayError::ReadOnly.status(), 403);
    assert_eq!(GatewayError::BackendUnavailable.status(), 503);
    assert_eq!(GatewayError::BackendFailed.status(), 500);
    assert_eq!(
        GatewayError::NotFound.body(),
        br#"{"error":"not found"}"#.to_vec()
    );
    let (code, body) = GatewayError::ReadOnly.response();
    assert_eq!(code, 403);
    assert_eq!(body, br#"{"error":"read-only mode rejects writes"}"#.to_vec());
}

#[test]
fn find_one_sentinel_and_stripping() {
    assert_eq!(
        encode_find_one(None, true),
        br#"{"msg":"no results found"}"#.to_vec()
    );
    let doc = obj(vec![(b"_id", s(b"x1")), (b"a", num(b"1")), (b"_time", num(b"3"))]);
    assert_eq!(encode_find_one(Some(doc), true), br#"{"a":1,"_time":3}"#.to_vec());
    let doc = obj(vec![(b"_id", s(b"x1")), (b"a", num(b"1"))]);
    assert_eq!(encode_find_one(Some(doc), false), br#"{"_id":"x1","a":1}"#.to_vec());
}

#[test]
fn find_caps_at_hundred_newest_first() {
    // a 150-document collection, newest first as the backend returns it
    let mut docs = Vec::new();
    for i in 0..150u64 {
        let n = (149 - i).to_string().into_bytes();
        docs.push(obj(vec![(b"n", num(&n))]));
    }
    let out = encode_docs(docs, 100, true);
    let back = parse_json(&out).unwrap();
    match back {
        Json::Arr(items) => {
            assert_eq!(items.len(), 100);
            assert_eq!(items[0], obj(vec![(b"n", num(b"149"))]));
            assert_eq!(items[99], obj(vec![(b"n", num(b"50"))]));
        },
        other => panic!("expected array, got {:?}", other),
    }
}

#[test]
fn insert_ack_round_trip() {
    // encoding an acknowledgement and re-parsing it recovers the id
    let out = encode_insert_ack(s(b"6543ab"));
    let back = parse_json(&out).unwrap();
    assert_eq!(back, obj(vec![(b"insertedId", s(b"6543ab"))]));
    let out = encode_insert_many_ack(vec![s(b"a1"), s(b"b2")]);
    let back = parse_json(&out).unwrap();
    assert_eq!(back, obj(vec![(b"insertedIds", Json::Arr(vec![s(b"a1"), s(b"b2")]))]));
}

#[test]
fn stored_document_reads_back_as_original_plus_stamp() {
    // two inserts of the same document: both stamped, other fields equal
    let body = br#"{"title":"x","n":7}"#.to_vec();
    let path = segs(&[b"db", b"c", b"insert"]);
    let r1 = plan_request(&rw(), HttpMethod::Post, path.clone(), &body, 1000);
    let r2 = plan_request(&rw(), HttpMethod::Post, path, &body, 2000);
    let (d1, d2) = match (r1, r2) {
        (
            Ok(BackendOp::InsertOne { document: d1, .. }),
            Ok(BackendOp::InsertOne { document: d2, .. }),
        ) => (d1, d2),
        other => panic!("unexpected plans: {:?}", other),
    };
    assert_eq!(d1, obj(vec![(b"title", s(b"x")), (b"n", num(b"7")), (b"_time", num(b"1000"))]));
    assert_eq!(d2, obj(vec![(b"title", s(b"x")), (b"n", num(b"7")), (b"_time", num(b"2000"))]));
}

#[test]
fn count_and_name_lists() {
    assert_eq!(encode_count(5), br#"{"docs":5}"#.to_vec());
    assert_eq!(encode_count(0), br#"{"docs":0}"#.to_vec());
    let names = vec![b"alpha".to_vec(), b"beta".to_vec()];
    assert_eq!(encode_name_list(names), br#"["alpha","beta"]"#.to_vec());
    assert_eq!(encode_name_list(Vec::new()), br#"[]"#.to_vec());
}

#[test]
fn aggregate_bare_pipeline_gets_default_options() {
    // a bare array of stages is a valid aggregate body
    let body = br#"[{"$match":{"a":1}}]"#.to_vec();
    let r = plan_request(&rw(), HttpMethod::Post, segs(&[b"d", b"c", b"aggregate"]), &body, 1);
    match r {
        Ok(BackendOp::Aggregate { pipeline, options, .. }) => {
            assert_eq!(
                pipeline,
                Json::Arr(vec![obj(vec![(b"$match", obj(vec![(b"a", num(b"1"))]))])])
            );
            assert_eq!(options, obj(vec![(b"maxTime", num(b"60000"))]));
        },
        other => panic!("unexpected plan: {:?}", other),
    }
}

#[test]
fn insert_many_with_options_pair() {
    // [[documents], {options}] is the batch insert with options
    let body = br#"[[{"a":1}],{"ordered":true}]"#.to_vec();
    let r = plan_request(&rw(), HttpMethod::Post, segs(&[b"d", b"c", b"insert_many"]), &body, 4);
    match r {
        Ok(BackendOp::InsertMany { documents, options, .. }) => {
            assert_eq!(
                documents,
                Json::Arr(vec![obj(vec![(b"a", num(b"1")), (b"_time", num(b"4"))])])
            );
            assert_eq!(options, Some(obj(vec![(b"ordered", Json::Bool(true))])));
        },
        other => panic!("unexpected plan: {:?}", other),
    }
}

#[test]
fn insert_many_rejects_non_object_elements() {
    let body = br#"[[1,2],{}]"#.to_vec();
    let r = plan_request(&rw(), HttpMethod::Post, segs(&[b"d", b"c", b"insert_many"]), &body, 4);
    assert_eq!(r, Err(GatewayError::Build));
}
