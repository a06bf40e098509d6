//! Round trips and edge cases of the JSON reader, printer and number text.

use json_bucket::json::Json;
use json_bucket::body::parse_json;
use json_bucket::print::json_to_bytes;
use json_bucket::num::u64_to_dec;
use json_bucket::num::parse_u64;
use json_bucket::json::bytes_eq;

fn obj(fields: Vec<(&[u8], Json)>) -> Json {
    Json::Obj(fields.into_iter().map(|(k, v)| (k.to_vec(), v)).collect())
}

fn num(t: &[u8]) -> Json {
    Json::Num(t.to_vec())
}

fn s(t: &[u8]) -> Json {
    Json::Str(t.to_vec())
}

#[test]
fn parse_simple_object() {
    let body = br#"{"a":1}"#.to_vec();
    let v = parse_json(&body).unwrap();
    assert_eq!(v, obj(vec![(b"a", num(b"1"))]));
}

#[test]
fn parse_normalizes_whitespace() {
    // the canonicalizer must really run: spaced input parses to the same
    // tree as compact input
    let spaced = br#" { "a" : [ 1 , true , null ] } "#.to_vec();
    let compact = br#"{"a":[1,true,null]}"#.to_vec();
    assert_eq!(parse_json(&spaced).unwrap(), parse_json(&compact).unwrap());
}

#[test]
fn parse_rejects_malformed() {
    assert_eq!(parse_json(&b"{\"a\":".to_vec()), None);
    assert_eq!(parse_json(&b"".to_vec()), None);
    assert_eq!(parse_json(&b"nope".to_vec()), None);
}

#[test]
fn parse_twice_is_equal() {
    let body = br#"[{"x":[1,2,{"y":"z"}]},{"maxTime":5000}]"#.to_vec();
    let first = parse_json(&body).unwrap();
    let second = parse_json(&body).unwrap();
    assert_eq!(first, second);
}

#[test]
fn print_then_parse_round_trip() {
    let v = obj(vec![
        (b"name", s(b"notes")),
        (b"count", num(b"42")),
        (b"tags", Json::Arr(vec![s(b"a"), Json::Bool(true), Json::Null])),
        (b"nested", obj(vec![(b"deep", Json::Arr(vec![]))])),
    ]);
    let text = json_to_bytes(&v);
    let back = parse_json(&text).unwrap();
    assert_eq!(back, v);
}

#[test]
fn print_compact_text() {
    let v = obj(vec![(b"a", num(b"1")), (b"b", Json::Arr(vec![Json::Bool(false)]))]);
    assert_eq!(json_to_bytes(&v), br#"{"a":1,"b":[false]}"#.to_vec());
}

#[test]
fn parse_keeps_escapes_and_numbers() {
    // escaped quote inside a string, and a float kept as literal text
    let body = br#"{"t":"a\"b","f":-1.5e3}"#.to_vec();
    let v = parse_json(&body).unwrap();
    let text = json_to_bytes(&v);
    let back = parse_json(&text).unwrap();
    assert_eq!(back, v);
}

#[test]
fn decimal_text_round_trip() {
    assert_eq!(u64_to_dec(0), b"0".to_vec());
    assert_eq!(u64_to_dec(100), b"100".to_vec());
    assert_eq!(u64_to_dec(60000), b"60000".to_vec());
    assert_eq!(parse_u64(&b"100".to_vec()), Some(100));
    assert_eq!(parse_u64(&b"0".to_vec()), Some(0));
    assert_eq!(parse_u64(&b"".to_vec()), None);
    assert_eq!(parse_u64(&b"1x".to_vec()), None);
    assert_eq!(parse_u64(&b"99999999999999999999999".to_vec()), None);
    assert_eq!(parse_u64(&u64_to_dec(u64::MAX)), Some(u64::MAX));
}

#[test]
fn bytes_eq_compares_contents() {
    assert!(bytes_eq(&b"abc".to_vec(), &b"abc".to_vec()));
    assert!(!bytes_eq(&b"abc".to_vec(), &b"abd".to_vec()));
    assert!(!bytes_eq(&b"abc".to_vec(), &b"ab".to_vec()));
}

#[test]
fn duplicate_copies_the_whole_tree() {
    let v = obj(vec![
        (b"a", Json::Arr(vec![num(b"1"), s(b"x"), Json::Null])),
        (b"b", obj(vec![(b"c", Json::Bool(true))])),
    ]);
    let copy = v.duplicate();
    assert_eq!(copy, v);
}
