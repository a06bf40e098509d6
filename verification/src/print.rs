//! Printing a JSON tree as compact JSON text (no whitespace), the exact
//! inverse of the reader in `parse`.

use vstd::prelude::*;

use crate::json::Json;
use crate::json::JVal;
use crate::json::jitems;
use crate::json::jfields;
use crate::json::jval_of;

verus! {

/// The compact JSON text of a value, byte for byte.
pub open spec fn text_of(m: JVal) -> Seq<u8>
    decreases m, 0int,
{
    match m {
        JVal::Null => seq![110u8, 117u8, 108u8, 108u8],  // null
        JVal::Bool(b) => if b {
            seq![116u8, 114u8, 117u8, 101u8]  // true
        } else {
            seq![102u8, 97u8, 108u8, 115u8, 101u8]  // false
        },
        JVal::Num(t) => t,
        JVal::Str(t) => seq![34u8] + t + seq![34u8],  // "..."
        JVal::Arr(items) => if items.len() == 0 {
            seq![91u8, 93u8]  // []
        } else {
            seq![91u8] + text_of(items[0]) + rest_items_text(items, 1) + seq![93u8]
        },
        JVal::Obj(fields) => if fields.len() == 0 {
            seq![123u8, 125u8]  // {}
        } else {
            seq![123u8, 34u8] + fields[0].0 + seq![34u8, 58u8] + text_of(fields[0].1)
                + rest_fields_text(fields, 1) + seq![125u8]
        },
    }
}

/// The text of array elements `i..`, each preceded by a comma.
pub open spec fn rest_items_text(items: Seq<JVal>, i: int) -> Seq<u8>
    decreases items, items.len() - i,
{
    if i < 0 || i >= items.len() {
        Seq::empty()
    } else {
        seq![44u8] + text_of(items[i]) + rest_items_text(items, i + 1)
    }
}

/// The text of object fields `i..`, each preceded by a comma.
pub open spec fn rest_fields_text(fields: Seq<(Seq<u8>, JVal)>, i: int) -> Seq<u8>
    decreases fields, fields.len() - i,
{
    if i < 0 || i >= fields.len() {
        Seq::empty()
    } else {
        seq![44u8, 34u8] + fields[i].0 + seq![34u8, 58u8] + text_of(fields[i].1)
            + rest_fields_text(fields, i + 1)
    }
}

/// Appends the compact JSON text of `v` to `out`.
#[verifier::loop_isolation(false)]
pub fn append_text(v: &Json, out: &mut Vec<u8>)
    ensures
        final (out)@ == old(out)@ + text_of(v@),
    decreases *v, 0int,
{
    let ghost base = out@;
    match v {
        Json::Null => {
            out.push(110);
            out.push(117);
            out.push(108);
            out.push(108);
            assert(out@ =~= base + text_of(v@));
        },
        Json::Bool(b) => {
            if *b {
                out.push(116);
                out.push(114);
                out.push(117);
                out.push(101);
            } else {
                out.push(102);
                out.push(97);
                out.push(108);
                out.push(115);
                out.push(101);
            }
            assert(out@ =~= base + text_of(v@));
        },
        Json::Num(t) => {
            out.extend_from_slice(t.as_slice());
            assert(out@ =~= base + text_of(v@));
        },
        Json::Str(t) => {
            out.push(34);
            out.extend_from_slice(t.as_slice());
            out.push(34);
            assert(out@ =~= base + text_of(v@));
        },
        Json::Arr(items) => {
            proof {
                assert(decreases_to!(*v => *items));
                assert(decreases_to!(*items => items@));
            }
            out.push(91);
            if items.len() == 0 {
                out.push(93);
                assert(out@ =~= base + text_of(v@));
            } else {
                proof {
                    assert(decreases_to!(items@ => items@[0]));
                }
                append_text(&items[0], out);
                append_rest_items(items, 1, out);
                out.push(93);
                assert(jitems(items@)[0] == jval_of(items@[0]));
                assert(out@ =~= base + text_of(v@));
            }
        },
        Json::Obj(fields) => {
            proof {
                assert(decreases_to!(*v => *fields));
                assert(decreases_to!(*fields => fields@));
            }
            out.push(123);
            if fields.len() == 0 {
                out.push(125);
                assert(out@ =~= base + text_of(v@));
            } else {
                proof {
                    assert(decreases_to!(fields@ => fields@[0]));
                    assert(decreases_to!(fields@[0] => fields@[0].1));
                }
                out.push(34);
                out.extend_from_slice(fields[0].0.as_slice());
                out.push(34);
                out.push(58);
                append_text(&fields[0].1, out);
                append_rest_fields(fields, 1, out);
                out.push(125);
                assert(jfields(fields@)[0] == (fields@[0].0@, jval_of(fields@[0].1)));
                assert(out@ =~= base + text_of(v@));
            }
        },
    }
}

/// Appends the text of array elements `i..`, each preceded by a comma.
#[verifier::loop_isolation(false)]
fn append_rest_items(items: &Vec<Json>, i: usize, out: &mut Vec<u8>)
    ensures
        final (out)@ == old(out)@ + rest_items_text(jitems(items@), i as int),
    decreases items@, items@.len() - i,
{
    let ghost base = out@;
    if i < items.len() {
        proof {
            assert(decreases_to!(items@ => items@[i as int]));
        }
        out.push(44);
        append_text(&items[i], out);
        append_rest_items(items, i + 1, out);
        assert(jitems(items@)[i as int] == jval_of(items@[i as int]));
        assert(out@ =~= base + rest_items_text(jitems(items@), i as int));
    } else {
        assert(out@ =~= base + rest_items_text(jitems(items@), i as int));
    }
}

/// Appends the text of object fields `i..`, each preceded by a comma.
#[verifier::loop_isolation(false)]
fn append_rest_fields(fields: &Vec<(Vec<u8>, Json)>, i: usize, out: &mut Vec<u8>)
    ensures
        final (out)@ == old(out)@ + rest_fields_text(jfields(fields@), i as int),
    decreases fields@, fields@.len() - i,
{
    let ghost base = out@;
    if i < fields.len() {
        proof {
            assert(decreases_to!(fields@ => fields@[i as int]));
            assert(decreases_to!(fields@[i as int] => fields@[i as int].1));
        }
        out.push(44);
        out.push(34);
        out.extend_from_slice(fields[i].0.as_slice());
        out.push(34);
        out.push(58);
        append_text(&fields[i].1, out);
        append_rest_fields(fields, i + 1, out);
        assert(jfields(fields@)[i as int] == (fields@[i as int].0@, jval_of(fields@[i as int].1)));
        assert(out@ =~= base + rest_fields_text(jfields(fields@), i as int));
    } else {
        assert(out@ =~= base + rest_fields_text(jfields(fields@), i as int));
    }
}

/// The compact JSON text of `v`.
pub fn json_to_bytes(v: &Json) -> (r: Vec<u8>)
    ensures
        r@ == text_of(v@),
{
    let mut out: Vec<u8> = Vec::new();
    append_text(v, &mut out);
    out
}

} // verus!
