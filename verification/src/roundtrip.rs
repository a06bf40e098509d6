//! The reader inverts the printer: a well-formed tree, printed and read
//! back, comes back unchanged.

use vstd::prelude::*;

use crate::json::JVal;
use crate::parse::is_num_byte;
use crate::parse::str_end;
use crate::parse::num_end;
use crate::parse::sp_val;
use crate::parse::sp_elems;
use crate::parse::sp_fields;
use crate::parse::sp_parse;
use crate::print::text_of;
use crate::print::rest_items_text;
use crate::print::rest_fields_text;

verus! {

/// A string body the reader scans to exactly its end: no bare quote, and
/// every backslash opening a two-byte escape.
pub open spec fn wf_str(t: Seq<u8>) -> bool
    decreases t.len(),
{
    if t.len() == 0 {
        true
    } else if t[0] == 34 {
        false
    } else if t[0] == 92 {
        t.len() >= 2 && wf_str(t.skip(2))
    } else {
        wf_str(t.skip(1))
    }
}

/// A number literal the reader recognizes and scans to exactly its end.
pub open spec fn wf_num(t: Seq<u8>) -> bool {
    t.len() > 0 && (t[0] == 45 || (48 <= t[0] && t[0] <= 57)) && (forall|i: int|
        1 <= i < t.len() ==> is_num_byte(#[trigger] t[i]))
}

/// Every text piece of the tree is well formed.
pub open spec fn wf_jval(m: JVal) -> bool
    decreases m, 0int,
{
    match m {
        JVal::Null => true,
        JVal::Bool(_) => true,
        JVal::Num(t) => wf_num(t),
        JVal::Str(t) => wf_str(t),
        JVal::Arr(items) => wf_items(items, 0),
        JVal::Obj(fields) => wf_fields(fields, 0),
    }
}

pub open spec fn wf_items(items: Seq<JVal>, i: int) -> bool
    decreases items, 1int, items.len() - i,
{
    if i < 0 || i >= items.len() {
        true
    } else {
        wf_jval(items[i]) && wf_items(items, i + 1)
    }
}

pub open spec fn wf_fields(fields: Seq<(Seq<u8>, JVal)>, i: int) -> bool
    decreases fields, 1int, fields.len() - i,
{
    if i < 0 || i >= fields.len() {
        true
    } else {
        wf_str(fields[i].0) && wf_jval(fields[i].1) && wf_fields(fields, i + 1)
    }
}

/// A well-formed string body placed before a closing quote scans to that
/// quote.
proof fn lemma_str_scan(s: Seq<u8>, i: int, t: Seq<u8>)
    requires
        0 <= i,
        wf_str(t),
        i + t.len() < s.len(),
        s.subrange(i, i + t.len()) == t,
        s[i + t.len()] == 34,
    ensures
        str_end(s, i) == i + t.len(),
    decreases t.len(),
{
    assert forall|j: int| 0 <= j < t.len() implies s[i + j] == t[j] by {
        assert(s.subrange(i, i + t.len())[j] == s[i + j]);
    }
    if t.len() == 0 {
    } else if t[0] == 92 {
        assert(s[i] == 92);
        assert(s.subrange(i + 2, i + 2 + t.skip(2).len()) =~= t.skip(2)) by {
            assert forall|j: int| 0 <= j < t.skip(2).len() implies s.subrange(
                i + 2,
                i + 2 + t.skip(2).len(),
            )[j] == t.skip(2)[j] by {
                assert(s.subrange(i + 2, i + 2 + t.skip(2).len())[j] == s[i + 2 + j]);
                assert(t.skip(2)[j] == t[j + 2]);
            }
        }
        lemma_str_scan(s, i + 2, t.skip(2));
    } else {
        assert(s[i] == t[0]);
        assert(s.subrange(i + 1, i + 1 + t.skip(1).len()) =~= t.skip(1)) by {
            assert forall|j: int| 0 <= j < t.skip(1).len() implies s.subrange(
                i + 1,
                i + 1 + t.skip(1).len(),
            )[j] == t.skip(1)[j] by {
                assert(s.subrange(i + 1, i + 1 + t.skip(1).len())[j] == s[i + 1 + j]);
                assert(t.skip(1)[j] == t[j + 1]);
            }
        }
        lemma_str_scan(s, i + 1, t.skip(1));
    }
}

/// A run of number bytes ends exactly where the run ends.
proof fn lemma_num_scan(s: Seq<u8>, a: int, b: int)
    requires
        0 <= a <= b <= s.len(),
        forall|j: int| a <= j < b ==> is_num_byte(#[trigger] s[j]),
        b == s.len() || !is_num_byte(s[b]),
    ensures
        num_end(s, a) == b,
    decreases b - a,
{
    if a < b {
        lemma_num_scan(s, a + 1, b);
    }
}


/// The text of the array elements `k..`, from the element itself up to and
/// including the closing bracket.
pub open spec fn items_tail_text(items: Seq<JVal>, k: int) -> Seq<u8> {
    text_of(items[k]) + rest_items_text(items, k + 1) + seq![93u8]
}

/// The text of the object fields `k..`, from the field's opening quote up
/// to and including the closing brace.
pub open spec fn fields_tail_text(fields: Seq<(Seq<u8>, JVal)>, k: int) -> Seq<u8> {
    seq![34u8] + fields[k].0 + seq![34u8, 58u8] + text_of(fields[k].1) + rest_fields_text(
        fields,
        k + 1,
    ) + seq![125u8]
}

/// A well-formed tree prints as non-empty text whose first byte opens a
/// value: it is never a separator or a closing bracket.
proof fn lemma_text_shape(m: JVal)
    requires
        wf_jval(m),
    ensures
        text_of(m).len() > 0,
        text_of(m)[0] != 44,
        text_of(m)[0] != 93,
        text_of(m)[0] != 125,
        text_of(m)[0] != 58,
{
    match m {
        JVal::Num(t) => {
            assert(text_of(m)[0] == t[0]);
        },
        JVal::Arr(items) => {
            if items.len() > 0 {
                assert(text_of(m)[0] == 91);
            }
        },
        JVal::Obj(fields) => {
            if fields.len() > 0 {
                assert(text_of(m)[0] == 123);
            }
        },
        _ => {},
    }
}

/// Printed at `i` inside a larger text and followed by a byte that cannot
/// extend a number token, a well-formed value parses back to itself, ending
/// exactly at the end of its text.
proof fn lemma_val_print(s: Seq<u8>, i: int, m: JVal)
    requires
        0 <= i,
        wf_jval(m),
        i + text_of(m).len() <= s.len(),
        s.subrange(i, i + text_of(m).len()) == text_of(m),
        i + text_of(m).len() == s.len() || !is_num_byte(s[i + text_of(m).len()]),
    ensures
        sp_val(s, i) == Some((m, i + text_of(m).len())),
    decreases m, 0int, 0int,
{
    let t = text_of(m);
    assert forall|j: int| 0 <= j < t.len() implies s[i + j] == t[j] by {
        assert(s.subrange(i, i + t.len())[j] == s[i + j]);
    }
    lemma_text_shape(m);
    match m {
        JVal::Null => {
            assert(s[i] == 110 && s[i + 1] == 117 && s[i + 2] == 108 && s[i + 3] == 108);
            assert(t.len() == 4);
            assert(sp_val(s, i) == Some((m, i + 4)));
        },
        JVal::Bool(b) => {
            if b {
                assert(s[i] == 116 && s[i + 1] == 114 && s[i + 2] == 117 && s[i + 3] == 101);
                assert(t.len() == 4);
                assert(sp_val(s, i) == Some((m, i + 4)));
            } else {
                assert(s[i] == 102 && s[i + 1] == 97 && s[i + 2] == 108 && s[i + 3] == 115 && s[i
                    + 4] == 101);
                assert(t.len() == 5);
                assert(sp_val(s, i) == Some((m, i + 5)));
            }
        },
        JVal::Str(body) => {
            assert(s[i] == 34);
            assert(s.subrange(i + 1, i + 1 + body.len()) =~= body) by {
                assert forall|j: int| 0 <= j < body.len() implies s.subrange(
                    i + 1,
                    i + 1 + body.len(),
                )[j] == body[j] by {
                    assert(s.subrange(i + 1, i + 1 + body.len())[j] == s[i + 1 + j]);
                    assert(t[1 + j] == body[j]);
                }
            }
            assert(s[i + 1 + body.len()] == 34) by {
                assert(t[1 + body.len() as int] == 34);
            }
            lemma_str_scan(s, i + 1, body);
            assert(s.subrange(i + 1, i + 1 + body.len()) == body);
            assert(t.len() == body.len() + 2);
            assert(sp_val(s, i) == Some((m, i + t.len())));
        },
        JVal::Num(body) => {
            assert(s[i] == body[0]);
            assert forall|j: int| i + 1 <= j < i + body.len() implies is_num_byte(
                #[trigger] s[j],
            ) by {
                assert(s[j] == body[j - i]);
            }
            lemma_num_scan(s, i + 1, i + body.len());
            assert(s.subrange(i, i + body.len()) =~= body);
            assert(t.len() == body.len());
            assert(sp_val(s, i) == Some((m, i + t.len())));
        },
        JVal::Arr(items) => {
            assert(s[i] == 91);
            if items.len() == 0 {
                assert(s[i + 1] == 93);
                assert(t.len() == 2);
                assert(items =~= Seq::<JVal>::empty());
                assert(sp_val(s, i) == Some((m, i + 2)));
            } else {
                let tail = items_tail_text(items, 0);
                assert(wf_jval(items[0]));
                lemma_text_shape(items[0]);
                assert(t =~= seq![91u8] + tail);
                assert(tail[0] == text_of(items[0])[0]);
                assert(t[1] == tail[0]);
                assert(s[i + 1] == t[1]);
                assert(s[i + 1] != 93);
                assert(s.subrange(i + 1, i + 1 + tail.len()) =~= tail) by {
                    assert forall|j: int| 0 <= j < tail.len() implies s.subrange(
                        i + 1,
                        i + 1 + tail.len(),
                    )[j] == tail[j] by {
                        assert(s.subrange(i + 1, i + 1 + tail.len())[j] == s[i + 1 + j]);
                        assert(t[1 + j] == tail[j]);
                    }
                }
                proof_decreases_arr(m, items);
                lemma_elems_print(s, i + 1, items, 0);
                assert(items.skip(0) =~= items);
                assert(t.len() == 1 + tail.len());
                assert(sp_val(s, i) == Some((m, i + t.len())));
            }
        },
        JVal::Obj(fields) => {
            assert(s[i] == 123);
            if fields.len() == 0 {
                assert(s[i + 1] == 125);
                assert(t.len() == 2);
                assert(fields =~= Seq::<(Seq<u8>, JVal)>::empty());
                assert(sp_val(s, i) == Some((m, i + 2)));
            } else {
                let tail = fields_tail_text(fields, 0);
                assert(t =~= seq![123u8] + tail);
                assert(t[1] == tail[0]);
                assert(s[i + 1] == t[1]);
                assert(tail[0] == 34);
                assert(s[i + 1] != 125);
                assert(s.subrange(i + 1, i + 1 + tail.len()) =~= tail) by {
                    assert forall|j: int| 0 <= j < tail.len() implies s.subrange(
                        i + 1,
                        i + 1 + tail.len(),
                    )[j] == tail[j] by {
                        assert(s.subrange(i + 1, i + 1 + tail.len())[j] == s[i + 1 + j]);
                        assert(t[1 + j] == tail[j]);
                    }
                }
                proof_decreases_obj(m, fields);
                lemma_fields_print(s, i + 1, fields, 0);
                assert(fields.skip(0) =~= fields);
                assert(t.len() == 1 + tail.len());
                assert(sp_val(s, i) == Some((m, i + t.len())));
            }
        },
    }
}

proof fn proof_decreases_arr(m: JVal, items: Seq<JVal>)
    requires
        m == JVal::Arr(items),
    ensures
        decreases_to!(m => items),
{
    assert(decreases_to!(m => m->Arr_0));
}

proof fn proof_decreases_obj(m: JVal, fields: Seq<(Seq<u8>, JVal)>)
    requires
        m == JVal::Obj(fields),
    ensures
        decreases_to!(m => fields),
{
    assert(decreases_to!(m => m->Obj_0));
}

/// Printed at `i`, the elements `k..` of a well-formed array parse back to
/// themselves, ending just after the closing bracket.
proof fn lemma_elems_print(s: Seq<u8>, i: int, items: Seq<JVal>, k: int)
    requires
        0 <= i,
        0 <= k < items.len(),
        wf_items(items, k),
        i + items_tail_text(items, k).len() <= s.len(),
        s.subrange(i, i + items_tail_text(items, k).len()) == items_tail_text(items, k),
    ensures
        sp_elems(s, i) == Some((items.skip(k), i + items_tail_text(items, k).len())),
    decreases items, 1int, items.len() - k,
{
    let tail = items_tail_text(items, k);
    let t0 = text_of(items[k]);
    assert forall|j: int| 0 <= j < tail.len() implies s[i + j] == tail[j] by {
        assert(s.subrange(i, i + tail.len())[j] == s[i + j]);
    }
    assert(wf_jval(items[k]));
    lemma_text_shape(items[k]);
    // the element's own text sits at i
    assert(s.subrange(i, i + t0.len()) =~= t0) by {
        assert forall|j: int| 0 <= j < t0.len() implies s.subrange(i, i + t0.len())[j] == t0[j] by {
            assert(s.subrange(i, i + t0.len())[j] == s[i + j]);
            assert(tail[j] == t0[j]);
        }
    }
    let j = i + t0.len();
    // the byte after the element is a separator or the closing bracket
    if k + 1 < items.len() {
        assert(rest_items_text(items, k + 1) == seq![44u8] + text_of(items[k + 1])
            + rest_items_text(items, k + 2));
        assert(tail[t0.len() as int] == 44);
    } else {
        assert(rest_items_text(items, k + 1) == Seq::<u8>::empty());
        assert(tail[t0.len() as int] == 93);
    }
    assert(s[j] == tail[t0.len() as int]);
    assert(!is_num_byte(s[j]));
    lemma_val_print(s, i, items[k]);
    if k + 1 < items.len() {
        let tail2 = items_tail_text(items, k + 1);
        assert(tail =~= t0 + seq![44u8] + tail2);
        assert(s.subrange(j + 1, j + 1 + tail2.len()) =~= tail2) by {
            assert forall|j2: int| 0 <= j2 < tail2.len() implies s.subrange(
                j + 1,
                j + 1 + tail2.len(),
            )[j2] == tail2[j2] by {
                assert(s.subrange(j + 1, j + 1 + tail2.len())[j2] == s[j + 1 + j2]);
                assert(tail[t0.len() + 1 + j2] == tail2[j2]);
            }
        }
        lemma_elems_print(s, j + 1, items, k + 1);
        assert(items.skip(k) =~= seq![items[k]] + items.skip(k + 1));
        assert(i + tail.len() == j + 1 + tail2.len());
    } else {
        assert(items.skip(k) =~= seq![items[k]]);
        assert(i + tail.len() == j + 1);
    }
}

/// Printed at `i`, the fields `k..` of a well-formed object parse back to
/// themselves, ending just after the closing brace.
proof fn lemma_fields_print(s: Seq<u8>, i: int, fields: Seq<(Seq<u8>, JVal)>, k: int)
    requires
        0 <= i,
        0 <= k < fields.len(),
        wf_fields(fields, k),
        i + fields_tail_text(fields, k).len() <= s.len(),
        s.subrange(i, i + fields_tail_text(fields, k).len()) == fields_tail_text(fields, k),
    ensures
        sp_fields(s, i) == Some((fields.skip(k), i + fields_tail_text(fields, k).len())),
    decreases fields, 1int, fields.len() - k,
{
    let tail = fields_tail_text(fields, k);
    let key = fields[k].0;
    let tv = text_of(fields[k].1);
    assert forall|j: int| 0 <= j < tail.len() implies s[i + j] == tail[j] by {
        assert(s.subrange(i, i + tail.len())[j] == s[i + j]);
    }
    assert(wf_str(key) && wf_jval(fields[k].1));
    lemma_text_shape(fields[k].1);
    assert(tail[0] == 34);
    assert(s[i + 0] == tail[0]);
    assert(s[i] == 34);
    // the key body sits at i + 1, closed by a quote
    assert(s.subrange(i + 1, i + 1 + key.len()) =~= key) by {
        assert forall|j: int| 0 <= j < key.len() implies s.subrange(
            i + 1,
            i + 1 + key.len(),
        )[j] == key[j] by {
            assert(s.subrange(i + 1, i + 1 + key.len())[j] == s[i + 1 + j]);
            assert(tail[1 + j] == key[j]);
        }
    }
    let e = i + 1 + key.len();
    assert(s[e] == 34) by {
        assert(tail[1 + key.len() as int] == 34);
    }
    lemma_str_scan(s, i + 1, key);
    assert(s[e + 1] == 58) by {
        assert(tail[2 + key.len() as int] == 58);
    }
    // the value's text sits at e + 2
    assert(s.subrange(e + 2, e + 2 + tv.len()) =~= tv) by {
        assert forall|j: int| 0 <= j < tv.len() implies s.subrange(
            e + 2,
            e + 2 + tv.len(),
        )[j] == tv[j] by {
            assert(s.subrange(e + 2, e + 2 + tv.len())[j] == s[e + 2 + j]);
            assert(tail[3 + key.len() + j] == tv[j]);
        }
    }
    let j = e + 2 + tv.len();
    if k + 1 < fields.len() {
        assert(rest_fields_text(fields, k + 1) == seq![44u8, 34u8] + fields[k + 1].0 + seq![
            34u8,
            58u8,
        ] + text_of(fields[k + 1].1) + rest_fields_text(fields, k + 2));
        assert(tail[3 + key.len() + tv.len() as int] == 44);
    } else {
        assert(rest_fields_text(fields, k + 1) == Seq::<u8>::empty());
        assert(tail[3 + key.len() + tv.len() as int] == 125);
    }
    assert(s[j] == tail[3 + key.len() + tv.len() as int]);
    assert(!is_num_byte(s[j]));
    lemma_val_print(s, e + 2, fields[k].1);
    assert(s.subrange(i + 1, e) == key);
    if k + 1 < fields.len() {
        let tail2 = fields_tail_text(fields, k + 1);
        assert(tail =~= seq![34u8] + key + seq![34u8, 58u8] + tv + seq![44u8] + tail2);
        assert(s.subrange(j + 1, j + 1 + tail2.len()) =~= tail2) by {
            assert forall|j2: int| 0 <= j2 < tail2.len() implies s.subrange(
                j + 1,
                j + 1 + tail2.len(),
            )[j2] == tail2[j2] by {
                assert(s.subrange(j + 1, j + 1 + tail2.len())[j2] == s[j + 1 + j2]);
                assert(tail[4 + key.len() + tv.len() + j2] == tail2[j2]);
            }
        }
        lemma_fields_print(s, j + 1, fields, k + 1);
        assert(fields.skip(k) =~= seq![fields[k]] + fields.skip(k + 1));
        assert(i + tail.len() == j + 1 + tail2.len());
    } else {
        assert(fields.skip(k) =~= seq![fields[k]]);
        assert(i + tail.len() == j + 1);
    }
}

/// The reader inverts the printer: a well-formed tree, printed and read
/// back as a whole text, comes back unchanged.
pub proof fn lemma_parse_of_print(m: JVal)
    requires
        wf_jval(m),
    ensures
        sp_parse(text_of(m)) == Some(m),
{
    let s = text_of(m);
    assert(s.subrange(0, s.len() as int) =~= s);
    lemma_val_print(s, 0, m);
}


/// A text with no bare quote and no backslash at all is a well-formed
/// string body.
pub proof fn lemma_wf_str_plain(t: Seq<u8>)
    requires
        forall|j: int| 0 <= j < t.len() ==> (#[trigger] t[j]) != 34 && t[j] != 92,
    ensures
        wf_str(t),
    decreases t.len(),
{
    if t.len() > 0 {
        assert forall|j: int| 0 <= j < t.skip(1).len() implies (#[trigger] t.skip(1)[j]) != 34
            && t.skip(1)[j] != 92 by {
            assert(t.skip(1)[j] == t[j + 1]);
        }
        lemma_wf_str_plain(t.skip(1));
    }
}


/// A string scan stops nowhere but at a quote inside the text, at or past
/// its start.
proof fn lemma_str_end_low(s: Seq<u8>, i: int)
    requires
        0 <= i,
    ensures
        str_end(s, i) == -1 || (i <= str_end(s, i) < s.len() && s[str_end(s, i)] == 34),
    decreases s.len() - i,
{
    if i < s.len() && s[i] != 34 {
        if s[i] == 92 {
            if i + 2 <= s.len() {
                lemma_str_end_low(s, i + 2);
            }
        } else {
            lemma_str_end_low(s, i + 1);
        }
    }
}

/// What a string scan walks over is a well-formed string body.
proof fn lemma_str_scan_wf(s: Seq<u8>, i: int)
    requires
        0 <= i,
        str_end(s, i) >= i,
    ensures
        wf_str(s.subrange(i, str_end(s, i))),
    decreases s.len() - i,
{
    let e = str_end(s, i);
    let t = s.subrange(i, e);
    assert(i < s.len()) by {
        if i >= s.len() {
            assert(str_end(s, i) == -1);
        }
    }
    if s[i] == 34 {
        assert(e == i);
        assert(t =~= Seq::<u8>::empty());
    } else if s[i] == 92 {
        assert(i + 2 <= s.len()) by {
            if i + 2 > s.len() {
                assert(str_end(s, i) == -1);
            }
        }
        assert(e == str_end(s, i + 2));
        lemma_str_end_low(s, i + 2);
        assert(e >= i + 2);
        lemma_str_scan_wf(s, i + 2);
        assert(t.skip(2) =~= s.subrange(i + 2, e)) by {
            assert forall|j: int| 0 <= j < t.skip(2).len() implies t.skip(2)[j] == s.subrange(
                i + 2,
                e,
            )[j] by {
                assert(t.skip(2)[j] == t[j + 2]);
                assert(t[j + 2] == s[i + j + 2]);
                assert(s.subrange(i + 2, e)[j] == s[i + 2 + j]);
            }
        }
        assert(t[0] == s[i]);
        assert(t[0] == 92 && t.len() >= 2);
    } else {
        assert(e == str_end(s, i + 1));
        lemma_str_end_low(s, i + 1);
        assert(e >= i + 1);
        lemma_str_scan_wf(s, i + 1);
        assert(t.skip(1) =~= s.subrange(i + 1, e)) by {
            assert forall|j: int| 0 <= j < t.skip(1).len() implies t.skip(1)[j] == s.subrange(
                i + 1,
                e,
            )[j] by {
                assert(t.skip(1)[j] == t[j + 1]);
                assert(t[j + 1] == s[i + j + 1]);
                assert(s.subrange(i + 1, e)[j] == s[i + 1 + j]);
            }
        }
        assert(t[0] == s[i]);
        assert(t[0] != 34 && t[0] != 92);
    }
}

/// What a number scan walks over is made of number bytes.
proof fn lemma_num_scan_wf(s: Seq<u8>, a: int)
    requires
        0 <= a,
    ensures
        a <= num_end(s, a) <= if s.len() < a {
            a
        } else {
            s.len() as int
        },
        forall|j: int| a <= j < num_end(s, a) ==> is_num_byte(#[trigger] s[j]),
    decreases s.len() - a,
{
    if a < s.len() && is_num_byte(s[a]) {
        lemma_num_scan_wf(s, a + 1);
    }
}

/// An element put in front of well-formed elements keeps them well formed.
proof fn lemma_wf_items_cons(v: JVal, rest: Seq<JVal>)
    requires
        wf_jval(v),
        wf_items(rest, 0),
    ensures
        wf_items(seq![v] + rest, 0),
{
    lemma_wf_items_shift(seq![v] + rest, rest, 0);
}

proof fn lemma_wf_items_shift(big: Seq<JVal>, rest: Seq<JVal>, i: int)
    requires
        0 <= i,
        big.len() == rest.len() + 1,
        forall|j: int| 0 <= j < rest.len() ==> big[j + 1] == #[trigger] rest[j],
    ensures
        wf_items(big, i + 1) == wf_items(rest, i),
    decreases rest.len() - i,
{
    if i < rest.len() {
        assert(big[i + 1] == rest[i]);
        lemma_wf_items_shift(big, rest, i + 1);
    }
}

/// A field put in front of well-formed fields keeps them well formed.
proof fn lemma_wf_fields_cons(k: Seq<u8>, v: JVal, rest: Seq<(Seq<u8>, JVal)>)
    requires
        wf_str(k),
        wf_jval(v),
        wf_fields(rest, 0),
    ensures
        wf_fields(seq![(k, v)] + rest, 0),
{
    lemma_wf_fields_shift(seq![(k, v)] + rest, rest, 0);
}

proof fn lemma_wf_fields_shift(
    big: Seq<(Seq<u8>, JVal)>,
    rest: Seq<(Seq<u8>, JVal)>,
    i: int,
)
    requires
        0 <= i,
        big.len() == rest.len() + 1,
        forall|j: int| 0 <= j < rest.len() ==> big[j + 1] == #[trigger] rest[j],
    ensures
        wf_fields(big, i + 1) == wf_fields(rest, i),
    decreases rest.len() - i,
{
    if i < rest.len() {
        assert(big[i + 1] == rest[i]);
        lemma_wf_fields_shift(big, rest, i + 1);
    }
}

/// Whatever the reader accepts is well formed.
pub proof fn lemma_val_wf(s: Seq<u8>, i: int)
    ensures
        sp_val(s, i) matches Some(r) ==> wf_jval(r.0),
    decreases s.len() - i, 0int,
{
    if 0 <= i < s.len() {
        let c = s[i];
        if c == 34 {
            let e = str_end(s, i + 1);
            if e >= i + 1 {
                lemma_str_scan_wf(s, i + 1);
            }
        } else if c == 45 || (48 <= c && c <= 57) {
            let e = num_end(s, i + 1);
            lemma_num_scan_wf(s, i + 1);
            let t = s.subrange(i, e);
            assert(t[0] == c);
            assert forall|j: int| 1 <= j < t.len() implies is_num_byte(#[trigger] t[j]) by {
                assert(t[j] == s[i + j]);
            }
        } else if c == 91 {
            if !(s.len() - i >= 2 && s[i + 1] == 93) {
                lemma_elems_wf(s, i + 1);
            } else {
                assert(wf_items(Seq::<JVal>::empty(), 0));
            }
        } else if c == 123 {
            if !(s.len() - i >= 2 && s[i + 1] == 125) {
                lemma_fields_wf(s, i + 1);
            } else {
                assert(wf_fields(Seq::<(Seq<u8>, JVal)>::empty(), 0));
            }
        }
    }
}

proof fn lemma_elems_wf(s: Seq<u8>, i: int)
    ensures
        sp_elems(s, i) matches Some(r) ==> wf_items(r.0, 0),
    decreases s.len() - i, 1int,
{
    lemma_val_wf(s, i);
    match sp_val(s, i) {
        None => {},
        Some((v, j)) => {
            if i < j && j < s.len() {
                if s[j] == 44 {
                    lemma_elems_wf(s, j + 1);
                    match sp_elems(s, j + 1) {
                        None => {},
                        Some((vs, _)) => {
                            lemma_wf_items_cons(v, vs);
                        },
                    }
                } else if s[j] == 93 {
                    assert(wf_items(seq![v], 1));
                    assert(wf_items(seq![v], 0));
                }
            }
        },
    }
}

proof fn lemma_fields_wf(s: Seq<u8>, i: int)
    ensures
        sp_fields(s, i) matches Some(r) ==> wf_fields(r.0, 0),
    decreases s.len() - i, 1int,
{
    if 0 <= i < s.len() && s[i] == 34 {
        let e = str_end(s, i + 1);
        if e >= i + 1 && e + 1 < s.len() && s[e + 1] == 58 {
            lemma_str_scan_wf(s, i + 1);
            let key = s.subrange(i + 1, e);
            lemma_val_wf(s, e + 2);
            match sp_val(s, e + 2) {
                None => {},
                Some((v, j)) => {
                    if e + 2 <= j && j < s.len() {
                        if s[j] == 44 {
                            lemma_fields_wf(s, j + 1);
                            match sp_fields(s, j + 1) {
                                None => {},
                                Some((fs, _)) => {
                                    lemma_wf_fields_cons(key, v, fs);
                                },
                            }
                        } else if s[j] == 125 {
                            assert(wf_fields(seq![(key, v)], 1));
                            assert(wf_fields(seq![(key, v)], 0));
                        }
                    }
                },
            }
        }
    }
}

/// Whatever parses as a whole text is well formed.
pub proof fn lemma_parse_wf(s: Seq<u8>)
    ensures
        sp_parse(s) matches Some(m) ==> wf_jval(m),
{
    lemma_val_wf(s, 0);
}

} // verus!
