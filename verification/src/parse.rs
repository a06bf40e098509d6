//! Reading compact JSON text (no whitespace between tokens) into a `Json`
//! tree. String contents are kept in their escaped source form; numbers are
//! kept as their literal text.

use vstd::prelude::*;

use crate::json::Json;
use crate::json::JVal;
use crate::json::jitems;
use crate::json::jfields;
use crate::json::jval_of;

verus! {

/// A byte that can occur in a number literal after its first byte.
pub open spec fn is_num_byte(c: u8) -> bool {
    (48 <= c && c <= 57) || c == 45 || c == 43 || c == 46 || c == 101 || c == 69
}

/// The index of the closing quote of a string body starting at `i`, skipping
/// backslash escapes, or -1 if the string never closes.
pub open spec fn str_end(s: Seq<u8>, i: int) -> int
    decreases s.len() - i,
{
    if i < 0 || i >= s.len() {
        -1
    } else if s[i] == 34 {
        i
    } else if s[i] == 92 {
        if i + 2 <= s.len() {
            str_end(s, i + 2)
        } else {
            -1
        }
    } else {
        str_end(s, i + 1)
    }
}

/// The first index at or after `i` whose byte is not part of a number.
pub open spec fn num_end(s: Seq<u8>, i: int) -> int
    decreases s.len() - i,
{
    if i < 0 || i >= s.len() {
        i
    } else if is_num_byte(s[i]) {
        num_end(s, i + 1)
    } else {
        i
    }
}

/// Parses one JSON value starting at `i`; yields the value and the index
/// just after it.
pub open spec fn sp_val(s: Seq<u8>, i: int) -> Option<(JVal, int)>
    decreases s.len() - i, 0int,
{
    if i < 0 || i >= s.len() {
        None
    } else {
        let c = s[i];
        if c == 110 {  // n
            if i + 4 <= s.len() && s[i + 1] == 117 && s[i + 2] == 108 && s[i + 3] == 108 {
                Some((JVal::Null, i + 4))
            } else {
                None
            }
        } else if c == 116 {  // t
            if i + 4 <= s.len() && s[i + 1] == 114 && s[i + 2] == 117 && s[i + 3] == 101 {
                Some((JVal::Bool(true), i + 4))
            } else {
                None
            }
        } else if c == 102 {  // f
            if i + 5 <= s.len() && s[i + 1] == 97 && s[i + 2] == 108 && s[i + 3] == 115 && s[i + 4]
                == 101 {
                Some((JVal::Bool(false), i + 5))
            } else {
                None
            }
        } else if c == 34 {  // "
            let e = str_end(s, i + 1);
            if e >= i + 1 {
                Some((JVal::Str(s.subrange(i + 1, e)), e + 1))
            } else {
                None
            }
        } else if c == 45 || (48 <= c && c <= 57) {  // - or digit
            let e = num_end(s, i + 1);
            Some((JVal::Num(s.subrange(i, e)), e))
        } else if c == 91 {  // [
            if s.len() - i >= 2 && s[i + 1] == 93 {
                Some((JVal::Arr(Seq::empty()), i + 2))
            } else {
                match sp_elems(s, i + 1) {
                    None => None,
                    Some((vs, j)) => Some((JVal::Arr(vs), j)),
                }
            }
        } else if c == 123 {  // {
            if s.len() - i >= 2 && s[i + 1] == 125 {
                Some((JVal::Obj(Seq::empty()), i + 2))
            } else {
                match sp_fields(s, i + 1) {
                    None => None,
                    Some((fs, j)) => Some((JVal::Obj(fs), j)),
                }
            }
        } else {
            None
        }
    }
}

/// Parses the elements of a non-empty array from `i` up to and including the
/// closing bracket.
pub open spec fn sp_elems(s: Seq<u8>, i: int) -> Option<(Seq<JVal>, int)>
    decreases s.len() - i, 1int,
{
    match sp_val(s, i) {
        None => None,
        Some((v, j)) => if i < j && j < s.len() {
            if s[j] == 44 {  // ,
                match sp_elems(s, j + 1) {
                    None => None,
                    Some((vs, e)) => Some((seq![v] + vs, e)),
                }
            } else if s[j] == 93 {  // ]
                Some((seq![v], j + 1))
            } else {
                None
            }
        } else {
            None
        },
    }
}

/// Parses the fields of a non-empty object from `i` up to and including the
/// closing brace.
pub open spec fn sp_fields(s: Seq<u8>, i: int) -> Option<(Seq<(Seq<u8>, JVal)>, int)>
    decreases s.len() - i, 1int,
{
    if i < 0 || i >= s.len() || s[i] != 34 {
        None
    } else {
        let e = str_end(s, i + 1);
        if e >= i + 1 && e + 1 < s.len() && s[e + 1] == 58 {  // "key":
            match sp_val(s, e + 2) {
                None => None,
                Some((v, j)) => if e + 2 <= j && j < s.len() {
                    if s[j] == 44 {  // ,
                        match sp_fields(s, j + 1) {
                            None => None,
                            Some((fs, x)) => Some((seq![(s.subrange(i + 1, e), v)] + fs, x)),
                        }
                    } else if s[j] == 125 {  // }
                        Some((seq![(s.subrange(i + 1, e), v)], j + 1))
                    } else {
                        None
                    }
                } else {
                    None
                },
            }
        } else {
            None
        }
    }
}

/// Parses a whole text as one JSON value; trailing bytes make it fail.
pub open spec fn sp_parse(s: Seq<u8>) -> Option<JVal> {
    match sp_val(s, 0) {
        Some((v, j)) => if j == s.len() {
            Some(v)
        } else {
            None
        },
        None => None,
    }
}

/// Copies `s[a..b]`.
fn bytes_range(s: &Vec<u8>, a: usize, b: usize) -> (r: Vec<u8>)
    requires
        a <= b <= s@.len(),
    ensures
        r@ == s@.subrange(a as int, b as int),
{
    let mut out: Vec<u8> = Vec::new();
    let mut i: usize = a;
    while i < b
        invariant
            a <= i <= b <= s@.len(),
            out@ =~= s@.subrange(a as int, i as int),
        decreases b - i,
    {
        out.push(s[i]);
        assert(out@ =~= s@.subrange(a as int, i + 1 as int));
        i += 1;
    }
    assert(out@ =~= s@.subrange(a as int, b as int));
    out
}

/// Finds the closing quote of a string body starting at `i`.
fn find_str_end(s: &Vec<u8>, i: usize) -> (r: Option<usize>)
    ensures
        match r {
            Some(e) => str_end(s@, i as int) == e && i <= e < s@.len(),
            None => str_end(s@, i as int) == -1,
        },
    decreases s@.len() - i,
{
    if i >= s.len() {
        None
    } else if s[i] == 34 {
        Some(i)
    } else if s[i] == 92 {
        if s.len() - i >= 2 {
            find_str_end(s, i + 2)
        } else {
            None
        }
    } else {
        find_str_end(s, i + 1)
    }
}

/// Finds the end of a number token starting at `i`.
fn find_num_end(s: &Vec<u8>, i: usize) -> (e: usize)
    requires
        i <= s@.len(),
    ensures
        num_end(s@, i as int) == e && i <= e <= s@.len(),
    decreases s@.len() - i,
{
    if i >= s.len() {
        i
    } else {
        let c = s[i];
        if (48 <= c && c <= 57) || c == 45 || c == 43 || c == 46 || c == 101 || c == 69 {
            find_num_end(s, i + 1)
        } else {
            i
        }
    }
}

/// Parses one JSON value starting at `i`.
fn p_val(s: &Vec<u8>, i: usize) -> (r: Option<(Json, usize)>)
    ensures
        match r {
            Some((v, j)) => sp_val(s@, i as int) == Some((jval_of(v), j as int)) && i < j
                <= s@.len(),
            None => sp_val(s@, i as int) is None,
        },
    decreases s@.len() - i, 0int,
{
    if i >= s.len() {
        return None;
    }
    let c = s[i];
    if c == 110 {
        if s.len() - i >= 4 && s[i + 1] == 117 && s[i + 2] == 108 && s[i + 3] == 108 {
            Some((Json::Null, i + 4))
        } else {
            None
        }
    } else if c == 116 {
        if s.len() - i >= 4 && s[i + 1] == 114 && s[i + 2] == 117 && s[i + 3] == 101 {
            Some((Json::Bool(true), i + 4))
        } else {
            None
        }
    } else if c == 102 {
        if s.len() - i >= 5 && s[i + 1] == 97 && s[i + 2] == 108 && s[i + 3] == 115 && s[i + 4]
            == 101 {
            Some((Json::Bool(false), i + 5))
        } else {
            None
        }
    } else if c == 34 {
        match find_str_end(s, i + 1) {
            Some(e) => Some((Json::Str(bytes_range(s, i + 1, e)), e + 1)),
            None => None,
        }
    } else if c == 45 || (48 <= c && c <= 57) {
        let e = find_num_end(s, i + 1);
        Some((Json::Num(bytes_range(s, i, e)), e))
    } else if c == 91 {
        if s.len() - i >= 2 && s[i + 1] == 93 {
            let r = Json::Arr(Vec::new());
            assert(jval_of(r) =~= JVal::Arr(Seq::empty())) by {
                assert(jitems(Seq::<Json>::empty()) =~= Seq::<JVal>::empty());
            }
            Some((r, i + 2))
        } else {
            match p_elems(s, i + 1) {
                None => None,
                Some((vs, j)) => Some((Json::Arr(vs), j)),
            }
        }
    } else if c == 123 {
        if s.len() - i >= 2 && s[i + 1] == 125 {
            let r = Json::Obj(Vec::new());
            assert(jval_of(r) =~= JVal::Obj(Seq::empty())) by {
                assert(jfields(Seq::<(Vec<u8>, Json)>::empty()) =~= Seq::<(Seq<u8>, JVal)>::empty());
            }
            Some((r, i + 2))
        } else {
            match p_fields(s, i + 1) {
                None => None,
                Some((fs, j)) => Some((Json::Obj(fs), j)),
            }
        }
    } else {
        None
    }
}

/// Parses the elements of a non-empty array, including the closing bracket.
fn p_elems(s: &Vec<u8>, i: usize) -> (r: Option<(Vec<Json>, usize)>)
    ensures
        match r {
            Some((vs, j)) => sp_elems(s@, i as int) == Some((jitems(vs@), j as int)) && i < j
                <= s@.len(),
            None => sp_elems(s@, i as int) is None,
        },
    decreases s@.len() - i, 1int,
{
    match p_val(s, i) {
        None => None,
        Some((v, j)) => {
            if j < s.len() {
                let c = s[j];
                if c == 44 {
                    match p_elems(s, j + 1) {
                        None => None,
                        Some((mut vs, e)) => {
                            let ghost tail = jitems(vs@);
                            vs.insert(0, v);
                            assert(jitems(vs@) =~= seq![jval_of(v)] + tail);
                            Some((vs, e))
                        },
                    }
                } else if c == 93 {
                    let mut vs: Vec<Json> = Vec::new();
                    vs.push(v);
                    assert(jitems(vs@) =~= seq![jval_of(v)]);
                    Some((vs, j + 1))
                } else {
                    None
                }
            } else {
                None
            }
        },
    }
}

/// Parses the fields of a non-empty object, including the closing brace.
fn p_fields(s: &Vec<u8>, i: usize) -> (r: Option<(Vec<(Vec<u8>, Json)>, usize)>)
    ensures
        match r {
            Some((fs, j)) => sp_fields(s@, i as int) == Some((jfields(fs@), j as int)) && i < j
                <= s@.len(),
            None => sp_fields(s@, i as int) is None,
        },
    decreases s@.len() - i, 1int,
{
    if i >= s.len() || s[i] != 34 {
        return None;
    }
    match find_str_end(s, i + 1) {
        None => None,
        Some(e) => {
            if e + 1 < s.len() && s[e + 1] == 58 {
                let key = bytes_range(s, i + 1, e);
                match p_val(s, e + 2) {
                    None => None,
                    Some((v, j)) => {
                        if j < s.len() {
                            let c = s[j];
                            if c == 44 {
                                match p_fields(s, j + 1) {
                                    None => None,
                                    Some((mut fs, x)) => {
                                        let ghost tail = jfields(fs@);
                                        let ghost kv = (key@, jval_of(v));
                                        fs.insert(0, (key, v));
                                        assert(jfields(fs@) =~= seq![kv] + tail);
                                        Some((fs, x))
                                    },
                                }
                            } else if c == 125 {
                                let ghost kv = (key@, jval_of(v));
                                let mut fs: Vec<(Vec<u8>, Json)> = Vec::new();
                                fs.push((key, v));
                                assert(jfields(fs@) =~= seq![kv]);
                                Some((fs, j + 1))
                            } else {
                                None
                            }
                        } else {
                            None
                        }
                    },
                }
            } else {
                None
            }
        },
    }
}

/// Parses a whole compact JSON text.
pub fn parse_text(s: &Vec<u8>) -> (r: Option<Json>)
    ensures
        match r {
            Some(v) => sp_parse(s@) == Some(jval_of(v)),
            None => sp_parse(s@) is None,
        },
{
    match p_val(s, 0) {
        Some((v, j)) => if j == s.len() {
            Some(v)
        } else {
            None
        },
        None => None,
    }
}

} // verus!
