//! The gateway's own model of a JSON value.
//!
//! Text pieces (object keys, string contents, number literals) are kept as
//! UTF-8 byte vectors; string contents and keys are stored in their escaped
//! source form, exactly as they appear between the quotes of a JSON text.

use vstd::prelude::*;

verus! {

/// An executable JSON tree. Numbers are kept as their literal decimal text,
/// so no information is lost and no floating point arithmetic is needed.
#[derive(Debug, PartialEq)]
pub enum Json {
    Null,
    Bool(bool),
    /// A number, as the bytes of its literal (for example `60000` or `-15e3`).
    Num(Vec<u8>),
    /// A string's contents (the bytes between the quotes, escapes untouched).
    Str(Vec<u8>),
    Arr(Vec<Json>),
    /// An object as an ordered list of key/value pairs.
    Obj(Vec<(Vec<u8>, Json)>),
}

/// The mathematical abstraction of a `Json` tree.
pub enum JVal {
    Null,
    Bool(bool),
    Num(Seq<u8>),
    Str(Seq<u8>),
    Arr(Seq<JVal>),
    Obj(Seq<(Seq<u8>, JVal)>),
}

/// The abstraction of a sequence of array elements.
pub open spec fn jitems(items: Seq<Json>) -> Seq<JVal>
    decreases items,
{
    Seq::new(
        items.len(),
        |i: int|
            if 0 <= i < items.len() {
                jval_of(items[i])
            } else {
                JVal::Null
            },
    )
}

/// The abstraction of a sequence of object fields.
pub open spec fn jfields(fields: Seq<(Vec<u8>, Json)>) -> Seq<(Seq<u8>, JVal)>
    decreases fields,
{
    Seq::new(
        fields.len(),
        |i: int|
            if 0 <= i < fields.len() {
                (fields[i].0@, jval_of(fields[i].1))
            } else {
                (Seq::empty(), JVal::Null)
            },
    )
}

/// The abstraction of one `Json` tree.
pub open spec fn jval_of(j: Json) -> JVal
    decreases j,
{
    match j {
        Json::Null => JVal::Null,
        Json::Bool(b) => JVal::Bool(b),
        Json::Num(t) => JVal::Num(t@),
        Json::Str(t) => JVal::Str(t@),
        Json::Arr(items) => JVal::Arr(jitems(items@)),
        Json::Obj(fields) => JVal::Obj(jfields(fields@)),
    }
}

impl View for Json {
    type V = JVal;

    open spec fn view(&self) -> JVal {
        jval_of(*self)
    }
}

/// The value stored under the first occurrence of key `k`, if any.
pub open spec fn jobj_get_from(fields: Seq<(Seq<u8>, JVal)>, k: Seq<u8>, i: int) -> Option<JVal>
    decreases fields.len() - i,
{
    if i < 0 || i >= fields.len() {
        None
    } else if fields[i].0 == k {
        Some(fields[i].1)
    } else {
        jobj_get_from(fields, k, i + 1)
    }
}

pub open spec fn jobj_get(fields: Seq<(Seq<u8>, JVal)>, k: Seq<u8>) -> Option<JVal> {
    jobj_get_from(fields, k, 0)
}

pub open spec fn jobj_has(fields: Seq<(Seq<u8>, JVal)>, k: Seq<u8>) -> bool {
    jobj_get(fields, k) is Some
}

/// The fields after binding key `k` to `v`: the first occurrence of `k` is
/// overwritten in place, and a missing key is appended at the end.
pub open spec fn jobj_set_from(
    fields: Seq<(Seq<u8>, JVal)>,
    k: Seq<u8>,
    v: JVal,
    i: int,
) -> Seq<(Seq<u8>, JVal)>
    decreases fields.len() - i,
{
    if i < 0 || i >= fields.len() {
        fields.push((k, v))
    } else if fields[i].0 == k {
        fields.update(i, (k, v))
    } else {
        jobj_set_from(fields, k, v, i + 1)
    }
}

pub open spec fn jobj_set(fields: Seq<(Seq<u8>, JVal)>, k: Seq<u8>, v: JVal) -> Seq<
    (Seq<u8>, JVal),
> {
    jobj_set_from(fields, k, v, 0)
}

/// The fields with every occurrence of key `k` removed.
pub open spec fn jobj_strip_from(fields: Seq<(Seq<u8>, JVal)>, k: Seq<u8>, i: int) -> Seq<
    (Seq<u8>, JVal),
>
    decreases fields.len() - i,
{
    if i < 0 || i >= fields.len() {
        fields.take(i)
    } else if fields[i].0 == k {
        jobj_strip_from(fields.remove(i), k, i)
    } else {
        jobj_strip_from(fields, k, i + 1)
    }
}

pub open spec fn jobj_strip(fields: Seq<(Seq<u8>, JVal)>, k: Seq<u8>) -> Seq<(Seq<u8>, JVal)> {
    jobj_strip_from(fields, k, 0)
}

/// Byte-vector equality, usable wherever contracts compare key text.
pub fn bytes_eq(a: &Vec<u8>, b: &Vec<u8>) -> (r: bool)
    ensures
        r == (a@ == b@),
{
    if a.len() != b.len() {
        assert(a@ != b@) by {
            assert(a@.len() != b@.len());
        }
        return false;
    }
    let n = a.len();
    let mut i: usize = 0;
    while i < n
        invariant
            n == a@.len() == b@.len(),
            0 <= i <= n,
            forall|j: int| 0 <= j < i ==> a@[j] == b@[j],
        decreases n - i,
    {
        if a[i] != b[i] {
            return false;
        }
        i += 1;
    }
    assert(a@ =~= b@);
    true
}

impl Json {
    /// Copies the whole tree.
    #[verifier::loop_isolation(false)]
    pub fn duplicate(&self) -> (r: Json)
        ensures
            r@ == self@,
        decreases self,
    {
        match self {
            Json::Null => Json::Null,
            Json::Bool(b) => Json::Bool(*b),
            Json::Num(t) => Json::Num(dup_bytes(t)),
            Json::Str(t) => Json::Str(dup_bytes(t)),
            Json::Arr(items) => {
                let mut out: Vec<Json> = Vec::new();
                let n = items.len();
                let mut i: usize = 0;
                while i < n
                    invariant
                        n == items@.len(),
                        0 <= i <= n,
                        out@.len() == i,
                        forall|j: int| 0 <= j < i ==> jval_of(out@[j]) == jval_of(items@[j]),
                    decreases n - i,
                {
                    proof {
                        assert(decreases_to!(*self => self->Arr_0));
                        assert(self->Arr_0 == *items);
                        assert(decreases_to!(*items => items@[i as int]));
                        assert(decreases_to!(*self => items@[i as int]));
                    }
                    let c = items[i].duplicate();
                    out.push(c);
                    i += 1;
                }
                assert(jitems(out@) =~= jitems(items@));
                Json::Arr(out)
            },
            Json::Obj(fields) => {
                let mut out: Vec<(Vec<u8>, Json)> = Vec::new();
                let n = fields.len();
                let mut i: usize = 0;
                while i < n
                    invariant
                        n == fields@.len(),
                        0 <= i <= n,
                        out@.len() == i,
                        forall|j: int|
                            0 <= j < i ==> out@[j].0@ == fields@[j].0@ && jval_of(out@[j].1)
                                == jval_of(fields@[j].1),
                    decreases n - i,
                {
                    proof {
                        assert(decreases_to!(*self => self->Obj_0));
                        assert(self->Obj_0 == *fields);
                        assert(decreases_to!(*fields => fields@[i as int].1));
                        assert(decreases_to!(*self => fields@[i as int].1));
                    }
                    let k = dup_bytes(&fields[i].0);
                    let v = fields[i].1.duplicate();
                    out.push((k, v));
                    i += 1;
                }
                assert(jfields(out@) =~= jfields(fields@));
                Json::Obj(out)
            },
        }
    }
}

/// Copies a byte vector.
pub fn dup_bytes(a: &Vec<u8>) -> (r: Vec<u8>)
    ensures
        r@ == a@,
{
    let mut out: Vec<u8> = Vec::new();
    let n = a.len();
    let mut i: usize = 0;
    while i < n
        invariant
            n == a@.len(),
            0 <= i <= n,
            out@ =~= a@.take(i as int),
        decreases n - i,
    {
        out.push(a[i]);
        i += 1;
    }
    assert(out@ =~= a@);
    out
}

/// Looks up the first field named `k`.
pub fn obj_get<'a>(fields: &'a Vec<(Vec<u8>, Json)>, k: &Vec<u8>) -> (r: Option<&'a Json>)
    ensures
        match r {
            Some(v) => jobj_get(jfields(fields@), k@) == Some(jval_of(*v)),
            None => jobj_get(jfields(fields@), k@) is None,
        },
{
    obj_get_from(fields, k, 0)
}

fn obj_get_from<'a>(fields: &'a Vec<(Vec<u8>, Json)>, k: &Vec<u8>, i: usize) -> (r: Option<
    &'a Json,
>)
    requires
        i <= fields@.len(),
    ensures
        match r {
            Some(v) => jobj_get_from(jfields(fields@), k@, i as int) == Some(jval_of(*v)),
            None => jobj_get_from(jfields(fields@), k@, i as int) is None,
        },
    decreases fields@.len() - i,
{
    if i >= fields.len() {
        None
    } else if bytes_eq(&fields[i].0, k) {
        Some(&fields[i].1)
    } else {
        obj_get_from(fields, k, i + 1)
    }
}

/// True when the object has a field named `k`.
pub fn obj_has(fields: &Vec<(Vec<u8>, Json)>, k: &Vec<u8>) -> (r: bool)
    ensures
        r == jobj_has(jfields(fields@), k@),
{
    match obj_get(fields, k) {
        Some(_) => true,
        None => false,
    }
}

/// Binds key `k` to `v`, overwriting the first occurrence in place or
/// appending at the end.
pub fn obj_set(fields: &mut Vec<(Vec<u8>, Json)>, k: Vec<u8>, v: Json)
    ensures
        jfields(final (fields)@) == jobj_set(jfields(old(fields)@), k@, jval_of(v)),
{
    obj_set_from(fields, k, v, 0);
}

fn obj_set_from(fields: &mut Vec<(Vec<u8>, Json)>, k: Vec<u8>, v: Json, i: usize)
    requires
        i <= old(fields)@.len(),
    ensures
        jfields(final (fields)@) == jobj_set_from(jfields(old(fields)@), k@, jval_of(v), i as int),
    decreases old(fields)@.len() - i,
{
    if i >= fields.len() {
        let ghost pre = jfields(fields@);
        fields.push((k, v));
        assert(jfields(fields@) =~= pre.push((k@, jval_of(v))));
    } else if bytes_eq(&fields[i].0, &k) {
        let ghost pre = jfields(fields@);
        fields.set(i, (k, v));
        assert(jfields(fields@) =~= pre.update(i as int, (k@, jval_of(v))));
    } else {
        obj_set_from(fields, k, v, i + 1);
    }
}

/// Removes every field named `k`.
pub fn obj_strip(fields: &mut Vec<(Vec<u8>, Json)>, k: &Vec<u8>)
    ensures
        jfields(final (fields)@) == jobj_strip(jfields(old(fields)@), k@),
{
    obj_strip_from(fields, k, 0);
}

fn obj_strip_from(fields: &mut Vec<(Vec<u8>, Json)>, k: &Vec<u8>, i: usize)
    requires
        i <= old(fields)@.len(),
    ensures
        jfields(final (fields)@) == jobj_strip_from(jfields(old(fields)@), k@, i as int),
    decreases old(fields)@.len() - i,
{
    if i >= fields.len() {
        assert(jfields(fields@) =~= jfields(fields@).take(i as int));
    } else if bytes_eq(&fields[i].0, k) {
        let ghost pre = jfields(fields@);
        fields.remove(i);
        assert(jfields(fields@) =~= pre.remove(i as int));
        obj_strip_from(fields, k, i);
    } else {
        obj_strip_from(fields, k, i + 1);
    }
}


/// Binding a key from index `i` never shortens the field list.
proof fn lemma_set_from_len(fields: Seq<(Seq<u8>, JVal)>, k: Seq<u8>, v: JVal, i: int)
    requires
        0 <= i <= fields.len(),
    ensures
        fields.len() <= jobj_set_from(fields, k, v, i).len() <= fields.len() + 1,
    decreases fields.len() - i,
{
    if i < fields.len() && fields[i].0 != k {
        lemma_set_from_len(fields, k, v, i + 1);
    }
}

/// Binding a key from index `i` leaves the fields before `i` unchanged.
proof fn lemma_set_from_keeps_prefix(
    fields: Seq<(Seq<u8>, JVal)>,
    k: Seq<u8>,
    v: JVal,
    i: int,
    j: int,
)
    requires
        0 <= j < i <= fields.len(),
    ensures
        jobj_set_from(fields, k, v, i)[j] == fields[j],
    decreases fields.len() - i,
{
    if i < fields.len() && fields[i].0 != k {
        lemma_set_from_keeps_prefix(fields, k, v, i + 1, j);
    }
}

/// A lookup sees only the fields from its start index on.
proof fn lemma_get_from_agree(s1: Seq<(Seq<u8>, JVal)>, s2: Seq<(Seq<u8>, JVal)>, k: Seq<u8>, j: int)
    requires
        0 <= j,
        s1.len() == s2.len(),
        forall|m: int| j <= m < s1.len() ==> s1[m] == s2[m],
    ensures
        jobj_get_from(s1, k, j) == jobj_get_from(s2, k, j),
    decreases s1.len() - j,
{
    if j < s1.len() {
        lemma_get_from_agree(s1, s2, k, j + 1);
    }
}

proof fn lemma_get_set_same_from(fields: Seq<(Seq<u8>, JVal)>, k: Seq<u8>, v: JVal, i: int)
    requires
        0 <= i <= fields.len(),
    ensures
        jobj_get_from(jobj_set_from(fields, k, v, i), k, i) == Some(v),
    decreases fields.len() - i,
{
    let s = jobj_set_from(fields, k, v, i);
    if i == fields.len() {
        assert(s == fields.push((k, v)));
        assert(s[i] == (k, v));
    } else if fields[i].0 == k {
        assert(s == fields.update(i, (k, v)));
        assert(s[i] == (k, v));
    } else {
        lemma_get_set_same_from(fields, k, v, i + 1);
        lemma_set_from_len(fields, k, v, i + 1);
        lemma_set_from_keeps_prefix(fields, k, v, i + 1, i);
        assert(s[i].0 != k);
    }
}

/// After binding `k` to `v`, looking up `k` yields `v`.
pub proof fn lemma_jobj_get_set_same(fields: Seq<(Seq<u8>, JVal)>, k: Seq<u8>, v: JVal)
    ensures
        jobj_get(jobj_set(fields, k, v), k) == Some(v),
{
    lemma_get_set_same_from(fields, k, v, 0);
}

proof fn lemma_get_set_other_from(
    fields: Seq<(Seq<u8>, JVal)>,
    k: Seq<u8>,
    v: JVal,
    k2: Seq<u8>,
    i: int,
)
    requires
        0 <= i <= fields.len(),
        k2 != k,
    ensures
        jobj_get_from(jobj_set_from(fields, k, v, i), k2, i) == jobj_get_from(fields, k2, i),
    decreases fields.len() - i,
{
    let s = jobj_set_from(fields, k, v, i);
    if i == fields.len() {
        assert(s == fields.push((k, v)));
        assert(s[i] == (k, v));
        assert(jobj_get_from(s, k2, i + 1) is None);
    } else if fields[i].0 == k {
        assert(s == fields.update(i, (k, v)));
        lemma_get_from_agree(s, fields, k2, i + 1);
    } else {
        lemma_get_set_other_from(fields, k, v, k2, i + 1);
        lemma_set_from_len(fields, k, v, i + 1);
        lemma_set_from_keeps_prefix(fields, k, v, i + 1, i);
    }
}

/// Binding `k` leaves every other key's lookup unchanged.
pub proof fn lemma_jobj_get_set_other(fields: Seq<(Seq<u8>, JVal)>, k: Seq<u8>, v: JVal, k2: Seq<u8>)
    requires
        k2 != k,
    ensures
        jobj_get(jobj_set(fields, k, v), k2) == jobj_get(fields, k2),
{
    lemma_get_set_other_from(fields, k, v, k2, 0);
}


/// No field from `i` on is named `k`: the lookup from `i` fails.
proof fn lemma_get_from_none(fields: Seq<(Seq<u8>, JVal)>, k: Seq<u8>, i: int)
    requires
        forall|j: int| i <= j < fields.len() ==> (#[trigger] fields[j]).0 != k,
    ensures
        jobj_get_from(fields, k, i) is None,
    decreases fields.len() - i,
{
    if 0 <= i < fields.len() {
        lemma_get_from_none(fields, k, i + 1);
    }
}

/// Looking from `i` in a sequence that drops one earlier entry reads the
/// same fields as looking from `i + 1` in the full sequence.
proof fn lemma_get_from_shift(
    s1: Seq<(Seq<u8>, JVal)>,
    s2: Seq<(Seq<u8>, JVal)>,
    k: Seq<u8>,
    i: int,
)
    requires
        0 <= i,
        s1.len() + 1 == s2.len(),
        forall|j: int| i <= j < s1.len() ==> s1[j] == s2[j + 1],
    ensures
        jobj_get_from(s1, k, i) == jobj_get_from(s2, k, i + 1),
    decreases s1.len() - i,
{
    if i < s1.len() {
        lemma_get_from_shift(s1, s2, k, i + 1);
    }
}

/// Stripping from `i` keeps the fields before `i` in place.
proof fn lemma_strip_from_frame(fields: Seq<(Seq<u8>, JVal)>, k: Seq<u8>, i: int, j: int)
    requires
        0 <= j < i <= fields.len(),
    ensures
        jobj_strip_from(fields, k, i).len() >= i,
        jobj_strip_from(fields, k, i)[j] == fields[j],
    decreases fields.len() - i,
{
    if i == fields.len() {
        assert(jobj_strip_from(fields, k, i) == fields.take(i));
    } else if fields[i].0 == k {
        lemma_strip_from_frame(fields.remove(i), k, i, j);
    } else {
        lemma_strip_from_frame(fields, k, i + 1, j);
    }
}

proof fn lemma_strip_from_gone(fields: Seq<(Seq<u8>, JVal)>, k: Seq<u8>, i: int)
    requires
        0 <= i <= fields.len(),
        forall|j: int| 0 <= j < i ==> (#[trigger] fields[j]).0 != k,
    ensures
        jobj_get(jobj_strip_from(fields, k, i), k) is None,
    decreases fields.len() - i,
{
    if i == fields.len() {
        assert(jobj_strip_from(fields, k, i) == fields.take(i));
        assert(fields.take(i) =~= fields);
        lemma_get_from_none(fields, k, 0);
    } else if fields[i].0 == k {
        let shorter = fields.remove(i);
        assert(forall|j: int| 0 <= j < i ==> (#[trigger] shorter[j]).0 != k);
        lemma_strip_from_gone(shorter, k, i);
    } else {
        lemma_strip_from_gone(fields, k, i + 1);
    }
}

/// After stripping every field named `k`, looking up `k` fails.
pub proof fn lemma_jobj_strip_gone(fields: Seq<(Seq<u8>, JVal)>, k: Seq<u8>)
    ensures
        jobj_get(jobj_strip(fields, k), k) is None,
{
    lemma_strip_from_gone(fields, k, 0);
}

proof fn lemma_strip_from_other(fields: Seq<(Seq<u8>, JVal)>, k: Seq<u8>, k2: Seq<u8>, i: int)
    requires
        0 <= i <= fields.len(),
        k2 != k,
    ensures
        jobj_get_from(jobj_strip_from(fields, k, i), k2, i) == jobj_get_from(fields, k2, i),
    decreases fields.len() - i,
{
    let stripped = jobj_strip_from(fields, k, i);
    if i == fields.len() {
        assert(stripped == fields.take(i));
        assert(fields.take(i) =~= fields);
    } else if fields[i].0 == k {
        let shorter = fields.remove(i);
        lemma_strip_from_other(shorter, k, k2, i);
        lemma_get_from_shift(shorter, fields, k2, i);
    } else {
        lemma_strip_from_other(fields, k, k2, i + 1);
        if i + 1 <= fields.len() {
            lemma_strip_from_frame(fields, k, i + 1, i);
        }
        assert(stripped[i] == fields[i]);
    }
}

/// Stripping `k` leaves every other key's lookup unchanged.
pub proof fn lemma_jobj_strip_other(fields: Seq<(Seq<u8>, JVal)>, k: Seq<u8>, k2: Seq<u8>)
    requires
        k2 != k,
    ensures
        jobj_get(jobj_strip(fields, k), k2) == jobj_get(fields, k2),
{
    lemma_strip_from_other(fields, k, k2, 0);
}

} // verus!
