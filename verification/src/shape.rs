//! The request-shape decoder: sorting a parsed JSON body into one of the
//! accepted wire shapes, purely by structure.

use vstd::prelude::*;

use crate::json::Json;
use crate::json::JVal;
use crate::json::jitems;
use crate::json::jval_of;
use crate::error::GatewayError;

verus! {

/// What kind of primary payload the requested action expects.
#[derive(Debug, Clone, Copy, PartialEq, Eq, Structural)]
pub enum PrimaryKind {
    Object,
    Array,
}

/// A decoded request body: either the primary payload alone, or the primary
/// payload paired with an options object.
#[derive(Debug, PartialEq)]
pub enum RequestShape {
    Bare(Json),
    WithOptions(Json, Json),
}

/// The abstraction of a `RequestShape`.
pub enum ShapeV {
    Bare(JVal),
    WithOptions(JVal, JVal),
}

impl View for RequestShape {
    type V = ShapeV;

    open spec fn view(&self) -> ShapeV {
        match self {
            RequestShape::Bare(p) => ShapeV::Bare(jval_of(*p)),
            RequestShape::WithOptions(p, o) => ShapeV::WithOptions(jval_of(*p), jval_of(*o)),
        }
    }
}

/// Whether a value structurally matches the expected primary kind.
pub open spec fn kind_matches(m: JVal, k: PrimaryKind) -> bool {
    match k {
        PrimaryKind::Object => m is Obj,
        PrimaryKind::Array => m is Arr,
    }
}

/// Whether every element of the sequence is an object.
pub open spec fn all_objects(items: Seq<JVal>) -> bool {
    forall|i: int| 0 <= i < items.len() ==> (#[trigger] items[i]) is Obj
}

/// The decoding rule. An object is a bare payload. A two-element array whose
/// first element matches the expected kind is a payload with options (a null
/// second element counts as no options). Any other array of objects is a
/// bare payload. Everything else is refused.
pub open spec fn decode_spec(m: JVal, k: PrimaryKind) -> Result<ShapeV, GatewayError> {
    match m {
        JVal::Obj(_) => Ok(ShapeV::Bare(m)),
        JVal::Arr(items) => if items.len() == 2 && kind_matches(items[0], k) && items[1] is Obj {
            Ok(ShapeV::WithOptions(items[0], items[1]))
        } else if items.len() == 2 && kind_matches(items[0], k) && items[1] is Null {
            Ok(ShapeV::Bare(items[0]))
        } else if all_objects(items) {
            Ok(ShapeV::Bare(m))
        } else {
            Err(GatewayError::UnsupportedShape)
        },
        _ => Err(GatewayError::UnsupportedShape),
    }
}

pub(crate) fn json_is_obj(j: &Json) -> (r: bool)
    ensures
        r == (j@ is Obj),
{
    match j {
        Json::Obj(_) => true,
        _ => false,
    }
}

pub(crate) fn json_is_null(j: &Json) -> (r: bool)
    ensures
        r == (j@ is Null),
{
    match j {
        Json::Null => true,
        _ => false,
    }
}

pub(crate) fn kind_matches_exec(j: &Json, k: PrimaryKind) -> (r: bool)
    ensures
        r == kind_matches(j@, k),
{
    match k {
        PrimaryKind::Object => match j {
            Json::Obj(_) => true,
            _ => false,
        },
        PrimaryKind::Array => match j {
            Json::Arr(_) => true,
            _ => false,
        },
    }
}

pub(crate) fn all_objects_exec(items: &Vec<Json>) -> (r: bool)
    ensures
        r == all_objects(jitems(items@)),
{
    let n = items.len();
    let mut i: usize = 0;
    while i < n
        invariant
            n == items@.len(),
            0 <= i <= n,
            forall|j: int| 0 <= j < i ==> (#[trigger] jitems(items@)[j]) is Obj,
        decreases n - i,
    {
        if !json_is_obj(&items[i]) {
            assert(!(jitems(items@)[i as int] is Obj));
            return false;
        }
        i += 1;
    }
    true
}

/// Decodes a parsed body into a request shape for an action expecting `k`.
pub fn decode_shape(v: Json, k: PrimaryKind) -> (r: Result<RequestShape, GatewayError>)
    ensures
        match r {
            Ok(rs) => decode_spec(jval_of(v), k) == Ok::<ShapeV, GatewayError>(rs@),
            Err(e) => decode_spec(jval_of(v), k) == Err::<ShapeV, GatewayError>(e),
        },
{
    if json_is_obj(&v) {
        return Ok(RequestShape::Bare(v));
    }
    match v {
        Json::Arr(items) => {
            let ghost m = jitems(items@);
            if items.len() == 2 && kind_matches_exec(&items[0], k) && json_is_obj(&items[1]) {
                let mut items = items;
                let second = items.pop().unwrap();
                let first = items.pop().unwrap();
                assert(jval_of(first) == m[0] && jval_of(second) == m[1]);
                Ok(RequestShape::WithOptions(first, second))
            } else if items.len() == 2 && kind_matches_exec(&items[0], k) && json_is_null(
                &items[1],
            ) {
                let mut items = items;
                let _ = items.pop();
                let first = items.pop().unwrap();
                assert(jval_of(first) == m[0]);
                Ok(RequestShape::Bare(first))
            } else if all_objects_exec(&items) {
                Ok(RequestShape::Bare(Json::Arr(items)))
            } else {
                Err(GatewayError::UnsupportedShape)
            }
        },
        _ => Err(GatewayError::UnsupportedShape),
    }
}

} // verus!
