//! The operation builder: turning a decoded request shape into the
//! arguments handed to the backend, applying the gateway's defaulting and
//! stamping rules.

use vstd::prelude::*;

use crate::json::Json;
use crate::json::JVal;
use crate::json::jitems;
use crate::json::jfields;
use crate::json::jval_of;
use crate::json::jobj_set;
use crate::json::jobj_has;
use crate::json::obj_set;
use crate::json::obj_has;
use crate::names::time_key;
use crate::names::time_key_vec;
use crate::names::max_time_key;
use crate::names::max_time_key_vec;
use crate::names::max_time_default;
use crate::names::max_time_default_vec;
use crate::names::limit_key;
use crate::names::limit_key_vec;
use crate::names::limit_default;
use crate::names::limit_default_vec;
use crate::names::sort_key;
use crate::names::sort_key_vec;
use crate::names::id_key;
use crate::names::id_key_vec;
use crate::names::descending;
use crate::names::descending_vec;
use crate::num::dec_of;
use crate::num::u64_to_dec;
use crate::shape::PrimaryKind;
use crate::shape::RequestShape;
use crate::shape::ShapeV;
use crate::shape::all_objects;
use crate::shape::all_objects_exec;
use crate::shape::json_is_obj;
use crate::error::GatewayError;

verus! {

/// The data actions the gateway can perform.
#[derive(Debug, Clone, Copy, PartialEq, Eq, Structural)]
pub enum Action {
    Find,
    FindOne,
    InsertOne,
    InsertMany,
    Aggregate,
}

/// The primary payload kind each action expects.
pub open spec fn action_kind(a: Action) -> PrimaryKind {
    match a {
        Action::Find => PrimaryKind::Object,
        Action::FindOne => PrimaryKind::Object,
        Action::InsertOne => PrimaryKind::Object,
        Action::InsertMany => PrimaryKind::Array,
        Action::Aggregate => PrimaryKind::Array,
    }
}

pub fn action_kind_exec(a: Action) -> (r: PrimaryKind)
    ensures
        r == action_kind(a),
{
    match a {
        Action::Find => PrimaryKind::Object,
        Action::FindOne => PrimaryKind::Object,
        Action::InsertOne => PrimaryKind::Object,
        Action::InsertMany => PrimaryKind::Array,
        Action::Aggregate => PrimaryKind::Array,
    }
}

/// Whether the action writes to the backend.
pub open spec fn is_write(a: Action) -> bool {
    a == Action::InsertOne || a == Action::InsertMany
}

pub fn is_write_exec(a: Action) -> (r: bool)
    ensures
        r == is_write(a),
{
    match a {
        Action::InsertOne => true,
        Action::InsertMany => true,
        _ => false,
    }
}

/// The arguments of one backend operation: the primary payload and the
/// options document, if any.
#[derive(Debug, PartialEq)]
pub struct OperationArguments {
    pub primary: Json,
    pub options: Option<Json>,
}

/// The abstraction of `OperationArguments`.
pub struct OpArgsV {
    pub primary: JVal,
    pub options: Option<JVal>,
}

impl View for OperationArguments {
    type V = OpArgsV;

    open spec fn view(&self) -> OpArgsV {
        OpArgsV {
            primary: jval_of(self.primary),
            options: match self.options {
                Some(o) => Some(jval_of(o)),
                None => None,
            },
        }
    }
}

/// A document with the server timestamp written under `_time`, overwriting
/// any caller-supplied field of that name. Values that are not objects pass
/// through unchanged (the builder refuses them separately).
pub open spec fn stamp(m: JVal, now_ms: u64) -> JVal {
    match m {
        JVal::Obj(fs) => JVal::Obj(jobj_set(fs, time_key(), JVal::Num(dec_of(now_ms as nat)))),
        _ => m,
    }
}

/// Every document stamped with the one shared timestamp.
pub open spec fn stamp_all(items: Seq<JVal>, now_ms: u64) -> Seq<JVal> {
    Seq::new(items.len(), |i: int| stamp(items[i], now_ms))
}

/// An options object with `maxTime` defaulted to 60000 when absent.
pub open spec fn with_max_time(o: JVal) -> JVal {
    match o {
        JVal::Obj(fs) => if jobj_has(fs, max_time_key()) {
            o
        } else {
            JVal::Obj(jobj_set(fs, max_time_key(), JVal::Num(max_time_default())))
        },
        _ => o,
    }
}

/// The options a Find gets when the caller supplies none: newest 100
/// documents first.
pub open spec fn find_default_options() -> JVal {
    JVal::Obj(
        seq![
            (limit_key(), JVal::Num(limit_default())),
            (sort_key(), JVal::Obj(seq![(id_key(), JVal::Num(descending()))])),
        ],
    )
}

/// The building rule. Options, when present, must be an object. Find and
/// FindOne take an object filter; Find defaults absent options to the
/// newest-100 shape and both Find and Aggregate default `maxTime` to 60000.
/// InsertOne takes an object document, stamped. InsertMany takes an array of
/// objects, each stamped with one shared timestamp. Aggregate takes an array
/// of object stages, never stamped.
pub open spec fn build_spec(a: Action, sh: ShapeV, now_ms: u64) -> Result<
    OpArgsV,
    GatewayError,
> {
    let primary = match sh {
        ShapeV::Bare(p) => p,
        ShapeV::WithOptions(p, _) => p,
    };
    let opts = match sh {
        ShapeV::Bare(_) => None,
        ShapeV::WithOptions(_, o) => Some(o),
    };
    if opts matches Some(o) && !(o is Obj) {
        Err(GatewayError::Build)
    } else {
        match a {
            Action::Find => if primary is Obj {
                let base = match opts {
                    Some(o) => o,
                    None => find_default_options(),
                };
                Ok(OpArgsV { primary, options: Some(with_max_time(base)) })
            } else {
                Err(GatewayError::Build)
            },
            Action::FindOne => if primary is Obj {
                Ok(OpArgsV { primary, options: opts })
            } else {
                Err(GatewayError::Build)
            },
            Action::InsertOne => if primary is Obj {
                Ok(OpArgsV { primary: stamp(primary, now_ms), options: opts })
            } else {
                Err(GatewayError::Build)
            },
            Action::InsertMany => if primary matches JVal::Arr(items) && all_objects(items) {
                Ok(OpArgsV { primary: JVal::Arr(stamp_all(primary->Arr_0, now_ms)), options: opts })
            } else {
                Err(GatewayError::Build)
            },
            Action::Aggregate => if primary matches JVal::Arr(items) && all_objects(items) {
                let base = match opts {
                    Some(o) => o,
                    None => JVal::Obj(Seq::empty()),
                };
                Ok(OpArgsV { primary, options: Some(with_max_time(base)) })
            } else {
                Err(GatewayError::Build)
            },
        }
    }
}

/// Stamps one document in place.
fn stamp_exec(doc: Json, now_ms: u64) -> (r: Json)
    ensures
        jval_of(r) == stamp(jval_of(doc), now_ms),
{
    match doc {
        Json::Obj(mut fields) => {
            obj_set(&mut fields, time_key_vec(), Json::Num(u64_to_dec(now_ms)));
            Json::Obj(fields)
        },
        other => other,
    }
}

/// Adds the default `maxTime` to an options object that lacks it.
fn with_max_time_exec(o: Json) -> (r: Json)
    ensures
        jval_of(r) == with_max_time(jval_of(o)),
{
    match o {
        Json::Obj(mut fields) => {
            if obj_has(&fields, &max_time_key_vec()) {
                Json::Obj(fields)
            } else {
                obj_set(&mut fields, max_time_key_vec(), Json::Num(max_time_default_vec()));
                Json::Obj(fields)
            }
        },
        other => other,
    }
}

/// Builds the default Find options.
fn find_default_options_exec() -> (r: Json)
    ensures
        jval_of(r) == find_default_options(),
{
    let mut sort_doc: Vec<(Vec<u8>, Json)> = Vec::new();
    sort_doc.push((id_key_vec(), Json::Num(descending_vec())));
    assert(jfields(sort_doc@) =~= seq![(id_key(), JVal::Num(descending()))]);
    let mut fields: Vec<(Vec<u8>, Json)> = Vec::new();
    fields.push((limit_key_vec(), Json::Num(limit_default_vec())));
    fields.push((sort_key_vec(), Json::Obj(sort_doc)));
    let r = Json::Obj(fields);
    assert(jval_of(r) =~= find_default_options()) by {
        assert(jfields(fields@) =~= find_default_options()->Obj_0);
    }
    r
}

/// Stamps every element of an array of documents with one shared timestamp.
#[verifier::loop_isolation(false)]
fn stamp_all_exec(items: Vec<Json>, now_ms: u64) -> (r: Vec<Json>)
    ensures
        jitems(r@) == stamp_all(jitems(items@), now_ms),
{
    let ghost orig = jitems(items@);
    let mut items = items;
    let n = items.len();
    let mut i: usize = 0;
    while i < n
        invariant
            n == items@.len(),
            0 <= i <= n,
            forall|j: int| 0 <= j < i ==> jval_of(items@[j]) == stamp(orig[j], now_ms),
            forall|j: int| i <= j < n ==> jval_of(items@[j]) == orig[j],
        decreases n - i,
    {
        let mut taken = Json::Null;
        items.set_and_swap(i, &mut taken);
        let stamped = stamp_exec(taken, now_ms);
        items.set(i, stamped);
        i += 1;
    }
    assert(jitems(items@) =~= stamp_all(orig, now_ms));
    items
}

/// Builds the backend arguments for one action from a decoded shape.
pub fn build_operation(a: Action, sh: RequestShape, now_ms: u64) -> (r: Result<
    OperationArguments,
    GatewayError,
>)
    ensures
        match r {
            Ok(args) => build_spec(a, sh@, now_ms) == Ok::<OpArgsV, GatewayError>(args@),
            Err(e) => build_spec(a, sh@, now_ms) == Err::<OpArgsV, GatewayError>(e),
        },
{
    let (primary, options) = match sh {
        RequestShape::Bare(p) => (p, None),
        RequestShape::WithOptions(p, o) => (p, Some(o)),
    };
    if let Some(o) = &options {
        if !json_is_obj(o) {
            return Err(GatewayError::Build);
        }
    }
    match a {
        Action::Find => {
            if !json_is_obj(&primary) {
                return Err(GatewayError::Build);
            }
            let base = match options {
                Some(o) => o,
                None => find_default_options_exec(),
            };
            Ok(OperationArguments { primary, options: Some(with_max_time_exec(base)) })
        },
        Action::FindOne => {
            if !json_is_obj(&primary) {
                return Err(GatewayError::Build);
            }
            Ok(OperationArguments { primary, options })
        },
        Action::InsertOne => {
            if !json_is_obj(&primary) {
                return Err(GatewayError::Build);
            }
            Ok(OperationArguments { primary: stamp_exec(primary, now_ms), options })
        },
        Action::InsertMany => {
            match primary {
                Json::Arr(items) => {
                    if !all_objects_exec(&items) {
                        return Err(GatewayError::Build);
                    }
                    let stamped = stamp_all_exec(items, now_ms);
                    Ok(OperationArguments { primary: Json::Arr(stamped), options })
                },
                _ => Err(GatewayError::Build),
            }
        },
        Action::Aggregate => {
            match &primary {
                Json::Arr(items) => {
                    if !all_objects_exec(items) {
                        return Err(GatewayError::Build);
                    }
                    let base = match options {
                        Some(o) => o,
                        None => Json::Obj(Vec::new()),
                    };
                    proof {
                        assert(jfields(Seq::<(Vec<u8>, Json)>::empty()) =~= Seq::<
                            (Seq<u8>, JVal),
                        >::empty());
                    }
                    Ok(OperationArguments { primary, options: Some(with_max_time_exec(base)) })
                },
                _ => Err(GatewayError::Build),
            }
        },
    }
}

} // verus!
