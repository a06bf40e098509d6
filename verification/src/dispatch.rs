//! The dispatcher: mapping method and path to an action, gating writes in
//! read-only mode, and sequencing parse, decode and build into one backend
//! operation plan.

use vstd::prelude::*;

use crate::json::Json;
use crate::json::JVal;
use crate::json::jval_of;
use crate::json::jobj_get;
use crate::json::jobj_has;
use crate::json::obj_get;
use crate::json::obj_has;
use crate::json::bytes_eq;
use crate::names::cat_seg;
use crate::names::cat_seg_vec;
use crate::names::databases_seg;
use crate::names::databases_seg_vec;
use crate::names::collections_seg;
use crate::names::collections_seg_vec;
use crate::names::count_seg;
use crate::names::count_seg_vec;
use crate::names::indexes_seg;
use crate::names::indexes_seg_vec;
use crate::names::find_seg;
use crate::names::find_seg_vec;
use crate::names::find_one_seg;
use crate::names::find_one_seg_vec;
use crate::names::insert_seg;
use crate::names::insert_seg_vec;
use crate::names::insert_many_seg;
use crate::names::insert_many_seg_vec;
use crate::names::aggregate_seg;
use crate::names::aggregate_seg_vec;
use crate::names::limit_key;
use crate::names::limit_key_vec;
use crate::names::projection_key;
use crate::names::projection_key_vec;
use crate::num::is_digits;
use crate::num::dec_val;
use crate::num::parse_u64;
use crate::body::parsed_body;
use crate::body::parse_json;
use crate::shape::decode_spec;
use crate::shape::decode_shape;
use crate::builder::Action;
use crate::builder::OpArgsV;
use crate::builder::action_kind;
use crate::builder::action_kind_exec;
use crate::builder::build_spec;
use crate::builder::build_operation;
use crate::builder::is_write;
use crate::builder::is_write_exec;
use crate::error::GatewayError;

verus! {

/// The process-wide configuration a request is served under.
#[derive(Debug, Clone, Copy, PartialEq, Eq, Structural)]
pub struct Config {
    /// When set, every write action is refused before its body is read.
    pub read_only: bool,
}

/// The HTTP method of a request, as far as routing cares.
#[derive(Debug, Clone, Copy, PartialEq, Eq, Structural)]
pub enum HttpMethod {
    Get,
    Post,
    Other,
}

/// One fully prepared backend operation, ready to run.
#[derive(Debug, PartialEq)]
pub enum BackendOp {
    FindOne { database: Vec<u8>, collection: Vec<u8>, filter: Json, options: Option<Json>, strip_id: bool },
    Find { database: Vec<u8>, collection: Vec<u8>, filter: Json, options: Json, cap: u64, strip_id: bool },
    InsertOne { database: Vec<u8>, collection: Vec<u8>, document: Json, options: Option<Json> },
    InsertMany { database: Vec<u8>, collection: Vec<u8>, documents: Json, options: Option<Json> },
    Aggregate { database: Vec<u8>, collection: Vec<u8>, pipeline: Json, options: Json },
    ListDatabases,
    ListCollections { database: Vec<u8> },
    Count { database: Vec<u8>, collection: Vec<u8> },
    ListIndexes { database: Vec<u8>, collection: Vec<u8> },
}

/// The abstraction of a `BackendOp`.
pub enum BackendOpV {
    FindOne { database: Seq<u8>, collection: Seq<u8>, filter: JVal, options: Option<JVal>, strip_id: bool },
    Find { database: Seq<u8>, collection: Seq<u8>, filter: JVal, options: JVal, cap: u64, strip_id: bool },
    InsertOne { database: Seq<u8>, collection: Seq<u8>, document: JVal, options: Option<JVal> },
    InsertMany { database: Seq<u8>, collection: Seq<u8>, documents: JVal, options: Option<JVal> },
    Aggregate { database: Seq<u8>, collection: Seq<u8>, pipeline: JVal, options: JVal },
    ListDatabases,
    ListCollections { database: Seq<u8> },
    Count { database: Seq<u8>, collection: Seq<u8> },
    ListIndexes { database: Seq<u8>, collection: Seq<u8> },
}

impl View for BackendOp {
    type V = BackendOpV;

    open spec fn view(&self) -> BackendOpV {
        match self {
            BackendOp::FindOne { database, collection, filter, options, strip_id } => BackendOpV::FindOne {
                database: database@,
                collection: collection@,
                filter: jval_of(*filter),
                options: match options {
                    Some(o) => Some(jval_of(*o)),
                    None => None,
                },
                strip_id: *strip_id,
            },
            BackendOp::Find { database, collection, filter, options, cap, strip_id } => BackendOpV::Find {
                database: database@,
                collection: collection@,
                filter: jval_of(*filter),
                options: jval_of(*options),
                cap: *cap,
                strip_id: *strip_id,
            },
            BackendOp::InsertOne { database, collection, document, options } => BackendOpV::InsertOne {
                database: database@,
                collection: collection@,
                document: jval_of(*document),
                options: match options {
                    Some(o) => Some(jval_of(*o)),
                    None => None,
                },
            },
            BackendOp::InsertMany { database, collection, documents, options } => BackendOpV::InsertMany {
                database: database@,
                collection: collection@,
                documents: jval_of(*documents),
                options: match options {
                    Some(o) => Some(jval_of(*o)),
                    None => None,
                },
            },
            BackendOp::Aggregate { database, collection, pipeline, options } => BackendOpV::Aggregate {
                database: database@,
                collection: collection@,
                pipeline: jval_of(*pipeline),
                options: jval_of(*options),
            },
            BackendOp::ListDatabases => BackendOpV::ListDatabases,
            BackendOp::ListCollections { database } => BackendOpV::ListCollections {
                database: database@,
            },
            BackendOp::Count { database, collection } => BackendOpV::Count {
                database: database@,
                collection: collection@,
            },
            BackendOp::ListIndexes { database, collection } => BackendOpV::ListIndexes {
                database: database@,
                collection: collection@,
            },
        }
    }
}

/// The action named by the last path segment, if any.
pub open spec fn action_of(s: Seq<u8>) -> Option<Action> {
    if s == find_seg() {
        Some(Action::Find)
    } else if s == find_one_seg() {
        Some(Action::FindOne)
    } else if s == insert_seg() {
        Some(Action::InsertOne)
    } else if s == insert_many_seg() {
        Some(Action::InsertMany)
    } else if s == aggregate_seg() {
        Some(Action::Aggregate)
    } else {
        None
    }
}

/// The result cap a Find runs under: its own `limit` option where that is a
/// digit run that fits a `u64`, the default 100 otherwise.
pub open spec fn cap_of(options: JVal) -> u64 {
    match options {
        JVal::Obj(fs) => match jobj_get(fs, limit_key()) {
            Some(JVal::Num(t)) => if is_digits(t) && dec_val(t) <= u64::MAX {
                dec_val(t) as u64
            } else {
                100
            },
            _ => 100,
        },
        _ => 100,
    }
}

/// Whether internal id fields are stripped from results: they are unless
/// the caller projected fields explicitly.
pub open spec fn strip_of(options: Option<JVal>) -> bool {
    match options {
        None => true,
        Some(JVal::Obj(fs)) => !jobj_has(fs, projection_key()),
        Some(_) => true,
    }
}

/// The backend operation an action and its built arguments turn into.
pub open spec fn op_of(a: Action, database: Seq<u8>, collection: Seq<u8>, args: OpArgsV) -> BackendOpV {
    match a {
        Action::Find => BackendOpV::Find {
            database,
            collection,
            filter: args.primary,
            options: args.options->0,
            cap: cap_of(args.options->0),
            strip_id: strip_of(args.options),
        },
        Action::FindOne => BackendOpV::FindOne {
            database,
            collection,
            filter: args.primary,
            options: args.options,
            strip_id: strip_of(args.options),
        },
        Action::InsertOne => BackendOpV::InsertOne {
            database,
            collection,
            document: args.primary,
            options: args.options,
        },
        Action::InsertMany => BackendOpV::InsertMany {
            database,
            collection,
            documents: args.primary,
            options: args.options,
        },
        Action::Aggregate => BackendOpV::Aggregate {
            database,
            collection,
            pipeline: args.primary,
            options: args.options->0,
        },
    }
}

/// The whole per-request rule, from route to backend operation.
///
/// Metadata reads carry no body. A data action must come by POST; in
/// read-only mode a write action is refused before its body is looked at;
/// then the body is parsed, decoded against the action's expected shape and
/// built into backend arguments.
pub open spec fn plan_spec(
    cfg: Config,
    method: HttpMethod,
    segs: Seq<Seq<u8>>,
    raw_body: Seq<u8>,
    now_ms: u64,
) -> Result<BackendOpV, GatewayError> {
    if segs.len() == 2 && segs[0] == cat_seg() && segs[1] == databases_seg() {
        if method == HttpMethod::Get {
            Ok(BackendOpV::ListDatabases)
        } else {
            Err(GatewayError::MethodNotAllowed)
        }
    } else if segs.len() == 3 && segs[1] == cat_seg() && segs[2] == collections_seg() {
        if method == HttpMethod::Get {
            Ok(BackendOpV::ListCollections { database: segs[0] })
        } else {
            Err(GatewayError::MethodNotAllowed)
        }
    } else if segs.len() == 3 && segs[2] == count_seg() {
        if method == HttpMethod::Get {
            Ok(BackendOpV::Count { database: segs[0], collection: segs[1] })
        } else {
            Err(GatewayError::MethodNotAllowed)
        }
    } else if segs.len() == 3 && segs[2] == indexes_seg() {
        if method == HttpMethod::Get {
            Ok(BackendOpV::ListIndexes { database: segs[0], collection: segs[1] })
        } else {
            Err(GatewayError::MethodNotAllowed)
        }
    } else if segs.len() == 3 && action_of(segs[2]) is Some {
        let a = action_of(segs[2])->0;
        if method != HttpMethod::Post {
            Err(GatewayError::MethodNotAllowed)
        } else if cfg.read_only && is_write(a) {
            Err(GatewayError::ReadOnly)
        } else {
            match parsed_body(raw_body) {
                None => Err(GatewayError::Parse),
                Some(m) => match decode_spec(m, action_kind(a)) {
                    Err(e) => Err(e),
                    Ok(sh) => match build_spec(a, sh, now_ms) {
                        Err(e) => Err(e),
                        Ok(args) => Ok(op_of(a, segs[0], segs[1], args)),
                    },
                },
            }
        }
    } else {
        Err(GatewayError::NotFound)
    }
}

/// The abstraction of a segment list.
pub open spec fn segs_view(segs: Seq<Vec<u8>>) -> Seq<Seq<u8>> {
    Seq::new(segs.len(), |i: int| segs[i]@)
}

fn action_of_exec(s: &Vec<u8>) -> (r: Option<Action>)
    ensures
        r == action_of(s@),
{
    if bytes_eq(s, &find_seg_vec()) {
        Some(Action::Find)
    } else if bytes_eq(s, &find_one_seg_vec()) {
        Some(Action::FindOne)
    } else if bytes_eq(s, &insert_seg_vec()) {
        Some(Action::InsertOne)
    } else if bytes_eq(s, &insert_many_seg_vec()) {
        Some(Action::InsertMany)
    } else if bytes_eq(s, &aggregate_seg_vec()) {
        Some(Action::Aggregate)
    } else {
        None
    }
}

fn cap_exec(options: &Json) -> (r: u64)
    ensures
        r == cap_of(options@),
{
    match options {
        Json::Obj(fields) => {
            let k = limit_key_vec();
            match obj_get(fields, &k) {
                Some(Json::Num(t)) => match parse_u64(t) {
                    Some(n) => n,
                    None => 100,
                },
                _ => 100,
            }
        },
        _ => 100,
    }
}

fn strip_exec(options: &Option<Json>) -> (r: bool)
    ensures
        r == strip_of(
            match options {
                Some(o) => Some(jval_of(*o)),
                None => None,
            },
        ),
{
    match options {
        None => true,
        Some(Json::Obj(fields)) => {
            let k = projection_key_vec();
            !obj_has(fields, &k)
        },
        Some(_) => true,
    }
}

/// Whether an answer is the one `plan_spec` prescribes for the clock
/// reading `now_ms`.
pub open spec fn plan_matches(
    r: Result<BackendOp, GatewayError>,
    cfg: Config,
    method: HttpMethod,
    segs: Seq<Seq<u8>>,
    raw_body: Seq<u8>,
    now_ms: u64,
) -> bool {
    match r {
        Ok(op) => plan_spec(cfg, method, segs, raw_body, now_ms) == Ok::<
            BackendOpV,
            GatewayError,
        >(op@),
        Err(e) => plan_spec(cfg, method, segs, raw_body, now_ms) == Err::<
            BackendOpV,
            GatewayError,
        >(e),
    }
}

/// Relies on `chrono::Utc::now`: the wall clock, read in milliseconds since
/// the epoch (`timestamp_millis` converts the reading, and the cast clamps
/// it into `u64`). Nothing is promised of the reading.
#[verifier::external_body]
fn current_millis() -> u64 {
    chrono::Utc::now().timestamp_millis() as u64
}

/// Plans one request against the server clock: whatever the clock read,
/// the answer is the one `plan_spec` prescribes for that reading.
pub fn plan_request_now(
    cfg: &Config,
    method: HttpMethod,
    segs: Vec<Vec<u8>>,
    raw_body: &Vec<u8>,
) -> (r: Result<BackendOp, GatewayError>)
    ensures
        exists|now_ms: u64|
            #[trigger] plan_matches(r, *cfg, method, segs_view(segs@), raw_body@, now_ms),
{
    let now_ms = current_millis();
    let r = plan_request(cfg, method, segs, raw_body, now_ms);
    assert(plan_matches(r, *cfg, method, segs_view(segs@), raw_body@, now_ms));
    r
}

/// Plans one request: what to run against the backend, or which error to
/// answer with. `segs` are the path segments; `raw_body` is the request body
/// (empty where the route takes none); `now_ms` is the server clock reading
/// used for stamping.
pub fn plan_request(
    cfg: &Config,
    method: HttpMethod,
    segs: Vec<Vec<u8>>,
    raw_body: &Vec<u8>,
    now_ms: u64,
) -> (r: Result<BackendOp, GatewayError>)
    ensures
        plan_matches(r, *cfg, method, segs_view(segs@), raw_body@, now_ms),
{
    let ghost sv = segs_view(segs@);
    if segs.len() == 2 && bytes_eq(&segs[0], &cat_seg_vec()) && bytes_eq(
        &segs[1],
        &databases_seg_vec(),
    ) {
        if method == HttpMethod::Get {
            Ok(BackendOp::ListDatabases)
        } else {
            Err(GatewayError::MethodNotAllowed)
        }
    } else if segs.len() == 3 && bytes_eq(&segs[1], &cat_seg_vec()) && bytes_eq(
        &segs[2],
        &collections_seg_vec(),
    ) {
        if method == HttpMethod::Get {
            let mut segs = segs;
            let _ = segs.pop();
            let _ = segs.pop();
            let database = segs.pop().unwrap();
            Ok(BackendOp::ListCollections { database })
        } else {
            Err(GatewayError::MethodNotAllowed)
        }
    } else if segs.len() == 3 && bytes_eq(&segs[2], &count_seg_vec()) {
        if method == HttpMethod::Get {
            let mut segs = segs;
            let _ = segs.pop();
            let collection = segs.pop().unwrap();
            let database = segs.pop().unwrap();
            Ok(BackendOp::Count { database, collection })
        } else {
            Err(GatewayError::MethodNotAllowed)
        }
    } else if segs.len() == 3 && bytes_eq(&segs[2], &indexes_seg_vec()) {
        if method == HttpMethod::Get {
            let mut segs = segs;
            let _ = segs.pop();
            let collection = segs.pop().unwrap();
            let database = segs.pop().unwrap();
            Ok(BackendOp::ListIndexes { database, collection })
        } else {
            Err(GatewayError::MethodNotAllowed)
        }
    } else {
        let action = if segs.len() == 3 {
            action_of_exec(&segs[2])
        } else {
            None
        };
        match action {
            None => Err(GatewayError::NotFound),
            Some(a) => {
                if method != HttpMethod::Post {
                    return Err(GatewayError::MethodNotAllowed);
                }
                if cfg.read_only && is_write_exec(a) {
                    return Err(GatewayError::ReadOnly);
                }
                let parsed = match parse_json(raw_body) {
                    None => {
                        return Err(GatewayError::Parse);
                    },
                    Some(v) => v,
                };
                let shaped = match decode_shape(parsed, action_kind_exec(a)) {
                    Err(e) => {
                        return Err(e);
                    },
                    Ok(sh) => sh,
                };
                let args = match build_operation(a, shaped, now_ms) {
                    Err(e) => {
                        return Err(e);
                    },
                    Ok(args) => args,
                };
                let mut segs = segs;
                let _ = segs.pop();
                let collection = segs.pop().unwrap();
                let database = segs.pop().unwrap();
                match a {
                    Action::Find => {
                        let options = match args.options {
                            Some(o) => o,
                            None => {
                                proof {
                                    assert(false);
                                }
                                Json::Null
                            },
                        };
                        let cap = cap_exec(&options);
                        let strip_id = match &options {
                            Json::Obj(fields) => {
                                let k = projection_key_vec();
                                !obj_has(fields, &k)
                            },
                            _ => true,
                        };
                        assert(strip_id == strip_of(Some(jval_of(options))));
                        Ok(BackendOp::Find {
                            database,
                            collection,
                            filter: args.primary,
                            options,
                            cap,
                            strip_id,
                        })
                    },
                    Action::FindOne => {
                        let strip_id = strip_exec(&args.options);
                        Ok(BackendOp::FindOne {
                            database,
                            collection,
                            filter: args.primary,
                            options: args.options,
                            strip_id,
                        })
                    },
                    Action::InsertOne => Ok(BackendOp::InsertOne {
                        database,
                        collection,
                        document: args.primary,
                        options: args.options,
                    }),
                    Action::InsertMany => Ok(BackendOp::InsertMany {
                        database,
                        collection,
                        documents: args.primary,
                        options: args.options,
                    }),
                    Action::Aggregate => {
                        let options = match args.options {
                            Some(o) => o,
                            None => {
                                proof {
                                    assert(false);
                                }
                                Json::Null
                            },
                        };
                        Ok(BackendOp::Aggregate {
                            database,
                            collection,
                            pipeline: args.primary,
                            options,
                        })
                    },
                }
            },
        }
    }
}

} // verus!
