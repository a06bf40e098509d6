//! The gateway's error taxonomy and its mapping to HTTP response classes.

use vstd::prelude::*;
use vstd::slice::slice_to_vec;
use vstd::string::StringSliceAdditionalSpecFns;

use crate::json::Json;
use crate::json::JVal;
use crate::json::jfields;
use crate::names::error_key;
use crate::names::error_key_vec;
use crate::print::text_of;
use crate::print::json_to_bytes;

verus! {

/// Everything that can go wrong while serving one request.
#[derive(Debug, Clone, Copy, PartialEq, Eq, Structural)]
pub enum GatewayError {
    /// The request body is not valid JSON.
    Parse,
    /// The body is valid JSON but fits none of the accepted shapes.
    UnsupportedShape,
    /// The decoded shape does not fit the requested action.
    Build,
    /// No route, document or resource matches the request.
    NotFound,
    /// The route exists but not under this HTTP method.
    MethodNotAllowed,
    /// The gateway is in read-only mode and the action writes.
    ReadOnly,
    /// The backend cannot be reached.
    BackendUnavailable,
    /// The backend reached but refused or failed the operation.
    BackendFailed,
}

impl GatewayError {
    /// The HTTP status for each error kind.
    pub open spec fn status_spec(self) -> u16 {
        match self {
            GatewayError::Parse => 400,
            GatewayError::UnsupportedShape => 400,
            GatewayError::Build => 400,
            GatewayError::NotFound => 404,
            GatewayError::MethodNotAllowed => 405,
            GatewayError::ReadOnly => 403,
            GatewayError::BackendUnavailable => 503,
            GatewayError::BackendFailed => 500,
        }
    }

    pub fn status(&self) -> (r: u16)
        ensures
            r == self.status_spec(),
    {
        match self {
            GatewayError::Parse => 400,
            GatewayError::UnsupportedShape => 400,
            GatewayError::Build => 400,
            GatewayError::NotFound => 404,
            GatewayError::MethodNotAllowed => 405,
            GatewayError::ReadOnly => 403,
            GatewayError::BackendUnavailable => 503,
            GatewayError::BackendFailed => 500,
        }
    }

    /// The message text for each error kind.
    pub open spec fn message_spec(self) -> Seq<u8> {
        match self {
            GatewayError::Parse => "malformed json body".spec_bytes(),
            GatewayError::UnsupportedShape => "unsupported request shape".spec_bytes(),
            GatewayError::Build => "invalid operation arguments".spec_bytes(),
            GatewayError::NotFound => "not found".spec_bytes(),
            GatewayError::MethodNotAllowed => "method not allowed".spec_bytes(),
            GatewayError::ReadOnly => "read-only mode rejects writes".spec_bytes(),
            GatewayError::BackendUnavailable => "backend unavailable".spec_bytes(),
            GatewayError::BackendFailed => "backend operation failed".spec_bytes(),
        }
    }

    pub fn message(&self) -> (r: Vec<u8>)
        ensures
            r@ == self.message_spec(),
    {
        match self {
            GatewayError::Parse => slice_to_vec("malformed json body".as_bytes()),
            GatewayError::UnsupportedShape => slice_to_vec("unsupported request shape".as_bytes()),
            GatewayError::Build => slice_to_vec("invalid operation arguments".as_bytes()),
            GatewayError::NotFound => slice_to_vec("not found".as_bytes()),
            GatewayError::MethodNotAllowed => slice_to_vec("method not allowed".as_bytes()),
            GatewayError::ReadOnly => slice_to_vec("read-only mode rejects writes".as_bytes()),
            GatewayError::BackendUnavailable => slice_to_vec("backend unavailable".as_bytes()),
            GatewayError::BackendFailed => slice_to_vec("backend operation failed".as_bytes()),
        }
    }

    /// The JSON error body, `{"error":"<message>"}`.
    pub open spec fn body_spec(self) -> Seq<u8> {
        text_of(JVal::Obj(seq![(error_key(), JVal::Str(self.message_spec()))]))
    }

    pub fn body(&self) -> (r: Vec<u8>)
        ensures
            r@ == self.body_spec(),
    {
        let mut fields: Vec<(Vec<u8>, Json)> = Vec::new();
        fields.push((error_key_vec(), Json::Str(self.message())));
        let doc = Json::Obj(fields);
        proof {
            assert(jfields(doc->Obj_0@) =~= seq![(error_key(), JVal::Str(self.message_spec()))]);
        }
        json_to_bytes(&doc)
    }

    /// The full HTTP answer: status and body.
    pub fn response(&self) -> (r: (u16, Vec<u8>))
        ensures
            r.0 == self.status_spec(),
            r.1@ == self.body_spec(),
    {
        (self.status(), self.body())
    }
}

} // verus!
