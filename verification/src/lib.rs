//! A verified request-shape normalization layer for a JSON-over-HTTP
//! document-database gateway: it decodes loosely-structured JSON request
//! bodies into canonical operation shapes, applies the gateway's defaulting
//! and stamping rules, plans backend operations, and encodes results and
//! errors as JSON response bodies.

use vstd::prelude::*;

pub mod json;
pub mod names;
pub mod num;
pub mod print;
pub mod parse;
pub mod body;
pub mod error;
pub mod shape;
pub mod builder;
pub mod encode;
pub mod dispatch;
pub mod roundtrip;
pub mod laws;

pub use json::Json;
pub use json::JVal;
pub use error::GatewayError;
pub use shape::PrimaryKind;
pub use shape::RequestShape;
pub use builder::Action;
pub use builder::OperationArguments;
pub use dispatch::BackendOp;
pub use dispatch::Config;
pub use dispatch::HttpMethod;

verus! {

} // verus!
