//! Turning a raw request body into a `Json` tree.
//!
//! An outside JSON reader brings the body into a canonical compact rendering
//! (no whitespace, escapes normalized, object keys ordered as that reader
//! orders them); the verified reader in `parse` then builds the tree from
//! that rendering.

use vstd::prelude::*;

use crate::json::Json;
use crate::json::JVal;
use crate::json::jval_of;
use crate::parse::sp_parse;
use crate::parse::parse_text;

verus! {

/// The canonical compact rendering of a JSON text, or `None` where the bytes
/// are not valid JSON. This names the composition of serde_json's parse and
/// its compact printer, which depends on the bytes alone.
pub uninterp spec fn canon_json(b: Seq<u8>) -> Option<Seq<u8>>;

/// Relies on `serde_json::from_slice` to accept exactly the valid JSON texts
/// and on `serde_json::Value`'s `to_string` (its `Display`) to render the
/// parsed value compactly. Both depend only on the bytes given, so their
/// composition is named by `canon_json`.
#[verifier::external_body]
fn to_canonical(b: &Vec<u8>) -> (r: Option<Vec<u8>>)
    ensures
        match r {
            Some(c) => canon_json(b@) == Some(c@),
            None => canon_json(b@) is None,
        },
{
    match serde_json::from_slice::<serde_json::Value>(b.as_slice()) {
        Ok(v) => Some(v.to_string().into_bytes()),
        Err(_) => None,
    }
}

/// What a request body decodes to: the canonical rendering of the bytes,
/// read as a JSON tree.
pub open spec fn parsed_body(b: Seq<u8>) -> Option<JVal> {
    match canon_json(b) {
        None => None,
        Some(c) => sp_parse(c),
    }
}

/// Parses a request body into a `Json` tree.
pub fn parse_json(b: &Vec<u8>) -> (r: Option<Json>)
    ensures
        match r {
            Some(v) => parsed_body(b@) == Some(jval_of(v)),
            None => parsed_body(b@) is None,
        },
{
    match to_canonical(b) {
        Some(c) => parse_text(&c),
        None => None,
    }
}

} // verus!
