//! The wire-facing data model: inbound stream frames and the outbound reply.
//!
//! An inbound message is a tagged variant; header-bearing variants carry an
//! ordered list of key/value pairs in which duplicate keys are allowed. The
//! outbound reply is always "continue unmodified": the inspector never
//! mutates or blocks proxied traffic.

use vstd::prelude::*;

verus! {

/// One header line of a header-bearing frame: an ordered (key, value) pair.
#[derive(Debug, Clone)]
pub struct HeaderEntry {
    pub key: String,
    pub value: String,
}

impl HeaderEntry {
    pub fn new(key: String, value: String) -> (h: HeaderEntry)
        ensures
            h.key@ == key@,
            h.value@ == value@,
    {
        HeaderEntry { key, value }
    }
}

/// An inbound stream frame. Header variants carry their header list;
/// variants the inspector has no extraction logic for are folded into
/// `Unrecognized`, which is tolerated and merely answered with a reply.
#[derive(Debug, Clone)]
pub enum Frame {
    RequestHeaders(Vec<HeaderEntry>),
    ResponseHeaders(Vec<HeaderEntry>),
    RequestBody,
    ResponseBody,
    Unrecognized,
}

/// The outbound message for one inbound frame. Its only form is the
/// default/empty payload, meaning "continue unmodified".
#[derive(Debug, Clone, Copy, PartialEq, Eq, Structural)]
pub enum Reply {
    Continue,
}

} // verus!
