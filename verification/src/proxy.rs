//! Proxy Handler and Error Mapper: the per-request decision logic. A backend
//! read outcome is mapped to exactly one HTTP reply — status, headers, body
//! kind and log note — with no 5xx escalation: a transport fault is answered
//! like a missing object (detail suppression is deliberate), and only the
//! fault is logged at error severity.

use vstd::prelude::*;

use crate::config::AppConfig;
use crate::headers::{header_pairs, pairs_view, quoted_etag, translate};
use crate::metadata::ObjectMetadata;
use crate::resolver::{resolve, resolved_key};

verus! {

/// The one backend call made per request: the resolved key and the client's
/// validator, forwarded unmodified.
pub struct ConditionalRequest {
    pub key: String,
    pub if_none_match: Option<String>,
}

/// The flat taxonomy of what a conditional read can come back with.
pub enum ObjectReadResult {
    /// The object exists and (if a validator was supplied) differs from it.
    Found { metadata: ObjectMetadata },
    /// The object exists and its current validator equals the supplied one.
    NotModified,
    /// No object at that key.
    NotFound,
    /// Any failure not classifiable as the above: network error, malformed
    /// response, backend-internal error, unexpected status code.
    TransportFailure { detail: String },
}

/// What the response body is: the object's byte stream (attached outside this
/// core), an empty body, or a fixed diagnostic message.
pub enum ReplyBody {
    ObjectStream,
    Empty,
    Message(String),
}

/// How one request's outcome is logged.
pub enum LogSeverity {
    Info,
    Error,
}

/// The reply handed to the serving framework: a definite status, the ordered
/// header list, the body kind, and the log note the outcome calls for.
pub struct HttpReply {
    pub status: u16,
    pub headers: Vec<(String, String)>,
    pub body: ReplyBody,
    pub log: Option<LogSeverity>,
}

/// The status code each read outcome maps to; never a 5xx.
pub open spec fn reply_status(r: ObjectReadResult) -> int {
    match r {
        ObjectReadResult::Found { .. } => 200,
        ObjectReadResult::NotModified => 304,
        ObjectReadResult::NotFound => 404,
        ObjectReadResult::TransportFailure { .. } => 404,
    }
}

/// The headers each read outcome maps to: the translated metadata on success,
/// nothing otherwise.
pub open spec fn reply_headers(r: ObjectReadResult) -> Seq<(Seq<char>, Seq<char>)> {
    match r {
        ObjectReadResult::Found { metadata } => header_pairs(metadata),
        _ => Seq::empty(),
    }
}

/// The body each read outcome calls for.
pub open spec fn reply_body_ok(b: ReplyBody, r: ObjectReadResult) -> bool {
    match r {
        ObjectReadResult::Found { .. } => b is ObjectStream,
        ObjectReadResult::NotModified => b is Empty,
        ObjectReadResult::NotFound => b matches ReplyBody::Message(s) && s@ == "Not found"@,
        ObjectReadResult::TransportFailure { .. } => b matches ReplyBody::Message(s) && s@
            == "Not found"@,
    }
}

/// The log note each read outcome calls for: expected outcomes are never
/// logged as errors; only a transport fault is.
pub open spec fn reply_log(r: ObjectReadResult) -> Option<LogSeverity> {
    match r {
        ObjectReadResult::Found { .. } => None,
        ObjectReadResult::NotModified => None,
        ObjectReadResult::NotFound => Some(LogSeverity::Info),
        ObjectReadResult::TransportFailure { .. } => Some(LogSeverity::Error),
    }
}

/// The prefix the configuration supplies, as a sequence of characters.
pub open spec fn config_prefix(c: AppConfig) -> Option<Seq<char>> {
    match c.key_prefix {
        Some(p) => Some(p@),
        None => None,
    }
}

/// Builds the one backend call a request leads to: the key derived from the
/// path and the configured prefix, and the client's validator unchanged.
pub fn plan_request(path: &str, config: &AppConfig, if_none_match: Option<String>) -> (cr:
    ConditionalRequest)
    ensures
        cr.key@ == resolved_key(path@, config_prefix(*config)),
        cr.if_none_match == if_none_match,
{
    let key = match &config.key_prefix {
        Some(p) => resolve(path, Some(p.as_str())),
        None => resolve(path, None),
    };
    ConditionalRequest { key, if_none_match }
}

/// Folds a backend-reported error status into the flat read-result taxonomy:
/// 304 means the validator matched, 404 means no object, and anything else is
/// a transport failure carrying the backend's detail.
pub fn classify_error_status(status: u16, detail: String) -> (r: ObjectReadResult)
    ensures
        status == 304 ==> r is NotModified,
        status == 404 ==> r is NotFound,
        (status != 304 && status != 404) ==> (r matches ObjectReadResult::TransportFailure {
            detail: d,
        } && d == detail),
{
    if status == 304 {
        ObjectReadResult::NotModified
    } else if status == 404 {
        ObjectReadResult::NotFound
    } else {
        ObjectReadResult::TransportFailure { detail }
    }
}

/// Maps one read outcome to the reply the serving framework gets: `200` with
/// the translated headers and the object stream, `304` with an empty body,
/// or `404` with a diagnostic body — logged at info severity for a missing
/// object and at error severity for a transport fault.
pub fn handle_read_result(r: ObjectReadResult) -> (reply: HttpReply)
    ensures
        reply.status as int == reply_status(r),
        pairs_view(reply.headers@) == reply_headers(r),
        reply_body_ok(reply.body, r),
        reply.log == reply_log(r),
{
    match r {
        ObjectReadResult::Found { metadata } => {
            let headers = translate(&metadata);
            HttpReply { status: 200, headers, body: ReplyBody::ObjectStream, log: None }
        },
        ObjectReadResult::NotModified => {
            proof {
                assert(pairs_view(Seq::<(String, String)>::empty()) =~= Seq::<
                    (Seq<char>, Seq<char>),
                >::empty());
            }
            HttpReply { status: 304, headers: Vec::new(), body: ReplyBody::Empty, log: None }
        },
        ObjectReadResult::NotFound => {
            proof {
                assert(pairs_view(Seq::<(String, String)>::empty()) =~= Seq::<
                    (Seq<char>, Seq<char>),
                >::empty());
            }
            HttpReply {
                status: 404,
                headers: Vec::new(),
                body: ReplyBody::Message(String::from_str("Not found")),
                log: Some(LogSeverity::Info),
            }
        },
        ObjectReadResult::TransportFailure { .. } => {
            proof {
                assert(pairs_view(Seq::<(String, String)>::empty()) =~= Seq::<
                    (Seq<char>, Seq<char>),
                >::empty());
            }
            HttpReply {
                status: 404,
                headers: Vec::new(),
                body: ReplyBody::Message(String::from_str("Not found")),
                log: Some(LogSeverity::Error),
            }
        },
    }
}

/// Law: one request is decided by its inputs alone — repeating the same
/// request against the same backend state derives the same key and yields the
/// same status, headers, body kind and log note.
pub proof fn lemma_idempotent(
    p1: Seq<char>,
    p2: Seq<char>,
    x1: Option<Seq<char>>,
    x2: Option<Seq<char>>,
    r1: ObjectReadResult,
    r2: ObjectReadResult,
)
    requires
        p1 == p2,
        x1 == x2,
        r1 == r2,
    ensures
        resolved_key(p1, x1) == resolved_key(p2, x2),
        reply_status(r1) == reply_status(r2),
        reply_headers(r1) == reply_headers(r2),
        reply_log(r1) == reply_log(r2),
        forall|b: ReplyBody| reply_body_ok(b, r1) == reply_body_ok(b, r2),
{
}

/// Model of the storage collaborator's conditional read of an object that
/// exists with metadata `m` and native validator `tag`: the read
/// short-circuits to `NotModified` exactly when the supplied validator equals
/// the object's current one (store-evaluated).
pub open spec fn store_conditional_read(
    m: ObjectMetadata,
    tag: Seq<char>,
    if_none_match: Option<Seq<char>>,
) -> ObjectReadResult {
    if if_none_match == Some(tag) {
        ObjectReadResult::NotModified
    } else {
        ObjectReadResult::Found { metadata: m }
    }
}

/// Law: round trip — an object whose native entity tag carries its
/// surrounding quotes (as the store's do) is served with an `ETag` value
/// equal to that tag, and a second request that echoes the served value
/// yields `304` with an empty body.
pub proof fn lemma_conditional_round_trip(m: ObjectMetadata, t: String, echoed: Seq<char>)
    requires
        m.e_tag == Some(t),
        t@.len() >= 2,
        t@[0] == '"',
        t@[t@.len() - 1] == '"',
        echoed == quoted_etag(t@),
    ensures
        reply_headers(ObjectReadResult::Found { metadata: m })[0] == ("ETag"@, echoed),
        echoed == t@,
        reply_status(store_conditional_read(m, t@, Some(echoed))) == 304,
        forall|b: ReplyBody|
            reply_body_ok(b, store_conditional_read(m, t@, Some(echoed))) ==> b is Empty,
{
    assert(quoted_etag(t@) =~= t@);
}

/// Law: boundary — a missing object and a backend transport fault are both
/// answered `404`, but only the fault is logged at error severity.
pub proof fn lemma_boundary(detail: String)
    ensures
        reply_status(ObjectReadResult::NotFound) == 404,
        reply_status(ObjectReadResult::TransportFailure { detail }) == 404,
        reply_log(ObjectReadResult::NotFound) == Some(LogSeverity::Info),
        reply_log(ObjectReadResult::TransportFailure { detail }) == Some(LogSeverity::Error),
{
}

} // verus!
