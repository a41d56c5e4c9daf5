use revs3::config::AppConfig;
use revs3::headers::{quote_etag, translate};
use revs3::httpdate::{format_http_date, u64_to_decimal};
use revs3::metadata::ObjectMetadata;
use revs3::proxy::{
    classify_error_status, handle_read_result, plan_request, HttpReply, LogSeverity,
    ObjectReadResult, ReplyBody,
};
use revs3::resolver::resolve;

fn meta_with(
    e_tag: Option<&str>,
    content_length: Option<u64>,
    content_type: Option<&str>,
) -> ObjectMetadata {
    let mut m = ObjectMetadata::empty();
    m.e_tag = e_tag.map(|s| s.to_string());
    m.content_length = content_length;
    m.content_type = content_type.map(|s| s.to_string());
    m
}

#[test]
fn resolve_root_is_index() {
    assert_eq!(resolve("/", None), "/index.html");
}

#[test]
fn resolve_trailing_slash_appends_index() {
    assert_eq!(resolve("/sub/", None), "/sub/index.html");
}

#[test]
fn resolve_prepends_missing_separator() {
    assert_eq!(resolve("index.html", None), "/index.html");
    assert_eq!(resolve("", None), "/index.html");
}

#[test]
fn resolve_with_prefix_concatenates() {
    assert_eq!(resolve("/a.js", Some("static")), "static/a.js");
    assert_eq!(resolve("a.js", Some("static")), "static/a.js");
    assert_eq!(resolve("/sub/", Some("static")), "static/sub/index.html");
}

#[test]
fn config_trims_prefix_separators() {
    let c = AppConfig::new("bucket".to_string(), Some("/static/".to_string()));
    assert_eq!(c.key_prefix.as_deref(), Some("static"));
    let c = AppConfig::new("bucket".to_string(), Some("///".to_string()));
    assert_eq!(c.key_prefix.as_deref(), Some(""));
    let c = AppConfig::new("bucket".to_string(), Some("a/b".to_string()));
    assert_eq!(c.key_prefix.as_deref(), Some("a/b"));
    let c = AppConfig::new("bucket".to_string(), None);
    assert!(c.key_prefix.is_none());
    assert_eq!(c.s3_bucket, "bucket");
}

#[test]
fn http_date_epoch() {
    assert_eq!(
        format_http_date(0).as_deref(),
        Some("Thu, 01 Jan 1970 00:00:00 GMT")
    );
}

#[test]
fn http_date_classic_example() {
    assert_eq!(
        format_http_date(784111777).as_deref(),
        Some("Sun, 06 Nov 1994 08:49:37 GMT")
    );
}

#[test]
fn http_date_leap_day() {
    assert_eq!(
        format_http_date(951782400).as_deref(),
        Some("Tue, 29 Feb 2000 00:00:00 GMT")
    );
}

#[test]
fn http_date_bounds() {
    assert!(format_http_date(-1).is_none());
    assert_eq!(
        format_http_date(253402300799).as_deref(),
        Some("Fri, 31 Dec 9999 23:59:59 GMT")
    );
    assert!(format_http_date(253402300800).is_none());
}

#[test]
fn decimal_rendering() {
    assert_eq!(u64_to_decimal(0), "0");
    assert_eq!(u64_to_decimal(626), "626");
    assert_eq!(u64_to_decimal(1000000), "1000000");
}

#[test]
fn etag_requoting() {
    assert_eq!(quote_etag("abc"), "\"abc\"");
    assert_eq!(quote_etag("\"abc\""), "\"abc\"");
    assert_eq!(quote_etag(""), "\"\"");
    assert_eq!(quote_etag("\""), "\"\"\"");
}

#[test]
fn translate_emits_present_fields_in_order() {
    let m = meta_with(
        Some("\"8e1857981b635f0b04cf311a1f86cab9\""),
        Some(626),
        Some("text/html"),
    );
    let hs = translate(&m);
    assert_eq!(
        hs,
        vec![
            (
                "ETag".to_string(),
                "\"8e1857981b635f0b04cf311a1f86cab9\"".to_string()
            ),
            ("Content-Length".to_string(), "626".to_string()),
            ("Content-Type".to_string(), "text/html".to_string()),
        ]
    );
}

#[test]
fn translate_empty_metadata_emits_nothing() {
    let hs = translate(&ObjectMetadata::empty());
    assert!(hs.is_empty());
}

#[test]
fn translate_formats_dates_and_omits_unrepresentable() {
    let mut m = ObjectMetadata::empty();
    m.expires_seconds = Some(784111777);
    m.last_modified_seconds = Some(-5);
    let hs = translate(&m);
    assert_eq!(
        hs,
        vec![(
            "Expires".to_string(),
            "Sun, 06 Nov 1994 08:49:37 GMT".to_string()
        )]
    );
}

#[test]
fn test_handle_request_ok() {
    let m = meta_with(
        Some("\"8e1857981b635f0b04cf311a1f86cab9\""),
        Some(626),
        Some("text/html"),
    );
    let reply: HttpReply = handle_read_result(ObjectReadResult::Found { metadata: m });
    assert_eq!(reply.status, 200);
    assert!(matches!(reply.body, ReplyBody::ObjectStream));
    assert!(reply.log.is_none());
    let etag = reply.headers.iter().find(|(n, _)| n == "ETag").unwrap();
    assert_eq!(etag.1, "\"8e1857981b635f0b04cf311a1f86cab9\"");
    let len = reply
        .headers
        .iter()
        .find(|(n, _)| n == "Content-Length")
        .unwrap();
    assert_eq!(len.1, "626");
    let ct = reply
        .headers
        .iter()
        .find(|(n, _)| n == "Content-Type")
        .unwrap();
    assert_eq!(ct.1, "text/html");
}

#[test]
fn test_not_modified() {
    let reply = handle_read_result(ObjectReadResult::NotModified);
    assert_eq!(reply.status, 304);
    assert!(matches!(reply.body, ReplyBody::Empty));
    assert!(reply.headers.is_empty());
    assert!(reply.log.is_none());
}

#[test]
fn test_not_found() {
    let reply = handle_read_result(ObjectReadResult::NotFound);
    assert_eq!(reply.status, 404);
    assert!(matches!(reply.body, ReplyBody::Message(s) if s == "Not found"));
    assert!(matches!(reply.log, Some(LogSeverity::Info)));
}

#[test]
fn transport_failure_is_masked_but_logged_as_error() {
    let reply = handle_read_result(ObjectReadResult::TransportFailure {
        detail: "connection reset".to_string(),
    });
    assert_eq!(reply.status, 404);
    assert!(matches!(reply.body, ReplyBody::Message(s) if s == "Not found"));
    assert!(matches!(reply.log, Some(LogSeverity::Error)));
}

#[test]
fn classify_backend_error_statuses() {
    assert!(matches!(
        classify_error_status(304, String::new()),
        ObjectReadResult::NotModified
    ));
    assert!(matches!(
        classify_error_status(404, String::new()),
        ObjectReadResult::NotFound
    ));
    assert!(matches!(
        classify_error_status(500, "backend exploded".to_string()),
        ObjectReadResult::TransportFailure { detail } if detail == "backend exploded"
    ));
    assert!(matches!(
        classify_error_status(200, String::new()),
        ObjectReadResult::TransportFailure { .. }
    ));
}

#[test]
fn plan_request_builds_key_and_forwards_validator() {
    let c = AppConfig::new("bucket".to_string(), Some("static".to_string()));
    let cr = plan_request("/a.js", &c, Some("\"abc\"".to_string()));
    assert_eq!(cr.key, "static/a.js");
    assert_eq!(cr.if_none_match.as_deref(), Some("\"abc\""));

    let c = AppConfig::new("bucket".to_string(), None);
    let cr = plan_request("/missing.html", &c, None);
    assert_eq!(cr.key, "/missing.html");
    assert!(cr.if_none_match.is_none());
}

#[test]
fn empty_or_trailing_path_returns_index() {
    let c = AppConfig::new("bucket".to_string(), None);
    assert_eq!(plan_request("", &c, None).key, "/index.html");
    assert_eq!(plan_request("/sub/", &c, None).key, "/sub/index.html");
}

#[test]
fn repeated_request_yields_same_reply() {
    let m = meta_with(Some("\"abc\""), Some(10), Some("text/plain"));
    let r1 = handle_read_result(ObjectReadResult::Found {
        metadata: m.clone(),
    });
    let r2 = handle_read_result(ObjectReadResult::Found { metadata: m });
    assert_eq!(r1.status, r2.status);
    assert_eq!(r1.headers, r2.headers);
}

#[test]
fn conditional_round_trip_yields_not_modified() {
    let m = meta_with(Some("\"abc\""), None, None);
    let served = handle_read_result(ObjectReadResult::Found { metadata: m });
    let etag_value = served
        .headers
        .iter()
        .find(|(n, _)| n == "ETag")
        .unwrap()
        .1
        .clone();
    assert_eq!(etag_value, "\"abc\"");
    // The store compares the echoed validator with the object's current one
    // and short-circuits on equality; the proxy then answers 304, empty.
    let current_tag = "\"abc\"";
    let second = if etag_value == current_tag {
        handle_read_result(ObjectReadResult::NotModified)
    } else {
        panic!("validator should have matched");
    };
    assert_eq!(second.status, 304);
    assert!(matches!(second.body, ReplyBody::Empty));
}
