//! Header Translator: the pure mapping from store-reported object metadata to
//! the ordered sequence of HTTP response headers. Each header is emitted
//! exactly when the corresponding metadata field is present (and, for the two
//! date headers, representable as an HTTP date).

use vstd::prelude::*;

use crate::httpdate::{date_representable, decimal_chars, format_http_date, http_date_chars,
    u64_to_decimal};
use crate::metadata::ObjectMetadata;

verus! {

/// The entity tag with one pair of surrounding quote characters removed, when
/// both are present.
pub open spec fn strip_quotes(t: Seq<char>) -> Seq<char> {
    if t.len() >= 2 && t[0] == '"' && t[t.len() - 1] == '"' {
        t.subrange(1, t.len() - 1)
    } else {
        t
    }
}

/// The store's entity tag re-wrapped as a strong HTTP validator: surrounding
/// quotes stripped if present, then one pair of quotes added.
pub open spec fn quoted_etag(t: Seq<char>) -> Seq<char> {
    seq!['"'] + strip_quotes(t) + seq!['"']
}

/// The `ETag` header, when an entity tag is present.
pub open spec fn etag_header(v: Option<String>) -> Seq<(Seq<char>, Seq<char>)> {
    match v {
        Some(t) => seq![("ETag"@, quoted_etag(t@))],
        None => Seq::empty(),
    }
}

/// A date header, when the instant is present and representable; an
/// unrepresentable instant yields no header.
pub open spec fn date_header(name: Seq<char>, v: Option<i64>) -> Seq<(Seq<char>, Seq<char>)> {
    match v {
        Some(t) => if date_representable(t as int) {
            seq![(name, http_date_chars(t as int))]
        } else {
            Seq::empty()
        },
        None => Seq::empty(),
    }
}

/// A verbatim-passthrough header, when its field is present.
pub open spec fn verbatim_header(name: Seq<char>, v: Option<String>) -> Seq<
    (Seq<char>, Seq<char>),
> {
    match v {
        Some(s) => seq![(name, s@)],
        None => Seq::empty(),
    }
}

/// The `Content-Length` header, when a byte count is present.
pub open spec fn length_header(v: Option<u64>) -> Seq<(Seq<char>, Seq<char>)> {
    match v {
        Some(n) => seq![("Content-Length"@, decimal_chars(n as int))],
        None => Seq::empty(),
    }
}

/// The full ordered header sequence produced for `m`.
pub open spec fn header_pairs(m: ObjectMetadata) -> Seq<(Seq<char>, Seq<char>)> {
    etag_header(m.e_tag) + date_header("Expires"@, m.expires_seconds) + date_header(
        "Last-Modified"@,
        m.last_modified_seconds,
    ) + verbatim_header("Accept-Ranges"@, m.accept_ranges) + verbatim_header(
        "Content-Language"@,
        m.content_language,
    ) + verbatim_header("Content-Disposition"@, m.content_disposition) + verbatim_header(
        "Cache-Control"@,
        m.cache_control,
    ) + verbatim_header("Content-Encoding"@, m.content_encoding) + length_header(m.content_length)
        + verbatim_header("Content-Type"@, m.content_type)
}

/// The name/value character sequences of one built header.
pub open spec fn pair_view(p: (String, String)) -> (Seq<char>, Seq<char>) {
    (p.0@, p.1@)
}

/// The name/value character sequences of a built header list.
pub open spec fn pairs_view(hs: Seq<(String, String)>) -> Seq<(Seq<char>, Seq<char>)> {
    hs.map_values(|p: (String, String)| pair_view(p))
}

/// Re-wraps the store's native entity tag as a strong HTTP validator.
pub fn quote_etag(t: &str) -> (r: String)
    ensures
        r@ == quoted_etag(t@),
{
    let n = t.unicode_len();
    let mut r = String::from_str("\"");
    proof {
        reveal_strlit("\"");
        assert(r@ =~= seq!['"']);
    }
    if n >= 2 && t.get_char(0) == '"' && t.get_char(n - 1) == '"' {
        r.append(t.substring_char(1, n - 1));
    } else {
        r.append(t);
    }
    r.append("\"");
    proof {
        assert(r@ =~= quoted_etag(t@));
    }
    r
}

/// Appends one header to the built list.
fn push_pair(hs: &mut Vec<(String, String)>, name: &str, value: String)
    ensures
        pairs_view(final(hs)@) == pairs_view(old(hs)@) + seq![(name@, value@)],
{
    let ghost v = value@;
    hs.push((String::from_str(name), value));
    proof {
        assert(pairs_view(hs@) =~= pairs_view(old(hs)@) + seq![(name@, v)]);
    }
}

/// Emits the `ETag` header when an entity tag is present.
fn push_etag(hs: &mut Vec<(String, String)>, v: &Option<String>)
    ensures
        pairs_view(final(hs)@) == pairs_view(old(hs)@) + etag_header(*v),
{
    match v {
        Some(t) => push_pair(hs, "ETag", quote_etag(t.as_str())),
        None => proof {
            assert(pairs_view(hs@) =~= pairs_view(hs@) + etag_header(*v));
        },
    }
}

/// Emits a date header when the instant is present and representable.
fn push_date(hs: &mut Vec<(String, String)>, name: &str, v: Option<i64>)
    ensures
        pairs_view(final(hs)@) == pairs_view(old(hs)@) + date_header(name@, v),
{
    let formatted = match v {
        Some(t) => format_http_date(t),
        None => None,
    };
    match formatted {
        Some(s) => push_pair(hs, name, s),
        None => proof {
            assert(pairs_view(hs@) =~= pairs_view(hs@) + date_header(name@, v));
        },
    }
}

/// Emits a verbatim-passthrough header when its field is present.
fn push_verbatim(hs: &mut Vec<(String, String)>, name: &str, v: &Option<String>)
    ensures
        pairs_view(final(hs)@) == pairs_view(old(hs)@) + verbatim_header(name@, *v),
{
    match v {
        Some(s) => push_pair(hs, name, s.clone()),
        None => proof {
            assert(pairs_view(hs@) =~= pairs_view(hs@) + verbatim_header(name@, *v));
        },
    }
}

/// Emits the `Content-Length` header when a byte count is present.
fn push_length(hs: &mut Vec<(String, String)>, v: Option<u64>)
    ensures
        pairs_view(final(hs)@) == pairs_view(old(hs)@) + length_header(v),
{
    match v {
        Some(n) => push_pair(hs, "Content-Length", u64_to_decimal(n)),
        None => proof {
            assert(pairs_view(hs@) =~= pairs_view(hs@) + length_header(v));
        },
    }
}

/// Builds the ordered HTTP response header list for `m`, field by field in
/// the fixed order of `header_pairs`.
pub fn translate(m: &ObjectMetadata) -> (hs: Vec<(String, String)>)
    ensures
        pairs_view(hs@) == header_pairs(*m),
{
    let mut hs: Vec<(String, String)> = Vec::new();
    proof {
        assert(pairs_view(hs@) =~= Seq::<(Seq<char>, Seq<char>)>::empty());
    }
    push_etag(&mut hs, &m.e_tag);
    push_date(&mut hs, "Expires", m.expires_seconds);
    push_date(&mut hs, "Last-Modified", m.last_modified_seconds);
    push_verbatim(&mut hs, "Accept-Ranges", &m.accept_ranges);
    push_verbatim(&mut hs, "Content-Language", &m.content_language);
    push_verbatim(&mut hs, "Content-Disposition", &m.content_disposition);
    push_verbatim(&mut hs, "Cache-Control", &m.cache_control);
    push_verbatim(&mut hs, "Content-Encoding", &m.content_encoding);
    push_length(&mut hs, m.content_length);
    push_verbatim(&mut hs, "Content-Type", &m.content_type);
    proof {
        assert(pairs_view(hs@) =~= header_pairs(*m));
    }
    hs
}

} // verus!
