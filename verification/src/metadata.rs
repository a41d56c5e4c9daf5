//! The subset of store-reported object attributes that is relevant to the
//! HTTP response. Every field is optional; an absent field means the
//! corresponding response header is omitted. The two instants are carried as
//! whole seconds since the Unix epoch (fractional seconds truncated).

use vstd::prelude::*;

verus! {

/// Store-reported metadata of one object.
#[derive(Debug, Clone)]
pub struct ObjectMetadata {
    pub e_tag: Option<String>,
    pub expires_seconds: Option<i64>,
    pub last_modified_seconds: Option<i64>,
    pub accept_ranges: Option<String>,
    pub content_language: Option<String>,
    pub content_disposition: Option<String>,
    pub cache_control: Option<String>,
    pub content_encoding: Option<String>,
    pub content_length: Option<u64>,
    pub content_type: Option<String>,
}

impl ObjectMetadata {
    /// Metadata with every field absent: translates to no headers at all.
    pub fn empty() -> (m: ObjectMetadata)
        ensures
            m.e_tag is None,
            m.expires_seconds is None,
            m.last_modified_seconds is None,
            m.accept_ranges is None,
            m.content_language is None,
            m.content_disposition is None,
            m.cache_control is None,
            m.content_encoding is None,
            m.content_length is None,
            m.content_type is None,
    {
        ObjectMetadata {
            e_tag: None,
            expires_seconds: None,
            last_modified_seconds: None,
            accept_ranges: None,
            content_language: None,
            content_disposition: None,
            cache_control: None,
            content_encoding: None,
            content_length: None,
            content_type: None,
        }
    }
}

} // verus!
