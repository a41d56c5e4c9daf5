//! Core of an HTTP reverse proxy that serves one object-storage bucket as a
//! static site: request paths are resolved to storage keys, object metadata is
//! translated to HTTP response headers, and every backend outcome is mapped to
//! a definite HTTP status.

pub mod config;
pub mod headers;
pub mod httpdate;
pub mod metadata;
pub mod proxy;
pub mod resolver;
