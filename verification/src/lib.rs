//! Static document/feed generator core: a manifest-driven rendering model.
//!
//! A manifest describes a site's feed metadata and an ordered list of
//! rendering sections made of typed content blocks.  The library turns a
//! document export request into an HTML page and, independently, the same
//! document set into a syndication feed with field-level validation.

pub mod cli;
pub mod config;
pub mod decimal;
pub mod errors;
pub mod feed;
pub mod manifest;
pub mod markdown;
pub mod paths;
pub mod render;
pub mod search;
