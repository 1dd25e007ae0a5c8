//! Client-side building blocks for a social-network streaming API: endpoint
//! path construction, OAuth helper values, and a two-stage pipeline that turns
//! raw byte chunks into newline-delimited text lines and those lines into
//! typed feed events.

pub mod api;
pub mod encoding;
pub mod error;
pub mod text;
pub mod timeline;
