//! Percent-encoding, percent-decoding, and structural analysis of URL-like
//! strings.
//!
//! The encoder maps every character to itself (unreserved characters), to `+`
//! (space), or to a `%XX` triplet holding the low byte of its code point in
//! uppercase hexadecimal. The decoder inverts that mapping and reports
//! malformed triplets. The analyzer counts structural markers and renders a
//! fixed-format report; the component extractor splits a
//! `scheme://domain/path?query` shape into labeled parts.

pub mod analysis;
pub mod classify;
pub mod codec;
pub mod components;
pub mod text;

pub use analysis::URLAnalysis;
pub use codec::DecodeError;
pub use codec::URLEncoder;
