//! Filtering of a provider's published IP-range dataset by region.
//!
//! The upstream document is an ordered list of prefix records, each carrying
//! a CIDR prefix and a region identifier. A request may supply a region
//! pattern: a glob in which `*` matches any run of characters, optionally
//! prefixed with `!` to invert the match. This crate holds the verified core:
//! the pattern matcher, the per-entry inclusion rule, the filter itself, and
//! the plain-text response body it produces. Fetching the dataset over HTTP
//! and decoding its JSON body are left to the surrounding application.

pub mod glob;
pub mod prefixes;
