//! Parsing of Magnet URI links into validated, typed records.
//!
//! A link such as `magnet:?xt=urn:btih:<hash>&dn=<name>&tr=<address>` is read
//! into a `Magnet`: its exact topics, its trackers, its display name, its
//! exact length and its keyword topics. The fields are found by pattern; what
//! is done with what the patterns find is verified.
//!
//! - `magnet`: the link as a whole.
//! - `exact_topic`, `hash_tech`: the field `xt`.
//! - `tracker`, `protocol`: the field `tr`.
//! - `capture`: what a pattern found, as plain values.
//! - `pattern`: the calls into the crates that match patterns and decode
//!   percent-escapes.
//! - `text`: helpers on characters.
//! - `error`: the ways in which reading can fail.

pub mod capture;
pub mod error;
pub mod exact_topic;
pub mod hash_tech;
pub mod magnet;
pub mod pattern;
pub mod protocol;
pub mod text;
pub mod tracker;
