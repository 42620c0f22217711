//! Normalization of music-catalog resource identifiers.
//!
//! A resource (track, album, artist) can be written in two textual forms: a
//! compact scheme-qualified form such as `spotify:track:<id>`, and an
//! equivalent web-addressable form such as
//! `http://open.spotify.com/track/<id>`. This crate parses either form into
//! a validated [`uri::Uri`] value, converts deterministically between the two
//! forms, and exposes the path segments (resource type and opaque id) for
//! downstream use.

pub mod decompose;
pub mod strutil;
pub mod uri;
