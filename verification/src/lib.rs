//! A parser for HTTP Live Streaming playlists.
//!
//! A manifest is read line by line into tags, the tags decide whether it is a
//! media playlist or a multivariant playlist, and the playlist is assembled
//! from them.  [`parser::parse`] is the entry point.

pub mod attr;
pub mod classify;
pub mod error;
pub mod line;
pub mod media;
pub mod model;
pub mod multivariant;
pub mod number;
pub mod parser;
pub mod records;
pub mod tag;
pub mod text;
pub mod vars;
