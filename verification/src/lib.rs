//! Verified readers for the gzip member framing and for the OpenType font
//! format: every parser is a function on bytes whose result is pinned down
//! by a specification over `Seq<u8>`.
pub mod bytes;
pub mod gzip;
pub mod opentype;
