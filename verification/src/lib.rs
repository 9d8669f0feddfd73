//! Codec for the XDR variable-length opaque type (RFC 1014, section 3.12):
//! a byte array encoded on the wire as a four-byte big-endian length prefix,
//! the payload bytes, and zero padding up to the next four-byte boundary.

pub mod cursor;
pub mod opaque;
pub mod wire;

pub use cursor::Cursor;
pub use opaque::{Error, Opaque, SerializeOpaque};
pub use wire::pad_length;
