//! Locate and load a single configuration file from an ordered list of
//! candidate paths.
//!
//! A configuration file must not be executable by its owner, nor readable,
//! writable or executable by its group or by others: the only acceptable
//! access modes are `600` and `400` (and their owner-only subsets). A file
//! that grants more access is rejected as insecure before its content is
//! ever used.
//!
//! The content is a JSON dialect that tolerates comments. It is parsed and
//! then checked against a caller-supplied shape: every field of the shape
//! must be present with a value of the declared type, and no field outside
//! the shape may appear.

pub mod json;
pub mod parse;
pub mod perm;
pub mod reader;
pub mod result;
pub mod text;
