//! Errors, byte order, numerals and the in-memory reader shared by modules and tags.
pub mod endian;
pub mod errors;
pub mod extensions;
pub mod text;
