//! Read-only decoding of Halo Infinite module archives and the tags they hold.
//!
//! A module is read from bytes held in memory. [`ModuleFile::read`] decodes
//! the header and the tables, and [`ModuleFile::resolve_names`] gives every
//! file its name. [`ModuleFile::read_tag`] and [`ModuleFile::advance_tag`]
//! put the payload of a file together block by block; where a block is
//! compressed, the step hands its stored bytes out and takes the output of
//! the decompressor back. The tag at the start of a payload is a
//! [`TagFile`]. Its data is read into tag structures, which are either
//! types that implement
//! [`TagStructure`](crate::module::file::TagStructure) or records described
//! by a [`Layout`](crate::tag::layout::Layout).
//!
//! Every function carries a contract over the bytes it reads, and none of
//! them panics.
pub mod common;
pub mod module;
pub mod tag;

pub use crate::common::errors::{Error, Result};
pub use crate::module::loader::ModuleFile;
pub use crate::tag::loader::TagFile;
