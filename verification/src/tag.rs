//! The tag that a payload holds: header, datablocks, structs and fields.
pub mod data_reference;
pub mod datablock;
pub mod dependency;
pub mod header;
pub mod layout;
pub mod loader;
pub mod structure;
pub mod types;
