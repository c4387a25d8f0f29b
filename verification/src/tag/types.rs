//! The kinds of fields that tag structures are made of.
pub mod common_types;
