//! The archive: its header, its tables and the payloads of its files.
pub mod block;
pub mod file;
pub mod header;
pub mod kraken;
pub mod loader;
