//! Reading support for APFS containers.
//!
//! The crate decides what an APFS reader reads and what it makes of the bytes:
//! keybag and volume-superblock parsing, software FileVault decryption, and the
//! checkpoint, object-map, B-tree, path and file walks of a container. It does
//! no I/O itself. Every walk is a small machine that names the block it wants
//! next and is handed what was read.

pub mod crypto;
pub mod error;
pub mod reader;
pub mod search;
pub mod text;
pub mod types;
