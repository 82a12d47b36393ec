//! On-disk APFS structures.

pub mod btree;
pub mod bytes;
pub mod container;
pub mod filesystem;
pub mod keybag;
pub mod object;
pub mod object_map;
pub mod volume;
