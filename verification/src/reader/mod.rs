//! Walking an APFS container.
//!
//! A walk never reads by itself. It is started by a method of
//! [`Container`](container::Container) and hands out steps: the block that it
//! wants next, or its result. Whoever drives it reads the block, decodes it and
//! hands the outcome back to the walk. What a walk gives over a whole disk is
//! stated by the laws beside it, for disks that do not change while they are
//! read.

pub mod block;
pub mod block_list;
pub mod btree;
pub mod btree_laws;
pub mod checkpoint;
pub mod container;
pub mod ephemeral;
pub mod file;
pub mod file_laws;
pub mod object_map;
pub mod path;
pub mod path_laws;
pub mod snapshot;
pub mod sorting;
