//! Atomic creation of files inside a managed directory tree.
//!
//! A file is written under a temporary name next to its destination and is
//! renamed over the destination when the writer commits it. This library
//! derives the names, keeps the state of each write and says which file
//! system operation comes next; the caller performs the operations and hands
//! their outcome back.
use vstd::prelude::*;

pub mod directory;
pub mod disk;
pub mod file;
pub mod laws;
pub mod opam;
pub mod options;
pub mod paths;
pub mod run_id;

pub use crate::directory::{CreateRequest, OverlayDirectory};
pub use crate::file::{Cleanup, Commit, OpenRequest, OverlayFile};
pub use crate::opam::{Opam, OpamError};
pub use crate::options::OpenOptions;
