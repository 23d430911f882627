//! A small OCI container runtime core: container state, namespace and mount
//! planning, and the parent/child handshake that creates a container.
use vstd::prelude::*;

pub mod text;
pub mod paths;
pub mod flags;
pub mod mount;
pub mod namespaces;
pub mod state;
pub mod container;
pub mod config;
pub mod uts;
pub mod protocol;
pub mod builder;

verus! {

/// The directory under which the runtime keeps its data.
pub const BASE_PATH: &'static str = "/tmp/tiny-youki";

/// The directory, below `BASE_PATH`, that holds one directory per container.
pub const CONTAINER_PATH: &'static str = "containers";

/// The program that writes the user-id mappings of a process.
pub const NEWUIDMAP: &'static str = "newuidmap";

/// The program that writes the group-id mappings of a process.
pub const NEWGIDMAP: &'static str = "newgidmap";

} // verus!
