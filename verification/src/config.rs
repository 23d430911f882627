//! The parts of an OCI runtime configuration (`config.json`) that creating a
//! container reads.
use vstd::prelude::*;
use crate::mount::MountEntry;
use crate::namespaces::Namespace;

verus! {

/// One range of user or group ids mapped into a user namespace.
#[derive(PartialEq, Eq, Structural, Clone, Copy, Debug)]
pub struct IdMapping {
    /// The first id inside the container.
    pub container_id: u32,
    /// The first id on the host.
    pub host_id: u32,
    /// How many ids the range holds.
    pub size: u32,
}

/// The `linux` section of a configuration.
pub struct LinuxConfig {
    pub namespaces: Option<Vec<Namespace>>,
    pub uid_mappings: Option<Vec<IdMapping>>,
    pub gid_mappings: Option<Vec<IdMapping>>,
}

/// The `process` section of a configuration: what runs in the container.
pub struct ProcessConfig {
    /// The program and its arguments.
    pub args: Option<Vec<String>>,
    /// `KEY=VALUE` entries of the environment.
    pub env: Option<Vec<String>>,
    /// The working directory.
    pub cwd: String,
    /// The user and group the process runs as.
    pub uid: u32,
    pub gid: u32,
}

/// A container's runtime configuration.
pub struct RuntimeConfig {
    pub hostname: Option<String>,
    pub domainname: Option<String>,
    /// The path of the root file system, relative to the bundle or absolute.
    pub root: Option<String>,
    pub mounts: Option<Vec<MountEntry>>,
    pub process: Option<ProcessConfig>,
    pub linux: Option<LinuxConfig>,
}

} // verus!
