//! A container: its state and the directory where the runtime keeps it.
use vstd::prelude::*;
use crate::paths::{joined, path_join};
use crate::state::{initial_state, ContainerState, State, StateView};
use crate::{BASE_PATH, CONTAINER_PATH};

verus! {

/// The directory where the runtime keeps the container `id`.
pub open spec fn container_root(id: Seq<char>) -> Seq<char> {
    joined(joined(BASE_PATH@, CONTAINER_PATH@), id)
}

/// The directory where the runtime keeps the container `container_id`.
pub fn container_root_dir(container_id: &str) -> (r: String)
    ensures
        r@ == container_root(container_id@),
{
    let containers = path_join(BASE_PATH, CONTAINER_PATH);
    path_join(containers.as_str(), container_id)
}

/// A container known to the runtime.
pub struct Container {
    pub state: State,
    pub root: String,
}

pub struct ContainerView {
    pub state: StateView,
    pub root: Seq<char>,
}

impl View for Container {
    type V = ContainerView;

    open spec fn view(&self) -> ContainerView {
        ContainerView { state: self.state@, root: self.root@ }
    }
}

impl Container {
    /// A new container `container_id` created from the bundle at `bundle_path`, an
    /// absolute path with symbolic links resolved. It is kept in its own directory
    /// under the runtime's container directory.
    pub fn new(container_id: &str, bundle_path: &str) -> (r: Container)
        ensures
            r@.state == initial_state(container_id@, bundle_path@),
            r@.root == container_root(container_id@),
    {
        Container { state: State::new(container_id, bundle_path), root: container_root_dir(container_id) }
    }

    /// The file that holds the container's state.
    pub fn state_file(&self) -> (r: String)
        ensures
            r@ == joined(self@.root, "state.json"@),
    {
        path_join(self.root.as_str(), "state.json")
    }

    /// Records the container's new status.
    pub fn update_status(&mut self, status: ContainerState)
        ensures
            final(self)@ == (ContainerView { state: old(self)@.state.with_status(status), ..old(self)@ }),
    {
        self.state.status = status;
    }

    /// Records the id of the container's process.
    pub fn set_pid(&mut self, pid: i32)
        ensures
            final(self)@ == (ContainerView { state: old(self)@.state.with_pid(pid), ..old(self)@ }),
    {
        self.state.pid = Some(pid);
    }
}

} // verus!
