//! The state of a container as the OCI runtime specification describes it.
use vstd::prelude::*;
use std::collections::HashMap;

verus! {

/// The lifecycle status of a container.
#[derive(PartialEq, Eq, Structural, Clone, Copy, Debug)]
pub enum ContainerState {
    Creating,
    Created,
    Running,
    Stopped,
}

/// The state of a container: the OCI version, its id, status, process id, bundle
/// directory and annotations.
pub struct State {
    pub version: String,
    pub id: String,
    pub status: ContainerState,
    pub pid: Option<i32>,
    pub bundle: String,
    pub annotations: Option<HashMap<String, String>>,
}

pub struct StateView {
    pub version: Seq<char>,
    pub id: Seq<char>,
    pub status: ContainerState,
    pub pid: Option<i32>,
    pub bundle: Seq<char>,
    pub annotations: Option<Map<String, String>>,
}

impl View for State {
    type V = StateView;

    open spec fn view(&self) -> StateView {
        StateView {
            version: self.version@,
            id: self.id@,
            status: self.status,
            pid: self.pid,
            bundle: self.bundle@,
            annotations: match &self.annotations {
                Some(m) => Some(m@),
                None => None,
            },
        }
    }
}

impl StateView {
    /// This state with the status `status`.
    pub open spec fn with_status(self, status: ContainerState) -> StateView {
        StateView { status, ..self }
    }

    /// This state with the process id `pid`.
    pub open spec fn with_pid(self, pid: i32) -> StateView {
        StateView { pid: Some(pid), ..self }
    }
}

/// The state of a container that is being created from the bundle at `bundle`.
pub open spec fn initial_state(id: Seq<char>, bundle: Seq<char>) -> StateView {
    StateView {
        version: "1.0.0"@,
        id,
        status: ContainerState::Creating,
        pid: None,
        bundle,
        annotations: None,
    }
}

impl State {
    /// The state of a new container `container_id` whose bundle lives at
    /// `bundle_path`, an absolute path with symbolic links resolved.
    pub fn new(container_id: &str, bundle_path: &str) -> (r: State)
        ensures
            r@ == initial_state(container_id@, bundle_path@),
    {
        State {
            version: "1.0.0".to_owned(),
            id: container_id.to_owned(),
            status: ContainerState::Creating,
            pid: None,
            bundle: bundle_path.to_owned(),
            annotations: None,
        }
    }
}

} // verus!
