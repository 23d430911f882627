//! The events and actions of the handshake between the runtime's processes while a
//! container is created, and the messages they exchange over their socket.
use vstd::prelude::*;
use crate::namespaces::NamespaceError;

verus! {

/// Sent by the intermediate process once it is in its user namespace.
pub const READY_MESSAGE: &'static str = "ready";

/// Sent by the main process once the id mappings are written.
pub const DONE_MESSAGE: &'static str = "done";

/// Sent by the init process once the container is set up.
pub const CREATED_MESSAGE: &'static str = "created";

/// The start of the message that reports the container's init process id.
pub const INIT_PREFIX: &'static str = "init:";

/// What precedes the process id in that message.
pub const INIT_FIELD: &'static str = "init: ";

/// What happened since the last action.
pub enum Event {
    /// The process has started the handshake.
    Started,
    /// The last action was carried out.
    Completed,
    /// A message arrived on the socket.
    Received(String),
    /// The command that was run has exited, successfully or not.
    CommandExited(bool),
}

pub enum EventView {
    Started,
    Completed,
    Received(Seq<char>),
    CommandExited(bool),
}

impl View for Event {
    type V = EventView;

    open spec fn view(&self) -> EventView {
        match self {
            Event::Started => EventView::Started,
            Event::Completed => EventView::Completed,
            Event::Received(m) => EventView::Received(m@),
            Event::CommandExited(ok) => EventView::CommandExited(*ok),
        }
    }
}

/// Why the handshake cannot go on: an event on which the runtime gives up.
pub enum ProtocolError {
    /// A message other than the one expected arrived.
    UnexpectedMessage { expected: String, received: String },
    /// The message that reports the init process id does not hold one.
    MalformedInit(String),
    /// Writing the user-id mappings failed.
    UidMappingFailed,
    /// Writing the group-id mappings failed.
    GidMappingFailed,
    /// No container was created before the handshake.
    MissingContainer,
    /// The event does not fit the point the handshake has reached.
    UnexpectedEvent,
}

pub enum ProtocolErrorView {
    UnexpectedMessage { expected: Seq<char>, received: Seq<char> },
    MalformedInit(Seq<char>),
    UidMappingFailed,
    GidMappingFailed,
    MissingContainer,
    UnexpectedEvent,
}

impl View for ProtocolError {
    type V = ProtocolErrorView;

    open spec fn view(&self) -> ProtocolErrorView {
        match self {
            ProtocolError::UnexpectedMessage { expected, received } => ProtocolErrorView::UnexpectedMessage {
                expected: expected@,
                received: received@,
            },
            ProtocolError::MalformedInit(m) => ProtocolErrorView::MalformedInit(m@),
            ProtocolError::UidMappingFailed => ProtocolErrorView::UidMappingFailed,
            ProtocolError::GidMappingFailed => ProtocolErrorView::GidMappingFailed,
            ProtocolError::MissingContainer => ProtocolErrorView::MissingContainer,
            ProtocolError::UnexpectedEvent => ProtocolErrorView::UnexpectedEvent,
        }
    }
}

impl DeepView for ProtocolError {
    type V = ProtocolErrorView;

    open spec fn deep_view(&self) -> ProtocolErrorView {
        self@
    }
}

/// What the process does next.
pub enum Action {
    /// Wait for a message on the socket.
    Receive,
    /// Send a message on the socket.
    Send(String),
    /// Enter a new namespace: `unshare(2)` with these flags.
    Unshare(i32),
    /// Set the user id, then the group id, of the process.
    SetIds { uid: u32, gid: u32 },
    /// Fork; the child goes on to set up the container.
    Fork,
    /// Run a program with these arguments and wait for it to exit.
    RunCommand { program: String, args: Vec<String> },
    /// Write the container's state to its state file.
    SaveState,
    /// The handshake is over.
    Finish,
    /// A namespace cannot be entered: the handshake ends with this error.
    Fail(NamespaceError),
}

pub enum ActionView {
    Receive,
    Send(Seq<char>),
    Unshare(i32),
    SetIds { uid: u32, gid: u32 },
    Fork,
    RunCommand { program: Seq<char>, args: Seq<Seq<char>> },
    SaveState,
    Finish,
    Fail(NamespaceError),
}

impl View for Action {
    type V = ActionView;

    open spec fn view(&self) -> ActionView {
        match self {
            Action::Receive => ActionView::Receive,
            Action::Send(m) => ActionView::Send(m@),
            Action::Unshare(flags) => ActionView::Unshare(*flags),
            Action::SetIds { uid, gid } => ActionView::SetIds { uid: *uid, gid: *gid },
            Action::Fork => ActionView::Fork,
            Action::RunCommand { program, args } => ActionView::RunCommand {
                program: program@,
                args: args.deep_view(),
            },
            Action::SaveState => ActionView::SaveState,
            Action::Finish => ActionView::Finish,
            Action::Fail(e) => ActionView::Fail(*e),
        }
    }
}

/// The error that `received` arrived where `expected` was due.
pub open spec fn unexpected(expected: Seq<char>, received: Seq<char>) -> ProtocolErrorView {
    ProtocolErrorView::UnexpectedMessage { expected, received }
}

/// The process id that an `init: <pid>` message reports.
pub open spec fn init_pid(m: Seq<char>) -> Option<i32> {
    if INIT_FIELD@.is_prefix_of(m) {
        crate::text::parsed_i32(m.skip(INIT_FIELD@.len() as int))
    } else {
        None
    }
}

} // verus!
