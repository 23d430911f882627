//! Creating a container: the builder that holds the bundle and its configuration,
//! the plan of the init process, and the two sides of the handshake between the
//! main process and the intermediate process.
use vstd::prelude::*;
use vstd::pervasive::unreached;
use crate::config::{IdMapping, ProcessConfig, RuntimeConfig};
use crate::container::{Container, ContainerView};
use crate::mount::{copy_entries, Mounter, MountEntry};
use crate::namespaces::{
    answers_of, lemma_action_flag, lemma_first_of_type, lemma_namespace_action_first_entry,
    lemma_plan_step_law, lemma_plan_stops_at_error, namespace_action, namespaces_plan, first_of_type,
    NamespaceError, NamespacePlan, NamespaceType, NamespaceView, Namespaces,
};
use crate::paths::{joined, path_join};
use crate::protocol::{
    init_pid, unexpected, Action, ActionView, Event, EventView, ProtocolError,
    ProtocolErrorView, CREATED_MESSAGE, DONE_MESSAGE, INIT_FIELD, INIT_PREFIX, READY_MESSAGE,
};
use crate::state::ContainerState;
use crate::text::{
    env_pairs, i32_text, int_text, parse_env, parse_i32, starts_with, strip_prefix, text_eq,
    u32_text,
};
use crate::uts::{setup_uts, UtsPlan};
use crate::{NEWGIDMAP, NEWUIDMAP};

verus! {

/// Builds a container from an OCI bundle.
pub struct ContainerBuilder {
    bundle_path: String,
    container: Option<Container>,
    config: RuntimeConfig,
}

pub struct ContainerBuilderView {
    pub bundle_path: Seq<char>,
    pub container: Option<ContainerView>,
}

impl View for ContainerBuilder {
    type V = ContainerBuilderView;

    closed spec fn view(&self) -> ContainerBuilderView {
        ContainerBuilderView {
            bundle_path: self.bundle_path@,
            container: match &self.container {
                Some(c) => Some(c@),
                None => None,
            },
        }
    }
}

/// The namespace entries of a configuration.
pub open spec fn config_namespaces(config: RuntimeConfig) -> Seq<NamespaceView> {
    match config.linux {
        Some(l) => match l.namespaces {
            Some(v) => v@.map_values(|n: crate::namespaces::Namespace| n@),
            None => Seq::empty(),
        },
        None => Seq::empty(),
    }
}

/// The user-id mappings of a configuration.
pub open spec fn uid_mappings(config: RuntimeConfig) -> Option<Seq<IdMapping>> {
    match config.linux {
        Some(l) => match l.uid_mappings {
            Some(v) => Some(v@),
            None => None,
        },
        None => None,
    }
}

/// The group-id mappings of a configuration.
pub open spec fn gid_mappings(config: RuntimeConfig) -> Option<Seq<IdMapping>> {
    match config.linux {
        Some(l) => match l.gid_mappings {
            Some(v) => Some(v@),
            None => None,
        },
        None => None,
    }
}

/// The arguments that describe the ranges `maps`: container id, host id and size of
/// each range, in order, in decimal.
pub open spec fn mapping_args(maps: Seq<IdMapping>) -> Seq<Seq<char>>
    decreases maps.len(),
{
    if maps.len() == 0 {
        Seq::empty()
    } else {
        mapping_args(maps.drop_last()) + seq![
            int_text(maps.last().container_id as int),
            int_text(maps.last().host_id as int),
            int_text(maps.last().size as int),
        ]
    }
}

/// The arguments of `newuidmap`/`newgidmap` that map `maps` for the process `pid`.
pub open spec fn id_map_args(pid: i32, maps: Seq<IdMapping>) -> Seq<Seq<char>> {
    seq![int_text(pid as int)] + mapping_args(maps)
}

/// Whether the init process enters the namespace of an entry itself: all but the user
/// and pid namespaces, which the intermediate process enters.
pub open spec fn entered_by_init(t: NamespaceType) -> bool {
    t != NamespaceType::User && t != NamespaceType::Pid
}

/// What the init process's filter answers for each entry of `ns`.
pub open spec fn init_picks(ns: Seq<NamespaceView>) -> Seq<bool> {
    ns.map_values(|n: NamespaceView| entered_by_init(n.typ))
}

/// The program that the init process starts, as arguments on a command line.
pub struct ProcessLaunch {
    /// The user and group to run as.
    pub uid: u32,
    pub gid: u32,
    /// The program and its arguments.
    pub command: (String, Vec<String>),
    /// The environment, as key and value.
    pub envs: Vec<(String, String)>,
    /// The working directory.
    pub cwd: String,
}

/// What the init process does to set up the container once it has entered its
/// namespaces (see `ContainerBuilder::init_namespaces`), in order.
pub struct InitPlan {
    /// The host and domain names to set.
    pub uts: UtsPlan,
    /// The root file system to set up.
    pub mounter: Mounter,
    /// The program to start; `None` when the configuration defines no process.
    pub process: Option<ProcessLaunch>,
}

/// Whether the process of `p` names a program: its argument list is present and not empty.
pub open spec fn names_program(p: ProcessConfig) -> bool {
    p.args matches Some(a) && a@.len() > 0
}

/// The command line that starts the process of `p`: the program and its arguments.
pub open spec fn launch_command(p: ProcessConfig) -> (Seq<char>, Seq<Seq<char>>) {
    (p.args->0@[0]@, p.args->0.deep_view().skip(1))
}

/// Whether the init process can set up the container of a builder with the configuration
/// `config` and the container `container`: the configuration names a root and mounts, a
/// container was created, and the configured process, if any, names a program.
pub open spec fn init_accepts(config: RuntimeConfig, container: Option<ContainerView>) -> bool {
    &&& config.root is Some
    &&& container is Some
    &&& config.mounts is Some
    &&& (config.process matches Some(p) ==> names_program(p))
}

/// The environment of the process of `p`.
pub open spec fn launch_env(p: ProcessConfig) -> Seq<(Seq<char>, Seq<char>)> {
    match p.env {
        Some(e) => env_pairs(e.deep_view()),
        None => Seq::empty(),
    }
}

/// The steps of the main process's side of the handshake.
#[derive(PartialEq, Eq, Structural, Clone, Copy, Debug)]
pub enum MainPhase {
    Start,
    AwaitReady,
    MappingUids,
    MappingGids,
    SendingDone,
    AwaitInit,
    SavingPid,
    AwaitCreated,
    SavingStatus,
    Finished,
}

/// The steps of the intermediate process's side of the handshake.
#[derive(PartialEq, Eq, Structural, Clone, Copy, Debug)]
pub enum IntermediatePhase {
    Start,
    EnteringUserNamespace,
    SendingReady,
    AwaitDone,
    BecomingRoot,
    EnteringPidNamespace,
    Forking,
    Finished,
}

/// What the main process does after the uid mappings: write the gid mappings, if the
/// configuration has any, else tell the intermediate process that it is done.
pub open spec fn gid_stage(config: RuntimeConfig, child_pid: i32) -> (MainPhase, ActionView) {
    match gid_mappings(config) {
        Some(maps) => (
            MainPhase::MappingGids,
            ActionView::RunCommand { program: NEWGIDMAP@, args: id_map_args(child_pid, maps) },
        ),
        None => (MainPhase::SendingDone, ActionView::Send(DONE_MESSAGE@)),
    }
}

/// What the main process does once the intermediate process is ready: write the uid
/// mappings, if the configuration has any, else go on with the gid mappings.
pub open spec fn uid_stage(config: RuntimeConfig, child_pid: i32) -> (MainPhase, ActionView) {
    match uid_mappings(config) {
        Some(maps) => (
            MainPhase::MappingUids,
            ActionView::RunCommand { program: NEWUIDMAP@, args: id_map_args(child_pid, maps) },
        ),
        None => gid_stage(config, child_pid),
    }
}

/// The events on which the main process gives up: any message other than the one due
/// (`ready` first, then `init: <pid>`, then `created`), a failing `newuidmap` or
/// `newgidmap`, an `init:` message that holds no process id, a missing container where
/// the state is to be recorded, and any event that does not fit the phase. `None` when
/// the handshake goes on.
pub open spec fn main_rejection(
    container: Option<ContainerView>,
    phase: MainPhase,
    event: EventView,
) -> Option<ProtocolErrorView> {
    let out_of_order = Some(ProtocolErrorView::UnexpectedEvent);
    match phase {
        MainPhase::Start => match event {
            EventView::Started => None,
            _ => out_of_order,
        },
        MainPhase::AwaitReady => match event {
            EventView::Received(m) => if m != READY_MESSAGE@ {
                Some(unexpected(READY_MESSAGE@, m))
            } else {
                None
            },
            _ => out_of_order,
        },
        MainPhase::MappingUids => match event {
            EventView::CommandExited(ok) => if !ok {
                Some(ProtocolErrorView::UidMappingFailed)
            } else {
                None
            },
            _ => out_of_order,
        },
        MainPhase::MappingGids => match event {
            EventView::CommandExited(ok) => if !ok {
                Some(ProtocolErrorView::GidMappingFailed)
            } else {
                None
            },
            _ => out_of_order,
        },
        MainPhase::AwaitInit => match event {
            EventView::Received(m) => if !INIT_PREFIX@.is_prefix_of(m) {
                Some(unexpected(INIT_PREFIX@, m))
            } else if init_pid(m) is None {
                Some(ProtocolErrorView::MalformedInit(m))
            } else if container is None {
                Some(ProtocolErrorView::MissingContainer)
            } else {
                None
            },
            _ => out_of_order,
        },
        MainPhase::AwaitCreated => match event {
            EventView::Received(m) => if m != CREATED_MESSAGE@ {
                Some(unexpected(CREATED_MESSAGE@, m))
            } else if container is None {
                Some(ProtocolErrorView::MissingContainer)
            } else {
                None
            },
            _ => out_of_order,
        },
        MainPhase::SendingDone | MainPhase::SavingPid | MainPhase::SavingStatus => match event {
            EventView::Completed => None,
            _ => out_of_order,
        },
        MainPhase::Finished => out_of_order,
    }
}

/// One step of the main process's side of the handshake: from the phase `phase`, on an
/// event that `main_rejection` accepts, the next phase, the container afterwards and the
/// next action. (On rejected events it stays where it is.)
pub open spec fn main_step(
    config: RuntimeConfig,
    container: Option<ContainerView>,
    child_pid: i32,
    phase: MainPhase,
    event: EventView,
) -> (MainPhase, Option<ContainerView>, ActionView) {
    let stay = (phase, container, ActionView::Receive);
    match phase {
        MainPhase::Start => (MainPhase::AwaitReady, container, ActionView::Receive),
        MainPhase::AwaitReady => if config.linux is None {
            (MainPhase::Finished, container, ActionView::Finish)
        } else {
            (uid_stage(config, child_pid).0, container, uid_stage(config, child_pid).1)
        },
        MainPhase::MappingUids => (gid_stage(config, child_pid).0, container, gid_stage(config, child_pid).1),
        MainPhase::MappingGids => (MainPhase::SendingDone, container, ActionView::Send(DONE_MESSAGE@)),
        MainPhase::SendingDone => (MainPhase::AwaitInit, container, ActionView::Receive),
        MainPhase::AwaitInit => match (event, container) {
            (EventView::Received(m), Some(c)) => (
                MainPhase::SavingPid,
                Some(ContainerView { state: c.state.with_pid(init_pid(m)->0), ..c }),
                ActionView::SaveState,
            ),
            _ => stay,
        },
        MainPhase::SavingPid => (MainPhase::AwaitCreated, container, ActionView::Receive),
        MainPhase::AwaitCreated => match container {
            Some(c) => (
                MainPhase::SavingStatus,
                Some(ContainerView { state: c.state.with_status(ContainerState::Created), ..c }),
                ActionView::SaveState,
            ),
            None => stay,
        },
        MainPhase::SavingStatus => (MainPhase::Finished, container, ActionView::Finish),
        MainPhase::Finished => stay,
    }
}

/// What the intermediate process does to enter a namespace, given what applying it
/// amounts to, and the phase it is in while doing so; `next` is the step after it when
/// there is nothing to enter.
pub open spec fn enter_stage(
    action: Result<Option<i32>, NamespaceError>,
    entering: IntermediatePhase,
    next: (IntermediatePhase, ActionView),
) -> (IntermediatePhase, ActionView) {
    match action {
        Err(e) => (IntermediatePhase::Finished, ActionView::Fail(e)),
        Ok(Some(flags)) => (entering, ActionView::Unshare(flags)),
        Ok(None) => next,
    }
}

/// The events on which the intermediate process gives up: a message other than `done`,
/// and any event that does not fit the phase. `None` when the handshake goes on.
pub open spec fn intermediate_rejection(phase: IntermediatePhase, event: EventView) -> Option<ProtocolErrorView> {
    let out_of_order = Some(ProtocolErrorView::UnexpectedEvent);
    match phase {
        IntermediatePhase::Start => match event {
            EventView::Started => None,
            _ => out_of_order,
        },
        IntermediatePhase::AwaitDone => match event {
            EventView::Received(m) => if m != DONE_MESSAGE@ {
                Some(unexpected(DONE_MESSAGE@, m))
            } else {
                None
            },
            _ => out_of_order,
        },
        IntermediatePhase::Finished => out_of_order,
        _ => match event {
            EventView::Completed => None,
            _ => out_of_order,
        },
    }
}

/// One step of the intermediate process's side of the handshake, on an event that
/// `intermediate_rejection` accepts, for a configuration where applying the user
/// namespace amounts to `user` and applying the pid namespace to `pid` (see
/// `namespace_action`).
pub open spec fn intermediate_step(
    user: Result<Option<i32>, NamespaceError>,
    pid: Result<Option<i32>, NamespaceError>,
    phase: IntermediatePhase,
) -> (IntermediatePhase, ActionView) {
    match phase {
        IntermediatePhase::Start => enter_stage(
            user,
            IntermediatePhase::EnteringUserNamespace,
            (IntermediatePhase::SendingReady, ActionView::Send(READY_MESSAGE@)),
        ),
        IntermediatePhase::EnteringUserNamespace => (IntermediatePhase::SendingReady, ActionView::Send(READY_MESSAGE@)),
        IntermediatePhase::SendingReady => (IntermediatePhase::AwaitDone, ActionView::Receive),
        IntermediatePhase::AwaitDone => (IntermediatePhase::BecomingRoot, ActionView::SetIds { uid: 0, gid: 0 }),
        IntermediatePhase::BecomingRoot => enter_stage(
            pid,
            IntermediatePhase::EnteringPidNamespace,
            (IntermediatePhase::Forking, ActionView::Fork),
        ),
        IntermediatePhase::EnteringPidNamespace => (IntermediatePhase::Forking, ActionView::Fork),
        IntermediatePhase::Forking => (IntermediatePhase::Finished, ActionView::Finish),
        IntermediatePhase::Finished => (IntermediatePhase::Finished, ActionView::Finish),
    }
}

/// What applying the user namespace amounts to for `config`.
pub open spec fn user_namespace_action(config: RuntimeConfig) -> Result<Option<i32>, NamespaceError> {
    namespace_action(config_namespaces(config), NamespaceType::User)
}

/// What applying the pid namespace amounts to for `config`.
pub open spec fn pid_namespace_action(config: RuntimeConfig) -> Result<Option<i32>, NamespaceError> {
    namespace_action(config_namespaces(config), NamespaceType::Pid)
}

fn text(s: &str) -> (r: String)
    ensures
        r@ == s@,
{
    s.to_owned()
}

/// The arguments of `newuidmap`/`newgidmap` that map `maps` for the process `pid`.
fn map_args(pid: i32, maps: &Vec<IdMapping>) -> (r: Vec<String>)
    ensures
        r.deep_view() == id_map_args(pid, maps@),
{
    let mut args: Vec<String> = Vec::new();
    args.push(i32_text(pid));
    assert(args.deep_view() =~= id_map_args(pid, maps@.take(0)));
    let mut i: usize = 0;
    while i < maps.len()
        invariant
            i <= maps@.len(),
            args.deep_view() == id_map_args(pid, maps@.take(i as int)),
        decreases maps@.len() - i,
    {
        let m = maps[i];
        let ghost before = args.deep_view();
        args.push(u32_text(m.container_id));
        args.push(u32_text(m.host_id));
        args.push(u32_text(m.size));
        proof {
            assert(maps@.take(i + 1).drop_last() =~= maps@.take(i as int));
            assert(maps@.take(i + 1).last() == m);
            assert(args.deep_view() =~= before + seq![
                int_text(m.container_id as int),
                int_text(m.host_id as int),
                int_text(m.size as int),
            ]);
            assert(id_map_args(pid, maps@.take(i + 1)) =~= before + seq![
                int_text(m.container_id as int),
                int_text(m.host_id as int),
                int_text(m.size as int),
            ]);
        }
        i += 1;
    }
    assert(maps@.take(maps@.len() as int) =~= maps@);
    args
}

/// A copy of the namespace entries of `config`.
fn namespaces_of(config: &RuntimeConfig) -> (r: Namespaces)
    ensures
        r@ == config_namespaces(*config),
{
    let entries = match &config.linux {
        Some(l) => l.namespaces.as_ref(),
        None => None,
    };
    Namespaces::try_from(entries).unwrap()
}

/// The program on the command line `args`, and its arguments.
fn command_of(args: &Vec<String>) -> (r: (String, Vec<String>))
    requires
        args@.len() > 0,
    ensures
        r.deep_view() == (args@[0]@, args.deep_view().skip(1)),
{
    let mut rest: Vec<String> = Vec::new();
    let mut i: usize = 1;
    while i < args.len()
        invariant
            1 <= i <= args@.len(),
            rest.deep_view() == args.deep_view().subrange(1, i as int),
        decreases args@.len() - i,
    {
        let ghost before = rest.deep_view();
        rest.push(args[i].clone());
        assert(rest.deep_view() =~= before.push(args@[i as int]@));
        assert(args.deep_view().subrange(1, i + 1) =~= args.deep_view().subrange(1, i as int).push(
            args@[i as int]@,
        ));
        i += 1;
    }
    assert(args.deep_view().subrange(1, args@.len() as int) =~= args.deep_view().skip(1));
    (args[0].clone(), rest)
}

/// How the process of `p` is started.
fn launch_of(p: &ProcessConfig) -> (r: ProcessLaunch)
    requires
        names_program(*p),
    ensures
        r.uid == p.uid,
        r.gid == p.gid,
        r.command.deep_view() == launch_command(*p),
        r.envs.deep_view() == launch_env(*p),
        r.cwd@ == p.cwd@,
{
    let command = command_of(p.args.as_ref().unwrap());
    let envs = match &p.env {
        Some(e) => parse_env(e),
        None => Vec::new(),
    };
    ProcessLaunch { uid: p.uid, gid: p.gid, command, envs, cwd: p.cwd.clone() }
}

impl ContainerBuilder {
    /// The configuration the builder was made with.
    pub closed spec fn configuration(&self) -> RuntimeConfig {
        self.config
    }

    /// The path of the configuration file of the bundle at `bundle_path`.
    pub fn config_path(bundle_path: &str) -> (r: String)
        ensures
            r@ == joined(bundle_path@, "config.json"@),
    {
        path_join(bundle_path, "config.json")
    }

    /// A builder for the bundle at `bundle_path` whose configuration file holds `config`.
    pub fn new(bundle_path: &str, config: RuntimeConfig) -> (r: ContainerBuilder)
        ensures
            r@.bundle_path == bundle_path@,
            r@.container is None,
            r.configuration() == config,
    {
        ContainerBuilder { bundle_path: text(bundle_path), container: None, config }
    }

    /// The directory of the bundle.
    pub fn bundle_path(&self) -> (r: &String)
        ensures
            r@ == self@.bundle_path,
    {
        &self.bundle_path
    }

    /// The bundle's configuration.
    pub fn config(&self) -> (r: &RuntimeConfig)
        ensures
            *r == self.configuration(),
    {
        &self.config
    }

    /// The container being built, once created.
    pub fn container(&self) -> (r: Option<&Container>)
        ensures
            r matches Some(c) ==> self@.container == Some(c@),
            r is None ==> self@.container is None,
    {
        self.container.as_ref()
    }

    /// Takes on the newly created `container` and gives the path of the socket through
    /// which the processes that set it up talk.
    pub fn create(&mut self, container: Container) -> (r: String)
        ensures
            final(self)@.container == Some(container@),
            final(self)@.bundle_path == old(self)@.bundle_path,
            final(self).configuration() == old(self).configuration(),
            r@ == joined(container@.root, "notify.sock"@),
    {
        let socket_path = path_join(container.root.as_str(), "notify.sock");
        self.container = Some(container);
        socket_path
    }

    /// Whether the init process can set up the container (see `init_accepts`). The
    /// caller tests this before `init_process`.
    pub fn init_ready(&self) -> (r: bool)
        ensures
            r == init_accepts(self.configuration(), self@.container),
    {
        let process_ok = match &self.config.process {
            Some(p) => match &p.args {
                Some(a) => a.len() > 0,
                None => false,
            },
            None => true,
        };
        self.config.root.is_some() && self.container.is_some() && self.config.mounts.is_some() && process_ok
    }

    /// The first thing the init process does: enter every configured namespace but the
    /// user and pid ones, in order, stopping at the first that cannot be entered.
    pub fn init_namespaces(&self) -> (r: NamespacePlan)
        ensures
            (r.unshare@, r.error) == namespaces_plan(
                config_namespaces(self.configuration()),
                init_picks(config_namespaces(self.configuration())),
            ),
    {
        let namespaces = namespaces_of(&self.config);
        let ghost ns = namespaces@;
        let filter = |t: &NamespaceType| -> (b: bool)
            ensures
                b == entered_by_init(*t),
            { *t != NamespaceType::User && *t != NamespaceType::Pid };
        let namespace_plan = namespaces.apply_namespaces(filter);
        proof {
            let picks = choose|picks: Seq<bool>|
                {
                    &&& #[trigger] answers_of(filter, ns, picks)
                    &&& picks.len() <= ns.len()
                    &&& namespace_plan.error is None ==> picks.len() == ns.len()
                    &&& namespace_plan.error is Some ==> picks.len() > 0 && namespaces_plan(
                        ns,
                        picks.drop_last(),
                    ).1 is None
                    &&& namespaces_plan(ns, picks) == (namespace_plan.unshare@, namespace_plan.error)
                };
            let all = init_picks(ns);
            assert(picks =~= all.take(picks.len() as int)) by {
                assert forall|i: int| 0 <= i < picks.len() implies picks[i] == all[i] by {
                    assert(call_ensures(filter, (&ns[i].typ,), picks[i]));
                }
            }
            if namespace_plan.error is None {
                assert(all.take(picks.len() as int) =~= all);
            } else {
                lemma_plan_stops_at_error(ns, all, picks.len() as int);
            }
        }
        namespace_plan
    }

    /// What the init process does to set up the container once its namespaces are
    /// entered: set the host and domain names, set up the root file system, and start the
    /// configured program.
    pub fn init_process(&self) -> (r: InitPlan)
        requires
            init_accepts(self.configuration(), self@.container),
        ensures
            r.uts.hostname.deep_view() == self.configuration().hostname.deep_view(),
            r.uts.domainname.deep_view() == self.configuration().domainname.deep_view(),
            r.mounter@.bundle_root == joined(self@.bundle_path, self.configuration().root->0@),
            r.mounter@.new_root == joined(self@.container->0.root, "rootfs"@),
            r.mounter@.mounts == self.configuration().mounts->0@.map_values(|e: MountEntry| e@),
            r.process is Some <==> self.configuration().process is Some,
            r.process matches Some(launch) ==> {
                let p = self.configuration().process->0;
                &&& launch.uid == p.uid
                &&& launch.gid == p.gid
                &&& launch.command.deep_view() == launch_command(p)
                &&& launch.envs.deep_view() == launch_env(p)
                &&& launch.cwd@ == p.cwd@
            },
    {
        let uts = setup_uts(&self.config);
        let root = self.config.root.as_ref().unwrap();
        let container = self.container.as_ref().unwrap();
        let mounts = self.config.mounts.as_ref().unwrap();
        let mounter = Mounter::new(
            path_join(self.bundle_path.as_str(), root.as_str()).as_str(),
            path_join(container.root.as_str(), "rootfs").as_str(),
            copy_entries(mounts),
        );
        let process = match &self.config.process {
            None => None,
            Some(p) => Some(launch_of(p)),
        };
        InitPlan { uts, mounter, process }
    }

    /// The step that enters the user namespace.
    fn enter_user_namespace(&self) -> (r: (IntermediatePhase, Action))
        ensures
            (r.0, r.1@) == enter_stage(
                user_namespace_action(self.configuration()),
                IntermediatePhase::EnteringUserNamespace,
                (IntermediatePhase::SendingReady, ActionView::Send(READY_MESSAGE@)),
            ),
    {
        let namespaces = namespaces_of(&self.config);
        match namespaces.apply_namespace(&NamespaceType::User) {
            Err(e) => (IntermediatePhase::Finished, Action::Fail(e)),
            Ok(Some(flags)) => (IntermediatePhase::EnteringUserNamespace, Action::Unshare(flags)),
            Ok(None) => (IntermediatePhase::SendingReady, Action::Send(text(READY_MESSAGE))),
        }
    }

    /// The step that enters the pid namespace.
    fn enter_pid_namespace(&self) -> (r: (IntermediatePhase, Action))
        ensures
            (r.0, r.1@) == enter_stage(
                pid_namespace_action(self.configuration()),
                IntermediatePhase::EnteringPidNamespace,
                (IntermediatePhase::Forking, ActionView::Fork),
            ),
    {
        let namespaces = namespaces_of(&self.config);
        match namespaces.apply_namespace(&NamespaceType::Pid) {
            Err(e) => (IntermediatePhase::Finished, Action::Fail(e)),
            Ok(Some(flags)) => (IntermediatePhase::EnteringPidNamespace, Action::Unshare(flags)),
            Ok(None) => (IntermediatePhase::Forking, Action::Fork),
        }
    }

    /// Whether the intermediate process gives up on `event` in the phase `phase`, and
    /// why. The caller tests this before each step.
    pub fn check_intermediate_event(phase: IntermediatePhase, event: &Event) -> (r: Option<ProtocolError>)
        ensures
            r.deep_view() == intermediate_rejection(phase, event@),
    {
        match phase {
            IntermediatePhase::Start => match event {
                Event::Started => None,
                _ => Some(ProtocolError::UnexpectedEvent),
            },
            IntermediatePhase::AwaitDone => match event {
                Event::Received(m) => if text_eq(m.as_str(), DONE_MESSAGE) {
                    None
                } else {
                    Some(ProtocolError::UnexpectedMessage { expected: text(DONE_MESSAGE), received: m.clone() })
                },
                _ => Some(ProtocolError::UnexpectedEvent),
            },
            IntermediatePhase::Finished => Some(ProtocolError::UnexpectedEvent),
            _ => match event {
                Event::Completed => None,
                _ => Some(ProtocolError::UnexpectedEvent),
            },
        }
    }

    /// One step of the intermediate process's side of the handshake: enter the user
    /// namespace, tell the main process it is ready, wait until it has written the id
    /// mappings (`done`), become root, enter the pid namespace, and fork the init process.
    pub fn intermediate_process(&self, phase: IntermediatePhase, event: Event) -> (r: (IntermediatePhase, Action))
        requires
            intermediate_rejection(phase, event@) is None,
        ensures
            (r.0, r.1@) == intermediate_step(
                user_namespace_action(self.configuration()),
                pid_namespace_action(self.configuration()),
                phase,
            ),
    {
        match phase {
            IntermediatePhase::Start => self.enter_user_namespace(),
            IntermediatePhase::EnteringUserNamespace => (IntermediatePhase::SendingReady, Action::Send(text(READY_MESSAGE))),
            IntermediatePhase::SendingReady => (IntermediatePhase::AwaitDone, Action::Receive),
            IntermediatePhase::AwaitDone => (IntermediatePhase::BecomingRoot, Action::SetIds { uid: 0, gid: 0 }),
            IntermediatePhase::BecomingRoot => self.enter_pid_namespace(),
            IntermediatePhase::EnteringPidNamespace => (IntermediatePhase::Forking, Action::Fork),
            IntermediatePhase::Forking => (IntermediatePhase::Finished, Action::Finish),
            IntermediatePhase::Finished => unreached(),
        }
    }

    /// What the main process does after the uid mappings.
    fn gid_stage(&self, child_pid: i32) -> (r: (MainPhase, Action))
        ensures
            (r.0, r.1@) == gid_stage(self.configuration(), child_pid),
    {
        match &self.config.linux {
            Some(l) => match &l.gid_mappings {
                Some(maps) => (
                    MainPhase::MappingGids,
                    Action::RunCommand { program: text(NEWGIDMAP), args: map_args(child_pid, maps) },
                ),
                None => (MainPhase::SendingDone, Action::Send(text(DONE_MESSAGE))),
            },
            None => (MainPhase::SendingDone, Action::Send(text(DONE_MESSAGE))),
        }
    }

    /// What the main process does once the intermediate process is ready.
    fn uid_stage(&self, child_pid: i32) -> (r: (MainPhase, Action))
        ensures
            (r.0, r.1@) == uid_stage(self.configuration(), child_pid),
    {
        match &self.config.linux {
            Some(l) => match &l.uid_mappings {
                Some(maps) => (
                    MainPhase::MappingUids,
                    Action::RunCommand { program: text(NEWUIDMAP), args: map_args(child_pid, maps) },
                ),
                None => self.gid_stage(child_pid),
            },
            None => self.gid_stage(child_pid),
        }
    }

    /// The process id in the message `m`, when it reads `init: <pid>`.
    fn init_message_pid(m: &str) -> (r: Option<i32>)
        ensures
            r == init_pid(m@),
    {
        match strip_prefix(m, INIT_FIELD) {
            Some(rest) => parse_i32(rest.as_str()),
            None => None,
        }
    }

    /// Whether the main process gives up on `event` in the phase `phase`, and why. The
    /// caller tests this before each step.
    pub fn check_main_event(&self, phase: MainPhase, event: &Event) -> (r: Option<ProtocolError>)
        ensures
            r.deep_view() == main_rejection(self@.container, phase, event@),
    {
        let out_of_order = Some(ProtocolError::UnexpectedEvent);
        match phase {
            MainPhase::Start => match event {
                Event::Started => None,
                _ => out_of_order,
            },
            MainPhase::AwaitReady => match event {
                Event::Received(m) => if text_eq(m.as_str(), READY_MESSAGE) {
                    None
                } else {
                    Some(ProtocolError::UnexpectedMessage { expected: text(READY_MESSAGE), received: m.clone() })
                },
                _ => out_of_order,
            },
            MainPhase::MappingUids => match event {
                Event::CommandExited(ok) => if *ok {
                    None
                } else {
                    Some(ProtocolError::UidMappingFailed)
                },
                _ => out_of_order,
            },
            MainPhase::MappingGids => match event {
                Event::CommandExited(ok) => if *ok {
                    None
                } else {
                    Some(ProtocolError::GidMappingFailed)
                },
                _ => out_of_order,
            },
            MainPhase::AwaitInit => match event {
                Event::Received(m) => if !starts_with(m.as_str(), INIT_PREFIX) {
                    Some(ProtocolError::UnexpectedMessage { expected: text(INIT_PREFIX), received: m.clone() })
                } else if Self::init_message_pid(m.as_str()).is_none() {
                    Some(ProtocolError::MalformedInit(m.clone()))
                } else if self.container.is_none() {
                    Some(ProtocolError::MissingContainer)
                } else {
                    None
                },
                _ => out_of_order,
            },
            MainPhase::AwaitCreated => match event {
                Event::Received(m) => if !text_eq(m.as_str(), CREATED_MESSAGE) {
                    Some(ProtocolError::UnexpectedMessage { expected: text(CREATED_MESSAGE), received: m.clone() })
                } else if self.container.is_none() {
                    Some(ProtocolError::MissingContainer)
                } else {
                    None
                },
                _ => out_of_order,
            },
            MainPhase::SendingDone | MainPhase::SavingPid | MainPhase::SavingStatus => match event {
                Event::Completed => None,
                _ => out_of_order,
            },
            MainPhase::Finished => out_of_order,
        }
    }

    /// One step of the main process's side of the handshake with the intermediate
    /// process `child_pid`: wait until it is ready, write its uid and gid mappings with
    /// `newuidmap`/`newgidmap`, tell it that this is done, record the process id of the
    /// init process that it reports, and mark the container created once the init
    /// process says so, saving the container's state after each change.
    pub fn main_process(&mut self, phase: MainPhase, child_pid: i32, event: Event) -> (r: (MainPhase, Action))
        requires
            main_rejection(old(self)@.container, phase, event@) is None,
        ensures
            (r.0, final(self)@.container, r.1@) == main_step(
                old(self).configuration(),
                old(self)@.container,
                child_pid,
                phase,
                event@,
            ),
            final(self)@.bundle_path == old(self)@.bundle_path,
            final(self).configuration() == old(self).configuration(),
    {
        match phase {
            MainPhase::Start => (MainPhase::AwaitReady, Action::Receive),
            MainPhase::AwaitReady => {
                if self.config.linux.is_none() {
                    (MainPhase::Finished, Action::Finish)
                } else {
                    self.uid_stage(child_pid)
                }
            },
            MainPhase::MappingUids => self.gid_stage(child_pid),
            MainPhase::MappingGids => (MainPhase::SendingDone, Action::Send(text(DONE_MESSAGE))),
            MainPhase::SendingDone => (MainPhase::AwaitInit, Action::Receive),
            MainPhase::AwaitInit => match event {
                Event::Received(m) => {
                    let pid = Self::init_message_pid(m.as_str()).unwrap();
                    match &mut self.container {
                        Some(c) => {
                            c.set_pid(pid);
                            (MainPhase::SavingPid, Action::SaveState)
                        },
                        None => unreached(),
                    }
                },
                _ => unreached(),
            },
            MainPhase::SavingPid => (MainPhase::AwaitCreated, Action::Receive),
            MainPhase::AwaitCreated => match &mut self.container {
                Some(c) => {
                    c.update_status(ContainerState::Created);
                    (MainPhase::SavingStatus, Action::SaveState)
                },
                None => unreached(),
            },
            MainPhase::SavingStatus => (MainPhase::Finished, Action::Finish),
            MainPhase::Finished => unreached(),
        }
    }
}

/// The arguments that map `maps` for a process: its id, then three per range.
pub proof fn lemma_id_map_args_len(pid: i32, maps: Seq<IdMapping>)
    ensures
        id_map_args(pid, maps).len() == 1 + 3 * maps.len(),
        id_map_args(pid, maps)[0] == int_text(pid as int),
    decreases maps.len(),
{
    if maps.len() > 0 {
        lemma_id_map_args_len(pid, maps.drop_last());
    }
}

/// The flags of the namespaces that the init process enters, for answers `picks` of its
/// filter given in order: each is the flag of a uts, ipc or mount namespace.
proof fn lemma_init_flags(ns: Seq<NamespaceView>, picks: Seq<bool>)
    requires
        picks.len() <= ns.len(),
        forall|i: int| 0 <= i < picks.len() && #[trigger] picks[i] ==> entered_by_init(ns[i].typ),
    ensures
        forall|i: int|
            0 <= i < namespaces_plan(ns, picks).0.len() ==> {
                let flag = #[trigger] namespaces_plan(ns, picks).0[i];
                flag == 0x04000000i32 || flag == 0x08000000i32 || flag == 0x00020000i32
            },
    decreases picks.len(),
{
    if picks.len() > 0 {
        let k = picks.len() - 1;
        let rest = picks.drop_last();
        assert forall|i: int| 0 <= i < rest.len() && #[trigger] rest[i] implies entered_by_init(ns[i].typ) by {
            assert(rest[i] == picks[i]);
        }
        lemma_init_flags(ns, rest);
        lemma_action_flag(ns, ns[k].typ);
        lemma_plan_step_law(ns, rest, picks.last());
        assert(rest.push(picks.last()) =~= picks);
    }
}

/// The init process never enters the user or the pid namespace, which the intermediate
/// process has entered before it: every namespace it enters is a uts, ipc or mount one.
pub proof fn lemma_init_enters_neither_user_nor_pid(ns: Seq<NamespaceView>)
    ensures
        forall|i: int|
            0 <= i < namespaces_plan(ns, init_picks(ns)).0.len() ==> {
                let flag = #[trigger] namespaces_plan(ns, init_picks(ns)).0[i];
                &&& flag != 0x10000000i32
                &&& flag != 0x20000000i32
                &&& (flag == 0x04000000i32 || flag == 0x08000000i32 || flag == 0x00020000i32)
            },
{
    lemma_init_flags(ns, init_picks(ns));
}

/// The intermediate process enters no namespace but the user and the pid ones.
pub proof fn lemma_intermediate_enters_only_user_and_pid(
    config: RuntimeConfig,
    phase: IntermediatePhase,
)
    ensures
        intermediate_step(user_namespace_action(config), pid_namespace_action(config), phase).1 matches ActionView::Unshare(flag)
            ==> flag == 0x10000000i32 || flag == 0x20000000i32,
{
    lemma_action_flag(config_namespaces(config), NamespaceType::User);
    lemma_action_flag(config_namespaces(config), NamespaceType::Pid);
}

/// What holds of the container at each point of the main process's handshake: once the
/// init process id is recorded it stays recorded, and while the state is saved the last
/// time the container is marked created.
pub open spec fn main_invariant(phase: MainPhase, container: Option<ContainerView>) -> bool {
    &&& (phase == MainPhase::SavingPid || phase == MainPhase::AwaitCreated) ==> (container matches Some(c)
        && c.state.pid is Some)
    &&& phase == MainPhase::SavingStatus ==> (container matches Some(c) && c.state.pid is Some
        && c.state.status == ContainerState::Created)
}

/// Every step of the main process's handshake keeps `main_invariant`.
pub proof fn lemma_main_step_keeps_invariant(
    config: RuntimeConfig,
    container: Option<ContainerView>,
    child_pid: i32,
    phase: MainPhase,
    event: EventView,
)
    requires
        main_invariant(phase, container),
    ensures
        main_invariant(
            main_step(config, container, child_pid, phase, event).0,
            main_step(config, container, child_pid, phase, event).1,
        ),
{
}

/// The handshake finishes in one of two ways only: right after the intermediate process
/// is ready when the configuration has no `linux` section, leaving the container as it
/// was, or after the last save, when the container has its init process id and is
/// marked created.
pub proof fn lemma_main_finish(
    config: RuntimeConfig,
    container: Option<ContainerView>,
    child_pid: i32,
    phase: MainPhase,
    event: EventView,
)
    requires
        main_invariant(phase, container),
    ensures
        main_step(config, container, child_pid, phase, event).2 == ActionView::Finish ==> {
            ||| (phase == MainPhase::AwaitReady && config.linux is None
                && main_step(config, container, child_pid, phase, event).1 == container)
            ||| (phase == MainPhase::SavingStatus && (main_step(config, container, child_pid, phase, event).1 matches Some(c)
                && c.state.pid is Some && c.state.status == ContainerState::Created))
        },
{
}

/// The handshake changes nothing of the container but its process id and status: not
/// its directory, id, bundle, version or annotations, and it never drops or adds one.
pub proof fn lemma_main_step_changes_only_pid_and_status(
    config: RuntimeConfig,
    container: Option<ContainerView>,
    child_pid: i32,
    phase: MainPhase,
    event: EventView,
)
    ensures
        main_step(config, container, child_pid, phase, event).1 is Some <==> container is Some,
        main_step(config, container, child_pid, phase, event).1 matches Some(after) ==> {
            let before = container->0;
            &&& after.root == before.root
            &&& after.state.id == before.state.id
            &&& after.state.bundle == before.state.bundle
            &&& after.state.version == before.state.version
            &&& after.state.annotations == before.state.annotations
        },
{
}

/// The process id that the init process reports as `init: <pid>` is the one the main
/// process records for the container, for every pid.
pub proof fn lemma_init_message_records_pid(
    config: RuntimeConfig,
    container: ContainerView,
    child_pid: i32,
    pid: i32,
)
    ensures
        main_step(
            config,
            Some(container),
            child_pid,
            MainPhase::AwaitInit,
            EventView::Received(INIT_FIELD@ + int_text(pid as int)),
        ) == (
            MainPhase::SavingPid,
            Some(ContainerView { state: container.state.with_pid(pid), ..container }),
            ActionView::SaveState,
        ),
{
    reveal_strlit("init:");
    reveal_strlit("init: ");
    let m = INIT_FIELD@ + int_text(pid as int);
    assert(INIT_FIELD@.is_prefix_of(m)) by {
        assert(m.subrange(0, INIT_FIELD@.len() as int) =~= INIT_FIELD@);
    }
    assert(INIT_PREFIX@.is_prefix_of(m)) by {
        assert(m.subrange(0, INIT_PREFIX@.len() as int) =~= INIT_PREFIX@);
    }
    assert(m.skip(INIT_FIELD@.len() as int) =~= int_text(pid as int));
    crate::text::lemma_i32_text_round_trip(pid);
}

/// The main process's side of the handshake run from `phase` on `events`, one step
/// each: the phase and container it ends with, the actions it takes in order, and
/// whether it accepted every event.
pub open spec fn main_run(
    config: RuntimeConfig,
    container: Option<ContainerView>,
    child_pid: i32,
    phase: MainPhase,
    events: Seq<EventView>,
) -> (MainPhase, Option<ContainerView>, Seq<ActionView>, bool)
    decreases events.len(),
{
    if events.len() == 0 {
        (phase, container, Seq::empty(), true)
    } else {
        let before = main_run(config, container, child_pid, phase, events.drop_last());
        let step = main_step(config, before.1, child_pid, before.0, events.last());
        (step.0, step.1, before.2.push(step.2), before.3 && main_rejection(before.1, before.0, events.last()) is None)
    }
}

/// Running on `a` and then on `b` is running on `a + b`.
proof fn lemma_main_run_append(
    config: RuntimeConfig,
    container: Option<ContainerView>,
    child_pid: i32,
    phase: MainPhase,
    a: Seq<EventView>,
    b: Seq<EventView>,
)
    ensures
        ({
            let first = main_run(config, container, child_pid, phase, a);
            let second = main_run(config, first.1, child_pid, first.0, b);
            main_run(config, container, child_pid, phase, a + b) == (second.0, second.1, first.2 + second.2, first.3 && second.3)
        }),
    decreases b.len(),
{
    if b.len() == 0 {
        assert(a + b =~= a);
        let first = main_run(config, container, child_pid, phase, a);
        assert(first.2 + Seq::<ActionView>::empty() =~= first.2);
    } else {
        lemma_main_run_append(config, container, child_pid, phase, a, b.drop_last());
        assert((a + b).drop_last() =~= a + b.drop_last());
        let first = main_run(config, container, child_pid, phase, a);
        let mid = main_run(config, first.1, child_pid, first.0, b.drop_last());
        let step = main_step(config, mid.1, child_pid, mid.0, b.last());
        assert(first.2 + mid.2.push(step.2) =~= (first.2 + mid.2).push(step.2));
    }
}

/// The exit events of the id-mapping commands that `config` asks for, all successful.
pub open spec fn mapping_events(config: RuntimeConfig) -> Seq<EventView> {
    (if uid_mappings(config) is Some { seq![EventView::CommandExited(true)] } else { Seq::empty() })
        + (if gid_mappings(config) is Some { seq![EventView::CommandExited(true)] } else { Seq::empty() })
}

/// The id-mapping commands that `config` asks for: `newuidmap`, then `newgidmap`.
pub open spec fn mapping_actions(config: RuntimeConfig, child_pid: i32) -> Seq<ActionView> {
    (match uid_mappings(config) {
        Some(maps) => seq![ActionView::RunCommand { program: NEWUIDMAP@, args: id_map_args(child_pid, maps) }],
        None => Seq::empty(),
    }) + (match gid_mappings(config) {
        Some(maps) => seq![ActionView::RunCommand { program: NEWGIDMAP@, args: id_map_args(child_pid, maps) }],
        None => Seq::empty(),
    })
}

/// The events of a handshake in which everything goes well and the init process
/// reports the process id `pid`.
pub open spec fn main_handshake_events(config: RuntimeConfig, pid: i32) -> Seq<EventView> {
    seq![EventView::Started, EventView::Received(READY_MESSAGE@)] + mapping_events(config) + seq![
        EventView::Completed,
        EventView::Received(INIT_FIELD@ + int_text(pid as int)),
        EventView::Completed,
        EventView::Received(CREATED_MESSAGE@),
        EventView::Completed,
    ]
}

/// What the main process does in that handshake, in order.
pub open spec fn main_handshake_actions(config: RuntimeConfig, child_pid: i32) -> Seq<ActionView> {
    seq![ActionView::Receive] + mapping_actions(config, child_pid) + seq![
        ActionView::Send(DONE_MESSAGE@),
        ActionView::Receive,
        ActionView::SaveState,
        ActionView::Receive,
        ActionView::SaveState,
        ActionView::Finish,
    ]
}

/// One more event: the run goes one step further.
proof fn lemma_main_run_push(
    config: RuntimeConfig,
    container: Option<ContainerView>,
    child_pid: i32,
    phase: MainPhase,
    events: Seq<EventView>,
    e: EventView,
)
    ensures
        ({
            let before = main_run(config, container, child_pid, phase, events);
            let step = main_step(config, before.1, child_pid, before.0, e);
            main_run(config, container, child_pid, phase, events.push(e)) == (
                step.0,
                step.1,
                before.2.push(step.2),
                before.3 && main_rejection(before.1, before.0, e) is None,
            )
        }),
{
    assert(events.push(e).drop_last() =~= events);
}

proof fn lemma_main_run_to_done(config: RuntimeConfig, container: ContainerView, child_pid: i32)
    requires
        config.linux is Some,
    ensures
        main_run(
            config,
            Some(container),
            child_pid,
            MainPhase::Start,
            seq![EventView::Started, EventView::Received(READY_MESSAGE@)] + mapping_events(config),
        ) == (
            MainPhase::SendingDone,
            Some(container),
            seq![ActionView::Receive] + mapping_actions(config, child_pid) + seq![ActionView::Send(DONE_MESSAGE@)],
            true,
        ),
{
    let c = Some(container);
    let empty = Seq::<EventView>::empty();
    let e0 = empty.push(EventView::Started);
    let e1 = e0.push(EventView::Received(READY_MESSAGE@));
    lemma_main_run_push(config, c, child_pid, MainPhase::Start, empty, EventView::Started);
    lemma_main_run_push(config, c, child_pid, MainPhase::Start, e0, EventView::Received(READY_MESSAGE@));
    let r1 = main_run(config, c, child_pid, MainPhase::Start, e1);
    assert(r1.2 =~= seq![ActionView::Receive].push(uid_stage(config, child_pid).1));
    let ok = EventView::CommandExited(true);
    let start = seq![EventView::Started, EventView::Received(READY_MESSAGE@)];
    assert(start =~= e1);
    match (uid_mappings(config), gid_mappings(config)) {
        (Some(um), Some(gm)) => {
            let e2 = e1.push(ok);
            let e3 = e2.push(ok);
            lemma_main_run_push(config, c, child_pid, MainPhase::Start, e1, ok);
            lemma_main_run_push(config, c, child_pid, MainPhase::Start, e2, ok);
            assert(start + mapping_events(config) =~= e3);
            assert(seq![ActionView::Receive] + mapping_actions(config, child_pid) + seq![ActionView::Send(DONE_MESSAGE@)]
                =~= main_run(config, c, child_pid, MainPhase::Start, e3).2);
        },
        (Some(um), None) => {
            let e2 = e1.push(ok);
            lemma_main_run_push(config, c, child_pid, MainPhase::Start, e1, ok);
            assert(start + mapping_events(config) =~= e2);
            assert(seq![ActionView::Receive] + mapping_actions(config, child_pid) + seq![ActionView::Send(DONE_MESSAGE@)]
                =~= main_run(config, c, child_pid, MainPhase::Start, e2).2);
        },
        (None, Some(gm)) => {
            let e2 = e1.push(ok);
            lemma_main_run_push(config, c, child_pid, MainPhase::Start, e1, ok);
            assert(start + mapping_events(config) =~= e2);
            assert(seq![ActionView::Receive] + mapping_actions(config, child_pid) + seq![ActionView::Send(DONE_MESSAGE@)]
                =~= main_run(config, c, child_pid, MainPhase::Start, e2).2);
        },
        (None, None) => {
            assert(start + mapping_events(config) =~= e1);
            assert(seq![ActionView::Receive] + mapping_actions(config, child_pid) + seq![ActionView::Send(DONE_MESSAGE@)]
                =~= r1.2);
        },
    }
}

proof fn lemma_main_run_from_done(config: RuntimeConfig, container: ContainerView, child_pid: i32, pid: i32)
    ensures
        main_run(
            config,
            Some(container),
            child_pid,
            MainPhase::SendingDone,
            seq![
                EventView::Completed,
                EventView::Received(INIT_FIELD@ + int_text(pid as int)),
                EventView::Completed,
                EventView::Received(CREATED_MESSAGE@),
                EventView::Completed,
            ],
        ) == (
            MainPhase::Finished,
            Some(ContainerView {
                state: container.state.with_pid(pid).with_status(ContainerState::Created),
                ..container
            }),
            seq![
                ActionView::Receive,
                ActionView::SaveState,
                ActionView::Receive,
                ActionView::SaveState,
                ActionView::Finish,
            ],
            true,
        ),
{
    reveal_strlit("init:");
    reveal_strlit("init: ");
    let m = INIT_FIELD@ + int_text(pid as int);
    assert(INIT_FIELD@.is_prefix_of(m)) by {
        assert(m.subrange(0, INIT_FIELD@.len() as int) =~= INIT_FIELD@);
    }
    assert(INIT_PREFIX@.is_prefix_of(m)) by {
        assert(m.subrange(0, INIT_PREFIX@.len() as int) =~= INIT_PREFIX@);
    }
    assert(m.skip(INIT_FIELD@.len() as int) =~= int_text(pid as int));
    crate::text::lemma_i32_text_round_trip(pid);
    assert(init_pid(m) == Some(pid));
    let c = Some(container);
    let p = MainPhase::SendingDone;
    let e0 = Seq::<EventView>::empty();
    let e1 = e0.push(EventView::Completed);
    let e2 = e1.push(EventView::Received(m));
    let e3 = e2.push(EventView::Completed);
    let e4 = e3.push(EventView::Received(CREATED_MESSAGE@));
    let e5 = e4.push(EventView::Completed);
    lemma_main_run_push(config, c, child_pid, p, e0, EventView::Completed);
    lemma_main_run_push(config, c, child_pid, p, e1, EventView::Received(m));
    lemma_main_run_push(config, c, child_pid, p, e2, EventView::Completed);
    lemma_main_run_push(config, c, child_pid, p, e3, EventView::Received(CREATED_MESSAGE@));
    lemma_main_run_push(config, c, child_pid, p, e4, EventView::Completed);
    let r5 = main_run(config, c, child_pid, p, e5);
    assert(r5.2 =~= seq![
        ActionView::Receive,
        ActionView::SaveState,
        ActionView::Receive,
        ActionView::SaveState,
        ActionView::Finish,
    ]);
    assert(e5 =~= seq![
        EventView::Completed,
        EventView::Received(m),
        EventView::Completed,
        EventView::Received(CREATED_MESSAGE@),
        EventView::Completed,
    ]);
}

/// The order of the main process's handshake. When everything goes well, the main
/// process first waits for `ready`. It then runs `newuidmap` and `newgidmap`, each only
/// when the configuration has such mappings and each only once the one before has
/// succeeded. Then it sends `done`, once. It waits for the init process id and saves it,
/// and only then waits for `created`, marks the container created and saves it again.
/// Every event of that run is accepted, and the container ends with the reported
/// process id and the status created.
pub proof fn lemma_main_handshake(config: RuntimeConfig, container: ContainerView, child_pid: i32, pid: i32)
    requires
        config.linux is Some,
    ensures
        main_run(config, Some(container), child_pid, MainPhase::Start, main_handshake_events(config, pid)) == (
            MainPhase::Finished,
            Some(ContainerView {
                state: container.state.with_pid(pid).with_status(ContainerState::Created),
                ..container
            }),
            main_handshake_actions(config, child_pid),
            true,
        ),
{
    let a = seq![EventView::Started, EventView::Received(READY_MESSAGE@)] + mapping_events(config);
    let b = seq![
        EventView::Completed,
        EventView::Received(INIT_FIELD@ + int_text(pid as int)),
        EventView::Completed,
        EventView::Received(CREATED_MESSAGE@),
        EventView::Completed,
    ];
    lemma_main_run_to_done(config, container, child_pid);
    lemma_main_run_from_done(config, container, child_pid, pid);
    lemma_main_run_append(config, Some(container), child_pid, MainPhase::Start, a, b);
    assert(main_handshake_events(config, pid) =~= a + b);
    assert(main_handshake_actions(config, child_pid) =~= (seq![ActionView::Receive] + mapping_actions(config, child_pid) + seq![ActionView::Send(DONE_MESSAGE@)]) + seq![
        ActionView::Receive,
        ActionView::SaveState,
        ActionView::Receive,
        ActionView::SaveState,
        ActionView::Finish,
    ]);
}

/// The intermediate process's side of the handshake run from `phase` on `events`, for
/// a configuration where applying the user and pid namespaces amounts to `user` and
/// `pid`: the phase it ends in, the actions it takes in order, and whether it accepted
/// every event.
pub open spec fn intermediate_run(
    user: Result<Option<i32>, NamespaceError>,
    pid: Result<Option<i32>, NamespaceError>,
    phase: IntermediatePhase,
    events: Seq<EventView>,
) -> (IntermediatePhase, Seq<ActionView>, bool)
    decreases events.len(),
{
    if events.len() == 0 {
        (phase, Seq::empty(), true)
    } else {
        let before = intermediate_run(user, pid, phase, events.drop_last());
        let step = intermediate_step(user, pid, before.0);
        (step.0, before.1.push(step.1), before.2 && intermediate_rejection(before.0, events.last()) is None)
    }
}

proof fn lemma_intermediate_run_push(
    user: Result<Option<i32>, NamespaceError>,
    pid: Result<Option<i32>, NamespaceError>,
    phase: IntermediatePhase,
    events: Seq<EventView>,
    e: EventView,
)
    ensures
        ({
            let before = intermediate_run(user, pid, phase, events);
            let step = intermediate_step(user, pid, before.0);
            intermediate_run(user, pid, phase, events.push(e)) == (
                step.0,
                before.1.push(step.1),
                before.2 && intermediate_rejection(before.0, e) is None,
            )
        }),
{
    assert(events.push(e).drop_last() =~= events);
}

/// One `Completed` event when `entered` holds a namespace to enter, none otherwise.
pub open spec fn completed_if_entered(entered: Option<i32>) -> Seq<EventView> {
    match entered {
        Some(_) => seq![EventView::Completed],
        None => Seq::empty(),
    }
}

/// The `unshare` of a namespace when `entered` holds one to enter, nothing otherwise.
pub open spec fn unshare_if_entered(entered: Option<i32>) -> Seq<ActionView> {
    match entered {
        Some(flags) => seq![ActionView::Unshare(flags)],
        None => Seq::empty(),
    }
}

/// The events of the intermediate process's handshake when everything goes well.
pub open spec fn intermediate_handshake_events(user: Option<i32>, pid: Option<i32>) -> Seq<EventView> {
    seq![EventView::Started] + completed_if_entered(user) + seq![
        EventView::Completed,
        EventView::Received(DONE_MESSAGE@),
        EventView::Completed,
    ] + completed_if_entered(pid) + seq![EventView::Completed]
}

/// What the intermediate process does in that handshake, in order.
pub open spec fn intermediate_handshake_actions(user: Option<i32>, pid: Option<i32>) -> Seq<ActionView> {
    unshare_if_entered(user) + seq![
        ActionView::Send(READY_MESSAGE@),
        ActionView::Receive,
        ActionView::SetIds { uid: 0, gid: 0 },
    ] + unshare_if_entered(pid) + seq![ActionView::Fork, ActionView::Finish]
}

/// The order of the intermediate process's handshake. When both namespaces can be
/// applied, it enters the user namespace (if the configuration lists one) before it
/// sends `ready`, once. It waits for `done`, and only then sets its user and group ids
/// to 0, enters the pid namespace (if listed), and forks last. Every event of that run
/// is accepted.
pub proof fn lemma_intermediate_handshake(user: Option<i32>, pid: Option<i32>)
    ensures
        intermediate_run(
            Ok(user),
            Ok(pid),
            IntermediatePhase::Start,
            intermediate_handshake_events(user, pid),
        ) == (IntermediatePhase::Finished, intermediate_handshake_actions(user, pid), true),
{
    let u = Ok::<Option<i32>, NamespaceError>(user);
    let p = Ok::<Option<i32>, NamespaceError>(pid);
    let start = IntermediatePhase::Start;
    let done = EventView::Received(DONE_MESSAGE@);
    let c = EventView::Completed;
    let mut events = Seq::<EventView>::empty();
    lemma_intermediate_run_push(u, p, start, events, EventView::Started);
    events = events.push(EventView::Started);
    if user is Some {
        lemma_intermediate_run_push(u, p, start, events, c);
        events = events.push(c);
    }
    lemma_intermediate_run_push(u, p, start, events, c);
    events = events.push(c);
    lemma_intermediate_run_push(u, p, start, events, done);
    events = events.push(done);
    lemma_intermediate_run_push(u, p, start, events, c);
    events = events.push(c);
    if pid is Some {
        lemma_intermediate_run_push(u, p, start, events, c);
        events = events.push(c);
    }
    lemma_intermediate_run_push(u, p, start, events, c);
    events = events.push(c);
    assert(events =~= intermediate_handshake_events(user, pid));
    assert(intermediate_run(u, p, start, events).1 =~= intermediate_handshake_actions(user, pid));
}


/// 1 when `entered` holds a namespace to enter, 0 otherwise.
pub open spec fn entered_count(entered: Option<i32>) -> int {
    if entered is Some {
        1
    } else {
        0
    }
}

/// The phases the intermediate process goes through in its handshake, from the start.
pub open spec fn intermediate_phases(user: Option<i32>, pid: Option<i32>) -> Seq<IntermediatePhase> {
    seq![IntermediatePhase::Start] + (if user is Some {
        seq![IntermediatePhase::EnteringUserNamespace]
    } else {
        Seq::empty()
    }) + seq![IntermediatePhase::SendingReady, IntermediatePhase::AwaitDone, IntermediatePhase::BecomingRoot]
        + (if pid is Some {
        seq![IntermediatePhase::EnteringPidNamespace]
    } else {
        Seq::empty()
    }) + seq![IntermediatePhase::Forking, IntermediatePhase::Finished]
}

/// After `k` events of the handshake, the intermediate process is in the `k`-th phase:
/// it accepts the next event of the handshake and nothing else, and its step on it is
/// the next action of the handshake.
proof fn lemma_intermediate_table(user: Option<i32>, pid: Option<i32>, k: int, e: EventView)
    requires
        0 <= k <= intermediate_handshake_events(user, pid).len(),
    ensures
        intermediate_handshake_events(user, pid).len() == 5 + entered_count(user) + entered_count(pid),
        intermediate_handshake_actions(user, pid).len() == intermediate_handshake_events(user, pid).len(),
        intermediate_phases(user, pid).len() == intermediate_handshake_events(user, pid).len() + 1,
        intermediate_rejection(intermediate_phases(user, pid)[k], e) is None <==> (k
            < intermediate_handshake_events(user, pid).len() && e == intermediate_handshake_events(user, pid)[k]),
        k < intermediate_handshake_events(user, pid).len() ==> intermediate_step(
            Ok(user),
            Ok(pid),
            intermediate_phases(user, pid)[k],
        ) == (intermediate_phases(user, pid)[k + 1], intermediate_handshake_actions(user, pid)[k]),
{
    let h = intermediate_handshake_events(user, pid);
    let a = intermediate_handshake_actions(user, pid);
    let ph = intermediate_phases(user, pid);
    let c = EventView::Completed;
    let done = EventView::Received(DONE_MESSAGE@);
    let ready = ActionView::Send(READY_MESSAGE@);
    let ids = ActionView::SetIds { uid: 0, gid: 0 };
    match (user, pid) {
        (Some(uf), Some(pf)) => {
            assert(h =~= seq![EventView::Started, c, c, done, c, c, c]);
            assert(a =~= seq![
                ActionView::Unshare(uf),
                ready,
                ActionView::Receive,
                ids,
                ActionView::Unshare(pf),
                ActionView::Fork,
                ActionView::Finish,
            ]);
            assert(ph =~= seq![
                IntermediatePhase::Start,
                IntermediatePhase::EnteringUserNamespace,
                IntermediatePhase::SendingReady,
                IntermediatePhase::AwaitDone,
                IntermediatePhase::BecomingRoot,
                IntermediatePhase::EnteringPidNamespace,
                IntermediatePhase::Forking,
                IntermediatePhase::Finished,
            ]);
        },
        (Some(uf), None) => {
            assert(h =~= seq![EventView::Started, c, c, done, c, c]);
            assert(a =~= seq![ActionView::Unshare(uf), ready, ActionView::Receive, ids, ActionView::Fork, ActionView::Finish]);
            assert(ph =~= seq![
                IntermediatePhase::Start,
                IntermediatePhase::EnteringUserNamespace,
                IntermediatePhase::SendingReady,
                IntermediatePhase::AwaitDone,
                IntermediatePhase::BecomingRoot,
                IntermediatePhase::Forking,
                IntermediatePhase::Finished,
            ]);
        },
        (None, Some(pf)) => {
            assert(h =~= seq![EventView::Started, c, done, c, c, c]);
            assert(a =~= seq![ready, ActionView::Receive, ids, ActionView::Unshare(pf), ActionView::Fork, ActionView::Finish]);
            assert(ph =~= seq![
                IntermediatePhase::Start,
                IntermediatePhase::SendingReady,
                IntermediatePhase::AwaitDone,
                IntermediatePhase::BecomingRoot,
                IntermediatePhase::EnteringPidNamespace,
                IntermediatePhase::Forking,
                IntermediatePhase::Finished,
            ]);
        },
        (None, None) => {
            assert(h =~= seq![EventView::Started, c, done, c, c]);
            assert(a =~= seq![ready, ActionView::Receive, ids, ActionView::Fork, ActionView::Finish]);
            assert(ph =~= seq![
                IntermediatePhase::Start,
                IntermediatePhase::SendingReady,
                IntermediatePhase::AwaitDone,
                IntermediatePhase::BecomingRoot,
                IntermediatePhase::Forking,
                IntermediatePhase::Finished,
            ]);
        },
    }
}


/// A run of the intermediate process from the start accepts every event exactly when
/// the events are the first ones of its handshake; it then is in the matching phase and
/// has taken the first actions of the handshake.
proof fn lemma_intermediate_runs(user: Option<i32>, pid: Option<i32>, events: Seq<EventView>)
    ensures
        ({
            let r = intermediate_run(Ok(user), Ok(pid), IntermediatePhase::Start, events);
            let h = intermediate_handshake_events(user, pid);
            &&& r.2 <==> (events.len() <= h.len() && events =~= h.take(events.len() as int))
            &&& r.2 ==> r.0 == intermediate_phases(user, pid)[events.len() as int]
            &&& r.2 ==> r.1 =~= intermediate_handshake_actions(user, pid).take(events.len() as int)
        }),
    decreases events.len(),
{
    let h = intermediate_handshake_events(user, pid);
    let a = intermediate_handshake_actions(user, pid);
    if events.len() == 0 {
        lemma_intermediate_table(user, pid, 0, EventView::Started);
    } else {
        let prev = events.drop_last();
        let e = events.last();
        let k = prev.len() as int;
        lemma_intermediate_runs(user, pid, prev);
        let before = intermediate_run(Ok(user), Ok(pid), IntermediatePhase::Start, prev);
        if before.2 {
            lemma_intermediate_table(user, pid, k, e);
            if k < h.len() {
                assert(a.take(k + 1) =~= a.take(k).push(a[k]));
                assert(h.take(k + 1) =~= h.take(k).push(h[k]));
            }
            assert(events =~= prev.push(e));
        } else {
            lemma_intermediate_table(user, pid, 0, e);
            if events.len() <= h.len() && events =~= h.take(events.len() as int) {
                assert(prev =~= h.take(k));
            }
        }
    }
}

/// The order of the intermediate process's handshake, on every sequence of events, for
/// a configuration in which both namespaces can be applied. The process accepts a
/// sequence exactly when it begins its handshake (`intermediate_handshake_events`), and
/// then takes the first actions of the handshake. So in every accepted run: it sends
/// only `ready`, once, after entering the user namespace when one is listed; it
/// receives only right after sending `ready`; it sets its user and group ids to 0 only
/// on `done`; and it forks after that and after entering the pid namespace when one is
/// listed, and then only finishes.
pub proof fn lemma_intermediate_accepted_runs(user: Option<i32>, pid: Option<i32>, events: Seq<EventView>)
    ensures
        ({
            let r = intermediate_run(Ok(user), Ok(pid), IntermediatePhase::Start, events);
            let h = intermediate_handshake_events(user, pid);
            let u = entered_count(user);
            let p = entered_count(pid);
            &&& r.2 <==> (events.len() <= h.len() && events == h.take(events.len() as int))
            &&& r.2 ==> r.1 == intermediate_handshake_actions(user, pid).take(events.len() as int)
            &&& r.2 ==> forall|i: int|
                0 <= i < events.len() && #[trigger] r.1[i] is Send ==> {
                    &&& i == u
                    &&& r.1[i] == ActionView::Send(READY_MESSAGE@)
                    &&& (user matches Some(f) ==> r.1[0] == ActionView::Unshare(f))
                }
            &&& r.2 ==> forall|i: int|
                0 <= i < events.len() && #[trigger] r.1[i] is Receive ==> i == u + 1 && r.1[u] == ActionView::Send(
                    READY_MESSAGE@,
                )
            &&& r.2 ==> forall|i: int|
                0 <= i < events.len() && #[trigger] r.1[i] is SetIds ==> {
                    &&& i == u + 2
                    &&& events[i] == EventView::Received(DONE_MESSAGE@)
                    &&& r.1[i] == ActionView::SetIds { uid: 0, gid: 0 }
                }
            &&& r.2 ==> forall|i: int|
                0 <= i < events.len() && #[trigger] r.1[i] is Fork ==> {
                    &&& i == u + 3 + p
                    &&& r.1[u + 2] == ActionView::SetIds { uid: 0, gid: 0 }
                    &&& (pid matches Some(f) ==> r.1[u + 3] == ActionView::Unshare(f))
                    &&& forall|j: int| i < j < events.len() ==> r.1[j] is Finish
                }
        }),
{
    lemma_intermediate_runs(user, pid, events);
    let r = intermediate_run(Ok(user), Ok(pid), IntermediatePhase::Start, events);
    let h = intermediate_handshake_events(user, pid);
    let a = intermediate_handshake_actions(user, pid);
    lemma_intermediate_table(user, pid, 0, EventView::Started);
    if r.2 {
        let n = events.len() as int;
        assert forall|i: int| 0 <= i < n implies r.1[i] == a[i] && events[i] == h[i] by {}
        let c = EventView::Completed;
        let done = EventView::Received(DONE_MESSAGE@);
        let ready = ActionView::Send(READY_MESSAGE@);
        let ids = ActionView::SetIds { uid: 0, gid: 0 };
        match (user, pid) {
            (Some(uf), Some(pf)) => {
                assert(h =~= seq![EventView::Started, c, c, done, c, c, c]);
                assert(a =~= seq![
                    ActionView::Unshare(uf),
                    ready,
                    ActionView::Receive,
                    ids,
                    ActionView::Unshare(pf),
                    ActionView::Fork,
                    ActionView::Finish,
                ]);
            },
            (Some(uf), None) => {
                assert(h =~= seq![EventView::Started, c, c, done, c, c]);
                assert(a =~= seq![ActionView::Unshare(uf), ready, ActionView::Receive, ids, ActionView::Fork, ActionView::Finish]);
            },
            (None, Some(pf)) => {
                assert(h =~= seq![EventView::Started, c, done, c, c, c]);
                assert(a =~= seq![ready, ActionView::Receive, ids, ActionView::Unshare(pf), ActionView::Fork, ActionView::Finish]);
            },
            (None, None) => {
                assert(h =~= seq![EventView::Started, c, done, c, c]);
                assert(a =~= seq![ready, ActionView::Receive, ids, ActionView::Fork, ActionView::Finish]);
            },
        }
    }
}


/// How many id-mapping commands `config` asks for.
pub open spec fn mapping_count(config: RuntimeConfig) -> int {
    (if uid_mappings(config) is Some {
        1int
    } else {
        0int
    }) + (if gid_mappings(config) is Some {
        1int
    } else {
        0int
    })
}

/// The phases the main process goes through in its handshake, from the start.
pub open spec fn main_phases(config: RuntimeConfig) -> Seq<MainPhase> {
    seq![MainPhase::Start, MainPhase::AwaitReady] + (if uid_mappings(config) is Some {
        seq![MainPhase::MappingUids]
    } else {
        Seq::empty()
    }) + (if gid_mappings(config) is Some {
        seq![MainPhase::MappingGids]
    } else {
        Seq::empty()
    }) + seq![
        MainPhase::SendingDone,
        MainPhase::AwaitInit,
        MainPhase::SavingPid,
        MainPhase::AwaitCreated,
        MainPhase::SavingStatus,
        MainPhase::Finished,
    ]
}

/// Whether `e` can be the event at position `k` of the main process's handshake: the
/// start, `ready`, a successful exit of each id-mapping command, then `init: <pid>` and
/// `created`, each after the completion of the action before.
pub open spec fn main_event_fits(config: RuntimeConfig, k: int, e: EventView) -> bool {
    let n = mapping_count(config);
    if k == 0 {
        e == EventView::Started
    } else if k == 1 {
        e == EventView::Received(READY_MESSAGE@)
    } else if k < 2 + n {
        e == EventView::CommandExited(true)
    } else if k == 3 + n {
        e matches EventView::Received(m) && INIT_PREFIX@.is_prefix_of(m) && init_pid(m) is Some
    } else if k == 5 + n {
        e == EventView::Received(CREATED_MESSAGE@)
    } else if k < 7 + n {
        e == EventView::Completed
    } else {
        false
    }
}

/// The main process's handshake, shaped: its actions, and the phases it goes through.
proof fn lemma_main_shape(config: RuntimeConfig, child_pid: i32)
    ensures
        ({
            let a = main_handshake_actions(config, child_pid);
            let n = mapping_count(config);
            let uid = match uid_mappings(config) {
                Some(maps) => seq![ActionView::RunCommand { program: NEWUIDMAP@, args: id_map_args(child_pid, maps) }],
                None => Seq::empty(),
            };
            let gid = match gid_mappings(config) {
                Some(maps) => seq![ActionView::RunCommand { program: NEWGIDMAP@, args: id_map_args(child_pid, maps) }],
                None => Seq::empty(),
            };
            let tail = seq![
                ActionView::Send(DONE_MESSAGE@),
                ActionView::Receive,
                ActionView::SaveState,
                ActionView::Receive,
                ActionView::SaveState,
                ActionView::Finish,
            ];
            &&& a =~= seq![ActionView::Receive] + uid + gid + tail
            &&& main_phases(config).len() == 8 + n
            &&& a.len() == 7 + n
        }),
{
}

/// After `k` events of the handshake, the main process is in the `k`-th phase: it
/// accepts exactly the events that fit position `k`, and its step on one of them is the
/// next action of the handshake.
proof fn lemma_main_table(config: RuntimeConfig, c: ContainerView, child_pid: i32, k: int, e: EventView)
    requires
        config.linux is Some,
        0 <= k <= 7 + mapping_count(config),
    ensures
        main_handshake_actions(config, child_pid).len() == 7 + mapping_count(config),
        main_phases(config).len() == 8 + mapping_count(config),
        main_rejection(Some(c), main_phases(config)[k], e) is None <==> (k < 7 + mapping_count(config)
            && main_event_fits(config, k, e)),
        k < 7 + mapping_count(config) && main_event_fits(config, k, e) ==> ({
            let st = main_step(config, Some(c), child_pid, main_phases(config)[k], e);
            &&& st.0 == main_phases(config)[k + 1]
            &&& st.1 is Some
            &&& st.2 == main_handshake_actions(config, child_pid)[k]
        }),
{
    let a = main_handshake_actions(config, child_pid);
    let ph = main_phases(config);
    let tail_actions = seq![
        ActionView::Send(DONE_MESSAGE@),
        ActionView::Receive,
        ActionView::SaveState,
        ActionView::Receive,
        ActionView::SaveState,
        ActionView::Finish,
    ];
    let tail_phases = seq![
        MainPhase::SendingDone,
        MainPhase::AwaitInit,
        MainPhase::SavingPid,
        MainPhase::AwaitCreated,
        MainPhase::SavingStatus,
        MainPhase::Finished,
    ];
    lemma_main_shape(config, child_pid);
    match (uid_mappings(config), gid_mappings(config)) {
        (Some(um), Some(gm)) => {
            let ru = ActionView::RunCommand { program: NEWUIDMAP@, args: id_map_args(child_pid, um) };
            let rg = ActionView::RunCommand { program: NEWGIDMAP@, args: id_map_args(child_pid, gm) };
            assert(a =~= seq![ActionView::Receive, ru, rg] + tail_actions);
            assert(ph =~= seq![MainPhase::Start, MainPhase::AwaitReady, MainPhase::MappingUids, MainPhase::MappingGids]
                + tail_phases);
        },
        (Some(um), None) => {
            let ru = ActionView::RunCommand { program: NEWUIDMAP@, args: id_map_args(child_pid, um) };
            assert(a =~= seq![ActionView::Receive, ru] + tail_actions);
            assert(ph =~= seq![MainPhase::Start, MainPhase::AwaitReady, MainPhase::MappingUids] + tail_phases);
        },
        (None, Some(gm)) => {
            let rg = ActionView::RunCommand { program: NEWGIDMAP@, args: id_map_args(child_pid, gm) };
            assert(a =~= seq![ActionView::Receive, rg] + tail_actions);
            assert(ph =~= seq![MainPhase::Start, MainPhase::AwaitReady, MainPhase::MappingGids] + tail_phases);
        },
        (None, None) => {
            assert(a =~= seq![ActionView::Receive] + tail_actions);
            assert(ph =~= seq![MainPhase::Start, MainPhase::AwaitReady] + tail_phases);
        },
    }
}


/// A run of the main process from the start accepts every event exactly when each
/// event fits its position in the handshake; it then is in the matching phase, still
/// has its container, and has taken the first actions of the handshake.
proof fn lemma_main_runs(config: RuntimeConfig, container: ContainerView, child_pid: i32, events: Seq<EventView>)
    requires
        config.linux is Some,
    ensures
        ({
            let r = main_run(config, Some(container), child_pid, MainPhase::Start, events);
            &&& r.3 <==> (events.len() <= 7 + mapping_count(config) && forall|i: int|
                0 <= i < events.len() ==> main_event_fits(config, i, #[trigger] events[i]))
            &&& r.3 ==> r.0 == main_phases(config)[events.len() as int]
            &&& r.3 ==> r.1 is Some
            &&& r.3 ==> r.2 =~= main_handshake_actions(config, child_pid).take(events.len() as int)
        }),
    decreases events.len(),
{
    let a = main_handshake_actions(config, child_pid);
    let n = mapping_count(config);
    if events.len() == 0 {
        lemma_main_table(config, container, child_pid, 0, EventView::Started);
    } else {
        let prev = events.drop_last();
        let e = events.last();
        let k = prev.len() as int;
        lemma_main_runs(config, container, child_pid, prev);
        let before = main_run(config, Some(container), child_pid, MainPhase::Start, prev);
        assert forall|i: int| 0 <= i < k implies events[i] == prev[i] by {}
        if before.3 {
            lemma_main_table(config, before.1->0, child_pid, k, e);
            if k < 7 + n {
                assert(a.take(k + 1) =~= a.take(k).push(a[k]));
            }
        } else {
            lemma_main_table(config, container, child_pid, 0, e);
            if events.len() <= 7 + n && forall|i: int|
                0 <= i < events.len() ==> main_event_fits(config, i, #[trigger] events[i]) {
                assert forall|i: int| 0 <= i < prev.len() implies main_event_fits(config, i, #[trigger] prev[i]) by {
                    assert(events[i] == prev[i]);
                }
            }
        }
    }
}

/// The order of the main process's handshake, on every sequence of events, for a
/// configuration with a `linux` section and a created container. The process accepts a
/// sequence exactly when each event fits its place (`main_event_fits`), and then takes
/// the first actions of the handshake. So in every accepted run: `ready` is the first
/// message, and nothing is run or sent before it; `done` is the only message sent, it is
/// sent at most once, and only after every id-mapping command that the configuration
/// asks for has run and exited successfully; every later message (the init process id,
/// then `created`) is received only after `done` was sent, and `created` only after the
/// init process id was saved.
pub proof fn lemma_main_accepted_runs(
    config: RuntimeConfig,
    container: ContainerView,
    child_pid: i32,
    events: Seq<EventView>,
)
    requires
        config.linux is Some,
    ensures
        ({
            let r = main_run(config, Some(container), child_pid, MainPhase::Start, events);
            let n = mapping_count(config);
            &&& r.3 <==> (events.len() <= 7 + n && forall|i: int|
                0 <= i < events.len() ==> main_event_fits(config, i, #[trigger] events[i]))
            &&& r.3 ==> r.2 == main_handshake_actions(config, child_pid).take(events.len() as int)
            &&& r.3 && events.len() >= 2 ==> events[0] == EventView::Started && events[1] == EventView::Received(
                READY_MESSAGE@,
            )
            &&& r.3 ==> forall|i: int|
                0 <= i < events.len() && (#[trigger] r.2[i] is RunCommand || r.2[i] is Send) ==> i >= 1
            &&& r.3 ==> forall|i: int|
                0 <= i < events.len() && #[trigger] r.2[i] is Send ==> {
                    &&& i == 1 + n
                    &&& r.2[i] == ActionView::Send(DONE_MESSAGE@)
                    &&& r.2.subrange(1, i) == mapping_actions(config, child_pid)
                    &&& forall|j: int| 2 <= j <= i ==> events[j] == EventView::CommandExited(true)
                }
            &&& r.3 ==> forall|i: int|
                2 <= i < events.len() && #[trigger] events[i] is Received ==> i >= 3 + n && r.2[1 + n]
                    == ActionView::Send(DONE_MESSAGE@)
            &&& r.3 ==> forall|i: int|
                3 + n < i < events.len() && #[trigger] events[i] is Received ==> i == 5 + n && r.2[3 + n]
                    == ActionView::SaveState
        }),
{
    lemma_main_runs(config, container, child_pid, events);
    let r = main_run(config, Some(container), child_pid, MainPhase::Start, events);
    let a = main_handshake_actions(config, child_pid);
    let n = mapping_count(config);
    lemma_main_shape(config, child_pid);
    if r.3 {
        let len = events.len() as int;
        assert forall|i: int| 0 <= i < len implies r.2[i] == a[i] by {}
        let tail = seq![
            ActionView::Send(DONE_MESSAGE@),
            ActionView::Receive,
            ActionView::SaveState,
            ActionView::Receive,
            ActionView::SaveState,
            ActionView::Finish,
        ];
        match (uid_mappings(config), gid_mappings(config)) {
            (Some(um), Some(gm)) => {
                let ru = ActionView::RunCommand { program: NEWUIDMAP@, args: id_map_args(child_pid, um) };
                let rg = ActionView::RunCommand { program: NEWGIDMAP@, args: id_map_args(child_pid, gm) };
                assert(a =~= seq![ActionView::Receive, ru, rg] + tail);
                assert(mapping_actions(config, child_pid) =~= seq![ru, rg]);
            },
            (Some(um), None) => {
                let ru = ActionView::RunCommand { program: NEWUIDMAP@, args: id_map_args(child_pid, um) };
                assert(a =~= seq![ActionView::Receive, ru] + tail);
                assert(mapping_actions(config, child_pid) =~= seq![ru]);
            },
            (None, Some(gm)) => {
                let rg = ActionView::RunCommand { program: NEWGIDMAP@, args: id_map_args(child_pid, gm) };
                assert(a =~= seq![ActionView::Receive, rg] + tail);
                assert(mapping_actions(config, child_pid) =~= seq![rg]);
            },
            (None, None) => {
                assert(a =~= seq![ActionView::Receive] + tail);
                assert(mapping_actions(config, child_pid) =~= Seq::<ActionView>::empty());
            },
        }
        assert forall|i: int| 0 <= i < len && #[trigger] r.2[i] is Send implies r.2.subrange(1, i) == mapping_actions(
            config,
            child_pid,
        ) by {
            assert(r.2.subrange(1, i) =~= a.subrange(1, i));
        }
        assert forall|i: int| 0 <= i < len implies main_event_fits(config, i, #[trigger] events[i]) by {}
    }
}


/// The init process's filter passes every entry but those of the user and pid kinds.
pub proof fn lemma_init_picks(ns: Seq<NamespaceView>)
    ensures
        init_picks(ns).len() == ns.len(),
        forall|i: int|
            0 <= i < ns.len() ==> (#[trigger] init_picks(ns)[i] <==> (ns[i].typ != NamespaceType::User && ns[i].typ
                != NamespaceType::Pid)),
{
}

proof fn lemma_init_plan_prefix(ns: Seq<NamespaceView>, k: int)
    requires
        0 <= k <= ns.len(),
        forall|i: int|
            0 <= i < ns.len() ==> {
                &&& (#[trigger] ns[i]).path is None
                &&& ns[i].typ != NamespaceType::Cgroup
                &&& ns[i].typ != NamespaceType::Network
                &&& ns[i].typ != NamespaceType::Time
            },
    ensures
        namespaces_plan(ns, init_picks(ns).take(k)) == (
            ns.take(k).filter(|n: NamespaceView| n.typ != NamespaceType::User && n.typ != NamespaceType::Pid).map_values(
                |n: NamespaceView|
                    if n.typ == NamespaceType::Ipc {
                        0x08000000i32
                    } else if n.typ == NamespaceType::Uts {
                        0x04000000i32
                    } else {
                        0x00020000i32
                    },
            ),
            None::<NamespaceError>,
        ),
    decreases k,
{
    reveal(Seq::filter);
    let picks = init_picks(ns);
    if k == 0 {
        assert(picks.take(0) =~= Seq::<bool>::empty());
        assert(ns.take(0) =~= Seq::<NamespaceView>::empty());
    } else {
        lemma_init_plan_prefix(ns, k - 1);
        lemma_plan_step_law(ns, picks.take(k - 1), picks[k - 1]);
        assert(picks.take(k - 1).push(picks[k - 1]) =~= picks.take(k));
        assert(ns.take(k).drop_last() =~= ns.take(k - 1));
        let t = ns[k - 1].typ;
        if t != NamespaceType::User && t != NamespaceType::Pid {
            lemma_first_of_type(ns, t);
            let f = first_of_type(ns, t)->0;
            lemma_namespace_action_first_entry(ns, t, f);
        }
    }
}

/// When every entry asks for a new namespace of a kind that can be created, the init
/// process enters, in order, every entry that is neither a user nor a pid namespace,
/// each with its own flag (ipc 0x08000000, uts 0x04000000, mount 0x00020000), and
/// nothing stops it.
pub proof fn lemma_init_enters_every_other_namespace(ns: Seq<NamespaceView>)
    requires
        forall|i: int|
            0 <= i < ns.len() ==> {
                &&& (#[trigger] ns[i]).path is None
                &&& ns[i].typ != NamespaceType::Cgroup
                &&& ns[i].typ != NamespaceType::Network
                &&& ns[i].typ != NamespaceType::Time
            },
    ensures
        namespaces_plan(ns, init_picks(ns)) == (
            ns.filter(|n: NamespaceView| n.typ != NamespaceType::User && n.typ != NamespaceType::Pid).map_values(
                |n: NamespaceView|
                    if n.typ == NamespaceType::Ipc {
                        0x08000000i32
                    } else if n.typ == NamespaceType::Uts {
                        0x04000000i32
                    } else {
                        0x00020000i32
                    },
            ),
            None::<NamespaceError>,
        ),
{
    lemma_init_plan_prefix(ns, ns.len() as int);
    assert(init_picks(ns).take(ns.len() as int) =~= init_picks(ns));
    assert(ns.take(ns.len() as int) =~= ns);
}

/// The arguments that describe the ranges `maps`: three per range, container id, host
/// id and size, in decimal, in the order of the ranges.
pub proof fn lemma_mapping_args_ranges(maps: Seq<IdMapping>)
    ensures
        mapping_args(maps).len() == 3 * maps.len(),
        forall|j: int|
            0 <= j < maps.len() ==> {
                &&& mapping_args(maps)[3 * j] == int_text((#[trigger] maps[j]).container_id as int)
                &&& mapping_args(maps)[3 * j + 1] == int_text(maps[j].host_id as int)
                &&& mapping_args(maps)[3 * j + 2] == int_text(maps[j].size as int)
            },
    decreases maps.len(),
{
    if maps.len() > 0 {
        lemma_mapping_args_ranges(maps.drop_last());
        assert forall|j: int| 0 <= j < maps.len() - 1 implies maps.drop_last()[j] == maps[j] by {}
    }
}

/// Whether `args` are the arguments that map the ranges `v` for the process `pid`: the
/// process id, then container id, host id and size of every range, in order, in decimal.
pub open spec fn maps_every_range(args: Seq<Seq<char>>, pid: i32, v: Seq<IdMapping>) -> bool {
    &&& args.len() == 1 + 3 * v.len()
    &&& args[0] == int_text(pid as int)
    &&& forall|j: int|
        0 <= j < v.len() ==> {
            &&& args[1 + 3 * j] == int_text((#[trigger] v[j]).container_id as int)
            &&& args[2 + 3 * j] == int_text(v[j].host_id as int)
            &&& args[3 + 3 * j] == int_text(v[j].size as int)
        }
}

/// Whether `action` runs `program` with the arguments that map every range of `v` for
/// the process `pid`.
pub open spec fn runs_mapping(action: ActionView, program: Seq<char>, pid: i32, v: Seq<IdMapping>) -> bool {
    action matches ActionView::RunCommand { program: p, args } && p == program && maps_every_range(args, pid, v)
}

proof fn lemma_id_map_args_map_every_range(pid: i32, maps: Seq<IdMapping>)
    ensures
        maps_every_range(id_map_args(pid, maps), pid, maps),
{
    lemma_mapping_args_ranges(maps);
    let a = id_map_args(pid, maps);
    assert forall|j: int| 0 <= j < maps.len() implies {
        &&& a[1 + 3 * j] == int_text((#[trigger] maps[j]).container_id as int)
        &&& a[2 + 3 * j] == int_text(maps[j].host_id as int)
        &&& a[3 + 3 * j] == int_text(maps[j].size as int)
    } by {
        assert(a[1 + 3 * j] == mapping_args(maps)[3 * j]);
        assert(a[2 + 3 * j] == mapping_args(maps)[3 * j + 1]);
        assert(a[3 + 3 * j] == mapping_args(maps)[3 * j + 2]);
    }
}

/// The id-mapping commands of the main process map every configured range. Once the
/// intermediate process is ready, a configuration with uid mappings has `newuidmap` run
/// for the intermediate process with every uid range of the configuration; the gid
/// mappings are written next (right away when there are no uid mappings) by `newgidmap`
/// with every gid range.
pub proof fn lemma_mapping_commands_map_every_range(
    config: RuntimeConfig,
    container: Option<ContainerView>,
    child_pid: i32,
)
    requires
        config.linux is Some,
    ensures
        ({
            let l = config.linux->0;
            let ready = main_step(config, container, child_pid, MainPhase::AwaitReady, EventView::Received(READY_MESSAGE@));
            let after_uids = main_step(config, container, child_pid, MainPhase::MappingUids, EventView::CommandExited(true));
            &&& l.uid_mappings matches Some(v) ==> ready.0 == MainPhase::MappingUids && runs_mapping(
                ready.2,
                NEWUIDMAP@,
                child_pid,
                v@,
            )
            &&& (l.uid_mappings is None && l.gid_mappings is Some) ==> ready.0 == MainPhase::MappingGids
                && runs_mapping(ready.2, NEWGIDMAP@, child_pid, l.gid_mappings->0@)
            &&& l.gid_mappings matches Some(v) ==> after_uids.0 == MainPhase::MappingGids && runs_mapping(
                after_uids.2,
                NEWGIDMAP@,
                child_pid,
                v@,
            )
        }),
{
    let l = config.linux->0;
    if let Some(v) = l.uid_mappings {
        lemma_id_map_args_map_every_range(child_pid, v@);
    }
    if let Some(v) = l.gid_mappings {
        lemma_id_map_args_map_every_range(child_pid, v@);
    }
}

} // verus!
