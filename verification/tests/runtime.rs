use nix::sched::CloneFlags as F;
use libcontainer::builder::{ContainerBuilder, IntermediatePhase, MainPhase};
use libcontainer::config::{IdMapping, LinuxConfig, ProcessConfig, RuntimeConfig};
use libcontainer::container::Container;
use libcontainer::mount::MountEntry;
use libcontainer::namespaces::{get_clone_flag, Namespace, NamespaceError, NamespaceType, Namespaces};
use libcontainer::protocol::{Action, Event, ProtocolError};
use libcontainer::state::{ContainerState, State};
use libcontainer::uts::setup_uts;
use libcontainer::{BASE_PATH, CONTAINER_PATH};

fn ns(typ: NamespaceType) -> Namespace {
    Namespace { typ, path: None }
}

fn strings(v: &[&str]) -> Vec<String> {
    v.iter().map(|s| s.to_string()).collect()
}

#[test]
fn clone_flags_match_nix() {
    assert_eq!(get_clone_flag(&NamespaceType::User), Ok(F::CLONE_NEWUSER.bits()));
    assert_eq!(get_clone_flag(&NamespaceType::Pid), Ok(F::CLONE_NEWPID.bits()));
    assert_eq!(get_clone_flag(&NamespaceType::Uts), Ok(F::CLONE_NEWUTS.bits()));
    assert_eq!(get_clone_flag(&NamespaceType::Ipc), Ok(F::CLONE_NEWIPC.bits()));
    assert_eq!(get_clone_flag(&NamespaceType::Network), Ok(F::CLONE_NEWNET.bits()));
    assert_eq!(get_clone_flag(&NamespaceType::Cgroup), Ok(F::CLONE_NEWCGROUP.bits()));
    assert_eq!(get_clone_flag(&NamespaceType::Mount), Ok(F::CLONE_NEWNS.bits()));
    assert_eq!(get_clone_flag(&NamespaceType::Time), Err(NamespaceError::TimeNotSupported));
    assert_eq!(NamespaceError::TimeNotSupported.message(), "Time namespace is not supported");
}

#[test]
fn namespaces_lookup() {
    let list = vec![
        ns(NamespaceType::Pid),
        Namespace { typ: NamespaceType::Network, path: Some("/proc/1/ns/net".to_string()) },
        ns(NamespaceType::Network),
    ];
    let namespaces = Namespaces::try_from(Some(&list)).unwrap();
    assert_eq!(namespaces.iter().count(), 3);
    assert!(namespaces.contains(&NamespaceType::Pid));
    assert!(!namespaces.contains(&NamespaceType::User));
    let first_net = namespaces.get(&NamespaceType::Network).unwrap();
    assert_eq!(first_net.path.as_deref(), Some("/proc/1/ns/net"));
    assert!(namespaces.get(&NamespaceType::Ipc).is_none());
    let empty = Namespaces::try_from(None).unwrap();
    assert_eq!(empty.iter().count(), 0);
}

#[test]
fn apply_namespace_outcomes() {
    let list = vec![
        ns(NamespaceType::Pid),
        Namespace { typ: NamespaceType::Ipc, path: Some("/proc/1/ns/ipc".to_string()) },
        ns(NamespaceType::Network),
        ns(NamespaceType::Cgroup),
        ns(NamespaceType::Time),
        ns(NamespaceType::Uts),
    ];
    let namespaces = Namespaces::try_from(Some(&list)).unwrap();
    assert_eq!(namespaces.apply_namespace(&NamespaceType::User), Ok(None));
    assert_eq!(namespaces.apply_namespace(&NamespaceType::Pid), Ok(Some(0x20000000)));
    assert_eq!(namespaces.apply_namespace(&NamespaceType::Uts), Ok(Some(0x04000000)));
    assert_eq!(namespaces.apply_namespace(&NamespaceType::Ipc), Err(NamespaceError::SetnsNotImplemented));
    assert_eq!(namespaces.apply_namespace(&NamespaceType::Network), Err(NamespaceError::UnshareNotImplemented));
    assert_eq!(namespaces.apply_namespace(&NamespaceType::Cgroup), Err(NamespaceError::UnshareNotImplemented));
    assert_eq!(namespaces.apply_namespace(&NamespaceType::Time), Err(NamespaceError::TimeNotSupported));
}

#[test]
fn apply_namespaces_stops_at_first_error() {
    let list = vec![ns(NamespaceType::Uts), ns(NamespaceType::User), ns(NamespaceType::Network), ns(NamespaceType::Mount)];
    let namespaces = Namespaces::try_from(Some(&list)).unwrap();
    let plan = namespaces.apply_namespaces(|t| *t != NamespaceType::User);
    assert_eq!(plan.unshare, vec![0x04000000]);
    assert_eq!(plan.error, Some(NamespaceError::UnshareNotImplemented));

    let plan = namespaces.apply_namespaces(|t| *t != NamespaceType::Network);
    assert_eq!(plan.unshare, vec![0x04000000, 0x10000000, 0x00020000]);
    assert_eq!(plan.error, None);
}

#[test]
fn state_and_container() {
    let state = State::new("abc", "/srv/bundle");
    assert_eq!(state.version, "1.0.0");
    assert_eq!(state.id, "abc");
    assert_eq!(state.status, ContainerState::Creating);
    assert_eq!(state.pid, None);
    assert_eq!(state.bundle, "/srv/bundle");
    assert!(state.annotations.is_none());

    let mut container = Container::new("abc", "/srv/bundle");
    assert_eq!(container.root, format!("{}/{}/abc", BASE_PATH, CONTAINER_PATH));
    assert_eq!(container.state_file(), format!("{}/{}/abc/state.json", BASE_PATH, CONTAINER_PATH));
    container.set_pid(4242);
    container.update_status(ContainerState::Created);
    assert_eq!(container.state.pid, Some(4242));
    assert_eq!(container.state.status, ContainerState::Created);
    assert_eq!(container.state.id, "abc");
}

fn config(linux: Option<LinuxConfig>) -> RuntimeConfig {
    RuntimeConfig {
        hostname: Some("box".to_string()),
        domainname: None,
        root: Some("rootfs".to_string()),
        mounts: Some(vec![MountEntry {
            destination: "/proc".to_string(),
            typ: Some("proc".to_string()),
            source: Some("proc".to_string()),
            options: None,
        }]),
        process: Some(ProcessConfig {
            args: Some(strings(&["sh", "-c", "echo hi"])),
            env: Some(strings(&["PATH=/bin", "JUNK", "TERM=xterm"])),
            cwd: "/".to_string(),
            uid: 1000,
            gid: 100,
        }),
        linux,
    }
}

fn linux() -> LinuxConfig {
    LinuxConfig {
        namespaces: Some(vec![ns(NamespaceType::User), ns(NamespaceType::Pid), ns(NamespaceType::Uts), ns(NamespaceType::Mount)]),
        uid_mappings: Some(vec![IdMapping { container_id: 0, host_id: 1000, size: 1 }]),
        gid_mappings: Some(vec![
            IdMapping { container_id: 0, host_id: 100, size: 1 },
            IdMapping { container_id: 1, host_id: 100000, size: 65536 },
        ]),
    }
}

#[test]
fn builder_create_and_init_plan() {
    assert_eq!(ContainerBuilder::config_path("/srv/bundle"), "/srv/bundle/config.json");
    let mut builder = ContainerBuilder::new("/srv/bundle", config(Some(linux())));
    assert!(builder.container().is_none());
    assert!(!builder.init_ready());

    let socket = builder.create(Container::new("c1", "/srv/bundle"));
    assert_eq!(socket, format!("{}/{}/c1/notify.sock", BASE_PATH, CONTAINER_PATH));
    assert!(builder.container().is_some());
    assert!(builder.init_ready());

    let namespaces = builder.init_namespaces();
    assert_eq!(namespaces.unshare, vec![0x04000000, 0x00020000]);
    assert_eq!(namespaces.error, None);
    let plan = builder.init_process();
    assert_eq!(plan.uts.hostname.as_deref(), Some("box"));
    assert_eq!(plan.uts.domainname, None);
    assert!(plan.mounter.entries_valid());
    let rootfs = plan.mounter.setup_rootfs();
    assert_eq!(rootfs.copy_from, "/srv/bundle/rootfs");
    assert_eq!(rootfs.copy_to, format!("{}/{}/c1/rootfs", BASE_PATH, CONTAINER_PATH));
    assert_eq!(rootfs.mounts.len(), 1);
    assert_eq!(rootfs.mounts[0].target, format!("{}/{}/c1/rootfs/proc", BASE_PATH, CONTAINER_PATH));
    let launch = plan.process.unwrap();
    assert_eq!((launch.uid, launch.gid), (1000, 100));
    assert_eq!(launch.command, ("sh".to_string(), strings(&["-c", "echo hi"])));
    assert_eq!(
        launch.envs,
        vec![("PATH".to_string(), "/bin".to_string()), ("TERM".to_string(), "xterm".to_string())]
    );
    assert_eq!(launch.cwd, "/");
}

#[test]
fn init_plan_without_process_or_args() {
    let mut cfg = config(None);
    cfg.process = None;
    let mut builder = ContainerBuilder::new("/b", cfg);
    builder.create(Container::new("c2", "/b"));
    assert!(builder.init_ready());
    let plan = builder.init_process();
    assert!(plan.process.is_none());
    assert!(builder.init_namespaces().unshare.is_empty());

    let mut cfg = config(None);
    cfg.process.as_mut().unwrap().args = Some(vec!["true".to_string()]);
    cfg.process.as_mut().unwrap().env = None;
    let mut builder = ContainerBuilder::new("/b", cfg);
    builder.create(Container::new("c3", "/b"));
    let launch = builder.init_process().process.unwrap();
    assert_eq!(launch.command, ("true".to_string(), Vec::new()));
    assert!(launch.envs.is_empty());
}

#[test]
fn init_namespaces_needs_no_root_mounts_or_container() {
    let mut l = linux();
    l.namespaces = Some(vec![ns(NamespaceType::User), ns(NamespaceType::Uts), ns(NamespaceType::Network), ns(NamespaceType::Ipc)]);
    let mut cfg = config(Some(l));
    cfg.root = None;
    cfg.mounts = None;
    let builder = ContainerBuilder::new("/b", cfg);
    assert!(!builder.init_ready());
    let plan = builder.init_namespaces();
    assert_eq!(plan.unshare, vec![0x04000000]);
    assert_eq!(plan.error, Some(NamespaceError::UnshareNotImplemented));
}

#[test]
fn init_ready_refuses_what_init_cannot_set_up() {
    let ready = |cfg: RuntimeConfig| {
        let mut builder = ContainerBuilder::new("/b", cfg);
        builder.create(Container::new("c4", "/b"));
        builder.init_ready()
    };
    let mut cfg = config(None);
    cfg.process.as_mut().unwrap().args = Some(Vec::new());
    assert!(!ready(cfg));
    let mut cfg = config(None);
    cfg.process.as_mut().unwrap().args = None;
    assert!(!ready(cfg));
    let mut cfg = config(None);
    cfg.root = None;
    assert!(!ready(cfg));
    let mut cfg = config(None);
    cfg.mounts = None;
    assert!(!ready(cfg));
    assert!(ready(config(None)));
}

#[test]
fn setup_uts_copies_the_names() {
    let mut cfg = config(None);
    cfg.domainname = Some("example.org".to_string());
    let plan = setup_uts(&cfg);
    assert_eq!(plan.hostname.as_deref(), Some("box"));
    assert_eq!(plan.domainname.as_deref(), Some("example.org"));
}

fn send_text(action: &Action) -> Option<String> {
    match action {
        Action::Send(m) => Some(m.clone()),
        _ => None,
    }
}

#[test]
fn main_process_happy_path() {
    let mut builder = ContainerBuilder::new("/srv/bundle", config(Some(linux())));
    builder.create(Container::new("c1", "/srv/bundle"));
    let (p, a) = builder.main_process(MainPhase::Start, 77, Event::Started);
    assert_eq!(p, MainPhase::AwaitReady);
    assert!(matches!(a, Action::Receive));
    let (p, a) = builder.main_process(p, 77, Event::Received("ready".to_string()));
    assert_eq!(p, MainPhase::MappingUids);
    match a {
        Action::RunCommand { program, args } => {
            assert_eq!(program, "newuidmap");
            assert_eq!(args, strings(&["77", "0", "1000", "1"]));
        }
        _ => panic!("expected newuidmap"),
    }
    let (p, a) = builder.main_process(p, 77, Event::CommandExited(true));
    assert_eq!(p, MainPhase::MappingGids);
    match a {
        Action::RunCommand { program, args } => {
            assert_eq!(program, "newgidmap");
            assert_eq!(args, strings(&["77", "0", "100", "1", "1", "100000", "65536"]));
        }
        _ => panic!("expected newgidmap"),
    }
    let (p, a) = builder.main_process(p, 77, Event::CommandExited(true));
    assert_eq!(p, MainPhase::SendingDone);
    assert_eq!(send_text(&a).as_deref(), Some("done"));
    let (p, a) = builder.main_process(p, 77, Event::Completed);
    assert_eq!(p, MainPhase::AwaitInit);
    assert!(matches!(a, Action::Receive));
    let (p, a) = builder.main_process(p, 77, Event::Received("init: 4321".to_string()));
    assert_eq!(p, MainPhase::SavingPid);
    assert!(matches!(a, Action::SaveState));
    assert_eq!(builder.container().unwrap().state.pid, Some(4321));
    let (p, a) = builder.main_process(p, 77, Event::Completed);
    assert_eq!(p, MainPhase::AwaitCreated);
    assert!(matches!(a, Action::Receive));
    let (p, a) = builder.main_process(p, 77, Event::Received("created".to_string()));
    assert_eq!(p, MainPhase::SavingStatus);
    assert!(matches!(a, Action::SaveState));
    assert_eq!(builder.container().unwrap().state.status, ContainerState::Created);
    let (p, a) = builder.main_process(p, 77, Event::Completed);
    assert_eq!(p, MainPhase::Finished);
    assert!(matches!(a, Action::Finish));
    let container = builder.container().unwrap();
    assert_eq!(container.root, format!("{}/{}/c1", BASE_PATH, CONTAINER_PATH));
    assert_eq!(container.state.id, "c1");
    assert_eq!(container.state.bundle, "/srv/bundle");
    assert_eq!(container.state.version, "1.0.0");
    assert_eq!(builder.bundle_path(), "/srv/bundle");
}

#[test]
fn main_process_failures() {
    let builder = ContainerBuilder::new("/b", config(Some(linux())));
    match builder.check_main_event(MainPhase::AwaitReady, &Event::Received("hello".to_string())) {
        Some(ProtocolError::UnexpectedMessage { expected, received }) => {
            assert_eq!(expected, "ready");
            assert_eq!(received, "hello");
        }
        _ => panic!("expected a protocol error"),
    }
    assert!(builder.check_main_event(MainPhase::AwaitReady, &Event::Received("ready".to_string())).is_none());
    assert!(matches!(
        builder.check_main_event(MainPhase::MappingUids, &Event::CommandExited(false)),
        Some(ProtocolError::UidMappingFailed)
    ));
    assert!(builder.check_main_event(MainPhase::MappingUids, &Event::CommandExited(true)).is_none());
    assert!(matches!(
        builder.check_main_event(MainPhase::MappingGids, &Event::CommandExited(false)),
        Some(ProtocolError::GidMappingFailed)
    ));
    match builder.check_main_event(MainPhase::AwaitInit, &Event::Received("hello".to_string())) {
        Some(ProtocolError::UnexpectedMessage { expected, received }) => {
            assert_eq!(expected, "init:");
            assert_eq!(received, "hello");
        }
        _ => panic!("expected a protocol error"),
    }
    assert!(matches!(
        builder.check_main_event(MainPhase::AwaitInit, &Event::Received("init:12".to_string())),
        Some(ProtocolError::MalformedInit(_))
    ));
    assert!(matches!(
        builder.check_main_event(MainPhase::AwaitInit, &Event::Received("init: x".to_string())),
        Some(ProtocolError::MalformedInit(_))
    ));
    assert!(matches!(
        builder.check_main_event(MainPhase::AwaitInit, &Event::Received("init: 12".to_string())),
        Some(ProtocolError::MissingContainer)
    ));
    assert!(matches!(
        builder.check_main_event(MainPhase::AwaitCreated, &Event::Received("created".to_string())),
        Some(ProtocolError::MissingContainer)
    ));
    assert!(matches!(
        builder.check_main_event(MainPhase::AwaitCreated, &Event::Received("nope".to_string())),
        Some(ProtocolError::UnexpectedMessage { .. })
    ));
    assert!(matches!(
        builder.check_main_event(MainPhase::Start, &Event::Completed),
        Some(ProtocolError::UnexpectedEvent)
    ));
    assert!(matches!(
        builder.check_main_event(MainPhase::Finished, &Event::Completed),
        Some(ProtocolError::UnexpectedEvent)
    ));
}

#[test]
fn main_process_parses_signed_and_padded_pids() {
    for (message, pid) in [("init: 007", 7), ("init: +5", 5), ("init: -3", -3)] {
        let mut builder = ContainerBuilder::new("/b", config(Some(linux())));
        builder.create(Container::new("c5", "/b"));
        let event = Event::Received(message.to_string());
        assert!(builder.check_main_event(MainPhase::AwaitInit, &event).is_none());
        let (p, a) = builder.main_process(MainPhase::AwaitInit, 1, event);
        assert_eq!(p, MainPhase::SavingPid);
        assert!(matches!(a, Action::SaveState));
        assert_eq!(builder.container().unwrap().state.pid, Some(pid));
    }
}

#[test]
fn main_process_without_linux_section_finishes_when_ready() {
    let mut builder = ContainerBuilder::new("/b", config(None));
    let (p, a) = builder.main_process(MainPhase::AwaitReady, 1, Event::Received("ready".to_string()));
    assert_eq!(p, MainPhase::Finished);
    assert!(matches!(a, Action::Finish));
}

#[test]
fn main_process_without_mappings_sends_done() {
    let mut l = linux();
    l.uid_mappings = None;
    l.gid_mappings = None;
    let mut builder = ContainerBuilder::new("/b", config(Some(l)));
    let (p, a) = builder.main_process(MainPhase::AwaitReady, 1, Event::Received("ready".to_string()));
    assert_eq!(p, MainPhase::SendingDone);
    assert_eq!(send_text(&a).as_deref(), Some("done"));
}

#[test]
fn intermediate_process_path() {
    let builder = ContainerBuilder::new("/b", config(Some(linux())));
    let (p, a) = builder.intermediate_process(IntermediatePhase::Start, Event::Started);
    assert_eq!(p, IntermediatePhase::EnteringUserNamespace);
    assert!(matches!(a, Action::Unshare(0x10000000)));
    let (p, a) = builder.intermediate_process(p, Event::Completed);
    assert_eq!(p, IntermediatePhase::SendingReady);
    assert_eq!(send_text(&a).as_deref(), Some("ready"));
    let (p, a) = builder.intermediate_process(p, Event::Completed);
    assert_eq!(p, IntermediatePhase::AwaitDone);
    assert!(matches!(a, Action::Receive));
    match ContainerBuilder::check_intermediate_event(p, &Event::Received("nope".to_string())) {
        Some(ProtocolError::UnexpectedMessage { expected, received }) => {
            assert_eq!(expected, "done");
            assert_eq!(received, "nope");
        }
        _ => panic!("expected a protocol error"),
    }
    assert!(ContainerBuilder::check_intermediate_event(p, &Event::Received("done".to_string())).is_none());
    assert!(matches!(
        ContainerBuilder::check_intermediate_event(p, &Event::Completed),
        Some(ProtocolError::UnexpectedEvent)
    ));
    let (p, a) = builder.intermediate_process(p, Event::Received("done".to_string()));
    assert_eq!(p, IntermediatePhase::BecomingRoot);
    assert!(matches!(a, Action::SetIds { uid: 0, gid: 0 }));
    let (p, a) = builder.intermediate_process(p, Event::Completed);
    assert_eq!(p, IntermediatePhase::EnteringPidNamespace);
    assert!(matches!(a, Action::Unshare(0x20000000)));
    let (p, a) = builder.intermediate_process(p, Event::Completed);
    assert_eq!(p, IntermediatePhase::Forking);
    assert!(matches!(a, Action::Fork));
    let (p, a) = builder.intermediate_process(p, Event::Completed);
    assert_eq!(p, IntermediatePhase::Finished);
    assert!(matches!(a, Action::Finish));
}

#[test]
fn intermediate_process_without_namespaces() {
    let builder = ContainerBuilder::new("/b", config(None));
    let (p, a) = builder.intermediate_process(IntermediatePhase::Start, Event::Started);
    assert_eq!(p, IntermediatePhase::SendingReady);
    assert_eq!(send_text(&a).as_deref(), Some("ready"));
    let (p, a) = builder.intermediate_process(IntermediatePhase::BecomingRoot, Event::Completed);
    assert_eq!(p, IntermediatePhase::Forking);
    assert!(matches!(a, Action::Fork));
    let mut l = linux();
    l.namespaces = Some(vec![Namespace { typ: NamespaceType::User, path: Some("/proc/1/ns/user".to_string()) }]);
    let builder = ContainerBuilder::new("/b", config(Some(l)));
    let (p, a) = builder.intermediate_process(IntermediatePhase::Start, Event::Started);
    assert_eq!(p, IntermediatePhase::Finished);
    assert!(matches!(a, Action::Fail(NamespaceError::SetnsNotImplemented)));
}

#[test]
fn pid_text_round_trip() {
    for pid in [0, 1, 99, 4194304, i32::MAX, -1, i32::MIN] {
        let message = format!("init: {}", libcontainer::text::i32_text(pid));
        assert_eq!(libcontainer::text::strip_prefix(&message, "init: ").and_then(|r| libcontainer::text::parse_i32(&r)), Some(pid));
    }
}
