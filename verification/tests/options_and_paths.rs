use nix::mount::MsFlags as F;
use libcontainer::mount::{perse_options, Mounter, MountEntry, MountStep, MountAction};
use libcontainer::paths::path_join;
use libcontainer::text::{i32_text, parse_env, parse_i32, split_env_entry, starts_with, strip_prefix, text_eq, u32_text};

fn strings(v: &[&str]) -> Vec<String> {
    v.iter().map(|s| s.to_string()).collect()
}

#[test]
fn perse_options_splits_flags_and_data() {
    let (flags, data) = perse_options(&strings(&["bind", "ro", "mode=755", "size=65536k"]));
    assert_eq!(flags, nix::mount::MsFlags::MS_BIND.bits() | nix::mount::MsFlags::MS_RDONLY.bits());
    assert_eq!(flags, 0x1001);
    assert_eq!(data, "mode=755,size=65536k");
}

#[test]
fn perse_options_recursive_variants_add_rec() {
    let (flags, data) = perse_options(&strings(&["rbind", "rprivate"]));
    assert_eq!(flags, 0x1000 | 0x4000 | 0x40000);
    assert_eq!(data, "");
}

#[test]
fn perse_options_uses_the_oci_option_names() {
    let (flags, data) = perse_options(&strings(&["unbindable", "rstrictatime"]));
    assert_eq!(flags, (F::MS_UNBINDABLE | F::MS_STRICTATIME | F::MS_REC).bits());
    assert_eq!(data, "");
    // Misspelt names are no options the runtime knows: they go to the data string.
    let (flags, data) = perse_options(&strings(&["unbundable", "rstictatime", "ro"]));
    assert_eq!(flags, F::MS_RDONLY.bits());
    assert_eq!(data, "unbundable,rstictatime");
}

#[test]
fn perse_options_of_concatenated_lists() {
    let a = strings(&["ro", "x=1", "rbind"]);
    let b = strings(&["nodev", "y=2"]);
    let mut ab = a.clone();
    ab.extend(b.clone());
    let (fa, da) = perse_options(&a);
    let (fb, db) = perse_options(&b);
    let (fab, dab) = perse_options(&ab);
    assert_eq!(fab, fa | fb);
    assert_eq!(dab, format!("{},{}", da, db));
    assert_eq!(dab, "x=1,y=2");
}

#[test]
fn perse_options_every_flag_name() {
    let table: Vec<(&str, F)> = vec![
        ("bind", F::MS_BIND),
        ("rbind", F::MS_BIND | F::MS_REC),
        ("ro", F::MS_RDONLY),
        ("rro", F::MS_RDONLY),
        ("nosuid", F::MS_NOSUID),
        ("rnosuid", F::MS_NOSUID | F::MS_REC),
        ("nodev", F::MS_NODEV),
        ("noexec", F::MS_NOEXEC),
        ("rnoexec", F::MS_NOEXEC | F::MS_REC),
        ("sync", F::MS_SYNCHRONOUS),
        ("remount", F::MS_REMOUNT),
        ("dirsync", F::MS_DIRSYNC),
        ("noatime", F::MS_NOATIME),
        ("rnoatime", F::MS_NOATIME | F::MS_REC),
        ("unbindable", F::MS_UNBINDABLE),
        ("runbindable", F::MS_UNBINDABLE | F::MS_REC),
        ("private", F::MS_PRIVATE),
        ("rprivate", F::MS_PRIVATE | F::MS_REC),
        ("slave", F::MS_SLAVE),
        ("rslave", F::MS_SLAVE | F::MS_REC),
        ("shared", F::MS_SHARED),
        ("rshared", F::MS_SHARED | F::MS_REC),
        ("iversion", F::MS_I_VERSION),
        ("strictatime", F::MS_STRICTATIME),
        ("rstrictatime", F::MS_STRICTATIME | F::MS_REC),
        ("lazytime", F::MS_LAZYTIME),
        ("nodiratime", F::MS_NODIRATIME),
    ];
    for (name, expected) in table {
        let (flags, data) = perse_options(&strings(&[name]));
        assert_eq!(flags, expected.bits(), "option {}", name);
        assert_eq!(data, "", "option {}", name);
    }
}

#[test]
fn perse_options_empty() {
    let (flags, data) = perse_options(&Vec::new());
    assert_eq!(flags, 0);
    assert_eq!(data, "");
}

#[test]
fn perse_options_flags_hold_each_recognized_option() {
    let opts = strings(&["nosuid", "data=ordered", "nodev", "nosuid"]);
    let (flags, data) = perse_options(&opts);
    assert_eq!(flags & 0x2, 0x2);
    assert_eq!(flags & 0x4, 0x4);
    assert_eq!(flags, 0x6);
    assert_eq!(data, "data=ordered");
}

#[test]
fn path_join_follows_pathbuf_push() {
    for (base, p) in [("/tmp", "x"), ("/tmp/", "x"), ("", "x"), ("/tmp", "/etc"), ("a", ""), ("a/b", "c/d")] {
        let expected = std::path::PathBuf::from(base).join(p);
        assert_eq!(path_join(base, p), expected.to_str().unwrap(), "{} + {}", base, p);
    }
    assert_eq!(path_join("/tmp", "x"), "/tmp/x");
    assert_eq!(path_join("/tmp", "/etc"), "/etc");
}

#[test]
fn text_numbers_match_std() {
    for n in [0i32, 7, 10, 42, -1, -10, 1234567, i32::MAX, i32::MIN] {
        assert_eq!(i32_text(n), n.to_string());
        assert_eq!(parse_i32(&n.to_string()), Some(n));
    }
    for n in [0u32, 9, 100, 65536, u32::MAX] {
        assert_eq!(u32_text(n), n.to_string());
    }
    for s in ["", "-", "+", "+5", "-0", "007", "12a", " 1", "1 ", "2147483647", "2147483648", "-2147483648", "-2147483649", "99999999999", "1_000"] {
        assert_eq!(parse_i32(s), s.parse::<i32>().ok(), "text {:?}", s);
    }
}

#[test]
fn text_prefixes_and_equality() {
    assert!(starts_with("init: 42", "init:"));
    assert!(!starts_with("ini", "init:"));
    assert_eq!(strip_prefix("init: 42", "init: "), Some("42".to_string()));
    assert_eq!(strip_prefix("init:42", "init: "), None);
    assert!(text_eq("done", "done"));
    assert!(!text_eq("done", "done "));
}

#[test]
fn env_entries_split_at_first_equals() {
    assert_eq!(split_env_entry("PATH=/bin:/usr/bin"), Some(("PATH".to_string(), "/bin:/usr/bin".to_string())));
    assert_eq!(split_env_entry("A=b=c"), Some(("A".to_string(), "b=c".to_string())));
    assert_eq!(split_env_entry("EMPTY="), Some(("EMPTY".to_string(), "".to_string())));
    assert_eq!(split_env_entry("NOVALUE"), None);
    let env = strings(&["TERM=xterm", "BROKEN", "HOME=/root"]);
    assert_eq!(
        parse_env(&env),
        vec![("TERM".to_string(), "xterm".to_string()), ("HOME".to_string(), "/root".to_string())]
    );
}

fn entry(destination: &str, typ: Option<&str>, source: Option<&str>, options: Option<&[&str]>) -> MountEntry {
    MountEntry {
        destination: destination.to_string(),
        typ: typ.map(|t| t.to_string()),
        source: source.map(|s| s.to_string()),
        options: options.map(strings),
    }
}

#[test]
fn setup_rootfs_plans_every_mount() {
    let mounter = Mounter::new(
        "/bundle/rootfs",
        "/run/c/rootfs",
        vec![
            entry("/proc", Some("proc"), Some("proc"), None),
            entry("/dev", Some("tmpfs"), Some("tmpfs"), Some(&["nosuid", "strictatime", "mode=755", "size=65536k"])),
            entry("/sys/fs/cgroup", Some("cgroup"), Some("cgroup"), Some(&["ro"])),
        ],
    );
    let plan = mounter.setup_rootfs();
    assert_eq!(plan.copy_from, "/bundle/rootfs");
    assert_eq!(plan.copy_to, "/run/c/rootfs");
    assert_eq!(plan.make_private.source, "none");
    assert_eq!(plan.make_private.target, "/");
    assert_eq!(plan.make_private.flags, 0x4000 | 0x40000);
    assert_eq!(plan.bind_root.source, "/run/c/rootfs");
    assert_eq!(plan.bind_root.flags, 0x1000 | 0x4000);
    assert_eq!(plan.mounts.len(), 3);
    match &plan.mounts[0] {
        MountStep { target, action: MountAction::Mount(call) } => {
            assert_eq!(target, "/run/c/rootfs/proc");
            assert_eq!(call.source, "/bundle/rootfs/proc");
            assert_eq!(call.fstype.as_deref(), Some("proc"));
            assert_eq!(call.flags, 0);
            assert_eq!(call.data.as_deref(), Some(""));
        }
        _ => panic!("expected a mount"),
    }
    match &plan.mounts[1] {
        MountStep { target, action: MountAction::Mount(call) } => {
            assert_eq!(target, "/run/c/rootfs/dev");
            assert_eq!(call.flags, 0x2 | 0x1000000);
            assert_eq!(call.data.as_deref(), Some("mode=755,size=65536k"));
        }
        _ => panic!("expected a mount"),
    }
    match &plan.mounts[2] {
        MountStep { target, action: MountAction::SkipCgroup } => {
            assert_eq!(target, "/run/c/rootfs/sys/fs/cgroup");
        }
        _ => panic!("expected the cgroup entry to be passed over"),
    }
}

#[test]
fn entries_valid_needs_absolute_destinations_and_types() {
    let good = Mounter::new("/b", "/n", vec![entry("/a", Some("tmpfs"), None, None), entry("/c", Some("proc"), None, None)]);
    assert!(good.entries_valid());
    let relative = Mounter::new(
        "/b",
        "/n",
        vec![entry("/a", Some("tmpfs"), None, None), entry("relative", Some("tmpfs"), None, None)],
    );
    assert!(!relative.entries_valid());
    let untyped = Mounter::new("/b", "/n", vec![entry("/x", None, None, None)]);
    assert!(!untyped.entries_valid());
    let empty_destination = Mounter::new("/b", "/n", vec![entry("", Some("tmpfs"), None, None)]);
    assert!(!empty_destination.entries_valid());
    assert!(Mounter::new("/b", "/n", Vec::new()).entries_valid());
}

#[test]
fn setup_rootfs_source_defaults_to_bundle_root() {
    let mounter = Mounter::new("/b", "/n", vec![entry("/a", Some("tmpfs"), None, None)]);
    let plan = mounter.setup_rootfs();
    assert_eq!(plan.mounts.len(), 1);
    match &plan.mounts[0] {
        MountStep { target, action: MountAction::Mount(call) } => {
            assert_eq!(target, "/n/a");
            assert_eq!(call.target, "/n/a");
            assert_eq!(call.source, "/b/");
        }
        _ => panic!("expected a mount"),
    }
}

#[test]
fn setup_rootfs_strips_repeated_root_separators() {
    let mounter = Mounter::new("/b", "/n", vec![entry("//proc/", Some("proc"), Some("/abs"), None)]);
    let plan = mounter.setup_rootfs();
    match &plan.mounts[0] {
        MountStep { target, action: MountAction::Mount(call) } => {
            assert_eq!(target, "/n/proc");
            assert_eq!(call.source, "/abs");
        }
        _ => panic!("expected a mount"),
    }
}
