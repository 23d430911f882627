//! Mount options and the mount table of a container's root file system.
use vstd::prelude::*;
use crate::flags::{
    ms_bind, ms_dirsync, ms_i_version, ms_lazytime, ms_noatime, ms_nodev, ms_nodiratime,
    ms_noexec, ms_nosuid, ms_private, ms_rdonly, ms_rec, ms_remount, ms_shared, ms_slave,
    ms_strictatime, ms_synchronous, ms_unbindable,
};
use crate::paths::{is_absolute, joined, path_join, strip_root, stripped_root};
use crate::text::{join_with, text_eq};

verus! {

/// The mount flags that one option of an OCI mount entry stands for, or `None`
/// when the option is not a flag and is handed to the file system as data.
pub open spec fn option_flags(o: Seq<char>) -> Option<u64> {
    if o == "bind"@ {
        Some(0x1000u64)  // MS_BIND
    } else if o == "rbind"@ {
        Some(0x1000u64 | 0x4000u64)  // MS_BIND | MS_REC
    } else if o == "ro"@ {
        Some(0x1u64)  // MS_RDONLY
    } else if o == "rro"@ {
        Some(0x1u64)  // MS_RDONLY
    } else if o == "nosuid"@ {
        Some(0x2u64)  // MS_NOSUID
    } else if o == "rnosuid"@ {
        Some(0x2u64 | 0x4000u64)  // MS_NOSUID | MS_REC
    } else if o == "nodev"@ {
        Some(0x4u64)  // MS_NODEV
    } else if o == "noexec"@ {
        Some(0x8u64)  // MS_NOEXEC
    } else if o == "rnoexec"@ {
        Some(0x8u64 | 0x4000u64)  // MS_NOEXEC | MS_REC
    } else if o == "sync"@ {
        Some(0x10u64)  // MS_SYNCHRONOUS
    } else if o == "remount"@ {
        Some(0x20u64)  // MS_REMOUNT
    } else if o == "dirsync"@ {
        Some(0x80u64)  // MS_DIRSYNC
    } else if o == "noatime"@ {
        Some(0x400u64)  // MS_NOATIME
    } else if o == "rnoatime"@ {
        Some(0x400u64 | 0x4000u64)  // MS_NOATIME | MS_REC
    } else if o == "unbindable"@ {
        Some(0x20000u64)  // MS_UNBINDABLE
    } else if o == "runbindable"@ {
        Some(0x20000u64 | 0x4000u64)  // MS_UNBINDABLE | MS_REC
    } else if o == "private"@ {
        Some(0x40000u64)  // MS_PRIVATE
    } else if o == "rprivate"@ {
        Some(0x40000u64 | 0x4000u64)  // MS_PRIVATE | MS_REC
    } else if o == "slave"@ {
        Some(0x80000u64)  // MS_SLAVE
    } else if o == "rslave"@ {
        Some(0x80000u64 | 0x4000u64)  // MS_SLAVE | MS_REC
    } else if o == "shared"@ {
        Some(0x100000u64)  // MS_SHARED
    } else if o == "rshared"@ {
        Some(0x100000u64 | 0x4000u64)  // MS_SHARED | MS_REC
    } else if o == "iversion"@ {
        Some(0x800000u64)  // MS_I_VERSION
    } else if o == "strictatime"@ {
        Some(0x1000000u64)  // MS_STRICTATIME
    } else if o == "rstrictatime"@ {
        Some(0x1000000u64 | 0x4000u64)  // MS_STRICTATIME | MS_REC
    } else if o == "lazytime"@ {
        Some(0x2000000u64)  // MS_LAZYTIME
    } else if o == "nodiratime"@ {
        Some(0x800u64)  // MS_NODIRATIME
    } else {
        None
    }
}

/// The union of the flags of all options in `opts`.
pub open spec fn options_flags(opts: Seq<Seq<char>>) -> u64
    decreases opts.len(),
{
    if opts.len() == 0 {
        0
    } else {
        let rest = options_flags(opts.drop_last());
        match option_flags(opts.last()) {
            Some(bits) => rest | bits,
            None => rest,
        }
    }
}

/// The options of `opts` that are not flags, in their order.
pub open spec fn data_options(opts: Seq<Seq<char>>) -> Seq<Seq<char>>
    decreases opts.len(),
{
    if opts.len() == 0 {
        Seq::empty()
    } else {
        let rest = data_options(opts.drop_last());
        if option_flags(opts.last()) is None {
            rest.push(opts.last())
        } else {
            rest
        }
    }
}

/// The flags of one option, read from `nix`'s flag set.
fn option_flag_bits(option: &str) -> (r: Option<u64>)
    ensures
        r == option_flags(option@),
{
    if text_eq(option, "bind") {
        Some(ms_bind())
    } else if text_eq(option, "rbind") {
        Some(ms_bind() | ms_rec())
    } else if text_eq(option, "ro") {
        Some(ms_rdonly())
    } else if text_eq(option, "rro") {
        Some(ms_rdonly())
    } else if text_eq(option, "nosuid") {
        Some(ms_nosuid())
    } else if text_eq(option, "rnosuid") {
        Some(ms_nosuid() | ms_rec())
    } else if text_eq(option, "nodev") {
        Some(ms_nodev())
    } else if text_eq(option, "noexec") {
        Some(ms_noexec())
    } else if text_eq(option, "rnoexec") {
        Some(ms_noexec() | ms_rec())
    } else if text_eq(option, "sync") {
        Some(ms_synchronous())
    } else if text_eq(option, "remount") {
        Some(ms_remount())
    } else if text_eq(option, "dirsync") {
        Some(ms_dirsync())
    } else if text_eq(option, "noatime") {
        Some(ms_noatime())
    } else if text_eq(option, "rnoatime") {
        Some(ms_noatime() | ms_rec())
    } else if text_eq(option, "unbindable") {
        Some(ms_unbindable())
    } else if text_eq(option, "runbindable") {
        Some(ms_unbindable() | ms_rec())
    } else if text_eq(option, "private") {
        Some(ms_private())
    } else if text_eq(option, "rprivate") {
        Some(ms_private() | ms_rec())
    } else if text_eq(option, "slave") {
        Some(ms_slave())
    } else if text_eq(option, "rslave") {
        Some(ms_slave() | ms_rec())
    } else if text_eq(option, "shared") {
        Some(ms_shared())
    } else if text_eq(option, "rshared") {
        Some(ms_shared() | ms_rec())
    } else if text_eq(option, "iversion") {
        Some(ms_i_version())
    } else if text_eq(option, "strictatime") {
        Some(ms_strictatime())
    } else if text_eq(option, "rstrictatime") {
        Some(ms_strictatime() | ms_rec())
    } else if text_eq(option, "lazytime") {
        Some(ms_lazytime())
    } else if text_eq(option, "nodiratime") {
        Some(ms_nodiratime())
    } else {
        None
    }
}

/// `parts` joined with `sep` between consecutive items.
pub fn join_strings(parts: &Vec<String>, sep: &str) -> (r: String)
    requires
        sep@.len() == 1,
    ensures
        r@ == join_with(parts.deep_view(), sep@[0]),
{
    let mut r = String::new();
    let ghost dv = parts.deep_view();
    let mut i: usize = 0;
    while i < parts.len()
        invariant
            dv == parts.deep_view(),
            sep@.len() == 1,
            i <= parts@.len(),
            r@ == join_with(dv.take(i as int), sep@[0]),
        decreases parts@.len() - i,
    {
        assert(dv.take(i + 1).drop_last() =~= dv.take(i as int));
        if i > 0 {
            r.append(sep);
            assert(sep@ =~= seq![sep@[0]]);
        }
        r.append(parts[i].as_str());
        proof {
            if i == 0 {
                assert(r@ =~= dv.take(1)[0]);
            } else {
                assert(r@ =~= join_with(dv.take(i as int), sep@[0]).push(sep@[0]) + dv[i as int]);
            }
        }
        i += 1;
    }
    assert(dv.take(parts@.len() as int) =~= dv);
    r
}

/// Splits the options of a mount entry into the mount flags they stand for and the
/// remaining options, which are joined with `,` into the data string for the file system.
pub fn perse_options(options: &Vec<String>) -> (r: (u64, String))
    ensures
        r.0 == options_flags(options.deep_view()),
        r.1@ == join_with(data_options(options.deep_view()), ','),
{
    let mut flags: u64 = 0;
    let mut data: Vec<String> = Vec::new();
    let ghost dv = options.deep_view();
    let mut i: usize = 0;
    while i < options.len()
        invariant
            dv == options.deep_view(),
            i <= options@.len(),
            flags == options_flags(dv.take(i as int)),
            data.deep_view() == data_options(dv.take(i as int)),
        decreases options@.len() - i,
    {
        let option = options[i].as_str();
        assert(dv.take(i + 1).drop_last() =~= dv.take(i as int));
        assert(dv.take(i + 1).last() == option@);
        match option_flag_bits(option) {
            Some(bits) => {
                flags = flags | bits;
            },
            None => {
                let ghost before = data.deep_view();
                data.push(option.to_owned());
                assert(data.deep_view() =~= before.push(option@));
            },
        }
        i += 1;
    }
    assert(dv.take(options@.len() as int) =~= dv);
    proof {
        reveal_strlit(",");
    }
    let joined_data = join_strings(&data, ",");
    (flags, joined_data)
}

/// One mount entry of an OCI runtime configuration.
pub struct MountEntry {
    /// Where the file system is mounted, as an absolute path inside the container.
    pub destination: String,
    /// The file system type.
    pub typ: Option<String>,
    /// The device or directory mounted, relative to the bundle's root file system.
    pub source: Option<String>,
    /// Mount options: flag names and file-system data.
    pub options: Option<Vec<String>>,
}

/// A mount entry as text.
pub struct MountEntryView {
    pub destination: Seq<char>,
    pub typ: Option<Seq<char>>,
    pub source: Option<Seq<char>>,
    pub options: Option<Seq<Seq<char>>>,
}

impl View for MountEntry {
    type V = MountEntryView;

    open spec fn view(&self) -> MountEntryView {
        MountEntryView {
            destination: self.destination@,
            typ: self.typ.deep_view(),
            source: self.source.deep_view(),
            options: self.options.deep_view(),
        }
    }
}

/// A copy of `v`.
pub fn copy_strings(v: &Vec<String>) -> (r: Vec<String>)
    ensures
        r@ == v@,
{
    let mut r: Vec<String> = Vec::new();
    let mut i: usize = 0;
    while i < v.len()
        invariant
            i <= v@.len(),
            r@ == v@.take(i as int),
        decreases v@.len() - i,
    {
        r.push(v[i].clone());
        assert(v@.take(i + 1) =~= v@.take(i as int).push(v@[i as int]));
        i += 1;
    }
    assert(v@.take(v@.len() as int) =~= v@);
    r
}

fn copy_text(s: &Option<String>) -> (r: Option<String>)
    ensures
        r == *s,
{
    match s {
        Some(t) => Some(t.clone()),
        None => None,
    }
}

impl MountEntry {
    /// A copy of this entry.
    pub fn copy(&self) -> (r: MountEntry)
        ensures
            r@ == self@,
    {
        MountEntry {
            destination: self.destination.clone(),
            typ: copy_text(&self.typ),
            source: copy_text(&self.source),
            options: match &self.options {
                Some(o) => Some(copy_strings(o)),
                None => None,
            },
        }
    }
}

/// A copy of the entries `v`.
pub fn copy_entries(v: &Vec<MountEntry>) -> (r: Vec<MountEntry>)
    ensures
        r@.map_values(|m: MountEntry| m@) == v@.map_values(|m: MountEntry| m@),
{
    let mut r: Vec<MountEntry> = Vec::new();
    let mut i: usize = 0;
    while i < v.len()
        invariant
            i <= v@.len(),
            r@.map_values(|m: MountEntry| m@) =~= v@.take(i as int).map_values(|m: MountEntry| m@),
        decreases v@.len() - i,
    {
        let ghost before = r@;
        let m = v[i].copy();
        r.push(m);
        assert(r@ =~= before.push(m));
        assert(v@.take(i + 1) =~= v@.take(i as int).push(v@[i as int]));
        assert(r@.map_values(|m: MountEntry| m@) =~= before.map_values(|m: MountEntry| m@).push(m@));
        assert(v@.take(i + 1).map_values(|m: MountEntry| m@) =~= v@.take(i as int).map_values(
            |m: MountEntry| m@,
        ).push(v@[i as int]@));
        i += 1;
    }
    assert(v@.take(v@.len() as int) =~= v@);
    r
}

/// The arguments of one `mount(2)` call.
pub struct MountCall {
    pub source: String,
    pub target: String,
    pub fstype: Option<String>,
    pub flags: u64,
    pub data: Option<String>,
}

/// A mount call as text and bits.
pub struct MountCallView {
    pub source: Seq<char>,
    pub target: Seq<char>,
    pub fstype: Option<Seq<char>>,
    pub flags: u64,
    pub data: Option<Seq<char>>,
}

impl View for MountCall {
    type V = MountCallView;

    open spec fn view(&self) -> MountCallView {
        MountCallView {
            source: self.source@,
            target: self.target@,
            fstype: self.fstype.deep_view(),
            flags: self.flags,
            data: self.data.deep_view(),
        }
    }
}

/// What is done for one mount entry once its target directory exists.
pub enum MountAction {
    /// Mount the file system.
    Mount(MountCall),
    /// A `cgroup` file system, which is not mounted yet: the entry is passed over.
    SkipCgroup,
}

/// What is done for one mount entry: create the directory `target`, then carry out
/// `action`.
pub struct MountStep {
    pub target: String,
    pub action: MountAction,
}

pub enum MountActionView {
    Mount(MountCallView),
    SkipCgroup,
}

pub struct MountStepView {
    pub target: Seq<char>,
    pub action: MountActionView,
}

impl View for MountAction {
    type V = MountActionView;

    open spec fn view(&self) -> MountActionView {
        match self {
            MountAction::Mount(call) => MountActionView::Mount(call@),
            MountAction::SkipCgroup => MountActionView::SkipCgroup,
        }
    }
}

impl View for MountStep {
    type V = MountStepView;

    open spec fn view(&self) -> MountStepView {
        MountStepView { target: self.target@, action: self.action@ }
    }
}

/// Whether a mount entry can be set up: its destination is an absolute path and it
/// names a file-system type.
pub open spec fn entry_valid(m: MountEntryView) -> bool {
    is_absolute(m.destination) && m.typ is Some
}

/// The flags and the data string that the options of an entry give.
pub open spec fn entry_options(options: Option<Seq<Seq<char>>>) -> (u64, Seq<char>) {
    match options {
        Some(o) => (options_flags(o), join_with(data_options(o), ',')),
        None => (0, Seq::empty()),
    }
}

/// The step for a valid mount entry `m` of a container whose bundle file system is at
/// `bundle_root` and whose new root is `new_root`: its target is the destination, without
/// its root, below the new root; a `cgroup` entry is passed over, and any other is mounted
/// from the source below the bundle's file system, with the flags and data of its options.
pub open spec fn entry_step(bundle_root: Seq<char>, new_root: Seq<char>, m: MountEntryView) -> MountStepView {
    let target = joined(new_root, stripped_root(m.destination)->0);
    let t = m.typ->0;
    MountStepView {
        target,
        action: if t == "cgroup"@ {
            MountActionView::SkipCgroup
        } else {
            MountActionView::Mount(
                MountCallView {
                    source: joined(
                        bundle_root,
                        match m.source {
                            Some(src) => src,
                            None => Seq::empty(),
                        },
                    ),
                    target,
                    fstype: Some(t),
                    flags: entry_options(m.options).0,
                    data: Some(entry_options(m.options).1),
                },
            )
        },
    }
}

/// The steps for the valid entries `ms`, one per entry, in order.
pub open spec fn mount_plan(bundle_root: Seq<char>, new_root: Seq<char>, ms: Seq<MountEntryView>) -> Seq<MountStepView> {
    ms.map_values(|m: MountEntryView| entry_step(bundle_root, new_root, m))
}

/// Mounts the file systems of a container's configuration under its new root.
pub struct Mounter {
    bundle_root: String,
    new_root: String,
    mounts: Vec<MountEntry>,
}

pub struct MounterView {
    pub bundle_root: Seq<char>,
    pub new_root: Seq<char>,
    pub mounts: Seq<MountEntryView>,
}

impl View for Mounter {
    type V = MounterView;

    closed spec fn view(&self) -> MounterView {
        MounterView {
            bundle_root: self.bundle_root@,
            new_root: self.new_root@,
            mounts: self.mounts@.map_values(|m: MountEntry| m@),
        }
    }
}

/// What setting up the root file system of a container does, in order.
pub struct RootfsPlan {
    /// Copy the directory tree `copy_from` to `copy_to`.
    pub copy_from: String,
    pub copy_to: String,
    /// Make every mount below `/` private.
    pub make_private: MountCall,
    /// Bind the new root onto itself.
    pub bind_root: MountCall,
    /// Then the steps for the mount entries.
    pub mounts: Vec<MountStep>,
}

impl Mounter {
    pub fn new(bundle_root: &str, new_root: &str, mounts: Vec<MountEntry>) -> (r: Mounter)
        ensures
            r@.bundle_root == bundle_root@,
            r@.new_root == new_root@,
            r@.mounts == mounts@.map_values(|m: MountEntry| m@),
            r@.mounts.len() == mounts@.len(),
            forall|i: int| 0 <= i < mounts@.len() ==> r@.mounts[i] == (#[trigger] mounts@[i])@,
    {
        Mounter { bundle_root: bundle_root.to_owned(), new_root: new_root.to_owned(), mounts }
    }

    /// Whether every configured mount entry can be set up.
    pub fn entries_valid(&self) -> (r: bool)
        ensures
            r == forall|i: int| 0 <= i < self@.mounts.len() ==> entry_valid(#[trigger] self@.mounts[i]),
    {
        let mut i: usize = 0;
        while i < self.mounts.len()
            invariant
                i <= self.mounts@.len(),
                self@.mounts.len() == self.mounts@.len(),
                forall|j: int| 0 <= j < i ==> entry_valid(#[trigger] self@.mounts[j]),
            decreases self.mounts@.len() - i,
        {
            let m = &self.mounts[i];
            assert(self@.mounts[i as int] == m@);
            let absolute = {
                let d = crate::text::chars_of(m.destination.as_str());
                d.len() > 0 && d[0] == '/'
            };
            if !absolute || m.typ.is_none() {
                return false;
            }
            i += 1;
        }
        true
    }

    fn mount_step(&self, m: &MountEntry) -> (r: MountStep)
        requires
            entry_valid(m@),
        ensures
            r@ == entry_step(self@.bundle_root, self@.new_root, m@),
            self@.new_root.is_prefix_of(r@.target),
    {
        let relative = strip_root(m.destination.as_str()).unwrap();
        let target = path_join(self.new_root.as_str(), relative.as_str());
        assert(self@.new_root.is_prefix_of(target@)) by {
            assert(target@.subrange(0, self@.new_root.len() as int) =~= self@.new_root);
        }
        let (flags, data) = match &m.options {
            Some(options) => perse_options(options),
            None => (0u64, String::new()),
        };
        let t = m.typ.as_ref().unwrap();
        let action = if text_eq(t.as_str(), "cgroup") {
            MountAction::SkipCgroup
        } else {
            let source = match &m.source {
                Some(src) => path_join(self.bundle_root.as_str(), src.as_str()),
                None => path_join(self.bundle_root.as_str(), ""),
            };
            proof {
                reveal_strlit("");
            }
            MountAction::Mount(
                MountCall { source, target: target.clone(), fstype: Some(t.clone()), flags, data: Some(data) },
            )
        };
        MountStep { target, action }
    }

    /// The steps for the configured mount entries, one per entry, in order.
    fn setup_mount(&self) -> (r: Vec<MountStep>)
        requires
            forall|i: int| 0 <= i < self@.mounts.len() ==> entry_valid(#[trigger] self@.mounts[i]),
        ensures
            r@.map_values(|s: MountStep| s@) == mount_plan(self@.bundle_root, self@.new_root, self@.mounts),
            r@.len() == self@.mounts.len(),
            forall|i: int| 0 <= i < r@.len() ==> (#[trigger] r@[i])@ == entry_step(self@.bundle_root, self@.new_root, self@.mounts[i]),
            forall|i: int| 0 <= i < r@.len() ==> self@.new_root.is_prefix_of(#[trigger] r@[i]@.target),
    {
        let mut steps: Vec<MountStep> = Vec::new();
        let ghost ms = self@.mounts;
        let mut i: usize = 0;
        while i < self.mounts.len()
            invariant
                ms == self@.mounts,
                ms.len() == self.mounts@.len(),
                forall|j: int| 0 <= j < ms.len() ==> entry_valid(#[trigger] ms[j]),
                i <= ms.len(),
                steps@.map_values(|s: MountStep| s@) =~= mount_plan(self@.bundle_root, self@.new_root, ms.take(i as int)),
                forall|j: int| 0 <= j < steps@.len() ==> self@.new_root.is_prefix_of(#[trigger] steps@[j]@.target),
            decreases ms.len() - i,
        {
            assert(ms[i as int] == self.mounts@[i as int]@);
            let step = self.mount_step(&self.mounts[i]);
            let ghost before = steps@;
            steps.push(step);
            assert(steps@ =~= before.push(step));
            assert(steps@.map_values(|s: MountStep| s@) =~= before.map_values(|s: MountStep| s@).push(step@));
            assert(ms.take(i + 1) =~= ms.take(i as int).push(ms[i as int]));
            assert(mount_plan(self@.bundle_root, self@.new_root, ms.take(i + 1)) =~= mount_plan(
                self@.bundle_root,
                self@.new_root,
                ms.take(i as int),
            ).push(entry_step(self@.bundle_root, self@.new_root, ms[i as int])));
            i += 1;
        }
        assert(ms.take(ms.len() as int) =~= ms);
        assert forall|j: int| 0 <= j < steps@.len() implies (#[trigger] steps@[j])@ == entry_step(
            self@.bundle_root,
            self@.new_root,
            ms[j],
        ) by {
            assert(steps@.map_values(|s: MountStep| s@)[j] == steps@[j]@);
        }
        steps
    }

    /// What setting up the container's root file system does: copy the bundle's file
    /// system to the new root, make the mounts below `/` private, bind the new root onto
    /// itself, then the steps for the mount entries.
    pub fn setup_rootfs(&self) -> (r: RootfsPlan)
        requires
            forall|i: int| 0 <= i < self@.mounts.len() ==> entry_valid(#[trigger] self@.mounts[i]),
        ensures
            r.copy_from@ == self@.bundle_root,
            r.copy_to@ == self@.new_root,
            r.make_private@ == (MountCallView {
                source: "none"@,
                target: "/"@,
                fstype: None,
                flags: 0x4000u64 | 0x40000u64,
                data: None,
            }),
            r.bind_root@ == (MountCallView {
                source: self@.new_root,
                target: self@.new_root,
                fstype: None,
                flags: 0x1000u64 | 0x4000u64,
                data: None,
            }),
            r.mounts@.map_values(|s: MountStep| s@) == mount_plan(self@.bundle_root, self@.new_root, self@.mounts),
            r.mounts@.len() == self@.mounts.len(),
            forall|i: int| 0 <= i < r.mounts@.len() ==> (#[trigger] r.mounts@[i])@ == entry_step(
                self@.bundle_root,
                self@.new_root,
                self@.mounts[i],
            ),
            forall|i: int| 0 <= i < r.mounts@.len() ==> self@.new_root.is_prefix_of(#[trigger] r.mounts@[i]@.target),
    {
        let make_private = MountCall {
            source: "none".to_owned(),
            target: "/".to_owned(),
            fstype: None,
            flags: ms_rec() | ms_private(),
            data: None,
        };
        let bind_root = MountCall {
            source: self.new_root.clone(),
            target: self.new_root.clone(),
            fstype: None,
            flags: ms_bind() | ms_rec(),
            data: None,
        };
        RootfsPlan {
            copy_from: self.bundle_root.clone(),
            copy_to: self.new_root.clone(),
            make_private,
            bind_root,
            mounts: self.setup_mount(),
        }
    }
}

/// Every flag that an option of a mount entry stands for is set in the flags of the
/// entry, whatever the other options are.
pub proof fn lemma_option_flags_are_set(opts: Seq<Seq<char>>, i: int)
    requires
        0 <= i < opts.len(),
        option_flags(opts[i]) is Some,
    ensures
        options_flags(opts) & option_flags(opts[i])->0 == option_flags(opts[i])->0,
    decreases opts.len(),
{
    let b = option_flags(opts[i])->0;
    let rest = options_flags(opts.drop_last());
    if i == opts.len() - 1 {
        assert((rest | b) & b == b) by (bit_vector);
    } else {
        lemma_option_flags_are_set(opts.drop_last(), i);
        assert(opts.drop_last()[i] == opts[i]);
        match option_flags(opts.last()) {
            Some(c) => {
                assert(rest & b == b ==> (rest | c) & b == b) by (bit_vector);
            },
            None => {},
        }
    }
}

/// No option sets a flag unless it stands for it: the flags of options none of which
/// is a flag are empty.
pub proof fn lemma_no_flag_options(opts: Seq<Seq<char>>)
    requires
        forall|i: int| 0 <= i < opts.len() ==> option_flags(#[trigger] opts[i]) is None,
    ensures
        options_flags(opts) == 0,
        data_options(opts) == opts,
    decreases opts.len(),
{
    if opts.len() > 0 {
        assert forall|i: int| 0 <= i < opts.drop_last().len() implies option_flags(
            #[trigger] opts.drop_last()[i],
        ) is None by {
            assert(opts.drop_last()[i] == opts[i]);
        }
        lemma_no_flag_options(opts.drop_last());
        assert(option_flags(opts[opts.len() - 1]) is None);
        assert(opts.drop_last().push(opts.last()) =~= opts);
    }
}

/// The data options are the options that are not flags, in their order.
pub proof fn lemma_data_options_filter(opts: Seq<Seq<char>>)
    ensures
        data_options(opts) == opts.filter(|o: Seq<char>| option_flags(o) is None),
    decreases opts.len(),
{
    reveal(Seq::filter);
    if opts.len() > 0 {
        lemma_data_options_filter(opts.drop_last());
    }
}

/// Splitting a list of options in two: the flags of the whole list are the union of
/// the flags of the two parts, and its data options are those of the first part
/// followed by those of the second.
pub proof fn lemma_options_concat(a: Seq<Seq<char>>, b: Seq<Seq<char>>)
    ensures
        options_flags(a + b) == options_flags(a) | options_flags(b),
        data_options(a + b) == data_options(a) + data_options(b),
    decreases b.len(),
{
    let fa = options_flags(a);
    if b.len() == 0 {
        assert(a + b =~= a);
        assert(fa | 0u64 == fa) by (bit_vector);
        assert(data_options(a) + Seq::<Seq<char>>::empty() =~= data_options(a));
    } else {
        let rest = b.drop_last();
        lemma_options_concat(a, rest);
        assert((a + b).drop_last() =~= a + rest);
        assert((a + b).last() == b.last());
        let fr = options_flags(rest);
        match option_flags(b.last()) {
            Some(c) => {
                assert((fa | fr) | c == fa | (fr | c)) by (bit_vector);
            },
            None => {
                assert((data_options(a) + data_options(rest)).push(b.last()) =~= data_options(a) + data_options(
                    rest,
                ).push(b.last()));
            },
        }
    }
}


/// Whether `o` is one of the names of mount flags that an OCI mount entry's options may
/// hold: `bind`, `ro`, `nosuid`, `nodev`, `noexec`, `sync`, `remount`, `dirsync`,
/// `noatime`, `unbindable`, `private`, `slave`, `shared`, `iversion`, `strictatime`,
/// `lazytime`, `nodiratime`, and the recursive forms `rbind`, `rro`, `rnosuid`,
/// `rnoexec`, `rnoatime`, `runbindable`, `rprivate`, `rslave`, `rshared`, `rstrictatime`.
pub open spec fn is_flag_name(o: Seq<char>) -> bool {
    ||| o == "bind"@
    ||| o == "rbind"@
    ||| o == "ro"@
    ||| o == "rro"@
    ||| o == "nosuid"@
    ||| o == "rnosuid"@
    ||| o == "nodev"@
    ||| o == "noexec"@
    ||| o == "rnoexec"@
    ||| o == "sync"@
    ||| o == "remount"@
    ||| o == "dirsync"@
    ||| o == "noatime"@
    ||| o == "rnoatime"@
    ||| o == "unbindable"@
    ||| o == "runbindable"@
    ||| o == "private"@
    ||| o == "rprivate"@
    ||| o == "slave"@
    ||| o == "rslave"@
    ||| o == "shared"@
    ||| o == "rshared"@
    ||| o == "iversion"@
    ||| o == "strictatime"@
    ||| o == "rstrictatime"@
    ||| o == "lazytime"@
    ||| o == "nodiratime"@
}

/// The options that are flags are exactly the flag names, and each sets at least one
/// bit. Every other option (such as `newinstance` or `mode=0620`) sets no flag.
pub proof fn lemma_flag_options_are_the_flag_names(o: Seq<char>)
    ensures
        option_flags(o) is Some <==> is_flag_name(o),
        option_flags(o) matches Some(bits) ==> bits != 0,
{
    assert(forall|a: u64, b: u64| a != 0 ==> #[trigger] (a | b) != 0) by (bit_vector);
}

/// The options of a mount entry: the flags are the union of the flags of its flag
/// names, and the data options are all its other options, unchanged and in their
/// order; a list without flag names sets no flag and keeps every option as data.
pub proof fn lemma_non_flag_names_are_data(opts: Seq<Seq<char>>)
    ensures
        data_options(opts) == opts.filter(|o: Seq<char>| !is_flag_name(o)),
        (forall|i: int| 0 <= i < opts.len() ==> !is_flag_name(#[trigger] opts[i])) ==> options_flags(opts) == 0
            && data_options(opts) == opts,
    decreases opts.len(),
{
    reveal(Seq::filter);
    if opts.len() > 0 {
        lemma_non_flag_names_are_data(opts.drop_last());
        lemma_flag_options_are_the_flag_names(opts.last());
        if forall|i: int| 0 <= i < opts.len() ==> !is_flag_name(#[trigger] opts[i]) {
            assert forall|i: int| 0 <= i < opts.drop_last().len() implies !is_flag_name(
                #[trigger] opts.drop_last()[i],
            ) by {
                assert(opts.drop_last()[i] == opts[i]);
            }
            assert(!is_flag_name(opts[opts.len() - 1]));
            assert(opts.drop_last().push(opts.last()) =~= opts);
        }
    }
}

/// Every planned step for the valid entries `ms` belongs to the entry at its position:
/// a `cgroup` entry is passed over and every other entry is mounted with the
/// file-system type of the entry, from its source below the bundle's file system (the
/// bundle's file system itself when it has none), onto the step's target, with the
/// flags and data of its options.
pub proof fn lemma_mount_plan_follows_entries(bundle_root: Seq<char>, new_root: Seq<char>, ms: Seq<MountEntryView>)
    requires
        forall|i: int| 0 <= i < ms.len() ==> entry_valid(#[trigger] ms[i]),
    ensures
        mount_plan(bundle_root, new_root, ms).len() == ms.len(),
        forall|i: int|
            0 <= i < ms.len() ==> {
                let step = #[trigger] mount_plan(bundle_root, new_root, ms)[i];
                let m = ms[i];
                let opts = match m.options {
                    Some(o) => o,
                    None => Seq::empty(),
                };
                &&& (step.action is SkipCgroup <==> m.typ == Some("cgroup"@))
                &&& step.action matches MountActionView::Mount(call) ==> {
                    &&& call.fstype == m.typ
                    &&& call.target == step.target
                    &&& call.source == joined(
                        bundle_root,
                        match m.source {
                            Some(src) => src,
                            None => Seq::empty(),
                        },
                    )
                    &&& call.flags == options_flags(opts)
                    &&& call.data == Some(join_with(data_options(opts), ','))
                }
            },
{
    assert forall|i: int| 0 <= i < ms.len() implies {
        let step = #[trigger] mount_plan(bundle_root, new_root, ms)[i];
        let m = ms[i];
        let opts = match m.options {
            Some(o) => o,
            None => Seq::empty(),
        };
        &&& (step.action is SkipCgroup <==> m.typ == Some("cgroup"@))
        &&& step.action matches MountActionView::Mount(call) ==> {
            &&& call.fstype == m.typ
            &&& call.target == step.target
            &&& call.source == joined(
                bundle_root,
                match m.source {
                    Some(src) => src,
                    None => Seq::empty(),
                },
            )
            &&& call.flags == options_flags(opts)
            &&& call.data == Some(join_with(data_options(opts), ','))
        }
    } by {
        assert(entry_valid(ms[i]));
        if ms[i].options is None {
            assert(options_flags(Seq::<Seq<char>>::empty()) == 0);
            assert(data_options(Seq::<Seq<char>>::empty()) =~= Seq::<Seq<char>>::empty());
            assert(join_with(Seq::<Seq<char>>::empty(), ',') =~= Seq::<char>::empty());
        }
    }
}



/// The bits that the flag names stand for, the kernel's mount flags:
/// `bind`: `MS_BIND` (0x1000);
/// `ro`: `MS_RDONLY` (0x1);
/// `nosuid`: `MS_NOSUID` (0x2);
/// `nodev`: `MS_NODEV` (0x4);
/// `noexec`: `MS_NOEXEC` (0x8);
/// `sync`: `MS_SYNCHRONOUS` (0x10);
/// `remount`: `MS_REMOUNT` (0x20);
/// `dirsync`: `MS_DIRSYNC` (0x80);
/// `noatime`: `MS_NOATIME` (0x400);
/// `unbindable`: `MS_UNBINDABLE` (0x20000);
/// `private`: `MS_PRIVATE` (0x40000);
/// `slave`: `MS_SLAVE` (0x80000);
/// `shared`: `MS_SHARED` (0x100000);
/// `iversion`: `MS_I_VERSION` (0x800000);
/// `strictatime`: `MS_STRICTATIME` (0x1000000);
/// `lazytime`: `MS_LAZYTIME` (0x2000000);
/// `nodiratime`: `MS_NODIRATIME` (0x800);
/// and each recursive form `rbind`, `rnosuid`, `rnoexec`, `rnoatime`, `runbindable`,
/// `rprivate`, `rslave`, `rshared`, `rstrictatime` adds `MS_REC` (0x4000) to the flag of
/// its plain form, except `rro`, which stands for `MS_RDONLY` alone.
pub proof fn lemma_flag_name_bits()
    ensures
        option_flags("bind"@) == Some(0x1000u64),
        option_flags("ro"@) == Some(0x1u64),
        option_flags("nosuid"@) == Some(0x2u64),
        option_flags("nodev"@) == Some(0x4u64),
        option_flags("noexec"@) == Some(0x8u64),
        option_flags("sync"@) == Some(0x10u64),
        option_flags("remount"@) == Some(0x20u64),
        option_flags("dirsync"@) == Some(0x80u64),
        option_flags("noatime"@) == Some(0x400u64),
        option_flags("unbindable"@) == Some(0x20000u64),
        option_flags("private"@) == Some(0x40000u64),
        option_flags("slave"@) == Some(0x80000u64),
        option_flags("shared"@) == Some(0x100000u64),
        option_flags("iversion"@) == Some(0x800000u64),
        option_flags("strictatime"@) == Some(0x1000000u64),
        option_flags("lazytime"@) == Some(0x2000000u64),
        option_flags("nodiratime"@) == Some(0x800u64),
        option_flags("rbind"@) == Some(option_flags("bind"@)->0 | 0x4000u64),
        option_flags("rnosuid"@) == Some(option_flags("nosuid"@)->0 | 0x4000u64),
        option_flags("rnoexec"@) == Some(option_flags("noexec"@)->0 | 0x4000u64),
        option_flags("rnoatime"@) == Some(option_flags("noatime"@)->0 | 0x4000u64),
        option_flags("runbindable"@) == Some(option_flags("unbindable"@)->0 | 0x4000u64),
        option_flags("rprivate"@) == Some(option_flags("private"@)->0 | 0x4000u64),
        option_flags("rslave"@) == Some(option_flags("slave"@)->0 | 0x4000u64),
        option_flags("rshared"@) == Some(option_flags("shared"@)->0 | 0x4000u64),
        option_flags("rstrictatime"@) == Some(option_flags("strictatime"@)->0 | 0x4000u64),
        option_flags("rro"@) == option_flags("ro"@),
{
    reveal_strlit("bind");
    reveal_strlit("rbind");
    reveal_strlit("ro");
    reveal_strlit("rro");
    reveal_strlit("nosuid");
    reveal_strlit("rnosuid");
    reveal_strlit("nodev");
    reveal_strlit("noexec");
    reveal_strlit("rnoexec");
    reveal_strlit("sync");
    reveal_strlit("remount");
    reveal_strlit("dirsync");
    reveal_strlit("noatime");
    reveal_strlit("rnoatime");
    reveal_strlit("unbindable");
    reveal_strlit("runbindable");
    reveal_strlit("private");
    reveal_strlit("rprivate");
    reveal_strlit("slave");
    reveal_strlit("rslave");
    reveal_strlit("shared");
    reveal_strlit("rshared");
    reveal_strlit("iversion");
    reveal_strlit("strictatime");
    reveal_strlit("rstrictatime");
    reveal_strlit("lazytime");
    reveal_strlit("nodiratime");
    assert("bind"@.len() == 4);
    assert("rbind"@.len() == 5);
    assert("ro"@.len() == 2);
    assert("rro"@.len() == 3);
    assert("nosuid"@.len() == 6);
    assert("rnosuid"@.len() == 7);
    assert("nodev"@.len() == 5);
    assert("noexec"@.len() == 6);
    assert("rnoexec"@.len() == 7);
    assert("sync"@.len() == 4);
    assert("remount"@.len() == 7);
    assert("dirsync"@.len() == 7);
    assert("noatime"@.len() == 7);
    assert("rnoatime"@.len() == 8);
    assert("unbindable"@.len() == 10);
    assert("runbindable"@.len() == 11);
    assert("private"@.len() == 7);
    assert("rprivate"@.len() == 8);
    assert("slave"@.len() == 5);
    assert("rslave"@.len() == 6);
    assert("shared"@.len() == 6);
    assert("rshared"@.len() == 7);
    assert("iversion"@.len() == 8);
    assert("strictatime"@.len() == 11);
    assert("rstrictatime"@.len() == 12);
    assert("lazytime"@.len() == 8);
    assert("nodiratime"@.len() == 10);
    assert("nodev"@[0] != "rbind"@[0]);
    assert("noexec"@[2] != "nosuid"@[2]);
    assert("rnoexec"@[3] != "rnosuid"@[3]);
    assert("sync"@[0] != "bind"@[0]);
    assert("remount"@[1] != "rnosuid"@[1]);
    assert("remount"@[1] != "rnoexec"@[1]);
    assert("dirsync"@[0] != "rnosuid"@[0]);
    assert("dirsync"@[0] != "rnoexec"@[0]);
    assert("dirsync"@[0] != "remount"@[0]);
    assert("noatime"@[0] != "rnosuid"@[0]);
    assert("noatime"@[0] != "rnoexec"@[0]);
    assert("noatime"@[0] != "remount"@[0]);
    assert("noatime"@[0] != "dirsync"@[0]);
    assert("private"@[0] != "rnosuid"@[0]);
    assert("private"@[0] != "rnoexec"@[0]);
    assert("private"@[0] != "remount"@[0]);
    assert("private"@[0] != "dirsync"@[0]);
    assert("private"@[0] != "noatime"@[0]);
    assert("rprivate"@[1] != "rnoatime"@[1]);
    assert("slave"@[0] != "rbind"@[0]);
    assert("slave"@[0] != "nodev"@[0]);
    assert("rslave"@[0] != "nosuid"@[0]);
    assert("rslave"@[0] != "noexec"@[0]);
    assert("shared"@[0] != "nosuid"@[0]);
    assert("shared"@[0] != "noexec"@[0]);
    assert("shared"@[0] != "rslave"@[0]);
    assert("rshared"@[1] != "rnosuid"@[1]);
    assert("rshared"@[1] != "rnoexec"@[1]);
    assert("rshared"@[1] != "remount"@[1]);
    assert("rshared"@[0] != "dirsync"@[0]);
    assert("rshared"@[0] != "noatime"@[0]);
    assert("rshared"@[0] != "private"@[0]);
    assert("iversion"@[0] != "rnoatime"@[0]);
    assert("iversion"@[0] != "rprivate"@[0]);
    assert("strictatime"@[0] != "runbindable"@[0]);
    assert("lazytime"@[0] != "rnoatime"@[0]);
    assert("lazytime"@[0] != "rprivate"@[0]);
    assert("lazytime"@[0] != "iversion"@[0]);
    assert("nodiratime"@[0] != "unbindable"@[0]);
}

/// One option alone: a flag name gives its flag and no data; any other option gives no
/// flag and is the data.
pub proof fn lemma_single_option(o: Seq<char>)
    ensures
        options_flags(seq![o]) == match option_flags(o) {
            Some(bits) => bits,
            None => 0u64,
        },
        data_options(seq![o]) == if option_flags(o) is Some {
            Seq::<Seq<char>>::empty()
        } else {
            seq![o]
        },
{
    assert(seq![o].drop_last() =~= Seq::<Seq<char>>::empty());
    assert(seq![o].last() == o);
    assert(options_flags(Seq::<Seq<char>>::empty()) == 0);
    assert(data_options(Seq::<Seq<char>>::empty()) =~= Seq::<Seq<char>>::empty());
    let bits = option_flags(o);
    if let Some(b) = bits {
        assert(0u64 | b == b) by (bit_vector);
    }
    assert(Seq::<Seq<char>>::empty().push(o) =~= seq![o]);
}

} // verus!
