//! The Linux flag values that mounting and namespace creation use, read from
//! `nix`'s flag sets (`nix::mount::MsFlags`, `nix::sched::CloneFlags`), whose bits are
//! `libc`'s constants.
use vstd::prelude::*;

verus! {

/// The bits of `nix::mount::MsFlags::MS_RDONLY`, defined by `nix` as `libc::MS_RDONLY`, which
/// `libc` sets to `0x1` on Linux.
#[verifier::external_body]
pub(crate) fn ms_rdonly() -> (r: u64)
    ensures
        r == 0x1,
{
    nix::mount::MsFlags::MS_RDONLY.bits()
}

/// The bits of `nix::mount::MsFlags::MS_NOSUID`, defined by `nix` as `libc::MS_NOSUID`, which
/// `libc` sets to `0x2` on Linux.
#[verifier::external_body]
pub(crate) fn ms_nosuid() -> (r: u64)
    ensures
        r == 0x2,
{
    nix::mount::MsFlags::MS_NOSUID.bits()
}

/// The bits of `nix::mount::MsFlags::MS_NODEV`, defined by `nix` as `libc::MS_NODEV`, which
/// `libc` sets to `0x4` on Linux.
#[verifier::external_body]
pub(crate) fn ms_nodev() -> (r: u64)
    ensures
        r == 0x4,
{
    nix::mount::MsFlags::MS_NODEV.bits()
}

/// The bits of `nix::mount::MsFlags::MS_NOEXEC`, defined by `nix` as `libc::MS_NOEXEC`, which
/// `libc` sets to `0x8` on Linux.
#[verifier::external_body]
pub(crate) fn ms_noexec() -> (r: u64)
    ensures
        r == 0x8,
{
    nix::mount::MsFlags::MS_NOEXEC.bits()
}

/// The bits of `nix::mount::MsFlags::MS_SYNCHRONOUS`, defined by `nix` as `libc::MS_SYNCHRONOUS`, which
/// `libc` sets to `0x10` on Linux.
#[verifier::external_body]
pub(crate) fn ms_synchronous() -> (r: u64)
    ensures
        r == 0x10,
{
    nix::mount::MsFlags::MS_SYNCHRONOUS.bits()
}

/// The bits of `nix::mount::MsFlags::MS_REMOUNT`, defined by `nix` as `libc::MS_REMOUNT`, which
/// `libc` sets to `0x20` on Linux.
#[verifier::external_body]
pub(crate) fn ms_remount() -> (r: u64)
    ensures
        r == 0x20,
{
    nix::mount::MsFlags::MS_REMOUNT.bits()
}

/// The bits of `nix::mount::MsFlags::MS_DIRSYNC`, defined by `nix` as `libc::MS_DIRSYNC`, which
/// `libc` sets to `0x80` on Linux.
#[verifier::external_body]
pub(crate) fn ms_dirsync() -> (r: u64)
    ensures
        r == 0x80,
{
    nix::mount::MsFlags::MS_DIRSYNC.bits()
}

/// The bits of `nix::mount::MsFlags::MS_NOATIME`, defined by `nix` as `libc::MS_NOATIME`, which
/// `libc` sets to `0x400` on Linux.
#[verifier::external_body]
pub(crate) fn ms_noatime() -> (r: u64)
    ensures
        r == 0x400,
{
    nix::mount::MsFlags::MS_NOATIME.bits()
}

/// The bits of `nix::mount::MsFlags::MS_NODIRATIME`, defined by `nix` as `libc::MS_NODIRATIME`, which
/// `libc` sets to `0x800` on Linux.
#[verifier::external_body]
pub(crate) fn ms_nodiratime() -> (r: u64)
    ensures
        r == 0x800,
{
    nix::mount::MsFlags::MS_NODIRATIME.bits()
}

/// The bits of `nix::mount::MsFlags::MS_BIND`, defined by `nix` as `libc::MS_BIND`, which
/// `libc` sets to `0x1000` on Linux.
#[verifier::external_body]
pub(crate) fn ms_bind() -> (r: u64)
    ensures
        r == 0x1000,
{
    nix::mount::MsFlags::MS_BIND.bits()
}

/// The bits of `nix::mount::MsFlags::MS_REC`, defined by `nix` as `libc::MS_REC`, which
/// `libc` sets to `0x4000` on Linux.
#[verifier::external_body]
pub(crate) fn ms_rec() -> (r: u64)
    ensures
        r == 0x4000,
{
    nix::mount::MsFlags::MS_REC.bits()
}

/// The bits of `nix::mount::MsFlags::MS_UNBINDABLE`, defined by `nix` as `libc::MS_UNBINDABLE`, which
/// `libc` sets to `0x20000` on Linux.
#[verifier::external_body]
pub(crate) fn ms_unbindable() -> (r: u64)
    ensures
        r == 0x20000,
{
    nix::mount::MsFlags::MS_UNBINDABLE.bits()
}

/// The bits of `nix::mount::MsFlags::MS_PRIVATE`, defined by `nix` as `libc::MS_PRIVATE`, which
/// `libc` sets to `0x40000` on Linux.
#[verifier::external_body]
pub(crate) fn ms_private() -> (r: u64)
    ensures
        r == 0x40000,
{
    nix::mount::MsFlags::MS_PRIVATE.bits()
}

/// The bits of `nix::mount::MsFlags::MS_SLAVE`, defined by `nix` as `libc::MS_SLAVE`, which
/// `libc` sets to `0x80000` on Linux.
#[verifier::external_body]
pub(crate) fn ms_slave() -> (r: u64)
    ensures
        r == 0x80000,
{
    nix::mount::MsFlags::MS_SLAVE.bits()
}

/// The bits of `nix::mount::MsFlags::MS_SHARED`, defined by `nix` as `libc::MS_SHARED`, which
/// `libc` sets to `0x100000` on Linux.
#[verifier::external_body]
pub(crate) fn ms_shared() -> (r: u64)
    ensures
        r == 0x100000,
{
    nix::mount::MsFlags::MS_SHARED.bits()
}

/// The bits of `nix::mount::MsFlags::MS_I_VERSION`, defined by `nix` as `libc::MS_I_VERSION`, which
/// `libc` sets to `0x800000` on Linux.
#[verifier::external_body]
pub(crate) fn ms_i_version() -> (r: u64)
    ensures
        r == 0x800000,
{
    nix::mount::MsFlags::MS_I_VERSION.bits()
}

/// The bits of `nix::mount::MsFlags::MS_STRICTATIME`, defined by `nix` as `libc::MS_STRICTATIME`, which
/// `libc` sets to `0x1000000` on Linux.
#[verifier::external_body]
pub(crate) fn ms_strictatime() -> (r: u64)
    ensures
        r == 0x1000000,
{
    nix::mount::MsFlags::MS_STRICTATIME.bits()
}

/// The bits of `nix::mount::MsFlags::MS_LAZYTIME`, defined by `nix` as `libc::MS_LAZYTIME`, which
/// `libc` sets to `0x2000000` on Linux.
#[verifier::external_body]
pub(crate) fn ms_lazytime() -> (r: u64)
    ensures
        r == 0x2000000,
{
    nix::mount::MsFlags::MS_LAZYTIME.bits()
}

/// The bits of `nix::sched::CloneFlags::CLONE_NEWNS`, defined by `nix` as `libc::CLONE_NEWNS`,
/// which `libc` sets to `0x20000` on Linux.
#[verifier::external_body]
pub(crate) fn clone_newns() -> (r: i32)
    ensures
        r == 0x20000,
{
    nix::sched::CloneFlags::CLONE_NEWNS.bits()
}

/// The bits of `nix::sched::CloneFlags::CLONE_NEWCGROUP`, defined by `nix` as `libc::CLONE_NEWCGROUP`,
/// which `libc` sets to `0x2000000` on Linux.
#[verifier::external_body]
pub(crate) fn clone_newcgroup() -> (r: i32)
    ensures
        r == 0x2000000,
{
    nix::sched::CloneFlags::CLONE_NEWCGROUP.bits()
}

/// The bits of `nix::sched::CloneFlags::CLONE_NEWUTS`, defined by `nix` as `libc::CLONE_NEWUTS`,
/// which `libc` sets to `0x4000000` on Linux.
#[verifier::external_body]
pub(crate) fn clone_newuts() -> (r: i32)
    ensures
        r == 0x4000000,
{
    nix::sched::CloneFlags::CLONE_NEWUTS.bits()
}

/// The bits of `nix::sched::CloneFlags::CLONE_NEWIPC`, defined by `nix` as `libc::CLONE_NEWIPC`,
/// which `libc` sets to `0x8000000` on Linux.
#[verifier::external_body]
pub(crate) fn clone_newipc() -> (r: i32)
    ensures
        r == 0x8000000,
{
    nix::sched::CloneFlags::CLONE_NEWIPC.bits()
}

/// The bits of `nix::sched::CloneFlags::CLONE_NEWUSER`, defined by `nix` as `libc::CLONE_NEWUSER`,
/// which `libc` sets to `0x10000000` on Linux.
#[verifier::external_body]
pub(crate) fn clone_newuser() -> (r: i32)
    ensures
        r == 0x10000000,
{
    nix::sched::CloneFlags::CLONE_NEWUSER.bits()
}

/// The bits of `nix::sched::CloneFlags::CLONE_NEWPID`, defined by `nix` as `libc::CLONE_NEWPID`,
/// which `libc` sets to `0x20000000` on Linux.
#[verifier::external_body]
pub(crate) fn clone_newpid() -> (r: i32)
    ensures
        r == 0x20000000,
{
    nix::sched::CloneFlags::CLONE_NEWPID.bits()
}

/// The bits of `nix::sched::CloneFlags::CLONE_NEWNET`, defined by `nix` as `libc::CLONE_NEWNET`,
/// which `libc` sets to `0x40000000` on Linux.
#[verifier::external_body]
pub(crate) fn clone_newnet() -> (r: i32)
    ensures
        r == 0x40000000,
{
    nix::sched::CloneFlags::CLONE_NEWNET.bits()
}

} // verus!
