# libcontainer

The core of a small rootless OCI container runtime, written in Verus.

`src/` is the verified library:

- `text`, `paths`: decimal numbers, prefixes, `KEY=VALUE` entries, and path joining.
- `flags`: the Linux mount and clone flags, read from `nix`.
- `mount`: mount options, and the plan for setting up a container's root file system.
- `namespaces`: which namespaces a configuration asks for and how they are entered.
- `state`, `container`: the OCI state of a container and where the runtime keeps it.
- `config`, `uts`: the parts of `config.json` that are read, and the UTS names.
- `protocol`, `builder`: the container builder, the init process plan, and the
  handshake between the main and the intermediate process as state machines.

`app/` carries out what the library decides: it reads `config.json` with `oci-spec`,
stores the state file with `serde_json`, talks over Unix sockets, and makes the system
calls (`unshare`, `mount`, `sethostname`, `setuid`, `fork`, `exec`) with `nix` and `libc`.
