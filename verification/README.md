# ksud

The logic of the KernelSU userspace daemon, verified with Verus.

## Layout

- `src/` is the verified library.
  - `uapi.rs`: command numbers and the command structures that travel with them,
    including the kernel's layout of an app profile.
  - `ksucalls.rs`: every driver command, run through a `Driver` (a descriptor and the
    `ioctl` on it); picking the driver descriptor; the bookkeeping around system calls
    that seccomp blocks; fixed C string fields.
  - `profile.rs`: app profiles in the shape that is printed and read, and the
    conversions to and from the kernel layout; the uid of a package.
  - `bitnames.rs`: the capability and flag names of a root profile, and the proof
    that no two are alike.
  - `risk.rs`: screening a module's description against the risk catalog, the choice
    of catalog, and the messages shown.
  - `text.rs`: whitespace, words, lines, decimal numbers, and the Unicode mappings
    that std and `unicode-normalization` provide.
  - `error.rs`: the errors the library reports.
- `app/` holds what touches the system: the `ioctl` itself, the SIGSYS handler,
  `/proc/self/fd`, files, fetching the catalog, JSON, and the messages of errors.
- `tests/` runs the library on concrete values.

## Laws proved

- A string that fits a zeroed C field reads back unchanged.
- The namespace numbering is a bijection on 0, 1, 2.
- A mask survives a trip through its names, numbered bits included, for any table of
  at most 64 distinct names that read as themselves; the capability and flag tables
  are such tables.
- A profile laid out for the kernel reads back as set (names in canonical form), and
  setting back what was read back changes nothing.
- A call that seccomp blocks while guarded is reported once.
- Settling the driver descriptor uses an inherited one as it is, and otherwise takes
  one guarded install call, after which the SIGSYS record is clear.
- The kernel's information is asked once and cached.
