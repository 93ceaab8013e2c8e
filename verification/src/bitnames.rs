//! The names of the capability and flag bits of a root profile, and the proof that
//! each table reads back: every name plain, no two alike.
use vstd::prelude::*;

verus! {

broadcast use vstd::string::group_string_axioms;

/// Capability names by bit, in the order the kernel numbers them.
pub open spec fn capability_names() -> Seq<Seq<char>> {
    seq![
        "CHOWN"@,
        "DAC_OVERRIDE"@,
        "DAC_READ_SEARCH"@,
        "FOWNER"@,
        "FSETID"@,
        "KILL"@,
        "SETGID"@,
        "SETUID"@,
        "SETPCAP"@,
        "LINUX_IMMUTABLE"@,
        "NET_BIND_SERVICE"@,
        "NET_BROADCAST"@,
        "NET_ADMIN"@,
        "NET_RAW"@,
        "IPC_LOCK"@,
        "IPC_OWNER"@,
        "SYS_MODULE"@,
        "SYS_RAWIO"@,
        "SYS_CHROOT"@,
        "SYS_PTRACE"@,
        "SYS_PACCT"@,
        "SYS_ADMIN"@,
        "SYS_BOOT"@,
        "SYS_NICE"@,
        "SYS_RESOURCE"@,
        "SYS_TIME"@,
        "SYS_TTY_CONFIG"@,
        "MKNOD"@,
        "LEASE"@,
        "AUDIT_WRITE"@,
        "AUDIT_CONTROL"@,
        "SETFCAP"@,
        "MAC_OVERRIDE"@,
        "MAC_ADMIN"@,
        "SYSLOG"@,
        "WAKE_ALARM"@,
        "BLOCK_SUSPEND"@,
        "AUDIT_READ"@,
        "PERFMON"@,
        "BPF"@,
        "CHECKPOINT_RESTORE"@,
    ]
}

/// The only root profile flag the kernel defines, by bit.
pub open spec fn flag_names() -> Seq<Seq<char>> {
    seq!["NO_NEW_PRIVS"@]
}

pub open spec fn strs_view(v: Seq<&str>) -> Seq<Seq<char>> {
    v.map_values(|s: &str| s@)
}

/// The capability names.
pub fn capabilities() -> (r: Vec<&'static str>)
    ensures
        strs_view(r@) == capability_names(),
{
    let r = vec![
        "CHOWN",
        "DAC_OVERRIDE",
        "DAC_READ_SEARCH",
        "FOWNER",
        "FSETID",
        "KILL",
        "SETGID",
        "SETUID",
        "SETPCAP",
        "LINUX_IMMUTABLE",
        "NET_BIND_SERVICE",
        "NET_BROADCAST",
        "NET_ADMIN",
        "NET_RAW",
        "IPC_LOCK",
        "IPC_OWNER",
        "SYS_MODULE",
        "SYS_RAWIO",
        "SYS_CHROOT",
        "SYS_PTRACE",
        "SYS_PACCT",
        "SYS_ADMIN",
        "SYS_BOOT",
        "SYS_NICE",
        "SYS_RESOURCE",
        "SYS_TIME",
        "SYS_TTY_CONFIG",
        "MKNOD",
        "LEASE",
        "AUDIT_WRITE",
        "AUDIT_CONTROL",
        "SETFCAP",
        "MAC_OVERRIDE",
        "MAC_ADMIN",
        "SYSLOG",
        "WAKE_ALARM",
        "BLOCK_SUSPEND",
        "AUDIT_READ",
        "PERFMON",
        "BPF",
        "CHECKPOINT_RESTORE",
    ];
    assert(strs_view(r@) =~= capability_names());
    r
}

/// The flag names.
pub fn flags() -> (r: Vec<&'static str>)
    ensures
        strs_view(r@) == flag_names(),
{
    let r = vec!["NO_NEW_PRIVS"];
    assert(strs_view(r@) =~= flag_names());
    r
}

/// The prefix capability names may carry.
pub open spec fn cap_prefix() -> Seq<char> {
    seq!['C', 'A', 'P', '_']
}

/// A character a bit name is made of: an upper case ASCII letter or an underscore.
pub open spec fn name_char(c: char) -> bool {
    65 <= (c as u32) <= 90 || c == '_'
}

/// A name that reads back as itself: made of upper case letters and underscores, and
/// without a `CAP_` prefix.
pub open spec fn plain_name(n: Seq<char>) -> bool {
    &&& n.len() > 0
    &&& forall|k: int| 0 <= k < n.len() ==> name_char(#[trigger] n[k])
    &&& !(n.len() >= 4 && n.take(4) == cap_prefix())
}

/// A table of bit names that round trips: no more than 64 names, each plain, no two alike.
pub open spec fn name_table(names: Seq<Seq<char>>) -> bool {
    &&& names.len() <= 64
    &&& forall|i: int| 0 <= i < names.len() ==> plain_name(#[trigger] names[i])
    &&& forall|i: int, j: int| 0 <= i < j < names.len() ==> names[i] != names[j]
}

/// The character at `i`, or `#` past the end.
spec fn char_at(n: Seq<char>, i: int) -> char {
    if 0 <= i < n.len() {
        n[i]
    } else {
        '#'
    }
}

/// A key that tells the capability names apart: the length, and the characters at
/// 0, 3 and 4.
spec fn name_key(n: Seq<char>) -> (int, char, char, char) {
    (n.len() as int, char_at(n, 0), char_at(n, 3), char_at(n, 4))
}

/// The bit of the capability name with the given key; -1 for any other key.
spec fn capability_bit_of_key(k: (int, char, char, char)) -> int {
    if k == (5int, 'C', 'W', 'N') {
        0
    } else if k == (12int, 'D', '_', 'O') {
        1
    } else if k == (15int, 'D', '_', 'R') {
        2
    } else if k == (6int, 'F', 'N', 'E') {
        3
    } else if k == (6int, 'F', 'T', 'I') {
        4
    } else if k == (4int, 'K', 'L', '#') {
        5
    } else if k == (6int, 'S', 'G', 'I') {
        6
    } else if k == (6int, 'S', 'U', 'I') {
        7
    } else if k == (7int, 'S', 'P', 'C') {
        8
    } else if k == (15int, 'L', 'U', 'X') {
        9
    } else if k == (16int, 'N', '_', 'B') {
        10
    } else if k == (13int, 'N', '_', 'B') {
        11
    } else if k == (9int, 'N', '_', 'A') {
        12
    } else if k == (7int, 'N', '_', 'R') {
        13
    } else if k == (8int, 'I', '_', 'L') {
        14
    } else if k == (9int, 'I', '_', 'O') {
        15
    } else if k == (10int, 'S', '_', 'M') {
        16
    } else if k == (9int, 'S', '_', 'R') {
        17
    } else if k == (10int, 'S', '_', 'C') {
        18
    } else if k == (10int, 'S', '_', 'P') {
        19
    } else if k == (9int, 'S', '_', 'P') {
        20
    } else if k == (9int, 'S', '_', 'A') {
        21
    } else if k == (8int, 'S', '_', 'B') {
        22
    } else if k == (8int, 'S', '_', 'N') {
        23
    } else if k == (12int, 'S', '_', 'R') {
        24
    } else if k == (8int, 'S', '_', 'T') {
        25
    } else if k == (14int, 'S', '_', 'T') {
        26
    } else if k == (5int, 'M', 'O', 'D') {
        27
    } else if k == (5int, 'L', 'S', 'E') {
        28
    } else if k == (11int, 'A', 'I', 'T') {
        29
    } else if k == (13int, 'A', 'I', 'T') {
        30
    } else if k == (7int, 'S', 'F', 'C') {
        31
    } else if k == (12int, 'M', '_', 'O') {
        32
    } else if k == (9int, 'M', '_', 'A') {
        33
    } else if k == (6int, 'S', 'L', 'O') {
        34
    } else if k == (10int, 'W', 'E', '_') {
        35
    } else if k == (13int, 'B', 'C', 'K') {
        36
    } else if k == (10int, 'A', 'I', 'T') {
        37
    } else if k == (7int, 'P', 'F', 'M') {
        38
    } else if k == (3int, 'B', '#', '#') {
        39
    } else if k == (18int, 'C', 'C', 'K') {
        40
    } else {
        -1
    }
}

/// From index `k` on, every name is plain and its key gives back its bit.
spec fn keyed_from(n: Seq<Seq<char>>, k: int) -> bool
    decreases n.len() - k,
{
    if k < 0 || k >= n.len() {
        true
    } else {
        plain_name(n[k]) && capability_bit_of_key(name_key(n[k])) == k && keyed_from(n, k + 1)
    }
}

proof fn lemma_keyed_from(n: Seq<Seq<char>>, k: int)
    requires
        0 <= k,
        keyed_from(n, k),
    ensures
        forall|i: int| k <= i < n.len() ==> plain_name(#[trigger] n[i])
            && capability_bit_of_key(name_key(n[i])) == i,
    decreases n.len() - k,
{
    if k < n.len() {
        lemma_keyed_from(n, k + 1);
    }
}

/// The capability names form a table that round trips.
pub proof fn lemma_capability_table()
    ensures
        name_table(capability_names()),
{
    reveal_strlit("CHOWN");
    reveal_strlit("DAC_OVERRIDE");
    reveal_strlit("DAC_READ_SEARCH");
    reveal_strlit("FOWNER");
    reveal_strlit("FSETID");
    reveal_strlit("KILL");
    reveal_strlit("SETGID");
    reveal_strlit("SETUID");
    reveal_strlit("SETPCAP");
    reveal_strlit("LINUX_IMMUTABLE");
    reveal_strlit("NET_BIND_SERVICE");
    reveal_strlit("NET_BROADCAST");
    reveal_strlit("NET_ADMIN");
    reveal_strlit("NET_RAW");
    reveal_strlit("IPC_LOCK");
    reveal_strlit("IPC_OWNER");
    reveal_strlit("SYS_MODULE");
    reveal_strlit("SYS_RAWIO");
    reveal_strlit("SYS_CHROOT");
    reveal_strlit("SYS_PTRACE");
    reveal_strlit("SYS_PACCT");
    reveal_strlit("SYS_ADMIN");
    reveal_strlit("SYS_BOOT");
    reveal_strlit("SYS_NICE");
    reveal_strlit("SYS_RESOURCE");
    reveal_strlit("SYS_TIME");
    reveal_strlit("SYS_TTY_CONFIG");
    reveal_strlit("MKNOD");
    reveal_strlit("LEASE");
    reveal_strlit("AUDIT_WRITE");
    reveal_strlit("AUDIT_CONTROL");
    reveal_strlit("SETFCAP");
    reveal_strlit("MAC_OVERRIDE");
    reveal_strlit("MAC_ADMIN");
    reveal_strlit("SYSLOG");
    reveal_strlit("WAKE_ALARM");
    reveal_strlit("BLOCK_SUSPEND");
    reveal_strlit("AUDIT_READ");
    reveal_strlit("PERFMON");
    reveal_strlit("BPF");
    reveal_strlit("CHECKPOINT_RESTORE");
    let n = capability_names();
    assert(keyed_from(n, 0)) by {
        reveal_with_fuel(keyed_from, 42);
    }
    lemma_keyed_from(n, 0);
    assert forall|i: int, j: int| 0 <= i < j < n.len() implies n[i] != n[j] by {
        assert(capability_bit_of_key(name_key(n[i])) == i);
        assert(capability_bit_of_key(name_key(n[j])) == j);
    }
}

/// The flag names form a table that round trips.
pub proof fn lemma_flag_table()
    ensures
        name_table(flag_names()),
{
    reveal_strlit("NO_NEW_PRIVS");
    assert(plain_name(flag_names()[0]));
}

} // verus!
