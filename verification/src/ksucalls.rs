//! The commands ksud sends to the KernelSU driver, and what it makes of the answers.
//!
//! Every command goes through a [`Driver`]: the descriptor and the `ioctl` that runs a
//! command on it. The contracts fix the command each function hands over, and say what
//! the function returns for every answer the driver can give.
use vstd::prelude::*;
use vstd::utf8::*;
use crate::error::{CField, CStrError, IoctlError, KsuError};
use crate::uapi;
use crate::uapi::{
    Driver, IoctlCall, IoctlCallView, IoctlOutcome, KernelAppProfile, KernelAppProfileView, KsuInfo,
    Payload, PayloadView,
};

verus! {

broadcast use vstd::string::group_string_axioms;

// ---------------------------------------------------------------------------
// Running a command
// ---------------------------------------------------------------------------

/// What `ksuctl_raw` makes of one `ioctl` outcome.
pub open spec fn raw_result(o: IoctlOutcome) -> Result<(i32, PayloadView), IoctlError> {
    if o.ret < 0 {
        Err(IoctlError::Os(o.errno))
    } else {
        Ok((o.ret, o.payload@))
    }
}

/// `r` is a result that running the command `cv` on `drv` can have.
pub open spec fn runs<F: Fn(i32, IoctlCall) -> IoctlOutcome>(
    drv: &Driver<F>,
    cv: IoctlCallView,
    r: Result<(i32, PayloadView), IoctlError>,
) -> bool {
    if drv.fd < 0 {
        r == Err::<(i32, PayloadView), IoctlError>(IoctlError::NoDriver)
    } else {
        exists|c: IoctlCall, o: IoctlOutcome|
            c@ == cv && #[trigger] drv.ioctl.ensures((drv.fd, c), o) && r == raw_result(o)
    }
}

pub open spec fn result_view(r: Result<(i32, Payload), IoctlError>) -> Result<
    (i32, PayloadView),
    IoctlError,
> {
    match r {
        Ok((ret, p)) => Ok((ret, p@)),
        Err(e) => Err(e),
    }
}

/// Runs one command on the driver, with the error left as the kernel reported it.
///
/// Some commands answer with an errno that is an answer rather than a failure (a profile
/// that was never set comes back as ENOENT), so callers that care can tell them apart
/// from a missing driver.
pub fn ksuctl_raw<F: Fn(i32, IoctlCall) -> IoctlOutcome>(drv: &Driver<F>, call: IoctlCall) -> (r:
    Result<(i32, Payload), IoctlError>)
    requires
        drv.callable(),
    ensures
        runs(drv, call@, result_view(r)),
{
    if drv.fd < 0 {
        return Err(IoctlError::NoDriver);
    }
    let ghost c = call;
    let f = &drv.ioctl;
    let o = f(drv.fd, call);
    assert(drv.ioctl.ensures((drv.fd, c), o));
    if o.ret < 0 {
        Err(IoctlError::Os(o.errno))
    } else {
        Ok((o.ret, o.payload))
    }
}

/// The result of a command whose answer is only its return value.
pub open spec fn ret_only(a: Result<(i32, PayloadView), IoctlError>) -> Result<i32, KsuError> {
    match a {
        Ok((ret, _)) => Ok(ret),
        Err(e) => Err(KsuError::Ioctl(e)),
    }
}

/// The result of a command whose only answer is that it ran.
pub open spec fn unit_only(a: Result<(i32, PayloadView), IoctlError>) -> Result<(), KsuError> {
    match a {
        Ok(_) => Ok(()),
        Err(e) => Err(KsuError::Ioctl(e)),
    }
}

/// Runs a command, reporting any failure as a driver error.
fn ksuctl<F: Fn(i32, IoctlCall) -> IoctlOutcome>(drv: &Driver<F>, call: IoctlCall) -> (r: Result<
    (i32, Payload),
    KsuError,
>)
    requires
        drv.callable(),
    ensures
        exists|a| #[trigger]
            runs(drv, call@, a) && match r {
                Ok((ret, p)) => a == Ok::<(i32, PayloadView), IoctlError>((ret, p@)),
                Err(e) => exists|ie: IoctlError|
                    a == Err::<(i32, PayloadView), IoctlError>(ie) && e == KsuError::Ioctl(ie),
            },
{
    let ghost c = call@;
    let r = ksuctl_raw(drv, call);
    assert(runs(drv, c, result_view(r)));
    match r {
        Ok(v) => Ok(v),
        Err(e) => Err(KsuError::Ioctl(e)),
    }
}

// ---------------------------------------------------------------------------
// System calls that seccomp blocks
// ---------------------------------------------------------------------------

/// The `si_code` of a SIGSYS that seccomp raised.
pub const SYS_SECCOMP: i32 = 1;

/// What a thread keeps around a raw system call that seccomp may block: whether such
/// a call is running, and whether seccomp blocked one while it was.
#[derive(Debug, Clone, Copy, PartialEq, Eq, Structural)]
pub struct SvcState {
    pub in_flight: bool,
    pub sigsys_occurred: bool,
}

/// The state once a guarded call starts running.
pub open spec fn started(s: SvcState) -> SvcState {
    SvcState { in_flight: true, sigsys_occurred: s.sigsys_occurred }
}

/// The state once a guarded call has returned.
pub open spec fn finished(s: SvcState) -> SvcState {
    SvcState { in_flight: false, sigsys_occurred: s.sigsys_occurred }
}

/// What asking whether seccomp blocked a call answers, and the state afterwards.
pub open spec fn taken(s: SvcState) -> (bool, SvcState) {
    (s.sigsys_occurred, SvcState { in_flight: s.in_flight, sigsys_occurred: false })
}

/// What one SIGSYS leaves: the state afterwards, and whether the blocked call is made
/// to return EPERM.
pub open spec fn handled(s: SvcState, has_info: bool, has_ctx: bool, si_code: i32) -> (SvcState, bool) {
    if has_info && has_ctx && si_code == SYS_SECCOMP {
        (SvcState { in_flight: s.in_flight, sigsys_occurred: s.sigsys_occurred || s.in_flight }, true)
    } else {
        (s, false)
    }
}

/// A guarded call starts running.
pub fn svc_call_started(s: SvcState) -> (r: SvcState)
    ensures
        r == started(s),
{
    SvcState { in_flight: true, sigsys_occurred: s.sigsys_occurred }
}

/// A guarded call has returned.
pub fn svc_call_finished(s: SvcState) -> (r: SvcState)
    ensures
        r == finished(s),
{
    SvcState { in_flight: false, sigsys_occurred: s.sigsys_occurred }
}

/// Whether seccomp blocked a guarded call since the last time this was asked; asking
/// clears the record.
pub fn take_sigsys_occurred(s: &mut SvcState) -> (r: bool)
    ensures
        (r, *final(s)) == taken(*old(s)),
{
    let occurred = s.sigsys_occurred;
    s.sigsys_occurred = false;
    occurred
}

/// What the SIGSYS handler makes of one signal: the thread's state afterwards, and
/// whether the blocked call is made to return EPERM. A signal that comes without its
/// information or context, or that seccomp did not raise, is left alone. One that
/// seccomp raised always makes the call fail, and is recorded when a guarded call was
/// running.
pub fn sigsys_handler(s: SvcState, has_info: bool, has_ctx: bool, si_code: i32) -> (r: (
    SvcState,
    bool,
))
    ensures
        r == handled(s, has_info, has_ctx, si_code),
{
    if !has_info || !has_ctx || si_code != SYS_SECCOMP {
        return (s, false);
    }
    let mut next = s;
    if s.in_flight {
        next.sigsys_occurred = true;
    }
    (next, true)
}

/// A call that seccomp blocks while it is guarded fails with EPERM and is reported by
/// the next question, once; a block outside a guarded call fails the call too and is
/// not reported.
pub proof fn lemma_blocked_call_reported_once(s: SvcState)
    ensures
        handled(started(taken(s).1), true, true, SYS_SECCOMP).1,
        taken(finished(handled(started(taken(s).1), true, true, SYS_SECCOMP).0)).0,
        !taken(taken(finished(handled(started(taken(s).1), true, true, SYS_SECCOMP).0)).1).0,
        handled(finished(taken(s).1), true, true, SYS_SECCOMP).1,
        !taken(handled(finished(taken(s).1), true, true, SYS_SECCOMP).0).0,
{
}

// ---------------------------------------------------------------------------
// The driver descriptor
// ---------------------------------------------------------------------------

/// One entry of `/proc/self/fd`: its file name, and where its link points when it
/// could be read.
pub struct FdEntry {
    pub name: String,
    pub target: Option<String>,
}

pub open spec fn driver_fd_name() -> Seq<char> {
    "anon_inode:[ksu_driver]"@
}

pub open spec fn su_driver_fd_name() -> Seq<char> {
    "anon_inode:[ksu_driver_su]"@
}

/// The entry is a descriptor number whose link points at `target`.
pub open spec fn entry_points_at(e: FdEntry, target: Seq<char>) -> bool {
    &&& crate::text::parse_i32_spec(e.name@) is Some
    &&& e.target matches Some(t) && t@ == target
}

/// The descriptor that the scan settles on: the first one that points at the su
/// driver, else the last one that points at the driver.
pub open spec fn scanned_fd(entries: Seq<FdEntry>) -> Option<i32> {
    if exists|i: int| 0 <= i < entries.len() && entry_points_at(entries[i], su_driver_fd_name()) {
        let i = choose|i: int|
            0 <= i < entries.len() && entry_points_at(entries[i], su_driver_fd_name()) && forall|
                j: int,
            | 0 <= j < i ==> !entry_points_at(#[trigger] entries[j], su_driver_fd_name());
        crate::text::parse_i32_spec(entries[i].name@)
    } else if exists|i: int| 0 <= i < entries.len() && entry_points_at(entries[i], driver_fd_name()) {
        let i = choose|i: int|
            0 <= i < entries.len() && entry_points_at(entries[i], driver_fd_name()) && forall|
                j: int,
            | i < j < entries.len() ==> !entry_points_at(#[trigger] entries[j], driver_fd_name());
        crate::text::parse_i32_spec(entries[i].name@)
    } else {
        None
    }
}

/// Finds an inherited driver descriptor among the process's open descriptors.
pub fn scan_driver_fd(entries: &Vec<FdEntry>) -> (r: Option<i32>)
    ensures
        r == scanned_fd(entries@),
{
    let mut driver_fd: Option<i32> = None;
    let ghost mut last: int = -1;
    let su = "anon_inode:[ksu_driver_su]";
    let plain = "anon_inode:[ksu_driver]";
    proof {
        reveal_strlit("anon_inode:[ksu_driver_su]");
        reveal_strlit("anon_inode:[ksu_driver]");
        assert(su@ =~= su_driver_fd_name());
        assert(plain@ =~= driver_fd_name());
    }
    let mut i: usize = 0;
    while i < entries.len()
        invariant
            i <= entries@.len(),
            su@ == su_driver_fd_name(),
            plain@ == driver_fd_name(),
            forall|j: int| 0 <= j < i ==> !entry_points_at(#[trigger] entries@[j], su_driver_fd_name()),
            -1 <= last < i,
            last == -1 ==> driver_fd is None && forall|j: int|
                0 <= j < i ==> !entry_points_at(#[trigger] entries@[j], driver_fd_name()),
            last >= 0 ==> entry_points_at(entries@[last], driver_fd_name()) && driver_fd
                == crate::text::parse_i32_spec(entries@[last].name@) && forall|j: int|
                last < j < i ==> !entry_points_at(#[trigger] entries@[j], driver_fd_name()),
        decreases entries.len() - i,
    {
        let e = &entries[i];
        let name = crate::text::chars_of(e.name.as_str());
        match crate::text::parse_i32(&name) {
            Some(fd_num) => {
                match &e.target {
                    Some(t) => {
                        let is_su = crate::text::str_eq(t.as_str(), su);
                        if is_su {
                            proof {
                                assert(entry_points_at(entries@[i as int], su_driver_fd_name()));
                                let k = choose|k: int|
                                    0 <= k < entries@.len() && entry_points_at(
                                        entries@[k],
                                        su_driver_fd_name(),
                                    ) && forall|j: int|
                                        0 <= j < k ==> !entry_points_at(
                                            #[trigger] entries@[j],
                                            su_driver_fd_name(),
                                        );
                                assert(k == i) by {
                                    if k < i {
                                    } else if k > i {
                                        assert(!entry_points_at(entries@[i as int], su_driver_fd_name()));
                                    }
                                }
                            }
                            return Some(fd_num);
                        }
                        if crate::text::str_eq(t.as_str(), plain) {
                            driver_fd = Some(fd_num);
                            proof {
                                last = i as int;
                            }
                        }
                    },
                    None => {},
                }
            },
            None => {},
        }
        i += 1;
    }
    proof {
        if last >= 0 {
            let k = choose|k: int|
                0 <= k < entries@.len() && entry_points_at(entries@[k], driver_fd_name()) && forall|
                    j: int,
                | k < j < entries@.len() ==> !entry_points_at(#[trigger] entries@[j], driver_fd_name());
            assert(k == last) by {
                if k < last {
                    assert(!entry_points_at(entries@[last], driver_fd_name()));
                } else if k > last {
                }
            }
        }
    }
    driver_fd
}

/// Settles the cached driver descriptor once: a descriptor already cached stays, and
/// otherwise `scan` looks for an inherited one. Returns what the cache holds afterwards.
pub fn claim_inherited_driver_fd<S: Fn() -> Result<Option<i32>, String>>(
    cached: Option<i32>,
    scan: &S,
) -> (r: Result<Option<i32>, String>)
    requires
        scan.requires(()),
    ensures
        cached is Some ==> r == Ok::<Option<i32>, String>(cached),
        cached is None ==> exists|s: Result<Option<i32>, String>| #[trigger]
            scan.ensures((), s) && r == s,
{
    match cached {
        Some(fd) => Ok(Some(fd)),
        None => scan(),
    }
}

/// What installing the driver asks of the kernel: `reboot(2)` with the two install
/// magic numbers, a command of 0, and a pointer to a descriptor that starts at `fd`.
#[derive(Debug, Clone, Copy, PartialEq, Eq, Structural)]
pub struct InstallRequest {
    pub magic1: u32,
    pub magic2: u32,
    pub cmd: u32,
    pub fd: i32,
}

/// The install request: the magic numbers, command 0, and a descriptor of -1 that the
/// kernel overwrites when it installs the driver.
pub open spec fn install_request() -> InstallRequest {
    InstallRequest {
        magic1: uapi::KSU_INSTALL_MAGIC1,
        magic2: uapi::KSU_INSTALL_MAGIC2,
        cmd: 0,
        fd: -1i32,
    }
}

/// What happens while the driver descriptor is being settled.
#[derive(Debug, Clone, Copy, PartialEq, Eq, Structural)]
pub enum DriverFdEvent {
    /// The inherited descriptors were scanned, with what was found.
    Scanned(Option<i32>),
    /// The install call returned, leaving this descriptor.
    Installed(i32),
}

/// What to do next.
#[derive(Debug, Clone, Copy, PartialEq, Eq, Structural)]
pub enum DriverFdAction {
    /// Make the install call, guarded against seccomp.
    Install(InstallRequest),
    /// Done: the descriptor, if there is one, and whether seccomp blocked the install
    /// call, which is then reported.
    Use { fd: Option<i32>, blocked: bool },
}

/// The thread's state and the action after one event.
pub open spec fn driver_fd_step(s: SvcState, e: DriverFdEvent) -> (SvcState, DriverFdAction) {
    match e {
        DriverFdEvent::Scanned(Some(fd)) => (s, DriverFdAction::Use { fd: Some(fd), blocked: false }),
        DriverFdEvent::Scanned(None) => (started(s), DriverFdAction::Install(install_request())),
        DriverFdEvent::Installed(fd) => (
            taken(finished(s)).1,
            DriverFdAction::Use {
                fd: if fd >= 0 {
                    Some(fd)
                } else {
                    None
                },
                blocked: taken(finished(s)).0,
            },
        ),
    }
}

/// One step of settling the driver descriptor. An inherited descriptor is used as it
/// is, and nothing is installed. Otherwise the guarded install call is asked for; when
/// it has returned, its descriptor is used if it is one, the guard is lifted, and the
/// SIGSYS record is read and cleared.
pub fn init_driver_fd(svc: &mut SvcState, event: DriverFdEvent) -> (r: DriverFdAction)
    ensures
        (*final(svc), r) == driver_fd_step(*old(svc), event),
        event matches DriverFdEvent::Installed(_) ==> !final(svc).in_flight
            && !final(svc).sigsys_occurred,
{
    match event {
        DriverFdEvent::Scanned(Some(fd)) => DriverFdAction::Use { fd: Some(fd), blocked: false },
        DriverFdEvent::Scanned(None) => {
            *svc = svc_call_started(*svc);
            DriverFdAction::Install(
                InstallRequest {
                    magic1: uapi::KSU_INSTALL_MAGIC1,
                    magic2: uapi::KSU_INSTALL_MAGIC2,
                    cmd: 0,
                    fd: -1,
                },
            )
        },
        DriverFdEvent::Installed(fd) => {
            *svc = svc_call_finished(*svc);
            let blocked = take_sigsys_occurred(svc);
            let fd = if fd >= 0 {
                Some(fd)
            } else {
                None
            };
            DriverFdAction::Use { fd, blocked }
        },
    }
}

/// Settling the descriptor takes at most one install call: without an inherited
/// descriptor the install is asked for, and once it returns the descriptor is settled
/// with the guard lifted and the SIGSYS record clear; a block that seccomp raised
/// during the call is reported then.
pub proof fn lemma_single_install(s: SvcState, fd: i32)
    ensures
        driver_fd_step(s, DriverFdEvent::Scanned(Some(fd))) == (s, DriverFdAction::Use {
            fd: Some(fd),
            blocked: false,
        }),
        driver_fd_step(s, DriverFdEvent::Scanned(None)).1 == DriverFdAction::Install(
            install_request(),
        ),
        driver_fd_step(taken(s).1, DriverFdEvent::Scanned(None)).0.in_flight,
        ({
            let running = driver_fd_step(taken(s).1, DriverFdEvent::Scanned(None)).0;
            let blocked = handled(running, true, true, SYS_SECCOMP).0;
            &&& driver_fd_step(blocked, DriverFdEvent::Installed(fd)).1 is Use
            &&& driver_fd_step(blocked, DriverFdEvent::Installed(fd)).1->blocked
            &&& driver_fd_step(running, DriverFdEvent::Installed(fd)).1 == DriverFdAction::Use {
                fd: if fd >= 0 {
                    Some(fd)
                } else {
                    None
                },
                blocked: false,
            }
            &&& driver_fd_step(blocked, DriverFdEvent::Installed(fd)).0 == (SvcState {
                in_flight: false,
                sigsys_occurred: false,
            })
        }),
{
}

// ---------------------------------------------------------------------------
// Driver information
// ---------------------------------------------------------------------------

pub open spec fn zero_info() -> KsuInfo {
    KsuInfo { version: 0, flags: 0, features: 0, uapi_version: 0 }
}

pub open spec fn info_call(request: u32) -> IoctlCallView {
    IoctlCallView { request, payload: PayloadView::Info(zero_info()) }
}

/// The information the kernel left in the command, or what was sent when the answer
/// has another shape.
pub open spec fn info_answer(p: PayloadView, sent: KsuInfo) -> KsuInfo {
    match p {
        PayloadView::Info(i) => i,
        _ => sent,
    }
}

/// The information a command result leaves: the answer when it ran, else the zeroed
/// command as sent.
pub open spec fn info_after(a: Result<(i32, PayloadView), IoctlError>) -> KsuInfo {
    match a {
        Ok((_, p)) => info_answer(p, zero_info()),
        Err(_) => zero_info(),
    }
}

fn info_of(p: &Payload, sent: KsuInfo) -> (r: KsuInfo)
    ensures
        r == info_answer(p@, sent),
{
    match p {
        Payload::Info(i) => *i,
        _ => sent,
    }
}

/// `r` is what asking `drv` for its information can give: the current command's
/// answer, or, when it fails, the legacy command's.
pub open spec fn asked_info<F: Fn(i32, IoctlCall) -> IoctlOutcome>(drv: &Driver<F>, r: KsuInfo) -> bool {
    exists|a| #[trigger]
        runs(drv, info_call(uapi::KSU_IOCTL_GET_INFO), a) && match a {
            Ok(_) => r == info_after(a),
            Err(_) => exists|b| #[trigger]
                runs(drv, info_call(uapi::KSU_IOCTL_GET_INFO_LEGACY), b) && r == info_after(b),
        }
}

/// Asks the kernel for its version and flags, falling back on the legacy command when
/// the current one fails. All zero when neither answers.
pub fn get_info<F: Fn(i32, IoctlCall) -> IoctlOutcome>(drv: &Driver<F>) -> (r: KsuInfo)
    requires
        drv.callable(),
    ensures
        asked_info(drv, r),
{
    let zero = KsuInfo { version: 0, flags: 0, features: 0, uapi_version: 0 };
    let first = ksuctl(
        drv,
        IoctlCall { request: uapi::KSU_IOCTL_GET_INFO, payload: Payload::Info(zero) },
    );
    match first {
        Ok((_, p)) => info_of(&p, zero),
        Err(_) => {
            let second = ksuctl(
                drv,
                IoctlCall { request: uapi::KSU_IOCTL_GET_INFO_LEGACY, payload: Payload::Info(zero) },
            );
            match second {
                Ok((_, p)) => info_of(&p, zero),
                Err(_) => zero,
            }
        },
    }
}

/// The kernel's information, asked once: a cached answer is given back as it is, and
/// otherwise the kernel is asked and its answer cached, so that every later call gives
/// the same answer.
pub fn get_info_cached<F: Fn(i32, IoctlCall) -> IoctlOutcome>(
    cache: &mut Option<KsuInfo>,
    drv: &Driver<F>,
) -> (r: KsuInfo)
    requires
        drv.callable(),
    ensures
        *final(cache) == Some(r),
        *old(cache) matches Some(i) ==> r == i,
        *old(cache) is None ==> asked_info(drv, r),
{
    match *cache {
        Some(i) => i,
        None => {
            let i = get_info(drv);
            *cache = Some(i);
            i
        },
    }
}

/// The kernel's KernelSU version.
pub fn get_version(info: &KsuInfo) -> (r: i32)
    ensures
        r == info.version as i32,
{
    info.version as i32
}

pub open spec fn late_load(info: KsuInfo) -> bool {
    info.flags & uapi::KSU_GET_INFO_FLAG_LATE_LOAD != 0
}

pub open spec fn lkm(info: KsuInfo) -> bool {
    info.flags & uapi::KSU_GET_INFO_FLAG_LKM != 0
}

/// KernelSU was loaded after boot.
pub fn is_late_load(info: &KsuInfo) -> (r: bool)
    ensures
        r == late_load(*info),
{
    info.flags & uapi::KSU_GET_INFO_FLAG_LATE_LOAD != 0
}

/// KernelSU runs as a loadable module.
pub fn is_lkm(info: &KsuInfo) -> (r: bool)
    ensures
        r == lkm(*info),
{
    info.flags & uapi::KSU_GET_INFO_FLAG_LKM != 0
}

/// The UAPI version this build speaks.
pub fn uapi_version() -> (r: u32)
    ensures
        r == uapi::KERNEL_SU_UAPI_VERSION,
{
    uapi::KERNEL_SU_UAPI_VERSION
}

/// How KernelSU runs: loaded late, as a module, or built in, in that order of
/// precedence.
pub fn runtime_mode(info: &KsuInfo) -> (r: &'static str)
    ensures
        late_load(*info) ==> r@ == "late-load"@,
        !late_load(*info) && lkm(*info) ==> r@ == "lkm"@,
        !late_load(*info) && !lkm(*info) ==> r@ == "built-in"@,
{
    if is_late_load(info) {
        "late-load"
    } else if is_lkm(info) {
        "lkm"
    } else {
        "built-in"
    }
}

/// Refuses a kernel that speaks another UAPI version than this build.
pub fn ensure_uapi_version_matched(info: &KsuInfo) -> (r: Result<(), KsuError>)
    ensures
        info.uapi_version == uapi::KERNEL_SU_UAPI_VERSION ==> r == Ok::<(), KsuError>(()),
        info.uapi_version != uapi::KERNEL_SU_UAPI_VERSION ==> r == Err::<(), KsuError>(
            KsuError::UapiMismatch { kernel: info.uapi_version, ksud: uapi::KERNEL_SU_UAPI_VERSION },
        ),
{
    let kernel_uapi = info.uapi_version;
    let userspace_uapi = uapi_version();
    if kernel_uapi != userspace_uapi {
        return Err(KsuError::UapiMismatch { kernel: kernel_uapi, ksud: userspace_uapi });
    }
    Ok(())
}

// ---------------------------------------------------------------------------
// Simple commands
// ---------------------------------------------------------------------------

pub open spec fn call_view(request: u32, payload: PayloadView) -> IoctlCallView {
    IoctlCallView { request, payload }
}

/// Grants root to the calling process.
pub fn grant_root<F: Fn(i32, IoctlCall) -> IoctlOutcome>(drv: &Driver<F>) -> (r: Result<(), KsuError>)
    requires
        drv.callable(),
    ensures
        exists|a| #[trigger]
            runs(drv, call_view(uapi::KSU_IOCTL_GRANT_ROOT, PayloadView::Empty), a) && r
                == unit_only(a),
{
    let r = ksuctl(drv, IoctlCall { request: uapi::KSU_IOCTL_GRANT_ROOT, payload: Payload::Empty });
    match r {
        Ok(_) => Ok(()),
        Err(e) => Err(e),
    }
}

/// Tells the kernel that a boot stage was reached; any failure is ignored.
fn report_event<F: Fn(i32, IoctlCall) -> IoctlOutcome>(drv: &Driver<F>, event: u32)
    requires
        drv.callable(),
    ensures
        exists|a| #[trigger]
            runs(drv, call_view(uapi::KSU_IOCTL_REPORT_EVENT, PayloadView::ReportEvent { event }), a),
{
    let _ = ksuctl(
        drv,
        IoctlCall { request: uapi::KSU_IOCTL_REPORT_EVENT, payload: Payload::ReportEvent { event } },
    );
}

/// Reports that post-fs-data was reached.
pub fn report_post_fs_data<F: Fn(i32, IoctlCall) -> IoctlOutcome>(drv: &Driver<F>)
    requires
        drv.callable(),
    ensures
        exists|a| #[trigger]
            runs(
                drv,
                call_view(
                    uapi::KSU_IOCTL_REPORT_EVENT,
                    PayloadView::ReportEvent { event: uapi::EVENT_POST_FS_DATA },
                ),
                a,
            ),
{
    report_event(drv, uapi::EVENT_POST_FS_DATA);
}

/// Reports that boot completed.
pub fn report_boot_complete<F: Fn(i32, IoctlCall) -> IoctlOutcome>(drv: &Driver<F>)
    requires
        drv.callable(),
    ensures
        exists|a| #[trigger]
            runs(
                drv,
                call_view(
                    uapi::KSU_IOCTL_REPORT_EVENT,
                    PayloadView::ReportEvent { event: uapi::EVENT_BOOT_COMPLETED },
                ),
                a,
            ),
{
    report_event(drv, uapi::EVENT_BOOT_COMPLETED);
}

/// Reports that modules were mounted.
pub fn report_module_mounted<F: Fn(i32, IoctlCall) -> IoctlOutcome>(drv: &Driver<F>)
    requires
        drv.callable(),
    ensures
        exists|a| #[trigger]
            runs(
                drv,
                call_view(
                    uapi::KSU_IOCTL_REPORT_EVENT,
                    PayloadView::ReportEvent { event: uapi::EVENT_MODULE_MOUNTED },
                ),
                a,
            ),
{
    report_event(drv, uapi::EVENT_MODULE_MOUNTED);
}

pub open spec fn safemode_answer(a: Result<(i32, PayloadView), IoctlError>) -> bool {
    match a {
        Ok((_, PayloadView::CheckSafemode { in_safe_mode })) => in_safe_mode != 0,
        _ => false,
    }
}

/// Whether the kernel booted in safe mode; false when it cannot be asked.
pub fn check_kernel_safemode<F: Fn(i32, IoctlCall) -> IoctlOutcome>(drv: &Driver<F>) -> (r: bool)
    requires
        drv.callable(),
    ensures
        exists|a| #[trigger]
            runs(
                drv,
                call_view(uapi::KSU_IOCTL_CHECK_SAFEMODE, PayloadView::CheckSafemode { in_safe_mode: 0 }),
                a,
            ) && r == safemode_answer(a),
{
    let r = ksuctl(
        drv,
        IoctlCall {
            request: uapi::KSU_IOCTL_CHECK_SAFEMODE,
            payload: Payload::CheckSafemode { in_safe_mode: 0 },
        },
    );
    match r {
        Ok((_, Payload::CheckSafemode { in_safe_mode })) => in_safe_mode != 0,
        _ => false,
    }
}

/// Hands the kernel a compiled sepolicy patch: `data_len` bytes at address `data`.
pub fn set_sepolicy<F: Fn(i32, IoctlCall) -> IoctlOutcome>(
    drv: &Driver<F>,
    data: u64,
    data_len: u64,
) -> (r: Result<i32, KsuError>)
    requires
        drv.callable(),
    ensures
        exists|a| #[trigger]
            runs(
                drv,
                call_view(uapi::KSU_IOCTL_SET_SEPOLICY, PayloadView::SetSepolicy { data_len, data }),
                a,
            ) && r == ret_only(a),
{
    let r = ksuctl(
        drv,
        IoctlCall { request: uapi::KSU_IOCTL_SET_SEPOLICY, payload: Payload::SetSepolicy { data_len, data } },
    );
    match r {
        Ok((ret, _)) => Ok(ret),
        Err(e) => Err(e),
    }
}

pub open spec fn feature_answer(a: Result<(i32, PayloadView), IoctlError>) -> Result<(u64, bool), KsuError> {
    match a {
        Ok((_, PayloadView::GetFeature { value, supported, .. })) => Ok((value, supported != 0)),
        Ok(_) => Ok((0, false)),
        Err(e) => Err(KsuError::Ioctl(e)),
    }
}

/// A feature's value and whether the kernel supports it.
pub fn get_feature<F: Fn(i32, IoctlCall) -> IoctlOutcome>(drv: &Driver<F>, feature_id: u32) -> (r:
    Result<(u64, bool), KsuError>)
    requires
        drv.callable(),
    ensures
        exists|a| #[trigger]
            runs(
                drv,
                call_view(
                    uapi::KSU_IOCTL_GET_FEATURE,
                    PayloadView::GetFeature { feature_id, value: 0, supported: 0 },
                ),
                a,
            ) && r == feature_answer(a),
{
    let r = ksuctl(
        drv,
        IoctlCall {
            request: uapi::KSU_IOCTL_GET_FEATURE,
            payload: Payload::GetFeature { feature_id, value: 0, supported: 0 },
        },
    );
    match r {
        Ok((_, Payload::GetFeature { value, supported, .. })) => Ok((value, supported != 0)),
        Ok(_) => Ok((0, false)),
        Err(e) => Err(e),
    }
}

/// Sets a feature's value.
pub fn set_feature<F: Fn(i32, IoctlCall) -> IoctlOutcome>(
    drv: &Driver<F>,
    feature_id: u32,
    value: u64,
) -> (r: Result<(), KsuError>)
    requires
        drv.callable(),
    ensures
        exists|a| #[trigger]
            runs(
                drv,
                call_view(uapi::KSU_IOCTL_SET_FEATURE, PayloadView::SetFeature { feature_id, value }),
                a,
            ) && r == unit_only(a),
{
    let r = ksuctl(
        drv,
        IoctlCall { request: uapi::KSU_IOCTL_SET_FEATURE, payload: Payload::SetFeature { feature_id, value } },
    );
    match r {
        Ok(_) => Ok(()),
        Err(e) => Err(e),
    }
}

/// A descriptor that wraps `fd` for the su driver.
pub fn get_wrapped_fd<F: Fn(i32, IoctlCall) -> IoctlOutcome>(drv: &Driver<F>, fd: i32) -> (r: Result<
    i32,
    KsuError,
>)
    requires
        drv.callable(),
    ensures
        exists|a| #[trigger]
            runs(
                drv,
                call_view(uapi::KSU_IOCTL_GET_WRAPPER_FD, PayloadView::GetWrapperFd { fd: fd as u32, flags: 0 }),
                a,
            ) && r == ret_only(a),
{
    let r = ksuctl(
        drv,
        IoctlCall {
            request: uapi::KSU_IOCTL_GET_WRAPPER_FD,
            payload: Payload::GetWrapperFd { fd: fd as u32, flags: 0 },
        },
    );
    match r {
        Ok((ret, _)) => Ok(ret),
        Err(e) => Err(e),
    }
}

/// A descriptor to read the su log from.
pub fn get_sulog_fd<F: Fn(i32, IoctlCall) -> IoctlOutcome>(drv: &Driver<F>) -> (r: Result<i32, KsuError>)
    requires
        drv.callable(),
    ensures
        exists|a| #[trigger]
            runs(drv, call_view(uapi::KSU_IOCTL_GET_SULOG_FD, PayloadView::GetSulogFd { flags: 0 }), a)
                && r == ret_only(a),
{
    let r = ksuctl(
        drv,
        IoctlCall { request: uapi::KSU_IOCTL_GET_SULOG_FD, payload: Payload::GetSulogFd { flags: 0 } },
    );
    match r {
        Ok((ret, _)) => Ok(ret),
        Err(e) => Err(e),
    }
}

pub open spec fn mark_call(operation: u32, pid: i32) -> IoctlCallView {
    call_view(uapi::KSU_IOCTL_MANAGE_MARK, PayloadView::ManageMark { operation, pid, result: 0 })
}

pub open spec fn mark_answer(a: Result<(i32, PayloadView), IoctlError>) -> Result<u32, KsuError> {
    match a {
        Ok((_, PayloadView::ManageMark { result, .. })) => Ok(result),
        Ok(_) => Ok(0),
        Err(e) => Err(KsuError::Ioctl(e)),
    }
}

fn manage_mark<F: Fn(i32, IoctlCall) -> IoctlOutcome>(drv: &Driver<F>, operation: u32, pid: i32) -> (r:
    Result<u32, KsuError>)
    requires
        drv.callable(),
    ensures
        exists|a| #[trigger] runs(drv, mark_call(operation, pid), a) && r == mark_answer(a),
{
    let r = ksuctl(
        drv,
        IoctlCall {
            request: uapi::KSU_IOCTL_MANAGE_MARK,
            payload: Payload::ManageMark { operation, pid, result: 0 },
        },
    );
    match r {
        Ok((_, Payload::ManageMark { result, .. })) => Ok(result),
        Ok(_) => Ok(0),
        Err(e) => Err(e),
    }
}

/// The mark of a process (with pid 0, the number of marked processes).
pub fn mark_get<F: Fn(i32, IoctlCall) -> IoctlOutcome>(drv: &Driver<F>, pid: i32) -> (r: Result<
    u32,
    KsuError,
>)
    requires
        drv.callable(),
    ensures
        exists|a| #[trigger] runs(drv, mark_call(uapi::KSU_MARK_GET, pid), a) && r == mark_answer(a),
{
    manage_mark(drv, uapi::KSU_MARK_GET, pid)
}

pub open spec fn drop_value(r: Result<u32, KsuError>) -> Result<(), KsuError> {
    match r {
        Ok(_) => Ok(()),
        Err(e) => Err(e),
    }
}

/// Marks a process (with pid 0, all processes).
pub fn mark_set<F: Fn(i32, IoctlCall) -> IoctlOutcome>(drv: &Driver<F>, pid: i32) -> (r: Result<
    (),
    KsuError,
>)
    requires
        drv.callable(),
    ensures
        exists|a| #[trigger]
            runs(drv, mark_call(uapi::KSU_MARK_MARK, pid), a) && r == drop_value(mark_answer(a)),
{
    match manage_mark(drv, uapi::KSU_MARK_MARK, pid) {
        Ok(_) => Ok(()),
        Err(e) => Err(e),
    }
}

/// Unmarks a process (with pid 0, all processes).
pub fn mark_unset<F: Fn(i32, IoctlCall) -> IoctlOutcome>(drv: &Driver<F>, pid: i32) -> (r: Result<
    (),
    KsuError,
>)
    requires
        drv.callable(),
    ensures
        exists|a| #[trigger]
            runs(drv, mark_call(uapi::KSU_MARK_UNMARK, pid), a) && r == drop_value(mark_answer(a)),
{
    match manage_mark(drv, uapi::KSU_MARK_UNMARK, pid) {
        Ok(_) => Ok(()),
        Err(e) => Err(e),
    }
}

/// Refreshes the marks of all running processes.
pub fn mark_refresh<F: Fn(i32, IoctlCall) -> IoctlOutcome>(drv: &Driver<F>) -> (r: Result<(), KsuError>)
    requires
        drv.callable(),
    ensures
        exists|a| #[trigger]
            runs(drv, mark_call(uapi::KSU_MARK_REFRESH, 0), a) && r == drop_value(mark_answer(a)),
{
    match manage_mark(drv, uapi::KSU_MARK_REFRESH, 0) {
        Ok(_) => Ok(()),
        Err(e) => Err(e),
    }
}

/// Whether a byte string holds a NUL byte.
pub fn has_nul(s: &str) -> (r: bool)
    ensures
        r == encode_utf8(s@).contains(0u8),
{
    let b = s.as_bytes();
    let mut i: usize = 0;
    while i < b.len()
        invariant
            i <= b@.len(),
            b@ == encode_utf8(s@),
            forall|k: int| 0 <= k < i ==> b@[k] != 0u8,
        decreases b.len() - i,
    {
        if b[i] == 0 {
            assert(b@[i as int] == 0u8);
            return true;
        }
        i += 1;
    }
    false
}

/// Hides the ext4 sysfs entries of the mount at `mnt`.
pub fn nuke_ext4_sysfs<F: Fn(i32, IoctlCall) -> IoctlOutcome>(drv: &Driver<F>, mnt: &str) -> (r:
    Result<(), KsuError>)
    requires
        drv.callable(),
    ensures
        encode_utf8(mnt@).contains(0u8) ==> r == Err::<(), KsuError>(KsuError::InteriorNul),
        !encode_utf8(mnt@).contains(0u8) ==> exists|a| #[trigger]
            runs(drv, call_view(uapi::KSU_IOCTL_NUKE_EXT4_SYSFS, PayloadView::NukeExt4Sysfs { mnt: mnt@ }), a)
                && r == unit_only(a),
{
    if has_nul(mnt) {
        return Err(KsuError::InteriorNul);
    }
    let r = ksuctl(
        drv,
        IoctlCall {
            request: uapi::KSU_IOCTL_NUKE_EXT4_SYSFS,
            payload: Payload::NukeExt4Sysfs { mnt: mnt.to_owned() },
        },
    );
    match r {
        Ok(_) => Ok(()),
        Err(e) => Err(e),
    }
}

pub open spec fn umount_call(path: Option<Seq<char>>, flags: u32, mode: u8) -> IoctlCallView {
    call_view(uapi::KSU_IOCTL_ADD_TRY_UMOUNT, PayloadView::AddTryUmount { path, flags, mode })
}

/// Empties the list of mounts the kernel unmounts for apps.
pub fn umount_list_wipe<F: Fn(i32, IoctlCall) -> IoctlOutcome>(drv: &Driver<F>) -> (r: Result<(), KsuError>)
    requires
        drv.callable(),
    ensures
        exists|a| #[trigger]
            runs(drv, umount_call(None, 0, uapi::KSU_UMOUNT_WIPE), a) && r == unit_only(a),
{
    let r = ksuctl(
        drv,
        IoctlCall {
            request: uapi::KSU_IOCTL_ADD_TRY_UMOUNT,
            payload: Payload::AddTryUmount { path: None, flags: 0, mode: uapi::KSU_UMOUNT_WIPE },
        },
    );
    match r {
        Ok(_) => Ok(()),
        Err(e) => Err(e),
    }
}

/// Adds a mount point to the unmount list.
pub fn umount_list_add<F: Fn(i32, IoctlCall) -> IoctlOutcome>(
    drv: &Driver<F>,
    path: &str,
    flags: u32,
) -> (r: Result<(), KsuError>)
    requires
        drv.callable(),
    ensures
        encode_utf8(path@).contains(0u8) ==> r == Err::<(), KsuError>(KsuError::InteriorNul),
        !encode_utf8(path@).contains(0u8) ==> exists|a| #[trigger]
            runs(drv, umount_call(Some(path@), flags, uapi::KSU_UMOUNT_ADD), a) && r == unit_only(a),
{
    if has_nul(path) {
        return Err(KsuError::InteriorNul);
    }
    let r = ksuctl(
        drv,
        IoctlCall {
            request: uapi::KSU_IOCTL_ADD_TRY_UMOUNT,
            payload: Payload::AddTryUmount {
                path: Some(path.to_owned()),
                flags,
                mode: uapi::KSU_UMOUNT_ADD,
            },
        },
    );
    match r {
        Ok(_) => Ok(()),
        Err(e) => Err(e),
    }
}

/// Removes a mount point from the unmount list.
pub fn umount_list_del<F: Fn(i32, IoctlCall) -> IoctlOutcome>(drv: &Driver<F>, path: &str) -> (r:
    Result<(), KsuError>)
    requires
        drv.callable(),
    ensures
        encode_utf8(path@).contains(0u8) ==> r == Err::<(), KsuError>(KsuError::InteriorNul),
        !encode_utf8(path@).contains(0u8) ==> exists|a| #[trigger]
            runs(drv, umount_call(Some(path@), 0, uapi::KSU_UMOUNT_DEL), a) && r == unit_only(a),
{
    if has_nul(path) {
        return Err(KsuError::InteriorNul);
    }
    let r = ksuctl(
        drv,
        IoctlCall {
            request: uapi::KSU_IOCTL_ADD_TRY_UMOUNT,
            payload: Payload::AddTryUmount {
                path: Some(path.to_owned()),
                flags: 0,
                mode: uapi::KSU_UMOUNT_DEL,
            },
        },
    );
    match r {
        Ok(_) => Ok(()),
        Err(e) => Err(e),
    }
}

/// Moves the calling process into init's process group.
pub fn set_init_pgrp<F: Fn(i32, IoctlCall) -> IoctlOutcome>(drv: &Driver<F>) -> (r: Result<(), KsuError>)
    requires
        drv.callable(),
    ensures
        exists|a| #[trigger]
            runs(drv, call_view(uapi::KSU_IOCTL_SET_INIT_PGRP, PayloadView::Empty), a) && r
                == unit_only(a),
{
    let r = ksuctl(drv, IoctlCall { request: uapi::KSU_IOCTL_SET_INIT_PGRP, payload: Payload::Empty });
    match r {
        Ok(_) => Ok(()),
        Err(e) => Err(e),
    }
}

pub open spec fn no_new_privs_answer(a: Result<(i32, PayloadView), IoctlError>) -> Result<(), KsuError> {
    match a {
        Ok((0, _)) => Ok(()),
        Ok((ret, _)) => Err(KsuError::UnexpectedResult(ret)),
        Err(e) => Err(KsuError::Ioctl(e)),
    }
}

/// Stops the calling process from escaping back to root; the kernel must answer 0.
pub fn set_ksu_no_new_privs<F: Fn(i32, IoctlCall) -> IoctlOutcome>(drv: &Driver<F>) -> (r: Result<
    (),
    KsuError,
>)
    requires
        drv.callable(),
    ensures
        exists|a| #[trigger]
            runs(drv, call_view(uapi::KSU_IOCTL_DISABLE_ESCAPE_TO_ROOT, PayloadView::Empty), a) && r
                == no_new_privs_answer(a),
{
    let r = ksuctl(
        drv,
        IoctlCall { request: uapi::KSU_IOCTL_DISABLE_ESCAPE_TO_ROOT, payload: Payload::Empty },
    );
    match r {
        Ok((ret, _)) => {
            if ret != 0 {
                Err(KsuError::UnexpectedResult(ret))
            } else {
                Ok(())
            }
        },
        Err(e) => Err(e),
    }
}

// ---------------------------------------------------------------------------
// Fixed C string fields
// ---------------------------------------------------------------------------

/// Why `s` cannot be written into a NUL-terminated field of `room` bytes, if it cannot:
/// one byte is owed to the terminator, and a NUL inside would cut the string short.
pub open spec fn c_str_fault(room: nat, s: Seq<char>) -> Option<CStrError> {
    if encode_utf8(s).len() >= room {
        Some(CStrError::TooLong { len: encode_utf8(s).len() as usize, room: (room - 1) as usize })
    } else if encode_utf8(s).contains(0u8) {
        Some(CStrError::Nul)
    } else {
        None
    }
}

/// The field after `s` is written into it: its UTF-8 bytes, then what was there.
pub open spec fn c_str_written(field: Seq<u8>, s: Seq<char>) -> Seq<u8> {
    encode_utf8(s) + field.skip(encode_utf8(s).len() as int)
}

/// The bytes of a NUL-terminated field, up to the first NUL.
pub open spec fn c_str_bytes(b: Seq<u8>) -> Seq<u8>
    decreases b.len(),
{
    if b.len() == 0 || b[0] == 0 {
        seq![]
    } else {
        seq![b[0]] + c_str_bytes(b.drop_first())
    }
}

/// Copies a string into a fixed C array, refusing rather than truncating.
pub fn write_c_str(dst: &mut Vec<u8>, src: &str) -> (r: Result<(), CStrError>)
    requires
        old(dst)@.len() > 0,
    ensures
        match c_str_fault(old(dst)@.len(), src@) {
            Some(e) => r == Err::<(), CStrError>(e) && final(dst)@ == old(dst)@,
            None => r == Ok::<(), CStrError>(()) && final(dst)@ == c_str_written(old(dst)@, src@),
        },
{
    let bytes = src.as_bytes();
    if bytes.len() >= dst.len() {
        return Err(CStrError::TooLong { len: src.len(), room: dst.len() - 1 });
    }
    if has_nul(src) {
        return Err(CStrError::Nul);
    }
    let ghost before = dst@;
    let mut i: usize = 0;
    while i < bytes.len()
        invariant
            i <= bytes@.len() < dst@.len() == before.len(),
            bytes@ == encode_utf8(src@),
            dst@ == bytes@.take(i as int) + before.skip(i as int),
        decreases bytes.len() - i,
    {
        dst.set(i, bytes[i]);
        i += 1;
        assert(dst@ =~= bytes@.take(i as int) + before.skip(i as int));
    }
    assert(bytes@.take(i as int) =~= bytes@);
    Ok(())
}

/// The name for what `String::from_utf8_lossy` makes of a byte string.
pub uninterp spec fn lossy_utf8(bytes: Seq<u8>) -> Seq<char>;

/// Decodes UTF-8, putting U+FFFD in place of each invalid sequence
/// (`String::from_utf8_lossy`). Of valid UTF-8 it gives back exactly the text encoded.
#[verifier::external_body]
fn from_utf8_lossy(bytes: &[u8]) -> (r: String)
    ensures
        r@ == lossy_utf8(bytes@),
        valid_utf8(bytes@) ==> r@ == decode_utf8(bytes@),
{
    String::from_utf8_lossy(bytes).into_owned()
}

/// The text a NUL-terminated field holds: its bytes up to the first NUL, decoded as
/// UTF-8 when they are valid and with replacement characters otherwise.
pub open spec fn c_str_text(b: Seq<u8>) -> Seq<char> {
    let bytes = c_str_bytes(b);
    if valid_utf8(bytes) {
        decode_utf8(bytes)
    } else {
        lossy_utf8(bytes)
    }
}

/// Reads a string back out of a fixed C array.
pub fn read_c_str(src: &Vec<u8>) -> (r: String)
    ensures
        r@ == c_str_text(src@),
{
    let mut bytes: Vec<u8> = Vec::new();
    let mut i: usize = 0;
    assert(src@.skip(0) =~= src@);
    while i < src.len() && src[i] != 0
        invariant
            i <= src@.len(),
            bytes@ == src@.take(i as int),
            c_str_bytes(src@) == bytes@ + c_str_bytes(src@.skip(i as int)),
        decreases src.len() - i,
    {
        let ghost rest = src@.skip(i as int);
        assert(rest.drop_first() =~= src@.skip(i + 1));
        bytes.push(src[i]);
        i += 1;
        assert(bytes@ =~= src@.take(i as int));
        assert(c_str_bytes(src@) =~= bytes@ + c_str_bytes(src@.skip(i as int)));
    }
    assert(c_str_bytes(src@.skip(i as int)) =~= seq![]);
    assert(c_str_bytes(src@) =~= bytes@);
    from_utf8_lossy(bytes.as_slice())
}

proof fn lemma_c_str_bytes_prefix(b: Seq<u8>, t: Seq<u8>)
    requires
        !b.contains(0u8),
        t.len() == 0 || t[0] == 0,
    ensures
        c_str_bytes(b + t) == b,
    decreases b.len(),
{
    if b.len() == 0 {
        assert(b + t =~= t);
    } else {
        assert((b + t).drop_first() =~= b.drop_first() + t);
        assert(!b.drop_first().contains(0u8)) by {
            if b.drop_first().contains(0u8) {
                let k = choose|k: int| 0 <= k < b.drop_first().len() && b.drop_first()[k] == 0u8;
                assert(b[k + 1] == 0u8);
            }
        }
        assert(b[0] != 0u8) by {
            if b[0] == 0u8 {
                assert(b.contains(0u8));
            }
        }
        lemma_c_str_bytes_prefix(b.drop_first(), t);
        assert(seq![b[0]] + b.drop_first() =~= b);
    }
}

/// A string that fits, written into a field of zeroes, reads back unchanged.
pub proof fn lemma_c_str_round_trip(field: Seq<u8>, s: Seq<char>)
    requires
        forall|i: int| 0 <= i < field.len() ==> #[trigger] field[i] == 0u8,
        c_str_fault(field.len(), s) is None,
    ensures
        c_str_text(c_str_written(field, s)) == s,
{
    let b = encode_utf8(s);
    let t = field.skip(b.len() as int);
    assert(t.len() > 0);
    assert(t[0] == field[b.len() as int]);
    lemma_c_str_bytes_prefix(b, t);
    encode_utf8_valid_utf8(s);
    encode_utf8_decode_utf8(s);
}

// ---------------------------------------------------------------------------
// App profiles
// ---------------------------------------------------------------------------

pub open spec fn zero_bytes(n: nat) -> Seq<u8> {
    Seq::new(n, |i: int| 0u8)
}

/// The empty profile addressed to one app.
pub open spec fn new_profile_view(key: Seq<char>, uid: i32) -> KernelAppProfileView {
    KernelAppProfileView {
        version: uapi::KSU_APP_PROFILE_VER,
        key: c_str_written(zero_bytes(uapi::KSU_MAX_PACKAGE_NAME as nat), key),
        curr_uid: uid,
        allow_su: false,
        rp_config: uapi::zero_root_config(),
        nrp_config: uapi::zero_non_root_config(),
    }
}

pub open spec fn key_fault(key: Seq<char>) -> Option<CStrError> {
    c_str_fault(uapi::KSU_MAX_PACKAGE_NAME as nat, key)
}

/// An empty profile addressed to one app, which is what both profile commands take.
pub fn new_profile(key: &str, uid: i32) -> (r: Result<KernelAppProfile, KsuError>)
    ensures
        match key_fault(key@) {
            Some(e) => r matches Err(x) && x == (KsuError::CString { field: CField::PackageName, error: e }),
            None => r matches Ok(p) && p@ == new_profile_view(key@, uid),
        },
{
    let mut k = uapi::zeroed_bytes(uapi::KSU_MAX_PACKAGE_NAME);
    match write_c_str(&mut k, key) {
        Err(e) => Err(KsuError::CString { field: CField::PackageName, error: e }),
        Ok(()) => {
            let p = KernelAppProfile {
                version: uapi::KSU_APP_PROFILE_VER,
                key: k,
                curr_uid: uid,
                allow_su: false,
                rp_config: uapi::RootConfig::zeroed(),
                nrp_config: uapi::NonRootConfig { use_default: false, umount_modules: false },
            };
            Ok(p)
        },
    }
}

/// What an app profile command's failure means.
pub open spec fn profile_error(e: IoctlError) -> KsuError {
    match e {
        IoctlError::Os(errno) => if errno == uapi::EPERM {
            KsuError::ProfileRefused
        } else if errno == uapi::EOPNOTSUPP {
            KsuError::ProfileUnsupported
        } else {
            KsuError::ProfileCallFailed(e)
        },
        IoctlError::NoDriver => KsuError::ProfileCallFailed(e),
    }
}

/// Tells apart the ways an app profile command fails: refused because the kernel
/// gates it on the manager, unsupported by the kernel, or failed otherwise.
pub fn describe_profile_error(e: IoctlError) -> (r: KsuError)
    ensures
        r == profile_error(e),
{
    match e {
        IoctlError::Os(errno) => {
            if errno == uapi::EPERM {
                KsuError::ProfileRefused
            } else if errno == uapi::EOPNOTSUPP {
                KsuError::ProfileUnsupported
            } else {
                KsuError::ProfileCallFailed(e)
            }
        },
        IoctlError::NoDriver => KsuError::ProfileCallFailed(e),
    }
}

pub open spec fn profile_answer(p: PayloadView, sent: KernelAppProfileView) -> KernelAppProfileView {
    match p {
        PayloadView::AppProfile(k) => k,
        _ => sent,
    }
}

/// What looking a profile up answers: the profile the kernel filled in, none when it
/// holds none (ENOENT), else the failure.
pub open spec fn profile_lookup(
    a: Result<(i32, PayloadView), IoctlError>,
    sent: KernelAppProfileView,
) -> Result<Option<KernelAppProfileView>, KsuError> {
    match a {
        Ok((_, p)) => Ok(Some(profile_answer(p, sent))),
        Err(IoctlError::Os(errno)) => if errno == uapi::ENOENT {
            Ok(None)
        } else {
            Err(profile_error(IoctlError::Os(errno)))
        },
        Err(e) => Err(profile_error(e)),
    }
}

pub open spec fn lookup_view(r: Result<Option<KernelAppProfile>, KsuError>) -> Result<
    Option<KernelAppProfileView>,
    KsuError,
> {
    match r {
        Ok(Some(p)) => Ok(Some(p@)),
        Ok(None) => Ok(None),
        Err(e) => Err(e),
    }
}

/// The command that looks up the profile of `key` and `uid`.
pub open spec fn get_profile_call(key: Seq<char>, uid: i32) -> IoctlCallView {
    call_view(uapi::KSU_IOCTL_GET_APP_PROFILE, PayloadView::AppProfile(new_profile_view(key, uid)))
}

/// `l` is what looking up the profile of `key` and `uid` on `drv` can answer.
pub open spec fn lookup_outcome<F: Fn(i32, IoctlCall) -> IoctlOutcome>(
    drv: &Driver<F>,
    key: Seq<char>,
    uid: i32,
    l: Result<Option<KernelAppProfileView>, KsuError>,
) -> bool {
    match key_fault(key) {
        Some(e) => l == Err::<Option<KernelAppProfileView>, KsuError>(
            KsuError::CString { field: CField::PackageName, error: e },
        ),
        None => exists|a| #[trigger]
            runs(drv, get_profile_call(key, uid), a) && l == profile_lookup(
                a,
                new_profile_view(key, uid),
            ),
    }
}

/// The profile stored for `uid`, or `None` when the kernel holds none and its defaults
/// apply. The kernel looks the profile up by uid alone; the key travels with it for its
/// own bookkeeping.
pub fn get_app_profile<F: Fn(i32, IoctlCall) -> IoctlOutcome>(
    drv: &Driver<F>,
    key: &str,
    uid: i32,
) -> (r: Result<Option<KernelAppProfile>, KsuError>)
    requires
        drv.callable(),
    ensures
        lookup_outcome(drv, key@, uid, lookup_view(r)),
{
    let profile = match new_profile(key, uid) {
        Ok(p) => p,
        Err(e) => return Err(e),
    };
    let sent = profile.duplicate();
    let ghost call = call_view(uapi::KSU_IOCTL_GET_APP_PROFILE, PayloadView::AppProfile(profile@));
    let r = ksuctl_raw(
        drv,
        IoctlCall { request: uapi::KSU_IOCTL_GET_APP_PROFILE, payload: Payload::AppProfile(profile) },
    );
    assert(runs(drv, call, result_view(r)));
    match r {
        Ok((_, Payload::AppProfile(k))) => Ok(Some(k)),
        Ok(_) => Ok(Some(sent)),
        Err(IoctlError::Os(errno)) => {
            if errno == uapi::ENOENT {
                Ok(None)
            } else {
                Err(describe_profile_error(IoctlError::Os(errno)))
            }
        },
        Err(e) => Err(describe_profile_error(e)),
    }
}

pub open spec fn profile_store(a: Result<(i32, PayloadView), IoctlError>) -> Result<(), KsuError> {
    match a {
        Ok(_) => Ok(()),
        Err(e) => Err(profile_error(e)),
    }
}

/// Stores a profile in the kernel, exactly as given.
pub fn set_app_profile<F: Fn(i32, IoctlCall) -> IoctlOutcome>(
    drv: &Driver<F>,
    profile: &KernelAppProfile,
) -> (r: Result<(), KsuError>)
    requires
        drv.callable(),
    ensures
        exists|a| #[trigger]
            runs(
                drv,
                call_view(uapi::KSU_IOCTL_SET_APP_PROFILE, PayloadView::AppProfile(profile@)),
                a,
            ) && r == profile_store(a),
{
    let p = profile.duplicate();
    let ghost call = call_view(uapi::KSU_IOCTL_SET_APP_PROFILE, PayloadView::AppProfile(p@));
    let r = ksuctl_raw(
        drv,
        IoctlCall { request: uapi::KSU_IOCTL_SET_APP_PROFILE, payload: Payload::AppProfile(p) },
    );
    assert(runs(drv, call, result_view(r)));
    match r {
        Ok(_) => Ok(()),
        Err(e) => Err(describe_profile_error(e)),
    }
}

} // verus!
