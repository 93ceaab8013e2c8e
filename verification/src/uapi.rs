//! The KernelSU driver interface: command numbers, the command structures that travel
//! with them, and the kernel's layout of an app profile.
use vstd::prelude::*;

verus! {

// ---------------------------------------------------------------------------
// Command numbers: _IOC(dir, 'K', nr, size)
// ---------------------------------------------------------------------------

pub const KSU_IOCTL_GRANT_ROOT: u32 = 0x0000_4b01;
pub const KSU_IOCTL_GET_INFO: u32 = 0x8000_4b02;
pub const KSU_IOCTL_GET_INFO_LEGACY: u32 = 0x8010_4b02;
pub const KSU_IOCTL_REPORT_EVENT: u32 = 0x4000_4b03;
pub const KSU_IOCTL_SET_SEPOLICY: u32 = 0xc000_4b04;
pub const KSU_IOCTL_CHECK_SAFEMODE: u32 = 0x8000_4b05;
pub const KSU_IOCTL_GET_APP_PROFILE: u32 = 0xc000_4b0b;
pub const KSU_IOCTL_SET_APP_PROFILE: u32 = 0x4000_4b0c;
pub const KSU_IOCTL_GET_FEATURE: u32 = 0xc000_4b0d;
pub const KSU_IOCTL_SET_FEATURE: u32 = 0x4000_4b0e;
pub const KSU_IOCTL_GET_WRAPPER_FD: u32 = 0x4000_4b0f;
pub const KSU_IOCTL_MANAGE_MARK: u32 = 0xc000_4b10;
pub const KSU_IOCTL_NUKE_EXT4_SYSFS: u32 = 0x4000_4b11;
pub const KSU_IOCTL_ADD_TRY_UMOUNT: u32 = 0x4000_4b12;
pub const KSU_IOCTL_SET_INIT_PGRP: u32 = 0x0000_4b13;
pub const KSU_IOCTL_GET_SULOG_FD: u32 = 0x4000_4b14;
pub const KSU_IOCTL_DISABLE_ESCAPE_TO_ROOT: u32 = 0x0000_4b15;

// ---------------------------------------------------------------------------
// Values carried in commands
// ---------------------------------------------------------------------------

/// The UAPI version this build speaks.
pub const KERNEL_SU_UAPI_VERSION: u32 = 1;

/// The two magic numbers that `reboot(2)` takes to install the driver.
pub const KSU_INSTALL_MAGIC1: u32 = 0xDEAD_BEEF;
pub const KSU_INSTALL_MAGIC2: u32 = 0xCAFE_BABE;

pub const KSU_GET_INFO_FLAG_LKM: u32 = 0x1;
pub const KSU_GET_INFO_FLAG_MANAGER: u32 = 0x2;
pub const KSU_GET_INFO_FLAG_LATE_LOAD: u32 = 0x4;

pub const EVENT_POST_FS_DATA: u32 = 1;
pub const EVENT_BOOT_COMPLETED: u32 = 2;
pub const EVENT_MODULE_MOUNTED: u32 = 3;

pub const KSU_MARK_GET: u32 = 1;
pub const KSU_MARK_MARK: u32 = 2;
pub const KSU_MARK_UNMARK: u32 = 3;
pub const KSU_MARK_REFRESH: u32 = 4;

pub const KSU_UMOUNT_WIPE: u8 = 0;
pub const KSU_UMOUNT_ADD: u8 = 1;
pub const KSU_UMOUNT_DEL: u8 = 2;

pub const KSU_APP_PROFILE_VER: u32 = 2;
pub const KSU_MAX_PACKAGE_NAME: usize = 256;
pub const KSU_MAX_GROUPS: usize = 32;
pub const KSU_SELINUX_DOMAIN: usize = 64;

/// Linux errno values the library tells apart.
pub const EPERM: i32 = 1;
pub const ENOENT: i32 = 2;
pub const EOPNOTSUPP: i32 = 95;

// ---------------------------------------------------------------------------
// Command structures
// ---------------------------------------------------------------------------

/// `ksu_get_info_cmd`.
#[derive(Debug, Clone, Copy, PartialEq, Eq, Structural)]
pub struct KsuInfo {
    pub version: u32,
    pub flags: u32,
    pub features: u32,
    pub uapi_version: u32,
}

/// The capability sets of a root profile.
#[derive(Debug, Clone, Copy, PartialEq, Eq, Structural)]
pub struct Capabilities {
    pub effective: u64,
    pub permitted: u64,
    pub inheritable: u64,
}

/// The kernel's root profile.
#[derive(Debug)]
pub struct KernelRootProfile {
    pub uid: i32,
    pub gid: i32,
    pub groups_count: u32,
    /// `KSU_MAX_GROUPS` entries.
    pub groups: Vec<i32>,
    pub capabilities: Capabilities,
    /// `KSU_SELINUX_DOMAIN` bytes, NUL-terminated.
    pub selinux_domain: Vec<u8>,
    pub namespaces: i32,
    pub flags: u64,
}

/// The root half of the profile union.
#[derive(Debug)]
pub struct RootConfig {
    pub use_default: bool,
    /// `KSU_MAX_PACKAGE_NAME` bytes, NUL-terminated.
    pub template_name: Vec<u8>,
    pub profile: KernelRootProfile,
}

/// The non-root half of the profile union.
#[derive(Debug, Clone, Copy, PartialEq, Eq, Structural)]
pub struct NonRootConfig {
    pub use_default: bool,
    pub umount_modules: bool,
}

/// The kernel's `app_profile`. `allow_su` selects which half of the union means
/// anything: `rp_config` when set, `nrp_config` when clear.
#[derive(Debug)]
pub struct KernelAppProfile {
    pub version: u32,
    /// `KSU_MAX_PACKAGE_NAME` bytes, NUL-terminated.
    pub key: Vec<u8>,
    pub curr_uid: i32,
    pub allow_su: bool,
    pub rp_config: RootConfig,
    pub nrp_config: NonRootConfig,
}

pub struct KernelRootProfileView {
    pub uid: i32,
    pub gid: i32,
    pub groups_count: u32,
    pub groups: Seq<i32>,
    pub capabilities: Capabilities,
    pub selinux_domain: Seq<u8>,
    pub namespaces: i32,
    pub flags: u64,
}

pub struct RootConfigView {
    pub use_default: bool,
    pub template_name: Seq<u8>,
    pub profile: KernelRootProfileView,
}

pub struct KernelAppProfileView {
    pub version: u32,
    pub key: Seq<u8>,
    pub curr_uid: i32,
    pub allow_su: bool,
    pub rp_config: RootConfigView,
    pub nrp_config: NonRootConfig,
}

impl View for KernelRootProfile {
    type V = KernelRootProfileView;

    open spec fn view(&self) -> KernelRootProfileView {
        KernelRootProfileView {
            uid: self.uid,
            gid: self.gid,
            groups_count: self.groups_count,
            groups: self.groups@,
            capabilities: self.capabilities,
            selinux_domain: self.selinux_domain@,
            namespaces: self.namespaces,
            flags: self.flags,
        }
    }
}

impl View for RootConfig {
    type V = RootConfigView;

    open spec fn view(&self) -> RootConfigView {
        RootConfigView {
            use_default: self.use_default,
            template_name: self.template_name@,
            profile: self.profile@,
        }
    }
}

impl View for KernelAppProfile {
    type V = KernelAppProfileView;

    open spec fn view(&self) -> KernelAppProfileView {
        KernelAppProfileView {
            version: self.version,
            key: self.key@,
            curr_uid: self.curr_uid,
            allow_su: self.allow_su,
            rp_config: self.rp_config@,
            nrp_config: self.nrp_config,
        }
    }
}

/// A root profile with every field zero.
pub open spec fn zero_root_config() -> RootConfigView {
    RootConfigView {
        use_default: false,
        template_name: Seq::new(KSU_MAX_PACKAGE_NAME as nat, |i: int| 0u8),
        profile: KernelRootProfileView {
            uid: 0,
            gid: 0,
            groups_count: 0,
            groups: Seq::new(KSU_MAX_GROUPS as nat, |i: int| 0i32),
            capabilities: Capabilities { effective: 0, permitted: 0, inheritable: 0 },
            selinux_domain: Seq::new(KSU_SELINUX_DOMAIN as nat, |i: int| 0u8),
            namespaces: 0,
            flags: 0,
        },
    }
}

pub open spec fn zero_non_root_config() -> NonRootConfig {
    NonRootConfig { use_default: false, umount_modules: false }
}

/// A byte buffer of `n` zeroes.
pub fn zeroed_bytes(n: usize) -> (r: Vec<u8>)
    ensures
        r@ == Seq::new(n as nat, |i: int| 0u8),
{
    let mut r: Vec<u8> = Vec::new();
    let mut i: usize = 0;
    while i < n
        invariant
            i <= n,
            r@ == Seq::new(i as nat, |k: int| 0u8),
        decreases n - i,
    {
        r.push(0u8);
        i += 1;
        assert(r@ =~= Seq::new(i as nat, |k: int| 0u8));
    }
    r
}

fn zeroed_groups() -> (r: Vec<i32>)
    ensures
        r@ == Seq::new(KSU_MAX_GROUPS as nat, |i: int| 0i32),
{
    let mut r: Vec<i32> = Vec::new();
    let mut i: usize = 0;
    while i < KSU_MAX_GROUPS
        invariant
            i <= KSU_MAX_GROUPS,
            r@ == Seq::new(i as nat, |k: int| 0i32),
        decreases KSU_MAX_GROUPS - i,
    {
        r.push(0i32);
        i += 1;
        assert(r@ =~= Seq::new(i as nat, |k: int| 0i32));
    }
    r
}

impl RootConfig {
    /// A root half with every field zero.
    pub fn zeroed() -> (r: RootConfig)
        ensures
            r@ == zero_root_config(),
    {
        RootConfig {
            use_default: false,
            template_name: zeroed_bytes(KSU_MAX_PACKAGE_NAME),
            profile: KernelRootProfile {
                uid: 0,
                gid: 0,
                groups_count: 0,
                groups: zeroed_groups(),
                capabilities: Capabilities { effective: 0, permitted: 0, inheritable: 0 },
                selinux_domain: zeroed_bytes(KSU_SELINUX_DOMAIN),
                namespaces: 0,
                flags: 0,
            },
        }
    }

    /// A copy.
    pub fn duplicate(&self) -> (r: RootConfig)
        ensures
            r@ == self@,
    {
        let t = self.template_name.clone();
        let g = self.profile.groups.clone();
        let d = self.profile.selinux_domain.clone();
        assert(t@ =~= self.template_name@);
        assert(g@ =~= self.profile.groups@);
        assert(d@ =~= self.profile.selinux_domain@);
        RootConfig {
            use_default: self.use_default,
            template_name: t,
            profile: KernelRootProfile {
                uid: self.profile.uid,
                gid: self.profile.gid,
                groups_count: self.profile.groups_count,
                groups: g,
                capabilities: self.profile.capabilities,
                selinux_domain: d,
                namespaces: self.profile.namespaces,
                flags: self.profile.flags,
            },
        }
    }
}

impl KernelAppProfile {
    /// A copy.
    pub fn duplicate(&self) -> (r: KernelAppProfile)
        ensures
            r@ == self@,
    {
        let k = self.key.clone();
        assert(k@ =~= self.key@);
        KernelAppProfile {
            version: self.version,
            key: k,
            curr_uid: self.curr_uid,
            allow_su: self.allow_su,
            rp_config: self.rp_config.duplicate(),
            nrp_config: self.nrp_config,
        }
    }
}

/// The structure that travels with a command: what the kernel reads, and what it
/// writes back into.
#[derive(Debug)]
pub enum Payload {
    /// A null argument.
    Empty,
    Info(KsuInfo),
    ReportEvent { event: u32 },
    CheckSafemode { in_safe_mode: u8 },
    SetSepolicy { data_len: u64, data: u64 },
    GetFeature { feature_id: u32, value: u64, supported: u8 },
    SetFeature { feature_id: u32, value: u64 },
    GetWrapperFd { fd: u32, flags: u32 },
    GetSulogFd { flags: u32 },
    ManageMark { operation: u32, pid: i32, result: u32 },
    /// The mount point, handed over as a NUL-terminated string.
    NukeExt4Sysfs { mnt: String },
    /// The path (a null pointer when absent), handed over as a NUL-terminated string.
    AddTryUmount { path: Option<String>, flags: u32, mode: u8 },
    AppProfile(KernelAppProfile),
}

pub enum PayloadView {
    Empty,
    Info(KsuInfo),
    ReportEvent { event: u32 },
    CheckSafemode { in_safe_mode: u8 },
    SetSepolicy { data_len: u64, data: u64 },
    GetFeature { feature_id: u32, value: u64, supported: u8 },
    SetFeature { feature_id: u32, value: u64 },
    GetWrapperFd { fd: u32, flags: u32 },
    GetSulogFd { flags: u32 },
    ManageMark { operation: u32, pid: i32, result: u32 },
    NukeExt4Sysfs { mnt: Seq<char> },
    AddTryUmount { path: Option<Seq<char>>, flags: u32, mode: u8 },
    AppProfile(KernelAppProfileView),
}

impl View for Payload {
    type V = PayloadView;

    open spec fn view(&self) -> PayloadView {
        match self {
            Payload::Empty => PayloadView::Empty,
            Payload::Info(i) => PayloadView::Info(*i),
            Payload::ReportEvent { event } => PayloadView::ReportEvent { event: *event },
            Payload::CheckSafemode { in_safe_mode } => PayloadView::CheckSafemode {
                in_safe_mode: *in_safe_mode,
            },
            Payload::SetSepolicy { data_len, data } => PayloadView::SetSepolicy {
                data_len: *data_len,
                data: *data,
            },
            Payload::GetFeature { feature_id, value, supported } => PayloadView::GetFeature {
                feature_id: *feature_id,
                value: *value,
                supported: *supported,
            },
            Payload::SetFeature { feature_id, value } => PayloadView::SetFeature {
                feature_id: *feature_id,
                value: *value,
            },
            Payload::GetWrapperFd { fd, flags } => PayloadView::GetWrapperFd {
                fd: *fd,
                flags: *flags,
            },
            Payload::GetSulogFd { flags } => PayloadView::GetSulogFd { flags: *flags },
            Payload::ManageMark { operation, pid, result } => PayloadView::ManageMark {
                operation: *operation,
                pid: *pid,
                result: *result,
            },
            Payload::NukeExt4Sysfs { mnt } => PayloadView::NukeExt4Sysfs { mnt: mnt@ },
            Payload::AddTryUmount { path, flags, mode } => PayloadView::AddTryUmount {
                path: match path {
                    Some(p) => Some(p@),
                    None => None,
                },
                flags: *flags,
                mode: *mode,
            },
            Payload::AppProfile(p) => PayloadView::AppProfile(p@),
        }
    }
}

/// One driver command: its number and the structure it points at.
#[derive(Debug)]
pub struct IoctlCall {
    pub request: u32,
    pub payload: Payload,
}

pub struct IoctlCallView {
    pub request: u32,
    pub payload: PayloadView,
}

impl View for IoctlCall {
    type V = IoctlCallView;

    open spec fn view(&self) -> IoctlCallView {
        IoctlCallView { request: self.request, payload: self.payload@ }
    }
}

/// What one `ioctl` on the driver gave back: its return value, the errno when that is
/// negative, and the command structure as the kernel left it.
#[derive(Debug)]
pub struct IoctlOutcome {
    pub ret: i32,
    pub errno: i32,
    pub payload: Payload,
}

/// The KernelSU driver: its descriptor (negative when none could be had) and the
/// `ioctl` that runs a command on a descriptor.
pub struct Driver<F> {
    pub fd: i32,
    pub ioctl: F,
}

impl<F: Fn(i32, IoctlCall) -> IoctlOutcome> Driver<F> {
    /// The driver's `ioctl` may be called with any command.
    pub open spec fn callable(&self) -> bool {
        forall|fd: i32, c: IoctlCall| #[trigger] self.ioctl.requires((fd, c))
    }
}

} // verus!
