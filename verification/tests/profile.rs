use ksud::error::{CField, CStrError, IoctlError, KsuError, NameKind};
use ksud::ksucalls::read_c_str;
use ksud::bitnames::{capabilities, flags};
use ksud::profile::{
    bits_from_names, fallback_profile, from_kernel, get_profile, names_from_bits,
    resolve_uid, set_profile, to_kernel, uid_of_package, AppProfile, Namespace, NonRootProfile,
    RootProfile,
};
use ksud::uapi::{self, Driver, IoctlCall, IoctlOutcome, Payload};
use std::cell::RefCell;

fn strings(v: &[&str]) -> Vec<String> {
    v.iter().map(|s| s.to_string()).collect()
}

#[test]
fn namespaces_round_trip() {
    for ns in [Namespace::Inherited, Namespace::Global, Namespace::Individual] {
        assert_eq!(Namespace::from_kernel(ns.to_kernel()), Ok(ns));
    }
    assert_eq!(Namespace::Individual.to_kernel(), 2);
    assert_eq!(Namespace::from_kernel(3), Err(KsuError::UnknownNamespace(3)));
}

#[test]
fn bits_name_their_capabilities() {
    let caps = capabilities();
    assert_eq!(caps.len(), 41);
    let bits = (1u64 << 0) | (1u64 << 7) | (1u64 << 40) | (1u64 << 41) | (1u64 << 63);
    let names = names_from_bits(bits, &caps);
    assert_eq!(names, strings(&["CHOWN", "SETUID", "CHECKPOINT_RESTORE", "41", "63"]));
    assert_eq!(bits_from_names(&names, &caps, NameKind::Capability), Ok(bits));
    assert_eq!(names_from_bits(0, &caps), Vec::<String>::new());
    assert_eq!(names_from_bits(1, &flags()), strings(&["NO_NEW_PRIVS"]));
    assert_eq!(names_from_bits(2, &flags()), strings(&["1"]));
}

#[test]
fn names_are_read_loosely() {
    let caps = capabilities();
    let given = strings(&[" CAP_chown ", "CAP_CAP_SETUID", "sys_admin", "+5", "63"]);
    assert_eq!(
        bits_from_names(&given, &caps, NameKind::Capability),
        Ok((1u64 << 0) | (1 << 7) | (1 << 21) | (1 << 5) | (1 << 63))
    );
    // The prefix is matched before the case is folded.
    assert_eq!(
        bits_from_names(&strings(&["cap_chown"]), &caps, NameKind::Capability),
        Err(KsuError::UnknownName { kind: NameKind::Capability, value: "cap_chown".to_string() })
    );
    assert_eq!(
        bits_from_names(&strings(&["chown", "nope"]), &caps, NameKind::Capability),
        Err(KsuError::UnknownName { kind: NameKind::Capability, value: "nope".to_string() })
    );
    assert_eq!(
        bits_from_names(&strings(&["64"]), &flags(), NameKind::Flag),
        Err(KsuError::OutOfRange { kind: NameKind::Flag, value: "64".to_string() })
    );
}

fn root_profile() -> AppProfile {
    AppProfile {
        key: "com.example.root".to_string(),
        uid: None,
        stored: false,
        allow_su: true,
        root: Some(RootProfile {
            use_default: false,
            template: Some("tmpl".to_string()),
            uid: 0,
            gid: 0,
            groups: vec![1004, 3003],
            capabilities: strings(&["CAP_NET_RAW", "kill"]),
            selinux_domain: "u:r:su:s0".to_string(),
            namespace: Namespace::Individual,
            flags: strings(&["NO_NEW_PRIVS"]),
        }),
        non_root: None,
    }
}

#[test]
fn root_profile_round_trips_through_the_kernel_layout() {
    let wanted = root_profile();
    let k = to_kernel(&wanted, 10050).unwrap();
    assert!(k.allow_su);
    assert_eq!(k.curr_uid, 10050);
    assert_eq!(k.rp_config.profile.groups_count, 2);
    assert_eq!(&k.rp_config.profile.groups[..3], &[1004, 3003, 0]);
    assert_eq!(k.rp_config.profile.capabilities.effective, (1 << 13) | (1 << 5));
    assert_eq!(k.rp_config.profile.namespaces, 2);
    assert_eq!(k.rp_config.profile.flags, 1);
    assert_eq!(read_c_str(&k.rp_config.template_name), "tmpl");
    assert_eq!(read_c_str(&k.rp_config.profile.selinux_domain), "u:r:su:s0");
    let back = from_kernel(&k, true).unwrap();
    assert_eq!(back.key, "com.example.root");
    assert_eq!(back.uid, Some(10050));
    assert!(back.stored);
    assert!(back.non_root.is_none());
    let root = back.root.unwrap();
    assert_eq!(root.template.as_deref(), Some("tmpl"));
    assert_eq!(root.groups, vec![1004, 3003]);
    assert_eq!(root.capabilities, strings(&["KILL", "NET_RAW"]));
    assert_eq!(root.selinux_domain, "u:r:su:s0");
    assert_eq!(root.namespace, Namespace::Individual);
    assert_eq!(root.flags, strings(&["NO_NEW_PRIVS"]));
}

#[test]
fn non_root_profile_round_trips() {
    let wanted = AppProfile {
        key: "com.example".to_string(),
        uid: Some(10001),
        stored: true,
        allow_su: false,
        root: None,
        non_root: Some(NonRootProfile { use_default: false, umount_modules: true }),
    };
    let k = to_kernel(&wanted, 10001).unwrap();
    assert!(!k.allow_su);
    assert_eq!(k.nrp_config, uapi::NonRootConfig { use_default: false, umount_modules: true });
    let back = from_kernel(&k, false).unwrap();
    assert_eq!(back.non_root, Some(NonRootProfile { use_default: false, umount_modules: true }));
    assert!(back.root.is_none());
    assert!(!back.stored);
}

#[test]
fn layout_refuses_mismatched_sections() {
    let mut both = root_profile();
    both.non_root = Some(NonRootProfile { use_default: true, umount_modules: true });
    assert_eq!(to_kernel(&both, 1).unwrap_err(), KsuError::BothSections);
    let mut no_root = root_profile();
    no_root.root = None;
    assert_eq!(to_kernel(&no_root, 1).unwrap_err(), KsuError::MissingRoot);
    let mut no_non_root = root_profile();
    no_non_root.allow_su = false;
    no_non_root.root = None;
    assert_eq!(to_kernel(&no_non_root, 1).unwrap_err(), KsuError::MissingNonRoot);
    let mut groups = root_profile();
    groups.root.as_mut().unwrap().groups = vec![1; 33];
    assert_eq!(to_kernel(&groups, 1).unwrap_err(), KsuError::TooManyGroups { given: 33, max: 32 });
    let mut domain = root_profile();
    domain.root.as_mut().unwrap().selinux_domain = "d".repeat(64);
    assert_eq!(
        to_kernel(&domain, 1).unwrap_err(),
        KsuError::CString { field: CField::SelinuxDomain, error: CStrError::TooLong { len: 64, room: 63 } }
    );
    let mut cap = root_profile();
    cap.root.as_mut().unwrap().capabilities = strings(&["WIZARDRY"]);
    assert_eq!(
        to_kernel(&cap, 1).unwrap_err(),
        KsuError::UnknownName { kind: NameKind::Capability, value: "WIZARDRY".to_string() }
    );
}

#[test]
fn unknown_namespace_is_an_error() {
    let mut k = to_kernel(&root_profile(), 1).unwrap();
    k.rp_config.profile.namespaces = 7;
    assert_eq!(from_kernel(&k, true).unwrap_err(), KsuError::UnknownNamespace(7));
}

const PACKAGES: &str = "com.android.shell 2000 0 /data/user_de/0/com.android.shell\r\n\
com.example 10123 0 /data/user/0/com.example default:targetSdkVersion=34\n\
com.broken\n\
com.bad notanumber\n";

#[test]
fn package_list_gives_uids() {
    assert_eq!(uid_of_package(PACKAGES, "com.example"), Ok(10123));
    assert_eq!(uid_of_package(PACKAGES, "com.android.shell"), Ok(2000));
    assert_eq!(uid_of_package(PACKAGES, "com.broken"), Err(KsuError::PackageListNoUid));
    assert_eq!(
        uid_of_package(PACKAGES, "com.bad"),
        Err(KsuError::PackageListBadUid("notanumber".to_string()))
    );
    assert_eq!(uid_of_package(PACKAGES, "com.none"), Err(KsuError::NoSuchPackage("com.none".to_string())));
    assert_eq!(uid_of_package("", "a"), Err(KsuError::NoSuchPackage("a".to_string())));
}

#[test]
fn uids_are_resolved() {
    let list = || -> Result<String, String> { Ok(PACKAGES.to_string()) };
    let unreadable = || -> Result<String, String> { Err("permission denied".to_string()) };
    assert_eq!(resolve_uid("com.example", Some(5), &unreadable), Ok(5));
    assert_eq!(resolve_uid("$", None, &unreadable), Ok(9999));
    assert_eq!(resolve_uid("com.example", None, &list), Ok(10123));
    assert_eq!(
        resolve_uid("com.example", None, &unreadable),
        Err(KsuError::PackageListUnreadable("permission denied".to_string()))
    );
}

fn kernel_without_profiles() -> Driver<impl Fn(i32, IoctlCall) -> IoctlOutcome> {
    Driver { fd: 4, ioctl: |_: i32, _: IoctlCall| IoctlOutcome { ret: -1, errno: 2, payload: Payload::Empty } }
}

#[test]
fn fallback_follows_the_default_profile() {
    let drv = kernel_without_profiles();
    let fb = fallback_profile(&drv, "com.example", 10123).unwrap();
    assert!(!fb.stored && !fb.allow_su);
    assert_eq!(fb.non_root, Some(NonRootProfile { use_default: true, umount_modules: true }));
    let default_off = Driver {
        fd: 4,
        ioctl: |_: i32, call: IoctlCall| match call.payload {
            Payload::AppProfile(mut p) => {
                assert_eq!(read_c_str(&p.key), "$");
                assert_eq!(p.curr_uid, 9999);
                p.nrp_config.umount_modules = false;
                IoctlOutcome { ret: 0, errno: 0, payload: Payload::AppProfile(p) }
            }
            _ => panic!(),
        },
    };
    let fb = fallback_profile(&default_off, "com.example", 10123).unwrap();
    assert_eq!(fb.non_root, Some(NonRootProfile { use_default: true, umount_modules: false }));
    let broken = Driver { fd: 4, ioctl: |_: i32, _: IoctlCall| IoctlOutcome { ret: -1, errno: 95, payload: Payload::Empty } };
    assert_eq!(fallback_profile(&broken, "com.example", 1).unwrap_err(), KsuError::ProfileUnsupported);
    assert!(fallback_profile(&broken, "$", 9999).is_ok());
}

#[test]
fn get_and_set_profile() {
    let stored = RefCell::new(None);
    let drv = Driver {
        fd: 4,
        ioctl: |_: i32, call: IoctlCall| match (call.request, call.payload) {
            (uapi::KSU_IOCTL_SET_APP_PROFILE, Payload::AppProfile(p)) => {
                *stored.borrow_mut() = Some(p);
                IoctlOutcome { ret: 0, errno: 0, payload: Payload::Empty }
            }
            (uapi::KSU_IOCTL_GET_APP_PROFILE, Payload::AppProfile(_)) => match stored.borrow().as_ref() {
                Some(p) => IoctlOutcome { ret: 0, errno: 0, payload: Payload::AppProfile(p.duplicate()) },
                None => IoctlOutcome { ret: -1, errno: 2, payload: Payload::Empty },
            },
            _ => panic!(),
        },
    };
    let list = || -> Result<String, String> { Ok(PACKAGES.to_string()) };
    let before = get_profile(&drv, "com.example", None, &list).unwrap();
    assert!(!before.stored);
    assert_eq!(before.uid, Some(10123));
    let mut wanted = root_profile();
    wanted.key = "com.example".to_string();
    assert_eq!(set_profile(&drv, &wanted, &list), Ok(()));
    let after = get_profile(&drv, "com.example", None, &list).unwrap();
    assert!(after.stored && after.allow_su);
    assert_eq!(after.uid, Some(10123));
    assert_eq!(after.root.unwrap().capabilities, strings(&["KILL", "NET_RAW"]));
    let refused = Driver { fd: 4, ioctl: |_: i32, _: IoctlCall| IoctlOutcome { ret: -1, errno: 1, payload: Payload::Empty } };
    assert_eq!(set_profile(&refused, &wanted, &list), Err(KsuError::ProfileRefused));
    assert_eq!(
        get_profile(&refused, "com.example", Some(1), &list).unwrap_err(),
        KsuError::ProfileRefused
    );
    let _ = IoctlError::NoDriver;
}

#[test]
fn names_past_bit_63_are_out_of_range() {
    let owned: Vec<String> = (0..70).map(|i| format!("N{}X", "A".repeat(i))).collect();
    let table: Vec<&str> = owned.iter().map(|s| s.as_str()).collect();
    let at_63 = strings(&[table[63]]);
    assert_eq!(bits_from_names(&at_63, &table, NameKind::Flag), Ok(1u64 << 63));
    let at_64 = strings(&[table[64]]);
    assert_eq!(
        bits_from_names(&at_64, &table, NameKind::Flag),
        Err(KsuError::OutOfRange { kind: NameKind::Flag, value: table[64].to_string() })
    );
}
