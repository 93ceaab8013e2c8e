use ksud::error::{CField, CStrError, IoctlError, KsuError};
use ksud::ksucalls::{
    get_info_cached, DriverFdAction, DriverFdEvent, InstallRequest,
    check_kernel_safemode, claim_inherited_driver_fd, describe_profile_error, ensure_uapi_version_matched,
    get_app_profile, get_feature, get_info, get_sulog_fd, get_version, get_wrapped_fd, grant_root,
    init_driver_fd, is_late_load, is_lkm, mark_get, mark_refresh, mark_set, mark_unset, new_profile,
    nuke_ext4_sysfs, read_c_str, report_boot_complete, report_module_mounted, report_post_fs_data,
    runtime_mode, scan_driver_fd, set_app_profile, set_feature, set_init_pgrp, set_ksu_no_new_privs,
    set_sepolicy, sigsys_handler, svc_call_finished, svc_call_started, take_sigsys_occurred,
    umount_list_add, umount_list_del, umount_list_wipe, uapi_version, write_c_str, FdEntry, SvcState,
    SYS_SECCOMP,
};
use ksud::uapi::{self, Driver, IoctlCall, IoctlOutcome, KsuInfo, Payload};
use std::cell::RefCell;

fn ok(ret: i32, payload: Payload) -> IoctlOutcome {
    IoctlOutcome { ret, errno: 0, payload }
}

fn fail(errno: i32) -> IoctlOutcome {
    IoctlOutcome { ret: -1, errno, payload: Payload::Empty }
}

fn info(version: u32, flags: u32, uapi_version: u32) -> KsuInfo {
    KsuInfo { version, flags, features: 0, uapi_version }
}

#[test]
fn get_info_falls_back_on_the_legacy_command() {
    let seen = RefCell::new(vec![]);
    let drv = Driver {
        fd: 5,
        ioctl: |fd: i32, call: IoctlCall| {
            assert_eq!(fd, 5);
            seen.borrow_mut().push(call.request);
            if call.request == uapi::KSU_IOCTL_GET_INFO {
                fail(25)
            } else {
                ok(0, Payload::Info(info(12345, uapi::KSU_GET_INFO_FLAG_LKM, 1)))
            }
        },
    };
    let got = get_info(&drv);
    assert_eq!(got, info(12345, uapi::KSU_GET_INFO_FLAG_LKM, 1));
    assert_eq!(*seen.borrow(), vec![uapi::KSU_IOCTL_GET_INFO, uapi::KSU_IOCTL_GET_INFO_LEGACY]);
}

#[test]
fn get_info_is_zero_without_a_driver() {
    let drv = Driver { fd: -1, ioctl: |_: i32, _: IoctlCall| -> IoctlOutcome { panic!("no call") } };
    assert_eq!(get_info(&drv), info(0, 0, 0));
    let both_fail = Driver { fd: 3, ioctl: |_: i32, _: IoctlCall| fail(22) };
    assert_eq!(get_info(&both_fail), info(0, 0, 0));
}

#[test]
fn runtime_mode_prefers_late_load() {
    let late_and_lkm = info(1, uapi::KSU_GET_INFO_FLAG_LATE_LOAD | uapi::KSU_GET_INFO_FLAG_LKM, 1);
    assert!(is_late_load(&late_and_lkm));
    assert!(is_lkm(&late_and_lkm));
    assert_eq!(runtime_mode(&late_and_lkm), "late-load");
    assert_eq!(runtime_mode(&info(1, uapi::KSU_GET_INFO_FLAG_LKM, 1)), "lkm");
    assert_eq!(runtime_mode(&info(1, uapi::KSU_GET_INFO_FLAG_MANAGER, 1)), "built-in");
    assert_eq!(get_version(&info(0xffff_ffff, 0, 0)), -1);
    assert_eq!(get_version(&info(11998, 0, 0)), 11998);
}

#[test]
fn uapi_versions_must_match() {
    assert_eq!(ensure_uapi_version_matched(&info(1, 0, uapi_version())), Ok(()));
    assert_eq!(
        ensure_uapi_version_matched(&info(1, 0, uapi_version() + 1)),
        Err(KsuError::UapiMismatch { kernel: uapi_version() + 1, ksud: uapi_version() })
    );
}

#[test]
fn simple_commands_send_what_they_should() {
    let seen = RefCell::new(vec![]);
    let drv = Driver {
        fd: 7,
        ioctl: |_: i32, call: IoctlCall| {
            let answer = match &call.payload {
                Payload::ManageMark { operation, pid, .. } => ok(
                    0,
                    Payload::ManageMark { operation: *operation, pid: *pid, result: 42 },
                ),
                Payload::GetFeature { feature_id, .. } => ok(
                    0,
                    Payload::GetFeature { feature_id: *feature_id, value: 9, supported: 1 },
                ),
                Payload::CheckSafemode { .. } => ok(0, Payload::CheckSafemode { in_safe_mode: 1 }),
                Payload::GetWrapperFd { fd, .. } => ok(*fd as i32 + 100, Payload::Empty),
                Payload::GetSulogFd { .. } => ok(77, Payload::Empty),
                Payload::SetSepolicy { data_len, .. } => ok(*data_len as i32, Payload::Empty),
                _ => ok(0, Payload::Empty),
            };
            seen.borrow_mut().push(format!("{:x} {:?}", call.request, call.payload));
            answer
        },
    };
    assert_eq!(grant_root(&drv), Ok(()));
    report_post_fs_data(&drv);
    report_boot_complete(&drv);
    report_module_mounted(&drv);
    assert!(check_kernel_safemode(&drv));
    assert_eq!(set_sepolicy(&drv, 0x1000, 12), Ok(12));
    assert_eq!(get_feature(&drv, 3), Ok((9, true)));
    assert_eq!(set_feature(&drv, 3, 1), Ok(()));
    assert_eq!(get_wrapped_fd(&drv, 4), Ok(104));
    assert_eq!(get_sulog_fd(&drv), Ok(77));
    assert_eq!(mark_get(&drv, 0), Ok(42));
    assert_eq!(mark_set(&drv, 10), Ok(()));
    assert_eq!(mark_unset(&drv, 10), Ok(()));
    assert_eq!(mark_refresh(&drv), Ok(()));
    assert_eq!(umount_list_wipe(&drv), Ok(()));
    assert_eq!(umount_list_add(&drv, "/system/bin", 2), Ok(()));
    assert_eq!(umount_list_del(&drv, "/system/bin"), Ok(()));
    assert_eq!(nuke_ext4_sysfs(&drv, "/data/adb/modules"), Ok(()));
    assert_eq!(set_init_pgrp(&drv), Ok(()));
    assert_eq!(set_ksu_no_new_privs(&drv), Ok(()));
    let seen = seen.borrow();
    assert_eq!(seen[0], "4b01 Empty");
    assert_eq!(seen[1], "40004b03 ReportEvent { event: 1 }");
    assert_eq!(seen[2], "40004b03 ReportEvent { event: 2 }");
    assert_eq!(seen[3], "40004b03 ReportEvent { event: 3 }");
    assert_eq!(seen[10], "c0004b10 ManageMark { operation: 1, pid: 0, result: 0 }");
    assert_eq!(seen[11], "c0004b10 ManageMark { operation: 2, pid: 10, result: 0 }");
    assert_eq!(seen[12], "c0004b10 ManageMark { operation: 3, pid: 10, result: 0 }");
    assert_eq!(seen[13], "c0004b10 ManageMark { operation: 4, pid: 0, result: 0 }");
    assert_eq!(seen[14], "40004b12 AddTryUmount { path: None, flags: 0, mode: 0 }");
    assert_eq!(seen[15], "40004b12 AddTryUmount { path: Some(\"/system/bin\"), flags: 2, mode: 1 }");
    assert_eq!(seen[16], "40004b12 AddTryUmount { path: Some(\"/system/bin\"), flags: 0, mode: 2 }");
}

#[test]
fn failures_are_reported() {
    let drv = Driver { fd: 7, ioctl: |_: i32, _: IoctlCall| fail(1) };
    assert_eq!(grant_root(&drv), Err(KsuError::Ioctl(IoctlError::Os(1))));
    assert_eq!(mark_get(&drv, 1), Err(KsuError::Ioctl(IoctlError::Os(1))));
    assert!(!check_kernel_safemode(&drv));
    let none = Driver { fd: -1, ioctl: |_: i32, _: IoctlCall| -> IoctlOutcome { panic!("no call") } };
    assert_eq!(set_feature(&none, 1, 1), Err(KsuError::Ioctl(IoctlError::NoDriver)));
    let odd = Driver { fd: 7, ioctl: |_: i32, _: IoctlCall| ok(3, Payload::Empty) };
    assert_eq!(set_ksu_no_new_privs(&odd), Err(KsuError::UnexpectedResult(3)));
    assert_eq!(umount_list_add(&odd, "a\0b", 0), Err(KsuError::InteriorNul));
    assert_eq!(nuke_ext4_sysfs(&odd, "\0"), Err(KsuError::InteriorNul));
}

#[test]
fn profile_errors_are_told_apart() {
    assert_eq!(describe_profile_error(IoctlError::Os(1)), KsuError::ProfileRefused);
    assert_eq!(describe_profile_error(IoctlError::Os(95)), KsuError::ProfileUnsupported);
    assert_eq!(describe_profile_error(IoctlError::Os(22)), KsuError::ProfileCallFailed(IoctlError::Os(22)));
    assert_eq!(
        describe_profile_error(IoctlError::NoDriver),
        KsuError::ProfileCallFailed(IoctlError::NoDriver)
    );
}

#[test]
fn c_strings_refuse_rather_than_truncate() {
    let mut field = vec![0u8; 6];
    assert_eq!(write_c_str(&mut field, "hello"), Ok(()));
    assert_eq!(read_c_str(&field), "hello");
    let mut small = vec![0u8; 5];
    assert_eq!(write_c_str(&mut small, "hello"), Err(CStrError::TooLong { len: 5, room: 4 }));
    assert_eq!(small, vec![0u8; 5]);
    assert_eq!(write_c_str(&mut small, "a\0b"), Err(CStrError::Nul));
    let mut wide = vec![0u8; 8];
    assert_eq!(write_c_str(&mut wide, "né"), Ok(()));
    assert_eq!(wide, vec![b'n', 0xc3, 0xa9, 0, 0, 0, 0, 0]);
    assert_eq!(read_c_str(&wide), "né");
    assert_eq!(read_c_str(&vec![b'a', 0xff, 0, b'z']), "a\u{fffd}");
    assert_eq!(read_c_str(&vec![b'x', b'y']), "xy");
}

#[test]
fn new_profiles_address_one_app() {
    let p = new_profile("com.example", 10123).unwrap();
    assert_eq!(p.version, uapi::KSU_APP_PROFILE_VER);
    assert_eq!(p.curr_uid, 10123);
    assert!(!p.allow_su);
    assert_eq!(p.key.len(), uapi::KSU_MAX_PACKAGE_NAME);
    assert_eq!(read_c_str(&p.key), "com.example");
    let long = "x".repeat(256);
    assert_eq!(
        new_profile(&long, 1).unwrap_err(),
        KsuError::CString { field: CField::PackageName, error: CStrError::TooLong { len: 256, room: 255 } }
    );
}

#[test]
fn missing_profile_reads_as_none() {
    let enoent = Driver { fd: 9, ioctl: |_: i32, _: IoctlCall| fail(2) };
    assert!(get_app_profile(&enoent, "com.example", 10123).unwrap().is_none());
    let eperm = Driver { fd: 9, ioctl: |_: i32, _: IoctlCall| fail(1) };
    assert_eq!(get_app_profile(&eperm, "com.example", 10123).unwrap_err(), KsuError::ProfileRefused);
    assert_eq!(set_app_profile(&eperm, &new_profile("a", 1).unwrap()), Err(KsuError::ProfileRefused));
    let found = Driver {
        fd: 9,
        ioctl: |_: i32, call: IoctlCall| match call.payload {
            Payload::AppProfile(mut p) => {
                assert_eq!(call.request, uapi::KSU_IOCTL_GET_APP_PROFILE);
                assert_eq!(p.curr_uid, 10123);
                p.nrp_config.umount_modules = true;
                ok(0, Payload::AppProfile(p))
            }
            _ => panic!("unexpected command"),
        },
    };
    let p = get_app_profile(&found, "com.example", 10123).unwrap().unwrap();
    assert!(p.nrp_config.umount_modules);
}

#[test]
fn driver_fd_prefers_the_su_driver() {
    let entry = |name: &str, target: Option<&str>| FdEntry {
        name: name.to_string(),
        target: target.map(str::to_string),
    };
    let entries = vec![
        entry("0", Some("/dev/null")),
        entry("3", Some("anon_inode:[ksu_driver]")),
        entry("x", Some("anon_inode:[ksu_driver_su]")),
        entry("5", None),
        entry("6", Some("anon_inode:[ksu_driver]")),
        entry("8", Some("anon_inode:[ksu_driver_su]")),
        entry("9", Some("anon_inode:[ksu_driver_su]")),
    ];
    assert_eq!(scan_driver_fd(&entries), Some(8));
    let first_five: Vec<FdEntry> = entries.into_iter().take(5).collect();
    assert_eq!(scan_driver_fd(&first_five), Some(6));
    assert_eq!(scan_driver_fd(&vec![]), None);
}

#[test]
fn driver_fd_is_claimed_once() {
    assert_eq!(claim_inherited_driver_fd(Some(4), &|| -> Result<Option<i32>, String> { panic!("no scan") }), Ok(Some(4)));
    assert_eq!(claim_inherited_driver_fd(None, &|| Ok(Some(6))), Ok(Some(6)));
    assert_eq!(claim_inherited_driver_fd(None, &|| Err("denied".to_string())), Err("denied".to_string()));
}

#[test]
fn inherited_driver_fd_needs_no_install() {
    let mut svc = SvcState { in_flight: false, sigsys_occurred: false };
    let a = init_driver_fd(&mut svc, DriverFdEvent::Scanned(Some(3)));
    assert_eq!(a, DriverFdAction::Use { fd: Some(3), blocked: false });
    assert_eq!(svc, SvcState { in_flight: false, sigsys_occurred: false });
}

#[test]
fn driver_install_is_asked_once_and_guarded() {
    let mut svc = SvcState { in_flight: false, sigsys_occurred: false };
    let a = init_driver_fd(&mut svc, DriverFdEvent::Scanned(None));
    assert_eq!(
        a,
        DriverFdAction::Install(InstallRequest {
            magic1: uapi::KSU_INSTALL_MAGIC1,
            magic2: uapi::KSU_INSTALL_MAGIC2,
            cmd: 0,
            fd: -1,
        })
    );
    assert_eq!(uapi::KSU_INSTALL_MAGIC1, 0xDEAD_BEEF);
    assert_eq!(uapi::KSU_INSTALL_MAGIC2, 0xCAFE_BABE);
    assert!(svc.in_flight);
    let a = init_driver_fd(&mut svc, DriverFdEvent::Installed(11));
    assert_eq!(a, DriverFdAction::Use { fd: Some(11), blocked: false });
    assert_eq!(svc, SvcState { in_flight: false, sigsys_occurred: false });

    // Seccomp blocks the install call: no descriptor, and the block is reported once.
    let mut svc = SvcState { in_flight: false, sigsys_occurred: false };
    init_driver_fd(&mut svc, DriverFdEvent::Scanned(None));
    let (after, deny) = sigsys_handler(svc, true, true, SYS_SECCOMP);
    assert!(deny);
    let mut svc = after;
    let a = init_driver_fd(&mut svc, DriverFdEvent::Installed(-1));
    assert_eq!(a, DriverFdAction::Use { fd: None, blocked: true });
    assert_eq!(svc, SvcState { in_flight: false, sigsys_occurred: false });
}

#[test]
fn info_is_asked_once() {
    let calls = RefCell::new(0);
    let drv = Driver {
        fd: 5,
        ioctl: |_: i32, call: IoctlCall| {
            *calls.borrow_mut() += 1;
            match call.payload {
                Payload::Info(_) => ok(0, Payload::Info(info(12000, 4, 1))),
                other => ok(0, other),
            }
        },
    };
    let mut cache = None;
    let first = get_info_cached(&mut cache, &drv);
    assert_eq!(first, info(12000, 4, 1));
    assert_eq!(cache, Some(first));
    let second = get_info_cached(&mut cache, &drv);
    assert_eq!(second, first);
    assert_eq!(*calls.borrow(), 1);
}

#[test]
fn seccomp_block_during_a_guarded_call_is_reported_once() {
    let idle = SvcState { in_flight: false, sigsys_occurred: false };
    let running = svc_call_started(idle);
    assert!(running.in_flight);
    let (after, deny) = sigsys_handler(running, true, true, SYS_SECCOMP);
    assert!(deny);
    assert!(after.sigsys_occurred);
    let mut done = svc_call_finished(after);
    assert!(!done.in_flight);
    assert!(take_sigsys_occurred(&mut done));
    assert!(!take_sigsys_occurred(&mut done));
}

#[test]
fn other_signals_are_left_alone() {
    let running = svc_call_started(SvcState { in_flight: false, sigsys_occurred: false });
    assert_eq!(sigsys_handler(running, true, true, 2), (running, false));
    assert_eq!(sigsys_handler(running, false, true, SYS_SECCOMP), (running, false));
    assert_eq!(sigsys_handler(running, true, false, SYS_SECCOMP), (running, false));
    // Outside a guarded call the call still fails, and nothing is recorded.
    let idle = SvcState { in_flight: false, sigsys_occurred: false };
    let (after, deny) = sigsys_handler(idle, true, true, SYS_SECCOMP);
    assert!(deny);
    assert_eq!(after, idle);
}
