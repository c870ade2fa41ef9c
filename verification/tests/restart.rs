//! What has to be restarted after an upgrade.
use pacpin::resolver::ResolvedPackage;
use pacpin::restart::{
    KernelUpdateInfo, ProcessRestartInfo, RestartInspector, RunningProcess, ServiceType,
};

fn updated(name: &str) -> ResolvedPackage {
    ResolvedPackage {
        name: name.to_string(),
        state: "default".to_string(),
        pinned_repo: None,
        installed_ver: "1".to_string(),
        installed_size: 0,
        installed_db: "core".to_string(),
        candidate: None,
        natural_top_repo: None,
        diverted_from_top: false,
        needs_update: true,
        update_type: "upgrade".to_string(),
        is_downgrade: false,
        net_delta: None,
        held: false,
        hold_reason: "".to_string(),
    }
}

#[test]
fn test_get_running_kernel() {
    let k = RestartInspector::get_running_kernel(Some("6.10.0-arch1-1\n"));
    assert!(k.is_some());
    assert_eq!(k.unwrap(), "6.10.0-arch1-1");
    assert_eq!(RestartInspector::get_running_kernel(None), None);
}

#[test]
fn test_service_type_equality() {
    let s1 = ServiceType::SystemdSystem("dbus.service".to_string());
    let s2 = ServiceType::SystemdSystem("dbus.service".to_string());
    let s3 = ServiceType::SystemdUser("pipewire.service".to_string());
    assert_eq!(s1, s2);
    assert_ne!(s1, s3);
}

#[test]
fn test_parse_cgroup_service() {
    // 1. User service under user@1000.service
    let cg_user = "0::/user.slice/user-1000.slice/user@1000.service/session.slice/wireplumber.service";
    let res = RestartInspector::parse_cgroup_service(cg_user, "wireplumber", 2388);
    assert_eq!(res, ServiceType::SystemdUser("wireplumber.service".to_string()));

    // 2. System service under system.slice
    let cg_sys = "0::/system.slice/bluetooth.service";
    let res = RestartInspector::parse_cgroup_service(cg_sys, "bluetoothd", 1234);
    assert_eq!(res, ServiceType::SystemdSystem("bluetooth.service".to_string()));

    // 3. Application in user scope
    let cg_scope = "0::/user.slice/user-1000.slice/user@1000.service/app.slice/app-gnome-org.kde.kdeconnect.daemon-2774.scope";
    let res = RestartInspector::parse_cgroup_service(cg_scope, "kdeconnectd", 2774);
    assert_eq!(res, ServiceType::Process { name: "kdeconnectd".to_string(), pid: 2774 });

    // 4. Desktop session compositor
    let cg_shell = "0::/user.slice/user-1000.slice/user@1000.service/session.slice/org.gnome.Shell@user.service";
    let res = RestartInspector::parse_cgroup_service(cg_shell, "gnome-shell", 2586);
    assert_eq!(res, ServiceType::SessionComponent("org.gnome.Shell@user.service".to_string()));

    // 5. systemd --user manager itself
    let cg_init = "0::/user.slice/user-1000.slice/user@1000.service/init.scope";
    let res = RestartInspector::parse_cgroup_service(cg_init, "systemd", 2372);
    assert_eq!(res, ServiceType::SystemdUser("systemd --user".to_string()));
}

#[test]
fn a_new_kernel_is_noticed() {
    let installed = vec!["6.9.2-arch1-1".to_string(), "6.10.0-arch1-1".to_string()];
    let us = vec![updated("linux")];
    let k = RestartInspector::check_kernel_update(&us, Some("6.9.2-arch1-1"), false, Some(&installed));
    assert_eq!(k.unwrap().installed, "6.10.0-arch1-1");
    let none = RestartInspector::check_kernel_update(&vec![], Some("6.10.0-arch1-1"), true, Some(&installed));
    assert!(none.is_none());
}

#[test]
fn processes_with_deleted_libraries_are_found() {
    let maps = "7f00-7f01 r-xp 00000000 00:1b 123 /usr/lib/libssl.so.3 (deleted)\n";
    let p = |dir: &str, comm: &str, maps: &str| RunningProcess {
        dir: dir.to_string(),
        maps: Some(maps.to_string()),
        comm: Some(comm.to_string()),
        cgroup: "0::/system.slice/nginx.service".to_string(),
    };
    let found = RestartInspector::check_deleted_libraries(
        &vec![p("41", "nginx", maps), p("42", "nginx", maps), p("43", "idle", "")],
        9,
    );
    assert_eq!(found.len(), 1);
    assert_eq!(found[0].service, ServiceType::SystemdSystem("nginx.service".to_string()));
    assert_eq!(found[0].deleted_files, vec!["/usr/lib/libssl.so.3"]);
    assert!(RestartInspector::check_deleted_libraries(&vec![p("9", "nginx", maps)], 9).is_empty());
}

#[test]
fn nothing_is_said_without_need() {
    let none: Vec<ProcessRestartInfo> = Vec::new();
    assert!(RestartInspector::print_restart_advisory(&None, &none).lines.is_empty());
    let kernel = Some(KernelUpdateInfo { running: "1".to_string(), installed: "2".to_string() });
    assert!(!RestartInspector::print_restart_advisory(&kernel, &none).lines.is_empty());
    assert!(RestartInspector::is_session_component("gnome-shell", "x"));
    assert!(!RestartInspector::is_session_component("nginx", "nginx.service"));
}
