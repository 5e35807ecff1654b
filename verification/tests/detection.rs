use hydradesk::detect::{desktop_scan, display_scan, Scan};
use hydradesk::detect::{
    check_port_3389, check_rdp_enabled, desktop_from_environ, detect_active_session, detect_desktop,
    detect_display_server, detect_monitor, display_from_environ, environ_value, find_grdctl, gdm_custom_conf,
    is_pid_name, plan_command, status_names_gnome_shell, status_uid, xauthority_candidates, CmdOutput,
    DesktopEnvironment, DesktopProbe, DisplayServer, Invocation, Next, PackageManager, RunIn, SessionInfo,
    SessionStep,
};

fn printed(stdout: &str, success: bool) -> Option<CmdOutput> {
    Some(CmdOutput { stdout: stdout.to_string(), stderr: String::new(), success })
}

fn asked(r: &Next<Invocation, impl std::fmt::Debug>) -> (String, Vec<String>, RunIn) {
    match r {
        Next::Probe(inv) => (inv.program.clone(), inv.args.clone(), inv.run_in),
        Next::Done(d) => panic!("expected a probe, got {:?}", d),
    }
}

fn graphical_session() -> SessionInfo {
    SessionInfo::new("2".to_string(), "alice".to_string(), 1000, DisplayServer::Wayland, Some(":0".to_string()), None)
}

#[test]
fn session_info_has_runtime_dir_and_bus() {
    let s = graphical_session();
    assert_eq!(s.xdg_runtime_dir, "/run/user/1000");
    assert_eq!(s.dbus_address, "unix:path=/run/user/1000/bus");
}

#[test]
fn package_manager_prefers_apt_then_dnf_or_yum() {
    let r = PackageManager::detect(&vec![]);
    assert_eq!(asked(&r), ("which".to_string(), vec!["apt-get".to_string()], RunIn::Quiet));
    assert!(matches!(PackageManager::detect(&vec![printed("/usr/bin/apt-get", true)]), Next::Done(PackageManager::Apt)));
    let r = PackageManager::detect(&vec![printed("", false)]);
    assert_eq!(asked(&r).1, vec!["dnf".to_string()]);
    assert!(matches!(PackageManager::detect(&vec![None, None, printed("/usr/bin/yum", true)]), Next::Done(PackageManager::Dnf)));
    assert!(matches!(PackageManager::detect(&vec![None, None, None]), Next::Done(PackageManager::Unknown)));
    assert_eq!(PackageManager::Apt.remove_hint(), "sudo apt remove");
    assert_eq!(PackageManager::Dnf.install_hint(), "sudo dnf install");
    assert_eq!(PackageManager::Unknown.install_hint(), "your package manager's install command");
}

#[test]
fn gdm_config_path_by_family() {
    assert_eq!(gdm_custom_conf(true), "/etc/gdm3/custom.conf");
    assert_eq!(gdm_custom_conf(false), "/etc/gdm/custom.conf");
}

#[test]
fn port_check_falls_back_to_netstat() {
    let r = check_port_3389(&vec![]);
    assert_eq!(asked(&r), ("ss".to_string(), vec!["-tulnp".to_string()], RunIn::System));
    assert!(matches!(check_port_3389(&vec![printed("tcp LISTEN 0.0.0.0:3389", true)]), Next::Done(true)));
    let r = check_port_3389(&vec![printed("tcp LISTEN 0.0.0.0:22", true)]);
    assert_eq!(asked(&r).0, "netstat");
    assert!(matches!(check_port_3389(&vec![None, printed(":::3389", true)]), Next::Done(true)));
    assert!(matches!(check_port_3389(&vec![None, None]), Next::Done(false)));
}

#[test]
fn rdp_enabled_asks_grdctl_twice_at_most() {
    assert!(matches!(check_rdp_enabled(&None, &vec![]), Next::Done(false)));
    let g = Some("/usr/bin/grdctl".to_string());
    let r = check_rdp_enabled(&g, &vec![]);
    assert_eq!(asked(&r), ("/usr/bin/grdctl".to_string(), vec!["rdp".to_string(), "status".to_string()], RunIn::Session));
    assert!(matches!(check_rdp_enabled(&g, &vec![printed("Status: enabled", true)]), Next::Done(true)));
    let r = check_rdp_enabled(&g, &vec![printed("usage", false)]);
    assert_eq!(asked(&r).1, vec!["status".to_string()]);
    assert!(matches!(check_rdp_enabled(&g, &vec![None, printed("RDP:\n Status: disabled", true)]), Next::Done(false)));
    assert!(matches!(check_rdp_enabled(&g, &vec![None, None]), Next::Done(false)));
}

#[test]
fn commands_in_the_session() {
    let args = vec!["rdp".to_string(), "enable".to_string()];
    let s = Some(graphical_session());
    let p = plan_command("grdctl", &args, &s, true);
    assert_eq!(p.program, "runuser");
    assert_eq!(
        p.args,
        vec![
            "-u",
            "alice",
            "--",
            "env",
            "DBUS_SESSION_BUS_ADDRESS=unix:path=/run/user/1000/bus",
            "XDG_RUNTIME_DIR=/run/user/1000",
            "grdctl",
            "rdp",
            "enable"
        ]
    );
    assert!(p.env.is_empty());
    let p = plan_command("grdctl", &args, &s, false);
    assert_eq!(p.program, "grdctl");
    assert_eq!(p.args, args);
    assert_eq!(
        p.env,
        vec![
            ("DBUS_SESSION_BUS_ADDRESS".to_string(), "unix:path=/run/user/1000/bus".to_string()),
            ("XDG_RUNTIME_DIR".to_string(), "/run/user/1000".to_string()),
            ("DISPLAY".to_string(), ":0".to_string()),
        ]
    );
    let p = plan_command("grdctl", &args, &None, true);
    assert_eq!(p.program, "grdctl");
    assert!(p.env.is_empty());
}

#[test]
fn proc_status_and_environ() {
    assert_eq!(status_uid("Name:\tbash\nUid:\t1000\t1000\t1000\t1000\n"), Some(1000));
    assert_eq!(status_uid("Name:\tbash\n"), None);
    assert!(status_names_gnome_shell("Name:\tgnome-shell\nUid:\t1000\n"));
    assert!(!status_names_gnome_shell("Name:\tbash\nCmd: gnome-shell\n"));
    assert!(is_pid_name("1234"));
    assert!(!is_pid_name("self"));
    let environ = b"HOME=/home/a\0DISPLAY=:1\0XDG_CURRENT_DESKTOP=ubuntu:GNOME\0".to_vec();
    assert_eq!(display_from_environ(&environ), Some(":1".to_string()));
    assert_eq!(desktop_from_environ(&environ), Some(DesktopEnvironment::Gnome));
    assert_eq!(environ_value(&b"DISPLAY=DISPLAY=:2\0".to_vec(), "DISPLAY="), Some(":2".to_string()));
    assert_eq!(environ_value(&b"A=\xff\0".to_vec(), "A="), Some("\u{FFFD}".to_string()));
    assert_eq!(environ_value(&b"A=1\0".to_vec(), "B="), None);
}

#[test]
fn xauthority_places() {
    assert_eq!(
        xauthority_candidates(1000, "alice"),
        vec!["/run/user/1000/gdm/Xauthority", "/home/alice/.Xauthority", "/root/.Xauthority"]
    );
}

#[test]
fn active_session_is_found_by_walking_loginctl() {
    let list = "  1  120 gdm   seat0 tty1\n  2 1000 alice seat0 tty2\n";
    match detect_active_session(list, &vec![]) {
        SessionStep::Show(inv) => assert_eq!(inv.args, vec!["show-session".to_string(), "2".to_string()]),
        other => panic!("unexpected {:?}", other),
    }
    let show = printed("Id=2\nActive=yes\nState=active\nType=wayland\n", true);
    match detect_active_session(list, &vec![show]) {
        SessionStep::Found { session_id, username, uid, display_server } => {
            assert_eq!(session_id, "2");
            assert_eq!(username, "alice");
            assert_eq!(uid, 1000);
            assert_eq!(display_server, DisplayServer::Wayland);
        }
        other => panic!("unexpected {:?}", other),
    }
    let tty = printed("Id=2\nActive=yes\nType=tty\n", true);
    assert!(matches!(detect_active_session(list, &vec![tty]), SessionStep::NoSession));
    assert!(matches!(detect_active_session(list, &vec![None]), SessionStep::Failed));
}

#[test]
fn display_server_from_session_env_or_loginctl() {
    let s = Some(graphical_session());
    assert!(matches!(detect_display_server(&s, &None, &vec![]), Next::Done(DisplayServer::Wayland)));
    assert!(matches!(detect_display_server(&None, &Some("X11".to_string()), &vec![]), Next::Done(DisplayServer::X11)));
    let r = detect_display_server(&None, &None, &vec![]);
    assert_eq!(asked(&r).1, vec!["list-sessions".to_string(), "--no-legend".to_string()]);
    let r = detect_display_server(&None, &None, &vec![printed("3 1000 bob seat0\n", true)]);
    assert_eq!(asked(&r).1, vec!["show-session".to_string(), "3".to_string()]);
    let r = detect_display_server(&None, &None, &vec![printed("3 1000 bob seat0\n", true), printed("Active=yes\nType=wayland\n", true)]);
    assert!(matches!(r, Next::Done(DisplayServer::Wayland)));
}

#[test]
fn monitor_by_xrandr_or_drm() {
    let r = detect_monitor(&vec![], &vec![]);
    assert_eq!(asked(&r), ("xrandr".to_string(), vec!["--query".to_string()], RunIn::Session));
    assert!(matches!(detect_monitor(&vec![printed("HDMI-1 connected primary 1920x1080", true)], &vec![]), Next::Done(true)));
    assert!(matches!(detect_monitor(&vec![printed("HDMI-1 disconnected", true)], &vec!["connected\n".to_string()]), Next::Done(false)));
    assert!(matches!(detect_monitor(&vec![None], &vec!["disconnected\n".to_string(), "connected\n".to_string()]), Next::Done(true)));
    assert!(matches!(detect_monitor(&vec![printed("", false)], &vec![]), Next::Done(false)));
}

#[test]
fn grdctl_is_looked_for_in_order() {
    assert!(matches!(find_grdctl(&vec![false, true, true], &vec![]), Next::Done(Some(p)) if p == "/usr/local/bin/grdctl"));
    let r = find_grdctl(&vec![false, false, false], &vec![]);
    assert_eq!(asked(&r), ("which".to_string(), vec!["grdctl".to_string()], RunIn::Quiet));
    assert!(matches!(find_grdctl(&vec![false, false, false], &vec![printed("/opt/bin/grdctl\n", true)]), Next::Done(Some(p)) if p == "/opt/bin/grdctl"));
    assert!(matches!(find_grdctl(&vec![false, false, false], &vec![printed("\n", true)]), Next::Done(None)));
}

#[test]
fn desktop_from_env_then_proc_then_ps() {
    assert!(matches!(
        detect_desktop(&Some("KDE".to_string()), &None, &None, &vec![]),
        Next::Done(DesktopEnvironment::Kde)
    ));
    let s = Some(graphical_session());
    assert!(matches!(detect_desktop(&None, &s, &None, &vec![]), Next::Probe(DesktopProbe::ScanProc)));
    assert!(matches!(
        detect_desktop(&None, &s, &Some(Some(DesktopEnvironment::Gnome)), &vec![]),
        Next::Done(DesktopEnvironment::Gnome)
    ));
    match detect_desktop(&None, &s, &Some(None), &vec![]) {
        Next::Probe(DesktopProbe::Run(inv)) => assert_eq!(inv.run_in, RunIn::Session),
        other => panic!("unexpected {:?}", other),
    }
    assert!(matches!(
        detect_desktop(&None, &s, &Some(None), &vec![printed("alice 1 xfwm4", true)]),
        Next::Done(DesktopEnvironment::Xfce)
    ));
    assert!(matches!(
        detect_desktop(&None, &None, &None, &vec![printed("root 1 /usr/bin/gnome-shell", true)]),
        Next::Done(DesktopEnvironment::Gnome)
    ));
    assert!(matches!(
        detect_desktop(&None, &None, &None, &vec![None]),
        Next::Done(DesktopEnvironment::Unknown(s)) if s.is_empty()
    ));
}

#[test]
fn proc_scans_stop_and_skip_as_they_should() {
    let mine = Some("Name:\tgnome-shell\nUid:\t1000\t1000\t1000\t1000\n".to_string());
    let other = Some("Name:\tbash\nUid:\t0\t0\t0\t0\n".to_string());
    assert!(matches!(display_scan(1000, &None, &None), Scan::Finish(None)));
    assert!(matches!(display_scan(1000, &Some("Name:\tx\n".to_string()), &None), Scan::Finish(None)));
    assert!(matches!(display_scan(1000, &other, &None), Scan::Skip));
    assert!(matches!(display_scan(1000, &mine, &None), Scan::ReadEnviron));
    assert!(matches!(display_scan(1000, &mine, &Some(None)), Scan::Finish(None)));
    assert!(matches!(display_scan(1000, &mine, &Some(Some(b"HOME=/h\0".to_vec()))), Scan::Skip));
    assert!(matches!(display_scan(1000, &mine, &Some(Some(b"DISPLAY=:0\0".to_vec()))), Scan::Finish(Some(d)) if d == ":0"));
    assert!(matches!(desktop_scan(&None, &None), Scan::Skip));
    assert!(matches!(desktop_scan(&other, &None), Scan::Skip));
    assert!(matches!(desktop_scan(&mine, &None), Scan::ReadEnviron));
    assert!(matches!(desktop_scan(&mine, &Some(None)), Scan::Skip));
    assert!(matches!(
        desktop_scan(&mine, &Some(Some(b"XDG_CURRENT_DESKTOP=ubuntu:GNOME\0".to_vec()))),
        Scan::Finish(Some(DesktopEnvironment::Gnome))
    ));
}
