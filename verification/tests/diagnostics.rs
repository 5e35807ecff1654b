use hydradesk::detect::{CmdOutput, DesktopEnvironment, DisplayServer, Next, OsInfo, PackageManager, SessionInfo, SystemState};
use hydradesk::doctor::{
    check_desktop, check_display_server, check_firewall, check_grdctl, check_monitor, check_os, check_port,
    check_rdp_enabled, check_session, connect_test, rdp_status, summarize, Finding, Level, RdpStatus,
};
use hydradesk::history::{
    clients_query, rdp_events_query, connection_history, current_rdp_clients, last_completed_session, rdp_journal_events, session_duration,
    LastSession,
};
use hydradesk::rdp::{check_service_active, mutter_has_monitor, tls_fingerprint, verify};

fn answer(stdout: &str, success: bool) -> Option<CmdOutput> {
    Some(CmdOutput { stdout: stdout.to_string(), stderr: String::new(), success })
}

fn alice_session() -> SessionInfo {
    SessionInfo::new("7".to_string(), "alice".to_string(), 1000, DisplayServer::Wayland, Some(":0".to_string()), None)
}

fn snapshot(desktop: DesktopEnvironment, ds: DisplayServer, session: Option<SessionInfo>, grdctl: bool) -> SystemState {
    SystemState::collect(
        OsInfo { name: "Fedora Linux".to_string(), version_id: "40".to_string() },
        session,
        desktop,
        ds,
        false,
        if grdctl { Some("/usr/bin/grdctl".to_string()) } else { None },
        false,
        false,
        None,
    )
}

fn fails(v: &[Finding]) -> u64 {
    v.iter().filter(|f| f.level == Level::Fail).count() as u64
}

#[test]
fn doctor_findings() {
    assert_eq!(check_os(&OsInfo { name: "Ubuntu".to_string(), version_id: "24.04".to_string() }).message, "OS detected: Ubuntu 24.04");
    let kde = check_desktop(&DesktopEnvironment::Kde);
    assert_eq!(kde.level, Level::Fail);
    assert_eq!(kde.reason, "GNOME Remote Desktop is GNOME-only. KDE does not support grdctl.");
    assert_eq!(kde.fix, Some("Use NoMachine or RustDesk instead for KDE.".to_string()));
    let unknown = check_desktop(&DesktopEnvironment::Unknown("sway".to_string()));
    assert_eq!((unknown.level, unknown.message.as_str()), (Level::Warn, "Desktop: Unknown (sway)"));
    assert_eq!(check_display_server(DisplayServer::Wayland).level, Level::Pass);
    assert_eq!(check_display_server(DisplayServer::X11).level, Level::Warn);
    assert_eq!(check_monitor(false).fix, Some("Connect an HDMI dummy plug, or configure a virtual display. Run: hydradesk fix --headless".to_string()));
    let s = check_session(&Some(alice_session()));
    assert_eq!(s.len(), 3);
    assert_eq!(s[0].message, "Active session: user='alice' uid=1000 session=7");
    assert_eq!(s[1].message, "  DISPLAY=:0");
    assert_eq!(s[2].message, "  DBUS=unix:path=/run/user/1000/bus");
    let none = check_session(&None);
    assert_eq!(none[0].reason, "loginctl found no active graphical session. RDP cannot mirror a desktop that isn't running.");
}

#[test]
fn grdctl_and_rdp_findings() {
    assert!(matches!(check_grdctl(&Some("/usr/bin/grdctl".to_string()), None), Next::Done(f) if f.message == "grdctl found: /usr/bin/grdctl"));
    assert!(matches!(check_grdctl(&None, None), Next::Probe(())));
    assert!(matches!(check_grdctl(&None, Some(PackageManager::Dnf)), Next::Done(f) if f.fix == Some("Install it: sudo dnf install gnome-remote-desktop".to_string())));
    let mut st = snapshot(DesktopEnvironment::Gnome, DisplayServer::Wayland, None, false);
    assert!(check_rdp_enabled(&st).is_none());
    st.grdctl_path = Some("/usr/bin/grdctl".to_string());
    assert_eq!(check_rdp_enabled(&st).unwrap().level, Level::Fail);
    st.rdp_port_open = true;
    assert_eq!(check_rdp_enabled(&st).unwrap().message, "GNOME RDP: appears running (grdctl status unclear)");
    assert_eq!(check_port(false, true).level, Level::Fail);
    assert_eq!(check_port(false, false).level, Level::Info);
    assert_eq!(check_port(true, false).message, "Port 3389 is listening");
}

#[test]
fn firewall_findings() {
    assert!(matches!(check_firewall(&vec![]), Next::Probe(inv) if inv.program == "firewall-cmd" && inv.args == vec!["--state"]));
    assert!(matches!(check_firewall(&vec![answer("running\n", true)]), Next::Probe(inv) if inv.args == vec!["--list-all"]));
    assert!(matches!(check_firewall(&vec![answer("running\n", true), answer("ports: 3389/tcp", true)]), Next::Done(f) if f.level == Level::Pass));
    assert!(matches!(check_firewall(&vec![answer("running\n", true), None]), Next::Done(f) if f.level == Level::Warn));
    assert!(matches!(check_firewall(&vec![None]), Next::Probe(inv) if inv.program == "ufw"));
    assert!(matches!(check_firewall(&vec![None, answer("Status: inactive", true)]), Next::Done(f) if f.message == "Firewall (ufw): inactive — port 3389 is open by default"));
    assert!(matches!(check_firewall(&vec![None, answer("Status: active\n3389 LIMIT", true)]), Next::Done(f) if f.level == Level::Pass));
    assert!(matches!(check_firewall(&vec![None, answer("Status: active\n22 ALLOW", true)]), Next::Done(f) if f.fix == Some("Run: sudo ufw allow 3389/tcp".to_string())));
    assert!(matches!(check_firewall(&vec![None, answer("???", true)]), Next::Done(f) if f.message == "Firewall: status unknown"));
    assert!(matches!(check_firewall(&vec![None, None]), Next::Done(f) if f.message == "Firewall: no active ufw/firewalld (no firewall rules to check)"));
}

#[test]
fn readiness_needs_gnome_wayland_session_and_grdctl() {
    let ready = summarize(&snapshot(DesktopEnvironment::Gnome, DisplayServer::Wayland, Some(alice_session()), true));
    assert!(ready.ready());
    let not = summarize(&snapshot(DesktopEnvironment::Kde, DisplayServer::X11, None, false));
    assert!(!not.ready());
    assert!(not.needs_gnome && not.needs_wayland && not.needs_session && not.needs_grdctl);
    let only_grdctl = summarize(&snapshot(DesktopEnvironment::Gnome, DisplayServer::Wayland, Some(alice_session()), false));
    assert!(!only_grdctl.ready() && only_grdctl.needs_grdctl && !only_grdctl.needs_session);
}

#[test]
fn connect_test_counts_every_failure_as_a_blocker() {
    let st = snapshot(DesktopEnvironment::Gnome, DisplayServer::Wayland, Some(alice_session()), true);
    let status = answer("RDP:\n  Status: enabled\n  Username: (hidden)\n  View-only: no\n", true);
    let mut good = st.clone();
    good.rdp_port_open = true;
    let r = connect_test(&good, Some(true), &status, true);
    assert_eq!(r.blockers, 0);
    assert_eq!(r.remote_desktop.len(), 3);
    assert_eq!(r.session[1].message, "Active graphical session: alice (uid 1000)");
    let bad = snapshot(DesktopEnvironment::Xfce, DisplayServer::X11, None, false);
    let r = connect_test(&bad, None, &None, false);
    let all: Vec<Finding> = [r.session.clone(), r.framebuffer.clone(), r.remote_desktop.clone(), r.service.clone()].concat();
    assert_eq!(r.blockers, fails(&all));
    assert_eq!(r.blockers, 7);
    assert_eq!(r.remote_desktop.len(), 2);
    let r = connect_test(&st, Some(false), &answer("status: ENABLED\nView-only: yes", true), true);
    assert_eq!(r.framebuffer[0].message, "Mutter has no monitor — RDP would show a black screen");
    assert_eq!(r.remote_desktop[0].level, Level::Pass);
    assert_eq!(r.remote_desktop[2].level, Level::Warn);
    assert_eq!(r.blockers, 3);
    let mut monitor = st.clone();
    monitor.has_monitor = true;
    assert_eq!(connect_test(&monitor, None, &None, true).framebuffer[0].level, Level::Warn);
}

#[test]
fn status_line_and_readiness() {
    assert_eq!(rdp_status(true, false, false), (RdpStatus::Enabled, false));
    assert_eq!(rdp_status(false, true, true), (RdpStatus::Running, true));
    assert_eq!(rdp_status(false, true, false), (RdpStatus::NotEnabled, false));
    assert_eq!(rdp_status(true, false, true), (RdpStatus::Enabled, true));
}

#[test]
fn service_fingerprint_and_mutter() {
    assert!(check_service_active(&answer("active\n", true)));
    assert!(!check_service_active(&answer("inactive\n", false)));
    assert!(!check_service_active(&None));
    assert!(verify(&answer("active", true), true).service_active);
    assert_eq!(tls_fingerprint(&answer("RDP:\n  TLS fingerprint: AA:BB:CC \n", true)), Some("AA:BB:CC".to_string()));
    assert_eq!(tls_fingerprint(&answer("RDP:\n", true)), None);
    assert_eq!(mutter_has_monitor(&answer("([(('DP-1', ...), [('1920x1080', {'is-current': <true>})])],)", true)), Some(true));
    assert_eq!(mutter_has_monitor(&answer("([],)", true)), Some(false));
    assert_eq!(mutter_has_monitor(&answer("", false)), None);
}

#[test]
fn connection_history_from_ss_and_the_journal() {
    let ss = Some("State Recv-Q Send-Q Local Peer\nESTAB 0 0 192.168.1.5:3389 192.168.1.20:50000\nESTAB 0 0 192.168.1.5:3389 192.168.1.20:50001\nLISTEN 0 0 0.0.0.0:3389 0.0.0.0:*\nESTAB 0 0 192.168.1.5:22 192.168.1.30:4000\n".to_string());
    let current = current_rdp_clients(&ss);
    assert_eq!(current, vec!["192.168.1.20".to_string()]);
    assert!(current_rdp_clients(&None).is_empty());
    let journal = "2024-01-02T03:04:05+0000 h grd[1]: New connection from 10.0.0.5\n\
                   2024-01-02T04:06:10+0000 h grd[1]: Client 10.0.0.5 disconnected\n\
                   2024-01-02T05:00:00+0000 h grd[1]: accepted 10.0.0.9\n";
    let events = rdp_journal_events(journal);
    assert_eq!(events.len(), 3);
    assert_eq!(last_completed_session(&events), Some((0, 1)));
    let h = connection_history(current, &events).unwrap();
    assert_eq!(h.last_event, Some(("connected", "10.0.0.9".to_string(), "2024-01-02T05:00:00+0000".to_string())));
    match h.last_session {
        LastSession::Completed { ip, timestamp, duration } => {
            assert_eq!(ip, "10.0.0.5");
            assert_eq!(timestamp, "2024-01-02T03:04:05+0000");
            assert_eq!(duration, "1h 2m");
        }
        LastSession::NotEnoughData => panic!("expected a session"),
    }
    assert!(connection_history(vec![], &vec![]).is_none());
    let only_connect = rdp_journal_events("2024-01-02T03:04:05+0000 h grd[1]: connected 10.0.0.5\n");
    assert!(matches!(connection_history(vec![], &only_connect).unwrap().last_session, LastSession::NotEnoughData));
    assert_eq!(session_duration(Some(10), Some(5)), "duration unknown");
    assert_eq!(session_duration(None, Some(5)), "duration unknown");
    assert_eq!(session_duration(Some(0), Some(61)), "1m 1s");
}

#[test]
fn history_queries() {
    let q = clients_query();
    assert_eq!((q.program.as_str(), q.args.clone()), ("ss", vec!["-tn".to_string()]));
    let j = rdp_events_query();
    assert_eq!(j.program, "journalctl");
    assert_eq!(
        j.args,
        vec!["--user", "-u", "gnome-remote-desktop.service", "--since", "-30 days", "-o", "short-iso", "--no-pager"]
    );
}

#[test]
fn last_session_pairs_the_latest_disconnect_with_its_connect() {
    let journal = "2024-01-02T01:00:00+0000 h grd[1]: connected from 10.0.0.1\n\
                   2024-01-02T02:00:00+0000 h grd[1]: connected from 10.0.0.2\n\
                   2024-01-02T03:00:00+0000 h grd[1]: 10.0.0.2 disconnected\n\
                   2024-01-02T04:00:00+0000 h grd[1]: 10.0.0.3 disconnected\n";
    let events = rdp_journal_events(journal);
    assert_eq!(events.len(), 4);
    assert_eq!(last_completed_session(&events), Some((1, 2)));
    let none = rdp_journal_events("2024-01-02T04:00:00+0000 h grd[1]: 10.0.0.3 disconnected\n2024-01-02T05:00:00+0000 h grd[1]: connect 10.0.0.3\n");
    assert_eq!(last_completed_session(&none), None);
}
