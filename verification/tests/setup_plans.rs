use hydradesk::detect::{CmdOutput, DisplayServer, Invocation, Next, OsInfo, PackageManager, RunIn, SessionInfo, SystemState, DesktopEnvironment};
use hydradesk::install::{
    apply_now, check_result, configure_autologin, install_lock_watcher, install_login_autostart, install_persistence,
    start_virtual_display,
};
use hydradesk::rdp::{
    disable_screen_lock, edid_1080p, generate_password, password_from_draws, install_virtual_display, lock_session, lock_watch_script,
    login_init_script, open_firewall_port, unlock_session, Check, Firewall, FwStep, Mark, RdpConfig, Step,
};
use hydradesk::setup::{
    activates_now, confirms_reboot, firewall_outcome, fix_plan, grd_install_command, install_deps, install_outcome,
    ip_is_public, is_weak_password, journal_args, lock_timeout_secs, password_prompt, resolve_lock_timeout,
    resolve_password, resolve_rdp_user, restart_outcome, system_user, root_refusal, desktop_refusal, session_refusal, trim_trailing_newlines, uninstall, DepsProbe,
    PasswordPrompt,
};

fn out(stdout: &str, success: bool) -> Option<CmdOutput> {
    Some(CmdOutput { stdout: stdout.to_string(), stderr: String::new(), success })
}

fn failed_with(stderr: &str) -> Option<CmdOutput> {
    Some(CmdOutput { stdout: String::new(), stderr: stderr.to_string(), success: false })
}

fn session() -> SessionInfo {
    SessionInfo::new("2".to_string(), "alice".to_string(), 1000, DisplayServer::Wayland, None, None)
}

fn state(session: Option<SessionInfo>) -> SystemState {
    SystemState::collect(
        OsInfo { name: "Ubuntu".to_string(), version_id: "24.04".to_string() },
        session,
        DesktopEnvironment::Gnome,
        DisplayServer::Wayland,
        true,
        Some("/usr/bin/grdctl".to_string()),
        true,
        false,
        Some("192.168.1.5".to_string()),
    )
}

fn runs(step: &Step) -> Option<(String, Vec<String>, RunIn, Check)> {
    match step {
        Step::Run { inv, check } => Some((inv.program.clone(), inv.args.clone(), inv.run_in, *check)),
        _ => None,
    }
}

fn written(steps: &[Step]) -> Vec<String> {
    steps
        .iter()
        .filter_map(|s| match s {
            Step::Write { path, .. } => Some(path.clone()),
            _ => None,
        })
        .collect()
}

fn removed(steps: &[Step]) -> Vec<String> {
    steps
        .iter()
        .filter_map(|s| match s {
            Step::RemoveFile(p) | Step::RemoveTree(p) => Some(p.clone()),
            _ => None,
        })
        .collect()
}

#[test]
fn edid_checksum_makes_the_block_sum_to_zero() {
    let e = edid_1080p();
    let sum: u32 = e.iter().map(|&b| b as u32).sum();
    assert_eq!(sum % 256, 0);
    assert_eq!(&e[0..8], &[0x00, 0xff, 0xff, 0xff, 0xff, 0xff, 0xff, 0x00]);
    assert_eq!(e[127], ((256 - (e[..127].iter().map(|&b| b as u32).sum::<u32>() % 256)) % 256) as u8);
}

#[test]
fn login_script_quotes_the_credentials() {
    let s = login_init_script("alice", "it's-a-secret", true);
    assert!(s.starts_with("#!/bin/bash\n"));
    assert!(s.contains("grdctl rdp set-credentials 'alice' 'it'\\''s-a-secret'\n"));
    assert!(s.contains("lock-enabled true\n"));
    assert!(login_init_script("a", "b", false).contains("lock-enabled false\n"));
}

#[test]
fn lock_watch_script_embeds_the_timeout() {
    let s = lock_watch_script(300);
    assert!(s.contains("\nTIMEOUT=300\n"));
    assert!(lock_watch_script(0).contains("\nTIMEOUT=0\n"));
}

#[test]
fn generated_passwords_are_plain_and_strong() {
    let alphabet = "abcdefghijkmnpqrstuvwxyzABCDEFGHJKLMNPQRSTUVWXYZ23456789!@#%&*+=?";
    for _ in 0..20 {
        let p = generate_password();
        assert_eq!(p.chars().count(), 20);
        assert!(p.chars().all(|c| alphabet.contains(c)));
        assert!(!p.contains('\''));
    }
    assert_ne!(generate_password(), generate_password());
}

#[test]
fn virtual_display_install_writes_the_edid_first() {
    let steps = install_virtual_display();
    assert_eq!(steps.len(), 11);
    assert!(matches!(&steps[0], Step::CreateDir { path, context } if path == "/usr/local/share/hydradesk" && context == "Failed to create /usr/local/share/hydradesk (run with sudo)"));
    match &steps[1] {
        Step::Write { path, contents, .. } => {
            assert_eq!(path, "/usr/local/share/hydradesk/edid-1080p.bin");
            assert_eq!(contents.as_slice(), &edid_1080p()[..]);
        }
        other => panic!("unexpected {:?}", other),
    }
    assert!(matches!(&steps[5], Step::SetMode { path, mode: 0o755, .. } if path == "/usr/local/bin/hydradesk-display-init"));
    assert_eq!(runs(&steps[9]).unwrap().1, vec!["enable", "hydradesk-display.service"]);
    assert!(matches!(&steps[10], Step::Note(Mark::Done, t) if t == "Virtual display service installed (1080p, auto-starts at boot)"));
}

#[test]
fn login_autostart_is_owner_only() {
    let steps = install_login_autostart("alice", "bob", "correct horse", false);
    assert_eq!(written(&steps), vec!["/home/alice/.local/bin/hydradesk-rdp-init", "/home/alice/.config/autostart/hydradesk-rdp.desktop"]);
    assert!(matches!(&steps[3], Step::SetMode { path, mode: 0o700, context: None } if path == "/home/alice/.local/bin/hydradesk-rdp-init"));
    match &steps[2] {
        Step::Write { contents, .. } => {
            assert_eq!(String::from_utf8(contents.clone()).unwrap(), login_init_script("bob", "correct horse", false))
        }
        other => panic!("unexpected {:?}", other),
    }
    match &steps[4] {
        Step::Write { contents, .. } => assert_eq!(
            String::from_utf8(contents.clone()).unwrap(),
            "[Desktop Entry]\nType=Application\nName=HydraDesk RDP\nExec=/home/alice/.local/bin/hydradesk-rdp-init\nX-GNOME-Autostart-enabled=true\nNoDisplay=true\n"
        ),
        other => panic!("unexpected {:?}", other),
    }
    assert_eq!(runs(&steps[5]).unwrap(), ("chown".to_string(), vec!["-R".to_string(), "alice:alice".to_string(), "/home/alice/.local/bin".to_string()], RunIn::Quiet, Check::Ignore));
}

#[test]
fn lock_watcher_reports_the_timeout() {
    let on = install_lock_watcher("alice", 300);
    assert!(matches!(on.last(), Some(Step::Note(Mark::Done, t)) if t == "Auto-lock 300s after the last RDP client disconnects"));
    let off = install_lock_watcher("alice", 0);
    assert!(matches!(off.last(), Some(Step::Note(Mark::Info, t)) if t == "Auto-lock on disconnect: off (use 'hydradesk lock' to lock manually)"));
    assert_eq!(written(&on), vec!["/home/alice/.local/bin/hydradesk-lock-watch", "/home/alice/.config/autostart/hydradesk-lock.desktop"]);
}

#[test]
fn persistence_keeps_the_session_lockable_only_with_a_timeout() {
    let with_monitor = install_persistence(true, "alice", "alice", "pw-correct-horse", 600);
    assert!(matches!(&with_monitor[0], Step::Note(Mark::Info, t) if t.starts_with("Physical monitor detected")));
    let script = with_monitor.iter().find_map(|s| match s {
        Step::Write { path, contents, .. } if path.ends_with("hydradesk-rdp-init") => Some(String::from_utf8(contents.clone()).unwrap()),
        _ => None,
    });
    assert!(script.unwrap().contains("lock-enabled true"));
    let headless = install_persistence(false, "alice", "alice", "pw", 0);
    assert!(written(&headless).contains(&"/usr/local/share/hydradesk/edid-1080p.bin".to_string()));
    assert_eq!(headless.len(), 11 + 9 + 8);
}

#[test]
fn uninstall_removes_what_setup_installed() {
    let installed = written(&install_persistence(false, "alice", "bob", "pw", 60));
    for st in [None, Some(state(Some(session()))), Some(state(None))] {
        let steps = uninstall(&st, "alice");
        let gone = removed(&steps);
        for path in &installed {
            assert!(gone.iter().any(|g| g == path || path.starts_with(&format!("{}/", g))), "{} stays", path);
        }
    }
    let with_session = uninstall(&Some(state(Some(session()))), "alice");
    assert_eq!(runs(&with_session[4]).unwrap().1, vec!["rdp", "disable"]);
    assert_eq!(uninstall(&None, "alice").len(), 13);
}

#[test]
fn start_display_only_when_headless() {
    assert!(start_virtual_display(true).is_empty());
    let s = start_virtual_display(false);
    assert_eq!(runs(&s[0]).unwrap().1, vec!["restart", "hydradesk-display.service"]);
    assert!(matches!(s[1], Step::Sleep(5000)));
}

#[test]
fn apply_now_needs_a_session() {
    let none = apply_now(&None, true, &None, "bob", "pw", false, false, false);
    assert!(matches!(none, Err(e) if e == "No active graphical session to configure"));
    let (steps, config) = apply_now(&Some(session()), true, &None, "bob", "pw", true, true, false).unwrap();
    let cred = steps.iter().filter_map(runs).find(|r| r.3 == Check::Credentials).unwrap();
    assert_eq!(cred.0, "/usr/bin/grdctl");
    assert_eq!(cred.1, vec!["rdp", "set-credentials", "bob", "pw"]);
    assert!(!steps.iter().any(|s| matches!(s, Step::OpenFirewall)));
    assert!(steps.iter().any(|s| matches!(s, Step::Sleep(2000))));
    assert_eq!(config.username, "bob");
    assert_eq!(config.generated_password, Some("pw".to_string()));
    let (steps, config) = apply_now(&Some(session()), false, &Some("/x/grdctl".to_string()), "bob", "pw", false, false, true).unwrap();
    assert!(matches!(steps.last(), Some(Step::OpenFirewall)));
    assert!(steps.iter().any(|s| matches!(s, Step::Sleep(5000))));
    assert_eq!(config.generated_password, None);
}

#[test]
fn command_results_end_the_work_only_where_they_count() {
    assert_eq!(check_result(Check::Ignore, &None), Ok(()));
    assert_eq!(check_result(Check::Credentials, &None), Err("Failed to run grdctl rdp set-credentials".to_string()));
    assert_eq!(
        check_result(Check::Credentials, &failed_with("  no keyring \n")),
        Err("grdctl set-credentials failed: no keyring\nRun with --debug for details.".to_string())
    );
    assert_eq!(check_result(Check::Service, &None), Err("Failed to restart gnome-remote-desktop.service".to_string()));
    assert_eq!(
        check_result(Check::Service, &failed_with("unit missing\n")),
        Err("Failed to start gnome-remote-desktop service:\nunit missing\n".to_string())
    );
    assert_eq!(check_result(Check::Service, &out("", true)), Ok(()));
}

#[test]
fn autologin_for_the_distro_family() {
    let steps = configure_autologin("alice", false);
    assert!(matches!(&steps[0], Step::CreateDir { path, .. } if path == "/etc/gdm"));
    match &steps[1] {
        Step::Write { path, contents, context } => {
            assert_eq!(path, "/etc/gdm/custom.conf");
            assert_eq!(context, "Failed to write /etc/gdm/custom.conf (requires root)");
            assert_eq!(
                String::from_utf8(contents.clone()).unwrap(),
                "[daemon]\nAutomaticLoginEnable=true\nAutomaticLogin=alice\n\n[security]\n\n[xdmcp]\n\n[chooser]\n\n[debug]\n"
            );
        }
        other => panic!("unexpected {:?}", other),
    }
}

#[test]
fn screen_lock_steps() {
    let s = disable_screen_lock(&Some(session()), true);
    assert_eq!(s.len(), 4);
    assert_eq!(runs(&s[0]).unwrap().1, vec!["set", "org.gnome.desktop.screensaver", "lock-enabled", "true"]);
    assert_eq!(runs(&s[3]).unwrap().1, vec!["unlock-session", "2"]);
    assert_eq!(disable_screen_lock(&None, false).len(), 3);
}

#[test]
fn lock_falls_back_to_the_screensaver() {
    let s = Some(session());
    let args = |r: Next<Invocation, ()>| match r {
        Next::Probe(inv) => inv.args,
        Next::Done(()) => vec![],
    };
    assert_eq!(args(lock_session(&s, &vec![])), vec!["set", "org.gnome.desktop.screensaver", "lock-enabled", "true"]);
    assert_eq!(args(lock_session(&s, &vec![None])), vec!["lock-session", "2"]);
    assert!(matches!(lock_session(&s, &vec![None, out("", true)]), Next::Done(())));
    assert_eq!(args(lock_session(&s, &vec![None, out("", false)])).last().unwrap(), "true");
    assert!(matches!(lock_session(&s, &vec![None, None, None]), Next::Done(())));
    assert_eq!(args(unlock_session(&s, &vec![])), vec!["unlock-session", "2"]);
    assert_eq!(args(unlock_session(&None, &vec![])).last().unwrap(), "false");
    assert!(matches!(unlock_session(&None, &vec![None]), Next::Done(())));
}

#[test]
fn firewall_rule_is_lan_scoped_and_rate_limited() {
    let running = out("running\n", true);
    let step = |o: Vec<Option<CmdOutput>>, ip: Option<Option<String>>| open_firewall_port(true, &o, &ip);
    assert!(matches!(step(vec![out("not running", false), out("Status: inactive", true)], None), Next::Done(Ok(()))));
    assert!(matches!(step(vec![running.clone(), out("ports: 3389/tcp", true)], None), Next::Done(Ok(()))));
    assert!(matches!(step(vec![running.clone(), out("ports:", true)], None), Next::Probe(FwStep::LocalIp)));
    match step(vec![running.clone(), out("ports:", true)], Some(Some("192.168.1.5".to_string()))) {
        Next::Probe(FwStep::Run { inv, announce }) => {
            assert_eq!(inv.program, "firewall-cmd");
            assert_eq!(inv.args, vec!["--permanent".to_string(), "--add-rich-rule=rule family=\"ipv4\" source address=\"192.168.1.0/24\" port port=\"3389\" protocol=\"tcp\" accept limit value=\"20/m\"".to_string()]);
            assert_eq!(announce, Some("  Allowing rate-limited RDP from 192.168.1.0/24 only...".to_string()));
        }
        other => panic!("unexpected {:?}", other),
    }
    let ufw = vec![out("", false), out("Status: active", true), out("Status: active", true)];
    match open_firewall_port(false, &ufw, &Some(None)) {
        Next::Probe(FwStep::Run { inv, announce }) => {
            assert_eq!(inv.program, "sudo");
            assert_eq!(inv.args, vec!["ufw", "limit", "3389/tcp"]);
            assert_eq!(announce, Some("  Allowing rate-limited RDP on 3389/tcp...".to_string()));
        }
        other => panic!("unexpected {:?}", other),
    }
    let mut failing = ufw.clone();
    failing.push(failed_with("ERROR: denied\n"));
    assert!(matches!(open_firewall_port(false, &failing, &Some(None)), Next::Done(Err(e)) if e == "ufw limit 3389/tcp failed:\nERROR: denied"));
    assert!(matches!(Firewall::detect(&vec![out("running", true)]), Next::Done(Firewall::Firewalld)));
}

#[test]
fn rdp_config_keeps_only_generated_passwords() {
    assert_eq!(RdpConfig::new("bob", "secret", false).generated_password, None);
    assert_eq!(RdpConfig::new("bob", "secret", true).generated_password, Some("secret".to_string()));
}

#[test]
fn weak_passwords_are_named() {
    assert_eq!(is_weak_password("short"), Some("must be at least 12 characters".to_string()));
    assert_eq!(is_weak_password("MyPassWord123!"), Some("contains a common/guessable word".to_string()));
    assert_eq!(is_weak_password("xx-UBUNTU-yy-zz"), Some("contains a common/guessable word".to_string()));
    assert_eq!(is_weak_password("correct-horse-battery"), None);
    assert_eq!(is_weak_password("ééééééééééé"), Some("must be at least 12 characters".to_string()));
}

#[test]
fn public_addresses_warn() {
    assert!(ip_is_public("8.8.8.8"));
    assert!(ip_is_public("172.32.0.1"));
    assert!(!ip_is_public("192.168.1.5"));
    assert!(!ip_is_public("10.1.2.3"));
    assert!(!ip_is_public("172.20.1.1"));
    assert!(!ip_is_public("100.64.0.1"));
    assert!(!ip_is_public("169.254.1.1"));
    assert!(!ip_is_public("127.0.0.1"));
    assert!(!ip_is_public("1.2.3"));
    assert!(!ip_is_public("fe80::1"));
    assert!(!ip_is_public("8.x.8.8.8"));
    assert!(!ip_is_public("1.2.3.x.4"));
    assert!(!ip_is_public("1.2.3.4.5"));
    assert!(!ip_is_public("8.8.8.256"));
    assert!(ip_is_public("+8.8.8.8"));
}

#[test]
fn trailing_newlines_are_dropped() {
    assert_eq!(trim_trailing_newlines("pw\r\n\n".to_string()), "pw");
    assert_eq!(trim_trailing_newlines(" pw \n".to_string()), " pw ");
    assert_eq!(trim_trailing_newlines("\n".to_string()), "");
}

#[test]
fn credentials_are_resolved_in_order() {
    let s = Some(session());
    assert_eq!(system_user(&s, &Some("root2".to_string()), &None), "alice");
    assert_eq!(system_user(&None, &Some("bob".to_string()), &Some("root".to_string())), "bob");
    assert_eq!(system_user(&None, &None, &None), "user");
    assert!(matches!(resolve_rdp_user(&Some("  carol ".to_string()), "alice", true, &None), Next::Done(u) if u == "carol"));
    assert!(matches!(resolve_rdp_user(&Some("  ".to_string()), "alice", true, &None), Next::Probe(p) if p == "  RDP username [alice]: "));
    assert!(matches!(resolve_rdp_user(&None, "alice", true, &Some("\n".to_string())), Next::Done(u) if u == "alice"));
    assert!(matches!(resolve_rdp_user(&None, "alice", true, &Some(" dave\n".to_string())), Next::Done(u) if u == "dave"));
    assert!(matches!(resolve_rdp_user(&None, "alice", false, &None), Next::Done(u) if u == "alice"));
}

#[test]
fn passwords_are_refused_prompted_or_generated() {
    assert!(matches!(
        resolve_password(&Some("password1234".to_string()), true, &None),
        Next::Done(Err(e)) if e == "Refusing weak RDP password (contains a common/guessable word). Choose a stronger one."
    ));
    assert!(matches!(resolve_password(&Some("correct-horse-battery".to_string()), false, &None), Next::Done(Ok((p, false))) if p == "correct-horse-battery"));
    assert!(matches!(resolve_password(&None, true, &None), Next::Probe(())));
    assert!(matches!(resolve_password(&None, true, &Some(Some("chosen-one-pw".to_string()))), Next::Done(Ok((p, false))) if p == "chosen-one-pw"));
    assert!(matches!(resolve_password(&None, true, &Some(None)), Next::Done(Ok((p, true))) if p.chars().count() == 20));
    assert!(matches!(resolve_password(&None, false, &None), Next::Done(Ok((p, true))) if p.chars().count() == 20));
}

#[test]
fn password_prompt_rounds() {
    assert!(matches!(password_prompt("  ", &None), PasswordPrompt::Chosen(None)));
    assert!(matches!(password_prompt("short", &None), PasswordPrompt::Retry(l) if l == "Too weak: must be at least 12 characters. Try again."));
    assert!(matches!(password_prompt("correct-horse-battery", &None), PasswordPrompt::Confirm));
    assert!(matches!(password_prompt("correct-horse-battery", &Some("other".to_string())), PasswordPrompt::Retry(l) if l == "Passwords did not match. Try again."));
    assert!(matches!(password_prompt("correct-horse-battery", &Some("correct-horse-battery".to_string())), PasswordPrompt::Chosen(Some(p)) if p == "correct-horse-battery"));
}

#[test]
fn lock_timeout_and_reboot_answers() {
    assert!(matches!(resolve_lock_timeout(Some(5), true, &None), Next::Done(5)));
    assert!(matches!(resolve_lock_timeout(None, true, &None), Next::Probe(p) if p.starts_with("  Lock the screen how many minutes")));
    assert!(matches!(resolve_lock_timeout(None, true, &Some(" 7 \n".to_string())), Next::Done(7)));
    assert!(matches!(resolve_lock_timeout(None, true, &Some("soon".to_string())), Next::Done(0)));
    assert!(matches!(resolve_lock_timeout(None, false, &None), Next::Done(0)));
    assert_eq!(lock_timeout_secs(5), 300);
    assert_eq!(lock_timeout_secs(u64::MAX), u64::MAX);
    assert!(confirms_reboot("Y\n"));
    assert!(confirms_reboot("  y  "));
    assert!(!confirms_reboot("yes"));
    assert!(!confirms_reboot(""));
    assert!(activates_now(DisplayServer::Wayland, &Some(session())));
    assert!(!activates_now(DisplayServer::X11, &Some(session())));
    assert!(!activates_now(DisplayServer::Wayland, &None));
}

#[test]
fn dependencies_are_installed_with_the_package_manager() {
    assert!(matches!(install_deps(&vec![], None), Next::Probe(DepsProbe::Run(inv)) if inv.program == "which" && inv.args == vec!["grdctl"]));
    assert!(matches!(install_deps(&vec![out("/usr/bin/grdctl", true)], None), Next::Probe(DepsProbe::Run(inv)) if inv.program == "python3"));
    assert!(matches!(install_deps(&vec![out("", true), out("", true)], None), Next::Done(s) if s.len() == 1));
    assert!(matches!(install_deps(&vec![None, out("", true)], None), Next::Probe(DepsProbe::PackageManager)));
    match install_deps(&vec![None, None], Some(PackageManager::Apt)) {
        Next::Done(steps) => {
            assert_eq!(steps.len(), 5);
            assert_eq!(runs(&steps[0]).unwrap().1, vec!["update", "-qq"]);
            assert_eq!(runs(&steps[4]).unwrap().1, vec!["install", "-y", "-q", "python3-dbus"]);
        }
        other => panic!("unexpected {:?}", other),
    }
    match install_deps(&vec![None, out("", true)], Some(PackageManager::Dnf)) {
        Next::Done(steps) => assert_eq!(runs(&steps[1]).unwrap().1, vec!["install", "-y", "gnome-remote-desktop"]),
        other => panic!("unexpected {:?}", other),
    }
    assert!(matches!(install_deps(&vec![None, None], Some(PackageManager::Unknown)), Next::Done(s) if matches!(&s[0], Step::Note(Mark::Warn, _))));
}

#[test]
fn fix_plans_and_reports() {
    let p = fix_plan(&state(Some(session())));
    assert!(!p.install_grdctl && p.restart_service && !p.open_firewall);
    assert!(grd_install_command(PackageManager::Unknown).is_none());
    assert_eq!(grd_install_command(PackageManager::Apt).unwrap().args, vec!["install", "-y", "gnome-remote-desktop"]);
    let o = install_outcome(&None);
    assert_eq!(o.text, "No supported package manager (apt/dnf) found — install gnome-remote-desktop manually.");
    assert!(!o.fixed);
    let o = install_outcome(&Some(Ok(CmdOutput { stdout: String::new(), stderr: "E: locked".to_string(), success: false })));
    assert_eq!(o.text, "package install failed:\nE: locked");
    let o = install_outcome(&Some(Err("Failed to execute: apt-get".to_string())));
    assert_eq!(o.text, "package manager not available: Failed to execute: apt-get");
    let o = restart_outcome(&Ok(CmdOutput { stdout: String::new(), stderr: String::new(), success: true }));
    assert!(o.fixed && o.mark == Mark::Done && o.text == "Service restarted");
    let o = restart_outcome(&Err("Failed to execute: runuser".to_string()));
    assert_eq!(o.text, "Could not restart: Failed to execute: runuser");
    assert!(firewall_outcome(&Ok(())).fixed);
    assert_eq!(firewall_outcome(&Err("boom".to_string())).text, "boom");
}

#[test]
fn journal_arguments() {
    assert_eq!(journal_args(80, "24 hours ago", false), vec!["--user", "-u", "gnome-remote-desktop.service", "--no-pager", "--since", "24 hours ago", "-n", "80"]);
    assert_eq!(journal_args(80, "x", true), vec!["--user", "-u", "gnome-remote-desktop.service", "--no-pager", "-f"]);
}

#[test]
fn draws_spell_the_password() {
    let alphabet: Vec<char> = "abcdefghijkmnpqrstuvwxyzABCDEFGHJKLMNPQRSTUVWXYZ23456789!@#%&*+=?".chars().collect();
    let draws: Vec<usize> = (0..20).map(|i| (i * 7) % 65).collect();
    let expected: String = draws.iter().map(|&d| alphabet[d]).collect();
    assert_eq!(password_from_draws(&draws), expected);
    assert_eq!(password_from_draws(&vec![64; 20]), "?".repeat(20));
    assert_eq!(password_from_draws(&vec![0; 20]), "a".repeat(20));
}

#[test]
fn refusals_of_setup_and_locking() {
    assert_eq!(root_refusal(true, "setup"), None);
    assert_eq!(
        root_refusal(false, "setup"),
        Some("hydradesk setup must be run as root.  Try:  sudo hydradesk setup".to_string())
    );
    assert_eq!(
        root_refusal(false, "uninstall"),
        Some("hydradesk uninstall must be run as root.  Try:  sudo hydradesk uninstall".to_string())
    );
    assert_eq!(desktop_refusal(&DesktopEnvironment::Gnome), None);
    assert_eq!(desktop_refusal(&DesktopEnvironment::Kde), Some("KDE".to_string()));
    assert_eq!(session_refusal(&None, "lock"), Some("No active graphical session to lock.".to_string()));
    assert_eq!(session_refusal(&Some(session()), "unlock"), None);
}
