//! The steps of installing HydraDesk's reboot-persistent pieces, of
//! configuring GDM auto-login, and of applying the RDP configuration to the
//! running session, with what a command's result means for them. Each plan
//! is a list of `Step`s that the caller carries out in order.
use vstd::prelude::*;
use vstd::string::StrSliceExecFns;
use vstd::utf8::encode_utf8;
use crate::detect::{concat_str, gdm_custom_conf, run1, run2, run3, run4, CmdOutput, RunIn, SessionInfo};
use crate::number::{decimal_of, u64_text};
use crate::rdp::{
    autologin_config, autologin_config_of, autostart_entry_of, disable_screen_lock, edid_1080p_spec,
    grdctl_or_default, grdctl_or_default_of, home_of, install_virtual_display, lock_autostart_entry,
    lock_watch_script, lock_watch_script_of, login_autostart_entry, login_init_script, login_script_of, push_step,
    run_ignored, screen_lock_steps, steps_of, user_files, virtual_display_steps, Check, Mark, RdpConfig, Step,
    StepView, DISPLAY_SERVICE, KEYRING_PY_PATH,
};
use crate::text::{chars_of, string_of, trim, trim_of};

verus! {

/// Installing the per-login autostart that re-stores the RDP credentials on
/// every login: the script (owner-only, since it holds the password), its
/// autostart entry, and handing both to `user`.
pub open spec fn login_autostart_steps(
    user: Seq<char>,
    rdp_user: Seq<char>,
    rdp_password: Seq<char>,
    lock_enabled: bool,
) -> Seq<StepView> {
    let bin = home_of(user) + "/.local/bin"@;
    let auto = home_of(user) + "/.config/autostart"@;
    let init = bin + "/hydradesk-rdp-init"@;
    let entry = auto + "/hydradesk-rdp.desktop"@;
    let owner = user + ":"@ + user;
    seq![
        StepView::CreateDir(bin, "Failed to create "@ + bin),
        StepView::CreateDir(auto, "Failed to create "@ + auto),
        StepView::Write(init, encode_utf8(login_script_of(rdp_user, rdp_password, lock_enabled)), "Failed to write "@ + init),
        StepView::SetMode(init, 0o700, None),
        StepView::Write(
            entry,
            encode_utf8(autostart_entry_of("HydraDesk RDP"@, bin, "hydradesk-rdp-init"@)),
            "Failed to write "@ + entry,
        ),
        run_ignored("chown"@, seq!["-R"@, owner, bin], RunIn::Quiet),
        run_ignored("chown"@, seq![owner, auto], RunIn::Quiet),
        run_ignored("chown"@, seq![owner, entry], RunIn::Quiet),
        StepView::Note(Mark::Done, "Per-login RDP setup installed (re-stores credentials each boot)"@),
    ]
}

/// The steps of `login_autostart_steps`.
pub fn install_login_autostart(system_user: &str, rdp_user: &str, rdp_password: &str, lock_enabled: bool) -> (r: Vec<
    Step,
>)
    ensures
        steps_of(r@) == login_autostart_steps(system_user@, rdp_user@, rdp_password@, lock_enabled),
{
    let f = user_files(system_user);
    let script = login_init_script(rdp_user, rdp_password, lock_enabled);
    let entry = login_autostart_entry(f.bin_dir.as_str());
    let mut r: Vec<Step> = Vec::new();
    push_step(&mut r, Step::CreateDir {
        path: f.bin_dir.as_str().to_owned(),
        context: concat_str("Failed to create ", f.bin_dir.as_str()),
    });
    push_step(&mut r, Step::CreateDir {
        path: f.autostart_dir.as_str().to_owned(),
        context: concat_str("Failed to create ", f.autostart_dir.as_str()),
    });
    push_step(&mut r, Step::Write {
        path: f.rdp_init.as_str().to_owned(),
        contents: script.as_str().as_bytes_vec(),
        context: concat_str("Failed to write ", f.rdp_init.as_str()),
    });
    push_step(&mut r, Step::SetMode { path: f.rdp_init.as_str().to_owned(), mode: 0o700, context: None });
    push_step(&mut r, Step::Write {
        path: f.rdp_desktop.as_str().to_owned(),
        contents: entry.as_str().as_bytes_vec(),
        context: concat_str("Failed to write ", f.rdp_desktop.as_str()),
    });
    push_step(&mut r, Step::Run {
        inv: run3("chown", "-R", f.owner.as_str(), f.bin_dir.as_str(), RunIn::Quiet),
        check: Check::Ignore,
    });
    push_step(&mut r, Step::Run {
        inv: run2("chown", f.owner.as_str(), f.autostart_dir.as_str(), RunIn::Quiet),
        check: Check::Ignore,
    });
    push_step(&mut r, Step::Run {
        inv: run2("chown", f.owner.as_str(), f.rdp_desktop.as_str(), RunIn::Quiet),
        check: Check::Ignore,
    });
    push_step(&mut r, Step::Note(Mark::Done, "Per-login RDP setup installed (re-stores credentials each boot)".to_owned()));
    assert(steps_of(r@) =~= login_autostart_steps(system_user@, rdp_user@, rdp_password@, lock_enabled));
    r
}

/// Installing the disconnect-lock watcher: the script, its autostart entry,
/// handing both to `user`, and a line on whether auto-lock is on. A timeout
/// of 0 installs a watcher that exits at once, so setup can toggle it.
pub open spec fn lock_watcher_steps(user: Seq<char>, timeout_secs: u64) -> Seq<StepView> {
    let bin = home_of(user) + "/.local/bin"@;
    let auto = home_of(user) + "/.config/autostart"@;
    let watch = home_of(user) + "/"@ + ".local/bin/hydradesk-lock-watch"@;
    let entry = home_of(user) + "/"@ + ".config/autostart/hydradesk-lock.desktop"@;
    let owner = user + ":"@ + user;
    seq![
        StepView::CreateDir(bin, "Failed to create "@ + bin),
        StepView::CreateDir(auto, "Failed to create "@ + auto),
        StepView::Write(watch, encode_utf8(lock_watch_script_of(timeout_secs)), "Failed to write "@ + watch),
        StepView::SetMode(watch, 0o755, None),
        StepView::Write(
            entry,
            encode_utf8(autostart_entry_of("HydraDesk Lock Watch"@, bin, "hydradesk-lock-watch"@)),
            "Failed to write "@ + entry,
        ),
        run_ignored("chown"@, seq![owner, watch], RunIn::Quiet),
        run_ignored("chown"@, seq![owner, entry], RunIn::Quiet),
        if timeout_secs == 0 {
            StepView::Note(Mark::Info, "Auto-lock on disconnect: off (use 'hydradesk lock' to lock manually)"@)
        } else {
            StepView::Note(
                Mark::Done,
                "Auto-lock "@ + decimal_of(timeout_secs as nat) + "s after the last RDP client disconnects"@,
            )
        },
    ]
}

/// The steps of `lock_watcher_steps`.
pub fn install_lock_watcher(system_user: &str, timeout_secs: u64) -> (r: Vec<Step>)
    ensures
        steps_of(r@) == lock_watcher_steps(system_user@, timeout_secs),
{
    let f = user_files(system_user);
    let script = lock_watch_script(timeout_secs);
    let entry = lock_autostart_entry(f.bin_dir.as_str());
    let mut r: Vec<Step> = Vec::new();
    push_step(&mut r, Step::CreateDir {
        path: f.bin_dir.as_str().to_owned(),
        context: concat_str("Failed to create ", f.bin_dir.as_str()),
    });
    push_step(&mut r, Step::CreateDir {
        path: f.autostart_dir.as_str().to_owned(),
        context: concat_str("Failed to create ", f.autostart_dir.as_str()),
    });
    push_step(&mut r, Step::Write {
        path: f.lock_watch.as_str().to_owned(),
        contents: script.as_str().as_bytes_vec(),
        context: concat_str("Failed to write ", f.lock_watch.as_str()),
    });
    push_step(&mut r, Step::SetMode { path: f.lock_watch.as_str().to_owned(), mode: 0o755, context: None });
    push_step(&mut r, Step::Write {
        path: f.lock_desktop.as_str().to_owned(),
        contents: entry.as_str().as_bytes_vec(),
        context: concat_str("Failed to write ", f.lock_desktop.as_str()),
    });
    push_step(&mut r, Step::Run {
        inv: run2("chown", f.owner.as_str(), f.lock_watch.as_str(), RunIn::Quiet),
        check: Check::Ignore,
    });
    push_step(&mut r, Step::Run {
        inv: run2("chown", f.owner.as_str(), f.lock_desktop.as_str(), RunIn::Quiet),
        check: Check::Ignore,
    });
    if timeout_secs == 0 {
        push_step(&mut r, Step::Note(Mark::Info, "Auto-lock on disconnect: off (use 'hydradesk lock' to lock manually)".to_owned()));
    } else {
        let secs = string_of(&u64_text(timeout_secs));
        let a = concat_str("Auto-lock ", secs.as_str());
        push_step(&mut r, Step::Note(Mark::Done, concat_str(a.as_str(), "s after the last RDP client disconnects")));
    }
    assert(steps_of(r@) =~= lock_watcher_steps(system_user@, timeout_secs));
    r
}

/// Everything that must survive a reboot: the virtual-display service
/// (headless devices only), the per-login autostart, and the lock watcher.
/// The session is kept lockable exactly when auto-lock has a timeout.
pub open spec fn persistence_steps(
    has_monitor: bool,
    user: Seq<char>,
    rdp_user: Seq<char>,
    rdp_password: Seq<char>,
    lock_timeout_secs: u64,
) -> Seq<StepView> {
    (if has_monitor {
        seq![
            StepView::Note(
                Mark::Info,
                "Physical monitor detected — GNOME already has a framebuffer, skipping virtual display"@,
            ),
        ]
    } else {
        virtual_display_steps(edid_1080p_spec())
    }) + login_autostart_steps(user, rdp_user, rdp_password, lock_timeout_secs > 0) + lock_watcher_steps(
        user,
        lock_timeout_secs,
    )
}

/// The steps of `persistence_steps`. `system_user` is the Linux account
/// whose desktop is shared (it owns the files); `rdp_user` and
/// `rdp_password` are what the RDP client authenticates with.
pub fn install_persistence(
    has_monitor: bool,
    system_user: &str,
    rdp_user: &str,
    rdp_password: &str,
    lock_timeout_secs: u64,
) -> (r: Vec<Step>)
    ensures
        steps_of(r@) == persistence_steps(has_monitor, system_user@, rdp_user@, rdp_password@, lock_timeout_secs),
{
    let mut r: Vec<Step> = if !has_monitor {
        install_virtual_display()
    } else {
        let mut v: Vec<Step> = Vec::new();
        push_step(&mut v, Step::Note(
            Mark::Info,
            "Physical monitor detected — GNOME already has a framebuffer, skipping virtual display".to_owned(),
        ));
        v
    };
    let ghost head = steps_of(r@);
    let lock_enabled = lock_timeout_secs > 0;
    let mut login = install_login_autostart(system_user, rdp_user, rdp_password, lock_enabled);
    let mut watcher = install_lock_watcher(system_user, lock_timeout_secs);
    let ghost a = steps_of(login@);
    let ghost b = steps_of(watcher@);
    r.append(&mut login);
    assert(steps_of(r@) =~= head + a);
    r.append(&mut watcher);
    assert(steps_of(r@) =~= head + a + b);
    r
}

/// Starting (or restarting) the virtual display now, and giving it time to
/// come up; nothing when a real monitor is present.
pub open spec fn start_display_steps(has_monitor: bool) -> Seq<StepView> {
    if has_monitor {
        Seq::empty()
    } else {
        seq![run_ignored("systemctl"@, seq!["restart"@, DISPLAY_SERVICE@], RunIn::System), StepView::Sleep(5000)]
    }
}

/// The steps of `start_display_steps`.
pub fn start_virtual_display(has_monitor: bool) -> (r: Vec<Step>)
    ensures
        steps_of(r@) == start_display_steps(has_monitor),
{
    let mut r: Vec<Step> = Vec::new();
    if !has_monitor {
        push_step(&mut r, Step::Run { inv: run2("systemctl", "restart", DISPLAY_SERVICE, RunIn::System), check: Check::Ignore });
        push_step(&mut r, Step::Sleep(5000));
    }
    assert(steps_of(r@) =~= start_display_steps(has_monitor));
    r
}


/// What applying the configuration to the running session does, in order:
/// bring up the virtual display, point the keyring at the session's
/// collection, enable RDP with remote control and store the credentials (a
/// failure there ends the work), stop idle locking, enable and restart the
/// service (a failure of the restart ends the work), wait for it, and,
/// unless told not to, allow RDP through the firewall.
pub open spec fn apply_steps(
    session: SessionInfo,
    has_monitor: bool,
    grdctl: Seq<char>,
    rdp_user: Seq<char>,
    rdp_password: Seq<char>,
    no_firewall: bool,
    lock_enabled: bool,
) -> Seq<StepView> {
    seq![StepView::Say("  Starting virtual display..."@)] + start_display_steps(has_monitor) + seq![
        StepView::Say("  Preparing GNOME keyring..."@),
        run_ignored("python3"@, seq![KEYRING_PY_PATH@], RunIn::Session),
        StepView::Say("  Configuring GNOME Remote Desktop..."@),
        run_ignored(grdctl, seq!["rdp"@, "enable"@], RunIn::Session),
        run_ignored(grdctl, seq!["rdp"@, "disable-view-only"@], RunIn::Session),
        StepView::Run(grdctl, seq!["rdp"@, "set-credentials"@, rdp_user, rdp_password], RunIn::Session, Check::Credentials),
    ] + screen_lock_steps(Some(session), lock_enabled) + seq![
        StepView::Say("  Starting gnome-remote-desktop service..."@),
        run_ignored("systemctl"@, seq!["--user"@, "enable"@, "gnome-remote-desktop.service"@], RunIn::Session),
        StepView::Run(
            "systemctl"@,
            seq!["--user"@, "restart"@, "gnome-remote-desktop.service"@],
            RunIn::Session,
            Check::Service,
        ),
        StepView::Sleep(2000),
    ] + if no_firewall {
        Seq::empty()
    } else {
        seq![StepView::OpenFirewall]
    }
}

/// Apply the full RDP configuration to the currently running session, so
/// a client can connect without a reboot: the steps of `apply_steps`, with
/// `grdctl` at `grdctl_path` (or `/usr/bin/grdctl`), and what `setup`
/// reports once they succeed. Without a session there is nothing to
/// configure.
pub fn apply_now(
    session: &Option<SessionInfo>,
    has_monitor: bool,
    grdctl_path: &Option<String>,
    rdp_user: &str,
    rdp_password: &str,
    generated: bool,
    no_firewall: bool,
    lock_enabled: bool,
) -> (r: Result<(Vec<Step>, RdpConfig), String>)
    ensures
        session is None <==> r is Err,
        r matches Err(e) ==> e@ == "No active graphical session to configure"@,
        r matches Ok((steps, config)) ==> {
            &&& steps_of(steps@) == apply_steps(
                session->0,
                has_monitor,
                grdctl_or_default_of(*grdctl_path),
                rdp_user@,
                rdp_password@,
                no_firewall,
                lock_enabled,
            )
            &&& config.username@ == rdp_user@
            &&& (config.generated_password is Some <==> generated)
            &&& (config.generated_password matches Some(p) ==> p@ == rdp_password@)
        },
{
    let s = match session {
        Some(s) => s,
        None => return Err("No active graphical session to configure".to_owned()),
    };
    let grdctl = grdctl_or_default(grdctl_path);
    let g = grdctl.as_str();
    let mut r: Vec<Step> = Vec::new();
    push_step(&mut r, Step::Say("  Starting virtual display...".to_owned()));
    let mut display = start_virtual_display(has_monitor);
    let ghost d = steps_of(display@);
    let ghost before = steps_of(r@);
    r.append(&mut display);
    assert(steps_of(r@) =~= before + d);
    push_step(&mut r, Step::Say("  Preparing GNOME keyring...".to_owned()));
    push_step(&mut r, Step::Run { inv: run1("python3", KEYRING_PY_PATH, RunIn::Session), check: Check::Ignore });
    push_step(&mut r, Step::Say("  Configuring GNOME Remote Desktop...".to_owned()));
    push_step(&mut r, Step::Run { inv: run2(g, "rdp", "enable", RunIn::Session), check: Check::Ignore });
    push_step(&mut r, Step::Run { inv: run2(g, "rdp", "disable-view-only", RunIn::Session), check: Check::Ignore });
    push_step(&mut r, Step::Run {
        inv: run4(g, "rdp", "set-credentials", rdp_user, rdp_password, RunIn::Session),
        check: Check::Credentials,
    });
    let mut quiet = disable_screen_lock(session, lock_enabled);
    let ghost q = steps_of(quiet@);
    let ghost mid = steps_of(r@);
    r.append(&mut quiet);
    assert(steps_of(r@) =~= mid + q);
    push_step(&mut r, Step::Say("  Starting gnome-remote-desktop service...".to_owned()));
    push_step(&mut r, Step::Run {
        inv: run3("systemctl", "--user", "enable", "gnome-remote-desktop.service", RunIn::Session),
        check: Check::Ignore,
    });
    push_step(&mut r, Step::Run {
        inv: run3("systemctl", "--user", "restart", "gnome-remote-desktop.service", RunIn::Session),
        check: Check::Service,
    });
    push_step(&mut r, Step::Sleep(2000));
    if !no_firewall {
        push_step(&mut r, Step::OpenFirewall);
    }
    assert(steps_of(r@) =~= apply_steps(
        *s,
        has_monitor,
        grdctl@,
        rdp_user@,
        rdp_password@,
        no_firewall,
        lock_enabled,
    ));
    Ok((r, RdpConfig::new(rdp_user, rdp_password, generated)))
}

/// What a command's result means for the work that ran it: `None` is a
/// command that could not be started.
pub open spec fn check_outcome(check: Check, o: Option<CmdOutput>) -> Result<(), Seq<char>> {
    match check {
        Check::Ignore => Ok(()),
        Check::Credentials => match o {
            None => Err("Failed to run grdctl rdp set-credentials"@),
            Some(c) => if c.success {
                Ok(())
            } else {
                Err("grdctl set-credentials failed: "@ + trim_of(c.stderr@) + "\nRun with --debug for details."@)
            },
        },
        Check::Service => match o {
            None => Err("Failed to restart gnome-remote-desktop.service"@),
            Some(c) => if c.success {
                Ok(())
            } else {
                Err("Failed to start gnome-remote-desktop service:\n"@ + c.stderr@)
            },
        },
    }
}

/// Judge a command's result by its step's `check`: the error, if any, that
/// ends the work.
pub fn check_result(check: Check, o: &Option<CmdOutput>) -> (r: Result<(), String>)
    ensures
        match (r, check_outcome(check, *o)) {
            (Ok(()), Ok(())) => true,
            (Err(e), Err(m)) => e@ == m,
            _ => false,
        },
{
    match check {
        Check::Ignore => Ok(()),
        Check::Credentials => match o {
            None => Err("Failed to run grdctl rdp set-credentials".to_owned()),
            Some(c) => if c.success {
                Ok(())
            } else {
                let t = string_of(&trim(&chars_of(c.stderr.as_str())));
                let a = concat_str("grdctl set-credentials failed: ", t.as_str());
                Err(concat_str(a.as_str(), "\nRun with --debug for details."))
            },
        },
        Check::Service => match o {
            None => Err("Failed to restart gnome-remote-desktop.service".to_owned()),
            Some(c) => if c.success {
                Ok(())
            } else {
                Err(concat_str("Failed to start gnome-remote-desktop service:\n", c.stderr.as_str()))
            },
        },
    }
}

/// Configuring GDM to log `username` in automatically: its directory
/// (`/etc/gdm3` on Debian/Ubuntu, `/etc/gdm` on Fedora/RHEL) and its
/// `custom.conf`.
pub open spec fn autologin_steps(username: Seq<char>, gdm3_is_dir: bool) -> Seq<StepView> {
    let dir = if gdm3_is_dir { "/etc/gdm3"@ } else { "/etc/gdm"@ };
    let path = if gdm3_is_dir { "/etc/gdm3/custom.conf"@ } else { "/etc/gdm/custom.conf"@ };
    seq![
        StepView::CreateDir(dir, "Failed to create "@ + dir),
        StepView::Write(path, encode_utf8(autologin_config_of(username)), "Failed to write "@ + path + " (requires root)"@),
    ]
}

/// The steps of `autologin_steps`.
pub fn configure_autologin(username: &str, gdm3_is_dir: bool) -> (r: Vec<Step>)
    ensures
        steps_of(r@) == autologin_steps(username@, gdm3_is_dir),
{
    let path = gdm_custom_conf(gdm3_is_dir);
    let dir = if gdm3_is_dir { "/etc/gdm3" } else { "/etc/gdm" };
    let config = autologin_config(username);
    let mut r: Vec<Step> = Vec::new();
    push_step(&mut r, Step::CreateDir { path: dir.to_owned(), context: concat_str("Failed to create ", dir) });
    let w = concat_str("Failed to write ", path);
    push_step(&mut r, Step::Write {
        path: path.to_owned(),
        contents: config.as_str().as_bytes_vec(),
        context: concat_str(w.as_str(), " (requires root)"),
    });
    assert(steps_of(r@) =~= autologin_steps(username@, gdm3_is_dir));
    r
}

} // verus!
