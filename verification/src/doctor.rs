//! The diagnostics of `hydradesk doctor`, `hydradesk test` and
//! `hydradesk status`: what each check finds, given what was detected.
use vstd::prelude::*;
use crate::detect::{
    asks, concat_str, desktop_label, has, run1, CmdOutput, DesktopEnvironment, DesktopKind, DisplayServer,
    Invocation, Next, OsInfo, PackageManager, RunIn, SessionInfo, SystemState,
};
use crate::number::{decimal_of, u64_text};
use crate::rdp::{firewalld_running, is_firewalld_running};
use crate::text::{chars_of, has_sub, lower, lowercase_of, string_of};

verus! {

/// How a finding is marked: `[PASS]`, `[WARN]`, `[FAIL]` or `[INFO]`.
#[derive(Debug, Clone, Copy, PartialEq, Eq, Structural)]
pub enum Level {
    Pass,
    Warn,
    Fail,
    Info,
}

/// One line of a diagnosis, with why it matters and how to fix it. A pass or
/// an information has no reason (it is empty) and no fix.
#[derive(Debug, Clone)]
pub struct Finding {
    pub level: Level,
    pub message: String,
    pub reason: String,
    pub fix: Option<String>,
}

/// A finding as plain values.
pub struct FindingView {
    pub level: Level,
    pub message: Seq<char>,
    pub reason: Seq<char>,
    pub fix: Option<Seq<char>>,
}

/// The text of an optional string.
pub open spec fn opt_text(o: Option<String>) -> Option<Seq<char>> {
    match o {
        Some(s) => Some(s@),
        None => None,
    }
}

impl View for Finding {
    type V = FindingView;

    open spec fn view(&self) -> FindingView {
        FindingView { level: self.level, message: self.message@, reason: self.reason@, fix: opt_text(self.fix) }
    }
}

/// The views of a list of findings.
pub open spec fn findings_of(v: Seq<Finding>) -> Seq<FindingView> {
    Seq::new(v.len(), |i: int| v[i]@)
}

/// A passed check.
pub open spec fn passed(message: Seq<char>) -> FindingView {
    FindingView { level: Level::Pass, message, reason: Seq::empty(), fix: None }
}

/// A piece of information.
pub open spec fn noted(message: Seq<char>) -> FindingView {
    FindingView { level: Level::Info, message, reason: Seq::empty(), fix: None }
}

/// A warning, with its reason and perhaps a fix.
pub open spec fn warned(message: Seq<char>, reason: Seq<char>, fix: Option<Seq<char>>) -> FindingView {
    FindingView { level: Level::Warn, message, reason, fix }
}

/// A failed check, with its reason and perhaps a fix.
pub open spec fn failed(message: Seq<char>, reason: Seq<char>, fix: Option<Seq<char>>) -> FindingView {
    FindingView { level: Level::Fail, message, reason, fix }
}

fn pass(message: String) -> (r: Finding)
    ensures
        r@ == passed(message@),
{
    Finding { level: Level::Pass, message, reason: String::new(), fix: None }
}

fn info(message: String) -> (r: Finding)
    ensures
        r@ == noted(message@),
{
    Finding { level: Level::Info, message, reason: String::new(), fix: None }
}

fn warn(message: &str, reason: &str, fix: Option<&str>) -> (r: Finding)
    ensures
        r@ == warned(message@, reason@, match fix { Some(f) => Some(f@), None => None }),
{
    Finding {
        level: Level::Warn,
        message: message.to_owned(),
        reason: reason.to_owned(),
        fix: match fix {
            Some(f) => Some(f.to_owned()),
            None => None,
        },
    }
}

fn fail(message: &str, reason: &str, fix: Option<&str>) -> (r: Finding)
    ensures
        r@ == failed(message@, reason@, match fix { Some(f) => Some(f@), None => None }),
{
    Finding {
        level: Level::Fail,
        message: message.to_owned(),
        reason: reason.to_owned(),
        fix: match fix {
            Some(f) => Some(f.to_owned()),
            None => None,
        },
    }
}

/// The OS, as detected.
pub fn check_os(os: &OsInfo) -> (r: Finding)
    ensures
        r@ == passed("OS detected: "@ + os.name@ + " "@ + os.version_id@),
{
    let l = os.label();
    assert("OS detected: "@ + l@ =~= "OS detected: "@ + os.name@ + " "@ + os.version_id@);
    pass(concat_str("OS detected: ", l.as_str()))
}

/// What the desktop environment means for GNOME Remote Desktop.
pub open spec fn desktop_finding(d: DesktopKind) -> FindingView {
    match d {
        DesktopKind::Gnome => passed("Desktop: GNOME"@),
        DesktopKind::Kde => failed(
            "Desktop: KDE"@,
            "GNOME Remote Desktop is GNOME-only. KDE does not support grdctl."@,
            Some("Use NoMachine or RustDesk instead for KDE."@),
        ),
        DesktopKind::Xfce => failed(
            "Desktop: XFCE"@,
            "GNOME Remote Desktop requires GNOME."@,
            Some("Use x11vnc or RustDesk instead for XFCE."@),
        ),
        DesktopKind::Lxde => failed(
            "Desktop: LXDE"@,
            "GNOME Remote Desktop requires GNOME."@,
            Some("Use x11vnc or RustDesk instead for LXDE."@),
        ),
        DesktopKind::Unknown(_) => warned(
            "Desktop: "@ + desktop_label(d),
            "Could not determine desktop environment. GNOME RDP may not work."@,
            Some("Set XDG_CURRENT_DESKTOP and log in to a graphical session."@),
        ),
    }
}

/// The finding of `desktop_finding`.
pub fn check_desktop(d: &DesktopEnvironment) -> (r: Finding)
    ensures
        r@ == desktop_finding(d@),
{
    match d {
        DesktopEnvironment::Gnome => pass("Desktop: GNOME".to_owned()),
        DesktopEnvironment::Kde => fail(
            "Desktop: KDE",
            "GNOME Remote Desktop is GNOME-only. KDE does not support grdctl.",
            Some("Use NoMachine or RustDesk instead for KDE."),
        ),
        DesktopEnvironment::Xfce => fail(
            "Desktop: XFCE",
            "GNOME Remote Desktop requires GNOME.",
            Some("Use x11vnc or RustDesk instead for XFCE."),
        ),
        DesktopEnvironment::Lxde => fail(
            "Desktop: LXDE",
            "GNOME Remote Desktop requires GNOME.",
            Some("Use x11vnc or RustDesk instead for LXDE."),
        ),
        DesktopEnvironment::Unknown(_) => {
            let l = d.label();
            let m = concat_str("Desktop: ", l.as_str());
            warn(
                m.as_str(),
                "Could not determine desktop environment. GNOME RDP may not work.",
                Some("Set XDG_CURRENT_DESKTOP and log in to a graphical session."),
            )
        },
    }
}

/// What the display server means for sharing the physical session.
pub open spec fn display_server_finding(d: DisplayServer) -> FindingView {
    match d {
        DisplayServer::Wayland => passed("Display server: Wayland"@),
        DisplayServer::X11 => warned(
            "Display server: X11"@,
            "GNOME Remote Desktop requires Wayland for physical session sharing."@,
            Some("At the login screen, click the gear icon and select 'GNOME on Wayland'."@),
        ),
        DisplayServer::Unknown => warned(
            "Display server: Unknown"@,
            "Cannot determine if Wayland is running."@,
            Some("Log into a Wayland GNOME session before running hydradesk setup."@),
        ),
    }
}

/// The finding of `display_server_finding`.
pub fn check_display_server(d: DisplayServer) -> (r: Finding)
    ensures
        r@ == display_server_finding(d),
{
    match d {
        DisplayServer::Wayland => pass("Display server: Wayland".to_owned()),
        DisplayServer::X11 => warn(
            "Display server: X11",
            "GNOME Remote Desktop requires Wayland for physical session sharing.",
            Some("At the login screen, click the gear icon and select 'GNOME on Wayland'."),
        ),
        DisplayServer::Unknown => warn(
            "Display server: Unknown",
            "Cannot determine if Wayland is running.",
            Some("Log into a Wayland GNOME session before running hydradesk setup."),
        ),
    }
}

/// The graphical session: who, which uid and session, its display and
/// bus; or the failure that there is none.
pub open spec fn session_findings(s: Option<SessionInfo>) -> Seq<FindingView> {
    match s {
        Some(s) => seq![
            passed(
                "Active session: user='"@ + s.username@ + "' uid="@ + decimal_of(s.uid as nat) + " session="@
                    + s.session_id@,
            ),
        ] + (match s.display {
            Some(d) => seq![noted("  DISPLAY="@ + d@)],
            None => Seq::empty(),
        }) + seq![noted("  DBUS="@ + s.dbus_address@)],
        None => seq![
            failed(
                "No active graphical session detected"@,
                "loginctl found no active graphical session. RDP cannot mirror a desktop that isn't running."@,
                Some("Log in to the physical machine's graphical session first, then re-run this tool."@),
            ),
        ],
    }
}

fn push_finding(v: &mut Vec<Finding>, f: Finding)
    ensures
        findings_of(final(v)@) == findings_of(old(v)@).push(f@),
{
    let ghost fv = f@;
    v.push(f);
    assert(findings_of(v@) =~= findings_of(old(v)@).push(fv));
}

/// The findings of `session_findings`.
pub fn check_session(s: &Option<SessionInfo>) -> (r: Vec<Finding>)
    ensures
        findings_of(r@) == session_findings(*s),
{
    let mut r: Vec<Finding> = Vec::new();
    match s {
        Some(s) => {
            let mut v = chars_of("Active session: user='");
            crate::text::extend(&mut v, &chars_of(s.username.as_str()));
            crate::text::extend(&mut v, &chars_of("' uid="));
            crate::text::extend(&mut v, &u64_text(s.uid as u64));
            crate::text::extend(&mut v, &chars_of(" session="));
            crate::text::extend(&mut v, &chars_of(s.session_id.as_str()));
            push_finding(&mut r, pass(string_of(&v)));
            match &s.display {
                Some(d) => push_finding(&mut r, info(concat_str("  DISPLAY=", d.as_str()))),
                None => {},
            }
            push_finding(&mut r, info(concat_str("  DBUS=", s.dbus_address.as_str())));
        },
        None => {
            push_finding(&mut r, fail(
                "No active graphical session detected",
                "loginctl found no active graphical session. RDP cannot mirror a desktop that isn't running.",
                Some("Log in to the physical machine's graphical session first, then re-run this tool."),
            ));
        },
    }
    assert(findings_of(r@) =~= session_findings(*s));
    r
}

/// Whether there is a display output to mirror.
pub open spec fn monitor_finding(has_monitor: bool) -> FindingView {
    if has_monitor {
        passed("Physical monitor detected"@)
    } else {
        warned(
            "No monitor detected"@,
            "No connected display output found. Physical desktop cannot be mirrored without a display."@,
            Some("Connect an HDMI dummy plug, or configure a virtual display. Run: hydradesk fix --headless"@),
        )
    }
}

/// The finding of `monitor_finding`.
pub fn check_monitor(has_monitor: bool) -> (r: Finding)
    ensures
        r@ == monitor_finding(has_monitor),
{
    if has_monitor {
        pass("Physical monitor detected".to_owned())
    } else {
        warn(
            "No monitor detected",
            "No connected display output found. Physical desktop cannot be mirrored without a display.",
            Some("Connect an HDMI dummy plug, or configure a virtual display. Run: hydradesk fix --headless"),
        )
    }
}

/// Whether `grdctl` was found; when it was not, the fix names the package
/// manager's install command.
pub open spec fn grdctl_finding(path: Option<String>, pm: PackageManager) -> FindingView {
    match path {
        Some(p) => passed("grdctl found: "@ + p@),
        None => failed(
            "grdctl not found"@,
            "gnome-remote-desktop is not installed or not in PATH."@,
            Some(
                "Install it: "@ + match pm {
                    PackageManager::Apt => "sudo apt install"@,
                    PackageManager::Dnf => "sudo dnf install"@,
                    PackageManager::Unknown => "your package manager's install command"@,
                } + " gnome-remote-desktop"@,
            ),
        ),
    }
}

/// The finding of `grdctl_finding`. The package manager is needed only when
/// `grdctl` is missing: until it is known (`pm` is `None`), that asks for it.
pub fn check_grdctl(path: &Option<String>, pm: Option<PackageManager>) -> (r: Next<(), Finding>)
    ensures
        path is None && pm is None <==> r is Probe,
        r matches Next::Done(f) ==> f@ == grdctl_finding(*path, match pm {
            Some(m) => m,
            None => PackageManager::Unknown,
        }),
{
    match path {
        Some(p) => Next::Done(pass(concat_str("grdctl found: ", p.as_str()))),
        None => match pm {
            None => Next::Probe(()),
            Some(m) => {
                let a = concat_str("Install it: ", m.install_hint());
                let hint = concat_str(a.as_str(), " gnome-remote-desktop");
                Next::Done(fail(
                    "grdctl not found",
                    "gnome-remote-desktop is not installed or not in PATH.",
                    Some(hint.as_str()),
                ))
            },
        },
    }
}

/// Whether RDP is enabled in GNOME Remote Desktop; nothing is said without
/// `grdctl`. A listening port counts as running when `grdctl` is unclear.
pub open spec fn rdp_enabled_finding(has_grdctl: bool, rdp_enabled: bool, port_open: bool) -> Option<FindingView> {
    if !has_grdctl {
        None
    } else if rdp_enabled {
        Some(passed("GNOME RDP: enabled"@))
    } else if port_open {
        Some(passed("GNOME RDP: appears running (grdctl status unclear)"@))
    } else {
        Some(
            failed(
                "GNOME RDP: not enabled"@,
                "RDP is not currently enabled in GNOME Remote Desktop."@,
                Some("Run: hydradesk setup"@),
            ),
        )
    }
}

/// The finding of `rdp_enabled_finding`.
pub fn check_rdp_enabled(state: &SystemState) -> (r: Option<Finding>)
    ensures
        match r {
            Some(f) => rdp_enabled_finding(state.grdctl_path is Some, state.rdp_enabled, state.rdp_port_open)
                == Some(f@),
            None => rdp_enabled_finding(state.grdctl_path is Some, state.rdp_enabled, state.rdp_port_open) is None,
        },
{
    if state.grdctl_path.is_none() {
        None
    } else if state.rdp_enabled {
        Some(pass("GNOME RDP: enabled".to_owned()))
    } else if state.rdp_port_open {
        Some(pass("GNOME RDP: appears running (grdctl status unclear)".to_owned()))
    } else {
        Some(fail(
            "GNOME RDP: not enabled",
            "RDP is not currently enabled in GNOME Remote Desktop.",
            Some("Run: hydradesk setup"),
        ))
    }
}

/// Whether port 3389 is listening, and what it means when it is not.
pub open spec fn port_finding(port_open: bool, rdp_enabled: bool) -> FindingView {
    if port_open {
        passed("Port 3389 is listening"@)
    } else if rdp_enabled {
        failed(
            "Port 3389 not listening"@,
            "RDP is enabled but nothing is listening on 3389. The service may have failed to start."@,
            Some("Check logs: journalctl --user -u gnome-remote-desktop.service -n 30"@),
        )
    } else {
        noted("Port 3389: not listening (RDP not yet enabled)"@)
    }
}

/// The finding of `port_finding`.
pub fn check_port(port_open: bool, rdp_enabled: bool) -> (r: Finding)
    ensures
        r@ == port_finding(port_open, rdp_enabled),
{
    if port_open {
        pass("Port 3389 is listening".to_owned())
    } else if rdp_enabled {
        fail(
            "Port 3389 not listening",
            "RDP is enabled but nothing is listening on 3389. The service may have failed to start.",
            Some("Check logs: journalctl --user -u gnome-remote-desktop.service -n 30"),
        )
    } else {
        info("Port 3389: not listening (RDP not yet enabled)".to_owned())
    }
}

/// What the firewall does to RDP, by the answer of `firewall-cmd --state`
/// and then of `firewall-cmd --list-all` (when firewalld runs) or of `ufw
/// status`; `None` is a command that could not be run.
pub open spec fn firewall_finding(state: Option<CmdOutput>, second: Option<CmdOutput>) -> FindingView {
    if firewalld_running(state) {
        match second {
            Some(o) if has_sub(o.stdout@, "3389"@) => passed("Firewall: port 3389 is allowed"@),
            _ => warned(
                "Firewall: firewalld active but port 3389 not listed"@,
                "firewalld may be blocking RDP connections."@,
                Some("Run: sudo firewall-cmd --permanent --add-port=3389/tcp && sudo firewall-cmd --reload"@),
            ),
        }
    } else {
        match second {
            Some(o) => if has_sub(o.stdout@, "Status: inactive"@) || has_sub(o.stdout@, "Status: disabled"@) {
                noted("Firewall (ufw): inactive — port 3389 is open by default"@)
            } else if has_sub(o.stdout@, "3389"@) {
                passed("Firewall: port 3389 is allowed"@)
            } else if has_sub(o.stdout@, "Status: active"@) {
                warned(
                    "Firewall: ufw active but port 3389 not listed"@,
                    "ufw may be blocking RDP connections."@,
                    Some("Run: sudo ufw allow 3389/tcp"@),
                )
            } else {
                noted("Firewall: status unknown"@)
            },
            None => noted("Firewall: no active ufw/firewalld (no firewall rules to check)"@),
        }
    }
}

/// Check the firewall for RDP: firewalld first (Fedora/RHEL), since ufw is
/// then usually absent or inactive. `outputs` holds the answers of the
/// commands asked so far, in order.
pub fn check_firewall(outputs: &Vec<Option<CmdOutput>>) -> (r: Next<Invocation, Finding>)
    ensures
        outputs@.len() == 0 ==> asks(r, "firewall-cmd"@, seq!["--state"@], RunIn::System),
        outputs@.len() == 1 && firewalld_running(outputs@[0]) ==> asks(
            r,
            "firewall-cmd"@,
            seq!["--list-all"@],
            RunIn::System,
        ),
        outputs@.len() == 1 && !firewalld_running(outputs@[0]) ==> asks(r, "ufw"@, seq!["status"@], RunIn::System),
        outputs@.len() >= 2 ==> (r matches Next::Done(f) && f@ == firewall_finding(outputs@[0], outputs@[1])),
{
    if outputs.len() == 0 {
        return Next::Probe(run1("firewall-cmd", "--state", RunIn::System));
    }
    let running = is_firewalld_running(&outputs[0]);
    if outputs.len() == 1 {
        if running {
            return Next::Probe(run1("firewall-cmd", "--list-all", RunIn::System));
        }
        return Next::Probe(run1("ufw", "status", RunIn::System));
    }
    let f = match &outputs[1] {
        Some(o) => {
            let out = chars_of(o.stdout.as_str());
            if running {
                if has(&out, "3389") {
                    pass("Firewall: port 3389 is allowed".to_owned())
                } else {
                    warn(
                        "Firewall: firewalld active but port 3389 not listed",
                        "firewalld may be blocking RDP connections.",
                        Some("Run: sudo firewall-cmd --permanent --add-port=3389/tcp && sudo firewall-cmd --reload"),
                    )
                }
            } else if has(&out, "Status: inactive") || has(&out, "Status: disabled") {
                info("Firewall (ufw): inactive — port 3389 is open by default".to_owned())
            } else if has(&out, "3389") {
                pass("Firewall: port 3389 is allowed".to_owned())
            } else if has(&out, "Status: active") {
                warn(
                    "Firewall: ufw active but port 3389 not listed",
                    "ufw may be blocking RDP connections.",
                    Some("Run: sudo ufw allow 3389/tcp"),
                )
            } else {
                info("Firewall: status unknown".to_owned())
            }
        },
        None => if running {
            warn(
                "Firewall: firewalld active but port 3389 not listed",
                "firewalld may be blocking RDP connections.",
                Some("Run: sudo firewall-cmd --permanent --add-port=3389/tcp && sudo firewall-cmd --reload"),
            )
        } else {
            info("Firewall: no active ufw/firewalld (no firewall rules to check)".to_owned())
        },
    };
    Next::Done(f)
}

/// What stands between the system and GNOME RDP: the desktop must be
/// GNOME, the session Wayland, a graphical session must be running and
/// `grdctl` installed.
#[derive(Debug, Clone, Copy)]
pub struct Readiness {
    pub needs_gnome: bool,
    pub needs_wayland: bool,
    pub needs_session: bool,
    pub needs_grdctl: bool,
}

impl Readiness {
    /// Ready exactly when nothing is missing.
    pub open spec fn spec_ready(self) -> bool {
        !self.needs_gnome && !self.needs_wayland && !self.needs_session && !self.needs_grdctl
    }

    /// Is the system ready for `hydradesk setup`?
    pub fn ready(&self) -> (r: bool)
        ensures
            r == self.spec_ready(),
    {
        !self.needs_gnome && !self.needs_wayland && !self.needs_session && !self.needs_grdctl
    }
}

/// The summary of `hydradesk doctor`: what is missing for GNOME RDP.
pub fn summarize(state: &SystemState) -> (r: Readiness)
    ensures
        r.needs_gnome == (state.desktop@ != DesktopKind::Gnome),
        r.needs_wayland == (state.display_server != DisplayServer::Wayland),
        r.needs_session == (state.session is None),
        r.needs_grdctl == (state.grdctl_path is None),
        r.spec_ready() <==> (state.desktop@ == DesktopKind::Gnome && state.display_server == DisplayServer::Wayland
            && state.session is Some && state.grdctl_path is Some),
{
    Readiness {
        needs_gnome: !state.desktop.is_gnome(),
        needs_wayland: state.display_server != DisplayServer::Wayland,
        needs_session: state.session.is_none(),
        needs_grdctl: state.grdctl_path.is_none(),
    }
}

/// How many of the findings are failures.
pub open spec fn fail_count(v: Seq<FindingView>) -> nat
    decreases v.len(),
{
    if v.len() == 0 {
        0
    } else {
        fail_count(v.drop_last()) + if v.last().level == Level::Fail { 1nat } else { 0nat }
    }
}

/// The failures of two lists of findings together are those of each.
pub proof fn lemma_fail_count_concat(a: Seq<FindingView>, b: Seq<FindingView>)
    ensures
        fail_count(a + b) == fail_count(a) + fail_count(b),
    decreases b.len(),
{
    if b.len() > 0 {
        assert((a + b).drop_last() =~= a + b.drop_last());
        lemma_fail_count_concat(a, b.drop_last());
    } else {
        assert(a + b =~= a);
    }
}

/// The number of failures among a few findings.
fn count_blockers(v: &Vec<Finding>) -> (r: u64)
    requires
        v@.len() <= 3,
    ensures
        r == fail_count(findings_of(v@)),
        r <= 3,
{
    let mut n: u64 = 0;
    let mut i: usize = 0;
    while i < v.len()
        invariant
            v@.len() <= 3,
            i <= v@.len(),
            n == fail_count(findings_of(v@).take(i as int)),
            n <= i,
        decreases v@.len() - i,
    {
        assert(findings_of(v@).take(i + 1).drop_last() =~= findings_of(v@).take(i as int));
        if v[i].level == Level::Fail {
            n = n + 1;
        }
        i = i + 1;
    }
    assert(findings_of(v@).take(v@.len() as int) =~= findings_of(v@));
    n
}

/// The self-check of everything a client needs to connect and see a
/// desktop, section by section, and how many blockers it found.
#[derive(Debug, Clone)]
pub struct TestReport {
    pub session: Vec<Finding>,
    pub framebuffer: Vec<Finding>,
    pub remote_desktop: Vec<Finding>,
    pub service: Vec<Finding>,
    /// The number of failed checks.
    pub blockers: u64,
}

/// The session section: GNOME, and a running graphical session.
pub open spec fn test_session_findings(desktop: DesktopKind, session: Option<SessionInfo>) -> Seq<FindingView> {
    seq![
        if desktop == DesktopKind::Gnome {
            passed("GNOME desktop"@)
        } else {
            failed("Not GNOME"@, "GNOME Remote Desktop only works on GNOME."@, None)
        },
        match session {
            Some(s) => passed("Active graphical session: "@ + s.username@ + " (uid "@ + decimal_of(s.uid as nat) + ")"@),
            None => failed(
                "No active graphical session"@,
                "RDP cannot mirror a desktop that isn't running."@,
                Some("Enable auto-login and reboot (sudo hydradesk setup), or log in at the console."@),
            ),
        },
    ]
}

/// The black-screen check: does Mutter have a monitor to capture? When
/// Mutter could not be asked, a display connector counts only as a warning.
pub open spec fn framebuffer_findings(mutter: Option<bool>, has_monitor: bool) -> Seq<FindingView> {
    seq![
        match mutter {
            Some(true) => passed("GNOME is rendering to a monitor Mutter can capture"@),
            Some(false) => failed(
                "Mutter has no monitor — RDP would show a black screen"@,
                "Headless GNOME with no framebuffer to capture."@,
                Some("sudo systemctl restart hydradesk-display.service"@),
            ),
            None => if has_monitor {
                warned("Could not query Mutter, but a display connector is present"@, ""@, None)
            } else {
                failed(
                    "No display detected (Mutter unreachable and no DRM monitor)"@,
                    "RDP would show a black screen."@,
                    Some("sudo systemctl restart hydradesk-display.service"@),
                )
            },
        },
    ]
}

/// GNOME Remote Desktop, by `grdctl status` (`status`, empty when it could
/// not be run): RDP enabled, credentials stored, and remote control allowed.
pub open spec fn remote_desktop_findings(rdp_enabled: bool, status: Seq<char>) -> Seq<FindingView> {
    seq![
        if rdp_enabled || has_sub(lowercase_of(status), "status: enabled"@) {
            passed("RDP is enabled"@)
        } else {
            failed("RDP is not enabled"@, ""@, Some("sudo hydradesk setup"@))
        },
        if has_sub(status, "(hidden)"@) {
            passed("Credentials are set"@)
        } else {
            failed("No RDP credentials stored"@, "grdctl has no username/password."@, Some("sudo hydradesk setup"@))
        },
    ] + if has_sub(status, "View-only: no"@) {
        seq![passed("Remote control allowed (not view-only)"@)]
    } else if has_sub(status, "View-only: yes"@) {
        seq![
            warned(
                "View-only is ON — you could see the desktop but not control it"@,
                ""@,
                Some("grdctl rdp disable-view-only && systemctl --user restart gnome-remote-desktop.service"@),
            ),
        ]
    } else {
        Seq::empty()
    }
}

/// The service and the port.
pub open spec fn service_findings(service_active: bool, port_open: bool) -> Seq<FindingView> {
    seq![
        if service_active {
            passed("gnome-remote-desktop service is active"@)
        } else {
            failed("Service is not active"@, ""@, Some("systemctl --user restart gnome-remote-desktop.service"@))
        },
        if port_open {
            passed("Port 3389 is listening"@)
        } else {
            failed("Port 3389 is not listening"@, ""@, Some("hydradesk fix"@))
        },
    ]
}

/// What `grdctl status` printed, or nothing when it could not be run.
pub open spec fn status_text(o: Option<CmdOutput>) -> Seq<char> {
    match o {
        Some(c) => c.stdout@,
        None => Seq::empty(),
    }
}

/// The session section of `hydradesk test`.
pub fn test_session(state: &SystemState) -> (r: Vec<Finding>)
    ensures
        findings_of(r@) == test_session_findings(state.desktop@, state.session),
{
    let mut session: Vec<Finding> = Vec::new();
    if state.desktop.is_gnome() {
        push_finding(&mut session, pass("GNOME desktop".to_owned()));
    } else {
        push_finding(&mut session, fail("Not GNOME", "GNOME Remote Desktop only works on GNOME.", None));
    }
    match &state.session {
        Some(s) => {
            let mut v = chars_of("Active graphical session: ");
            crate::text::extend(&mut v, &chars_of(s.username.as_str()));
            crate::text::extend(&mut v, &chars_of(" (uid "));
            crate::text::extend(&mut v, &u64_text(s.uid as u64));
            crate::text::extend(&mut v, &chars_of(")"));
            push_finding(&mut session, pass(string_of(&v)));
        },
        None => push_finding(&mut session, fail(
            "No active graphical session",
            "RDP cannot mirror a desktop that isn't running.",
            Some("Enable auto-login and reboot (sudo hydradesk setup), or log in at the console."),
        )),
    }
    assert(findings_of(session@) =~= test_session_findings(state.desktop@, state.session));
    session
}

/// The framebuffer section of `hydradesk test`, given whether Mutter has a
/// monitor (`mutter_has_monitor`).
pub fn test_framebuffer(mutter: Option<bool>, has_monitor: bool) -> (r: Vec<Finding>)
    ensures
        findings_of(r@) == framebuffer_findings(mutter, has_monitor),
{
    let mut framebuffer: Vec<Finding> = Vec::new();
    let fb = match mutter {
        Some(true) => pass("GNOME is rendering to a monitor Mutter can capture".to_owned()),
        Some(false) => fail(
            "Mutter has no monitor — RDP would show a black screen",
            "Headless GNOME with no framebuffer to capture.",
            Some("sudo systemctl restart hydradesk-display.service"),
        ),
        None => if has_monitor {
            warn("Could not query Mutter, but a display connector is present", "", None)
        } else {
            fail(
                "No display detected (Mutter unreachable and no DRM monitor)",
                "RDP would show a black screen.",
                Some("sudo systemctl restart hydradesk-display.service"),
            )
        },
    };
    push_finding(&mut framebuffer, fb);
    assert(findings_of(framebuffer@) =~= framebuffer_findings(mutter, has_monitor));
    framebuffer
}

/// The GNOME Remote Desktop section of `hydradesk test`, given the answer
/// of `grdctl status`.
pub fn test_remote_desktop(rdp_enabled: bool, grdctl_status: &Option<CmdOutput>) -> (r: Vec<Finding>)
    ensures
        findings_of(r@) == remote_desktop_findings(rdp_enabled, status_text(*grdctl_status)),
{
    let st = match grdctl_status {
        Some(o) => chars_of(o.stdout.as_str()),
        None => Vec::new(),
    };
    assert(st@ =~= status_text(*grdctl_status));
    let mut remote: Vec<Finding> = Vec::new();
    if rdp_enabled || has(&lower(&st), "status: enabled") {
        push_finding(&mut remote, pass("RDP is enabled".to_owned()));
    } else {
        push_finding(&mut remote, fail("RDP is not enabled", "", Some("sudo hydradesk setup")));
    }
    if has(&st, "(hidden)") {
        push_finding(&mut remote, pass("Credentials are set".to_owned()));
    } else {
        push_finding(&mut remote, fail(
            "No RDP credentials stored",
            "grdctl has no username/password.",
            Some("sudo hydradesk setup"),
        ));
    }
    if has(&st, "View-only: no") {
        push_finding(&mut remote, pass("Remote control allowed (not view-only)".to_owned()));
    } else if has(&st, "View-only: yes") {
        push_finding(&mut remote, warn(
            "View-only is ON — you could see the desktop but not control it",
            "",
            Some("grdctl rdp disable-view-only && systemctl --user restart gnome-remote-desktop.service"),
        ));
    }
    assert(findings_of(remote@) =~= remote_desktop_findings(rdp_enabled, st@));
    remote
}

/// The service and network section of `hydradesk test`.
pub fn test_service(service_active: bool, port_open: bool) -> (r: Vec<Finding>)
    ensures
        findings_of(r@) == service_findings(service_active, port_open),
{
    let mut service: Vec<Finding> = Vec::new();
    if service_active {
        push_finding(&mut service, pass("gnome-remote-desktop service is active".to_owned()));
    } else {
        push_finding(&mut service, fail(
            "Service is not active",
            "",
            Some("systemctl --user restart gnome-remote-desktop.service"),
        ));
    }
    if port_open {
        push_finding(&mut service, pass("Port 3389 is listening".to_owned()));
    } else {
        push_finding(&mut service, fail("Port 3389 is not listening", "", Some("hydradesk fix")));
    }
    assert(findings_of(service@) =~= service_findings(service_active, port_open));
    service
}

/// Self-check the full connect path (`hydradesk test`), given what was
/// detected, whether Mutter has a monitor (`mutter_has_monitor`), the
/// answer of `grdctl status`, and whether the service is active: the four
/// sections, and how many blockers they hold. Every failed check is a
/// blocker, and nothing else is.
pub fn connect_test(
    state: &SystemState,
    mutter: Option<bool>,
    grdctl_status: &Option<CmdOutput>,
    service_active: bool,
) -> (r: TestReport)
    ensures
        findings_of(r.session@) == test_session_findings(state.desktop@, state.session),
        findings_of(r.framebuffer@) == framebuffer_findings(mutter, state.has_monitor),
        findings_of(r.remote_desktop@) == remote_desktop_findings(state.rdp_enabled, status_text(*grdctl_status)),
        findings_of(r.service@) == service_findings(service_active, state.rdp_port_open),
        r.blockers == fail_count(
            findings_of(r.session@) + findings_of(r.framebuffer@) + findings_of(r.remote_desktop@) + findings_of(
                r.service@,
            ),
        ),
{
    let session = test_session(state);
    let framebuffer = test_framebuffer(mutter, state.has_monitor);
    let remote = test_remote_desktop(state.rdp_enabled, grdctl_status);
    let service = test_service(service_active, state.rdp_port_open);
    assert(findings_of(session@).len() == session@.len());
    assert(findings_of(framebuffer@).len() == framebuffer@.len());
    assert(findings_of(remote@).len() == remote@.len());
    assert(findings_of(service@).len() == service@.len());
    let blockers = count_blockers(&session) + count_blockers(&framebuffer) + count_blockers(&remote)
        + count_blockers(&service);
    proof {
        let (a, b, c, d) = (findings_of(session@), findings_of(framebuffer@), findings_of(remote@), findings_of(service@));
        lemma_fail_count_concat(a, b);
        lemma_fail_count_concat(a + b, c);
        lemma_fail_count_concat(a + b + c, d);
    }
    TestReport { session, framebuffer, remote_desktop: remote, service, blockers }
}

/// What `hydradesk status` shows of RDP.
#[derive(Debug, Clone, Copy, PartialEq, Eq, Structural)]
pub enum RdpStatus {
    /// `grdctl` reports RDP enabled.
    Enabled,
    /// `grdctl` is unclear, but the service is active and the port listening.
    Running,
    NotEnabled,
}

/// RDP works when `grdctl` reports it enabled, or when the service is
/// active and the port listening.
pub open spec fn rdp_operational(rdp_enabled: bool, service_active: bool, port_open: bool) -> bool {
    rdp_enabled || (service_active && port_open)
}

/// The RDP line of `hydradesk status`, and whether a client can connect
/// now: RDP operational and the port listening.
pub fn rdp_status(rdp_enabled: bool, service_active: bool, port_open: bool) -> (r: (RdpStatus, bool))
    ensures
        r.0 == (if rdp_enabled {
            RdpStatus::Enabled
        } else if rdp_operational(rdp_enabled, service_active, port_open) {
            RdpStatus::Running
        } else {
            RdpStatus::NotEnabled
        }),
        r.1 == (rdp_operational(rdp_enabled, service_active, port_open) && port_open),
{
    let operational = rdp_enabled || (service_active && port_open);
    let s = if rdp_enabled {
        RdpStatus::Enabled
    } else if operational {
        RdpStatus::Running
    } else {
        RdpStatus::NotEnabled
    };
    (s, operational && port_open)
}

} // verus!
