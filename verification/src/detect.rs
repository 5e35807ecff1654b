//! What HydraDesk learns about the machine: the desktop, the display server,
//! the graphical session, GNOME Remote Desktop's state, and the commands that
//! ask the system for them.
use vstd::prelude::*;
use crate::text::{
    begins_with, chars_of, contains, starts_with, extend, has_sub, join, join_of, lines, lines_of, lowercase_of,
    matches_at, replace_char, replace_char_of, seqs_of, split_once, split_once_of, unquote, unquote_of, strip_prefix, strip_prefix_of, string_of,
    to_lowercase, trim, trim_of, words, words_of, lossy_text, split_nul, split_at_nul, utf8_lossy,
    strip_repeated, strip_repeated_of, byte_seqs_of, lower, copy_chars, is_space, occurs_at,
};
use crate::number::{all_digits, decimal_of, parse_u32, parse_unsigned_of, u64_text};

verus! {

/// The desktop environment of the graphical session.
#[derive(Debug, Clone, PartialEq)]
pub enum DesktopEnvironment {
    Gnome,
    Kde,
    Xfce,
    Lxde,
    Unknown(String),
}

/// The desktop environment as a mathematical value.
pub enum DesktopKind {
    Gnome,
    Kde,
    Xfce,
    Lxde,
    Unknown(Seq<char>),
}

impl View for DesktopEnvironment {
    type V = DesktopKind;

    open spec fn view(&self) -> DesktopKind {
        match self {
            DesktopEnvironment::Gnome => DesktopKind::Gnome,
            DesktopEnvironment::Kde => DesktopKind::Kde,
            DesktopEnvironment::Xfce => DesktopKind::Xfce,
            DesktopEnvironment::Lxde => DesktopKind::Lxde,
            DesktopEnvironment::Unknown(s) => DesktopKind::Unknown(s@),
        }
    }
}

/// How a desktop environment is shown to the user.
pub open spec fn desktop_label(d: DesktopKind) -> Seq<char> {
    match d {
        DesktopKind::Gnome => "GNOME"@,
        DesktopKind::Kde => "KDE"@,
        DesktopKind::Xfce => "XFCE"@,
        DesktopKind::Lxde => "LXDE"@,
        DesktopKind::Unknown(s) => "Unknown ("@ + s + ")"@,
    }
}

impl DesktopEnvironment {
    /// The name shown to the user, e.g. `GNOME` or `Unknown (sway)`.
    pub fn label(&self) -> (r: String)
        ensures
            r@ == desktop_label(self@),
    {
        match self {
            DesktopEnvironment::Gnome => "GNOME".to_owned(),
            DesktopEnvironment::Kde => "KDE".to_owned(),
            DesktopEnvironment::Xfce => "XFCE".to_owned(),
            DesktopEnvironment::Lxde => "LXDE".to_owned(),
            DesktopEnvironment::Unknown(s) => {
                let mut v = chars_of("Unknown (");
                extend(&mut v, &chars_of(s.as_str()));
                extend(&mut v, &chars_of(")"));
                string_of(&v)
            },
        }
    }

    /// Is this GNOME?
    pub fn is_gnome(&self) -> (r: bool)
        ensures
            r == (self@ == DesktopKind::Gnome),
    {
        match self {
            DesktopEnvironment::Gnome => true,
            _ => false,
        }
    }
}

/// The display server of the graphical session.
#[derive(Debug, Clone, Copy, PartialEq, Eq, Structural)]
pub enum DisplayServer {
    Wayland,
    X11,
    Unknown,
}

/// How a display server is shown to the user.
pub open spec fn display_server_label(d: DisplayServer) -> Seq<char> {
    match d {
        DisplayServer::Wayland => "Wayland"@,
        DisplayServer::X11 => "X11"@,
        DisplayServer::Unknown => "Unknown"@,
    }
}

impl DisplayServer {
    /// The name shown to the user.
    pub fn label(&self) -> (r: String)
        ensures
            r@ == display_server_label(*self),
    {
        match self {
            DisplayServer::Wayland => "Wayland".to_owned(),
            DisplayServer::X11 => "X11".to_owned(),
            DisplayServer::Unknown => "Unknown".to_owned(),
        }
    }
}

/// The distribution's name and version, from `/etc/os-release`.
#[derive(Debug, Clone)]
pub struct OsInfo {
    pub name: String,
    pub version_id: String,
}

impl OsInfo {
    /// `NAME VERSION_ID`, as shown to the user.
    pub fn label(&self) -> (r: String)
        ensures
            r@ == self.name@ + " "@ + self.version_id@,
    {
        let mut v = chars_of(self.name.as_str());
        extend(&mut v, &chars_of(" "));
        extend(&mut v, &chars_of(self.version_id.as_str()));
        string_of(&v)
    }
}

/// Context needed to run commands in the correct user session.
#[derive(Debug, Clone)]
pub struct SessionInfo {
    pub session_id: String,
    pub username: String,
    pub uid: u32,
    pub display_server: DisplayServer,
    pub display: Option<String>,
    pub xauthority: Option<String>,
    /// unix:path=/run/user/<uid>/bus
    pub dbus_address: String,
    pub xdg_runtime_dir: String,
}

/// Full system snapshot collected before any action is taken.
#[derive(Debug, Clone)]
pub struct SystemState {
    pub os: OsInfo,
    pub desktop: DesktopEnvironment,
    pub display_server: DisplayServer,
    /// The active graphical session found via loginctl, if any.
    pub session: Option<SessionInfo>,
    pub has_monitor: bool,
    pub grdctl_path: Option<String>,
    pub rdp_enabled: bool,
    pub rdp_port_open: bool,
    pub local_ip: Option<String>,
}

/// What a finished command printed, and whether it exited successfully.
#[derive(Debug, Clone)]
pub struct CmdOutput {
    pub stdout: String,
    pub stderr: String,
    pub success: bool,
}

/// The desktop that a desktop name such as `XDG_CURRENT_DESKTOP` names,
/// judged on its lowercase form `l`; `s` is the name as given.
pub open spec fn desktop_from_name(s: Seq<char>, l: Seq<char>) -> DesktopKind {
    if has_sub(l, "gnome"@) {
        DesktopKind::Gnome
    } else if has_sub(l, "kde"@) || has_sub(l, "plasma"@) {
        DesktopKind::Kde
    } else if has_sub(l, "xfce"@) {
        DesktopKind::Xfce
    } else if has_sub(l, "lxde"@) || has_sub(l, "lxqt"@) {
        DesktopKind::Lxde
    } else {
        DesktopKind::Unknown(s)
    }
}

/// Does the text `v` contain the literal `p`?
pub fn has(v: &Vec<char>, p: &str) -> (r: bool)
    ensures
        r == has_sub(v@, p@),
{
    contains(v, &chars_of(p))
}

/// The desktop that a name such as `ubuntu:GNOME` or `KDE` stands for.
pub fn parse_desktop_string(s: &str) -> (r: DesktopEnvironment)
    ensures
        r@ == desktop_from_name(s@, lowercase_of(s@)),
{
    let lower = chars_of(to_lowercase(s).as_str());
    if has(&lower, "gnome") {
        DesktopEnvironment::Gnome
    } else if has(&lower, "kde") || has(&lower, "plasma") {
        DesktopEnvironment::Kde
    } else if has(&lower, "xfce") {
        DesktopEnvironment::Xfce
    } else if has(&lower, "lxde") || has(&lower, "lxqt") {
        DesktopEnvironment::Lxde
    } else {
        DesktopEnvironment::Unknown(s.to_owned())
    }
}

/// The display server that a session type names, judged on its lowercase form.
pub open spec fn display_server_from_name(l: Seq<char>) -> DisplayServer {
    if l == "wayland"@ {
        DisplayServer::Wayland
    } else if l == "x11"@ || l == "mir"@ {
        DisplayServer::X11
    } else {
        DisplayServer::Unknown
    }
}

/// Are the characters of `v` exactly those of `p`?
pub fn is(v: &Vec<char>, p: &str) -> (r: bool)
    ensures
        r == (v@ == p@),
{
    let q = chars_of(p);
    if v.len() != q.len() {
        return false;
    }
    let r = matches_at(v, &q, 0);
    proof {
        if r {
            assert(v@.subrange(0, q@.len() as int) =~= v@);
        }
        if v@ == p@ {
            assert(v@.subrange(0, q@.len() as int) =~= v@);
        }
    }
    r
}

/// The display server that a session type such as `wayland` or `x11` names.
pub fn parse_display_server(s: &str) -> (r: DisplayServer)
    ensures
        r == display_server_from_name(lowercase_of(s@)),
{
    let lower = chars_of(to_lowercase(s).as_str());
    if is(&lower, "wayland") {
        DisplayServer::Wayland
    } else if is(&lower, "x11") || is(&lower, "mir") {
        DisplayServer::X11
    } else {
        DisplayServer::Unknown
    }
}


/// The trimmed rest of the first line of `ls` that begins with `prefix`.
pub open spec fn first_field(ls: Seq<Seq<char>>, prefix: Seq<char>) -> Option<Seq<char>>
    decreases ls.len(),
{
    if ls.len() == 0 {
        None
    } else {
        match strip_prefix_of(ls[0], prefix) {
            Some(rest) => Some(trim_of(rest)),
            None => first_field(ls.drop_first(), prefix),
        }
    }
}

/// The value of `key` in `KEY=value` lines: the trimmed rest of the first
/// line of `text` that begins with `key` followed by `=`.
pub open spec fn field_of(text: Seq<char>, key: Seq<char>) -> Option<Seq<char>> {
    first_field(lines_of(text), key + "="@)
}

/// Extract "KEY=value" → "value" from loginctl show-session output.
pub fn extract_field(text: &str, key: &str) -> (r: Option<String>)
    ensures
        match r {
            Some(v) => field_of(text@, key@) == Some(v@),
            None => field_of(text@, key@) is None,
        },
{
    let mut prefix = chars_of(key);
    prefix.push('=');
    proof {
        reveal_strlit("=");
        assert(prefix@ =~= key@ + "="@);
    }
    let ls = lines(&chars_of(text));
    let ghost all = seqs_of(ls@);
    assert(all.skip(0) =~= all);
    let mut i: usize = 0;
    while i < ls.len()
        invariant
            i <= ls.len(),
            all == seqs_of(ls@),
            prefix@ == key@ + "="@,
            field_of(text@, key@) == first_field(all.skip(i as int), prefix@),
        decreases ls.len() - i,
    {
        assert(all.skip(i as int)[0] == ls@[i as int]@);
        assert(all.skip(i as int).drop_first() =~= all.skip(i + 1));
        match strip_prefix(&ls[i], &prefix) {
            Some(rest) => {
                let v = trim(&rest);
                return Some(string_of(&v));
            },
            None => {},
        }
        i = i + 1;
    }
    None
}

/// A line of `grdctl` output with `:`, `=` and tabs made spaces and runs of
/// whitespace collapsed to one space.
pub open spec fn normalized_of(line: Seq<char>) -> Seq<char> {
    join_of(
        words_of(replace_char_of(replace_char_of(replace_char_of(line, ':', ' '), '=', ' '), '\t', ' ')),
        " "@,
    )
}

/// A normalized `grdctl` line that says RDP is off.
pub open spec fn says_disabled(n: Seq<char>) -> bool {
    has_sub(n, "not enabled"@) || has_sub(n, "status disabled"@) || has_sub(n, "status is disabled"@)
        || has_sub(n, "enabled no"@) || has_sub(n, "rdp disabled"@) || has_sub(n, "rdp is disabled"@)
        || n == "disabled"@
}

/// A normalized `grdctl` line that says RDP is on.
pub open spec fn says_enabled(n: Seq<char>) -> bool {
    has_sub(n, "status enabled"@) || has_sub(n, "status is enabled"@) || has_sub(n, "enabled yes"@)
        || has_sub(n, "rdp enabled"@) || has_sub(n, "rdp is enabled"@) || n == "enabled"@
}

/// What one line of `grdctl` output says about RDP: off, on, or nothing.
pub open spec fn grdctl_line_verdict(raw: Seq<char>) -> Option<bool> {
    let line = lowercase_of(trim_of(raw));
    if line.len() == 0 {
        None
    } else if says_disabled(normalized_of(line)) {
        Some(false)
    } else if says_enabled(normalized_of(line)) {
        Some(true)
    } else {
        None
    }
}

/// The verdict of the first line of `ls` that says anything about RDP.
pub open spec fn first_verdict(ls: Seq<Seq<char>>) -> Option<bool>
    decreases ls.len(),
{
    if ls.len() == 0 {
        None
    } else {
        match grdctl_line_verdict(ls[0]) {
            Some(b) => Some(b),
            None => first_verdict(ls.drop_first()),
        }
    }
}

/// What `grdctl`'s output on stdout and stderr says about RDP: the first line,
/// stdout's before stderr's, that says RDP is off or on decides.
pub open spec fn grdctl_verdict(stdout: Seq<char>, stderr: Seq<char>) -> Option<bool> {
    first_verdict(lines_of(stdout + "\n"@ + stderr))
}

/// `status: <w>` normalizes to `status <w>` for a word without whitespace,
/// `:`, `=` or tab.
proof fn lemma_status_normalized(w: Seq<char>)
    requires
        w.len() > 0,
        forall|i: int| 0 <= i < w.len() ==> !is_space(#[trigger] w[i]) && w[i] != ':' && w[i] != '=' && w[i] != '\t',
    ensures
        normalized_of("status: "@ + w) == "status "@ + w,
{
    reveal_strlit("status: ");
    reveal_strlit("status ");
    reveal_strlit(" ");
    let st = seq!['s', 't', 'a', 't', 'u', 's'];
    let line = "status: "@ + w;
    let gap = seq![' ', ' '];
    let spaced = st + gap + w;
    let r1 = replace_char_of(line, ':', ' ');
    assert(r1 =~= spaced);
    let r2 = replace_char_of(r1, '=', ' ');
    assert(r2 =~= spaced);
    let r3 = replace_char_of(r2, '\t', ' ');
    assert(r3 =~= spaced);
    assert forall|i: int| 0 <= i < st.len() implies !is_space(#[trigger] st[i]) by {}
    assert forall|i: int| 0 <= i < gap.len() implies is_space(#[trigger] gap[i]) by {}
    crate::text::lemma_two_words(st, gap, w);
    assert(seq![st, w].drop_last() =~= seq![st]);
    assert(join_of(seq![st, w], " "@) == join_of(seq![st], " "@) + " "@ + w);
    assert(st + " "@ + w =~= "status "@ + w);
}

/// A line that reads `Status: enabled`, in any case and between any
/// whitespace, says RDP is on; one that reads `Status: disabled` says it is
/// off.
pub proof fn lemma_status_lines(raw: Seq<char>)
    ensures
        lowercase_of(trim_of(raw)) == "status: enabled"@ ==> grdctl_line_verdict(raw) == Some(true),
        lowercase_of(trim_of(raw)) == "status: disabled"@ ==> grdctl_line_verdict(raw) == Some(false),
{
    reveal_strlit("status: enabled");
    reveal_strlit("status: disabled");
    reveal_strlit("status: ");
    reveal_strlit("status ");
    reveal_strlit("enabled");
    reveal_strlit("disabled");
    reveal_strlit("not enabled");
    reveal_strlit("status disabled");
    reveal_strlit("status is disabled");
    reveal_strlit("enabled no");
    reveal_strlit("rdp disabled");
    reveal_strlit("rdp is disabled");
    reveal_strlit("status enabled");
    let en = "enabled"@;
    let dis = "disabled"@;
    assert("status: enabled"@ =~= "status: "@ + en);
    assert("status: disabled"@ =~= "status: "@ + dis);
    lemma_status_normalized(en);
    lemma_status_normalized(dis);
    let ne = "status "@ + en;
    let nd = "status "@ + dis;
    assert(ne =~= "status enabled"@);
    assert(nd.subrange(0, 15) =~= "status disabled"@);
    assert(occurs_at(nd, "status disabled"@, 0));
    assert(ne.subrange(0, 14) =~= "status enabled"@);
    assert(occurs_at(ne, "status enabled"@, 0));
    assert forall|i: int| !occurs_at(ne, "not enabled"@, i) by {
        if 0 <= i && i + 11 <= ne.len() {
            assert(ne.subrange(i, i + 11)[0] == ne[i]);
        }
    }
    assert forall|i: int| !occurs_at(ne, "enabled no"@, i) by {
        if 0 <= i && i + 10 <= ne.len() {
            assert(ne.subrange(i, i + 10)[0] == ne[i]);
        }
    }
    assert forall|i: int| !occurs_at(ne, "rdp disabled"@, i) by {
        if 0 <= i && i + 12 <= ne.len() {
            assert(ne.subrange(i, i + 12)[0] == ne[i]);
        }
    }
    assert forall|i: int| !occurs_at(ne, "status disabled"@, i) by {}
    assert forall|i: int| !occurs_at(ne, "status is disabled"@, i) by {}
    assert forall|i: int| !occurs_at(ne, "rdp is disabled"@, i) by {}
    assert(!says_disabled(ne));
    assert(says_enabled(ne));
    assert(says_disabled(nd));
}

/// Among lines, the first one that says RDP is on or off decides, and no
/// later line can change that; with no such line there is no verdict.
pub proof fn lemma_first_marked_line_decides(ls: Seq<Seq<char>>)
    ensures
        forall|i: int|
            0 <= i < ls.len() && #[trigger] grdctl_line_verdict(ls[i]) is Some && (forall|j: int|
                0 <= j < i ==> grdctl_line_verdict(ls[j]) is None) ==> first_verdict(ls) == grdctl_line_verdict(ls[i]),
        (forall|i: int| 0 <= i < ls.len() ==> grdctl_line_verdict(#[trigger] ls[i]) is None) ==> first_verdict(ls)
            is None,
    decreases ls.len(),
{
    if ls.len() > 0 {
        let rest = ls.drop_first();
        lemma_first_marked_line_decides(rest);
        assert forall|i: int|
            0 <= i < ls.len() && #[trigger] grdctl_line_verdict(ls[i]) is Some && (forall|j: int|
                0 <= j < i ==> grdctl_line_verdict(ls[j]) is None) implies first_verdict(ls) == grdctl_line_verdict(
            ls[i],
        ) by {
            if i > 0 {
                assert(grdctl_line_verdict(ls[0]) is None);
                assert(rest[i - 1] == ls[i]);
                assert forall|j: int| 0 <= j < i - 1 implies grdctl_line_verdict(rest[j]) is None by {
                    assert(rest[j] == ls[j + 1]);
                }
                assert(grdctl_line_verdict(rest[i - 1]) is Some);
            }
        }
        if forall|i: int| 0 <= i < ls.len() ==> grdctl_line_verdict(#[trigger] ls[i]) is None {
            assert(grdctl_line_verdict(ls[0]) is None);
            assert forall|i: int| 0 <= i < rest.len() implies grdctl_line_verdict(#[trigger] rest[i]) is None by {
                assert(rest[i] == ls[i + 1]);
            }
        }
    }
}

/// The verdict of one line of `grdctl` output.
fn line_verdict(raw: &Vec<char>) -> (r: Option<bool>)
    ensures
        r == grdctl_line_verdict(raw@),
{
    let line = crate::text::lower(&trim(raw));
    if line.len() == 0 {
        return None;
    }
    let a = replace_char(&line, ':', ' ');
    let b = replace_char(&a, '=', ' ');
    let c = replace_char(&b, '\t', ' ');
    let n = join(&words(&c), &chars_of(" "));
    if has(&n, "not enabled") || has(&n, "status disabled") || has(&n, "status is disabled")
        || has(&n, "enabled no") || has(&n, "rdp disabled") || has(&n, "rdp is disabled")
        || is(&n, "disabled") {
        Some(false)
    } else if has(&n, "status enabled") || has(&n, "status is enabled") || has(&n, "enabled yes")
        || has(&n, "rdp enabled") || has(&n, "rdp is enabled") || is(&n, "enabled") {
        Some(true)
    } else {
        None
    }
}

/// Whether `grdctl rdp status` (or `grdctl status`) output says RDP is
/// enabled; `None` when no line says either way.
pub fn parse_grdctl_rdp_enabled(stdout: &str, stderr: &str) -> (r: Option<bool>)
    ensures
        r == grdctl_verdict(stdout@, stderr@),
        ({
            let ls = lines_of(stdout@ + "\n"@ + stderr@);
            &&& forall|i: int|
                0 <= i < ls.len() && #[trigger] grdctl_line_verdict(ls[i]) is Some && (forall|j: int|
                    0 <= j < i ==> grdctl_line_verdict(ls[j]) is None) ==> r == grdctl_line_verdict(ls[i])
            &&& (forall|i: int| 0 <= i < ls.len() ==> grdctl_line_verdict(#[trigger] ls[i]) is None) ==> r is None
        }),
{
    let r = grdctl_text_verdict(stdout, stderr);
    proof {
        lemma_first_marked_line_decides(lines_of(stdout@ + "\n"@ + stderr@));
    }
    r
}

fn grdctl_text_verdict(stdout: &str, stderr: &str) -> (r: Option<bool>)
    ensures
        r == grdctl_verdict(stdout@, stderr@),
{
    let mut text = chars_of(stdout);
    text.push('\n');
    extend(&mut text, &chars_of(stderr));
    proof {
        reveal_strlit("\n");
        assert(text@ =~= stdout@ + "\n"@ + stderr@);
    }
    let ls = lines(&text);
    let ghost all = seqs_of(ls@);
    assert(all.skip(0) =~= all);
    let mut i: usize = 0;
    while i < ls.len()
        invariant
            i <= ls.len(),
            all == seqs_of(ls@),
            all == lines_of(stdout@ + "\n"@ + stderr@),
            first_verdict(all) == first_verdict(all.skip(i as int)),
        decreases ls.len() - i,
    {
        assert(all.skip(i as int)[0] == ls@[i as int]@);
        assert(all.skip(i as int).drop_first() =~= all.skip(i + 1));
        let v = line_verdict(&ls[i]);
        if v.is_some() {
            return v;
        }
        i = i + 1;
    }
    None
}


/// The key and value of a `KEY=value` line of `/etc/os-release`: both
/// trimmed, the value without surrounding double quotes.
pub open spec fn os_entry(line: Seq<char>) -> Option<(Seq<char>, Seq<char>)> {
    match split_once_of(line, '=') {
        Some((k, v)) => Some((trim_of(k), unquote_of(trim_of(v)))),
        None => None,
    }
}

/// The value that the last line of `ls` with the key `key` gives it.
pub open spec fn os_value(ls: Seq<Seq<char>>, key: Seq<char>) -> Option<Seq<char>>
    decreases ls.len(),
{
    if ls.len() == 0 {
        None
    } else {
        match os_entry(ls.last()) {
            Some((k, v)) => if k == key { Some(v) } else { os_value(ls.drop_last(), key) },
            None => os_value(ls.drop_last(), key),
        }
    }
}

/// `v`, or `d` when there is none.
pub open spec fn or_default(v: Option<Seq<char>>, d: Seq<char>) -> Seq<char> {
    match v {
        Some(x) => x,
        None => d,
    }
}

/// The distribution named by the contents of `/etc/os-release`: `NAME` and
/// `VERSION_ID` as the last line giving each sets them, else `Linux` and `?`.
pub fn parse_os_release(content: &str) -> (r: OsInfo)
    ensures
        r.name@ == or_default(os_value(lines_of(content@), "NAME"@), "Linux"@),
        r.version_id@ == or_default(os_value(lines_of(content@), "VERSION_ID"@), "?"@),
{
    let ls = lines(&chars_of(content));
    let ghost all = seqs_of(ls@);
    let mut name: Option<Vec<char>> = None;
    let mut version: Option<Vec<char>> = None;
    let mut i: usize = 0;
    assert(all.take(0) =~= Seq::<Seq<char>>::empty());
    while i < ls.len()
        invariant
            i <= ls.len(),
            all == seqs_of(ls@),
            match name {
                Some(v) => os_value(all.take(i as int), "NAME"@) == Some(v@),
                None => os_value(all.take(i as int), "NAME"@) is None,
            },
            match version {
                Some(v) => os_value(all.take(i as int), "VERSION_ID"@) == Some(v@),
                None => os_value(all.take(i as int), "VERSION_ID"@) is None,
            },
        decreases ls.len() - i,
    {
        assert(all.take(i + 1).drop_last() =~= all.take(i as int));
        assert(all.take(i + 1).last() == ls@[i as int]@);
        match split_once(&ls[i], '=') {
            Some((k, v)) => {
                let key = trim(&k);
                let value = unquote(&trim(&v));
                proof {
                    reveal_strlit("NAME");
                    reveal_strlit("VERSION_ID");
                    assert("NAME"@.len() != "VERSION_ID"@.len());
                    assert(os_entry(ls@[i as int]@) == Some((key@, value@)));
                }
                if is(&key, "NAME") {
                    name = Some(value);
                } else if is(&key, "VERSION_ID") {
                    version = Some(value);
                }
            },
            None => {},
        }
        i = i + 1;
    }
    assert(all.take(ls.len() as int) =~= all);
    let name = match name {
        Some(v) => string_of(&v),
        None => "Linux".to_owned(),
    };
    let version_id = match version {
        Some(v) => string_of(&v),
        None => "?".to_owned(),
    };
    OsInfo { name, version_id }
}


/// The characters of each string in `v`.
pub open spec fn strs_of(v: Seq<String>) -> Seq<Seq<char>> {
    Seq::new(v.len(), |i: int| v[i]@)
}

/// Owned copies of string literals.
pub fn owned(v: &[&str]) -> (r: Vec<String>)
    ensures
        r@.len() == v@.len(),
        forall|i: int| 0 <= i < v@.len() ==> r@[i]@ == v@[i]@,
{
    let mut r: Vec<String> = Vec::new();
    let mut i: usize = 0;
    while i < v.len()
        invariant
            i <= v@.len(),
            r@.len() == i,
            forall|j: int| 0 <= j < i ==> r@[j]@ == v@[j]@,
        decreases v@.len() - i,
    {
        r.push(v[i].to_owned());
        i = i + 1;
    }
    r
}

/// Where a command runs: as HydraDesk itself (root when run with sudo), in
/// the graphical user's session, or as HydraDesk without echoing it.
#[derive(Debug, Clone, Copy, PartialEq, Eq, Structural)]
pub enum RunIn {
    System,
    Session,
    Quiet,
}

/// A command to run and where to run it.
#[derive(Debug, Clone)]
pub struct Invocation {
    pub program: String,
    pub args: Vec<String>,
    pub run_in: RunIn,
}

/// The next thing a decision needs: the result of a probe, or nothing more.
#[derive(Debug, Clone)]
pub enum Next<P, T> {
    Probe(P),
    Done(T),
}

/// An invocation of `program` with literal arguments.
pub fn invocation(program: &str, args: &[&str], run_in: RunIn) -> (r: Invocation)
    ensures
        r.program@ == program@,
        strs_of(r.args@) == Seq::new(args@.len(), |i: int| args@[i]@),
        r.run_in == run_in,
{
    let a = owned(args);
    let r = Invocation { program: program.to_owned(), args: a, run_in };
    assert(strs_of(r.args@) =~= Seq::new(args@.len(), |i: int| args@[i]@));
    r
}

/// The command `program` with the arguments `args`.
pub fn run_with(program: &str, args: Vec<String>, run_in: RunIn) -> (r: Invocation)
    ensures
        r.program@ == program@,
        r.args@ == args@,
        r.run_in == run_in,
{
    Invocation { program: program.to_owned(), args, run_in }
}

/// The command `program a`.
pub fn run1(program: &str, a: &str, run_in: RunIn) -> (r: Invocation)
    ensures
        runs(r, program@, seq![a@], run_in),
{
    let mut v: Vec<String> = Vec::new();
    v.push(a.to_owned());
    let r = run_with(program, v, run_in);
    assert(strs_of(r.args@) =~= seq![a@]);
    r
}

/// The command `program a b`.
pub fn run2(program: &str, a: &str, b: &str, run_in: RunIn) -> (r: Invocation)
    ensures
        runs(r, program@, seq![a@, b@], run_in),
{
    let mut v: Vec<String> = Vec::new();
    v.push(a.to_owned());
    v.push(b.to_owned());
    let r = run_with(program, v, run_in);
    assert(strs_of(r.args@) =~= seq![a@, b@]);
    r
}

/// The command `program a b c`.
pub fn run3(program: &str, a: &str, b: &str, c: &str, run_in: RunIn) -> (r: Invocation)
    ensures
        runs(r, program@, seq![a@, b@, c@], run_in),
{
    let mut v: Vec<String> = Vec::new();
    v.push(a.to_owned());
    v.push(b.to_owned());
    v.push(c.to_owned());
    let r = run_with(program, v, run_in);
    assert(strs_of(r.args@) =~= seq![a@, b@, c@]);
    r
}

/// The command `program a b c d`.
pub fn run4(program: &str, a: &str, b: &str, c: &str, d: &str, run_in: RunIn) -> (r: Invocation)
    ensures
        runs(r, program@, seq![a@, b@, c@, d@], run_in),
{
    let mut v: Vec<String> = Vec::new();
    v.push(a.to_owned());
    v.push(b.to_owned());
    v.push(c.to_owned());
    v.push(d.to_owned());
    let r = run_with(program, v, run_in);
    assert(strs_of(r.args@) =~= seq![a@, b@, c@, d@]);
    r
}

/// Is `inv` the command `program` with these literal arguments, run there?
pub open spec fn runs(inv: Invocation, program: Seq<char>, args: Seq<Seq<char>>, run_in: RunIn) -> bool {
    inv.program@ == program && strs_of(inv.args@) == args && inv.run_in == run_in
}

/// `r` asks for the command `program args`, run there.
pub open spec fn asks<T>(r: Next<Invocation, T>, program: Seq<char>, args: Seq<Seq<char>>, run_in: RunIn) -> bool {
    match r {
        Next::Probe(inv) => runs(inv, program, args, run_in),
        Next::Done(_) => false,
    }
}

/// The process to start for a command: its program, arguments, and the
/// environment variables to set.
#[derive(Debug, Clone)]
pub struct CommandPlan {
    pub program: String,
    pub args: Vec<String>,
    pub env: Vec<(String, String)>,
}

/// The names and values of environment variables, as text.
pub open spec fn env_of(v: Seq<(String, String)>) -> Seq<(Seq<char>, Seq<char>)> {
    Seq::new(v.len(), |i: int| (v[i].0@, v[i].1@))
}

/// The environment that points a command at the graphical session's bus and
/// display.
pub open spec fn session_env(s: SessionInfo) -> Seq<(Seq<char>, Seq<char>)> {
    seq![("DBUS_SESSION_BUS_ADDRESS"@, s.dbus_address@), ("XDG_RUNTIME_DIR"@, s.xdg_runtime_dir@)]
        + (match s.display {
        Some(d) => seq![("DISPLAY"@, d@)],
        None => Seq::empty(),
    }) + (match s.xauthority {
        Some(x) => seq![("XAUTHORITY"@, x@)],
        None => Seq::empty(),
    })
}

/// How a command is run in the graphical user's session: as root through
/// `runuser` with the session's bus in its environment, as that user with the
/// session's variables set, or plainly when there is no session.
pub open spec fn session_plan_ok(
    cmd: Seq<char>,
    args: Seq<Seq<char>>,
    session: Option<SessionInfo>,
    is_root: bool,
    p: CommandPlan,
) -> bool {
    match session {
        Some(s) => if is_root {
            &&& p.program@ == "runuser"@
            &&& strs_of(p.args@) == seq![
                "-u"@,
                s.username@,
                "--"@,
                "env"@,
                "DBUS_SESSION_BUS_ADDRESS="@ + s.dbus_address@,
                "XDG_RUNTIME_DIR="@ + s.xdg_runtime_dir@,
                cmd,
            ] + args
            &&& p.env@.len() == 0
        } else {
            &&& p.program@ == cmd
            &&& strs_of(p.args@) == args
            &&& env_of(p.env@) == session_env(s)
        },
        None => {
            &&& p.program@ == cmd
            &&& strs_of(p.args@) == args
            &&& p.env@.len() == 0
        },
    }
}

/// `a` followed by `b`.
pub fn concat_str(a: &str, b: &str) -> (r: String)
    ensures
        r@ == a@ + b@,
{
    let mut v = chars_of(a);
    extend(&mut v, &chars_of(b));
    string_of(&v)
}

/// The process that runs `cmd args` in the context of the graphical user's
/// session (`run_cmd`): through `runuser` when HydraDesk is root, directly
/// with the session's environment otherwise, plainly without a session.
pub fn plan_command(cmd: &str, args: &Vec<String>, session: &Option<SessionInfo>, is_root: bool) -> (r:
    CommandPlan)
    ensures
        session_plan_ok(cmd@, strs_of(args@), *session, is_root, r),
{
    let mut a: Vec<String> = Vec::new();
    let mut env: Vec<(String, String)> = Vec::new();
    let program: String;
    match session {
        Some(s) => {
            if is_root {
                program = "runuser".to_owned();
                a.push("-u".to_owned());
                a.push(s.username.as_str().to_owned());
                a.push("--".to_owned());
                a.push("env".to_owned());
                a.push(concat_str("DBUS_SESSION_BUS_ADDRESS=", s.dbus_address.as_str()));
                a.push(concat_str("XDG_RUNTIME_DIR=", s.xdg_runtime_dir.as_str()));
                a.push(cmd.to_owned());
            } else {
                program = cmd.to_owned();
                env.push(("DBUS_SESSION_BUS_ADDRESS".to_owned(), s.dbus_address.as_str().to_owned()));
                env.push(("XDG_RUNTIME_DIR".to_owned(), s.xdg_runtime_dir.as_str().to_owned()));
                match &s.display {
                    Some(d) => env.push(("DISPLAY".to_owned(), d.as_str().to_owned())),
                    None => {},
                }
                match &s.xauthority {
                    Some(x) => env.push(("XAUTHORITY".to_owned(), x.as_str().to_owned())),
                    None => {},
                }
            }
        },
        None => {
            program = cmd.to_owned();
        },
    }
    let ghost head = strs_of(a@);
    let mut i: usize = 0;
    while i < args.len()
        invariant
            i <= args.len(),
            strs_of(a@) == head + strs_of(args@).take(i as int),
        decreases args.len() - i,
    {
        let t = args[i].as_str().to_owned();
        assert(t@ == strs_of(args@)[i as int]);
        let ghost before = strs_of(a@);
        a.push(t);
        assert(strs_of(a@) =~= before.push(t@));
        assert(strs_of(args@).take(i + 1) =~= strs_of(args@).take(i as int).push(t@));
        assert(strs_of(a@) =~= head + strs_of(args@).take(i + 1));
        i = i + 1;
    }
    assert(strs_of(args@).take(args.len() as int) =~= strs_of(args@));
    let r = CommandPlan { program, args: a, env };
    proof {
        match session {
            Some(s) => if is_root {
                assert(strs_of(r.args@) =~= seq![
                    "-u"@,
                    s.username@,
                    "--"@,
                    "env"@,
                    "DBUS_SESSION_BUS_ADDRESS="@ + s.dbus_address@,
                    "XDG_RUNTIME_DIR="@ + s.xdg_runtime_dir@,
                    cmd@,
                ] + strs_of(args@));
            } else {
                assert(env_of(r.env@) =~= session_env(*s));
                assert(strs_of(r.args@) =~= strs_of(args@));
            },
            None => {
                assert(strs_of(r.args@) =~= strs_of(args@));
            },
        }
    }
    r
}


/// A command ran and its standard output mentions port 3389.
pub open spec fn lists_rdp_port(o: Option<CmdOutput>) -> bool {
    match o {
        Some(c) => has_sub(c.stdout@, ":3389"@),
        None => false,
    }
}

/// Is anything listening on port 3389? `outputs` holds, in order, what the
/// probes asked for so far gave (`None`: the command could not be run):
/// `ss -tulnp`, then, unless it listed the port, `netstat -tulnp`.
pub fn check_port_3389(outputs: &Vec<Option<CmdOutput>>) -> (r: Next<Invocation, bool>)
    ensures
        outputs@.len() == 0 ==> asks(r, "ss"@, seq!["-tulnp"@], RunIn::System),
        outputs@.len() >= 1 && lists_rdp_port(outputs@[0]) ==> r == Next::<Invocation, bool>::Done(true),
        outputs@.len() == 1 && !lists_rdp_port(outputs@[0]) ==> asks(r, "netstat"@, seq!["-tulnp"@], RunIn::System),
        outputs@.len() >= 2 && !lists_rdp_port(outputs@[0]) ==> r == Next::<Invocation, bool>::Done(
            lists_rdp_port(outputs@[1]),
        ),
{
    if outputs.len() == 0 {
        return Next::Probe(run1("ss", "-tulnp", RunIn::System));
    }
    if port_listed(&outputs[0]) {
        return Next::Done(true);
    }
    if outputs.len() == 1 {
        return Next::Probe(run1("netstat", "-tulnp", RunIn::System));
    }
    Next::Done(port_listed(&outputs[1]))
}

fn port_listed(o: &Option<CmdOutput>) -> (r: bool)
    ensures
        r == lists_rdp_port(*o),
{
    match o {
        Some(c) => has(&chars_of(c.stdout.as_str()), ":3389"),
        None => false,
    }
}

/// The arguments of the `k`-th `grdctl` query about RDP: `rdp status`, then `status`.
pub open spec fn grdctl_query(k: int) -> Seq<Seq<char>> {
    if k == 0 {
        seq!["rdp"@, "status"@]
    } else {
        seq!["status"@]
    }
}

/// What a `grdctl` query's output says about RDP (`None`: nothing, or the
/// command could not be run).
pub open spec fn query_verdict(o: Option<CmdOutput>) -> Option<bool> {
    match o {
        Some(c) => grdctl_verdict(c.stdout@, c.stderr@),
        None => None,
    }
}

/// Is RDP enabled in GNOME Remote Desktop? Without `grdctl` it is not; else
/// `grdctl rdp status` and then `grdctl status` are asked in the session,
/// and the first that says decides; when neither says, it is not.
/// `outputs` holds the answers to the queries asked so far.
pub fn check_rdp_enabled(grdctl_path: &Option<String>, outputs: &Vec<Option<CmdOutput>>) -> (r: Next<
    Invocation,
    bool,
>)
    ensures
        grdctl_path is None ==> r == Next::<Invocation, bool>::Done(false),
        grdctl_path matches Some(g) ==> {
            let o = outputs@;
            &&& o.len() == 0 ==> asks(r, g@, grdctl_query(0), RunIn::Session)
            &&& o.len() >= 1 && query_verdict(o[0]) is Some ==> r == Next::<Invocation, bool>::Done(
                query_verdict(o[0])->0,
            )
            &&& o.len() == 1 && query_verdict(o[0]) is None ==> asks(r, g@, grdctl_query(1), RunIn::Session)
            &&& o.len() >= 2 && query_verdict(o[0]) is None ==> r == Next::<Invocation, bool>::Done(
                query_verdict(o[1]) == Some(true),
            )
        },
{
    let g = match grdctl_path {
        Some(g) => g,
        None => return Next::Done(false),
    };
    let mut k: usize = 0;
    while k < 2
        invariant
            k <= 2,
            *grdctl_path == Some(*g),
            forall|j: int| 0 <= j < k ==> j < outputs@.len() && query_verdict(outputs@[j]) is None,
        decreases 2 - k,
    {
        if outputs.len() == k {
            let inv = if k == 0 {
                run2(g.as_str(), "rdp", "status", RunIn::Session)
            } else {
                run1(g.as_str(), "status", RunIn::Session)
            };
            return Next::Probe(inv);
        }
        match &outputs[k] {
            Some(o) => match parse_grdctl_rdp_enabled(o.stdout.as_str(), o.stderr.as_str()) {
                Some(b) => return Next::Done(b),
                None => {},
            },
            None => {},
        }
        k = k + 1;
    }
    Next::Done(false)
}

/// A package manager's binary was found on `PATH` by `which`.
pub open spec fn found(o: Option<CmdOutput>) -> bool {
    match o {
        Some(c) => c.success,
        None => false,
    }
}

fn was_found(o: &Option<CmdOutput>) -> (r: bool)
    ensures
        r == found(*o),
{
    match o {
        Some(c) => c.success,
        None => false,
    }
}

/// The package manager of the host.
#[derive(Debug, Clone, Copy, PartialEq, Eq, Structural)]
pub enum PackageManager {
    /// Debian, Ubuntu, and derivatives.
    Apt,
    /// Fedora, RHEL, and derivatives (covers `yum` via the dnf-compatible CLI).
    Dnf,
    Unknown,
}

/// The `which` query for the `k`-th package manager binary: `apt-get`, `dnf`, `yum`.
pub open spec fn package_binary(k: int) -> Seq<char> {
    if k == 0 {
        "apt-get"@
    } else if k == 1 {
        "dnf"@
    } else {
        "yum"@
    }
}

impl PackageManager {
    /// Which package manager is installed: apt when `apt-get` is on `PATH`,
    /// else dnf when `dnf` or `yum` is. `outputs` holds the answers of the
    /// `which` queries asked so far, in that order.
    pub fn detect(outputs: &Vec<Option<CmdOutput>>) -> (r: Next<Invocation, PackageManager>)
        ensures
            ({
                let o = outputs@;
                &&& forall|k: int|
                    #![trigger package_binary(k)]
                    0 <= k < 3 && o.len() == k && (forall|j: int| 0 <= j < k ==> !found(o[j])) ==> asks(
                        r,
                        "which"@,
                        seq![package_binary(k)],
                        RunIn::Quiet,
                    )
                &&& o.len() >= 1 && found(o[0]) ==> r == Next::<Invocation, PackageManager>::Done(PackageManager::Apt)
                &&& o.len() >= 2 && !found(o[0]) && found(o[1]) ==> r == Next::<Invocation, PackageManager>::Done(
                    PackageManager::Dnf,
                )
                &&& o.len() >= 3 && !found(o[0]) && !found(o[1]) ==> r == Next::<Invocation, PackageManager>::Done(
                    if found(o[2]) { PackageManager::Dnf } else { PackageManager::Unknown },
                )
            }),
    {
        let names: [&str; 3] = ["apt-get", "dnf", "yum"];
        let mut k: usize = 0;
        while k < 3
            invariant
                k <= 3,
                names@ == seq!["apt-get", "dnf", "yum"],
                k <= outputs@.len(),
                forall|j: int| 0 <= j < k ==> j < outputs@.len() && !found(outputs@[j]),
            decreases 3 - k,
        {
            if outputs.len() == k {
                let inv = run1("which", names[k], RunIn::Quiet);
                assert(names@[k as int]@ == package_binary(k as int));
                return Next::Probe(inv);
            }
            if was_found(&outputs[k]) {
                return Next::Done(if k == 0 { PackageManager::Apt } else { PackageManager::Dnf });
            }
            k = k + 1;
        }
        Next::Done(PackageManager::Unknown)
    }

    /// The remove command a user would run by hand, e.g. "sudo apt remove".
    pub fn remove_hint(&self) -> (r: &'static str)
        ensures
            r@ == match *self {
                PackageManager::Apt => "sudo apt remove"@,
                PackageManager::Dnf => "sudo dnf remove"@,
                PackageManager::Unknown => "your package manager's remove command"@,
            },
    {
        match self {
            PackageManager::Apt => "sudo apt remove",
            PackageManager::Dnf => "sudo dnf remove",
            PackageManager::Unknown => "your package manager's remove command",
        }
    }

    /// The install command a user would run by hand, e.g. "sudo apt install".
    pub fn install_hint(&self) -> (r: &'static str)
        ensures
            r@ == match *self {
                PackageManager::Apt => "sudo apt install"@,
                PackageManager::Dnf => "sudo dnf install"@,
                PackageManager::Unknown => "your package manager's install command"@,
            },
    {
        match self {
            PackageManager::Apt => "sudo apt install",
            PackageManager::Dnf => "sudo dnf install",
            PackageManager::Unknown => "your package manager's install command",
        }
    }
}

/// Path to GDM's daemon config. Debian/Ubuntu ship it under /etc/gdm3
/// (`gdm3_is_dir`); Fedora, RHEL, Arch, and openSUSE use /etc/gdm.
pub fn gdm_custom_conf(gdm3_is_dir: bool) -> (r: &'static str)
    ensures
        r@ == if gdm3_is_dir { "/etc/gdm3/custom.conf"@ } else { "/etc/gdm/custom.conf"@ },
{
    if gdm3_is_dir {
        "/etc/gdm3/custom.conf"
    } else {
        "/etc/gdm/custom.conf"
    }
}


/// The value after `prefix` in the first entry of a process environment
/// (`NAME=value` entries separated by zero bytes) that begins with `prefix`,
/// with every leading repetition of `prefix` removed.
pub open spec fn environ_value_in(pieces: Seq<Seq<u8>>, prefix: Seq<char>) -> Option<Seq<char>>
    decreases pieces.len(),
{
    if pieces.len() == 0 {
        None
    } else if begins_with(lossy_text(pieces[0]), prefix) {
        Some(strip_repeated_of(lossy_text(pieces[0]), prefix))
    } else {
        environ_value_in(pieces.drop_first(), prefix)
    }
}

/// The value of the first entry of `/proc/<pid>/environ` that begins with `prefix`.
pub fn environ_value(environ: &Vec<u8>, prefix: &str) -> (r: Option<String>)
    ensures
        match r {
            Some(v) => environ_value_in(split_nul(environ@), prefix@) == Some(v@),
            None => environ_value_in(split_nul(environ@), prefix@) is None,
        },
{
    let pieces = split_at_nul(environ);
    let p = chars_of(prefix);
    let ghost all = byte_seqs_of(pieces@);
    let mut i: usize = 0;
    assert(all.skip(0) =~= all);
    while i < pieces.len()
        invariant
            i <= pieces.len(),
            all == byte_seqs_of(pieces@),
            all == split_nul(environ@),
            p@ == prefix@,
            environ_value_in(all, prefix@) == environ_value_in(all.skip(i as int), prefix@),
        decreases pieces.len() - i,
    {
        assert(all.skip(i as int)[0] == pieces@[i as int]@);
        assert(all.skip(i as int).drop_first() =~= all.skip(i + 1));
        let text = chars_of(utf8_lossy(pieces[i].as_slice()).as_str());
        if starts_with(&text, &p) {
            return Some(string_of(&strip_repeated(&text, &p)));
        }
        i = i + 1;
    }
    None
}

/// Is a `/proc` entry name a process id (only ASCII digits)?
pub fn is_pid_name(name: &str) -> (r: bool)
    ensures
        r == all_digits(name@),
{
    let v = chars_of(name);
    let mut i: usize = 0;
    while i < v.len()
        invariant
            i <= v.len(),
            v@ == name@,
            forall|j: int| 0 <= j < i ==> crate::text::is_digit(#[trigger] v@[j]),
        decreases v.len() - i,
    {
        if !('0' <= v[i] && v[i] <= '9') {
            return false;
        }
        i = i + 1;
    }
    true
}

/// The first line of `ls` that begins with `p`.
pub open spec fn first_line_with(ls: Seq<Seq<char>>, p: Seq<char>) -> Option<Seq<char>>
    decreases ls.len(),
{
    if ls.len() == 0 {
        None
    } else if begins_with(ls[0], p) {
        Some(ls[0])
    } else {
        first_line_with(ls.drop_first(), p)
    }
}

/// The user id in `/proc/<pid>/status`: the second word of its first `Uid:` line.
pub open spec fn status_uid_of(status: Seq<char>) -> Option<nat> {
    match first_line_with(lines_of(status), "Uid:"@) {
        Some(l) => if words_of(l).len() >= 2 {
            parse_unsigned_of(words_of(l)[1], u32::MAX as nat)
        } else {
            None
        },
        None => None,
    }
}

/// The real user id that a process's `/proc/<pid>/status` gives.
pub fn status_uid(status: &str) -> (r: Option<u32>)
    ensures
        match r {
            Some(u) => status_uid_of(status@) == Some(u as nat),
            None => status_uid_of(status@) is None,
        },
{
    let ls = lines(&chars_of(status));
    let p = chars_of("Uid:");
    let ghost all = seqs_of(ls@);
    let mut i: usize = 0;
    assert(all.skip(0) =~= all);
    while i < ls.len()
        invariant
            i <= ls.len(),
            all == seqs_of(ls@),
            all == lines_of(status@),
            p@ == "Uid:"@,
            first_line_with(all, p@) == first_line_with(all.skip(i as int), p@),
        decreases ls.len() - i,
    {
        assert(all.skip(i as int)[0] == ls@[i as int]@);
        assert(all.skip(i as int).drop_first() =~= all.skip(i + 1));
        if starts_with(&ls[i], &p) {
            let w = words(&ls[i]);
            if w.len() < 2 {
                return None;
            }
            assert(seqs_of(w@)[1] == w@[1]@);
            return parse_u32(&w[1]);
        }
        i = i + 1;
    }
    None
}

/// A line of `/proc/<pid>/status` names the process `gnome-shell`.
pub open spec fn names_gnome_shell(status: Seq<char>) -> bool {
    exists|i: int|
        0 <= i < lines_of(status).len() && begins_with(#[trigger] lines_of(status)[i], "Name:"@) && has_sub(
            lines_of(status)[i],
            "gnome-shell"@,
        )
}

/// Is the process whose `/proc/<pid>/status` this is a `gnome-shell`?
pub fn status_names_gnome_shell(status: &str) -> (r: bool)
    ensures
        r == names_gnome_shell(status@),
{
    let ls = lines(&chars_of(status));
    let p = chars_of("Name:");
    let ghost all = seqs_of(ls@);
    let mut i: usize = 0;
    while i < ls.len()
        invariant
            i <= ls.len(),
            all == seqs_of(ls@),
            all == lines_of(status@),
            p@ == "Name:"@,
            forall|j: int| 0 <= j < i ==> !(begins_with(#[trigger] all[j], "Name:"@) && has_sub(all[j], "gnome-shell"@)),
        decreases ls.len() - i,
    {
        assert(all[i as int] == ls@[i as int]@);
        if starts_with(&ls[i], &p) && has(&ls[i], "gnome-shell") {
            return true;
        }
        i = i + 1;
    }
    false
}

/// The desktop that a `gnome-shell` process's environment names in
/// `XDG_CURRENT_DESKTOP`.
pub fn desktop_from_environ(environ: &Vec<u8>) -> (r: Option<DesktopEnvironment>)
    ensures
        match environ_value_in(split_nul(environ@), "XDG_CURRENT_DESKTOP="@) {
            Some(v) => r matches Some(d) && d@ == desktop_from_name(v, lowercase_of(v)),
            None => r is None,
        },
{
    match environ_value(environ, "XDG_CURRENT_DESKTOP=") {
        Some(v) => Some(parse_desktop_string(v.as_str())),
        None => None,
    }
}

/// The `DISPLAY` that a process's environment sets.
pub fn display_from_environ(environ: &Vec<u8>) -> (r: Option<String>)
    ensures
        match r {
            Some(v) => environ_value_in(split_nul(environ@), "DISPLAY="@) == Some(v@),
            None => environ_value_in(split_nul(environ@), "DISPLAY="@) is None,
        },
{
    environ_value(environ, "DISPLAY=")
}

/// What one `/proc/<pid>` entry means for a search through the processes:
/// go on to the next, read its `environ` first, or stop with what was found.
#[derive(Debug, Clone)]
pub enum Scan<T> {
    Skip,
    ReadEnviron,
    Finish(Option<T>),
}

/// One process in the search for the `DISPLAY` of user `uid`: its `status`
/// (`None`: unreadable) and, once read, its `environ` (`Some(None)`:
/// unreadable). A process of another user is skipped; the search stops,
/// with nothing, at an unreadable `status` or `environ` or a `status`
/// without a user id, and with the `DISPLAY` of the first process of the
/// user that sets one.
pub fn display_scan(uid: u32, status: &Option<String>, environ: &Option<Option<Vec<u8>>>) -> (r: Scan<String>)
    ensures
        match status {
            None => r matches Scan::Finish(None),
            Some(st) => match status_uid_of(st@) {
                None => r matches Scan::Finish(None),
                Some(u) => if u != uid {
                    r matches Scan::Skip
                } else {
                    match environ {
                        None => r matches Scan::ReadEnviron,
                        Some(None) => r matches Scan::Finish(None),
                        Some(Some(e)) => match environ_value_in(split_nul(e@), "DISPLAY="@) {
                            Some(d) => r matches Scan::Finish(Some(v)) && v@ == d,
                            None => r matches Scan::Skip,
                        },
                    }
                },
            },
        },
{
    let st = match status {
        Some(st) => st,
        None => return Scan::Finish(None),
    };
    match status_uid(st.as_str()) {
        None => Scan::Finish(None),
        Some(u) => if u != uid {
            Scan::Skip
        } else {
            match environ {
                None => Scan::ReadEnviron,
                Some(None) => Scan::Finish(None),
                Some(Some(e)) => match display_from_environ(e) {
                    Some(d) => Scan::Finish(Some(d)),
                    None => Scan::Skip,
                },
            }
        },
    }
}

/// One process in the search for the desktop that a running `gnome-shell`
/// names: processes whose `status` is unreadable or names another program
/// are skipped, as are those whose `environ` is unreadable or has no
/// `XDG_CURRENT_DESKTOP`; the first that has one ends the search.
pub fn desktop_scan(status: &Option<String>, environ: &Option<Option<Vec<u8>>>) -> (r: Scan<DesktopEnvironment>)
    ensures
        match status {
            None => r matches Scan::Skip,
            Some(st) => if !names_gnome_shell(st@) {
                r matches Scan::Skip
            } else {
                match environ {
                    None => r matches Scan::ReadEnviron,
                    Some(None) => r matches Scan::Skip,
                    Some(Some(e)) => match environ_value_in(split_nul(e@), "XDG_CURRENT_DESKTOP="@) {
                        Some(v) => r matches Scan::Finish(Some(d)) && d@ == desktop_from_name(v, lowercase_of(v)),
                        None => r matches Scan::Skip,
                    },
                }
            },
        },
{
    let st = match status {
        Some(st) => st,
        None => return Scan::Skip,
    };
    if !status_names_gnome_shell(st.as_str()) {
        return Scan::Skip;
    }
    match environ {
        None => Scan::ReadEnviron,
        Some(None) => Scan::Skip,
        Some(Some(e)) => match desktop_from_environ(e) {
            Some(d) => Scan::Finish(Some(d)),
            None => Scan::Skip,
        },
    }
}

/// Where `grdctl` is looked for before asking `which`.
pub open spec fn grdctl_candidate(i: int) -> Seq<char> {
    if i == 0 {
        "/usr/bin/grdctl"@
    } else if i == 1 {
        "/usr/local/bin/grdctl"@
    } else {
        "/snap/bin/grdctl"@
    }
}

/// The places `grdctl` is looked for, in order.
pub fn grdctl_candidates() -> (r: Vec<&'static str>)
    ensures
        r@.len() == 3,
        forall|i: int| 0 <= i < 3 ==> r@[i]@ == grdctl_candidate(i),
{
    let mut r: Vec<&'static str> = Vec::new();
    r.push("/usr/bin/grdctl");
    r.push("/usr/local/bin/grdctl");
    r.push("/snap/bin/grdctl");
    r
}

/// The `grdctl` path that a successful `which grdctl` printed.
pub open spec fn which_path(o: Option<CmdOutput>) -> Option<Seq<char>> {
    match o {
        Some(c) => if c.success && trim_of(c.stdout@).len() > 0 {
            Some(trim_of(c.stdout@))
        } else {
            None
        },
        None => None,
    }
}

/// The first candidate that exists: `exists[i]` says whether `grdctl_candidate(i)` does.
pub open spec fn first_existing(exists: Seq<bool>, from: int) -> Option<int>
    decreases 3 - from,
{
    if from >= 3 || from < 0 {
        None
    } else if from < exists.len() && exists[from] {
        Some(from)
    } else {
        first_existing(exists, from + 1)
    }
}

/// Where `grdctl` is: the first of the usual places that exists (`exists[i]`
/// says whether `grdctl_candidate(i)` does), else what `which grdctl` prints.
/// `outputs` holds the answer of `which` once asked.
pub fn find_grdctl(exists: &Vec<bool>, outputs: &Vec<Option<CmdOutput>>) -> (r: Next<Invocation, Option<String>>)
    ensures
        match first_existing(exists@, 0) {
            Some(i) => r matches Next::Done(Some(p)) && p@ == grdctl_candidate(i),
            None => if outputs@.len() == 0 {
                asks(r, "which"@, seq!["grdctl"@], RunIn::Quiet)
            } else {
                match which_path(outputs@[0]) {
                    Some(p) => r matches Next::Done(Some(q)) && q@ == p,
                    None => r matches Next::Done(None),
                }
            },
        },
{
    let c = grdctl_candidates();
    let mut i: usize = 0;
    while i < 3
        invariant
            i <= 3,
            c@.len() == 3,
            forall|j: int| 0 <= j < 3 ==> c@[j]@ == grdctl_candidate(j),
            first_existing(exists@, 0) == first_existing(exists@, i as int),
        decreases 3 - i,
    {
        if i < exists.len() && exists[i] {
            return Next::Done(Some(c[i].to_owned()));
        }
        i = i + 1;
    }
    if outputs.len() == 0 {
        return Next::Probe(run1("which", "grdctl", RunIn::Quiet));
    }
    match &outputs[0] {
        Some(o) => {
            let t = trim(&chars_of(o.stdout.as_str()));
            if o.success && t.len() > 0 {
                Next::Done(Some(string_of(&t)))
            } else {
                Next::Done(None)
            }
        },
        None => Next::Done(None),
    }
}

/// Some DRM connector's `status` file reads `connected`.
pub open spec fn drm_connected(statuses: Seq<String>) -> bool {
    exists|i: int| 0 <= i < statuses.len() && trim_of(#[trigger] statuses[i]@) == "connected"@
}

/// Is a monitor connected? `xrandr --query` in the session decides when it
/// runs and succeeds (a ` connected ` output); otherwise a DRM connector
/// whose `status` file (`drm_statuses`) reads `connected` does.
pub fn detect_monitor(outputs: &Vec<Option<CmdOutput>>, drm_statuses: &Vec<String>) -> (r: Next<Invocation, bool>)
    ensures
        outputs@.len() == 0 ==> asks(r, "xrandr"@, seq!["--query"@], RunIn::Session),
        outputs@.len() >= 1 ==> r == Next::<Invocation, bool>::Done(
            match outputs@[0] {
                Some(c) => if c.success { has_sub(c.stdout@, " connected "@) } else { drm_connected(drm_statuses@) },
                None => drm_connected(drm_statuses@),
            },
        ),
{
    if outputs.len() == 0 {
        return Next::Probe(run1("xrandr", "--query", RunIn::Session));
    }
    match &outputs[0] {
        Some(o) => {
            if o.success {
                return Next::Done(has(&chars_of(o.stdout.as_str()), " connected "));
            }
        },
        None => {},
    }
    let mut i: usize = 0;
    while i < drm_statuses.len()
        invariant
            i <= drm_statuses.len(),
            outputs@.len() >= 1,
            match outputs@[0] {
                Some(c) => !c.success,
                None => true,
            },
            forall|j: int| 0 <= j < i ==> trim_of(#[trigger] drm_statuses@[j]@) != "connected"@,
        decreases drm_statuses.len() - i,
    {
        if is(&trim(&chars_of(drm_statuses[i].as_str())), "connected") {
            assert(trim_of(drm_statuses@[i as int]@) == "connected"@);
            return Next::Done(true);
        }
        i = i + 1;
    }
    Next::Done(false)
}


/// Where a walk over candidates stands: ask about the `j`-th, or done.
pub enum Walk<T> {
    Ask(int),
    Give(T),
}

/// The session ids in `loginctl list-sessions` output: the first word of
/// each line that has one.
pub open spec fn session_ids(ls: Seq<Seq<char>>) -> Seq<Seq<char>>
    decreases ls.len(),
{
    if ls.len() == 0 {
        Seq::empty()
    } else if words_of(ls.last()).len() >= 1 {
        session_ids(ls.drop_last()).push(words_of(ls.last())[0])
    } else {
        session_ids(ls.drop_last())
    }
}

/// The display server that a `loginctl show-session` answer reports for an
/// active session with a `Type=` line.
pub open spec fn shown_display_server(o: Option<CmdOutput>) -> Option<DisplayServer> {
    match o {
        Some(c) => if has_sub(c.stdout@, "Active=yes"@) {
            match field_of(c.stdout@, "Type"@) {
                Some(t) => Some(display_server_from_name(lowercase_of(t))),
                None => None,
            }
        } else {
            None
        },
        None => None,
    }
}

/// The sessions are asked about in order until one is active and typed.
pub open spec fn display_walk(ids: Seq<Seq<char>>, shows: Seq<Option<CmdOutput>>, j: int) -> Walk<DisplayServer>
    decreases ids.len() - j,
{
    if j < 0 || j >= ids.len() {
        Walk::Give(DisplayServer::Unknown)
    } else if j >= shows.len() {
        Walk::Ask(j)
    } else {
        match shown_display_server(shows[j]) {
            Some(d) => Walk::Give(d),
            None => display_walk(ids, shows, j + 1),
        }
    }
}

/// The ids of sessions listed by `loginctl list-sessions --no-legend`.
fn listed_session_ids(list: &str) -> (r: Vec<Vec<char>>)
    ensures
        seqs_of(r@) == session_ids(lines_of(list@)),
{
    let ls = lines(&chars_of(list));
    let ghost all = seqs_of(ls@);
    let mut r: Vec<Vec<char>> = Vec::new();
    let mut i: usize = 0;
    assert(all.take(0) =~= Seq::<Seq<char>>::empty());
    while i < ls.len()
        invariant
            i <= ls.len(),
            all == seqs_of(ls@),
            seqs_of(r@) == session_ids(all.take(i as int)),
        decreases ls.len() - i,
    {
        assert(all.take(i + 1).drop_last() =~= all.take(i as int));
        assert(all.take(i + 1).last() == ls@[i as int]@);
        let mut w = words(&ls[i]);
        if w.len() >= 1 {
            assert(seqs_of(w@)[0] == w@[0]@);
            let first = w.swap_remove(0);
            let ghost before = seqs_of(r@);
            r.push(first);
            assert(seqs_of(r@) =~= before.push(first@));
        }
        i = i + 1;
    }
    assert(all.take(ls.len() as int) =~= all);
    r
}

/// The display server of the active session, as `loginctl` reports it.
fn show_display_server(o: &Option<CmdOutput>) -> (r: Option<DisplayServer>)
    ensures
        r == shown_display_server(*o),
{
    match o {
        Some(c) => {
            if has(&chars_of(c.stdout.as_str()), "Active=yes") {
                match extract_field(c.stdout.as_str(), "Type") {
                    Some(t) => Some(parse_display_server(t.as_str())),
                    None => None,
                }
            } else {
                None
            }
        },
        None => None,
    }
}

/// The display server in use: the session's own when there is one, else
/// what `XDG_SESSION_TYPE` (`env_type`) names, else the type of the first
/// active session that `loginctl` lists. `outputs` holds the answers to the
/// `loginctl` commands asked so far: `list-sessions`, then `show-session` for
/// each listed session in turn.
pub fn detect_display_server(
    session: &Option<SessionInfo>,
    env_type: &Option<String>,
    outputs: &Vec<Option<CmdOutput>>,
) -> (r: Next<Invocation, DisplayServer>)
    ensures
        match session {
            Some(s) => r == Next::<Invocation, DisplayServer>::Done(s.display_server),
            None => match env_type {
                Some(t) => r == Next::<Invocation, DisplayServer>::Done(
                    display_server_from_name(lowercase_of(t@)),
                ),
                None => if outputs@.len() == 0 {
                    asks(r, "loginctl"@, seq!["list-sessions"@, "--no-legend"@], RunIn::System)
                } else {
                    match outputs@[0] {
                        None => r == Next::<Invocation, DisplayServer>::Done(DisplayServer::Unknown),
                        Some(list) => {
                            let ids = session_ids(lines_of(list.stdout@));
                            match display_walk(ids, outputs@.skip(1), 0) {
                                Walk::Ask(j) => asks(
                                    r,
                                    "loginctl"@,
                                    seq!["show-session"@, ids[j]],
                                    RunIn::System,
                                ),
                                Walk::Give(d) => r == Next::<Invocation, DisplayServer>::Done(d),
                            }
                        },
                    }
                },
            },
        },
{
    match session {
        Some(s) => return Next::Done(s.display_server),
        None => {},
    }
    match env_type {
        Some(t) => return Next::Done(parse_display_server(t.as_str())),
        None => {},
    }
    if outputs.len() == 0 {
        return Next::Probe(run2("loginctl", "list-sessions", "--no-legend", RunIn::System));
    }
    let list = match &outputs[0] {
        Some(l) => l,
        None => return Next::Done(DisplayServer::Unknown),
    };
    let ids = listed_session_ids(list.stdout.as_str());
    let ghost sids = seqs_of(ids@);
    let ghost shows = outputs@.skip(1);
    let mut j: usize = 0;
    while j < ids.len()
        invariant
            j <= ids.len(),
            sids == seqs_of(ids@),
            shows == outputs@.skip(1),
            j + 1 <= outputs@.len(),
            session is None,
            env_type is None,
            outputs@[0] == Some(*list),
            sids == session_ids(lines_of(list.stdout@)),
            display_walk(sids, shows, 0) == display_walk(sids, shows, j as int),
        decreases ids.len() - j,
    {
        if j + 1 == outputs.len() {
            assert(sids[j as int] == ids@[j as int]@);
            let id = string_of(&ids[j]);
            let inv = run2("loginctl", "show-session", id.as_str(), RunIn::System);
            return Next::Probe(inv);
        }
        match show_display_server(&outputs[j + 1]) {
            Some(d) => return Next::Done(d),
            None => {},
        }
        j = j + 1;
    }
    Next::Done(DisplayServer::Unknown)
}


/// The user id a `loginctl list-sessions` line gives (0 when it is not a number).
pub open spec fn listed_uid(w: Seq<char>) -> nat {
    match parse_unsigned_of(w, u32::MAX as nat) {
        Some(u) => u,
        None => 0,
    }
}

/// The sessions of `loginctl list-sessions` lines (`SESSION UID USER ...`)
/// that belong to regular users (uid 1000 and up), as (id, uid, user).
pub open spec fn user_sessions(ls: Seq<Seq<char>>) -> Seq<(Seq<char>, nat, Seq<char>)>
    decreases ls.len(),
{
    if ls.len() == 0 {
        Seq::empty()
    } else {
        let w = words_of(ls.last());
        let rest = user_sessions(ls.drop_last());
        if w.len() >= 3 && listed_uid(w[1]) >= 1000 {
            rest.push((w[0], listed_uid(w[1]), w[2]))
        } else {
            rest
        }
    }
}

/// The display server of a session that `loginctl show-session` reports as
/// active (or in state `active` or `online`) and not a text console.
pub open spec fn graphical_session(out: Seq<char>) -> Option<DisplayServer> {
    let active = has_sub(out, "Active=yes"@);
    let state_ok = match field_of(out, "State"@) {
        Some(v) => v == "active"@ || v == "online"@,
        None => false,
    };
    let ty = or_default(field_of(out, "Type"@), Seq::empty());
    if !active && !state_ok {
        None
    } else if ty == "tty"@ {
        None
    } else {
        Some(display_server_from_name(lowercase_of(ty)))
    }
}

/// What the search for the graphical session has found.
pub enum SessionWalk {
    NoSession,
    Failed,
    Found(int, DisplayServer),
}

/// The user sessions are asked about in order until one is graphical; a
/// query that cannot be run ends the search with an error.
pub open spec fn session_walk(
    cands: Seq<(Seq<char>, nat, Seq<char>)>,
    shows: Seq<Option<CmdOutput>>,
    j: int,
) -> Walk<SessionWalk>
    decreases cands.len() - j,
{
    if j < 0 || j >= cands.len() {
        Walk::Give(SessionWalk::NoSession)
    } else if j >= shows.len() {
        Walk::Ask(j)
    } else {
        match shows[j] {
            None => Walk::Give(SessionWalk::Failed),
            Some(c) => match graphical_session(c.stdout@) {
                Some(d) => Walk::Give(SessionWalk::Found(j, d)),
                None => session_walk(cands, shows, j + 1),
            },
        }
    }
}

/// The next step of the search for the active graphical session.
#[derive(Debug, Clone)]
pub enum SessionStep {
    /// Ask `loginctl show-session` about another session.
    Show(Invocation),
    /// The graphical session.
    Found { session_id: String, username: String, uid: u32, display_server: DisplayServer },
    /// A `loginctl show-session` query could not be run.
    Failed,
    /// No listed session is a graphical one of a regular user.
    NoSession,
}

/// A user session listed by `loginctl`.
struct Listed {
    id: Vec<char>,
    uid: u32,
    user: Vec<char>,
}

spec fn listed_of(v: Seq<Listed>) -> Seq<(Seq<char>, nat, Seq<char>)> {
    Seq::new(v.len(), |i: int| (v[i].id@, v[i].uid as nat, v[i].user@))
}

fn user_sessions_listed(list: &str) -> (r: Vec<Listed>)
    ensures
        listed_of(r@) == user_sessions(lines_of(list@)),
{
    let ls = lines(&chars_of(list));
    let ghost all = seqs_of(ls@);
    let mut r: Vec<Listed> = Vec::new();
    let mut i: usize = 0;
    assert(all.take(0) =~= Seq::<Seq<char>>::empty());
    assert(listed_of(r@) =~= Seq::empty());
    while i < ls.len()
        invariant
            i <= ls.len(),
            all == seqs_of(ls@),
            listed_of(r@) == user_sessions(all.take(i as int)),
        decreases ls.len() - i,
    {
        assert(all.take(i + 1).drop_last() =~= all.take(i as int));
        assert(all.take(i + 1).last() == ls@[i as int]@);
        let w = words(&ls[i]);
        if w.len() >= 3 {
            assert(seqs_of(w@)[1] == w@[1]@);
            let uid: u32 = match parse_u32(&w[1]) {
                Some(u) => u,
                None => 0,
            };
            if uid >= 1000 {
                assert(seqs_of(w@)[0] == w@[0]@);
                assert(seqs_of(w@)[2] == w@[2]@);
                let item = Listed { id: copy_chars(&w[0]), uid, user: copy_chars(&w[2]) };
                let ghost before = listed_of(r@);
                r.push(item);
                assert(listed_of(r@) =~= before.push((w@[0]@, uid as nat, w@[2]@)));
            }
        }
        i = i + 1;
    }
    assert(all.take(ls.len() as int) =~= all);
    r
}

/// The display server of the graphical session that a `loginctl
/// show-session` answer describes.
pub fn session_is_graphical(out: &str) -> (r: Option<DisplayServer>)
    ensures
        r == graphical_session(out@),
{
    let active = has(&chars_of(out), "Active=yes");
    let state_ok = match extract_field(out, "State") {
        Some(v) => {
            let c = chars_of(v.as_str());
            is(&c, "active") || is(&c, "online")
        },
        None => false,
    };
    let ty = match extract_field(out, "Type") {
        Some(t) => t,
        None => String::new(),
    };
    if !active && !state_ok {
        return None;
    }
    if is(&chars_of(ty.as_str()), "tty") {
        return None;
    }
    Some(parse_display_server(ty.as_str()))
}

/// Find the active graphical session of a regular user. `list` is what
/// `loginctl list-sessions --no-legend` printed; `shows` holds, in order,
/// the answers of `loginctl show-session` for the user sessions asked about
/// so far (`None`: the command could not be run).
pub fn detect_active_session(list: &str, shows: &Vec<Option<CmdOutput>>) -> (r: SessionStep)
    ensures
        ({
            let cands = user_sessions(lines_of(list@));
            match session_walk(cands, shows@, 0) {
                Walk::Ask(j) => r matches SessionStep::Show(inv) && runs(
                    inv,
                    "loginctl"@,
                    seq!["show-session"@, cands[j].0],
                    RunIn::System,
                ),
                Walk::Give(SessionWalk::NoSession) => r is NoSession,
                Walk::Give(SessionWalk::Failed) => r is Failed,
                Walk::Give(SessionWalk::Found(j, d)) => r matches SessionStep::Found {
                    session_id,
                    username,
                    uid,
                    display_server,
                } && session_id@ == cands[j].0 && uid as nat == cands[j].1 && username@ == cands[j].2
                    && display_server == d,
            }
        }),
{
    let cands = user_sessions_listed(list);
    let ghost cs = listed_of(cands@);
    let mut j: usize = 0;
    while j < cands.len()
        invariant
            j <= cands.len(),
            cs == listed_of(cands@),
            cs == user_sessions(lines_of(list@)),
            j <= shows@.len(),
            session_walk(cs, shows@, 0) == session_walk(cs, shows@, j as int),
        decreases cands.len() - j,
    {
        assert(cs[j as int] == (cands@[j as int].id@, cands@[j as int].uid as nat, cands@[j as int].user@));
        if j == shows.len() {
            let id = string_of(&cands[j].id);
            return SessionStep::Show(run2("loginctl", "show-session", id.as_str(), RunIn::System));
        }
        match &shows[j] {
            None => return SessionStep::Failed,
            Some(c) => match session_is_graphical(c.stdout.as_str()) {
                Some(d) => {
                    return SessionStep::Found {
                        session_id: string_of(&cands[j].id),
                        username: string_of(&cands[j].user),
                        uid: cands[j].uid,
                        display_server: d,
                    };
                },
                None => {},
            },
        }
        j = j + 1;
    }
    SessionStep::NoSession
}

/// `/run/user/<uid>`.
pub open spec fn runtime_dir_of(uid: u32) -> Seq<char> {
    "/run/user/"@ + decimal_of(uid as nat)
}

/// The places an X authority file is looked for, in order, when
/// `XAUTHORITY` is not set.
pub fn xauthority_candidates(uid: u32, username: &str) -> (r: Vec<String>)
    ensures
        strs_of(r@) == seq![
            runtime_dir_of(uid) + "/gdm/Xauthority"@,
            "/home/"@ + username@ + "/.Xauthority"@,
            "/root/.Xauthority"@,
        ],
{
    let mut a = chars_of("/run/user/");
    extend(&mut a, &u64_text(uid as u64));
    extend(&mut a, &chars_of("/gdm/Xauthority"));
    let mut b = chars_of("/home/");
    extend(&mut b, &chars_of(username));
    extend(&mut b, &chars_of("/.Xauthority"));
    let mut r: Vec<String> = Vec::new();
    r.push(string_of(&a));
    r.push(string_of(&b));
    r.push("/root/.Xauthority".to_owned());
    assert(strs_of(r@) =~= seq![
        runtime_dir_of(uid) + "/gdm/Xauthority"@,
        "/home/"@ + username@ + "/.Xauthority"@,
        "/root/.Xauthority"@,
    ]);
    r
}

impl SessionInfo {
    /// The session found by `detect_active_session`, with its runtime
    /// directory `/run/user/<uid>` and bus address `unix:path=<dir>/bus`.
    pub fn new(
        session_id: String,
        username: String,
        uid: u32,
        display_server: DisplayServer,
        display: Option<String>,
        xauthority: Option<String>,
    ) -> (r: SessionInfo)
        ensures
            r.session_id == session_id,
            r.username == username,
            r.uid == uid,
            r.display_server == display_server,
            r.display == display,
            r.xauthority == xauthority,
            r.xdg_runtime_dir@ == runtime_dir_of(uid),
            r.dbus_address@ == "unix:path="@ + runtime_dir_of(uid) + "/bus"@,
    {
        let mut dir = chars_of("/run/user/");
        extend(&mut dir, &u64_text(uid as u64));
        let mut bus = chars_of("unix:path=");
        extend(&mut bus, &dir);
        extend(&mut bus, &chars_of("/bus"));
        proof {
            assert(bus@ =~= "unix:path="@ + runtime_dir_of(uid) + "/bus"@);
        }
        SessionInfo {
            session_id,
            username,
            uid,
            display_server,
            display,
            xauthority,
            dbus_address: string_of(&bus),
            xdg_runtime_dir: string_of(&dir),
        }
    }
}


/// The desktop that the session user's process list (`ps aux`, lowercased)
/// shows running.
pub open spec fn session_ps_desktop(l: Seq<char>) -> Option<DesktopKind> {
    if has_sub(l, "gnome-shell"@) || has_sub(l, "gnome-session"@) {
        Some(DesktopKind::Gnome)
    } else if has_sub(l, "plasmashell"@) || has_sub(l, "kde"@) {
        Some(DesktopKind::Kde)
    } else if has_sub(l, "xfce4-session"@) || has_sub(l, "xfwm4"@) {
        Some(DesktopKind::Xfce)
    } else if has_sub(l, "lxsession"@) || has_sub(l, "lxde"@) {
        Some(DesktopKind::Lxde)
    } else {
        None
    }
}

/// The desktop that the system-wide process list (`ps aux`, lowercased)
/// shows running.
pub open spec fn system_ps_desktop(l: Seq<char>) -> Option<DesktopKind> {
    if has_sub(l, "gnome-shell"@) {
        Some(DesktopKind::Gnome)
    } else if has_sub(l, "plasmashell"@) {
        Some(DesktopKind::Kde)
    } else if has_sub(l, "xfce4-session"@) {
        Some(DesktopKind::Xfce)
    } else {
        None
    }
}

/// What a process list shows, when the command ran.
pub open spec fn ps_desktop(o: Option<CmdOutput>, in_session: bool) -> Option<DesktopKind> {
    match o {
        Some(c) => if in_session {
            session_ps_desktop(lowercase_of(c.stdout@))
        } else {
            system_ps_desktop(lowercase_of(c.stdout@))
        },
        None => None,
    }
}

/// The `/proc` scan has run and found no desktop.
pub open spec fn scanned_nothing(p: Option<Option<DesktopEnvironment>>) -> bool {
    match p {
        Some(None) => true,
        _ => false,
    }
}

/// The desktop that the `/proc` scan found, once it has run.
pub open spec fn scanned_desktop(p: Option<Option<DesktopEnvironment>>) -> Option<DesktopKind> {
    match p {
        Some(Some(d)) => Some(d@),
        _ => None,
    }
}

/// What the desktop search needs next.
#[derive(Debug, Clone)]
pub enum DesktopProbe {
    /// Look for a `gnome-shell` process's `XDG_CURRENT_DESKTOP` under `/proc`.
    ScanProc,
    Run(Invocation),
}

/// `r` is finished with a desktop whose view is `k`.
pub open spec fn gives_desktop(r: Next<DesktopProbe, DesktopEnvironment>, k: DesktopKind) -> bool {
    match r {
        Next::Done(d) => d@ == k,
        Next::Probe(_) => false,
    }
}

/// `r` asks for the `/proc` scan.
pub open spec fn asks_scan(r: Next<DesktopProbe, DesktopEnvironment>) -> bool {
    match r {
        Next::Probe(DesktopProbe::ScanProc) => true,
        _ => false,
    }
}

/// `r` asks for `ps aux`, run there.
pub open spec fn asks_ps(r: Next<DesktopProbe, DesktopEnvironment>, run_in: RunIn) -> bool {
    match r {
        Next::Probe(DesktopProbe::Run(inv)) => runs(inv, "ps"@, seq!["aux"@], run_in),
        _ => false,
    }
}

fn ps_shows(o: &Option<CmdOutput>, in_session: bool) -> (r: Option<DesktopEnvironment>)
    ensures
        match ps_desktop(*o, in_session) {
            Some(k) => r matches Some(d) && d@ == k,
            None => r is None,
        },
{
    let c = match o {
        Some(c) => c,
        None => return None,
    };
    let l = lower(&chars_of(c.stdout.as_str()));
    if in_session {
        if has(&l, "gnome-shell") || has(&l, "gnome-session") {
            Some(DesktopEnvironment::Gnome)
        } else if has(&l, "plasmashell") || has(&l, "kde") {
            Some(DesktopEnvironment::Kde)
        } else if has(&l, "xfce4-session") || has(&l, "xfwm4") {
            Some(DesktopEnvironment::Xfce)
        } else if has(&l, "lxsession") || has(&l, "lxde") {
            Some(DesktopEnvironment::Lxde)
        } else {
            None
        }
    } else {
        if has(&l, "gnome-shell") {
            Some(DesktopEnvironment::Gnome)
        } else if has(&l, "plasmashell") {
            Some(DesktopEnvironment::Kde)
        } else if has(&l, "xfce4-session") {
            Some(DesktopEnvironment::Xfce)
        } else {
            None
        }
    }
}

/// The desktop environment: what `XDG_CURRENT_DESKTOP` (or `DESKTOP_SESSION`)
/// names (`env_name`); with a session, what a `gnome-shell` process's
/// environment names (`from_proc`: `None` until scanned, then what the scan
/// found), then what the user's `ps aux` shows; then what the system-wide
/// `ps aux` shows; else unknown. `outputs` holds the `ps aux` answers.
pub fn detect_desktop(
    env_name: &Option<String>,
    session: &Option<SessionInfo>,
    from_proc: &Option<Option<DesktopEnvironment>>,
    outputs: &Vec<Option<CmdOutput>>,
) -> (r: Next<DesktopProbe, DesktopEnvironment>)
    ensures
        match env_name {
            Some(n) => gives_desktop(r, desktop_from_name(n@, lowercase_of(n@))),
            None => {
                let o = outputs@;
                let k: int = if session is Some { 1 } else { 0 };
                let before_system = session is Some ==> {
                    &&& scanned_nothing(*from_proc)
                    &&& o.len() >= 1
                    &&& ps_desktop(o[0], true) is None
                };
                &&& session is Some && from_proc is None ==> asks_scan(r)
                &&& session is Some && scanned_desktop(*from_proc) is Some ==> gives_desktop(
                    r,
                    scanned_desktop(*from_proc)->0,
                )
                &&& session is Some && scanned_nothing(*from_proc) && o.len() == 0 ==> asks_ps(
                    r,
                    RunIn::Session,
                )
                &&& session is Some && scanned_nothing(*from_proc) && o.len() >= 1 && ps_desktop(
                    o[0],
                    true,
                ) is Some ==> gives_desktop(r, ps_desktop(o[0], true)->0)
                &&& before_system && o.len() == k ==> asks_ps(r, RunIn::System)
                &&& before_system && o.len() > k ==> gives_desktop(
                    r,
                    match ps_desktop(o[k], false) {
                        Some(d) => d,
                        None => DesktopKind::Unknown(Seq::empty()),
                    },
                )
            },
        },
{
    match env_name {
        Some(n) => return Next::Done(parse_desktop_string(n.as_str())),
        None => {},
    }
    let mut k: usize = 0;
    if session.is_some() {
        match from_proc {
            None => return Next::Probe(DesktopProbe::ScanProc),
            Some(Some(d)) => return Next::Done(d.clone_desktop()),
            Some(None) => {},
        }
        if outputs.len() == 0 {
            return Next::Probe(DesktopProbe::Run(run1("ps", "aux", RunIn::Session)));
        }
        match ps_shows(&outputs[0], true) {
            Some(d) => return Next::Done(d),
            None => {},
        }
        k = 1;
    }
    if outputs.len() == k {
        return Next::Probe(DesktopProbe::Run(run1("ps", "aux", RunIn::System)));
    }
    match ps_shows(&outputs[k], false) {
        Some(d) => Next::Done(d),
        None => Next::Done(DesktopEnvironment::Unknown(String::new())),
    }
}

impl DesktopEnvironment {
    /// A copy of this value.
    pub fn clone_desktop(&self) -> (r: DesktopEnvironment)
        ensures
            r@ == self@,
    {
        match self {
            DesktopEnvironment::Gnome => DesktopEnvironment::Gnome,
            DesktopEnvironment::Kde => DesktopEnvironment::Kde,
            DesktopEnvironment::Xfce => DesktopEnvironment::Xfce,
            DesktopEnvironment::Lxde => DesktopEnvironment::Lxde,
            DesktopEnvironment::Unknown(s) => DesktopEnvironment::Unknown(s.as_str().to_owned()),
        }
    }
}

impl SystemState {
    /// The snapshot made of what each detection found. With a session, the
    /// display server is the session's (`detect_display_server`); without
    /// `grdctl`, RDP is not enabled (`check_rdp_enabled`).
    pub fn collect(
        os: OsInfo,
        session: Option<SessionInfo>,
        desktop: DesktopEnvironment,
        display_server: DisplayServer,
        has_monitor: bool,
        grdctl_path: Option<String>,
        rdp_enabled: bool,
        rdp_port_open: bool,
        local_ip: Option<String>,
    ) -> (r: SystemState)
        requires
            session matches Some(s) ==> display_server == s.display_server,
            grdctl_path is None ==> !rdp_enabled,
        ensures
            r.os == os,
            r.session == session,
            r.desktop == desktop,
            r.display_server == display_server,
            r.has_monitor == has_monitor,
            r.grdctl_path == grdctl_path,
            r.rdp_enabled == rdp_enabled,
            r.rdp_port_open == rdp_port_open,
            r.local_ip == local_ip,
    {
        SystemState {
            os,
            desktop,
            display_server,
            session,
            has_monitor,
            grdctl_path,
            rdp_enabled,
            rdp_port_open,
            local_ip,
        }
    }
}

} // verus!
